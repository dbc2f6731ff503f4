//! The course of a verification run, as mathematical values: what the run has
//! found and written so far, what it asks for next, and what each answer
//! changes. The laws of the run are stated and proved here; `verify` holds
//! the code that follows this course.
//!
//! Two policies are fixed here. A file that a record names and that cannot
//! be read is reported, but does not count as a mismatch. A malformed line is
//! counted apart from the mismatches; it is reported only under `warn`, and
//! it makes the run fail only under `strict`.

use crate::checksum::{
    first_separator, lemma_first_separator_is_least, lemma_parse_inverts_line, malformed_message,
    parse_line, separator_at, DigestRecord,
};
use crate::config::Policy;
use crate::digest::{digested, fold_hex, is_digest, is_hex_digit, same_digest};
use crate::generate::generated_upto;
use crate::report::{cause_line, failed_line, ok_line, summary_line, Lines, Outcome};
use crate::text::{
    has_no_line_feed, is_blank, is_whitespace, join_lines, lemma_split_inverts_join, split_lines,
    trim,
};
use vstd::prelude::*;

verus! {

/// What became of a record whose file gave `computed`: the digest's text, or
/// the cause for which the file could not be read. The recorded digest
/// matches the computed one if they are the same but for the case of their
/// hexadecimal letters.
pub open spec fn target_outcome(
    record: DigestRecord,
    computed: Result<Seq<char>, Seq<char>>,
) -> Outcome {
    match computed {
        Ok(hash) => if same_digest(record.hash, hash) {
            Outcome::Matched
        } else {
            Outcome::Mismatched
        },
        Err(cause) => Outcome::TargetUnreadable(cause),
    }
}

/// The records that stand on `lines`, in order: one for each line that has
/// one.
pub open spec fn records_in(lines: Seq<Seq<char>>) -> Seq<DigestRecord>
    decreases lines.len(),
{
    if lines.len() == 0 {
        Seq::empty()
    } else {
        let before = records_in(lines.drop_last());
        match parse_line(lines.last()) {
            Some(record) => before.push(record),
            None => before,
        }
    }
}

/// The records to check after a manifest was read: those on the lines of its
/// text, or none where it could not be read.
pub open spec fn manifest_records(read: Result<Seq<char>, Seq<char>>) -> Seq<DigestRecord> {
    match read {
        Ok(text) => records_in(split_lines(text)),
        Err(_) => Seq::empty(),
    }
}

/// The mathematical value of what the caller is asked to do next.
pub enum Step {
    /// Read the manifest at this path as text.
    ReadManifest(Seq<char>),
    /// Read the file at this path as bytes.
    ReadTarget(Seq<char>),
    /// Nothing: the run is over.
    Finished,
}

/// The mathematical value of what the caller reports.
pub enum Answer {
    /// Nothing yet: the run starts.
    Start,
    /// What reading the manifest gave: its text, or the cause of the failure.
    Manifest(Result<Seq<char>, Seq<char>>),
    /// What reading the file gave: its bytes, or the cause of the failure.
    Target(Result<Seq<u8>, Seq<char>>),
    /// What hashing the file gave: the digest's text, or the cause for which
    /// the file could not be read.
    Digest(Result<Seq<char>, Seq<char>>),
}

/// The mathematical value of a verifier: the policy, the records that did
/// not match, the lines that were malformed, what was written, and where the
/// run stands.
pub struct Run {
    pub policy: Policy,
    pub failures: Seq<DigestRecord>,
    pub malformed: Seq<Seq<char>>,
    pub lines: Lines,
    /// How many of the input files have been taken as manifests.
    pub cursor: nat,
    /// The records of the last manifest that are still to be checked.
    pub pending: Seq<DigestRecord>,
    /// Whether the run is over.
    pub done: bool,
}

impl Run {
    /// The verifier before anything has happened.
    pub open spec fn start(policy: Policy) -> Run {
        Run {
            policy,
            failures: Seq::empty(),
            malformed: Seq::empty(),
            lines: Lines::empty(),
            cursor: 0,
            pending: Seq::empty(),
            done: false,
        }
    }

    /// After the manifest at `path` was read. Its text is taken line by line.
    /// A failure to read it is reported as the policy asks, and changes
    /// nothing else.
    pub open spec fn after_manifest(
        self,
        path: Seq<char>,
        read: Result<Seq<char>, Seq<char>>,
    ) -> Run {
        match read {
            Ok(text) => self.after_lines(path, split_lines(text)),
            Err(cause) => Run {
                lines: self.lines.with(self.policy, path, Outcome::ManifestUnreadable(cause)),
                ..self
            },
        }
    }

    /// After the given lines of the manifest at `manifest`, taken in order.
    pub open spec fn after_lines(self, manifest: Seq<char>, lines: Seq<Seq<char>>) -> Run
        decreases lines.len(),
    {
        if lines.len() == 0 {
            self
        } else {
            self.after_lines(manifest, lines.drop_last()).after_line(manifest, lines.last())
        }
    }

    /// After one line of the manifest at `manifest`. A blank line and a line
    /// with a record change nothing. Any other line is malformed: it is
    /// counted, and reported as the policy asks.
    pub open spec fn after_line(self, manifest: Seq<char>, line: Seq<char>) -> Run {
        if is_blank(line) || parse_line(line) is Some {
            self
        } else {
            Run {
                malformed: self.malformed.push(line),
                lines: self.lines.with(
                    self.policy,
                    manifest,
                    Outcome::LineMalformed(malformed_message(line)),
                ),
                ..self
            }
        }
    }

    /// After `outcome` was found for `record`. The outcome is reported as the
    /// policy asks; a record that did not match is kept.
    pub open spec fn after_target(self, record: DigestRecord, outcome: Outcome) -> Run {
        Run {
            failures: if outcome is Mismatched {
                self.failures.push(record)
            } else {
                self.failures
            },
            lines: self.lines.with(self.policy, record.path, outcome),
            ..self
        }
    }

    /// After the last manifest. Where records did not match, the summary
    /// with their number goes to the primary channel.
    pub open spec fn after_finish(self) -> Run {
        if self.failures.len() > 0 {
            Run { lines: self.lines.say(summary_line(self.failures.len())), ..self }
        } else {
            self
        }
    }

    /// What the caller is asked to do next. The records of a manifest are
    /// checked in order before the next manifest is taken; the manifests are
    /// the input files, in order.
    pub open spec fn next(self) -> Step {
        if self.done {
            Step::Finished
        } else if self.pending.len() > 0 {
            Step::ReadTarget(self.pending.first().path)
        } else if self.cursor < self.policy.input_files.len() {
            Step::ReadManifest(self.policy.input_files[self.cursor as int])
        } else {
            Step::Finished
        }
    }

    /// The run is ended as soon as nothing is left to do: the summary is
    /// written, once, and the run is marked as over.
    pub open spec fn wound_up(self) -> Run {
        if !self.done && self.next() is Finished {
            Run { done: true, ..self.after_finish() }
        } else {
            self
        }
    }

    /// After the digest of the first pending record's file was computed, or
    /// the file could not be read: the record is checked, and is pending no
    /// longer.
    pub open spec fn after_digest(self, computed: Result<Seq<char>, Seq<char>>) -> Run {
        let record = self.pending.first();
        Run {
            pending: self.pending.drop_first(),
            ..self.after_target(record, target_outcome(record, computed))
        }.wound_up()
    }

    /// After the caller's answer. An answer to what was asked moves the run
    /// on: a manifest is taken and its records become pending; a file is
    /// checked against the first pending record. Any other answer changes
    /// nothing, but that a run with nothing left to do is ended.
    pub open spec fn after_event(self, answer: Answer) -> Run {
        match self.next() {
            Step::ReadManifest(path) => match answer {
                Answer::Manifest(read) => Run {
                    cursor: self.cursor + 1,
                    pending: manifest_records(read),
                    ..self.after_manifest(path, read)
                }.wound_up(),
                _ => self,
            },
            Step::ReadTarget(_) => match answer {
                Answer::Target(read) => self.after_digest(digested(read)),
                Answer::Digest(computed) => self.after_digest(computed),
                _ => self,
            },
            Step::Finished => self.wound_up(),
        }
    }

    /// After the lines written so far were taken away.
    pub open spec fn after_drain(self) -> Run {
        Run { lines: Lines::empty(), ..self }
    }

    /// The exit status that the run deserves: 1 where a record did not match,
    /// or where a line was malformed under `strict`; else 0.
    pub open spec fn status(self) -> u8 {
        if self.failures.len() > 0 || (self.policy.strict && self.malformed.len() > 0) {
            1
        } else {
            0
        }
    }
}

/// A line with a file's true digest is accepted and the file is reported as
/// matching. For every well-formed record whose path is not empty and does
/// not end in white space: its line parses to the record and changes nothing;
/// against a computed digest that is the recorded one but for the case of the
/// letters, the outcome is a match; and the match is reported with one `OK`
/// line on the primary channel, or with none under `quiet`, while the records
/// that did not match, the diagnostic channel and the exit status stay as
/// they were.
pub proof fn lemma_true_digest_matches(
    run: Run,
    manifest: Seq<char>,
    record: DigestRecord,
    computed: Seq<char>,
)
    requires
        record.well_formed(),
        record.path.len() > 0,
        !is_whitespace(record.path.last()),
        same_digest(record.hash, computed),
    ensures
        parse_line(record.line()) == Some(record),
        run.after_line(manifest, record.line()) == run,
        target_outcome(record, Ok(computed)) == Outcome::Matched,
        run.after_target(record, Outcome::Matched).failures == run.failures,
        run.after_target(record, Outcome::Matched).malformed == run.malformed,
        run.after_target(record, Outcome::Matched).status() == run.status(),
        run.after_target(record, Outcome::Matched).lines.errors == run.lines.errors,
        run.after_target(record, Outcome::Matched).lines.output == if run.policy.quiet {
            run.lines.output
        } else {
            run.lines.output.push(ok_line(record.path))
        },
{
    lemma_parse_inverts_line(record);
}

/// A digest with one digit altered is reported as failed, whatever the
/// policy. Take a digest text `computed`, and a record whose digest is that
/// text but for one place, where another hexadecimal digit `c` stands, one
/// that is not the same digit in another case. Then the record's line parses
/// to the record, the outcome against `computed` is a mismatch, the record is
/// added to those that did not match, one `FAILED` line goes to the
/// diagnostic channel, the primary channel stays as it was, and the exit
/// status is 1.
pub proof fn lemma_altered_digest_fails(
    run: Run,
    computed: Seq<char>,
    path: Seq<char>,
    i: int,
    c: char,
)
    requires
        is_digest(computed),
        path.len() > 0,
        !is_whitespace(path.last()),
        0 <= i < computed.len(),
        is_hex_digit(c),
        fold_hex(c) != fold_hex(computed[i]),
    ensures
        ({
            let altered = DigestRecord { hash: computed.update(i, c), path };
            let after = run.after_target(altered, Outcome::Mismatched);
            &&& parse_line(altered.line()) == Some(altered)
            &&& target_outcome(altered, Ok(computed)) == Outcome::Mismatched
            &&& after.failures == run.failures.push(altered)
            &&& after.failures.len() == run.failures.len() + 1
            &&& after.malformed == run.malformed
            &&& after.lines.errors == run.lines.errors.push(failed_line(path))
            &&& after.lines.output == run.lines.output
            &&& after.status() == 1
        }),
{
    let altered = DigestRecord { hash: computed.update(i, c), path };
    assert forall|j: int| 0 <= j < altered.hash.len() implies is_hex_digit(
        #[trigger] altered.hash[j],
    ) by {
        if j != i {
            assert(is_hex_digit(computed[j]));
        }
    }
    lemma_parse_inverts_line(altered);
    assert(fold_hex(altered.hash[i]) != fold_hex(computed[i]));
}

/// A line without the separator is reported only under `warn`. For every
/// line that is not blank and in which, once trimmed, no two spaces stand
/// side by side: the line has no record; it is counted as malformed; under
/// `warn` one line goes to the diagnostic channel, which names the manifest
/// and carries the line, and without `warn` none; the primary channel and the
/// records that did not match stay as they were.
pub proof fn lemma_malformed_line_policy(run: Run, manifest: Seq<char>, line: Seq<char>)
    requires
        !is_blank(line),
        first_separator(trim(line)) is None,
    ensures
        parse_line(line) is None,
        run.after_line(manifest, line).failures == run.failures,
        run.after_line(manifest, line).malformed == run.malformed.push(line),
        run.after_line(manifest, line).lines.output == run.lines.output,
        run.after_line(manifest, line).lines.errors == if run.policy.warn {
            run.lines.errors.push(cause_line(manifest, malformed_message(line)))
        } else {
            run.lines.errors
        },
{
}

/// A blank line leaves no trace: nothing is counted and nothing is written.
pub proof fn lemma_blank_line_is_skipped(run: Run, manifest: Seq<char>, line: Seq<char>)
    requires
        is_blank(line),
    ensures
        parse_line(line) is None,
        run.after_line(manifest, line) == run,
{
    lemma_first_separator_is_least(trim(line));
    if first_separator(trim(line)) is Some {
        let i = first_separator(trim(line))->0;
        assert(separator_at(trim(line), i));
    }
}

/// A file that cannot be read is reported unless `ignore_missing` is set. For
/// a manifest as for a file that a record names: under `ignore_missing`
/// nothing is written; without it one line goes to the diagnostic channel,
/// made of the path and the cause. In both cases the primary channel, the
/// records that did not match and the exit status stay as they were.
pub proof fn lemma_missing_file_policy(
    run: Run,
    path: Seq<char>,
    record: DigestRecord,
    cause: Seq<char>,
)
    ensures
        manifest_records(Err(cause)) == Seq::<DigestRecord>::empty(),
        run.after_manifest(path, Err(cause)).lines.output == run.lines.output,
        run.after_manifest(path, Err(cause)).lines.errors == if run.policy.ignore_missing {
            run.lines.errors
        } else {
            run.lines.errors.push(cause_line(path, cause))
        },
        run.after_manifest(path, Err(cause)).failures == run.failures,
        run.after_manifest(path, Err(cause)).status() == run.status(),
        target_outcome(record, Err(cause)) == Outcome::TargetUnreadable(cause),
        run.after_target(record, Outcome::TargetUnreadable(cause)).lines.output
            == run.lines.output,
        run.after_target(record, Outcome::TargetUnreadable(cause)).lines.errors
            == if run.policy.ignore_missing {
            run.lines.errors
        } else {
            run.lines.errors.push(cause_line(record.path, cause))
        },
        run.after_target(record, Outcome::TargetUnreadable(cause)).failures == run.failures,
        run.after_target(record, Outcome::TargetUnreadable(cause)).status() == run.status(),
{
}

/// `quiet` silences matches and nothing else. Under `quiet` a match writes
/// nothing; a mismatch still writes its `FAILED` line to the diagnostic
/// channel; and at the end, where records did not match, the summary with
/// their number still goes to the primary channel.
pub proof fn lemma_quiet_scope(run: Run, record: DigestRecord)
    requires
        run.policy.quiet,
    ensures
        run.after_target(record, Outcome::Matched).lines == run.lines,
        run.after_target(record, Outcome::Mismatched).lines.errors == run.lines.errors.push(
            failed_line(record.path),
        ),
        run.failures.len() > 0 ==> run.after_finish().lines.output
            == run.lines.output.push(summary_line(run.failures.len())),
        run.failures.len() == 0 ==> run.after_finish() == run,
{
}

/// Lines change neither the policy, nor the records that did not match, nor
/// the primary channel, nor where the run stands.
pub proof fn lemma_lines_keep_the_count(run: Run, manifest: Seq<char>, lines: Seq<Seq<char>>)
    ensures
        run.after_lines(manifest, lines).policy == run.policy,
        run.after_lines(manifest, lines).failures == run.failures,
        run.after_lines(manifest, lines).lines.output == run.lines.output,
        run.after_lines(manifest, lines).cursor == run.cursor,
        run.after_lines(manifest, lines).pending == run.pending,
        run.after_lines(manifest, lines).done == run.done,
    decreases lines.len(),
{
    if lines.len() > 0 {
        lemma_lines_keep_the_count(run, manifest, lines.drop_last());
    }
}

/// Only mismatches count: after any step, the number of records that did not
/// match has grown by one if the step was a mismatch, and not at all
/// otherwise.
pub proof fn lemma_only_mismatches_count(
    run: Run,
    path: Seq<char>,
    line: Seq<char>,
    read: Result<Seq<char>, Seq<char>>,
    record: DigestRecord,
    outcome: Outcome,
)
    ensures
        run.after_manifest(path, read).failures == run.failures,
        run.after_line(path, line).failures == run.failures,
        run.after_finish().failures == run.failures,
        run.after_target(record, outcome).failures.len() == run.failures.len() + if outcome
            is Mismatched {
            1nat
        } else {
            0nat
        },
{
    if let Ok(text) = read {
        lemma_lines_keep_the_count(run, path, split_lines(text));
    }
}

/// Every answer to what was asked moves the run on: a manifest moves the
/// cursor to the next input file, a file takes one record off the pending
/// ones and leaves the cursor where it is, and where nothing was left to do
/// the run is over.
pub proof fn lemma_run_moves_on(
    run: Run,
    text: Result<Seq<char>, Seq<char>>,
    computed: Result<Seq<char>, Seq<char>>,
    answer: Answer,
)
    requires
        !run.done,
    ensures
        run.next() is ReadManifest ==> run.after_event(Answer::Manifest(text)).cursor
            == run.cursor + 1,
        run.next() is ReadTarget ==> run.after_event(Answer::Digest(computed)).cursor
            == run.cursor && run.after_event(Answer::Digest(computed)).pending.len()
            == run.pending.len() - 1,
        run.next() is Finished ==> run.after_event(answer).done,
        run.after_event(answer).done <==> run.after_event(answer).next() is Finished,
{
    if let Ok(t) = text {
        lemma_lines_keep_the_count(run, run.policy.input_files[run.cursor as int], split_lines(t));
    }
}

/// Once the run is over nothing changes any more, whatever the caller
/// reports.
pub proof fn lemma_nothing_after_the_end(run: Run, answer: Answer)
    requires
        run.done,
    ensures
        run.after_event(answer) == run,
{
}

/// The summary is written once, when the run ends: the step that ends a run
/// in which `n > 0` records did not match adds the summary for `n` to the
/// primary channel, and the step that ends a run without mismatch adds
/// nothing.
pub proof fn lemma_summary_at_the_end(run: Run)
    requires
        !run.done,
        run.next() is Finished,
    ensures
        run.wound_up().done,
        run.wound_up().failures == run.failures,
        run.wound_up().lines.errors == run.lines.errors,
        run.wound_up().lines.output == if run.failures.len() > 0 {
            run.lines.output.push(summary_line(run.failures.len()))
        } else {
            run.lines.output
        },
{
}

/// The record that generation writes for the file at index `i`, where the
/// file could be read.
pub open spec fn generated_record(
    paths: Seq<Seq<char>>,
    computed: Seq<Result<Seq<char>, Seq<char>>>,
    i: int,
) -> DigestRecord {
    DigestRecord { hash: computed[i]->Ok_0, path: paths[i] }
}

/// What generation writes, verification accepts. Where each of the first `n`
/// files could be read and gave a digest text, and each path is not empty
/// and does not end in white space: generation writes `n` lines to the
/// primary channel and none to the other; taken as the lines of a manifest,
/// they hold the `n` records that were written, in order; and none of them
/// is malformed.
pub proof fn lemma_generated_lines_are_accepted(
    run: Run,
    manifest: Seq<char>,
    paths: Seq<Seq<char>>,
    computed: Seq<Result<Seq<char>, Seq<char>>>,
    n: nat,
)
    requires
        n <= paths.len(),
        n <= computed.len(),
        forall|i: int|
            0 <= i < n ==> (#[trigger] computed[i]) is Ok && is_digest(computed[i]->Ok_0)
                && paths[i].len() > 0 && !is_whitespace(paths[i].last()),
    ensures
        generated_upto(paths, computed, n).errors.len() == 0,
        generated_upto(paths, computed, n).output.len() == n,
        records_in(generated_upto(paths, computed, n).output) == Seq::new(
            n,
            |i: int| generated_record(paths, computed, i),
        ),
        run.after_lines(manifest, generated_upto(paths, computed, n).output) == run,
    decreases n,
{
    let written = generated_upto(paths, computed, n).output;
    if n == 0 {
        assert(records_in(written) =~= Seq::new(
            0,
            |i: int| generated_record(paths, computed, i),
        ));
    } else {
        let m = (n - 1) as nat;
        lemma_generated_lines_are_accepted(run, manifest, paths, computed, m);
        let before = generated_upto(paths, computed, m).output;
        let record = generated_record(paths, computed, m as int);
        assert(computed[m as int] is Ok);
        assert(written == before.push(record.line()));
        assert(written.drop_last() =~= before);
        lemma_parse_inverts_line(record);
        assert(records_in(written) =~= Seq::new(
            n,
            |i: int| generated_record(paths, computed, i),
        ));
    }
}

/// Each line that generation writes for files that could be read is the line
/// of the record written for them.
pub proof fn lemma_generated_lines(
    paths: Seq<Seq<char>>,
    computed: Seq<Result<Seq<char>, Seq<char>>>,
    n: nat,
)
    requires
        n <= paths.len(),
        n <= computed.len(),
        forall|i: int| 0 <= i < n ==> (#[trigger] computed[i]) is Ok,
    ensures
        generated_upto(paths, computed, n).output.len() == n,
        forall|i: int|
            0 <= i < n ==> #[trigger] generated_upto(paths, computed, n).output[i]
                == generated_record(paths, computed, i).line(),
    decreases n,
{
    if n > 0 {
        let m = (n - 1) as nat;
        lemma_generated_lines(paths, computed, m);
        assert(computed[m as int] is Ok);
        let before = generated_upto(paths, computed, m).output;
        let written = generated_upto(paths, computed, n).output;
        assert(written == before.push(generated_record(paths, computed, m as int).line()));
    }
}

/// Files that have not changed pass. Take what generation writes for `n`
/// files as in `lemma_generated_lines_are_accepted`, whose paths hold no
/// line feed either, and make a manifest of it, each line closed by a line
/// feed. Then taking that manifest changes nothing in the run, so that no
/// line counts as malformed; the records to check are the `n` records that
/// were written, in order; and each of them matches the digest that it was
/// written with.
pub proof fn lemma_unchanged_files_pass(
    run: Run,
    manifest: Seq<char>,
    paths: Seq<Seq<char>>,
    computed: Seq<Result<Seq<char>, Seq<char>>>,
    n: nat,
)
    requires
        n <= paths.len(),
        n <= computed.len(),
        forall|i: int|
            0 <= i < n ==> (#[trigger] computed[i]) is Ok && is_digest(computed[i]->Ok_0)
                && paths[i].len() > 0 && !is_whitespace(paths[i].last()),
        forall|i: int| 0 <= i < n ==> has_no_line_feed(#[trigger] paths[i]),
    ensures
        ({
            let written = generated_upto(paths, computed, n).output;
            let text = join_lines(written.push(Seq::empty()));
            &&& manifest_records(Ok(text)) == Seq::new(
                n,
                |i: int| generated_record(paths, computed, i),
            )
            &&& run.after_manifest(manifest, Ok(text)) == run
            &&& forall|i: int|
                0 <= i < n ==> target_outcome(
                    #[trigger] generated_record(paths, computed, i),
                    computed[i],
                ) == Outcome::Matched
        }),
{
    reveal_strlit("  ");
    let empty = Seq::<char>::empty();
    let written = generated_upto(paths, computed, n).output;
    let lines = written.push(empty);
    lemma_generated_lines_are_accepted(run, manifest, paths, computed, n);
    lemma_generated_lines(paths, computed, n);
    assert forall|i: int| 0 <= i < lines.len() implies has_no_line_feed(#[trigger] lines[i]) by {
        if i < n {
            let record = generated_record(paths, computed, i);
            assert(lines[i] == record.line());
            assert forall|k: int| 0 <= k < record.line().len() implies #[trigger] record.line()[k]
                != '\n' by {
                if k < record.hash.len() {
                    assert(is_hex_digit(record.hash[k]));
                } else if k >= record.hash.len() + 2 {
                    assert(record.line()[k] == record.path[k - record.hash.len() - 2]);
                }
            }
        }
    }
    lemma_split_inverts_join(lines);
    assert(lines.drop_last() =~= written);
    lemma_blank_line_is_skipped(run.after_lines(manifest, written), manifest, empty);
    assert(is_blank(empty));
}

} // verus!
