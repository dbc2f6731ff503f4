//! Verification: the lines of a manifest are parsed, the files that they name
//! are hashed again, and each result is reported as the policy asks.
//!
//! Reading files is left to the caller. The verifier says which file it
//! wants next, is told what reading it gave, decides what follows from it,
//! and keeps the lines to be written. A run is a loop around `verify`:
//! start with `Event::Start`, do what the returned `Action` asks, hand the
//! result back as the next event, and stop at `Action::Finished`.
//!
//! What each step does is stated in `run`, over the mathematical value of the
//! verifier. The parts of a step are public too: `open_manifest` takes a
//! manifest, `verify_checksum` checks one record, `finish` writes the
//! summary.

use crate::checksum::{parse_line, Checksum, ChecksumError, DigestRecord};
use crate::config::{Config, Policy};
use crate::digest::{digest_of_read, digested, digests_match, read_view, text_view};
use crate::report::{render_summary, Report, VerificationOutcome};
use crate::run::{
    lemma_lines_keep_the_count, manifest_records, records_in, target_outcome, Answer, Run, Step,
};
use crate::text::{is_blank_line, lines_of, split_lines, texts};
use vstd::prelude::*;

verus! {

/// The views of a sequence of records.
pub open spec fn records(v: Seq<Checksum>) -> Seq<DigestRecord> {
    v.map_values(|c: Checksum| c@)
}

/// The lines that a sequence of parse errors carry.
pub open spec fn rejected(v: Seq<ChecksumError>) -> Seq<Seq<char>> {
    v.map_values(|e: ChecksumError| e@)
}

/// What became of `checksum`, given the digest's text computed from its file
/// or the cause for which the file could not be read.
pub fn judge(checksum: &Checksum, computed: &Result<String, String>) -> (outcome:
    VerificationOutcome)
    ensures
        outcome@ == target_outcome(checksum@, text_view(*computed)),
{
    match computed {
        Ok(hash) => {
            if digests_match(checksum.hash.as_str(), hash.as_str()) {
                VerificationOutcome::Matched
            } else {
                VerificationOutcome::Mismatched
            }
        },
        Err(cause) => VerificationOutcome::TargetUnreadable(cause.clone()),
    }
}

/// What became of `checksum`, given what reading its file gave: the bytes,
/// which are hashed and compared, or the cause of the failure.
pub fn verify_checksum(checksum: &Checksum, read: &Result<Vec<u8>, String>) -> (outcome:
    VerificationOutcome)
    ensures
        outcome@ == target_outcome(checksum@, digested(read_view(*read))),
{
    let computed = digest_of_read(read);
    judge(checksum, &computed)
}

/// What the caller of `Verifier::verify` is asked to do next.
#[derive(Debug, Clone, PartialEq, Eq)]
pub enum Action {
    /// Read the manifest at this path as text.
    ReadManifest(String),
    /// Read the file at this path as bytes.
    ReadTarget(String),
    /// Nothing: the run is over.
    Finished,
}

impl View for Action {
    type V = Step;

    open spec fn view(&self) -> Step {
        match self {
            Action::ReadManifest(path) => Step::ReadManifest(path@),
            Action::ReadTarget(path) => Step::ReadTarget(path@),
            Action::Finished => Step::Finished,
        }
    }
}

/// What the caller of `Verifier::verify` reports.
#[derive(Debug, PartialEq, Eq)]
pub enum Event {
    /// Nothing yet: the run starts.
    Start,
    /// What reading the manifest gave: its text, or the cause of the failure.
    Manifest(Result<String, String>),
    /// What reading the file gave: its bytes, or the cause of the failure.
    Target(Result<Vec<u8>, String>),
    /// What hashing the file gave: the digest's text, or the cause for which
    /// the file could not be read.
    Digest(Result<String, String>),
}

impl View for Event {
    type V = Answer;

    open spec fn view(&self) -> Answer {
        match self {
            Event::Start => Answer::Start,
            Event::Manifest(read) => Answer::Manifest(text_view(*read)),
            Event::Target(read) => Answer::Target(read_view(*read)),
            Event::Digest(computed) => Answer::Digest(text_view(*computed)),
        }
    }
}

/// The state of one verification run.
#[derive(Debug)]
pub struct Verifier {
    config: Config,
    failures: Vec<Checksum>,
    malformed: Vec<ChecksumError>,
    report: Report,
    /// How many of the input files have been taken as manifests.
    cursor: usize,
    /// The records of the last manifest; those from `checked` on are pending.
    queue: Vec<Checksum>,
    /// How many records of `queue` have been checked.
    checked: usize,
    /// Whether the run is over.
    done: bool,
}

impl View for Verifier {
    type V = Run;

    closed spec fn view(&self) -> Run {
        Run {
            policy: self.config@,
            failures: records(self.failures@),
            malformed: rejected(self.malformed@),
            lines: self.report@,
            cursor: self.cursor as nat,
            pending: if self.checked <= self.queue.len() {
                records(self.queue@).skip(self.checked as int)
            } else {
                Seq::empty()
            },
            done: self.done,
        }
    }
}

impl Default for Verifier {
    /// A verifier with every flag off and no input file.
    fn default() -> (verifier: Verifier)
        ensures
            verifier@ == Run::start(Policy::empty()),
    {
        Verifier::new(Config::default())
    }
}

impl Verifier {
    /// A verifier for `config`, before anything has happened.
    pub fn new(config: Config) -> (verifier: Verifier)
        ensures
            verifier@ == Run::start(config@),
    {
        let verifier = Verifier {
            config,
            failures: Vec::new(),
            malformed: Vec::new(),
            report: Report::new(),
            cursor: 0,
            queue: Vec::new(),
            checked: 0,
            done: false,
        };
        assert(records(verifier.failures@) =~= Seq::<DigestRecord>::empty());
        assert(rejected(verifier.malformed@) =~= Seq::<Seq<char>>::empty());
        assert(records(verifier.queue@).skip(0) =~= Seq::<DigestRecord>::empty());
        verifier
    }

    /// The configuration of this run.
    pub fn config(&self) -> (config: &Config)
        ensures
            config@ == self@.policy,
    {
        &self.config
    }

    /// The lines written so far.
    pub fn report(&self) -> (report: &Report)
        ensures
            report@ == self@.lines,
    {
        &self.report
    }

    /// The records that did not match, in the order in which they were found.
    pub fn failures(&self) -> (failures: &Vec<Checksum>)
        ensures
            records(failures@) == self@.failures,
    {
        &self.failures
    }

    /// How many records did not match.
    pub fn mismatches(&self) -> (n: usize)
        ensures
            n == self@.failures.len(),
    {
        self.failures.len()
    }

    /// How many lines were malformed.
    pub fn malformed_lines(&self) -> (n: usize)
        ensures
            n == self@.malformed.len(),
    {
        self.malformed.len()
    }

    /// The exit status that the run deserves so far: see `Run::status`.
    pub fn status_code(&self) -> (code: u8)
        ensures
            code == self@.status(),
    {
        if self.failures.len() > 0 || (self.config.strict && self.malformed.len() > 0) {
            1
        } else {
            0
        }
    }

    /// What the caller is asked to do next: see `Run::next`.
    pub fn next_action(&self) -> (action: Action)
        ensures
            action@ == self@.next(),
    {
        if self.done {
            Action::Finished
        } else if self.checked < self.queue.len() {
            Action::ReadTarget(self.queue[self.checked].path.clone())
        } else if self.cursor < self.config.input_files.len() {
            Action::ReadManifest(self.config.input_files[self.cursor].clone())
        } else {
            Action::Finished
        }
    }

    /// Takes the caller's answer and says what to do next. An answer to what
    /// was asked moves the run on: a manifest is taken as `open_manifest`
    /// does, and its records become pending; a file is checked against the
    /// first pending record as `verify_checksum` does. Any other answer
    /// changes nothing. A run with nothing left to do is ended as `finish`
    /// does, once.
    pub fn verify(&mut self, event: &Event) -> (action: Action)
        ensures
            final(self)@ == old(self)@.after_event(event@),
            action@ == final(self)@.next(),
    {
        if !self.done {
            if self.checked < self.queue.len() {
                match event {
                    Event::Target(read) => {
                        let computed = digest_of_read(read);
                        self.check_pending(&computed);
                        self.wind_up();
                    },
                    Event::Digest(computed) => {
                        self.check_pending(computed);
                        self.wind_up();
                    },
                    _ => {},
                }
            } else if self.cursor < self.config.input_files.len() {
                match event {
                    Event::Manifest(read) => {
                        let ghost before = self@;
                        let path = self.config.input_files[self.cursor].clone();
                        assert(before.pending.len() == 0);
                        assert(before.next() == Step::ReadManifest(path@));
                        let found = self.open_manifest(path.as_str(), read);
                        proof {
                            if let Ok(text) = text_view(*read) {
                                lemma_lines_keep_the_count(before, path@, split_lines(text));
                            }
                            assert(self@.policy == before.policy);
                            assert(self@.cursor == before.cursor);
                            assert(texts(self.config.input_files@).len()
                                == self.config.input_files@.len());
                        }
                        self.queue = found;
                        self.checked = 0;
                        self.cursor += 1;
                        assert(records(self.queue@).skip(0) =~= records(self.queue@));
                        self.wind_up();
                    },
                    _ => {},
                }
            } else {
                self.wind_up();
            }
        }
        self.next_action()
    }

    /// Checks the first pending record against the digest computed from its
    /// file, and takes it off the pending ones.
    fn check_pending(&mut self, computed: &Result<String, String>)
        requires
            !old(self).done,
            old(self).checked < old(self).queue.len(),
        ensures
            final(self)@ == (Run {
                pending: old(self)@.pending.drop_first(),
                ..old(self)@.after_target(
                    old(self)@.pending.first(),
                    target_outcome(old(self)@.pending.first(), text_view(*computed)),
                )
            }),
    {
        let ghost before = self@;
        let record = &self.queue[self.checked];
        let checksum = Checksum { hash: record.hash.clone(), path: record.path.clone() };
        assert(before.pending.len() == self.queue.len() - self.checked);
        assert(checksum@ == before.pending.first());
        let outcome = judge(&checksum, computed);
        self.settle(&checksum, &outcome);
        assert(self@.pending == before.pending);
        assert(self.checked < self.queue.len());
        self.checked += 1;
        assert(self@.pending =~= before.pending.drop_first());
    }

    /// Ends the run if nothing is left to do: see `Run::wound_up`.
    fn wind_up(&mut self)
        ensures
            final(self)@ == old(self)@.wound_up(),
    {
        if !self.done && self.checked >= self.queue.len() && self.cursor
            >= self.config.input_files.len() {
            self.finish();
            self.done = true;
        }
    }

    /// Takes the manifest at `path`, given what reading it gave: its text, or
    /// the cause for which it could not be read. The text is taken line by
    /// line, as `read_line` does; a failure to read is reported as the policy
    /// asks. The result holds the records to check, in the order of their
    /// lines.
    pub fn open_manifest(&mut self, path: &str, read: &Result<String, String>) -> (found: Vec<
        Checksum,
    >)
        ensures
            final(self)@ == old(self)@.after_manifest(path@, text_view(*read)),
            records(found@) == manifest_records(text_view(*read)),
            forall|i: int| 0 <= i < found.len() ==> (#[trigger] found[i])@.well_formed(),
    {
        let mut found: Vec<Checksum> = Vec::new();
        assert(records(found@) =~= Seq::<DigestRecord>::empty());
        match read {
            Ok(text) => {
                let lines = lines_of(text.as_str());
                let ghost start = self@;
                let mut i: usize = 0;
                assert(texts(lines@).take(0) =~= Seq::<Seq<char>>::empty());
                while i < lines.len()
                    invariant
                        i <= lines.len(),
                        self@ == start.after_lines(path@, texts(lines@).take(i as int)),
                        records(found@) == records_in(texts(lines@).take(i as int)),
                        forall|k: int| 0 <= k < found.len() ==> (#[trigger] found[k])@.well_formed(),
                    decreases lines.len() - i,
                {
                    let ghost seen = texts(lines@).take(i as int);
                    let ghost next = texts(lines@).take(i + 1);
                    assert(next.drop_last() =~= seen);
                    assert(next.last() == lines@[i as int]@);
                    let ghost before = found@;
                    match self.read_line(path, lines[i].as_str()) {
                        Some(checksum) => {
                            found.push(checksum);
                            assert(records(found@) =~= records(before).push(checksum@));
                        },
                        None => {},
                    }
                    i += 1;
                }
                assert(texts(lines@).take(lines.len() as int) =~= texts(lines@));
            },
            Err(cause) => {
                let outcome = VerificationOutcome::ManifestUnreadable(cause.clone());
                self.report.note(&self.config, path, &outcome);
            },
        }
        found
    }

    /// Takes one line of the manifest at `manifest`. The result is the record
    /// of the line, to be checked against its file, where the line has one. A
    /// blank line is passed over. Any other line is counted as malformed, and
    /// reported as the policy asks.
    pub fn read_line(&mut self, manifest: &str, line: &str) -> (record: Option<Checksum>)
        ensures
            final(self)@ == old(self)@.after_line(manifest@, line@),
            match record {
                Some(checksum) => parse_line(line@) == Some(checksum@) && checksum@.well_formed(),
                None => parse_line(line@) is None,
            },
    {
        match Checksum::parse(line) {
            Ok(checksum) => Some(checksum),
            Err(error) => {
                if !is_blank_line(line) {
                    let outcome = VerificationOutcome::LineMalformed(error.to_string());
                    self.report.note(&self.config, manifest, &outcome);
                    let ghost before = self.malformed@;
                    self.malformed.push(error);
                    assert(rejected(self.malformed@) =~= rejected(before).push(line@));
                }
                None
            },
        }
    }

    /// Takes note of `outcome` for `checksum`: the outcome is reported as the
    /// policy asks, and a record that did not match is kept.
    pub fn settle(&mut self, checksum: &Checksum, outcome: &VerificationOutcome)
        ensures
            final(self)@ == old(self)@.after_target(checksum@, outcome@),
    {
        self.report.note(&self.config, checksum.path.as_str(), outcome);
        match outcome {
            VerificationOutcome::Mismatched => {
                let kept = Checksum { hash: checksum.hash.clone(), path: checksum.path.clone() };
                let ghost before = self.failures@;
                self.failures.push(kept);
                assert(records(self.failures@) =~= records(before).push(checksum@));
            },
            _ => {},
        }
    }

    /// Checks `checksum` against what reading its file gave: the bytes, which
    /// are hashed and compared with the recorded digest, or the cause for
    /// which the file could not be read. The outcome is reported as the
    /// policy asks, and returned.
    pub fn verify_checksum(&mut self, checksum: &Checksum, read: &Result<Vec<u8>, String>) -> (outcome:
        VerificationOutcome)
        ensures
            outcome@ == target_outcome(checksum@, digested(read_view(*read))),
            final(self)@ == old(self)@.after_target(checksum@, outcome@),
    {
        let outcome = verify_checksum(checksum, read);
        self.settle(checksum, &outcome);
        outcome
    }

    /// Hands out the lines written so far, and forgets them.
    pub fn drain(&mut self) -> (report: Report)
        ensures
            report@ == old(self)@.lines,
            final(self)@ == old(self)@.after_drain(),
    {
        let mut report = Report::new();
        std::mem::swap(&mut self.report, &mut report);
        report
    }

    /// Ends the run: where records did not match, the summary with their
    /// number goes to the primary channel.
    pub fn finish(&mut self)
        ensures
            final(self)@ == old(self)@.after_finish(),
    {
        let n: usize = self.failures.len();
        if n > 0 {
            self.report.say(render_summary(n));
        }
    }
}

} // verus!
