//! What a run says: the results of single records, the lines that report
//! them, and the two channels that the lines go to.

use crate::config::{Config, Policy};
use crate::text::{decimal, push_decimal, texts};
use vstd::prelude::*;
use vstd::string::StringExecFns;

verus! {

/// The mathematical value of a result: what became of one record, of one
/// line, or of one manifest.
pub enum Outcome {
    /// The file's digest is the recorded one.
    Matched,
    /// The file's digest is another than the recorded one.
    Mismatched,
    /// The file that a record names could not be read; the cause is kept.
    TargetUnreadable(Seq<char>),
    /// A line holds no record; the text that reports it is kept.
    LineMalformed(Seq<char>),
    /// A manifest could not be read; the cause is kept.
    ManifestUnreadable(Seq<char>),
}

/// The mathematical value of the two channels: the lines written to each, in
/// order.
pub struct Lines {
    /// The primary channel: results.
    pub output: Seq<Seq<char>>,
    /// The diagnostic channel: failures and warnings.
    pub errors: Seq<Seq<char>>,
}

/// The line for a file whose digest matches.
pub open spec fn ok_line(path: Seq<char>) -> Seq<char> {
    "OK: "@ + path
}

/// The line for a file whose digest does not match.
pub open spec fn failed_line(path: Seq<char>) -> Seq<char> {
    "FAILED: "@ + path
}

/// The line for something that went wrong with the file at `path`.
pub open spec fn cause_line(path: Seq<char>, cause: Seq<char>) -> Seq<char> {
    path + ": "@ + cause
}

/// The line that sums up a verification in which `n` digests did not match.
pub open spec fn summary_line(n: nat) -> Seq<char> {
    if n == 1 {
        "WARNING: "@ + decimal(n) + " computed checksum did NOT match"@
    } else {
        "WARNING: "@ + decimal(n) + " computed checksums did NOT match"@
    }
}

impl Lines {
    /// Nothing written yet.
    pub open spec fn empty() -> Lines {
        Lines { output: Seq::empty(), errors: Seq::empty() }
    }

    /// One more line on the primary channel.
    pub open spec fn say(self, line: Seq<char>) -> Lines {
        Lines { output: self.output.push(line), errors: self.errors }
    }

    /// One more line on the diagnostic channel.
    pub open spec fn complain(self, line: Seq<char>) -> Lines {
        Lines { output: self.output, errors: self.errors.push(line) }
    }

    /// The channels after `outcome` has been reported for `subject` under
    /// `policy`. A match is reported on the primary channel unless `quiet` is
    /// set. A mismatch is always reported. A file that cannot be read is
    /// reported unless `ignore_missing` is set. A malformed line is reported
    /// only if `warn` is set.
    pub open spec fn with(self, policy: Policy, subject: Seq<char>, outcome: Outcome) -> Lines {
        match outcome {
            Outcome::Matched => if policy.quiet {
                self
            } else {
                self.say(ok_line(subject))
            },
            Outcome::Mismatched => self.complain(failed_line(subject)),
            Outcome::TargetUnreadable(cause) => if policy.ignore_missing {
                self
            } else {
                self.complain(cause_line(subject, cause))
            },
            Outcome::LineMalformed(cause) => if policy.warn {
                self.complain(cause_line(subject, cause))
            } else {
                self
            },
            Outcome::ManifestUnreadable(cause) => if policy.ignore_missing {
                self
            } else {
                self.complain(cause_line(subject, cause))
            },
        }
    }
}

/// What became of one record, of one line, or of one manifest.
#[derive(Debug, Clone, PartialEq, Eq)]
pub enum VerificationOutcome {
    /// The file's digest is the recorded one.
    Matched,
    /// The file's digest is another than the recorded one.
    Mismatched,
    /// The file that a record names could not be read; the cause is kept.
    TargetUnreadable(String),
    /// A line holds no record; the text that reports it is kept.
    LineMalformed(String),
    /// A manifest could not be read; the cause is kept.
    ManifestUnreadable(String),
}

impl View for VerificationOutcome {
    type V = Outcome;

    open spec fn view(&self) -> Outcome {
        match self {
            VerificationOutcome::Matched => Outcome::Matched,
            VerificationOutcome::Mismatched => Outcome::Mismatched,
            VerificationOutcome::TargetUnreadable(cause) => Outcome::TargetUnreadable(cause@),
            VerificationOutcome::LineMalformed(cause) => Outcome::LineMalformed(cause@),
            VerificationOutcome::ManifestUnreadable(cause) => Outcome::ManifestUnreadable(cause@),
        }
    }
}

/// The lines of a run, for the primary and for the diagnostic channel.
#[derive(Debug, Clone, PartialEq, Eq)]
pub struct Report {
    /// The primary channel: results.
    pub output: Vec<String>,
    /// The diagnostic channel: failures and warnings.
    pub errors: Vec<String>,
}

impl View for Report {
    type V = Lines;

    open spec fn view(&self) -> Lines {
        Lines { output: texts(self.output@), errors: texts(self.errors@) }
    }
}

/// The line for a file whose digest matches.
pub fn render_ok(path: &str) -> (line: String)
    ensures
        line@ == ok_line(path@),
{
    let mut line = String::from_str("OK: ");
    line.append(path);
    line
}

/// The line for a file whose digest does not match.
pub fn render_failed(path: &str) -> (line: String)
    ensures
        line@ == failed_line(path@),
{
    let mut line = String::from_str("FAILED: ");
    line.append(path);
    line
}

/// The line for something that went wrong with the file at `path`.
pub fn render_cause(path: &str, cause: &str) -> (line: String)
    ensures
        line@ == cause_line(path@, cause@),
{
    let mut line = String::from_str(path);
    line.append(": ");
    line.append(cause);
    line
}

/// The line that sums up a verification in which `n` digests did not match.
pub fn render_summary(n: usize) -> (line: String)
    ensures
        line@ == summary_line(n as nat),
{
    let mut line = String::from_str("WARNING: ");
    push_decimal(&mut line, n);
    if n == 1 {
        line.append(" computed checksum did NOT match");
    } else {
        line.append(" computed checksums did NOT match");
    }
    line
}

impl Report {
    /// A report with nothing written yet.
    pub fn new() -> (report: Report)
        ensures
            report@ == Lines::empty(),
    {
        let report = Report { output: Vec::new(), errors: Vec::new() };
        assert(texts(report.output@) =~= Seq::<Seq<char>>::empty());
        assert(texts(report.errors@) =~= Seq::<Seq<char>>::empty());
        report
    }

    /// Writes `line` to the primary channel.
    pub fn say(&mut self, line: String)
        ensures
            final(self)@ == old(self)@.say(line@),
    {
        self.output.push(line);
        assert(texts(self.output@) =~= texts(old(self).output@).push(line@));
    }

    /// Writes `line` to the diagnostic channel.
    pub fn complain(&mut self, line: String)
        ensures
            final(self)@ == old(self)@.complain(line@),
    {
        self.errors.push(line);
        assert(texts(self.errors@) =~= texts(old(self).errors@).push(line@));
    }

    /// Reports `outcome` for `subject` as the configuration asks: see
    /// `Lines::with`.
    pub fn note(&mut self, config: &Config, subject: &str, outcome: &VerificationOutcome)
        ensures
            final(self)@ == old(self)@.with(config@, subject@, outcome@),
    {
        match outcome {
            VerificationOutcome::Matched => {
                if !config.quiet {
                    self.say(render_ok(subject));
                }
            },
            VerificationOutcome::Mismatched => {
                self.complain(render_failed(subject));
            },
            VerificationOutcome::TargetUnreadable(cause) => {
                if !config.ignore_missing {
                    self.complain(render_cause(subject, cause.as_str()));
                }
            },
            VerificationOutcome::LineMalformed(cause) => {
                if config.warn {
                    self.complain(render_cause(subject, cause.as_str()));
                }
            },
            VerificationOutcome::ManifestUnreadable(cause) => {
                if !config.ignore_missing {
                    self.complain(render_cause(subject, cause.as_str()));
                }
            },
        }
    }
}

} // verus!
