//! The policy of a run: which mode, which notices, which input files.

use crate::text::texts;
use vstd::prelude::*;

verus! {

/// The mathematical value of a configuration.
pub struct Policy {
    pub check: bool,
    pub ignore_missing: bool,
    pub quiet: bool,
    pub strict: bool,
    pub warn: bool,
    pub input_files: Seq<Seq<char>>,
}

impl Policy {
    /// The policy with every flag off and no input file.
    pub open spec fn empty() -> Policy {
        Policy {
            check: false,
            ignore_missing: false,
            quiet: false,
            strict: false,
            warn: false,
            input_files: Seq::empty(),
        }
    }
}

/// The options as they come from the command line.
#[derive(Debug, Clone, PartialEq, Eq)]
pub struct Opt {
    /// Read digest lines from the input files and check them.
    pub check: bool,
    /// Report nothing for files that cannot be read.
    pub ignore_missing: bool,
    /// Print no line for a file whose digest matches.
    pub quiet: bool,
    /// Let a malformed line make the run fail.
    pub strict: bool,
    /// Report malformed lines.
    pub warn: bool,
    /// The files to hash or to check, in the order given.
    pub input_files: Vec<String>,
}

impl View for Opt {
    type V = Policy;

    open spec fn view(&self) -> Policy {
        Policy {
            check: self.check,
            ignore_missing: self.ignore_missing,
            quiet: self.quiet,
            strict: self.strict,
            warn: self.warn,
            input_files: texts(self.input_files@),
        }
    }
}

/// The policy of one run, fixed before the run starts.
#[derive(Debug, Clone, PartialEq, Eq)]
pub struct Config {
    pub check: bool,
    pub ignore_missing: bool,
    pub quiet: bool,
    pub strict: bool,
    pub warn: bool,
    pub input_files: Vec<String>,
}

impl View for Config {
    type V = Policy;

    open spec fn view(&self) -> Policy {
        Policy {
            check: self.check,
            ignore_missing: self.ignore_missing,
            quiet: self.quiet,
            strict: self.strict,
            warn: self.warn,
            input_files: texts(self.input_files@),
        }
    }
}

impl Config {
    /// The configuration that the options ask for: the same flags and the
    /// same files in the same order.
    pub fn from_opts(opt: &Opt) -> (config: Config)
        ensures
            config@ == opt@,
    {
        let input_files = opt.input_files.clone();
        assert(texts(input_files@) =~= texts(opt.input_files@));
        Config {
            check: opt.check,
            ignore_missing: opt.ignore_missing,
            quiet: opt.quiet,
            strict: opt.strict,
            warn: opt.warn,
            input_files,
        }
    }
}

impl Default for Config {
    /// The configuration with every flag off and no input file.
    fn default() -> (config: Config)
        ensures
            config@ == Policy::empty(),
    {
        let config = Config {
            check: false,
            ignore_missing: false,
            quiet: false,
            strict: false,
            warn: false,
            input_files: Vec::new(),
        };
        assert(texts(config.input_files@) =~= Seq::<Seq<char>>::empty());
        config
    }
}

} // verus!
