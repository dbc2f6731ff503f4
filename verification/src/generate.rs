//! Generation: one digest line for each input file that could be read, one
//! diagnostic line for each that could not.

use crate::checksum::{lemma_parse_inverts_line, parse_line, Checksum, DigestRecord};
use crate::config::{Config, Policy};
use crate::digest::{
    digest_of_read, digested, is_digest, is_lower_digest, read_view, text_view, DIGEST_HEX_LEN,
};
use crate::report::{cause_line, render_cause, Lines, Report};
use crate::text::{is_whitespace, texts};
use vstd::prelude::*;
use vstd::string::StringExecFns;

verus! {

/// The two lines that tell the user that `quiet` has no meaning when digests
/// are generated.
pub open spec fn usage_notice() -> Seq<Seq<char>> {
    seq![
        "Checkrs: The quiet option is meaningful only when verifying checksums"@,
        "Try 'checkrs --help' for more information"@,
    ]
}

/// The digests' texts of what reading each file gave.
pub open spec fn digests_of(reads: Seq<Result<Vec<u8>, String>>) -> Seq<
    Result<Seq<char>, Seq<char>>,
> {
    reads.map_values(|read: Result<Vec<u8>, String>| digested(read_view(read)))
}

/// The mathematical values of computed digests.
pub open spec fn text_views(computed: Seq<Result<String, String>>) -> Seq<
    Result<Seq<char>, Seq<char>>,
> {
    computed.map_values(|one: Result<String, String>| text_view(one))
}

/// The channels after one more file: its digest line on the primary channel,
/// or, where it could not be read, its path and the cause on the diagnostic
/// channel.
pub open spec fn generated_entry(
    lines: Lines,
    path: Seq<char>,
    computed: Result<Seq<char>, Seq<char>>,
) -> Lines {
    match computed {
        Ok(hash) => lines.say(DigestRecord { hash, path }.line()),
        Err(cause) => lines.complain(cause_line(path, cause)),
    }
}

/// The channels after the first `n` files.
pub open spec fn generated_upto(
    paths: Seq<Seq<char>>,
    computed: Seq<Result<Seq<char>, Seq<char>>>,
    n: nat,
) -> Lines
    decreases n,
{
    if n == 0 {
        Lines::empty()
    } else {
        generated_entry(
            generated_upto(paths, computed, (n - 1) as nat),
            paths[n - 1],
            computed[n - 1],
        )
    }
}

/// How many files are paired with what reading them gave.
pub open spec fn paired(policy: Policy, computed: Seq<Result<Seq<char>, Seq<char>>>) -> nat {
    if policy.input_files.len() <= computed.len() {
        policy.input_files.len()
    } else {
        computed.len()
    }
}

/// What generation writes. With `quiet` set and `check` not, it is the usage
/// notice and nothing else. Otherwise the input files are taken in order,
/// each with the digest computed from it.
pub open spec fn generated(policy: Policy, computed: Seq<Result<Seq<char>, Seq<char>>>) -> Lines {
    if policy.quiet && !policy.check {
        Lines { output: usage_notice(), errors: Seq::empty() }
    } else {
        generated_upto(policy.input_files, computed, paired(policy, computed))
    }
}

/// The files that generation has to read: the input files, or none where
/// only the usage notice is due.
pub open spec fn files_to_hash(policy: Policy) -> Seq<Seq<char>> {
    if policy.quiet && !policy.check {
        Seq::empty()
    } else {
        policy.input_files
    }
}

/// The line that generation writes for a file holds the digest computed from
/// it. For every path and every digest text computed: one line goes to the
/// primary channel and none to the other; the line starts with the digest;
/// and where the digest is a digest text and the path is not empty and does
/// not end in white space, the line parses to that digest and that path.
pub proof fn lemma_generated_line_holds_digest(lines: Lines, path: Seq<char>, hash: Seq<char>)
    ensures
        generated_entry(lines, path, Ok(hash)).output == lines.output.push(hash + "  "@ + path),
        generated_entry(lines, path, Ok(hash)).errors == lines.errors,
        (hash + "  "@ + path).take(hash.len() as int) == hash,
        is_digest(hash) && path.len() > 0 && !is_whitespace(path.last()) ==> parse_line(
            hash + "  "@ + path,
        ) == Some(DigestRecord { hash, path }),
{
    assert((hash + "  "@ + path).take(hash.len() as int) =~= hash);
    if is_digest(hash) && path.len() > 0 && !is_whitespace(path.last()) {
        lemma_parse_inverts_line(DigestRecord { hash, path });
    }
}

/// Generation writes one line for each paired file, on one channel or the
/// other.
pub proof fn lemma_generated_counts(
    paths: Seq<Seq<char>>,
    computed: Seq<Result<Seq<char>, Seq<char>>>,
    n: nat,
)
    ensures
        generated_upto(paths, computed, n).output.len() + generated_upto(
            paths,
            computed,
            n,
        ).errors.len() == n,
    decreases n,
{
    if n > 0 {
        lemma_generated_counts(paths, computed, (n - 1) as nat);
    }
}

/// The files that generation has to read, in order: see `files_to_hash`.
pub fn files_to_read(config: &Config) -> (files: Vec<String>)
    ensures
        texts(files@) == files_to_hash(config@),
{
    if config.quiet && !config.check {
        let files: Vec<String> = Vec::new();
        assert(texts(files@) =~= Seq::<Seq<char>>::empty());
        files
    } else {
        let files = config.input_files.clone();
        assert(texts(files@) =~= texts(config.input_files@));
        files
    }
}

/// Writes what generation has to say of one file: see `generated_entry`.
pub fn generate_entry(report: &mut Report, path: &str, computed: &Result<String, String>)
    ensures
        final(report)@ == generated_entry(old(report)@, path@, text_view(*computed)),
{
    match computed {
        Ok(hash) => {
            let checksum = Checksum { hash: hash.clone(), path: String::from_str(path) };
            report.say(checksum.to_string());
        },
        Err(cause) => {
            report.complain(render_cause(path, cause.as_str()));
        },
    }
}

/// The usage notice as a report.
fn usage_report() -> (report: Report)
    ensures
        report@ == (Lines { output: usage_notice(), errors: Seq::empty() }),
{
    let mut report = Report::new();
    report.say(
        String::from_str("Checkrs: The quiet option is meaningful only when verifying checksums"),
    );
    report.say(String::from_str("Try 'checkrs --help' for more information"));
    assert(report@.output =~= usage_notice());
    report
}

/// What generation writes for the input files of `config`, where `computed`
/// holds, in the same order, the digest's text of each file or the cause for
/// which it could not be read.
pub fn generate_from_digests(config: &Config, computed: &Vec<Result<String, String>>) -> (report:
    Report)
    ensures
        report@ == generated(config@, text_views(computed@)),
{
    if config.quiet && !config.check {
        return usage_report();
    }
    let n: usize = if config.input_files.len() <= computed.len() {
        config.input_files.len()
    } else {
        computed.len()
    };
    let mut report = Report::new();
    let mut i: usize = 0;
    while i < n
        invariant
            i <= n,
            n <= config.input_files.len(),
            n <= computed.len(),
            report@ == generated_upto(config@.input_files, text_views(computed@), i as nat),
        decreases n - i,
    {
        generate_entry(&mut report, config.input_files[i].as_str(), &computed[i]);
        i += 1;
    }
    report
}

/// What generation writes for the input files of `config`, where `reads`
/// holds, in the same order, what reading each file gave: its bytes, or the
/// cause for which it could not be read. Nothing is hashed where only the
/// usage notice is due. Each digest line starts with a digest text in lower
/// case.
pub fn generate(config: &Config, reads: &Vec<Result<Vec<u8>, String>>) -> (report: Report)
    ensures
        report@ == generated(config@, digests_of(reads@)),
        !(config.quiet && !config.check) ==> forall|k: int|
            0 <= k < report@.output.len() ==> is_lower_digest(
                (#[trigger] report@.output[k]).take(DIGEST_HEX_LEN as int),
            ),
{
    if config.quiet && !config.check {
        return usage_report();
    }
    let n: usize = if config.input_files.len() <= reads.len() {
        config.input_files.len()
    } else {
        reads.len()
    };
    let mut report = Report::new();
    let mut i: usize = 0;
    while i < n
        invariant
            i <= n,
            n <= config.input_files.len(),
            n <= reads.len(),
            report@ == generated_upto(config@.input_files, digests_of(reads@), i as nat),
            forall|k: int|
                0 <= k < report@.output.len() ==> is_lower_digest(
                    (#[trigger] report@.output[k]).take(DIGEST_HEX_LEN as int),
                ),
        decreases n - i,
    {
        let computed = digest_of_read(&reads[i]);
        let ghost before = report@;
        generate_entry(&mut report, config.input_files[i].as_str(), &computed);
        proof {
            if let Ok(hash) = computed {
                let line = report@.output.last();
                assert(line.take(DIGEST_HEX_LEN as int) =~= hash@);
                assert forall|k: int| 0 <= k < report@.output.len() implies is_lower_digest(
                    (#[trigger] report@.output[k]).take(DIGEST_HEX_LEN as int),
                ) by {
                    if k < before.output.len() {
                        assert(report@.output[k] == before.output[k]);
                    }
                }
            }
        }
        i += 1;
    }
    report
}

} // verus!
