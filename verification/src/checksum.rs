//! The digest line: a digest's text, two spaces, and a path. This module
//! holds the record type, the parser of a line and the formatter of a record.

use crate::digest::{is_digest, is_digest_range, is_hex_digit};
use crate::text::{
    chars_of, is_whitespace, lemma_trim_end_takes, lemma_trim_is_tight, lemma_trim_start_skips,
    string_of, trim, trim_bounds,
};
use vstd::prelude::*;
use vstd::string::StringExecFns;

verus! {

/// The mathematical value of a record: the text of a digest and a path.
pub struct DigestRecord {
    pub hash: Seq<char>,
    pub path: Seq<char>,
}

impl DigestRecord {
    /// A record is well formed when its digest has the length and the
    /// alphabet of a digest's text.
    pub open spec fn well_formed(self) -> bool {
        is_digest(self.hash)
    }

    /// The line that stands for this record: digest, two spaces, path.
    pub open spec fn line(self) -> Seq<char> {
        self.hash + "  "@ + self.path
    }
}

/// Whether the two-space separator stands at index `i` of `s`.
pub open spec fn separator_at(s: Seq<char>, i: int) -> bool {
    0 <= i && i + 1 < s.len() && s[i] == ' ' && s[i + 1] == ' '
}

/// The index of the first two-space separator in `s`, if there is one.
pub open spec fn first_separator(s: Seq<char>) -> Option<int>
    decreases s.len(),
{
    if s.len() < 2 {
        None
    } else if s[0] == ' ' && s[1] == ' ' {
        Some(0)
    } else {
        match first_separator(s.drop_first()) {
            Some(i) => Some(i + 1),
            None => None,
        }
    }
}

/// The record that `line` stands for. The line is trimmed and split at its
/// first separator: what stands before is the digest, all that follows is the
/// path. There is no record where the separator is missing, or where the part
/// before it is no digest text.
pub open spec fn parse_line(line: Seq<char>) -> Option<DigestRecord> {
    let t = trim(line);
    match first_separator(t) {
        Some(i) => if is_digest(t.take(i)) {
            Some(DigestRecord { hash: t.take(i), path: t.skip(i + 2) })
        } else {
            None
        },
        None => None,
    }
}

/// The text that reports a line without a record.
pub open spec fn malformed_message(line: Seq<char>) -> Seq<char> {
    "Invalid checksum format. Affected line had: "@ + line
}

/// `first_separator` gives the least index at which a separator stands, and
/// nothing exactly when there is none.
pub proof fn lemma_first_separator_is_least(s: Seq<char>)
    ensures
        match first_separator(s) {
            Some(i) => separator_at(s, i) && forall|j: int|
                0 <= j < i ==> !#[trigger] separator_at(s, j),
            None => forall|j: int| !#[trigger] separator_at(s, j),
        },
    decreases s.len(),
{
    if s.len() < 2 {
    } else if s[0] == ' ' && s[1] == ' ' {
    } else {
        let rest = s.drop_first();
        lemma_first_separator_is_least(rest);
        assert(!separator_at(s, 0));
        match first_separator(rest) {
            Some(i) => {
                assert(separator_at(rest, i));
                assert forall|j: int| 0 <= j < i + 1 implies !#[trigger] separator_at(s, j) by {
                    if j > 0 {
                        assert(!separator_at(rest, j - 1));
                    }
                }
            },
            None => {
                assert forall|j: int| !#[trigger] separator_at(s, j) by {
                    if j > 0 {
                        assert(!separator_at(rest, j - 1));
                    }
                }
            },
        }
    }
}

/// A separator with none before it is the first one.
pub proof fn lemma_first_separator_found(s: Seq<char>, k: int)
    requires
        separator_at(s, k),
        forall|j: int| 0 <= j < k ==> !#[trigger] separator_at(s, j),
    ensures
        first_separator(s) == Some(k),
{
    lemma_first_separator_is_least(s);
    match first_separator(s) {
        Some(i) => {
            if i < k {
                assert(!separator_at(s, i));
            }
            if k < i {
                assert(!separator_at(s, k));
            }
        },
        None => {
            assert(!separator_at(s, k));
        },
    }
}

/// A line parses to its record again: for every record whose digest is a
/// digest text and whose path is not empty and does not end in white space,
/// parsing the record's line gives the record back.
pub proof fn lemma_parse_inverts_line(r: DigestRecord)
    requires
        r.well_formed(),
        r.path.len() > 0,
        !is_whitespace(r.path.last()),
    ensures
        parse_line(r.line()) == Some(r),
{
    reveal_strlit("  ");
    let line = r.line();
    let n = r.hash.len() as int;
    assert(line.len() == n + 2 + r.path.len());
    assert forall|j: int| 0 <= j < n implies line[j] == r.hash[j] by {}
    assert(line[n] == ' ' && line[n + 1] == ' ');
    assert(is_hex_digit(r.hash[0]));
    assert(line.last() == r.path.last());
    lemma_trim_start_skips(line, 0);
    assert(line.skip(0) =~= line);
    lemma_trim_end_takes(line, line.len() as int);
    assert(line.take(line.len() as int) =~= line);
    assert(trim(line) == line);
    assert forall|j: int| 0 <= j < n implies !#[trigger] separator_at(line, j) by {
        assert(is_hex_digit(r.hash[j]));
    }
    lemma_first_separator_found(line, n);
    assert(line.take(n) =~= r.hash);
    assert(line.skip(n + 2) =~= r.path);
}

/// The record of a parsed line is well formed, and its path is neither empty
/// nor framed by the white space that trimming removes at the end.
pub proof fn lemma_parsed_record_shape(line: Seq<char>)
    requires
        parse_line(line) is Some,
    ensures
        parse_line(line)->0.well_formed(),
        parse_line(line)->0.path.len() > 0,
        !is_whitespace(parse_line(line)->0.path.last()),
{
    reveal_strlit("  ");
    let t = trim(line);
    lemma_trim_is_tight(line);
    lemma_first_separator_is_least(t);
    let i = first_separator(t)->0;
    assert(separator_at(t, i));
    assert(is_whitespace(t[i + 1]));
    assert(t.last() != t[i + 1]);
    assert(t.skip(i + 2).len() > 0);
    assert(t.skip(i + 2).last() == t.last());
}

/// The records that come back are those that a line can hold: parsing the
/// line of a record gives the record back exactly if its digest is a digest
/// text and its path is not empty and does not end in white space.
pub proof fn lemma_round_trip(r: DigestRecord)
    ensures
        parse_line(r.line()) == Some(r) <==> r.well_formed() && r.path.len() > 0 && !is_whitespace(
            r.path.last(),
        ),
{
    if r.well_formed() && r.path.len() > 0 && !is_whitespace(r.path.last()) {
        lemma_parse_inverts_line(r);
    }
    if parse_line(r.line()) == Some(r) {
        lemma_parsed_record_shape(r.line());
    }
}

/// A line of a manifest, parsed: the text of a digest and the path of the
/// file that it was computed from.
#[derive(Debug, Clone, PartialEq, Eq)]
pub struct Checksum {
    pub hash: String,
    pub path: String,
}

impl View for Checksum {
    type V = DigestRecord;

    open spec fn view(&self) -> DigestRecord {
        DigestRecord { hash: self.hash@, path: self.path@ }
    }
}

/// Why a line gave no record. The error carries the line as it was given.
#[derive(Debug, Clone, PartialEq, Eq)]
pub enum ChecksumError {
    ImproperFormat(String),
}

impl View for ChecksumError {
    type V = Seq<char>;

    /// The line that the error carries.
    open spec fn view(&self) -> Seq<char> {
        match self {
            ChecksumError::ImproperFormat(line) => line@,
        }
    }
}

impl ChecksumError {
    /// The line that the error carries.
    pub fn inner(&self) -> (line: &String)
        ensures
            line@ == self@,
    {
        match self {
            ChecksumError::ImproperFormat(inner) => inner,
        }
    }

    /// The text that reports this error.
    pub fn to_string(&self) -> (s: String)
        ensures
            s@ == malformed_message(self@),
    {
        let mut s = String::from_str("Invalid checksum format. Affected line had: ");
        s.append(self.inner().as_str());
        s
    }
}

/// The first separator in `chars[lo..hi]`, as an index into `chars`.
fn find_separator(chars: &Vec<char>, lo: usize, hi: usize) -> (r: Option<usize>)
    requires
        lo <= hi <= chars.len(),
    ensures
        match r {
            Some(i) => lo <= i && i + 2 <= hi && first_separator(
                chars@.subrange(lo as int, hi as int),
            ) == Some(i - lo),
            None => first_separator(chars@.subrange(lo as int, hi as int)) is None,
        },
{
    let ghost s = chars@.subrange(lo as int, hi as int);
    let mut i: usize = lo;
    while i < hi && hi - i >= 2
        invariant
            lo <= i <= hi <= chars.len(),
            s == chars@.subrange(lo as int, hi as int),
            forall|j: int| 0 <= j < i - lo ==> !#[trigger] separator_at(s, j),
        decreases hi - i,
    {
        if chars[i] == ' ' && chars[i + 1] == ' ' {
            proof {
                assert(separator_at(s, i - lo));
                lemma_first_separator_found(s, i - lo);
            }
            return Some(i);
        }
        assert(!separator_at(s, i - lo));
        i += 1;
    }
    proof {
        lemma_first_separator_is_least(s);
        if first_separator(s) is Some {
            let k = first_separator(s)->0;
            assert(separator_at(s, k));
            assert(!separator_at(s, k));
        }
    }
    None
}

impl Checksum {
    /// Parses one line of a manifest. The result is the record of `parse_line`
    /// where the line has one; where it has none, the error carries the line.
    pub fn parse(line: &str) -> (r: Result<Checksum, ChecksumError>)
        ensures
            match r {
                Ok(c) => parse_line(line@) == Some(c@) && c@.well_formed(),
                Err(e) => parse_line(line@) is None && e@ == line@,
            },
    {
        let chars = chars_of(line);
        let (lo, hi) = trim_bounds(&chars);
        let ghost t = trim(line@);
        match find_separator(&chars, lo, hi) {
            Some(i) => {
                assert(t.take(i - lo) =~= chars@.subrange(lo as int, i as int));
                assert(t.skip(i - lo + 2) =~= chars@.subrange(i + 2, hi as int));
                if is_digest_range(&chars, lo, i) {
                    let hash = string_of(&chars, lo, i);
                    let path = string_of(&chars, i + 2, hi);
                    Ok(Checksum { hash, path })
                } else {
                    Err(ChecksumError::ImproperFormat(line.to_owned()))
                }
            },
            None => Err(ChecksumError::ImproperFormat(line.to_owned())),
        }
    }

    /// Parses one line of a manifest, given as an owned string.
    pub fn try_from(data: String) -> (r: Result<Checksum, ChecksumError>)
        ensures
            match r {
                Ok(c) => parse_line(data@) == Some(c@) && c@.well_formed(),
                Err(e) => parse_line(data@) is None && e@ == data@,
            },
    {
        Checksum::parse(data.as_str())
    }

    /// The line that stands for this record: digest, two spaces, path.
    pub fn to_string(&self) -> (s: String)
        ensures
            s@ == self@.line(),
    {
        let mut s = self.hash.clone();
        s.append("  ");
        s.append(self.path.as_str());
        s
    }
}

/// Parses one line of a manifest, given as an owned string.
pub fn parse_checksum(data: String) -> (r: Result<Checksum, ChecksumError>)
    ensures
        match r {
            Ok(c) => parse_line(data@) == Some(c@) && c@.well_formed(),
            Err(e) => parse_line(data@) is None && e@ == data@,
        },
{
    Checksum::try_from(data)
}

} // verus!
