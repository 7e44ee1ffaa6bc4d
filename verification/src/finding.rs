//! Findings: where in a file a call of `.unwrap()` stands as code.

use vstd::prelude::*;
use vstd::string::StringSliceAdditionalSpecFns;
use vstd::utf8::encode_utf8;
use crate::search::{occurs_at, first_at, occurs, find_sub, lemma_first_at_unique};
use crate::classify::{
    excluded, in_comment, in_string, string_span, is_comment_or_string, line_comment,
    block_comment,
};

verus! {

/// The call that is looked for, `.unwrap()`, as bytes.
pub open spec fn pattern() -> Seq<u8> {
    seq![46u8, 117u8, 110u8, 119u8, 114u8, 97u8, 112u8, 40u8, 41u8]
}

/// The length of the pattern.
pub const PATTERN_LEN: usize = 9;

/// The bytes of `.unwrap()`.
pub fn unwrap_method() -> (r: [u8; 9])
    ensures
        r@ == pattern(),
{
    let r: [u8; 9] = [46, 117, 110, 119, 114, 97, 112, 40, 41];
    assert(r@ =~= pattern());
    r
}

/// `c` is the column of the finding in `line`: the first occurrence of the
/// pattern starts there, and the bytes it covers are code.
pub open spec fn strict_column(line: Seq<u8>, c: int) -> bool {
    &&& first_at(line, pattern(), c)
    &&& !excluded(c, c + pattern().len() - 1, line)
}

/// One call of `.unwrap()` that stands as code in one line of one file.
pub struct StrictResult {
    /// The file, as it was named to the scan.
    pub filename: String,
    /// The number of the line in the file; the first line has number 1.
    pub lineno: usize,
    /// The byte offset in the line at which the call starts.
    pub col: usize,
    /// The line as it was when it was scanned, without its terminator.
    pub line: String,
}

impl StrictResult {
    /// The finding is true of its own line: the first `.unwrap()` of `line`
    /// starts at `col` and is code.
    pub open spec fn is_occurrence(&self) -> bool {
        strict_column(encode_utf8(self.line@), self.col as int)
    }

    /// A finding with the given parts.
    pub fn new(filename: &str, lineno: usize, col: usize, line: &str) -> (r: Self)
        ensures
            r.filename@ == filename@,
            r.lineno == lineno,
            r.col == col,
            r.line@ == line@,
    {
        Self { filename: filename.to_owned(), lineno: lineno, col: col, line: line.to_owned() }
    }
}

/// Looks for the first `.unwrap()` in `line`. There is a finding exactly when
/// that first occurrence is code; its column is the byte offset of the
/// occurrence, and it keeps `filename`, `lineno` and the line as they were given.
pub fn check_strict(filename: &str, lineno: usize, line: &str) -> (r: Option<StrictResult>)
    ensures
        match r {
            Some(f) => {
                &&& strict_column(line.spec_bytes(), f.col as int)
                &&& f.is_occurrence()
                &&& f.filename@ == filename@
                &&& f.lineno == lineno
                &&& f.line@ == line@
            },
            None => forall|c: int| !strict_column(line.spec_bytes(), c),
        },
{
    let pat = unwrap_method();
    let bytes = line.as_bytes();
    let len: usize = bytes.len();
    match find_sub(bytes, pat.as_slice()) {
        Some(col) => {
            proof {
                assert(col + pattern().len() <= len);
                assert forall|c: int| first_at(line.spec_bytes(), pattern(), c) implies c
                    == col by {
                    lemma_first_at_unique(line.spec_bytes(), pattern(), c, col as int);
                }
            }
            if is_comment_or_string(col, col + PATTERN_LEN - 1, line) {
                None
            } else {
                Some(StrictResult::new(filename, lineno, col, line))
            }
        },
        None => None,
    }
}

/// A line in which the pattern does not occur gives no finding.
pub proof fn lemma_absent_gives_none(line: Seq<u8>)
    requires
        !occurs(line, pattern()),
    ensures
        forall|c: int| !strict_column(line, c),
{
    assert forall|c: int| !strict_column(line, c) by {
        if strict_column(line, c) {
            assert(occurs_at(line, pattern(), c));
        }
    }
}

/// A line whose first occurrence of the pattern is code gives one finding and
/// no other: its column is the index of that first occurrence.
pub proof fn lemma_code_gives_one(line: Seq<u8>, first: int)
    requires
        first_at(line, pattern(), first),
        !excluded(first, first + pattern().len() - 1, line),
    ensures
        strict_column(line, first),
        forall|c: int| strict_column(line, c) ==> c == first,
{
    assert forall|c: int| strict_column(line, c) implies c == first by {
        lemma_first_at_unique(line, pattern(), c, first);
    }
}

/// A line whose first occurrence of the pattern lies strictly between the two
/// quotes of a string gives no finding.
pub proof fn lemma_in_string_gives_none(line: Seq<u8>, first: int, s: int, e: int)
    requires
        first_at(line, pattern(), first),
        string_span(line, s, e),
        s < first,
        first + pattern().len() - 1 < e,
    ensures
        forall|c: int| !strict_column(line, c),
{
    assert(in_string(first, first + pattern().len() - 1, line));
    assert forall|c: int| !strict_column(line, c) by {
        if strict_column(line, c) {
            lemma_first_at_unique(line, pattern(), c, first);
        }
    }
}

/// A line in which a comment opener, `//` or `/*`, starts at or before the
/// first occurrence of the pattern gives no finding.
pub proof fn lemma_after_comment_gives_none(line: Seq<u8>, first: int, opener: int)
    requires
        first_at(line, pattern(), first),
        opener <= first,
        occurs_at(line, line_comment(), opener) || occurs_at(line, block_comment(), opener),
    ensures
        forall|c: int| !strict_column(line, c),
{
    assert(in_comment(first, line));
    assert forall|c: int| !strict_column(line, c) by {
        if strict_column(line, c) {
            lemma_first_at_unique(line, pattern(), c, first);
        }
    }
}

} // verus!
