//! The lexical heuristic: does a byte range of a line stand in a comment or in
//! a string literal? It looks at one line only and knows nothing of escaped
//! quotes or of comment openers inside strings.

use vstd::prelude::*;
use vstd::slice::slice_subrange;
use vstd::string::StringSliceAdditionalSpecFns;
use crate::search::{occurs_at, find_byte, find_sub};

verus! {

/// The double quote.
pub const QUOTE: u8 = 34;

/// The opener of a line comment, `//`.
pub open spec fn line_comment() -> Seq<u8> {
    seq![47u8, 47u8]
}

/// The opener of a block comment, `/*`.
pub open spec fn block_comment() -> Seq<u8> {
    seq![47u8, 42u8]
}

/// A comment opener starts at or before `col`.
pub open spec fn in_comment(col: int, line: Seq<u8>) -> bool {
    ||| exists|i: int| i <= col && #[trigger] occurs_at(line, line_comment(), i)
    ||| exists|i: int| i <= col && #[trigger] occurs_at(line, block_comment(), i)
}

/// The number of double quotes among the first `n` bytes of `line`.
pub open spec fn quotes_before(line: Seq<u8>, n: int) -> nat
    decreases n,
{
    if n <= 0 {
        0
    } else {
        quotes_before(line, n - 1) + if line[n - 1] == QUOTE { 1nat } else { 0nat }
    }
}

/// `s` and `e` are the indices of a quote that opens a string and of the next
/// quote, which closes it: quotes pair up from the left, two by two.
pub open spec fn string_span(line: Seq<u8>, s: int, e: int) -> bool {
    &&& 0 <= s < e < line.len()
    &&& line[s] == QUOTE
    &&& line[e] == QUOTE
    &&& forall|k: int| s < k < e ==> line[k] != QUOTE
    &&& quotes_before(line, s) % 2 == 0
}

/// The range from `col` to `col_end` lies strictly between the two quotes of
/// one string.
pub open spec fn in_string(col: int, col_end: int, line: Seq<u8>) -> bool {
    exists|s: int, e: int| #[trigger] string_span(line, s, e) && s < col && col_end < e
}

/// The range from `col` to `col_end` is not code.
pub open spec fn excluded(col: int, col_end: int, line: Seq<u8>) -> bool {
    in_comment(col, line) || in_string(col, col_end, line)
}

/// A stretch without quotes does not change the count.
pub proof fn lemma_quotes_skip(line: Seq<u8>, a: int, b: int)
    requires
        0 <= a <= b <= line.len(),
        forall|k: int| a <= k < b ==> line[k] != QUOTE,
    ensures
        quotes_before(line, b) == quotes_before(line, a),
    decreases b - a,
{
    if a < b {
        lemma_quotes_skip(line, a, b - 1);
    }
}

/// Whether an opener `opener` starts at or before `col` in `line`.
fn opener_before(col: usize, line: &[u8], opener: &[u8]) -> (r: bool)
    ensures
        r == exists|i: int| i <= col && #[trigger] occurs_at(line@, opener@, i),
{
    match find_sub(line, opener) {
        Some(i) => {
            if i <= col {
                true
            } else {
                assert forall|j: int| j <= col implies !occurs_at(line@, opener@, j) by {
                    if occurs_at(line@, opener@, j) {
                        assert(0 <= j < i);
                    }
                }
                false
            }
        },
        None => false,
    }
}

/// Whether the range from `col` to `col_end` lies strictly inside a string of
/// `line`.
pub fn inside_string(col: usize, col_end: usize, line: &[u8]) -> (r: bool)
    ensures
        r == in_string(col as int, col_end as int, line@),
{
    let n: usize = line.len();
    let mut offset: usize = 0;
    let mut open: Option<usize> = None;
    while offset < n
        invariant
            offset <= n,
            n == line@.len(),
            quotes_before(line@, offset as int) % 2 == (if open is Some { 1nat } else { 0nat }),
            match open {
                Some(s) => {
                    &&& s < offset
                    &&& line@[s as int] == QUOTE
                    &&& quotes_before(line@, s as int) % 2 == 0
                    &&& forall|k: int| s < k < offset ==> line@[k] != QUOTE
                },
                None => true,
            },
            forall|s: int, e: int| #[trigger]
                string_span(line@, s, e) && e < offset ==> !(s < col && col_end < e),
        decreases n - offset,
    {
        let rest = slice_subrange(line, offset, n);
        match find_byte(QUOTE, rest) {
            None => {
                proof {
                    assert forall|s: int, e: int| #[trigger]
                        string_span(line@, s, e) implies !(s < col && col_end < e) by {
                        if e >= offset {
                            assert(rest@[e - offset] == line@[e]);
                        }
                    }
                }
                return false;
            },
            Some(v) => {
                let pos: usize = offset + v;
                proof {
                    assert(rest@[v as int] == line@[pos as int]);
                    assert forall|k: int| offset <= k < pos implies line@[k] != QUOTE by {
                        assert(rest@[k - offset] == line@[k]);
                    }
                    lemma_quotes_skip(line@, offset as int, pos as int);
                }
                match open {
                    None => {
                        proof {
                            assert forall|s: int| !string_span(line@, s, pos as int) by {
                                if string_span(line@, s, pos as int) {
                                    lemma_quotes_skip(line@, s + 1, pos as int);
                                }
                            }
                        }
                        open = Some(pos);
                    },
                    Some(s) => {
                        assert(string_span(line@, s as int, pos as int));
                        if col > s && col_end < pos {
                            return true;
                        }
                        open = None;
                    },
                }
                offset = pos + 1;
            },
        }
    }
    false
}

/// Whether the byte range from `target_col` to `target_col_end` of `line` is to
/// be passed over: a comment opener starts at or before `target_col`, or the
/// range lies strictly inside a string.
pub fn is_comment_or_string(target_col: usize, target_col_end: usize, line: &str) -> (r: bool)
    ensures
        r == excluded(target_col as int, target_col_end as int, line.spec_bytes()),
{
    let bline = line.as_bytes();
    let slashes: [u8; 2] = [47, 47];
    let slash_star: [u8; 2] = [47, 42];
    assert(slashes@ =~= line_comment());
    assert(slash_star@ =~= block_comment());
    if opener_before(target_col, bline, slashes.as_slice()) {
        return true;
    }
    if opener_before(target_col, bline, slash_star.as_slice()) {
        return true;
    }
    inside_string(target_col, target_col_end, bline)
}

} // verus!
