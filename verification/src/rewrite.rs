//! Rewriting: the lines of a file with the call of one finding replaced.

use vstd::prelude::*;
use vstd::slice::slice_subrange;
use vstd::utf8::encode_utf8;
use crate::bytes::append_bytes;
use crate::search::{find_sub, replace_first, lemma_replace_first_at};
use crate::finding::{StrictResult, pattern, unwrap_method};
use crate::fingerprint::md5_hex;

verus! {

/// What stands before the identifier in the new call: `.expect("error-id:`.
pub open spec fn expect_open() -> Seq<u8> {
    seq![
        46u8, 101u8, 120u8, 112u8, 101u8, 99u8, 116u8, 40u8, 34u8, 101u8, 114u8, 114u8, 111u8,
        114u8, 45u8, 105u8, 100u8, 58u8,
    ]
}

/// What stands behind it: `")`.
pub open spec fn expect_close() -> Seq<u8> {
    seq![34u8, 41u8]
}

/// The call that takes the place of `.unwrap()`: `.expect("error-id:<id>")`.
pub open spec fn replacement(id: Seq<char>) -> Seq<u8> {
    expect_open() + encode_utf8(id) + expect_close()
}

/// The line `line` after the rewrite that carries the identifier `id`: its
/// first `.unwrap()` replaced, all other bytes as they were.
pub open spec fn rewritten_line(line: Seq<char>, id: Seq<char>) -> Seq<u8> {
    replace_first(encode_utf8(line), pattern(), replacement(id))
}

/// The bytes of `.expect("error-id:<id>")`.
pub fn replacement_for(id: &str) -> (r: Vec<u8>)
    ensures
        r@ == replacement(id@),
{
    let open: [u8; 18] = [
        46, 101, 120, 112, 101, 99, 116, 40, 34, 101, 114, 114, 111, 114, 45, 105, 100, 58,
    ];
    let close: [u8; 2] = [34, 41];
    assert(open@ =~= expect_open());
    assert(close@ =~= expect_close());
    let mut r: Vec<u8> = Vec::new();
    append_bytes(&mut r, open.as_slice());
    append_bytes(&mut r, id.as_bytes());
    append_bytes(&mut r, close.as_slice());
    assert(r@ =~= replacement(id@));
    r
}

/// `hay` with its first occurrence of `needle` replaced by `with`; `hay`
/// itself where `needle` does not occur in it.
pub fn replace_first_bytes(hay: &[u8], needle: &[u8], with: &[u8]) -> (r: Vec<u8>)
    ensures
        r@ == replace_first(hay@, needle@, with@),
{
    let mut r: Vec<u8> = Vec::new();
    match find_sub(hay, needle) {
        Some(c) => {
            proof {
                lemma_replace_first_at(hay@, needle@, with@, c as int);
            }
            let n: usize = hay.len();
            let m: usize = needle.len();
            append_bytes(&mut r, slice_subrange(hay, 0, c));
            append_bytes(&mut r, with);
            append_bytes(&mut r, slice_subrange(hay, c + m, n));
            assert(r@ =~= replace_first(hay@, needle@, with@));
        },
        None => {
            append_bytes(&mut r, hay);
            assert(r@ =~= hay@);
        },
    }
    r
}

/// The lines of a file after the rewrite of the call in line number `lineno`
/// (the first line has number 1), with the identifier `id`. There are as many
/// lines as before; each is as it was, but for the line with that number, in
/// which the first `.unwrap()` is replaced.
pub fn rewrite_lines(lines: &Vec<String>, lineno: usize, id: &str) -> (r: Vec<Vec<u8>>)
    ensures
        r@.len() == lines@.len(),
        forall|i: int|
            0 <= i < lines@.len() ==> #[trigger] r@[i]@ == if i + 1 == lineno {
                rewritten_line(lines@[i]@, id@)
            } else {
                encode_utf8(lines@[i]@)
            },
{
    let with = replacement_for(id);
    let pat = unwrap_method();
    let n: usize = lines.len();
    let mut r: Vec<Vec<u8>> = Vec::new();
    let mut i: usize = 0;
    while i < n
        invariant
            i <= n,
            n == lines@.len(),
            r@.len() == i,
            with@ == replacement(id@),
            pat@ == pattern(),
            forall|k: int|
                0 <= k < i ==> #[trigger] r@[k]@ == if k + 1 == lineno {
                    rewritten_line(lines@[k]@, id@)
                } else {
                    encode_utf8(lines@[k]@)
                },
        decreases n - i,
    {
        let line = lines[i].as_str().as_bytes();
        if i + 1 == lineno {
            r.push(replace_first_bytes(line, pat.as_slice(), with.as_slice()));
        } else {
            let mut copy: Vec<u8> = Vec::new();
            append_bytes(&mut copy, line);
            r.push(copy);
        }
        i += 1;
    }
    r
}

/// The lines of the file of `result` after its call is rewritten: line number
/// `result.lineno` gets `.expect("error-id:<id>")` in place of its first
/// `.unwrap()`, where `<id>` is the identifier of `result`; every other line
/// stays as it is.
pub fn exec_fix(result: &StrictResult, lines: &Vec<String>) -> (r: Vec<Vec<u8>>)
    ensures
        r@.len() == lines@.len(),
        forall|i: int|
            0 <= i < lines@.len() ==> #[trigger] r@[i]@ == if i + 1 == result.lineno {
                rewritten_line(lines@[i]@, md5_hex(result.key()))
            } else {
                encode_utf8(lines@[i]@)
            },
{
    let id = result.gen_md5hash();
    rewrite_lines(lines, result.lineno, id.as_str())
}

} // verus!
