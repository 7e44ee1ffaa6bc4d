//! The preview of a rewrite: a unified diff with three lines of context.
//! A rewrite changes one line and keeps the number of lines, so the diff of a
//! file is one hunk around that line.

use vstd::prelude::*;
use vstd::utf8::encode_utf8;
use crate::bytes::{decimal, append_bytes, append_decimal};
use crate::finding::{StrictResult, unwrap_method};
use crate::fingerprint::md5_hex;
use crate::rewrite::{rewritten_line, replacement_for, replace_first_bytes};

verus! {

/// The line feed.
pub const LINE_FEED: u8 = 10;

/// How many unchanged lines a hunk shows before and behind the change.
pub const CONTEXT: usize = 3;

/// The note that follows a line without a line feed at its end, with the line
/// feed that such a line lacks before it: `\ No newline at end of file`.
pub open spec fn missing_feed_note() -> Seq<u8> {
    seq![
        10u8, 92u8, 32u8, 78u8, 111u8, 32u8, 110u8, 101u8, 119u8, 108u8, 105u8, 110u8, 101u8,
        32u8, 97u8, 116u8, 32u8, 101u8, 110u8, 100u8, 32u8, 111u8, 102u8, 32u8, 102u8, 105u8,
        108u8, 101u8, 10u8,
    ]
}

/// One line of a hunk: the mark (a blank, `-` or `+`), the line, and the note
/// where the line has no line feed at its end.
pub open spec fn marked(mark: u8, line: Seq<u8>) -> Seq<u8> {
    if line.len() > 0 && line.last() == LINE_FEED {
        seq![mark] + line
    } else {
        seq![mark] + line + missing_feed_note()
    }
}

/// The lines with indices from `from` up to, not including, `to`, each marked
/// as unchanged.
pub open spec fn context(lines: Seq<String>, from: int, to: int) -> Seq<u8>
    decreases to - from,
{
    if from >= to {
        Seq::empty()
    } else {
        context(lines, from, to - 1) + marked(32u8, encode_utf8(lines[to - 1]@))
    }
}

/// The head of a hunk that starts at line number `first` and covers `count`
/// lines on both sides: `@@ -first,count +first,count @@`.
pub open spec fn hunk_head(first: nat, count: nat) -> Seq<u8> {
    seq![64u8, 64u8, 32u8, 45u8] + decimal(first) + seq![44u8] + decimal(count) + seq![32u8, 43u8]
        + decimal(first) + seq![44u8] + decimal(count) + seq![32u8, 64u8, 64u8, 10u8]
}

/// The index of the first line of the hunk around the line with index `at`.
pub open spec fn hunk_start(at: int) -> int {
    if at >= CONTEXT {
        at - CONTEXT
    } else {
        0
    }
}

/// The index behind the last line of that hunk, in a file of `n` lines.
pub open spec fn hunk_end(at: int, n: int) -> int {
    if at + CONTEXT + 1 <= n {
        at + CONTEXT + 1
    } else {
        n
    }
}

/// The hunk for a file with the lines `lines` whose line with index `at`
/// becomes `changed`.
pub open spec fn hunk_of(lines: Seq<String>, at: int, changed: Seq<u8>) -> Seq<u8> {
    let start = hunk_start(at);
    let end = hunk_end(at, lines.len() as int);
    hunk_head((start + 1) as nat, (end - start) as nat) + context(lines, start, at) + marked(
        45u8,
        encode_utf8(lines[at]@),
    ) + marked(43u8, changed) + context(lines, at + 1, end)
}

/// The diff between `lines` and the same lines with line number `lineno`
/// replaced by `changed`: one hunk, or nothing where there is no such line or
/// `changed` is that line as it was.
pub open spec fn diff_of(lines: Seq<String>, lineno: int, changed: Seq<u8>) -> Seq<u8> {
    if 1 <= lineno <= lines.len() && changed != encode_utf8(lines[lineno - 1]@) {
        hunk_of(lines, lineno - 1, changed)
    } else {
        Seq::empty()
    }
}

/// Whether `a` and `b` hold the same bytes.
pub fn same_bytes(a: &[u8], b: &[u8]) -> (r: bool)
    ensures
        r == (a@ == b@),
{
    let n: usize = a.len();
    if n != b.len() {
        return false;
    }
    let mut i: usize = 0;
    while i < n
        invariant
            i <= n,
            n == a@.len(),
            n == b@.len(),
            forall|k: int| 0 <= k < i ==> a@[k] == b@[k],
        decreases n - i,
    {
        if a[i] != b[i] {
            return false;
        }
        i += 1;
    }
    assert(a@ =~= b@);
    true
}

/// Appends one line of a hunk to `out`.
fn append_marked(out: &mut Vec<u8>, mark: u8, line: &[u8])
    ensures
        final(out)@ == old(out)@ + marked(mark, line@),
{
    out.push(mark);
    append_bytes(out, line);
    let n: usize = line.len();
    if n == 0 || line[n - 1] != LINE_FEED {
        let note: [u8; 29] = [
            10, 92, 32, 78, 111, 32, 110, 101, 119, 108, 105, 110, 101, 32, 97, 116, 32, 101, 110,
            100, 32, 111, 102, 32, 102, 105, 108, 101, 10,
        ];
        assert(note@ =~= missing_feed_note());
        append_bytes(out, note.as_slice());
        assert(out@ =~= old(out)@ + marked(mark, line@));
    } else {
        assert(out@ =~= old(out)@ + marked(mark, line@));
    }
}

/// Appends the lines with indices from `from` up to, not including, `to` to
/// `out`, each marked as unchanged.
fn append_context(out: &mut Vec<u8>, lines: &Vec<String>, from: usize, to: usize)
    requires
        to <= lines@.len(),
    ensures
        final(out)@ == old(out)@ + context(lines@, from as int, to as int),
{
    if from >= to {
        assert(out@ =~= old(out)@ + context(lines@, from as int, to as int));
        return ;
    }
    let mut i: usize = from;
    assert(out@ =~= old(out)@ + context(lines@, from as int, from as int));
    while i < to
        invariant
            to <= lines@.len(),
            from <= i <= to,
            out@ == old(out)@ + context(lines@, from as int, i as int),
        decreases to - i,
    {
        let ghost before = out@;
        append_marked(out, 32, lines[i].as_str().as_bytes());
        i += 1;
        assert(context(lines@, from as int, i as int) == context(lines@, from as int, i - 1)
            + marked(32u8, encode_utf8(lines@[i - 1]@)));
        assert(out@ =~= old(out)@ + context(lines@, from as int, i as int));
    }
}

/// Appends the head of a hunk to `out`.
fn append_hunk_head(out: &mut Vec<u8>, first: usize, count: usize)
    ensures
        final(out)@ == old(out)@ + hunk_head(first as nat, count as nat),
{
    out.push(64);
    out.push(64);
    out.push(32);
    out.push(45);
    append_decimal(out, first as u64);
    out.push(44);
    append_decimal(out, count as u64);
    out.push(32);
    out.push(43);
    append_decimal(out, first as u64);
    out.push(44);
    append_decimal(out, count as u64);
    out.push(32);
    out.push(64);
    out.push(64);
    out.push(10);
    assert(out@ =~= old(out)@ + hunk_head(first as nat, count as nat));
}

/// The unified diff, without the two lines that name the files, between the
/// lines `lines` of a file and the same lines with line number `lineno`
/// replaced by `changed`.
pub fn unified_hunk(lines: &Vec<String>, lineno: usize, changed: &[u8]) -> (r: Vec<u8>)
    ensures
        r@ == diff_of(lines@, lineno as int, changed@),
{
    let mut r: Vec<u8> = Vec::new();
    let n: usize = lines.len();
    if lineno < 1 || lineno > n {
        return r;
    }
    let at: usize = lineno - 1;
    let was = lines[at].as_str().as_bytes();
    if same_bytes(changed, was) {
        return r;
    }
    let start: usize = if at >= CONTEXT {
        at - CONTEXT
    } else {
        0
    };
    let end: usize = if n - at > CONTEXT {
        at + CONTEXT + 1
    } else {
        n
    };
    append_hunk_head(&mut r, start + 1, end - start);
    append_context(&mut r, lines, start, at);
    append_marked(&mut r, 45, was);
    append_marked(&mut r, 43, changed);
    append_context(&mut r, lines, at + 1, end);
    assert(r@ =~= hunk_of(lines@, at as int, changed@));
    r
}

/// The two lines that stand above the hunks of a unified diff: `--- `, the
/// name of the old file, a tab and its time stamp, and the same behind `+++ `
/// for the new one.
pub open spec fn diff_head(
    old_name: Seq<char>,
    old_stamp: Seq<char>,
    new_name: Seq<char>,
    new_stamp: Seq<char>,
) -> Seq<u8> {
    seq![45u8, 45u8, 45u8, 32u8] + encode_utf8(old_name) + seq![9u8] + encode_utf8(old_stamp)
        + seq![10u8, 43u8, 43u8, 43u8, 32u8] + encode_utf8(new_name) + seq![9u8] + encode_utf8(
        new_stamp,
    ) + seq![10u8]
}

/// The two lines that name the files of a diff, with their time stamps.
pub fn diff_header(old_name: &str, old_stamp: &str, new_name: &str, new_stamp: &str) -> (r: Vec<
    u8,
>)
    ensures
        r@ == diff_head(old_name@, old_stamp@, new_name@, new_stamp@),
{
    let mut r: Vec<u8> = Vec::new();
    r.push(45);
    r.push(45);
    r.push(45);
    r.push(32);
    append_bytes(&mut r, old_name.as_bytes());
    r.push(9);
    append_bytes(&mut r, old_stamp.as_bytes());
    r.push(10);
    r.push(43);
    r.push(43);
    r.push(43);
    r.push(32);
    append_bytes(&mut r, new_name.as_bytes());
    r.push(9);
    append_bytes(&mut r, new_stamp.as_bytes());
    r.push(10);
    assert(r@ =~= diff_head(old_name@, old_stamp@, new_name@, new_stamp@));
    r
}

/// The diff that previews the rewrite of `result` in the file with the lines
/// `lines`, for the identifier `id`.
pub fn preview_lines(lines: &Vec<String>, lineno: usize, id: &str) -> (r: Vec<u8>)
    ensures
        r@ == if 1 <= lineno <= lines@.len() {
            diff_of(lines@, lineno as int, rewritten_line(lines@[lineno - 1]@, id@))
        } else {
            Seq::<u8>::empty()
        },
{
    if lineno < 1 || lineno > lines.len() {
        return Vec::new();
    }
    let with = replacement_for(id);
    let pat = unwrap_method();
    let changed = replace_first_bytes(
        lines[lineno - 1].as_str().as_bytes(),
        pat.as_slice(),
        with.as_slice(),
    );
    unified_hunk(lines, lineno, changed.as_slice())
}

/// The diff that previews the rewrite of `result`: what `exec_fix` would
/// change in the file with the lines `lines`, which stay as they are.
pub fn exec_diff(result: &StrictResult, lines: &Vec<String>) -> (r: Vec<u8>)
    ensures
        r@ == if 1 <= result.lineno <= lines@.len() {
            diff_of(
                lines@,
                result.lineno as int,
                rewritten_line(lines@[result.lineno - 1]@, md5_hex(result.key())),
            )
        } else {
            Seq::<u8>::empty()
        },
{
    let id = result.gen_md5hash();
    preview_lines(lines, result.lineno, id.as_str())
}

} // verus!
