//! Scanning the lines of a file, and the line that reports a finding.

use vstd::prelude::*;
use vstd::string::StringSliceAdditionalSpecFns;
use vstd::utf8::encode_utf8;
use crate::bytes::{decimal, append_bytes, append_decimal};
use crate::finding::{StrictResult, strict_column, check_strict};

verus! {

/// A line without its terminator: without the line feed at its end, and
/// without the carriage return before that line feed.
pub open spec fn without_terminator(line: Seq<char>) -> Seq<char> {
    if line.len() > 0 && line.last() == '\n' {
        let body = line.drop_last();
        if body.len() > 0 && body.last() == '\r' {
            body.drop_last()
        } else {
            body
        }
    } else {
        line
    }
}

/// `text` ends with `suffix`.
pub open spec fn ends_with(text: Seq<char>, suffix: Seq<char>) -> bool {
    &&& suffix.len() <= text.len()
    &&& text.subrange(text.len() - suffix.len(), text.len() as int) == suffix
}

/// Calls `str::strip_suffix`: where `text` ends with `suffix`, what stands
/// before that suffix; `None` where it does not end with it.
#[verifier::external_body]
fn strip_suffix<'a>(text: &'a str, suffix: &str) -> (r: Option<&'a str>)
    ensures
        match r {
            Some(head) => text@ == head@ + suffix@,
            None => !ends_with(text@, suffix@),
        },
{
    text.strip_suffix(suffix)
}

/// `line` without its terminator.
pub fn strip_terminator(line: &str) -> (r: &str)
    ensures
        r@ == without_terminator(line@),
{
    proof {
        reveal_strlit("\n");
        reveal_strlit("\r");
        assert("\n"@ =~= seq!['\n']);
        assert("\r"@ =~= seq!['\r']);
    }
    match strip_suffix(line, "\n") {
        Some(body) => {
            assert(body@ =~= line@.drop_last());
            match strip_suffix(body, "\r") {
                Some(head) => {
                    assert(head@ =~= body@.drop_last());
                    head
                },
                None => {
                    assert(body@.len() > 0 ==> body@.subrange(body@.len() - 1, body@.len() as int)
                        =~= seq![body@.last()]);
                    body
                },
            }
        },
        None => {
            assert(line@.len() > 0 ==> line@.subrange(line@.len() - 1, line@.len() as int)
                =~= seq![line@.last()]);
            line
        },
    }
}

/// The line `line` of a file, taken without its terminator, has a finding.
pub open spec fn has_finding(line: Seq<char>) -> bool {
    exists|c: int| strict_column(encode_utf8(without_terminator(line)), c)
}

/// Among `found` there is a finding for line number `lineno`.
pub open spec fn reported(found: Seq<StrictResult>, lineno: int) -> bool {
    exists|k: int| 0 <= k < found.len() && (#[trigger] found[k]).lineno == lineno
}

/// `f` is the finding of one of the lines `lines` of the file `filename`.
pub open spec fn finding_of(f: StrictResult, filename: Seq<char>, lines: Seq<String>) -> bool {
    &&& 1 <= f.lineno <= lines.len()
    &&& f.filename@ == filename
    &&& f.line@ == without_terminator(lines[f.lineno - 1]@)
    &&& f.is_occurrence()
}

/// Scans the lines of the file `filename`, each with its terminator as it was
/// read. The result holds one finding for each line that has one and nothing
/// else, in the order of the lines; the first line has number 1.
pub fn exec_check(filename: &str, lines: &Vec<String>) -> (r: Vec<StrictResult>)
    ensures
        forall|k: int| 0 <= k < r@.len() ==> finding_of(#[trigger] r@[k], filename@, lines@),
        forall|j: int, k: int| 0 <= j < k < r@.len() ==> r@[j].lineno < r@[k].lineno,
        forall|i: int|
            0 <= i < lines@.len() && has_finding(#[trigger] lines@[i]@) ==> reported(r@, i + 1),
{
    let n: usize = lines.len();
    let mut results: Vec<StrictResult> = Vec::new();
    let mut i: usize = 0;
    while i < n
        invariant
            i <= n,
            n == lines@.len(),
            forall|k: int|
                0 <= k < results@.len() ==> finding_of(#[trigger] results@[k], filename@, lines@),
            forall|k: int| 0 <= k < results@.len() ==> (#[trigger] results@[k]).lineno <= i,
            forall|j: int, k: int|
                0 <= j < k < results@.len() ==> results@[j].lineno < results@[k].lineno,
            forall|l: int|
                0 <= l < i && has_finding(#[trigger] lines@[l]@) ==> reported(results@, l + 1),
        decreases n - i,
    {
        let ghost before = results@;
        let text = strip_terminator(lines[i].as_str());
        let found = check_strict(filename, i + 1, text);
        let ghost hit = found is Some;
        proof {
            let bytes = encode_utf8(without_terminator(lines@[i as int]@));
            assert(text.spec_bytes() == bytes);
            if found is Some {
                assert(strict_column(bytes, found->0.col as int));
            }
            assert(hit == has_finding(lines@[i as int]@));
        }
        match found {
            Some(v) => {
                results.push(v);
            },
            None => {},
        }
        proof {
            assert forall|l: int|
                0 <= l < i + 1 && has_finding(#[trigger] lines@[l]@) implies reported(
                results@,
                l + 1,
            ) by {
                if l < i {
                    assert(reported(before, l + 1));
                    let k = choose|k: int|
                        0 <= k < before.len() && (#[trigger] before[k]).lineno == l + 1;
                    assert(results@[k].lineno == l + 1);
                } else {
                    assert(hit);
                    assert(results@[before.len() as int].lineno == l + 1);
                }
            }
        }
        i += 1;
    }
    results
}

/// The line that reports a finding: `path:line:column: text`.
pub open spec fn report_of(f: StrictResult) -> Seq<u8> {
    encode_utf8(f.filename@) + seq![58u8] + decimal(f.lineno as nat) + seq![58u8] + decimal(
        f.col as nat,
    ) + seq![58u8, 32u8] + encode_utf8(f.line@)
}

/// The line that reports `f`, without a terminator.
pub fn report_line(f: &StrictResult) -> (r: Vec<u8>)
    ensures
        r@ == report_of(*f),
{
    let mut r: Vec<u8> = Vec::new();
    append_bytes(&mut r, f.filename.as_str().as_bytes());
    r.push(58);
    append_decimal(&mut r, f.lineno as u64);
    r.push(58);
    append_decimal(&mut r, f.col as u64);
    r.push(58);
    r.push(32);
    append_bytes(&mut r, f.line.as_str().as_bytes());
    assert(r@ =~= report_of(*f));
    r
}

} // verus!
