//! What is done with the findings of a run, and where a rewritten file is
//! kept until it is complete.

use vstd::prelude::*;
use vstd::string::StringExecFns;

verus! {

/// What a run does with its findings.
#[derive(Clone, Copy, Debug, PartialEq, Eq, Structural)]
pub enum Mode {
    /// Each finding is reported; no file is touched.
    Report,
    /// Each finding is rewritten in its file.
    Fix,
    /// The rewrite of each finding is shown as a diff; no file is changed.
    Diff,
}

/// The mode for the two switches of a run. They exclude each other: with both
/// there is no mode. With neither, findings are reported.
pub fn select_mode(fix: bool, diff: bool) -> (r: Option<Mode>)
    ensures
        r == if fix && diff {
            None
        } else if fix {
            Some(Mode::Fix)
        } else if diff {
            Some(Mode::Diff)
        } else {
            Some(Mode::Report)
        },
{
    if fix && diff {
        None
    } else if fix {
        Some(Mode::Fix)
    } else if diff {
        Some(Mode::Diff)
    } else {
        Some(Mode::Report)
    }
}

/// The name of the scratch file of `path`: `path` with `.strictfix` behind it.
pub fn scratch_name(path: &str) -> (r: String)
    ensures
        r@ == path@ + ".strictfix"@,
{
    String::from_str(path).concat(".strictfix")
}

} // verus!
