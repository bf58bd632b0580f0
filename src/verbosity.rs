//! How much a report shows, decided from the values of the environment
//! variables that control it.
use vstd::prelude::*;
use crate::text::same_text;

verus! {

/// How much of a backtrace a report shows.
#[derive(Debug, Clone, Copy, PartialEq, Eq, Structural)]
pub enum Verbosity {
    /// no backtrace is captured
    Minimal,
    /// frames are shown, without source
    Medium,
    /// frames are shown with the source lines around them
    Full,
}

/// The verbosity that a backtrace-control value asks for: `"full"` is Full,
/// another value but `"0"` is Medium, `"0"` or no value is Minimal.
pub open spec fn verbosity_of(v: Option<Seq<char>>) -> Verbosity {
    match v {
        Some(s) => if s == "full"@ {
            Verbosity::Full
        } else if s != "0"@ {
            Verbosity::Medium
        } else {
            Verbosity::Minimal
        },
        None => Verbosity::Minimal,
    }
}

/// The characters of an optional string.
pub open spec fn opt_view(v: Option<&str>) -> Option<Seq<char>> {
    match v {
        Some(s) => Some(s@),
        None => None,
    }
}

/// Whether the value of the show-hidden variable turns frame filtering off.
pub open spec fn show_hidden_value(v: Option<Seq<char>>) -> bool {
    match v {
        Some(s) => s == "1"@ || s == "on"@ || s == "y"@,
        None => false,
    }
}

impl Verbosity {
    /// At least Medium: a backtrace is captured and shown.
    pub open spec fn captures(self) -> bool {
        self != Verbosity::Minimal
    }

    /// Whether a backtrace is captured at this verbosity.
    pub fn captures_backtrace(self) -> (r: bool)
        ensures
            r == self.captures(),
    {
        !matches!(self, Verbosity::Minimal)
    }

    /// Whether source lines are shown at this verbosity.
    pub fn shows_source(self) -> (r: bool)
        ensures
            r == (self == Verbosity::Full),
    {
        matches!(self, Verbosity::Full)
    }
}

/// The verbosity for panics, from the value of the backtrace variable.
pub fn panic_verbosity(var: Option<&str>) -> (r: Verbosity)
    ensures
        r == verbosity_of(opt_view(var)),
{
    match var {
        Some(s) => if same_text(s, "full") {
            Verbosity::Full
        } else if !same_text(s, "0") {
            Verbosity::Medium
        } else {
            Verbosity::Minimal
        },
        None => Verbosity::Minimal,
    }
}

/// The verbosity for errors: the library-specific variable when it is set,
/// else the general backtrace variable.
pub fn lib_verbosity(lib_var: Option<&str>, var: Option<&str>) -> (r: Verbosity)
    ensures
        r == verbosity_of(
            match lib_var {
                Some(s) => Some(s@),
                None => opt_view(var),
            },
        ),
{
    match lib_var {
        Some(s) => panic_verbosity(Some(s)),
        None => panic_verbosity(var),
    }
}

/// Whether the show-hidden variable's value asks for every frame, unfiltered.
pub fn show_hidden(var: Option<&str>) -> (r: bool)
    ensures
        r == show_hidden_value(opt_view(var)),
{
    match var {
        Some(s) => same_text(s, "1") || same_text(s, "on") || same_text(s, "y"),
        None => false,
    }
}

} // verus!
