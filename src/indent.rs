//! Indentation of multi-line text, done by the `indenter` crate.
use vstd::prelude::*;
use indenter::{indented, Format};
use std::fmt::Write;
use crate::text::{dec, pad_left, spaces};

verus! {

/// `s` with a prefix inserted before the first character of each non-empty
/// line: `first` for the first prefix inserted, `later` for every one after
/// it. `line_start` says whether `s` begins a line.
pub open spec fn indent_text(s: Seq<char>, first: Seq<char>, later: Seq<char>, line_start: bool) -> Seq<
    char,
>
    decreases s.len(),
{
    if s.len() == 0 {
        Seq::empty()
    } else if s[0] == '\n' {
        seq!['\n'] + indent_text(s.drop_first(), first, later, true)
    } else if line_start {
        first + seq![s[0]] + indent_text(s.drop_first(), later, later, false)
    } else {
        seq![s[0]] + indent_text(s.drop_first(), first, later, false)
    }
}

/// The prefix of the first line of the `n`th error of a chain.
pub open spec fn numbered_prefix(n: nat) -> Seq<char> {
    pad_left(dec(n), 4) + ": "@
}

/// Relies on indenter's `indented` with `Format::Uniform`: each non-empty line
/// gets `ind` in front of it, and the text is otherwise unchanged.
#[verifier::external_body]
pub(crate) fn indent_uniform(ind: &'static str, s: &str) -> (r: String)
    ensures
        r@ == indent_text(s@, ind@, ind@, true),
{
    let mut out = String::new();
    let _written = write!(indented(&mut out).with_format(Format::Uniform { indentation: ind }), "{}", s);
    out
}

/// Relies on indenter's `indented(..).ind(n)`: the first non-empty line gets
/// `n` right-aligned in four columns and `": "`, later non-empty lines six
/// spaces.
#[verifier::external_body]
pub(crate) fn indent_numbered(n: usize, s: &str) -> (r: String)
    ensures
        r@ == indent_text(s@, numbered_prefix(n as nat), spaces(6), true),
{
    let mut out = String::new();
    let _written = write!(indented(&mut out).ind(n), "{}", s);
    out
}

} // verus!
