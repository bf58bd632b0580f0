//! One stack frame and the heuristics that classify it by symbol name.
use vstd::prelude::*;
use crate::text::{has_prefix, same_text, starts_with};

verus! {

/// One frame of a captured backtrace.
#[derive(Debug, Clone)]
pub struct Frame {
    /// 1-based position of the frame in the unfiltered capture
    pub n: usize,
    /// symbol name, if it was resolved
    pub name: Option<String>,
    /// source line number
    pub lineno: Option<u32>,
    /// source file path
    pub filename: Option<String>,
}

/// The symbol name of a frame, as characters.
pub open spec fn name_of(f: Frame) -> Option<Seq<char>> {
    match f.name {
        Some(s) => Some(s@),
        None => None,
    }
}

/// The source file of a frame, as characters.
pub open spec fn file_of(f: Frame) -> Option<Seq<char>> {
    match f.filename {
        Some(s) => Some(s@),
        None => None,
    }
}

/// Symbol names of the unwinding machinery and of panic or error construction.
pub open spec fn post_panic_symbol(s: Seq<char>) -> bool {
    starts_with(s, "_rust_begin_unwind"@)
    || starts_with(s, "rust_begin_unwind"@)
    || starts_with(s, "core::result::unwrap_failed"@)
    || starts_with(s, "core::option::expect_none_failed"@)
    || starts_with(s, "core::panicking::panic_fmt"@)
    || starts_with(s, "color_backtrace::create_panic_handler"@)
    || starts_with(s, "std::panicking::begin_panic"@)
    || starts_with(s, "begin_panic_fmt"@)
    || starts_with(s, "failure::backtrace::Backtrace::new"@)
    || starts_with(s, "backtrace::capture"@)
    || starts_with(s, "failure::error_message::err_msg"@)
    || starts_with(s, "<failure::error::Error as core::convert::From<F>>::from"@)
}

/// Symbol names of program startup and of the test harness.
pub open spec fn runtime_init_symbol(s: Seq<char>) -> bool {
    starts_with(s, "std::rt::lang_start::"@)
    || starts_with(s, "test::run_test::run_test_inner::"@)
    || starts_with(s, "std::sys_common::backtrace::__rust_begin_short_backtrace"@)
}

/// A frame that runs after the panic began: its name is known and is one of
/// the panic machinery's.
pub open spec fn is_post_panic(f: Frame) -> bool {
    match name_of(f) {
        Some(s) => post_panic_symbol(s),
        None => false,
    }
}

/// A frame of the language runtime: name and file known, and either the name
/// is a startup symbol or the frame is the test harness's own closure.
pub open spec fn is_runtime_init(f: Frame) -> bool {
    match (name_of(f), file_of(f)) {
        (Some(s), Some(p)) => runtime_init_symbol(s) || (s == "{{closure}}"@ && p
            == "src/libtest/lib.rs"@),
        _ => false,
    }
}

fn is_post_panic_symbol(s: &str) -> (r: bool)
    ensures
        r == post_panic_symbol(s@),
{
    has_prefix(s, "_rust_begin_unwind")
    || has_prefix(s, "rust_begin_unwind")
    || has_prefix(s, "core::result::unwrap_failed")
    || has_prefix(s, "core::option::expect_none_failed")
    || has_prefix(s, "core::panicking::panic_fmt")
    || has_prefix(s, "color_backtrace::create_panic_handler")
    || has_prefix(s, "std::panicking::begin_panic")
    || has_prefix(s, "begin_panic_fmt")
    || has_prefix(s, "failure::backtrace::Backtrace::new")
    || has_prefix(s, "backtrace::capture")
    || has_prefix(s, "failure::error_message::err_msg")
    || has_prefix(s, "<failure::error::Error as core::convert::From<F>>::from")
}

fn is_runtime_init_symbol(s: &str) -> (r: bool)
    ensures
        r == runtime_init_symbol(s@),
{
    has_prefix(s, "std::rt::lang_start::")
    || has_prefix(s, "test::run_test::run_test_inner::")
    || has_prefix(s, "std::sys_common::backtrace::__rust_begin_short_backtrace")
}

impl Frame {
    /// Heuristically determine whether a frame is likely to be a post panic
    /// frame: one called after the panic was already in progress, of no use
    /// to a reader of the backtrace.
    pub fn is_post_panic_code(&self) -> (r: bool)
        ensures
            r == is_post_panic(*self),
    {
        match &self.name {
            Some(name) => is_post_panic_symbol(name.as_str()),
            None => false,
        }
    }

    /// Heuristically determine whether a frame is likely to be part of the
    /// language runtime.
    pub fn is_runtime_init_code(&self) -> (r: bool)
        ensures
            r == is_runtime_init(*self),
    {
        match (&self.name, &self.filename) {
            (Some(name), Some(file)) => {
                if is_runtime_init_symbol(name.as_str()) {
                    return true;
                }
                // On Linux this is the best rule found for skipping test setup.
                same_text(name.as_str(), "{{closure}}") && same_text(
                    file.as_str(),
                    "src/libtest/lib.rs",
                )
            },
            _ => false,
        }
    }
}

} // verus!
