//! Assembly of panic and error reports from their sections, in a fixed
//! order, through the section composer.
use vstd::prelude::*;
use crate::indent::{indent_numbered, indent_text, indent_uniform, numbered_prefix};
use crate::section::{Sections, composed};
use crate::text::{dec, decimal, spaces};
use crate::verbosity::Verbosity;

verus! {

/// Where a panic was raised or an error was created.
#[derive(Debug, Clone)]
pub struct Location {
    /// source file
    pub file: String,
    /// line in that file
    pub line: u32,
}

/// The sections of a panic report, before assembly.
pub struct PanicSections {
    /// the primary message
    pub message: String,
    /// a custom panel, if one is configured
    pub section: Option<String>,
    /// the rendered backtrace, if one was captured
    pub backtrace: Option<String>,
    /// whether the environment hint is shown
    pub display_env_section: bool,
    /// the verbosity for panics
    pub verbosity: Verbosity,
    /// the issue-tracker section, if configured and the panic qualifies
    pub issue_section: Option<String>,
}

/// The sections of an error report, before assembly.
pub struct ErrorSections {
    /// the messages of the error and of its causes, outermost first
    pub chain: Vec<String>,
    /// whether the location section is shown
    pub display_location_section: bool,
    /// where the error was created, if known
    pub location: Option<Location>,
    /// sections the error carries (hints, notes, suggestions)
    pub error_sections: Vec<String>,
    /// fully custom sections
    pub custom_sections: Vec<String>,
    /// whether the backtrace is left out of this report
    pub suppress_backtrace: bool,
    /// the rendered backtrace, if one was captured
    pub backtrace: Option<String>,
    /// the remaining attached sections
    pub other_sections: Vec<String>,
    /// whether the environment hint is shown
    pub display_env_section: bool,
    /// the verbosity for errors
    pub verbosity: Verbosity,
    /// the issue-tracker section, if configured and the error qualifies
    pub issue_section: Option<String>,
}

/// The characters of an optional string; none when absent.
pub open spec fn opt_text(o: Option<String>) -> Seq<char> {
    match o {
        Some(s) => s@,
        None => Seq::empty(),
    }
}

/// The characters of each string.
pub open spec fn texts(v: Seq<String>) -> Seq<Seq<char>> {
    v.map_values(|s: String| s@)
}

/// A location as `file:line`, or `<unknown>`.
pub open spec fn location_text(loc: Option<Location>) -> Seq<char> {
    match loc {
        Some(l) => l.file@ + ":"@ + dec(l.line as nat),
        None => "<unknown>"@,
    }
}

/// The default primary message of a panic report.
pub open spec fn panic_message_text(payload: Option<Seq<char>>, loc: Option<Location>) -> Seq<char> {
    "The application panicked (crashed)\nMessage:  "@ + (match payload {
        Some(p) => p,
        None => "<non string panic payload>"@,
    }) + "\nLocation: "@ + location_text(loc)
}

/// The environment hint: how to see the backtrace, or how to see the frames
/// that were hidden; and below it, short of Full verbosity, how to see source.
pub open spec fn env_text(captured: bool, v: Verbosity) -> Seq<char> {
    composed(
        "\n"@,
        seq![
            if captured {
                "Run with COLORBT_SHOW_HIDDEN=1 environment variable to disable frame filtering."@
            } else {
                "Backtrace omitted. Run with RUST_BACKTRACE=1 environment variable to display it."@
            },
            if v != Verbosity::Full {
                "Run with RUST_BACKTRACE=full to include source snippets."@
            } else {
                Seq::empty()
            },
        ],
    )
}

/// A backtrace as it stands in a report: indented by two spaces.
pub open spec fn backtrace_part(bt: Option<String>) -> Seq<char> {
    match bt {
        Some(b) => indent_text(b@, "  "@, "  "@, true),
        None => Seq::empty(),
    }
}

/// The sections of a panic report, in order.
pub open spec fn panic_parts(p: PanicSections) -> Seq<Seq<char>> {
    seq![
        p.message@,
        opt_text(p.section),
        backtrace_part(p.backtrace),
        if p.display_env_section {
            env_text(p.verbosity.captures(), p.verbosity)
        } else {
            Seq::empty()
        },
        opt_text(p.issue_section),
    ]
}

/// The text of a panic report: its sections with a blank line between any
/// two present ones.
pub open spec fn panic_report_spec(p: PanicSections) -> Seq<char> {
    composed("\n\n"@, panic_parts(p))
}

/// The causal chain: each message on a new line, indented under its number.
pub open spec fn chain_text(chain: Seq<Seq<char>>) -> Seq<char>
    decreases chain.len(),
{
    if chain.len() == 0 {
        Seq::empty()
    } else {
        chain_text(chain.drop_last()) + "\n"@ + indent_text(
            chain.last(),
            numbered_prefix((chain.len() - 1) as nat),
            spaces(6),
            true,
        )
    }
}

/// The location section of an error report.
pub open spec fn location_section(loc: Option<Location>) -> Seq<char> {
    "Location:\n"@ + indent_text(location_text(loc), "   "@, "   "@, true)
}

/// The sections of an error report, in order.
pub open spec fn error_parts(e: ErrorSections) -> Seq<Seq<char>> {
    seq![chain_text(texts(e.chain@))] + seq![
        if e.display_location_section {
            location_section(e.location)
        } else {
            Seq::empty()
        },
    ] + texts(e.error_sections@) + texts(e.custom_sections@) + seq![
        if e.suppress_backtrace {
            Seq::empty()
        } else {
            backtrace_part(e.backtrace)
        },
        composed("\n"@, texts(e.other_sections@)),
        if e.display_env_section {
            env_text(e.backtrace is Some, e.verbosity)
        } else {
            Seq::empty()
        },
        opt_text(e.issue_section),
    ]
}

/// The text of an error report: its sections with a blank line between any
/// two present ones.
pub open spec fn error_report_spec(e: ErrorSections) -> Seq<char> {
    composed("\n\n"@, error_parts(e))
}

/// The location as `file:line`, or `<unknown>`.
pub fn format_location(loc: &Option<Location>) -> (r: String)
    ensures
        r@ == location_text(*loc),
{
    match loc {
        Some(l) => {
            let mut r = l.file.clone();
            r.append(":");
            let d = decimal(l.line as u64);
            r.append(d.as_str());
            r
        },
        None => String::from_str("<unknown>"),
    }
}

/// The default primary message of a panic report; a payload that is not text
/// reads as a placeholder.
pub fn default_panic_message(payload: Option<&str>, loc: &Option<Location>) -> (r: String)
    ensures
        r@ == panic_message_text(
            match payload {
                Some(p) => Some(p@),
                None => None,
            },
            *loc,
        ),
{
    let mut r = String::from_str("The application panicked (crashed)\nMessage:  ");
    match payload {
        Some(p) => r.append(p),
        None => r.append("<non string panic payload>"),
    }
    r.append("\nLocation: ");
    let l = format_location(loc);
    r.append(l.as_str());
    r
}

/// The environment hint for a report whose backtrace was or was not captured.
pub fn env_section(captured: bool, v: Verbosity) -> (r: String)
    ensures
        r@ == env_text(captured, v),
{
    let mut out = Sections::new("\n");
    if captured {
        out.write("Run with COLORBT_SHOW_HIDDEN=1 environment variable to disable frame filtering.");
    } else {
        out.write("Backtrace omitted. Run with RUST_BACKTRACE=1 environment variable to display it.");
    }
    if !v.shows_source() {
        out.write("Run with RUST_BACKTRACE=full to include source snippets.");
    } else {
        out.write_opt(None);
    }
    assert(out.parts() =~= seq![
        if captured {
            "Run with COLORBT_SHOW_HIDDEN=1 environment variable to disable frame filtering."@
        } else {
            "Backtrace omitted. Run with RUST_BACKTRACE=1 environment variable to display it."@
        },
        if v != Verbosity::Full {
            "Run with RUST_BACKTRACE=full to include source snippets."@
        } else {
            Seq::empty()
        },
    ]);
    out.finish()
}

fn backtrace_section(bt: &Option<String>) -> (r: String)
    ensures
        r@ == backtrace_part(*bt),
{
    match bt {
        Some(b) => indent_uniform("  ", b.as_str()),
        None => String::new(),
    }
}

fn write_all(out: &mut Sections, items: &Vec<String>)
    requires
        old(out).wf(),
    ensures
        final(out).wf(),
        final(out).separator() == old(out).separator(),
        final(out).parts() == old(out).parts() + texts(items@),
{
    let ghost start = out.parts();
    let mut i: usize = 0;
    while i < items.len()
        invariant
            i <= items@.len(),
            out.wf(),
            out.separator() == old(out).separator(),
            start == old(out).parts(),
            out.parts() == start + texts(items@).subrange(0, i as int),
        decreases items@.len() - i,
    {
        out.write(items[i].as_str());
        assert(out.parts() =~= start + texts(items@).subrange(0, i + 1));
        i = i + 1;
    }
    assert(texts(items@).subrange(0, items@.len() as int) =~= texts(items@));
}

/// Assembles a panic report: message, custom panel, backtrace, environment
/// hint and issue link, each only where present.
pub fn print_panic_info(p: &PanicSections) -> (r: String)
    ensures
        r@ == panic_report_spec(*p),
{
    let mut out = Sections::new("\n\n");
    out.write(p.message.as_str());
    match &p.section {
        Some(s) => out.write(s.as_str()),
        None => out.write_opt(None),
    }
    let bt = backtrace_section(&p.backtrace);
    out.write(bt.as_str());
    if p.display_env_section {
        let env = env_section(p.verbosity.captures_backtrace(), p.verbosity);
        out.write(env.as_str());
    } else {
        out.write_opt(None);
    }
    match &p.issue_section {
        Some(s) => out.write(s.as_str()),
        None => out.write_opt(None),
    }
    assert(out.parts() =~= panic_parts(*p));
    out.finish()
}

/// The causal chain of an error, each message indented under its number.
pub fn format_chain(chain: &Vec<String>) -> (r: String)
    ensures
        r@ == chain_text(texts(chain@)),
{
    let mut r = String::new();
    let mut i: usize = 0;
    while i < chain.len()
        invariant
            i <= chain@.len(),
            r@ == chain_text(texts(chain@).subrange(0, i as int)),
        decreases chain@.len() - i,
    {
        r.append("\n");
        let item = indent_numbered(i, chain[i].as_str());
        r.append(item.as_str());
        let ghost pre = texts(chain@).subrange(0, i + 1);
        assert(pre.drop_last() =~= texts(chain@).subrange(0, i as int));
        i = i + 1;
    }
    assert(texts(chain@).subrange(0, chain@.len() as int) =~= texts(chain@));
    r
}

/// Assembles an error report: the causal chain, then location, the error's
/// own sections, custom sections, backtrace, the remaining sections, the
/// environment hint and the issue link, each only where present.
pub fn error_report_text(e: &ErrorSections) -> (r: String)
    ensures
        r@ == error_report_spec(*e),
{
    let mut out = Sections::new("\n\n");
    let chain = format_chain(&e.chain);
    out.write(chain.as_str());
    if e.display_location_section {
        let mut loc = String::from_str("Location:\n");
        let body = format_location(&e.location);
        let ind = indent_uniform("   ", body.as_str());
        loc.append(ind.as_str());
        out.write(loc.as_str());
    } else {
        out.write_opt(None);
    }
    write_all(&mut out, &e.error_sections);
    write_all(&mut out, &e.custom_sections);
    if e.suppress_backtrace {
        out.write_opt(None);
    } else {
        let bt = backtrace_section(&e.backtrace);
        out.write(bt.as_str());
    }
    let mut others = Sections::new("\n");
    write_all(&mut others, &e.other_sections);
    assert(others.parts() =~= texts(e.other_sections@));
    let others_text = others.finish();
    out.write(others_text.as_str());
    if e.display_env_section {
        let env = env_section(e.backtrace.is_some(), e.verbosity);
        out.write(env.as_str());
    } else {
        out.write_opt(None);
    }
    match &e.issue_section {
        Some(s) => out.write(s.as_str()),
        None => out.write_opt(None),
    }
    assert(out.parts() =~= error_parts(*e));
    out.finish()
}

} // verus!
