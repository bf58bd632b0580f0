use nocolor_eyre::report::{
    default_panic_message, env_section, error_report_text, format_chain, format_location,
    print_panic_info, ErrorSections, Location, PanicSections,
};
use nocolor_eyre::section::Sections;
use nocolor_eyre::verbosity::{lib_verbosity, panic_verbosity, show_hidden, Verbosity};

fn error_sections(chain: &[&str]) -> ErrorSections {
    ErrorSections {
        chain: chain.iter().map(|s| s.to_string()).collect(),
        display_location_section: true,
        location: Some(Location { file: "src/main.rs".to_string(), line: 9 }),
        error_sections: vec![],
        custom_sections: vec![],
        suppress_backtrace: false,
        backtrace: None,
        other_sections: vec![],
        display_env_section: true,
        verbosity: Verbosity::Minimal,
        issue_section: None,
    }
}

#[test]
fn composer_separates_present_sections_only() {
    let mut s = Sections::new("--");
    s.write("");
    s.write("a");
    s.write("");
    s.write("b");
    s.write_opt(None);
    s.write_opt(Some("c"));
    s.write("");
    assert_eq!(s.finish(), "a--b--c");
    let mut one = Sections::new("--");
    one.write("");
    one.write("only");
    assert_eq!(one.finish(), "only");
    let none = Sections::new("--");
    assert_eq!(none.finish(), "");
}

#[test]
fn verbosity_from_variable() {
    assert_eq!(panic_verbosity(None), Verbosity::Minimal);
    assert!(!panic_verbosity(None).captures_backtrace());
    assert_eq!(panic_verbosity(Some("0")), Verbosity::Minimal);
    assert_eq!(panic_verbosity(Some("1")), Verbosity::Medium);
    assert_eq!(panic_verbosity(Some("full")), Verbosity::Full);
    assert_eq!(panic_verbosity(Some("FULL")), Verbosity::Medium);
    assert_eq!(lib_verbosity(Some("0"), Some("full")), Verbosity::Minimal);
    assert_eq!(lib_verbosity(None, Some("full")), Verbosity::Full);
    assert_eq!(lib_verbosity(None, None), Verbosity::Minimal);
}

#[test]
fn show_hidden_values() {
    assert!(show_hidden(Some("1")));
    assert!(show_hidden(Some("on")));
    assert!(show_hidden(Some("y")));
    assert!(!show_hidden(Some("yes")));
    assert!(!show_hidden(Some("0")));
    assert!(!show_hidden(None));
}

#[test]
fn panic_message_and_location() {
    assert_eq!(format_location(&None), "<unknown>");
    let loc = Some(Location { file: "src/lib.rs".to_string(), line: 120 });
    assert_eq!(
        default_panic_message(Some("boom"), &loc),
        "The application panicked (crashed)\nMessage:  boom\nLocation: src/lib.rs:120"
    );
    assert_eq!(
        default_panic_message(None, &None),
        "The application panicked (crashed)\nMessage:  <non string panic payload>\nLocation: <unknown>"
    );
}

#[test]
fn env_hint_texts() {
    assert_eq!(
        env_section(false, Verbosity::Minimal),
        "Backtrace omitted. Run with RUST_BACKTRACE=1 environment variable to display it.\nRun with RUST_BACKTRACE=full to include source snippets."
    );
    assert_eq!(
        env_section(true, Verbosity::Full),
        "Run with COLORBT_SHOW_HIDDEN=1 environment variable to disable frame filtering."
    );
}

#[test]
fn minimal_panic_report_has_no_backtrace() {
    let v = panic_verbosity(None);
    let p = PanicSections {
        message: "msg".to_string(),
        section: None,
        backtrace: None,
        display_env_section: true,
        verbosity: v,
        issue_section: None,
    };
    let out = print_panic_info(&p);
    assert!(!out.contains("[BACKTRACE]"));
    assert_eq!(
        out,
        "msg\n\nBacktrace omitted. Run with RUST_BACKTRACE=1 environment variable to display it.\nRun with RUST_BACKTRACE=full to include source snippets."
    );
}

#[test]
fn panic_report_orders_sections() {
    let p = PanicSections {
        message: "msg".to_string(),
        section: Some("panel".to_string()),
        backtrace: Some("[BACKTRACE]\n 1: f\n\nx".to_string()),
        display_env_section: false,
        verbosity: Verbosity::Medium,
        issue_section: Some("issue".to_string()),
    };
    assert_eq!(print_panic_info(&p), "msg\n\npanel\n\n  [BACKTRACE]\n   1: f\n\n  x\n\nissue");
}

#[test]
fn chain_is_numbered() {
    let chain = vec!["outer".to_string(), "inner\nsecond line".to_string()];
    assert_eq!(format_chain(&chain), "\n   0: outer\n   1: inner\n      second line");
}

#[test]
fn bt_disabled_disabled() {
    let mut e = error_sections(&["error occured"]);
    e.display_env_section = false;
    let report = error_report_text(&e);
    assert!(!report.contains("RUST_BACKTRACE"));
}

#[test]
fn enabled() {
    let e = error_sections(&["error occured"]);
    let report = error_report_text(&e);
    assert!(report.contains("RUST_BACKTRACE"));
}

#[test]
fn location_disabled_disabled() {
    let mut e = error_sections(&["error occured"]);
    e.display_location_section = false;
    let report = error_report_text(&e);
    assert!(!report.contains("Location:"));
}

#[test]
fn error_report_orders_sections() {
    let mut e = error_sections(&["top", "cause"]);
    e.display_env_section = false;
    e.error_sections = vec!["Note: n".to_string()];
    e.custom_sections = vec!["Custom".to_string()];
    e.backtrace = Some("[BACKTRACE]".to_string());
    e.other_sections = vec!["Suggestion: a".to_string(), "Suggestion: b".to_string()];
    e.issue_section = Some("issue".to_string());
    assert_eq!(
        error_report_text(&e),
        "\n   0: top\n   1: cause\n\nLocation:\n   src/main.rs:9\n\nNote: n\n\nCustom\n\n  [BACKTRACE]\n\nSuggestion: a\nSuggestion: b\n\nissue"
    );
    e.suppress_backtrace = true;
    assert!(!error_report_text(&e).contains("[BACKTRACE]"));
}
