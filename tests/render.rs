use nocolor_eyre::backtrace::{
    excerpt_first_line, excerpt_line_count, fold_frames, format_backtrace, format_frame, format_hidden, format_source,
    kept_positions, split_symbol, Fold,
};
use nocolor_eyre::frame::Frame;
use nocolor_eyre::verbosity::Verbosity;

fn named(n: usize, name: &str) -> Frame {
    Frame { n, name: Some(name.to_string()), lineno: None, filename: None }
}

#[test]
fn hash_suffix_is_split_off() {
    let (base, suffix) = split_symbol("foo::bar::h0123456789abcdef");
    assert_eq!(base, "foo::bar");
    assert_eq!(suffix, "::h0123456789abcdef");
}

#[test]
fn non_hex_suffix_keeps_name_whole() {
    let (base, suffix) = split_symbol("foo::bar::h0123456789abcdeg");
    assert_eq!(base, "foo::bar::h0123456789abcdeg");
    assert_eq!(suffix, "<unknown>");
    let (base, suffix) = split_symbol("foo::bar::h0123456789abcdef0");
    assert_eq!(base, "foo::bar::h0123456789abcdef0");
    assert_eq!(suffix, "<unknown>");
    let (base, suffix) = split_symbol("::h0123456789abcdef");
    assert_eq!(base, "::h0123456789abcdef");
    assert_eq!(suffix, "<unknown>");
}

#[test]
fn frame_without_details_uses_placeholders() {
    let f = Frame { n: 7, name: None, lineno: None, filename: None };
    assert_eq!(
        format_frame(&f, Verbosity::Medium, &None),
        " 7: <unknown><unknown>\n    at <unknown source file>:<unknown line>"
    );
}

#[test]
fn frame_with_location() {
    let f = Frame {
        n: 12,
        name: Some("app::run::h00112233445566aa".to_string()),
        lineno: Some(42),
        filename: Some("src/app.rs".to_string()),
    };
    assert_eq!(
        format_frame(&f, Verbosity::Medium, &Some(vec!["x".to_string()])),
        "12: app::run::h00112233445566aa\n    at src/app.rs:42"
    );
}

#[test]
fn full_verbosity_shows_source_window() {
    let f = Frame {
        n: 3,
        name: Some("app::run".to_string()),
        lineno: Some(2),
        filename: Some("src/app.rs".to_string()),
    };
    let lines = vec!["fn run() {".to_string(), "    panic!()".to_string(), "}".to_string()];
    let expected = " 3: app::run<unknown>\n    at src/app.rs:2\n       1 \u{2502} fn run() {\n       2 >     panic!()\n       3 \u{2502} }";
    assert_eq!(format_frame(&f, Verbosity::Full, &Some(lines)), expected);
}

#[test]
fn source_window_starts_two_lines_up() {
    assert_eq!(excerpt_first_line(1), 1);
    assert_eq!(excerpt_first_line(2), 1);
    assert_eq!(excerpt_first_line(3), 1);
    assert_eq!(excerpt_first_line(10), 8);
    let lines: Vec<String> = (8..15).map(|k| format!("line {}", k)).collect();
    let expected = "       8 \u{2502} line 8\n       9 \u{2502} line 9\n      10 > line 10\n      11 \u{2502} line 11\n      12 \u{2502} line 12";
    assert_eq!(format_source(10, &lines), expected);
    assert_eq!(format_source(10, &vec![]), "");
}

#[test]
fn hidden_marker_is_centred() {
    let three = format_hidden(3);
    let text = "\u{22ee} 3 frames hidden \u{22ee}";
    assert_eq!(three, format!("{}{}{}", " ".repeat(30), text, " ".repeat(31)));
    assert_eq!(three.chars().count(), 80);
    let one = format_hidden(1);
    assert_eq!(one.trim(), "\u{22ee} 1 frame hidden \u{22ee}");
}

#[test]
fn fold_counts_each_gap() {
    let kept = vec![false, true, false, false, true, false];
    assert_eq!(
        fold_frames(&kept),
        vec![Fold::Hidden(1), Fold::Shown(1), Fold::Hidden(2), Fold::Shown(4), Fold::Hidden(1)]
    );
    assert_eq!(fold_frames(&vec![true]), vec![Fold::Shown(0)]);
    assert_eq!(fold_frames(&vec![true, true]), vec![Fold::Shown(0), Fold::Shown(1)]);
}

#[test]
fn kept_positions_follow_frame_numbers() {
    let frames: Vec<Frame> = (1..=4).map(|n| named(n, "f")).collect();
    let filtered: Vec<&Frame> = vec![&frames[3], &frames[1]];
    assert_eq!(kept_positions(4, &filtered), vec![false, true, false, true]);
}

#[test]
fn empty_filtered_list_gives_empty_marker() {
    let frames: Vec<Frame> = (1..=3).map(|n| named(n, "f")).collect();
    let filtered: Vec<&Frame> = vec![];
    let out = format_backtrace(&frames, &filtered, Verbosity::Medium, &vec![None, None, None]);
    assert_eq!(out, "[BACKTRACE]\n<empty backtrace>");
    assert!(!out.contains("hidden"));
}

#[test]
fn backtrace_folds_gaps_and_sorts() {
    let frames: Vec<Frame> = (1..=5).map(|n| named(n, "f")).collect();
    let filtered: Vec<&Frame> = vec![&frames[3], &frames[1]];
    let out = format_backtrace(&frames, &filtered, Verbosity::Medium, &vec![None; 5]);
    let loc = "    at <unknown source file>:<unknown line>";
    let expected = format!(
        "[BACKTRACE]\n{}\n 2: f<unknown>\n{}\n{}\n 4: f<unknown>\n{}\n{}",
        format_hidden(1),
        loc,
        format_hidden(1),
        loc,
        format_hidden(1)
    );
    assert_eq!(out, expected);
}

#[test]
fn single_frame_has_no_markers() {
    let frames: Vec<Frame> = vec![named(1, "only")];
    let filtered: Vec<&Frame> = frames.iter().collect();
    let out = format_backtrace(&frames, &filtered, Verbosity::Medium, &vec![None]);
    assert_eq!(out, "[BACKTRACE]\n 1: only<unknown>\n    at <unknown source file>:<unknown line>");
}

#[test]
fn unfiltered_trace_shows_every_frame() {
    let frames: Vec<Frame> = (1..=6).map(|n| named(n, "eyre::internal")).collect();
    let filtered: Vec<&Frame> = frames.iter().collect();
    let out = format_backtrace(&frames, &filtered, Verbosity::Medium, &vec![None; 6]);
    assert!(!out.contains('\u{22ee}'));
    assert_eq!(out.matches("    at ").count(), 6);
    let folds = fold_frames(&kept_positions(6, &filtered));
    assert_eq!(folds, (0..6).map(Fold::Shown).collect::<Vec<_>>());
}

#[test]
fn source_window_ends_two_lines_down() {
    assert_eq!(excerpt_line_count(1), 3);
    assert_eq!(excerpt_line_count(2), 4);
    assert_eq!(excerpt_line_count(3), 5);
    assert_eq!(excerpt_line_count(40), 5);
    let lines: Vec<String> = vec!["a".to_string(), "b".to_string(), "c".to_string(), "d".to_string()];
    assert_eq!(format_source(1, &lines), "       1 > a\n       2 \u{2502} b\n       3 \u{2502} c");
    assert_eq!(
        format_source(2, &lines),
        "       1 \u{2502} a\n       2 > b\n       3 \u{2502} c\n       4 \u{2502} d"
    );
}
