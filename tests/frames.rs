use nocolor_eyre::filter::{default_frame_filter, eyre_frame_filters};
use nocolor_eyre::frame::Frame;

fn frame(n: usize, name: Option<&str>, file: Option<&str>) -> Frame {
    Frame {
        n,
        name: name.map(|s| s.to_string()),
        lineno: Some(10),
        filename: file.map(|s| s.to_string()),
    }
}

fn numbers(frames: &[&Frame]) -> Vec<usize> {
    frames.iter().map(|f| f.n).collect()
}

#[test]
fn post_panic_prefixes_match() {
    assert!(frame(1, Some("rust_begin_unwind"), None).is_post_panic_code());
    assert!(frame(1, Some("core::panicking::panic_fmt::h12"), None).is_post_panic_code());
    assert!(frame(1, Some("std::panicking::begin_panic_handler"), None).is_post_panic_code());
    assert!(!frame(1, Some("my_app::main"), None).is_post_panic_code());
    assert!(!frame(1, Some("core::panicking"), None).is_post_panic_code());
    assert!(!frame(1, None, None).is_post_panic_code());
}

#[test]
fn runtime_init_needs_name_and_file() {
    assert!(frame(1, Some("std::rt::lang_start::{{closure}}"), Some("rt.rs")).is_runtime_init_code());
    assert!(!frame(1, Some("std::rt::lang_start::{{closure}}"), None).is_runtime_init_code());
    assert!(frame(1, Some("{{closure}}"), Some("src/libtest/lib.rs")).is_runtime_init_code());
    assert!(!frame(1, Some("{{closure}}"), Some("src/main.rs")).is_runtime_init_code());
    assert!(!frame(1, None, Some("src/libtest/lib.rs")).is_runtime_init_code());
}

#[test]
fn default_filter_starts_after_post_panic_frame() {
    let frames: Vec<Frame> = vec![
        frame(1, Some("a::one"), None),
        frame(2, Some("rust_begin_unwind"), None),
        frame(3, Some("a::three"), None),
        frame(4, Some("a::four"), None),
        frame(5, Some("a::five"), None),
    ];
    let mut filtered: Vec<&Frame> = frames.iter().collect();
    default_frame_filter(&mut filtered);
    assert_eq!(numbers(&filtered), vec![4, 5]);
}

#[test]
fn default_filter_ends_at_runtime_init_frame() {
    let frames: Vec<Frame> = vec![
        frame(1, Some("a::one"), Some("a.rs")),
        frame(2, Some("a::two"), Some("a.rs")),
        frame(3, Some("std::rt::lang_start::inner"), Some("rt.rs")),
        frame(4, Some("main"), Some("a.rs")),
    ];
    let mut filtered: Vec<&Frame> = frames.iter().collect();
    default_frame_filter(&mut filtered);
    assert_eq!(numbers(&filtered), vec![1, 2]);
}

#[test]
fn default_filter_keeps_all_without_markers() {
    let frames: Vec<Frame> = (1..=4).map(|n| frame(n, Some("user::f"), None)).collect();
    let mut filtered: Vec<&Frame> = frames.iter().collect();
    default_frame_filter(&mut filtered);
    assert_eq!(numbers(&filtered), vec![1, 2, 3, 4]);
}

#[test]
fn library_filter_drops_own_frames_and_keeps_unnamed() {
    let frames: Vec<Frame> = vec![
        frame(1, Some("eyre::private::format_err"), None),
        frame(2, Some("user::work"), None),
        frame(3, Some("nocolor_eyre::config::x"), None),
        frame(4, None, None),
        frame(5, Some("<nocolor_eyre::Handler as eyre::EyreHandler>::default"), None),
        frame(6, Some("user::main"), None),
    ];
    let mut filtered: Vec<&Frame> = frames.iter().collect();
    eyre_frame_filters(&mut filtered);
    assert_eq!(numbers(&filtered), vec![2, 4, 6]);
}

#[test]
fn pipeline_never_grows_or_reorders() {
    let frames: Vec<Frame> = vec![
        frame(1, Some("core::result::unwrap_failed"), None),
        frame(2, Some("helper"), None),
        frame(3, Some("user::a"), None),
        frame(4, Some("eyre::x"), None),
        frame(5, Some("user::b"), None),
        frame(6, Some("user::c"), None),
    ];
    let mut filtered: Vec<&Frame> = frames.iter().collect();
    default_frame_filter(&mut filtered);
    let after_first = numbers(&filtered);
    eyre_frame_filters(&mut filtered);
    let after_second = numbers(&filtered);
    assert_eq!(after_first, vec![3, 4, 5, 6]);
    assert_eq!(after_second, vec![3, 5, 6]);
    assert!(after_second.len() <= after_first.len() && after_first.len() <= frames.len());
    assert!(after_second.windows(2).all(|w| w[0] < w[1]));
}

#[test]
fn library_filter_keeps_lone_unnamed_frame() {
    let frames: Vec<Frame> = vec![frame(1, None, None)];
    let mut filtered: Vec<&Frame> = frames.iter().collect();
    eyre_frame_filters(&mut filtered);
    assert_eq!(numbers(&filtered), vec![1]);
}
