use herdr_gui::ghostty::{
    cell_text, decode_codepoint, ghostty_roots, has_vt, library_path, push_run, rgb_u32,
    terminal_bg, trim_line, ColorRgb, GhosttyRuntime, TerminalCell, TerminalFrame, TerminalLine,
    TerminalRun, CELL_WIDE_SPACER_TAIL, CURSOR_BG, CURSOR_FG, DEFAULT_FG, MESSAGE_FG,
};

fn strings(items: &[&str]) -> Vec<String> {
    items.iter().map(|s| s.to_string()).collect()
}

#[test]
fn detect_should_find_local_ghostty_checkout() {
    let roots = strings(&["vendor/ghostty-vt", "vendor/ghostty"]);
    let runtime = GhosttyRuntime::detect(&roots, &Vec::new());
    assert!(runtime.is_ok() || runtime.is_err());
}

#[test]
fn terminal_runs_merge_and_trim_plain_trailing_spaces() {
    let mut line = TerminalLine::default();
    push_run(&mut line.runs, "a".to_string(), 0x111111, None);
    push_run(&mut line.runs, " b  ".to_string(), 0x111111, None);
    push_run(&mut line.runs, "  ".to_string(), 0x222222, None);
    trim_line(&mut line);

    assert_eq!(
        line.runs,
        vec![TerminalRun {
            text: "a b".to_string(),
            fg: 0x111111,
            bg: None,
        },]
    );
}

#[test]
fn terminal_bg_drops_neutral_default_backgrounds() {
    assert_eq!(terminal_bg(Some(0x282c34)), None);
    assert_eq!(terminal_bg(Some(0x303743)), None);
    assert_eq!(terminal_bg(Some(0x5f1f2a)), Some(0x5f1f2a));
    assert_eq!(terminal_bg(Some(0x00aa00)), Some(0x00aa00));
}

#[test]
fn terminal_bg_is_idempotent_on_examples() {
    for c in [None, Some(0x000000), Some(0x282c34), Some(0x5f1f2a), Some(0xffffff)] {
        assert_eq!(terminal_bg(terminal_bg(c)), terminal_bg(c));
    }
}

#[test]
fn push_run_starts_a_new_run_on_style_change() {
    let mut runs = Vec::new();
    push_run(&mut runs, "ab".to_string(), 1, None);
    push_run(&mut runs, "c".to_string(), 1, Some(2));
    push_run(&mut runs, "d".to_string(), 1, Some(2));
    assert_eq!(runs.len(), 2);
    assert_eq!(runs[0].text, "ab");
    assert_eq!(runs[1].text, "cd");
    assert_eq!(runs[1].bg, Some(2));
}

#[test]
fn trim_line_keeps_spaces_with_a_background() {
    let mut line = TerminalLine::default();
    push_run(&mut line.runs, "x  ".to_string(), 1, Some(0x5f1f2a));
    trim_line(&mut line);
    assert_eq!(line.runs[0].text, "x  ");
}

#[test]
fn trim_line_twice_is_trim_line_once() {
    let mut line = TerminalLine::default();
    push_run(&mut line.runs, "a ".to_string(), 1, None);
    push_run(&mut line.runs, "   ".to_string(), 2, None);
    trim_line(&mut line);
    let once = line.clone();
    trim_line(&mut line);
    assert_eq!(line, once);
}

#[test]
fn rgb_u32_packs_channels() {
    assert_eq!(rgb_u32(ColorRgb { r: 0x12, g: 0x34, b: 0x56 }), 0x123456);
    assert_eq!(rgb_u32(ColorRgb { r: 0xff, g: 0, b: 0 }), 0xff0000);
}

#[test]
fn decode_codepoint_replaces_invalid_values() {
    assert_eq!(decode_codepoint(0x41), 'A');
    assert_eq!(decode_codepoint(0xD800), '\u{FFFD}');
    assert_eq!(decode_codepoint(0x110000), '\u{FFFD}');
}

#[test]
fn cell_text_covers_each_kind_of_cell() {
    assert_eq!(cell_text(CELL_WIDE_SPACER_TAIL, &vec![0x41], true, 0x41), "");
    assert_eq!(cell_text(0, &vec![0x65, 0x301], true, 0x65), "e\u{301}");
    assert_eq!(cell_text(0, &Vec::new(), false, 0), " ");
    assert_eq!(cell_text(0, &Vec::new(), true, 0x7a), "z");
}

#[test]
fn frame_from_cells_marks_the_cursor_and_trims() {
    let cell = |t: &str, fg: Option<u32>, bg: Option<u32>| TerminalCell {
        text: t.to_string(),
        fg,
        bg,
    };
    let rows = vec![
        vec![cell("h", None, None), cell("i", None, None), cell(" ", None, None)],
        vec![cell("x", Some(0x123456), Some(0x5f1f2a)), cell("", None, None)],
    ];
    let frame = TerminalFrame::from_cells(&rows, Some((1, 0)));
    assert_eq!(frame.lines.len(), 2);
    assert_eq!(
        frame.lines[0].runs,
        vec![
            TerminalRun { text: "h".to_string(), fg: DEFAULT_FG, bg: None },
            TerminalRun { text: "i".to_string(), fg: CURSOR_FG, bg: Some(CURSOR_BG) },
        ]
    );
    assert_eq!(
        frame.lines[1].runs,
        vec![TerminalRun { text: "x".to_string(), fg: 0x123456, bg: Some(0x5f1f2a) }]
    );
}

#[test]
fn message_frame_is_one_red_line() {
    let frame = TerminalFrame::message("boom".to_string());
    assert_eq!(frame.lines.len(), 1);
    assert_eq!(
        frame.lines[0].runs,
        vec![TerminalRun { text: "boom".to_string(), fg: MESSAGE_FG, bg: None }]
    );
}

#[test]
fn has_vt_looks_for_any_marker_file() {
    let files = strings(&["/opt/g/zig-out/lib/libghostty-vt.a"]);
    assert!(has_vt("/opt/g", &files));
    assert!(!has_vt("/opt/h", &files));
}

#[test]
fn detect_takes_the_first_root_with_the_library() {
    let roots = strings(&["/a", "/b", "/c"]);
    let files = strings(&["/b/lib/libghostty-vt.dylib", "/c/lib/libghostty-vt.dylib"]);
    let runtime = GhosttyRuntime::detect(&roots, &files);
    assert_eq!(runtime, Ok(GhosttyRuntime { root: "/b".to_string() }));
    let none = GhosttyRuntime::detect(&roots, &Vec::new());
    assert_eq!(
        none,
        Err("libghostty-vt not found. Bundle vendor/ghostty-vt/lib/libghostty-vt.dylib or set GHOSTTY_VT_ROOT.".to_string())
    );
}

#[test]
fn ghostty_roots_lists_candidates_in_order() {
    let roots = ghostty_roots(
        Some("/env".to_string()),
        Some("/App.app/Contents".to_string()),
        "/src/crates/herdr-gui",
    );
    assert_eq!(
        roots,
        strings(&[
            "/env",
            "/App.app/Contents/Resources/ghostty",
            "/src/crates/herdr-gui/../../vendor/ghostty-vt",
            "vendor/ghostty-vt",
            "vendor/ghostty",
        ])
    );
}

#[test]
fn library_path_prefers_the_bundled_dylib() {
    let files = strings(&["/g/lib/libghostty-vt.dylib", "/g/zig-out/lib/libghostty-vt.dylib"]);
    assert_eq!(library_path(None, "/g", &files), Ok("/g/lib/libghostty-vt.dylib".to_string()));
    let built = strings(&["/g/zig-out/lib/libghostty-vt.dylib"]);
    assert_eq!(
        library_path(None, "/g", &built),
        Ok("/g/zig-out/lib/libghostty-vt.dylib".to_string())
    );
    assert_eq!(
        library_path(Some("/x.dylib".to_string()), "/g", &files),
        Err("libghostty-vt dylib not found at /x.dylib. Bundle vendor/ghostty-vt/lib/libghostty-vt.dylib or set GHOSTTY_VT_LIB.".to_string())
    );
}
