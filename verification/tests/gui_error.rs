use clickless::gui_error::{append_bounded, diagnostics_text, MAX_LOG_BYTES};

#[test]
fn diagnostics_text_bounds_the_tail_and_states_config_summary() {
    let tail = "x".repeat(8192);
    let text = diagnostics_text("0.1.0", "windows-x86_64", &tail, "valid");
    assert!(text.contains("0.1.0"), "version_first: {text}");
    assert!(text.contains("config: valid"), "summary present: {text}");
    assert!(
        text.len() <= 4096 + 512,
        "diagnostics stays small: {} bytes",
        text.len()
    );
    assert!(
        text.ends_with(&"x".repeat(64)),
        "newest tail bytes kept, oldest cut"
    );
}

#[test]
fn diagnostics_text_reads_as_documented() {
    let text = diagnostics_text("1.2", "linux", "a\nb\n", "ok");
    assert_eq!(text, "Clickless 1.2 (linux)\nconfig: ok\n--- recent log ---\na\nb\n");
}

#[test]
fn diagnostics_tail_cuts_at_a_character_boundary() {
    // The cut falls inside the two-byte character: the tail starts at the
    // boundary after it, so it stays within the cap.
    let tail = format!("{}\u{e9}{}", "y".repeat(10), "z".repeat(4095));
    let text = diagnostics_text("v", "os", &tail, "s");
    assert!(text.ends_with(&format!("\n{}", "z".repeat(4095))));
    assert!(!text.contains('\u{e9}'));
    assert!(!text.contains('y'));
    let exact = format!("{}\u{e9}{}", "y".repeat(10), "z".repeat(4094));
    let text = diagnostics_text("v", "os", &exact, "s");
    assert!(text.ends_with(&format!("\n\u{e9}{}", "z".repeat(4094))));
}

#[test]
fn log_append_keeps_the_newest_lines_under_the_cap() {
    let mut log = String::new();
    for i in 0..80 {
        log = append_bounded(&log, &format!("line {i:04} {:0>990}", ""));
    }
    assert!(log.len() <= MAX_LOG_BYTES);
    assert!(log.contains("line 0079"));
    assert!(!log.contains("line 0000"));
    assert_eq!(append_bounded("a\n", "b"), "a\nb\n");
}
