use codex_server::resume::{
    add_context_to_title, build_label, build_session_title, extract_file_mentions,
    extract_filename, format_readable_timestamp, is_boilerplate_message, is_placeholder_text,
    is_rollout_filename, label_for_path, summarize_command, summarize_title, truncate_title,
    SessionEntry, SessionResumePopup, TitleScan,
};
use codex_server::titles::{get_title_cache, TitleCache};

#[test]
fn filename_extraction() {
    assert_eq!(extract_filename("a/b/c.rs"), "c.rs");
    assert_eq!(extract_filename("plain.rs"), "plain.rs");
    assert_eq!(extract_filename("dir/"), "");
}

#[test]
fn path_labels() {
    assert_eq!(
        label_for_path("sessions/2024/01/15/rollout-abc.jsonl"),
        "rollout-abc.jsonl  (15)"
    );
    assert_eq!(label_for_path("rollout-abc.jsonl"), "rollout-abc.jsonl");
    assert_eq!(label_for_path(""), "rollout.jsonl");
}

#[test]
fn readable_timestamps() {
    assert_eq!(format_readable_timestamp("2024-01-15T10:30:45"), "01/15 10:30");
    assert_eq!(format_readable_timestamp("short"), "short");
}

#[test]
fn title_truncation() {
    assert_eq!(truncate_title("short title", 60), "short title");
    assert_eq!(truncate_title("abcdef", 4), "abc\u{2026}");
    assert_eq!(truncate_title("abcdef", 0), "\u{2026}");
}

#[test]
fn command_summaries() {
    assert_eq!(summarize_command("cargo build --release"), "cargo build");
    assert_eq!(summarize_command("  git  status  "), "git status");
    assert_eq!(summarize_command("npm"), "npm");
    assert_eq!(summarize_command("ls -la"), "ls -la");
    assert_eq!(
        summarize_command("some very long arbitrary command line here"),
        "some very long arbitrary co..."
    );
    assert_eq!(summarize_command("   "), "");
}

#[test]
fn boilerplate_detection() {
    assert!(is_boilerplate_message("ok"));
    assert!(is_boilerplate_message("Thanks a lot"));
    assert!(is_boilerplate_message("Sounds good"));
    assert!(!is_boilerplate_message("Please refactor the parser to emit spans"));
}

#[test]
fn placeholder_detection() {
    assert!(is_placeholder_text("<system>"));
    assert!(is_placeholder_text("  <custom_tag>  "));
    assert!(is_placeholder_text("See the environment context below"));
    assert!(!is_placeholder_text("Fix the renderer so text wraps correctly"));
}

#[test]
fn file_mentions() {
    let mut files: Vec<String> = Vec::new();
    extract_file_mentions("look at @src/main.rs and config.toml please", &mut files);
    assert_eq!(files, vec!["main.rs".to_string(), "config.toml".to_string()]);
    let mut none: Vec<String> = Vec::new();
    extract_file_mentions("no files here", &mut none);
    assert_eq!(none.len(), 0);
}

#[test]
fn title_summaries() {
    assert_eq!(summarize_title("Fix the bug. Then run tests"), "Fix the bug.");
    assert_eq!(summarize_title("first line\nsecond line"), "first line");
    assert_eq!(summarize_title("   "), "");
    assert_eq!(
        summarize_title("one two three four five six seven eight nine ten eleven twelve thirteen"),
        "one two three four five six seven eight nine ten eleven twelve"
    );
    // a full stop wins over a colon wherever each stands
    assert_eq!(summarize_title("steps: first. second"), "steps: first.");
}

#[test]
fn session_title_priorities() {
    let t = build_session_title(
        vec!["Refactor the scanner to handle tabs properly".to_string()],
        vec![],
        vec!["cargo test".to_string()],
        vec!["scanner.rs".to_string()],
    );
    assert_eq!(
        t,
        Some("Refactor the scanner to handle tabs properly (scanner.rs)".to_string())
    );
    let t2 = build_session_title(
        vec![],
        vec![],
        vec!["edited lib.rs".to_string()],
        vec!["lib.rs".to_string(), "lib.rs".to_string(), "main.rs".to_string()],
    );
    assert_eq!(t2, Some("edited lib.rs in lib.rs & main.rs".to_string()));
    let t3 = build_session_title(vec![], vec![], vec![], vec![]);
    assert_eq!(t3, None);
}

#[test]
fn label_building() {
    let meta = ("2024-01-15T10:30:45".to_string(), Some("feature/x".to_string()));
    let l = build_label("p/rollout-1.jsonl", Some(&meta), None, Some("Do the thing now"));
    assert_eq!(l, "Do the thing now  \u{2022}  01/15 10:30  \u{2022}  Branch: feature/x");
    let no_title = build_label("p/rollout-1.jsonl", Some(&meta), None, None);
    assert_eq!(no_title, "Session from 01/15 10:30  \u{2022}  Branch: feature/x");
    let main_branch = ("2024-01-15T10:30:45".to_string(), Some("main".to_string()));
    let l2 = build_label("p/rollout-1.jsonl", Some(&main_branch), None, Some("Title here ok"));
    assert_eq!(l2, "Title here ok  \u{2022}  01/15 10:30");
    let bare = build_label("d/rollout-1.jsonl", None, None, None);
    assert_eq!(bare, "rollout-1.jsonl  (d)");
}

#[test]
fn title_scan_collects_and_builds() {
    let mut scan = TitleScan::new();
    scan.scan_message("user", "ok");
    scan.scan_message("user", "/resume");
    scan.scan_message("user", "Please fix the flaky retry logic in client.rs");
    scan.scan_function_call("bash", None, Some("cargo test -p client"));
    scan.scan_function_call("edit_file", Some("src/client.rs"), None);
    assert!(scan.has_enough());
    let title = scan.finish();
    // the summary cuts at the first sentence mark (the dot in the file name)
    // and the mentioned file is appended as context
    assert_eq!(
        title,
        Some("Please fix the flaky retry logic in client. (client.rs)".to_string())
    );
}

#[test]
fn rollout_filenames() {
    assert!(is_rollout_filename("rollout-2024-uuid.jsonl"));
    assert!(!is_rollout_filename("rollout-2024-uuid.json"));
    assert!(!is_rollout_filename("other.jsonl"));
}

#[test]
fn title_cache_freshness_and_eviction() {
    let mut c = TitleCache::new(2);
    c.put("a", 10, "title a".to_string());
    c.put("b", 10, "title b".to_string());
    assert_eq!(c.get_if_fresh("a", 10), Some("title a".to_string()));
    assert_eq!(c.get_if_fresh("a", 11), None);
    c.put("c", 10, "title c".to_string());
    // "b" was least recently used and fell out of the capacity of two
    assert_eq!(c.get_if_fresh("b", 10), None);
    assert_eq!(c.get_if_fresh("a", 10), Some("title a".to_string()));
    assert_eq!(c.get_if_fresh("c", 10), Some("title c".to_string()));
    let d = get_title_cache();
    assert_eq!(d.capacity, 512);
}

#[test]
fn popup_navigation() {
    let entries = vec![
        SessionEntry { path: "p0".to_string(), label: "l0".to_string() },
        SessionEntry { path: "p1".to_string(), label: "l1".to_string() },
        SessionEntry { path: "p2".to_string(), label: "l2".to_string() },
    ];
    let mut p = SessionResumePopup::with_entries(entries);
    assert_eq!(p.selected_idx, Some(0));
    assert_eq!(p.page_size(), 3);
    assert_eq!(p.half_page_size(), 1);
    p.move_selection_by(1);
    assert_eq!(p.selected_idx, Some(1));
    p.move_selection_by(100);
    assert_eq!(p.selected_idx, Some(2));
    p.move_selection_by(-100);
    assert_eq!(p.selected_idx, Some(0));
    assert_eq!(p.selected_entry_path(), Some("p0".to_string()));
    let empty = SessionResumePopup::with_entries(Vec::new());
    assert_eq!(empty.selected_idx, None);
    assert_eq!(empty.page_size(), 1);
    assert_eq!(empty.selected_entry_path(), None);
}

#[test]
fn context_added_only_when_missing() {
    let t = add_context_to_title(
        "Update the parser".to_string(),
        &vec![],
        &vec!["parser.rs".to_string()],
    );
    assert_eq!(t, "Update the parser (parser.rs)");
    let kept = add_context_to_title(
        "Update parser.rs now".to_string(),
        &vec![],
        &vec!["other.rs".to_string()],
    );
    assert_eq!(kept, "Update parser.rs now");
}
