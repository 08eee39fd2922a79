use deepseek_tui::spillover::{
    maybe_spillover, maybe_spillover_under, prune_candidates, sanitise_id, spillover_file_name,
    spillover_head, spillover_path, spillover_path_under, spillover_root_under, EntryProbe,
    SpilloverError, SPILLOVER_DIR_NAME, SPILLOVER_MAX_AGE_SECS, SPILLOVER_THRESHOLD_BYTES,
};
use std::path::PathBuf;

#[test]
fn sanitise_id_keeps_safe_chars_and_drops_dangerous() {
    assert_eq!(sanitise_id("abc-123_x"), Some("abc-123_x".into()));
    // `.` is dropped to keep `..` out of the path.
    assert_eq!(sanitise_id("../etc"), Some("etc".into()));
    assert_eq!(sanitise_id("/etc/passwd"), Some("etcpasswd".into()));
    // Empty-after-sanitise → None.
    assert!(sanitise_id("...").is_none());
    assert!(sanitise_id("").is_none());
}

#[test]
fn sanitise_id_drops_non_ascii_letters() {
    assert_eq!(sanitise_id("çall-ü1"), Some("all-1".into()));
    assert_eq!(sanitise_id("a b\\c"), Some("abc".into()));
    assert!(sanitise_id("🐳/..\\").is_none());
}

#[test]
fn sanitise_id_is_idempotent_on_examples() {
    for id in ["abc-123_x", "../etc", "/etc/passwd", "x.y.z", "__--"] {
        let once = sanitise_id(id).unwrap();
        assert_eq!(sanitise_id(&once), Some(once.clone()));
    }
}

#[test]
fn spillover_file_name_appends_txt() {
    assert_eq!(spillover_file_name("call-abc"), Some("call-abc.txt".to_string()));
    assert_eq!(spillover_file_name("../../x"), Some("x.txt".to_string()));
    assert_eq!(spillover_file_name("..."), None);
}

#[test]
fn spillover_path_lands_under_tool_outputs() {
    let root = spillover_root_under(Some(PathBuf::from("/home/u"))).unwrap();
    assert_eq!(root, PathBuf::from("/home/u/.deepseek/tool_outputs"));
    let path = spillover_path_under(Some(root.clone()), "call-abc").unwrap();
    assert_eq!(path, PathBuf::from("/home/u/.deepseek/tool_outputs/call-abc.txt"));
    assert!(spillover_path_under(Some(root), "...").is_none());
    assert!(spillover_path_under(None, "call-abc").is_none());
    assert!(spillover_root_under(None).is_none());
    assert_eq!(SPILLOVER_DIR_NAME, "tool_outputs");
}

#[test]
fn spillover_path_depends_only_on_the_sanitised_id() {
    let root = Some(PathBuf::from("/home/u/.deepseek/tool_outputs"));
    assert_eq!(spillover_path_under(root.clone(), "../etc"), spillover_path_under(root.clone(), "etc"));
    assert_eq!(spillover_path_under(root.clone(), "call.abc"), spillover_path_under(root.clone(), "callabc"));
    let hostile = spillover_path_under(root.clone(), "../../etc/passwd").unwrap();
    assert_eq!(hostile.parent(), root.as_deref());
    assert_eq!(hostile.file_name().unwrap(), "etcpasswd.txt");
}

#[test]
fn spillover_path_uses_the_home_directory() {
    assert!(spillover_path("...").is_none());
    if let Some(path) = spillover_path("call-abc") {
        assert!(path.to_string_lossy().contains(".deepseek/tool_outputs"));
        assert!(path.to_string_lossy().ends_with("call-abc.txt"));
    }
}

#[test]
fn maybe_spillover_returns_none_below_threshold() {
    let out = maybe_spillover("call-1", "tiny content", 100 * 1024, 4 * 1024).expect("ok");
    assert!(out.is_none());
}

#[test]
fn maybe_spillover_keeps_content_at_exact_threshold() {
    let content = "A".repeat(1_000);
    let out = maybe_spillover("call-1", &content, 1_000, 10).expect("ok");
    assert!(out.is_none());
}

#[test]
fn maybe_spillover_returns_bounded_head_above_threshold() {
    let big = "A".repeat(2_000);
    let (head, path) = maybe_spillover_under(Some(PathBuf::from("/h/.deepseek/tool_outputs")), "call-2", &big, 1_000, 256)
        .expect("ok")
        .expect("should have spilled");
    assert_eq!(head.len(), 256);
    assert_eq!(path, PathBuf::from("/h/.deepseek/tool_outputs/call-2.txt"));
}

#[test]
fn maybe_spillover_does_not_split_inside_a_codepoint() {
    // 4 byte chars; ask for 3 bytes of head → walks back to
    // the previous char boundary (0).
    let s = "🐳🐳🐳🐳"; // 4 × 4-byte codepoints
    assert_eq!(s.len(), 16);
    let (head, _) = maybe_spillover("call-3", s, 1, 3)
        .expect("ok")
        .expect("spilled");
    // 3 isn't a char boundary in this string; walk back → 0.
    assert_eq!(head, "");
    // Asking for 4 bytes lands on the first char boundary.
    let (head, _) = maybe_spillover("call-3b", s, 1, 4)
        .expect("ok")
        .expect("spilled");
    assert_eq!(head, "🐳");
}

#[test]
fn maybe_spillover_rejects_unusable_id_above_threshold() {
    let err = maybe_spillover("...", "xxxx", 1, 2).unwrap_err();
    assert_eq!(err, SpilloverError::UnresolvedPath);
    let err = maybe_spillover_under(None, "call-4", "xxxx", 1, 2).unwrap_err();
    assert_eq!(err, SpilloverError::UnresolvedPath);
    // At or below the threshold the id does not matter.
    assert!(maybe_spillover("...", "xxxx", 4, 2).unwrap().is_none());
}

#[test]
fn spillover_head_walks_back_to_char_boundary() {
    assert_eq!(spillover_head("héllo", 2), "h");
    assert_eq!(spillover_head("héllo", 3), "hé");
    assert_eq!(spillover_head("héllo", 0), "");
    assert_eq!(spillover_head("héllo", 100), "héllo");
    assert_eq!(spillover_head("ab€cd", 4), "ab");
    assert_eq!(spillover_head("ab€cd", 5), "ab€");
}

#[test]
fn default_limits() {
    assert_eq!(SPILLOVER_THRESHOLD_BYTES, 100 * 1024);
    assert_eq!(SPILLOVER_MAX_AGE_SECS, 7 * 24 * 60 * 60);
}

#[test]
fn prune_candidates_keeps_fresh_files_drops_stale_ones() {
    let entries = vec![
        EntryProbe::File { modified: 100 },
        EntryProbe::File { modified: 10 },
        EntryProbe::NotAFile,
        EntryProbe::Unreadable,
        EntryProbe::NoModifiedTime,
        EntryProbe::File { modified: 50 },
        EntryProbe::File { modified: -5 },
    ];
    assert_eq!(prune_candidates(&entries, 50), vec![1, 6]);
    assert_eq!(prune_candidates(&entries, 51), vec![1, 5, 6]);
    assert!(prune_candidates(&Vec::new(), 1_000).is_empty());
}
