use herdr_gui::detail::{
    branch_detail, head_is_clean, head_path, lookup_detail, record_detail, workspace_detail,
    DetailCache, DetailLookup, FileStamp,
};

fn detail_with(cache: &mut DetailCache, path: &str, stamp: FileStamp, head: &str) -> String {
    match lookup_detail(cache, Some(path), Some(stamp)) {
        DetailLookup::Known(detail) => detail,
        DetailLookup::ReadHead(head_file) => {
            assert_eq!(head_file, format!("{path}/.git/HEAD"));
            record_detail(cache, path, Some(stamp), Some(head))
        }
    }
}

#[test]
fn workspace_detail_reads_branch_and_refreshes_on_head_change() {
    let mut cache = DetailCache::new();
    let path = "/tmp/herdr-gui-branch-1";
    let first = FileStamp { secs: 1_700_000_000, nanos: 0 };
    assert_eq!(detail_with(&mut cache, path, first, "ref: refs/heads/feature/lag\n"), "feature/lag");
    assert_eq!(
        lookup_detail(&cache, Some(path), Some(first)),
        DetailLookup::Known("feature/lag".to_string())
    );
    assert_eq!(detail_with(&mut cache, path, first, "ref: refs/heads/main\n"), "feature/lag");

    let later = FileStamp { secs: 1_700_000_001, nanos: 100_000_000 };
    assert_eq!(detail_with(&mut cache, path, later, "ref: refs/heads/main\n"), "main");
}

#[test]
fn detached_head_shows_a_short_hash() {
    assert_eq!(
        branch_detail("/src/repo", Some("  0123456789abcdef\n")),
        "0123456"
    );
    assert_eq!(branch_detail("/src/repo", Some("abc\n")), "repo");
    assert_eq!(branch_detail("/src/repo", None), "repo");
    assert_eq!(workspace_detail(None, Some("ref: refs/heads/x")), "~");
}

#[test]
fn head_cut_must_fall_between_characters() {
    assert!(head_is_clean("0123456789"));
    assert!(head_is_clean("ref: refs/heads/\u{e9}t\u{e9}"));
    assert!(head_is_clean("ab"));
    assert!(!head_is_clean("012345\u{e9}"));
    assert_eq!(branch_detail("/r", Some("01234\u{e9}x")), "01234\u{e9}");
}

#[test]
fn head_path_joins_the_git_directory() {
    assert_eq!(head_path("/src/repo"), "/src/repo/.git/HEAD");
    assert_eq!(head_path("/src/repo/"), "/src/repo/.git/HEAD");
}

#[test]
fn cache_keeps_other_directories() {
    let mut cache = DetailCache::new();
    let s = FileStamp { secs: 1, nanos: 2 };
    cache.store("/a", Some(s), "main".to_string());
    cache.store("/b", None, "b".to_string());
    cache.store("/a", Some(s), "dev".to_string());
    assert_eq!(cache.cached("/a", Some(s)).as_deref(), Some("dev"));
    assert_eq!(cache.cached("/b", None).as_deref(), Some("b"));
    assert_eq!(cache.cached("/b", Some(s)), None);
    assert_eq!(cache.cached("/c", None), None);
}

#[test]
fn any_branch_name_reads_back() {
    for name in ["main", "feature/lag", "r\u{e9}sum\u{e9}", "a b"] {
        let head = format!("ref: refs/heads/{name}\n");
        assert!(head_is_clean(&head));
        assert_eq!(branch_detail("/src/repo", Some(&head)), name);
    }
}
