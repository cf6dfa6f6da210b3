use codex_revolver::normalize_remote_path;
use codex_revolver::remote::{child_path, collection_url, item_url, mkcol_url};
use codex_revolver::text::decimal_string;
use codex_revolver::{get_codex_dir, get_prompts_dir, get_skills_dir, CodexSyncConfig};

#[test]
fn normalize_adds_missing_slashes() {
    assert_eq!(normalize_remote_path("foo/bar"), "/foo/bar/");
}

#[test]
fn normalize_keeps_normal_path() {
    assert_eq!(normalize_remote_path("/foo/bar/"), "/foo/bar/");
    let once = normalize_remote_path("foo/bar");
    assert_eq!(normalize_remote_path(&once), once);
}

#[test]
fn normalize_trims_whitespace_and_extra_slashes() {
    assert_eq!(normalize_remote_path("  backup \t"), "/backup/");
    assert_eq!(normalize_remote_path("//a//"), "/a/");
    assert_eq!(normalize_remote_path(""), "/");
    assert_eq!(normalize_remote_path(" / "), "/");
}

#[test]
fn urls_join_base_and_path() {
    assert_eq!(
        collection_url("https://dav.example.com/", "backup"),
        "https://dav.example.com/backup/"
    );
    assert_eq!(collection_url("https://dav.example.com//", "/"), "https://dav.example.com/");
    assert_eq!(mkcol_url("https://dav.example.com", "backup/x/"), "https://dav.example.com/backup/x");
    assert_eq!(mkcol_url("https://dav.example.com", "/"), "https://dav.example.com");
}

#[test]
fn item_names_are_percent_encoded() {
    assert_eq!(
        item_url("https://h/", "/r/", "my file.json"),
        "https://h/r/my%20file.json"
    );
    assert_eq!(item_url("https://h", "r", "中.md"), "https://h/r/%E4%B8%AD.md");
    assert_eq!(item_url("https://h", "r", "a-b_c.d~e"), "https://h/r/a-b_c.d~e");
}

#[test]
fn child_paths_append_a_slash() {
    assert_eq!(child_path("/r/", "sub"), "/r/sub/");
}

#[test]
fn tool_directories_sit_under_home() {
    assert_eq!(get_codex_dir("/home/u"), "/home/u/.codex");
    assert_eq!(get_prompts_dir("/home/u"), "/home/u/.codex/prompts");
    assert_eq!(get_skills_dir("/home/u/"), "/home/u/.codex/skills");
}

#[test]
fn default_codex_sync_skips_config_toml() {
    let c = CodexSyncConfig::default();
    assert!(c.sync_prompts && c.sync_skills && c.sync_agents_md);
    assert!(!c.sync_config_toml);
}

#[test]
fn decimal_digits() {
    assert_eq!(decimal_string(0), "0");
    assert_eq!(decimal_string(7), "7");
    assert_eq!(decimal_string(404), "404");
    assert_eq!(decimal_string(4294967295), "4294967295");
}
