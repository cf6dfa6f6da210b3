use codex_revolver::accounts::{
    account_file_name, account_file_stem, account_info_of, apply_refresh, choose_accounts_dir,
    codex_auth_file_path, config_file_path, refresh_failure_message,
};
use codex_revolver::library::{
    frontmatter_value, is_skill_dir_name, parse_frontmatter, prompt_file_name, prompt_file_text,
    prompt_info, skill_file_text, skill_info,
};
use codex_revolver::{CodexAuthFile, CodexTokens};

fn pairs(v: &[(&str, &str)]) -> Vec<(String, String)> {
    v.iter().map(|(a, b)| (a.to_string(), b.to_string())).collect()
}

#[test]
fn frontmatter_pairs_in_order() {
    let text = "\n---\nname: \"tool\"\ndescription: 'Does things'\r\nlong: >\nnot a pair\n---\nbody";
    assert_eq!(
        parse_frontmatter(text),
        Some(pairs(&[("name", "tool"), ("description", "Does things")]))
    );
}

#[test]
fn frontmatter_needs_both_fences() {
    assert_eq!(parse_frontmatter("no fence"), None);
    assert_eq!(parse_frontmatter("---\nname: x\nno closing"), None);
    assert_eq!(parse_frontmatter("---\nplain line\n---\n"), None);
}

#[test]
fn frontmatter_last_value_wins() {
    let fm = parse_frontmatter("---\nk: one\nk: two\n---");
    assert_eq!(frontmatter_value(&fm, "k"), Some("two".to_string()));
    assert_eq!(frontmatter_value(&fm, "missing"), None);
    assert_eq!(frontmatter_value(&None, "k"), None);
}

#[test]
fn prompt_info_reads_description_and_hint() {
    let content = "---\ndescription: Review code\nargument-hint: FILE\n---\n\nReview $1".to_string();
    let p = prompt_info("/p/review.md".to_string(), "review".to_string(), content.clone());
    assert_eq!(p.name, "review");
    assert_eq!(p.description, "Review code");
    assert_eq!(p.argument_hint, Some("FILE".to_string()));
    assert_eq!(p.content, content);
    let bare = prompt_info("/p/x.md".to_string(), "x".to_string(), "hello".to_string());
    assert_eq!(bare.description, "");
    assert_eq!(bare.argument_hint, None);
}

#[test]
fn skill_info_falls_back_to_dir_name() {
    let s = skill_info("my-skill".to_string(), "/s/my-skill".to_string(), "# no front matter", true, false, true);
    assert_eq!(s.name, "my-skill");
    assert_eq!(s.description, "");
    assert_eq!(s.compatibility, None);
    assert!(s.has_scripts && !s.has_assets && s.has_references);
    let t = skill_info("d".to_string(), "/s/d".to_string(), "---\nname: Nice\ncompatibility: all\n---", false, false, false);
    assert_eq!(t.name, "Nice");
    assert_eq!(t.compatibility, Some("all".to_string()));
}

#[test]
fn skill_dir_names() {
    assert!(is_skill_dir_name("tool"));
    assert!(!is_skill_dir_name(".system"));
    assert!(!is_skill_dir_name("dist"));
}

#[test]
fn new_files_texts_and_names() {
    assert_eq!(prompt_file_text("d", "c"), "---\ndescription: d\n---\n\nc");
    assert_eq!(prompt_file_name("p"), "p.md");
    let t = skill_file_text("n", "d");
    assert!(t.starts_with("---\nname: n\ndescription: d\n---\n\n# n\n\n## When to Use\n"));
    assert!(t.ends_with("## Workflow\n1. TODO\n"));
}

#[test]
fn account_names_and_paths() {
    assert_eq!(account_file_name("work"), "work.json");
    assert_eq!(account_file_stem("  work  ", "a@b.c"), Some("work".to_string()));
    assert_eq!(account_file_stem("  ", "a@b.c"), Some("a@b.c".to_string()));
    assert_eq!(account_file_stem("", "Unknown"), None);
    assert_eq!(config_file_path("/home/u"), "/home/u/.myswitch/config.json");
    assert_eq!(codex_auth_file_path("/home/u"), "/home/u/.codex/auth.json");
    assert_eq!(choose_accounts_dir(Some("/data".to_string()), true, "/home/u"), "/data");
    assert_eq!(choose_accounts_dir(Some("/data".to_string()), false, "/home/u"), "/home/u/.myswitch/accounts");
    assert_eq!(choose_accounts_dir(None, false, "/home/u"), "/home/u/.myswitch/accounts");
}

fn sample_auth() -> CodexAuthFile {
    CodexAuthFile {
        openai_api_key: Some("k".to_string()),
        last_refresh: "then".to_string(),
        tokens: CodexTokens {
            access_token: "a1".to_string(),
            account_id: "acct-1".to_string(),
            id_token: "x".to_string(),
            refresh_token: "r1".to_string(),
        },
    }
}

#[test]
fn account_info_marks_active_account() {
    let auth = sample_auth();
    let active = Some("acct-1".to_string());
    let info = account_info_of(&auth, "/a/w.json".to_string(), "w".to_string(), 42, &active);
    assert!(info.is_active);
    assert_eq!(info.id, "acct-1");
    assert_eq!(info.email, "Unknown");
    assert_eq!(info.auth_updated_at, 42);
    let other = account_info_of(&auth, "/a/w.json".to_string(), "w".to_string(), 42, &Some("x".to_string()));
    assert!(!other.is_active);
}

#[test]
fn refresh_replaces_sent_tokens_only() {
    let r = apply_refresh(&sample_auth(), Some("a2".to_string()), None, Some("r2".to_string()), "now".to_string());
    assert_eq!(r.tokens.access_token, "a2");
    assert_eq!(r.tokens.id_token, "x");
    assert_eq!(r.tokens.refresh_token, "r2");
    assert_eq!(r.last_refresh, "now");
    assert_eq!(r.openai_api_key, Some("k".to_string()));
}

#[test]
fn refresh_failure_messages() {
    assert_eq!(
        refresh_failure_message(Some("refresh_token_expired"), 401, "Unauthorized", "{}"),
        "Refresh Token expired, please log in to Codex CLI again"
    );
    assert_eq!(
        refresh_failure_message(Some("unknown"), 400, "Bad Request", "b"),
        "Refresh failed: 400 Bad Request - b"
    );
    assert_eq!(
        refresh_failure_message(None, 500, "Internal Server Error", "oops"),
        "Refresh failed: HTTP 500 Internal Server Error - oops"
    );
}
