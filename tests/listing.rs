use codex_revolver::{parse_json_names, parse_listing};

fn entries(body: &str) -> Vec<(String, bool)> {
    parse_listing(body).into_iter().map(|e| (e.name, e.is_collection)).collect()
}

#[test]
fn listing_skips_self_and_hidden_entries() {
    let body = "<?xml version=\"1.0\"?><d:multistatus xmlns:d=\"DAV:\">\
        <d:response><d:href>/dav/prompts/</d:href></d:response>\
        <d:response><d:href>/dav/prompts/a.md</d:href></d:response>\
        <d:response><d:href>/dav/prompts/.hidden</d:href></d:response>\
        <d:response><d:href>/dav/prompts/b.md</d:href></d:response>\
        </d:multistatus>";
    assert_eq!(entries(body), vec![("a.md".to_string(), false), ("b.md".to_string(), false)]);
}

#[test]
fn listing_counts_each_distinct_child_once() {
    let body = "<D:multistatus xmlns:D=\"DAV:\">\
        <D:response><D:href>/r/</D:href></D:response>\
        <D:response><D:href>/r/one.json</D:href></D:response>\
        <D:response><D:href>/r/two.json</D:href></D:response>\
        <D:response><D:href>/r/one.json</D:href></D:response>\
        <D:response><D:href>/r/three.json</D:href></D:response>\
        </D:multistatus>";
    let got = entries(body);
    assert_eq!(got.len(), 3);
    assert_eq!(got[0].0, "one.json");
    assert_eq!(got[1].0, "two.json");
    assert_eq!(got[2].0, "three.json");
}

#[test]
fn listing_detects_collections_by_slash_or_marker() {
    let body = "<multistatus xmlns=\"DAV:\">\
        <response><href>/r/</href></response>\
        <response><href>/r/sub/</href></response>\
        <response><href>/r/other</href><propstat><prop><resourcetype><collection/></resourcetype></prop></propstat></response>\
        </multistatus>";
    assert_eq!(entries(body), vec![("sub".to_string(), true), ("other".to_string(), true)]);
}

#[test]
fn listing_decodes_names() {
    let body = "<d:href>/r/</d:href><d:href>/r/%E4%B8%AD%20x.json</d:href>";
    assert_eq!(entries(body), vec![("中 x.json".to_string(), false)]);
}

#[test]
fn listing_of_empty_collection_is_empty() {
    let body = "<d:multistatus><d:response><d:href>/r/</d:href></d:response></d:multistatus>";
    assert!(entries(body).is_empty());
    assert!(entries("").is_empty());
}

#[test]
fn marker_far_after_href_does_not_count() {
    let filler = "x".repeat(600);
    let body = format!(
        "<d:href>/r/</d:href><d:href>/r/f.json</d:href>{}<d:collection/>",
        filler
    );
    assert_eq!(entries(&body), vec![("f.json".to_string(), false)]);
}

#[test]
fn json_names_keep_only_json_files() {
    let body = "<d:href>/dav/accounts/</d:href>\
        <d:href>/dav/accounts/work.json</d:href>\
        <d:href>/dav/accounts/notes.txt</d:href>\
        <d:href>/dav/accounts/home%20one.json</d:href>\
        <d:href>/dav/accounts/work.json</d:href>";
    assert_eq!(
        parse_json_names(body),
        vec!["work.json".to_string(), "home one.json".to_string()]
    );
}

#[test]
fn json_names_skip_hidden_files() {
    let body = "<D:multistatus><D:response><D:href>/a/</D:href></D:response>\
        <D:response><D:href>/a/alice%40x.com.json</D:href></D:response>\
        <D:response><D:href>/a/notes.txt</D:href></D:response>\
        <D:response><D:href>/a/.old.json</D:href></D:response></D:multistatus>";
    assert_eq!(parse_json_names(body), vec!["alice@x.com.json".to_string()]);
}
