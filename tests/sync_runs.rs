use codex_revolver::plan::{probe_verdict, root_created, Probe};
use codex_revolver::sync::{task, TaskKind};
use codex_revolver::{
    Action, CodexSyncConfig, Event, LocalEntry, Reply, SyncResult, SyncRun, WebDavConfig,
};
use std::collections::{BTreeMap, BTreeSet};

const BASE: &str = "http://dav.test";

/// An in-memory WebDAV server: files by URL path, collections by path with a
/// trailing slash.
struct Server {
    files: BTreeMap<String, String>,
    collections: BTreeSet<String>,
    fail_put: Option<String>,
}

/// An in-memory file system: `None` marks a directory.
struct Disk {
    nodes: BTreeMap<String, Option<String>>,
}

fn answer(status: u16, reason: &str, body: &str) -> Reply {
    Reply::Answer { status, reason: reason.to_string(), body: body.to_string() }
}

fn path_of(url: &str) -> String {
    url.strip_prefix(BASE).unwrap().to_string()
}

impl Server {
    fn new() -> Server {
        let mut collections = BTreeSet::new();
        collections.insert("/".to_string());
        Server { files: BTreeMap::new(), collections, fail_put: None }
    }

    fn propfind(&self, path: &str) -> Reply {
        if !self.collections.contains(path) {
            return answer(404, "Not Found", "");
        }
        let mut body = format!("<d:multistatus><d:response><d:href>{}</d:href></d:response>", path);
        for c in &self.collections {
            if let Some(rest) = c.strip_prefix(path) {
                if !rest.is_empty() && rest.matches('/').count() == 1 {
                    body.push_str(&format!(
                        "<d:response><d:href>{}</d:href><d:resourcetype><d:collection/></d:resourcetype></d:response>",
                        c
                    ));
                }
            }
        }
        for f in self.files.keys() {
            if let Some(rest) = f.strip_prefix(path) {
                if !rest.contains('/') {
                    body.push_str(&format!("<d:response><d:href>{}</d:href></d:response>", f));
                }
            }
        }
        body.push_str("</d:multistatus>");
        answer(207, "Multi-Status", &body)
    }
}

impl Disk {
    fn new() -> Disk {
        Disk { nodes: BTreeMap::new() }
    }

    fn dir(&mut self, p: &str) {
        self.nodes.insert(p.to_string(), None);
    }

    fn file(&mut self, p: &str, c: &str) {
        self.nodes.insert(p.to_string(), Some(c.to_string()));
    }

    fn list(&self, p: &str) -> Option<Vec<LocalEntry>> {
        match self.nodes.get(p) {
            Some(None) => {}
            _ => return None,
        }
        let prefix = format!("{}/", p);
        let mut out = Vec::new();
        for (k, v) in &self.nodes {
            if let Some(name) = k.strip_prefix(&prefix) {
                if !name.contains('/') {
                    out.push(LocalEntry {
                        name: name.to_string(),
                        is_dir: v.is_none(),
                        content: v.clone().ok_or_else(|| "Is a directory".to_string()),
                    });
                }
            }
        }
        Some(out)
    }
}

/// Runs `run` to its end against `server` and `disk`; returns the last action.
fn drive(mut run: SyncRun, server: &mut Server, disk: &mut Disk) -> (Action, SyncResult) {
    let mut action = run.start();
    loop {
        let event = match &action {
            Action::Finished | Action::Failed { .. } => break,
            Action::MakeCollection { url } => {
                let p = format!("{}/", path_of(url));
                let created = server.collections.insert(p);
                Event::Remote(if created { answer(201, "Created", "") } else { answer(405, "Method Not Allowed", "") })
            }
            Action::Put { url, body } => {
                let p = path_of(url);
                if server.fail_put.as_deref() == Some(p.as_str()) {
                    Event::Remote(answer(500, "Internal Server Error", ""))
                } else {
                    server.files.insert(p, body.clone());
                    Event::Remote(answer(201, "Created", ""))
                }
            }
            Action::ListCollection { url } => Event::Remote(server.propfind(&path_of(url))),
            Action::Get { url } => Event::Remote(match server.files.get(&path_of(url)) {
                Some(c) => answer(200, "OK", c),
                None => answer(404, "Not Found", ""),
            }),
            Action::ListLocal { path } => Event::Listed(disk.list(path)),
            Action::ReadLocal { path } => Event::Loaded(match disk.nodes.get(path) {
                Some(Some(c)) => Some(c.clone()),
                _ => None,
            }),
            Action::MakeLocalDir { path } => {
                disk.dir(path);
                Event::Stored(Ok(()))
            }
            Action::WriteLocal { path, content } => {
                disk.file(path, content);
                Event::Stored(Ok(()))
            }
        };
        assert!(run.accepts(&event));
        action = run.resume(event);
    }
    (action, run.result)
}

fn tree_upload(local: &str, remote: &str) -> SyncRun {
    let s = String::new;
    SyncRun::new(
        BASE.to_string(),
        vec![
            task(TaskKind::MakeCollection, remote.to_string(), s(), s(), s(), s()),
            task(TaskKind::UploadTree, remote.to_string(), local.to_string(), s(), s(), s()),
        ],
    )
}

fn tree_download(remote: &str, local: &str) -> SyncRun {
    let s = String::new;
    SyncRun::new(
        BASE.to_string(),
        vec![
            task(TaskKind::MakeLocalDir { required: true }, s(), local.to_string(), s(), s(), s()),
            task(TaskKind::DownloadTree, remote.to_string(), local.to_string(), s(), s(), s()),
        ],
    )
}

fn config(remote: &str) -> WebDavConfig {
    WebDavConfig {
        url: BASE.to_string(),
        username: "u".to_string(),
        password: "p".to_string(),
        remote_path: remote.to_string(),
    }
}

#[test]
fn upload_then_download_reproduces_tree() {
    let mut server = Server::new();
    let mut disk = Disk::new();
    disk.dir("/l");
    disk.file("/l/a.json", "{\"a\":1}");
    disk.dir("/l/sub");
    disk.file("/l/sub/b.json", "{\"b\":[2,3]}");
    let (end, up) = drive(tree_upload("/l", "/r/"), &mut server, &mut disk);
    assert!(matches!(end, Action::Finished));
    assert_eq!(up.uploaded, vec!["/r/a.json".to_string(), "/r/sub/b.json".to_string()]);
    assert!(up.errors.is_empty());

    let (end, down) = drive(tree_download("/r/", "/m"), &mut server, &mut disk);
    assert!(matches!(end, Action::Finished));
    assert!(down.errors.is_empty());
    assert_eq!(down.downloaded.len(), 2);
    assert_eq!(disk.nodes.get("/m/a.json"), Some(&Some("{\"a\":1}".to_string())));
    assert_eq!(disk.nodes.get("/m/sub/b.json"), Some(&Some("{\"b\":[2,3]}".to_string())));
}

#[test]
fn download_replaces_existing_file() {
    let mut server = Server::new();
    server.collections.insert("/r/".to_string());
    server.files.insert("/r/a.json".to_string(), "{\"new\":true}".to_string());
    let mut disk = Disk::new();
    disk.dir("/m");
    disk.file("/m/a.json", "{\"old\":true,\"extra\":1}");
    disk.file("/m/keep.json", "{}");
    let (_, down) = drive(tree_download("/r/", "/m"), &mut server, &mut disk);
    assert_eq!(down.downloaded, vec!["/r/a.json".to_string()]);
    assert_eq!(disk.nodes.get("/m/a.json"), Some(&Some("{\"new\":true}".to_string())));
    assert_eq!(disk.nodes.get("/m/keep.json"), Some(&Some("{}".to_string())));
}

#[test]
fn one_failed_put_leaves_the_others() {
    let mut server = Server::new();
    server.fail_put = Some("/r/b.json".to_string());
    let mut disk = Disk::new();
    disk.dir("/l");
    disk.file("/l/a.json", "{}");
    disk.file("/l/b.json", "{}");
    disk.file("/l/c.json", "{}");
    let (end, up) = drive(tree_upload("/l", "/r/"), &mut server, &mut disk);
    assert!(matches!(end, Action::Finished));
    assert_eq!(up.uploaded.len(), 2);
    assert_eq!(up.errors, vec!["b.json: Upload failed: HTTP 500 Internal Server Error".to_string()]);
}

#[test]
fn missing_remote_collection_is_empty() {
    let mut server = Server::new();
    let mut disk = Disk::new();
    let (end, down) = drive(tree_download("/nothing/", "/m"), &mut server, &mut disk);
    assert!(matches!(end, Action::Finished));
    assert!(down.errors.is_empty());
    assert!(down.downloaded.is_empty());
}

#[test]
fn failed_listing_is_reported() {
    let mut run = tree_download("/r/", "/m");
    let a = run.start();
    assert!(matches!(a, Action::MakeLocalDir { .. }));
    let a = run.resume(Event::Stored(Ok(())));
    assert!(matches!(a, Action::ListCollection { ref url } if url == "http://dav.test/r/"));
    let a = run.resume(Event::Remote(answer(500, "Internal Server Error", "")));
    assert!(matches!(a, Action::Finished));
    assert_eq!(
        run.result.errors,
        vec!["Failed to list directory: HTTP 500 Internal Server Error".to_string()]
    );
}

#[test]
fn upload_skips_reserved_names() {
    let mut server = Server::new();
    let mut disk = Disk::new();
    disk.dir("/l");
    disk.file("/l/.DS_Store", "x");
    disk.dir("/l/__pycache__");
    disk.file("/l/__pycache__/m.pyc", "x");
    disk.file("/l/ok.md", "hello");
    let (_, up) = drive(tree_upload("/l", "/r/"), &mut server, &mut disk);
    assert_eq!(up.uploaded, vec!["/r/ok.md".to_string()]);
    assert!(!server.collections.contains("/r/__pycache__/"));
}

#[test]
fn accounts_download_rejects_non_json() {
    let mut server = Server::new();
    server.collections.insert("/accounts/".to_string());
    server.files.insert("/accounts/good.json".to_string(), "{\"k\":12}".to_string());
    server.files.insert("/accounts/bad.json".to_string(), "{\"k\":12".to_string() + "x");
    let mut disk = Disk::new();
    let run = SyncRun::accounts_download(&config("/"), "/acc");
    let (end, down) = drive(run, &mut server, &mut disk);
    assert!(matches!(end, Action::Finished));
    assert_eq!(down.downloaded, vec!["good.json".to_string()]);
    assert_eq!(down.errors, vec!["bad.json: Invalid JSON".to_string()]);
    assert!(disk.nodes.get("/acc/bad.json").is_none());
    assert_eq!(disk.nodes.get("/acc/good.json"), Some(&Some("{\"k\":12}".to_string())));
}

#[test]
fn accounts_upload_sends_json_files() {
    let mut server = Server::new();
    let mut disk = Disk::new();
    disk.dir("/acc");
    disk.file("/acc/work.json", "{\"w\":1}");
    disk.file("/acc/readme.txt", "no");
    disk.dir("/acc/broken.json");
    let run = SyncRun::accounts_upload(&config("/"), "/acc");
    let (end, up) = drive(run, &mut server, &mut disk);
    assert!(matches!(end, Action::Finished));
    assert_eq!(up.uploaded, vec!["work.json".to_string()]);
    assert_eq!(up.errors, vec!["broken.json: Read failed Is a directory".to_string()]);
    assert_eq!(server.files.get("/accounts/work.json"), Some(&"{\"w\":1}".to_string()));
}

#[test]
fn accounts_listing_failure_ends_the_run() {
    let mut run = SyncRun::accounts_download(&config("/"), "/acc");
    run.start();
    run.resume(Event::Stored(Ok(())));
    let a = run.resume(Event::Remote(answer(403, "Forbidden", "")));
    assert!(matches!(a, Action::Failed { ref message } if message == "Failed to list directory: HTTP 403 Forbidden"));
}

#[test]
fn accounts_local_dir_failure_ends_the_run() {
    let mut run = SyncRun::accounts_download(&config("/"), "/acc");
    run.start();
    let a = run.resume(Event::Stored(Err("denied".to_string())));
    assert!(matches!(a, Action::Failed { ref message } if message == "Failed to create local directory: denied"));
}

#[test]
fn codex_upload_covers_selected_parts() {
    let mut server = Server::new();
    let mut disk = Disk::new();
    disk.dir("/h/.codex");
    disk.file("/h/.codex/AGENTS.MD", "be nice");
    disk.file("/h/.codex/config.toml", "x = 1");
    disk.dir("/h/.codex/prompts");
    disk.dir("/h/.codex/prompts/cat");
    disk.file("/h/.codex/prompts/cat/p.md", "prompt");
    disk.dir("/h/.codex/skills");
    disk.dir("/h/.codex/skills/dist");
    disk.dir("/h/.codex/skills/tool");
    disk.file("/h/.codex/skills/tool/SKILL.md", "skill");
    disk.file("/h/.codex/skills/loose.md", "ignored");
    let run = SyncRun::codex_upload(&config("/"), &CodexSyncConfig::default(), "/h");
    let (end, up) = drive(run, &mut server, &mut disk);
    assert!(matches!(end, Action::Finished));
    assert_eq!(
        up.uploaded,
        vec![
            "AGENTS.MD".to_string(),
            "/prompts/cat/p.md".to_string(),
            "/skills/tool/SKILL.md".to_string()
        ]
    );
    assert!(server.files.get("/config.toml").is_none());
    assert!(!server.collections.contains("/skills/dist/"));
}

#[test]
fn codex_download_treats_missing_files_quietly() {
    let mut server = Server::new();
    server.collections.insert("/prompts/".to_string());
    server.files.insert("/prompts/p.md".to_string(), "prompt".to_string());
    let mut disk = Disk::new();
    let opts = CodexSyncConfig {
        sync_prompts: true,
        sync_skills: true,
        sync_agents_md: true,
        sync_config_toml: true,
    };
    let run = SyncRun::codex_download(&config("/"), &opts, "/h");
    let (end, down) = drive(run, &mut server, &mut disk);
    assert!(matches!(end, Action::Finished));
    assert!(down.errors.is_empty());
    assert_eq!(down.downloaded, vec!["/prompts/p.md".to_string()]);
    assert_eq!(disk.nodes.get("/h/.codex/prompts/p.md"), Some(&Some("prompt".to_string())));
}

#[test]
fn transport_failure_on_put_is_recorded() {
    let s = String::new;
    let mut run = SyncRun::new(
        BASE.to_string(),
        vec![task(TaskKind::UploadFile, "/r/".to_string(), s(), "a b.json".to_string(), "a b.json".to_string(), "{}".to_string())],
    );
    let a = run.start();
    assert!(matches!(a, Action::Put { ref url, ref body } if url == "http://dav.test/r/a%20b.json" && body == "{}"));
    let a = run.resume(Event::Remote(Reply::Failure { message: "timed out".to_string() }));
    assert!(matches!(a, Action::Finished));
    assert_eq!(run.result.errors, vec!["a b.json: Upload failed: timed out".to_string()]);
}

#[test]
fn probe_outcomes() {
    let c = config("backup");
    assert!(matches!(probe_verdict(&c, &answer(207, "Multi-Status", "")), Probe::Connected));
    assert!(matches!(probe_verdict(&c, &answer(404, "Not Found", "")),
        Probe::CreateRoot { ref url } if url == "http://dav.test/backup"));
    assert!(matches!(probe_verdict(&c, &answer(401, "Unauthorized", "")),
        Probe::Refused { ref message } if message.starts_with("Authentication failed")));
    assert!(matches!(probe_verdict(&c, &answer(500, "Internal Server Error", "")),
        Probe::Refused { ref message } if message == "Connection failed: HTTP 500 Internal Server Error"));
    assert_eq!(root_created(&answer(405, "Method Not Allowed", "")),
        Ok("Connection successful, remote directory created".to_string()));
    assert_eq!(root_created(&answer(403, "Forbidden", "")),
        Err("Failed to create directory: HTTP 403 Forbidden".to_string()));
}

#[test]
fn accounts_live_in_a_child_of_the_root() {
    let mut server = Server::new();
    let mut disk = Disk::new();
    disk.dir("/acc");
    disk.file("/acc/a.json", "{}");
    disk.file("/acc/notes.txt", "x");
    let run = SyncRun::accounts_upload(&config("/backup/"), "/acc");
    let (_, up) = drive(run, &mut server, &mut disk);
    assert_eq!(up.uploaded, vec!["a.json".to_string()]);
    assert_eq!(server.files.keys().cloned().collect::<Vec<_>>(), vec!["/backup/accounts/a.json".to_string()]);
}

#[test]
fn tree_download_rejects_json_files_that_are_not_json() {
    let mut server = Server::new();
    server.collections.insert("/r/".to_string());
    server.files.insert("/r/x.json".to_string(), "not json".to_string());
    server.files.insert("/r/y.md".to_string(), "not json".to_string());
    let mut disk = Disk::new();
    let (end, down) = drive(tree_download("/r/", "/m"), &mut server, &mut disk);
    assert!(matches!(end, Action::Finished));
    assert_eq!(down.errors, vec!["x.json: Invalid JSON".to_string()]);
    assert_eq!(down.downloaded, vec!["/r/y.md".to_string()]);
    assert!(disk.nodes.get("/m/x.json").is_none());
}

#[test]
fn unreadable_file_in_tree_upload_is_reported() {
    let mut run = tree_upload("/l", "/r/");
    run.start();
    let a = run.resume(Event::Remote(answer(201, "Created", "")));
    assert!(matches!(a, Action::ListLocal { ref path } if path == "/l"));
    let entries = vec![
        LocalEntry { name: "a.md".to_string(), is_dir: false, content: Err("denied".to_string()) },
        LocalEntry { name: "b.md".to_string(), is_dir: false, content: Ok("b".to_string()) },
    ];
    let a = run.resume(Event::Listed(Some(entries)));
    assert!(matches!(a, Action::Put { ref url, .. } if url == "http://dav.test/r/b.md"));
    assert_eq!(run.result.errors, vec!["a.md: Read failed denied".to_string()]);
    let a = run.resume(Event::Remote(answer(201, "Created", "")));
    assert!(matches!(a, Action::Finished));
    assert_eq!(run.result.uploaded, vec!["/r/b.md".to_string()]);
}

#[test]
fn codex_download_restores_what_upload_wrote() {
    let mut server = Server::new();
    let mut disk = Disk::new();
    disk.dir("/h/.codex");
    disk.file("/h/.codex/AGENTS.MD", "be nice");
    disk.dir("/h/.codex/prompts");
    disk.file("/h/.codex/prompts/p.md", "prompt");
    disk.dir("/h/.codex/skills");
    disk.dir("/h/.codex/skills/tool");
    disk.file("/h/.codex/skills/tool/SKILL.md", "skill");
    let opts = CodexSyncConfig::default();
    let (_, up) = drive(SyncRun::codex_upload(&config("/backup"), &opts, "/h"), &mut server, &mut disk);
    assert!(up.errors.is_empty());
    let mut fresh = Disk::new();
    let (end, down) = drive(SyncRun::codex_download(&config("/backup"), &opts, "/h"), &mut server, &mut fresh);
    assert!(matches!(end, Action::Finished));
    assert!(down.errors.is_empty());
    assert_eq!(fresh.nodes.get("/h/.codex/AGENTS.MD"), Some(&Some("be nice".to_string())));
    assert_eq!(fresh.nodes.get("/h/.codex/prompts/p.md"), Some(&Some("prompt".to_string())));
    assert_eq!(fresh.nodes.get("/h/.codex/skills/tool/SKILL.md"), Some(&Some("skill".to_string())));
}

#[test]
fn codex_download_needs_its_base_directories() {
    let opts = CodexSyncConfig { sync_prompts: true, sync_skills: false, sync_agents_md: false, sync_config_toml: false };
    let mut run = SyncRun::codex_download(&config("/"), &opts, "/h");
    let a = run.start();
    assert!(matches!(a, Action::MakeLocalDir { ref path } if path == "/h/.codex/prompts"));
    let a = run.resume(Event::Stored(Err("read-only".to_string())));
    assert!(matches!(a, Action::Failed { ref message } if message == "Failed to create local directory: read-only"));
}

#[test]
fn status_without_reason_reads_as_its_number() {
    let mut run = tree_download("/r/", "/m");
    run.start();
    run.resume(Event::Stored(Ok(())));
    run.resume(Event::Remote(answer(599, "", "")));
    assert_eq!(run.result.errors, vec!["Failed to list directory: HTTP 599".to_string()]);
}
