//! Which trees take part in a sync run, and where they live.
use vstd::prelude::*;
use crate::remote::{child_path, mkcol_url, mkcol_url_of, normalize_remote_path, normalized, WebDavConfig};
use crate::sync::{
    fresh_run, is_success, join_local, status_line, status_line_string, local_child, remote_child, push_task, task, task_views, tv, Reply,
    ReplyView, SyncRun, TaskKind, TaskView,
};
use crate::text::concat;

verus! {

/// Which parts of the tool's configuration a codex sync run covers.
pub struct CodexSyncConfig {
    pub sync_prompts: bool,
    pub sync_skills: bool,
    pub sync_agents_md: bool,
    pub sync_config_toml: bool,
}

impl Default for CodexSyncConfig {
    /// Prompts, skills and the agent instructions; not `config.toml`.
    fn default() -> (r: Self)
        ensures
            r.sync_prompts && r.sync_skills && r.sync_agents_md && !r.sync_config_toml,
    {
        CodexSyncConfig {
            sync_prompts: true,
            sync_skills: true,
            sync_agents_md: true,
            sync_config_toml: false,
        }
    }
}

/// The tool's directory under the home directory `home`.
pub open spec fn codex_dir_of(home: Seq<char>) -> Seq<char> {
    local_child(home, ".codex"@)
}

/// The tool's directory under the home directory `home`.
pub fn get_codex_dir(home: &str) -> (r: String)
    ensures
        r@ == codex_dir_of(home@),
{
    join_local(home, ".codex")
}

/// The prompts directory under the home directory `home`.
pub fn get_prompts_dir(home: &str) -> (r: String)
    ensures
        r@ == local_child(codex_dir_of(home@), "prompts"@),
{
    join_local(get_codex_dir(home).as_str(), "prompts")
}

/// The skills directory under the home directory `home`.
pub fn get_skills_dir(home: &str) -> (r: String)
    ensures
        r@ == local_child(codex_dir_of(home@), "skills"@),
{
    join_local(get_codex_dir(home).as_str(), "skills")
}

/// The sub-collection `name` of the root collection `remote`.
pub open spec fn sub_collection(remote: Seq<char>, name: Seq<char>) -> Seq<char> {
    remote_child(normalized(remote), name)
}

fn sub_collection_exec(remote: &str, name: &str) -> (r: String)
    ensures
        r@ == sub_collection(remote@, name@),
{
    let root = normalize_remote_path(remote);
    child_path(root.as_str(), name)
}

/// Where the accounts live on the server.
pub open spec fn accounts_path_of(remote: Seq<char>) -> Seq<char> {
    sub_collection(remote, "accounts"@)
}

pub open spec fn make_collection(p: Seq<char>) -> TaskView {
    tv(TaskKind::MakeCollection, p, seq![], seq![], seq![], seq![])
}

pub open spec fn make_local_dir(p: Seq<char>, required: bool) -> TaskView {
    tv(TaskKind::MakeLocalDir { required }, seq![], p, seq![], seq![], seq![])
}

/// The tasks of an accounts upload, in order: the root collection, the
/// accounts collection, then the `.json` files of `dir`.
pub open spec fn accounts_upload_plan(remote: Seq<char>, dir: Seq<char>) -> Seq<TaskView> {
    let acc = accounts_path_of(remote);
    seq![
        make_collection(remote),
        make_collection(acc),
        tv(TaskKind::UploadAccounts, acc, dir, seq![], seq![], seq![]),
    ]
}

/// The tasks of an accounts download, in order: the local directory, which
/// must be there, then the `.json` files of the accounts collection.
pub open spec fn accounts_download_plan(remote: Seq<char>, dir: Seq<char>) -> Seq<TaskView> {
    seq![
        make_local_dir(dir, true),
        tv(TaskKind::DownloadAccounts, accounts_path_of(remote), dir, seq![], seq![], seq![]),
    ]
}

/// Uploads the single file `name` of the tool's directory into `remote`.
pub open spec fn single_upload(remote: Seq<char>, codex: Seq<char>, name: Seq<char>) -> TaskView {
    tv(TaskKind::UploadLocalFile, remote, local_child(codex, name), name, seq![], seq![])
}

/// Downloads the single file `name` of `remote` into the tool's directory;
/// a missing file is no error.
pub open spec fn single_download(remote: Seq<char>, codex: Seq<char>, name: Seq<char>) -> TaskView {
    tv(
        TaskKind::DownloadFile { check_json: false, quiet_missing: true },
        remote,
        local_child(codex, name),
        name,
        name,
        seq![],
    )
}

/// The tasks of a codex upload, in order.
pub open spec fn codex_upload_plan(remote: Seq<char>, o: CodexSyncConfig, home: Seq<char>) -> Seq<
    TaskView,
> {
    let codex = codex_dir_of(home);
    let root = normalized(remote);
    let prompts = sub_collection(remote, "prompts"@);
    let skills = sub_collection(remote, "skills"@);
    seq![make_collection(root)] + (if o.sync_agents_md {
        seq![single_upload(root, codex, "AGENTS.MD"@)]
    } else {
        seq![]
    }) + (if o.sync_config_toml {
        seq![single_upload(root, codex, "config.toml"@)]
    } else {
        seq![]
    }) + (if o.sync_prompts {
        seq![
            make_collection(prompts),
            tv(TaskKind::UploadTree, prompts, local_child(codex, "prompts"@), seq![], seq![], seq![]),
        ]
    } else {
        seq![]
    }) + (if o.sync_skills {
        seq![
            make_collection(skills),
            tv(TaskKind::UploadSkills, skills, local_child(codex, "skills"@), seq![], seq![], seq![]),
        ]
    } else {
        seq![]
    })
}

/// The tasks of a codex download, in order.
pub open spec fn codex_download_plan(remote: Seq<char>, o: CodexSyncConfig, home: Seq<char>) -> Seq<
    TaskView,
> {
    let codex = codex_dir_of(home);
    let root = normalized(remote);
    let prompts_dir = local_child(codex, "prompts"@);
    let skills_dir = local_child(codex, "skills"@);
    (if o.sync_agents_md {
        seq![single_download(root, codex, "AGENTS.MD"@)]
    } else {
        seq![]
    }) + (if o.sync_prompts {
        seq![
            make_local_dir(prompts_dir, true),
            tv(TaskKind::DownloadTree, sub_collection(remote, "prompts"@), prompts_dir, seq![], seq![], seq![]),
        ]
    } else {
        seq![]
    }) + (if o.sync_skills {
        seq![
            make_local_dir(skills_dir, true),
            tv(TaskKind::DownloadTree, sub_collection(remote, "skills"@), skills_dir, seq![], seq![], seq![]),
        ]
    } else {
        seq![]
    }) + (if o.sync_config_toml {
        seq![single_download(root, codex, "config.toml"@)]
    } else {
        seq![]
    })
}

fn collection_task(p: String) -> (r: crate::sync::Task)
    ensures
        r@ == make_collection(p@),
{
    task(TaskKind::MakeCollection, p, String::new(), String::new(), String::new(), String::new())
}

impl SyncRun {
    /// The run that uploads the `.json` files of `accounts_dir` into the
    /// accounts collection of `config`, creating the collections first.
    pub fn accounts_upload(config: &WebDavConfig, accounts_dir: &str) -> (r: SyncRun)
        ensures
            r@ == fresh_run(config.url@, accounts_upload_plan(config.remote_path@, accounts_dir@)),
    {
        let acc = sub_collection_exec(config.remote_path.as_str(), "accounts");
        let mut v: Vec<crate::sync::Task> = Vec::new();
        push_task(&mut v, collection_task(config.remote_path.clone()));
        push_task(&mut v, collection_task(acc.clone()));
        push_task(&mut v, task(TaskKind::UploadAccounts, acc, String::from_str(accounts_dir), String::new(), String::new(), String::new()));
        assert(task_views(v@) =~= accounts_upload_plan(config.remote_path@, accounts_dir@));
        SyncRun::new(config.url.clone(), v)
    }

    /// The run that downloads the `.json` files of the accounts collection
    /// of `config` into `accounts_dir`, which it creates first.
    pub fn accounts_download(config: &WebDavConfig, accounts_dir: &str) -> (r: SyncRun)
        ensures
            r@ == fresh_run(config.url@, accounts_download_plan(config.remote_path@, accounts_dir@)),
    {
        let acc = sub_collection_exec(config.remote_path.as_str(), "accounts");
        let mut v: Vec<crate::sync::Task> = Vec::new();
        push_task(&mut v, task(TaskKind::MakeLocalDir { required: true }, String::new(), String::from_str(accounts_dir), String::new(), String::new(), String::new()));
        push_task(&mut v, task(TaskKind::DownloadAccounts, acc, String::from_str(accounts_dir), String::new(), String::new(), String::new()));
        assert(task_views(v@) =~= accounts_download_plan(config.remote_path@, accounts_dir@));
        SyncRun::new(config.url.clone(), v)
    }

    /// The run that uploads the parts of the tool's directory under `home`
    /// that `options` selects.
    pub fn codex_upload(config: &WebDavConfig, options: &CodexSyncConfig, home: &str) -> (r: SyncRun)
        ensures
            r@ == fresh_run(config.url@, codex_upload_plan(config.remote_path@, *options, home@)),
    {
        let remote = config.remote_path.as_str();
        let root = normalize_remote_path(remote);
        let codex = get_codex_dir(home);
        let mut v: Vec<crate::sync::Task> = Vec::new();
        push_task(&mut v, collection_task(root.clone()));
        if options.sync_agents_md {
            push_task(&mut v, task(TaskKind::UploadLocalFile, root.clone(), join_local(codex.as_str(), "AGENTS.MD"), String::from_str("AGENTS.MD"), String::new(), String::new()));
        }
        if options.sync_config_toml {
            push_task(&mut v, task(TaskKind::UploadLocalFile, root.clone(), join_local(codex.as_str(), "config.toml"), String::from_str("config.toml"), String::new(), String::new()));
        }
        if options.sync_prompts {
            let p = sub_collection_exec(remote, "prompts");
            push_task(&mut v, collection_task(p.clone()));
            push_task(&mut v, task(TaskKind::UploadTree, p, get_prompts_dir(home), String::new(), String::new(), String::new()));
        }
        if options.sync_skills {
            let p = sub_collection_exec(remote, "skills");
            push_task(&mut v, collection_task(p.clone()));
            push_task(&mut v, task(TaskKind::UploadSkills, p, get_skills_dir(home), String::new(), String::new(), String::new()));
        }
        assert(task_views(v@) =~= codex_upload_plan(config.remote_path@, *options, home@));
        SyncRun::new(config.url.clone(), v)
    }

    /// The run that downloads the parts of the tool's directory under `home`
    /// that `options` selects.
    pub fn codex_download(config: &WebDavConfig, options: &CodexSyncConfig, home: &str) -> (r: SyncRun)
        ensures
            r@ == fresh_run(config.url@, codex_download_plan(config.remote_path@, *options, home@)),
    {
        let root = normalize_remote_path(config.remote_path.as_str());
        let codex = get_codex_dir(home);
        let mut v: Vec<crate::sync::Task> = Vec::new();
        if options.sync_agents_md {
            push_task(&mut v, task(TaskKind::DownloadFile { check_json: false, quiet_missing: true }, root.clone(), join_local(codex.as_str(), "AGENTS.MD"), String::from_str("AGENTS.MD"), String::from_str("AGENTS.MD"), String::new()));
        }
        if options.sync_prompts {
            let dir = get_prompts_dir(home);
            push_task(&mut v, task(TaskKind::MakeLocalDir { required: true }, String::new(), dir.clone(), String::new(), String::new(), String::new()));
            push_task(&mut v, task(TaskKind::DownloadTree, sub_collection_exec(config.remote_path.as_str(), "prompts"), dir, String::new(), String::new(), String::new()));
        }
        if options.sync_skills {
            let dir = get_skills_dir(home);
            push_task(&mut v, task(TaskKind::MakeLocalDir { required: true }, String::new(), dir.clone(), String::new(), String::new(), String::new()));
            push_task(&mut v, task(TaskKind::DownloadTree, sub_collection_exec(config.remote_path.as_str(), "skills"), dir, String::new(), String::new(), String::new()));
        }
        if options.sync_config_toml {
            push_task(&mut v, task(TaskKind::DownloadFile { check_json: false, quiet_missing: true }, root.clone(), join_local(codex.as_str(), "config.toml"), String::from_str("config.toml"), String::from_str("config.toml"), String::new()));
        }
        assert(task_views(v@) =~= codex_download_plan(config.remote_path@, *options, home@));
        SyncRun::new(config.url.clone(), v)
    }
}

/// What a connection probe (PROPFIND, depth 0, on the root) leads to.
pub enum Probe {
    /// The root answered.
    Connected,
    /// The root is missing: create it, then judge with `root_created`.
    CreateRoot { url: String },
    /// The connection test fails with this message.
    Refused { message: String },
}

pub enum ProbeView {
    Connected,
    CreateRoot { url: Seq<char> },
    Refused { message: Seq<char> },
}

impl View for Probe {
    type V = ProbeView;

    open spec fn view(&self) -> ProbeView {
        match self {
            Probe::Connected => ProbeView::Connected,
            Probe::CreateRoot { url } => ProbeView::CreateRoot { url: url@ },
            Probe::Refused { message } => ProbeView::Refused { message: message@ },
        }
    }
}

/// What the answer to a connection probe means.
pub open spec fn probe_of(url: Seq<char>, remote: Seq<char>, reply: ReplyView) -> ProbeView {
    match reply {
        ReplyView::Failure { message } => ProbeView::Refused {
            message: "Connection failed: "@ + message,
        },
        ReplyView::Answer { status, reason, .. } => if is_success(status) {
            ProbeView::Connected
        } else if status == 404 {
            ProbeView::CreateRoot { url: mkcol_url_of(url, remote) }
        } else if status == 401 {
            ProbeView::Refused {
                message: "Authentication failed: Please check username and application password"@,
            }
        } else {
            ProbeView::Refused { message: "Connection failed: HTTP "@ + status_line(status, reason) }
        },
    }
}

/// Whether a MKCOL status means the collection is there: created, already
/// there (405), moved (301), or any other success.
pub open spec fn collection_ready(status: u16) -> bool {
    status == 201 || status == 405 || status == 301 || is_success(status)
}

/// The verdict of a connection test after the root was created with MKCOL.
pub open spec fn root_created_of(reply: ReplyView) -> Result<Seq<char>, Seq<char>> {
    match reply {
        ReplyView::Failure { message } => Err("Failed to create directory: "@ + message),
        ReplyView::Answer { status, reason, .. } => if collection_ready(status) {
            Ok("Connection successful, remote directory created"@)
        } else {
            Err("Failed to create directory: HTTP "@ + status_line(status, reason))
        },
    }
}

/// Judges the answer to a connection probe of the root of `config`.
pub fn probe_verdict(config: &WebDavConfig, reply: &Reply) -> (r: Probe)
    ensures
        r@ == probe_of(config.url@, config.remote_path@, reply@),
{
    match reply {
        Reply::Failure { message } => Probe::Refused {
            message: concat("Connection failed: ", message.as_str()),
        },
        Reply::Answer { status, reason, .. } => if 200 <= *status && *status <= 299 {
            Probe::Connected
        } else if *status == 404 {
            Probe::CreateRoot { url: mkcol_url(config.url.as_str(), config.remote_path.as_str()) }
        } else if *status == 401 {
            Probe::Refused {
                message: String::from_str(
                    "Authentication failed: Please check username and application password",
                ),
            }
        } else {
            Probe::Refused { message: concat("Connection failed: HTTP ", status_line_string(*status, reason.as_str()).as_str()) }
        },
    }
}

/// Judges the answer to the MKCOL that created the root in a connection test.
pub fn root_created(reply: &Reply) -> (r: Result<String, String>)
    ensures
        match r {
            Ok(m) => root_created_of(reply@) == Ok::<Seq<char>, Seq<char>>(m@),
            Err(m) => root_created_of(reply@) == Err::<Seq<char>, Seq<char>>(m@),
        },
{
    match reply {
        Reply::Failure { message } => Err(concat("Failed to create directory: ", message.as_str())),
        Reply::Answer { status, reason, .. } => {
            let s = *status;
            if s == 201 || s == 405 || s == 301 || (200 <= s && s <= 299) {
                Ok(String::from_str("Connection successful, remote directory created"))
            } else {
                Err(concat("Failed to create directory: HTTP ", status_line_string(s, reason.as_str()).as_str()))
            }
        },
    }
}

} // verus!
