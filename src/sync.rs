//! The reconciler: one sync run as a state machine.
//!
//! A run holds a stack of tasks. Each step pops tasks until one needs the
//! outside world, and returns that as an [`Action`]: a WebDAV request, or a
//! local file-system operation. The caller performs it and hands the result
//! back as an [`Event`]. Directory listings, local or remote, push the tasks
//! for their entries, so a tree is walked depth first, in listing order, one
//! transfer at a time. A failed item is recorded in the run's
//! [`SyncResult`] and the walk goes on.
use vstd::prelude::*;
use crate::listing::{
    entry_views, is_json_name, json_names_of, listing_of, parse_json_names, parse_listing,
    string_views,
};
use crate::remote::{collection_url, collection_url_of, item_url, item_url_of, mkcol_url, mkcol_url_of};
use crate::auth::is_json;
use crate::remote::child_path;
use crate::text::{chars_of, concat, decimal, decimal_string};
use vstd::string::StrSliceExecFns;

verus! {

/// What a sync run did: transferred items, and one line per failure.
pub struct SyncResult {
    pub uploaded: Vec<String>,
    pub downloaded: Vec<String>,
    pub errors: Vec<String>,
}

pub struct SyncView {
    pub uploaded: Seq<Seq<char>>,
    pub downloaded: Seq<Seq<char>>,
    pub errors: Seq<Seq<char>>,
}

impl View for SyncResult {
    type V = SyncView;

    open spec fn view(&self) -> SyncView {
        SyncView {
            uploaded: string_views(self.uploaded@),
            downloaded: string_views(self.downloaded@),
            errors: string_views(self.errors@),
        }
    }
}

/// Whether `s` holds one JSON value.
fn parses_as_json(s: &str) -> (r: bool)
    ensures
        r == is_json(s@),
{
    crate::auth::json_from_text(s).is_some()
}

/// One entry of a local directory, as the caller read it.
pub struct LocalEntry {
    pub name: String,
    pub is_dir: bool,
    /// The file's text, or why it could not be read.
    pub content: Result<String, String>,
}

pub struct LocalEntryView {
    pub name: Seq<char>,
    pub is_dir: bool,
    pub content: Result<Seq<char>, Seq<char>>,
}

impl View for LocalEntry {
    type V = LocalEntryView;

    open spec fn view(&self) -> LocalEntryView {
        LocalEntryView {
            name: self.name@,
            is_dir: self.is_dir,
            content: match self.content {
                Ok(c) => Ok(c@),
                Err(m) => Err(m@),
            },
        }
    }
}

pub open spec fn local_views(s: Seq<LocalEntry>) -> Seq<LocalEntryView> {
    s.map_values(|e: LocalEntry| e@)
}

/// How a status reads in messages: its number, then its reason phrase if
/// there is one ("500 Internal Server Error").
pub open spec fn status_line(status: u16, reason: Seq<char>) -> Seq<char> {
    if reason.len() == 0 {
        decimal(status as nat)
    } else {
        decimal(status as nat) + seq![' '] + reason
    }
}

/// How a status reads in messages; see `status_line`.
pub fn status_line_string(status: u16, reason: &str) -> (r: String)
    ensures
        r@ == status_line(status, reason@),
{
    proof {
        reveal_strlit(" ");
    }
    let digits = decimal_string(status as u32);
    if reason.unicode_len() == 0 {
        digits
    } else {
        concat3(digits.as_str(), " ", reason)
    }
}

/// What the server, or the way to it, answered to a request.
pub enum Reply {
    /// The server answered with a status; `reason` is its reason phrase
    /// ("Internal Server Error"), empty where there is none.
    Answer { status: u16, reason: String, body: String },
    /// No answer could be had: connection, timeout, or an unreadable body.
    Failure { message: String },
}

pub enum ReplyView {
    Answer { status: u16, reason: Seq<char>, body: Seq<char> },
    Failure { message: Seq<char> },
}

impl View for Reply {
    type V = ReplyView;

    open spec fn view(&self) -> ReplyView {
        match self {
            Reply::Answer { status, reason, body } => ReplyView::Answer {
                status: *status,
                reason: reason@,
                body: body@,
            },
            Reply::Failure { message } => ReplyView::Failure { message: message@ },
        }
    }
}

/// The result of an action, handed back to the run.
pub enum Event {
    /// The reply to a WebDAV request.
    Remote(Reply),
    /// The entries of a local directory; `None` where it cannot be read.
    Listed(Option<Vec<LocalEntry>>),
    /// The text of a local file; `None` where it is missing or unreadable.
    Loaded(Option<String>),
    /// The outcome of a local write or directory creation.
    Stored(Result<(), String>),
}

pub enum EventView {
    Remote(ReplyView),
    Listed(Option<Seq<LocalEntryView>>),
    Loaded(Option<Seq<char>>),
    Stored(Result<(), Seq<char>>),
}

impl View for Event {
    type V = EventView;

    open spec fn view(&self) -> EventView {
        match self {
            Event::Remote(r) => EventView::Remote(r@),
            Event::Listed(l) => EventView::Listed(
                match l {
                    Some(v) => Some(local_views(v@)),
                    None => None,
                },
            ),
            Event::Loaded(c) => EventView::Loaded(
                match c {
                    Some(s) => Some(s@),
                    None => None,
                },
            ),
            Event::Stored(r) => EventView::Stored(
                match r {
                    Ok(_) => Ok(()),
                    Err(m) => Err(m@),
                },
            ),
        }
    }
}

/// What the caller is to do next.
pub enum Action {
    /// MKCOL to `url`; the reply is handed back, and only the walk goes on.
    MakeCollection { url: String },
    /// PUT `body` to `url`.
    Put { url: String, body: String },
    /// PROPFIND with depth 1 on `url`.
    ListCollection { url: String },
    /// GET `url`.
    Get { url: String },
    /// List the local directory `path`.
    ListLocal { path: String },
    /// Read the local file `path` as text.
    ReadLocal { path: String },
    /// Create the local directory `path` and its parents.
    MakeLocalDir { path: String },
    /// Write `content` to the local file `path`, replacing what is there.
    WriteLocal { path: String, content: String },
    /// The run is over; its result is complete.
    Finished,
    /// The run cannot go on: `message` is why.
    Failed { message: String },
}

pub enum ActionView {
    MakeCollection { url: Seq<char> },
    Put { url: Seq<char>, body: Seq<char> },
    ListCollection { url: Seq<char> },
    Get { url: Seq<char> },
    ListLocal { path: Seq<char> },
    ReadLocal { path: Seq<char> },
    MakeLocalDir { path: Seq<char> },
    WriteLocal { path: Seq<char>, content: Seq<char> },
    Finished,
    Failed { message: Seq<char> },
}

impl View for Action {
    type V = ActionView;

    open spec fn view(&self) -> ActionView {
        match self {
            Action::MakeCollection { url } => ActionView::MakeCollection { url: url@ },
            Action::Put { url, body } => ActionView::Put { url: url@, body: body@ },
            Action::ListCollection { url } => ActionView::ListCollection { url: url@ },
            Action::Get { url } => ActionView::Get { url: url@ },
            Action::ListLocal { path } => ActionView::ListLocal { path: path@ },
            Action::ReadLocal { path } => ActionView::ReadLocal { path: path@ },
            Action::MakeLocalDir { path } => ActionView::MakeLocalDir { path: path@ },
            Action::WriteLocal { path, content } => ActionView::WriteLocal {
                path: path@,
                content: content@,
            },
            Action::Finished => ActionView::Finished,
            Action::Failed { message } => ActionView::Failed { message: message@ },
        }
    }
}

/// The kinds of task a run works through.
#[derive(PartialEq, Eq, Structural, Clone, Copy)]
pub enum TaskKind {
    /// Create the remote collection `remote_path`.
    MakeCollection,
    /// Upload the tree at `local_path` into `remote_path`.
    UploadTree,
    /// Upload the `.json` files directly in `local_path` into `remote_path`.
    UploadAccounts,
    /// Upload each skill directory in `local_path` as a collection of `remote_path`.
    UploadSkills,
    /// PUT `content` as `name` into `remote_path`; `label` is what a success records.
    UploadFile,
    /// Read `local_path`, then upload it as `name` into `remote_path`.
    UploadLocalFile,
    /// Download the tree of `remote_path` into `local_path`.
    DownloadTree,
    /// Download the `.json` files of `remote_path` into `local_path`.
    DownloadAccounts,
    /// GET `name` from `remote_path` and store it at `local_path`. With
    /// `check_json` only JSON is stored; with `quiet_missing` a 404 is no error.
    DownloadFile { check_json: bool, quiet_missing: bool },
    /// Write `content` to `local_path`; `label` is what a success records.
    StoreFile,
    /// Create the local directory `local_path`; if `required`, a failure ends the run.
    MakeLocalDir { required: bool },
    /// Record `label` as an error line.
    Report,
}

/// One unit of work of a run; which fields count depends on `kind`.
pub struct Task {
    pub kind: TaskKind,
    pub remote_path: String,
    pub local_path: String,
    pub name: String,
    pub label: String,
    pub content: String,
}

pub struct TaskView {
    pub kind: TaskKind,
    pub remote_path: Seq<char>,
    pub local_path: Seq<char>,
    pub name: Seq<char>,
    pub label: Seq<char>,
    pub content: Seq<char>,
}

impl View for Task {
    type V = TaskView;

    open spec fn view(&self) -> TaskView {
        TaskView {
            kind: self.kind,
            remote_path: self.remote_path@,
            local_path: self.local_path@,
            name: self.name@,
            label: self.label@,
            content: self.content@,
        }
    }
}

pub open spec fn task_views(s: Seq<Task>) -> Seq<TaskView> {
    s.map_values(|t: Task| t@)
}

/// A task view with the given fields.
pub open spec fn tv(
    kind: TaskKind,
    remote_path: Seq<char>,
    local_path: Seq<char>,
    name: Seq<char>,
    label: Seq<char>,
    content: Seq<char>,
) -> TaskView {
    TaskView { kind, remote_path, local_path, name, label, content }
}

/// `name` inside the local directory `dir`, as `Path::join` writes it.
pub open spec fn local_child(dir: Seq<char>, name: Seq<char>) -> Seq<char> {
    if dir.len() == 0 || dir.last() == '/' {
        dir + name
    } else {
        dir + seq!['/'] + name
    }
}

/// The remote path of the sub-collection `name` of `remote_path`.
pub open spec fn remote_child(remote_path: Seq<char>, name: Seq<char>) -> Seq<char> {
    remote_path + name + seq!['/']
}

/// `s` starts with `p`.
pub open spec fn starts_with(s: Seq<char>, p: Seq<char>) -> bool {
    p.len() <= s.len() && s.subrange(0, p.len() as int) == p
}

/// Names that an upload leaves out: hidden ones and `__` caches.
pub open spec fn is_reserved_name(name: Seq<char>) -> bool {
    starts_with(name, seq!['.']) || starts_with(name, seq!['_', '_'])
}

/// A file name with the extension `json` in the sense of `Path::extension`.
pub open spec fn has_json_extension(name: Seq<char>) -> bool {
    is_json_name(name) && name.len() > 5
}

/// The tasks for one entry of a local tree being uploaded, in order.
pub open spec fn tree_item_tasks(dir: Seq<char>, remote_path: Seq<char>, e: LocalEntryView) -> Seq<
    TaskView,
> {
    if is_reserved_name(e.name) {
        seq![]
    } else if e.is_dir {
        let sub = remote_child(remote_path, e.name);
        seq![
            tv(TaskKind::MakeCollection, sub, seq![], seq![], seq![], seq![]),
            tv(TaskKind::UploadTree, sub, local_child(dir, e.name), seq![], seq![], seq![]),
        ]
    } else {
        match e.content {
            Ok(c) => seq![
                tv(TaskKind::UploadFile, remote_path, seq![], e.name, remote_path + e.name, c),
            ],
            Err(m) => seq![
                tv(TaskKind::Report, seq![], seq![], seq![], e.name + ": Read failed "@ + m, seq![]),
            ],
        }
    }
}

/// The tasks for one entry of a local accounts directory.
pub open spec fn account_item_tasks(remote_path: Seq<char>, e: LocalEntryView) -> Seq<TaskView> {
    if has_json_extension(e.name) {
        match e.content {
            Ok(c) => seq![tv(TaskKind::UploadFile, remote_path, seq![], e.name, e.name, c)],
            Err(m) => seq![
                tv(TaskKind::Report, seq![], seq![], seq![], e.name + ": Read failed "@ + m, seq![]),
            ],
        }
    } else {
        seq![]
    }
}

/// The tasks for one entry of a local skills directory.
pub open spec fn skill_item_tasks(dir: Seq<char>, remote_path: Seq<char>, e: LocalEntryView) -> Seq<
    TaskView,
> {
    if e.is_dir && !starts_with(e.name, seq!['.']) && e.name != "dist"@ {
        let sub = remote_child(remote_path, e.name);
        seq![
            tv(TaskKind::MakeCollection, sub, seq![], seq![], seq![], seq![]),
            tv(TaskKind::UploadTree, sub, local_child(dir, e.name), seq![], seq![], seq![]),
        ]
    } else {
        seq![]
    }
}

/// The tasks for the entries of the local directory of upload task `t`.
pub open spec fn local_listing_tasks(t: TaskView, es: Seq<LocalEntryView>) -> Seq<TaskView>
    decreases es.len(),
{
    if es.len() == 0 {
        seq![]
    } else {
        let e = es.last();
        local_listing_tasks(t, es.drop_last()) + match t.kind {
            TaskKind::UploadTree => tree_item_tasks(t.local_path, t.remote_path, e),
            TaskKind::UploadAccounts => account_item_tasks(t.remote_path, e),
            _ => skill_item_tasks(t.local_path, t.remote_path, e),
        }
    }
}

/// The tasks for one entry of a remote tree being downloaded.
pub open spec fn remote_item_tasks(t: TaskView, en: (Seq<char>, bool)) -> Seq<TaskView> {
    let local = local_child(t.local_path, en.0);
    if en.1 {
        seq![
            tv(TaskKind::MakeLocalDir { required: false }, seq![], local, seq![], seq![], seq![]),
            tv(TaskKind::DownloadTree, remote_child(t.remote_path, en.0), local, seq![], seq![], seq![]),
        ]
    } else {
        seq![
            tv(
                TaskKind::DownloadFile { check_json: has_json_extension(en.0), quiet_missing: false },
                t.remote_path,
                local,
                en.0,
                t.remote_path + en.0,
                seq![],
            ),
        ]
    }
}

/// The tasks for the entries of a remote tree listing.
pub open spec fn remote_listing_tasks(t: TaskView, es: Seq<(Seq<char>, bool)>) -> Seq<TaskView>
    decreases es.len(),
{
    if es.len() == 0 {
        seq![]
    } else {
        remote_listing_tasks(t, es.drop_last()) + remote_item_tasks(t, es.last())
    }
}

/// The tasks for the names of a remote accounts listing.
pub open spec fn account_download_tasks(t: TaskView, names: Seq<Seq<char>>) -> Seq<TaskView>
    decreases names.len(),
{
    if names.len() == 0 {
        seq![]
    } else {
        let n = names.last();
        account_download_tasks(t, names.drop_last()) + seq![
            tv(
                TaskKind::DownloadFile { check_json: true, quiet_missing: false },
                t.remote_path,
                local_child(t.local_path, n),
                n,
                n,
                seq![],
            ),
        ]
    }
}

/// A status of the 2xx class.
pub open spec fn is_success(status: u16) -> bool {
    200 <= status <= 299
}

/// The action that task `t` starts with.
pub open spec fn action_of(url: Seq<char>, t: TaskView) -> ActionView {
    match t.kind {
        TaskKind::MakeCollection => ActionView::MakeCollection {
            url: mkcol_url_of(url, t.remote_path),
        },
        TaskKind::UploadFile => ActionView::Put {
            url: item_url_of(url, t.remote_path, t.name),
            body: t.content,
        },
        TaskKind::UploadLocalFile => ActionView::ReadLocal { path: t.local_path },
        TaskKind::DownloadTree => ActionView::ListCollection {
            url: collection_url_of(url, t.remote_path),
        },
        TaskKind::DownloadAccounts => ActionView::ListCollection {
            url: collection_url_of(url, t.remote_path),
        },
        TaskKind::DownloadFile { .. } => ActionView::Get {
            url: item_url_of(url, t.remote_path, t.name),
        },
        TaskKind::StoreFile => ActionView::WriteLocal { path: t.local_path, content: t.content },
        TaskKind::MakeLocalDir { .. } => ActionView::MakeLocalDir { path: t.local_path },
        _ => ActionView::ListLocal { path: t.local_path },
    }
}

/// Whether `ev` is the kind of event that task `t` waits for.
pub open spec fn awaits(t: TaskView, ev: EventView) -> bool {
    match t.kind {
        TaskKind::MakeCollection | TaskKind::UploadFile | TaskKind::DownloadTree
        | TaskKind::DownloadAccounts | TaskKind::DownloadFile { .. } => ev is Remote,
        TaskKind::UploadTree | TaskKind::UploadAccounts | TaskKind::UploadSkills => ev is Listed,
        TaskKind::UploadLocalFile => ev is Loaded,
        TaskKind::StoreFile | TaskKind::MakeLocalDir { .. } => ev is Stored,
        TaskKind::Report => false,
    }
}

/// `r` with `line` added to its errors.
pub open spec fn with_error(r: SyncView, line: Seq<char>) -> SyncView {
    SyncView { errors: r.errors.push(line), ..r }
}

/// What handling event `ev` for task `t` does: the tasks it adds, in order,
/// the new result, and the message that ends the run, if any.
pub open spec fn handle(t: TaskView, ev: EventView, r: SyncView) -> (
    Seq<TaskView>,
    SyncView,
    Option<Seq<char>>,
) {
    match ev {
        EventView::Listed(l) => match l {
            Some(es) => (local_listing_tasks(t, es), r, None),
            None => (seq![], r, None),
        },
        EventView::Loaded(c) => match c {
            Some(text) => (
                seq![tv(TaskKind::UploadFile, t.remote_path, seq![], t.name, t.name, text)],
                r,
                None,
            ),
            None => (seq![], r, None),
        },
        EventView::Stored(s) => match t.kind {
            TaskKind::StoreFile => match s {
                Ok(_) => (seq![], SyncView { downloaded: r.downloaded.push(t.label), ..r }, None),
                Err(m) => (seq![], with_error(r, t.name + ": Write failed "@ + m), None),
            },
            TaskKind::MakeLocalDir { required } => match s {
                Err(m) => if required {
                    (seq![], r, Some("Failed to create local directory: "@ + m))
                } else {
                    (seq![], r, None)
                },
                Ok(_) => (seq![], r, None),
            },
            _ => (seq![], r, None),
        },
        EventView::Remote(reply) => match t.kind {
            TaskKind::UploadFile => match reply {
                ReplyView::Answer { status, reason, .. } => if is_success(status) {
                    (seq![], SyncView { uploaded: r.uploaded.push(t.label), ..r }, None)
                } else {
                    (seq![], with_error(r, t.name + ": Upload failed: HTTP "@ + status_line(status, reason)), None)
                },
                ReplyView::Failure { message } => (
                    seq![],
                    with_error(r, t.name + ": Upload failed: "@ + message),
                    None,
                ),
            },
            TaskKind::DownloadTree => match reply {
                ReplyView::Answer { status, reason, body } => if is_success(status) {
                    (remote_listing_tasks(t, listing_of(body)), r, None)
                } else if status == 404 {
                    (seq![], r, None)
                } else {
                    (
                        seq![],
                        with_error(r, "Failed to list directory: HTTP "@ + status_line(status, reason)),
                        None,
                    )
                },
                ReplyView::Failure { message } => (
                    seq![],
                    with_error(r, "Failed to list directory: "@ + message),
                    None,
                ),
            },
            TaskKind::DownloadAccounts => match reply {
                ReplyView::Answer { status, reason, body } => if is_success(status) {
                    (account_download_tasks(t, json_names_of(body)), r, None)
                } else if status == 404 {
                    (seq![], r, None)
                } else {
                    (seq![], r, Some("Failed to list directory: HTTP "@ + status_line(status, reason)))
                },
                ReplyView::Failure { message } => (
                    seq![],
                    r,
                    Some("Failed to list directory: "@ + message),
                ),
            },
            TaskKind::DownloadFile { check_json, quiet_missing } => match reply {
                ReplyView::Answer { status, reason, body } => if is_success(status) {
                    if check_json && !is_json(body) {
                        (seq![], with_error(r, t.name + ": Invalid JSON"@), None)
                    } else {
                        (
                            seq![
                                tv(
                                    TaskKind::StoreFile,
                                    seq![],
                                    t.local_path,
                                    t.name,
                                    t.label,
                                    body,
                                ),
                            ],
                            r,
                            None,
                        )
                    }
                } else if status == 404 && quiet_missing {
                    (seq![], r, None)
                } else {
                    (seq![], with_error(r, t.name + ": Download failed: HTTP "@ + status_line(status, reason)), None)
                },
                ReplyView::Failure { message } => (
                    seq![],
                    with_error(r, t.name + ": Download failed: "@ + message),
                    None,
                ),
            },
            _ => (seq![], r, None),
        },
    }
}

/// Pops tasks off `tasks` until one needs the outside world: the tasks left,
/// the task now waiting, the result with the reports on the way recorded,
/// and the action to perform.
pub open spec fn advance(url: Seq<char>, tasks: Seq<TaskView>, r: SyncView) -> (
    Seq<TaskView>,
    Option<TaskView>,
    SyncView,
    ActionView,
)
    decreases tasks.len(),
{
    if tasks.len() == 0 {
        (tasks, None, r, ActionView::Finished)
    } else {
        let t = tasks.last();
        if t.kind == TaskKind::Report {
            advance(url, tasks.drop_last(), with_error(r, t.label))
        } else {
            (tasks.drop_last(), Some(t), r, action_of(url, t))
        }
    }
}

/// A collection that the server does not have (404) reads as an empty
/// listing: handling the answer adds no work, records no error and does not
/// end the run.
pub proof fn lemma_missing_collection_is_empty(
    t: TaskView,
    reason: Seq<char>,
    body: Seq<char>,
    r: SyncView,
)
    requires
        t.kind == TaskKind::DownloadTree || t.kind == TaskKind::DownloadAccounts,
    ensures
        handle(t, EventView::Remote(ReplyView::Answer { status: 404, reason, body }), r) == (
            Seq::<TaskView>::empty(),
            r,
            Option::<Seq<char>>::None,
        ),
{
    assert(!is_success(404));
    assert(Seq::<TaskView>::empty() =~= seq![]);
}

/// A downloaded file replaces what is at its destination: once the server
/// answers with a success and the content passes the check, the next action
/// writes exactly that content to the task's local path.
pub proof fn lemma_download_replaces(
    run: RunView,
    t: TaskView,
    check_json: bool,
    quiet_missing: bool,
    status: u16,
    reason: Seq<char>,
    body: Seq<char>,
)
    requires
        t.kind == (TaskKind::DownloadFile { check_json, quiet_missing }),
        is_success(status),
        check_json ==> is_json(body),
    ensures
        resumed(run, t, EventView::Remote(ReplyView::Answer { status, reason, body })).1
            == (ActionView::WriteLocal { path: t.local_path, content: body }),
{
    let store = tv(TaskKind::StoreFile, seq![], t.local_path, t.name, t.label, body);
    let ts = run.tasks + seq![store].reverse();
    assert(seq![store].reverse() =~= seq![store]);
    assert(ts.last() == store);
}

/// Content that must be JSON and is not is never written: the item gets one
/// error line and no write follows from it.
pub proof fn lemma_invalid_json_rejected(
    t: TaskView,
    quiet_missing: bool,
    status: u16,
    reason: Seq<char>,
    body: Seq<char>,
    r: SyncView,
)
    requires
        t.kind == (TaskKind::DownloadFile { check_json: true, quiet_missing }),
        is_success(status),
        !is_json(body),
    ensures
        handle(t, EventView::Remote(ReplyView::Answer { status, reason, body }), r) == (
            Seq::<TaskView>::empty(),
            with_error(r, t.name + ": Invalid JSON"@),
            Option::<Seq<char>>::None,
        ),
{
    assert(Seq::<TaskView>::empty() =~= seq![]);
}

/// A failed upload is isolated: it adds exactly one error line, changes
/// nothing else in the result, and the run goes on with the tasks it had.
pub proof fn lemma_failed_upload_isolated(run: RunView, t: TaskView, reply: ReplyView)
    requires
        t.kind == TaskKind::UploadFile,
        !(reply matches ReplyView::Answer { status, .. } && is_success(status)),
    ensures
        ({
            let (added, res, fail) = handle(t, EventView::Remote(reply), run.result);
            &&& added.len() == 0
            &&& fail is None
            &&& res.uploaded == run.result.uploaded
            &&& res.downloaded == run.result.downloaded
            &&& res.errors.len() == run.result.errors.len() + 1
            &&& res.errors.subrange(0, run.result.errors.len() as int) == run.result.errors
            &&& resumed(run, t, EventView::Remote(reply)) == advanced(
                RunView { url: run.url, tasks: run.tasks, current: None, result: res },
            )
        }),
{
    let (added, res, fail) = handle(t, EventView::Remote(reply), run.result);
    assert(added =~= seq![]);
    assert(res.errors.subrange(0, run.result.errors.len() as int) =~= run.result.errors);
    assert(run.tasks + added.reverse() =~= run.tasks);
}

/// A task with the given fields.
pub fn task(
    kind: TaskKind,
    remote_path: String,
    local_path: String,
    name: String,
    label: String,
    content: String,
) -> (r: Task)
    ensures
        r@ == tv(kind, remote_path@, local_path@, name@, label@, content@),
{
    Task { kind, remote_path, local_path, name, label, content }
}

/// `name` inside the local directory `dir`, as `Path::join` writes it.
pub fn join_local(dir: &str, name: &str) -> (r: String)
    ensures
        r@ == local_child(dir@, name@),
{
    proof {
        reveal_strlit("/");
    }
    let v = chars_of(dir);
    if v.len() == 0 || v[v.len() - 1] == '/' {
        concat(dir, name)
    } else {
        let d = concat(dir, "/");
        concat(d.as_str(), name)
    }
}

/// Whether an upload leaves the entry `name` out.
pub fn is_reserved(name: &str) -> (r: bool)
    ensures
        r == is_reserved_name(name@),
{
    let v = chars_of(name);
    let dot = v.len() >= 1 && v[0] == '.';
    let under = v.len() >= 2 && v[0] == '_' && v[1] == '_';
    proof {
        if v.len() >= 1 {
            assert(starts_with(v@, seq!['.']) == (v@[0] == '.')) by {
                if v@[0] == '.' {
                    assert(v@.subrange(0, 1) =~= seq!['.']);
                } else if v@.subrange(0, 1) == seq!['.'] {
                    assert(v@.subrange(0, 1)[0] == v@[0]);
                }
            }
        }
        if v.len() >= 2 {
            assert(starts_with(v@, seq!['_', '_']) == (v@[0] == '_' && v@[1] == '_')) by {
                if v@[0] == '_' && v@[1] == '_' {
                    assert(v@.subrange(0, 2) =~= seq!['_', '_']);
                } else if v@.subrange(0, 2) == seq!['_', '_'] {
                    assert(v@.subrange(0, 2)[0] == v@[0]);
                    assert(v@.subrange(0, 2)[1] == v@[1]);
                }
            }
        }
    }
    dot || under
}

/// Whether `name` has the extension `json`.
fn json_extension(name: &str) -> (r: bool)
    ensures
        r == has_json_extension(name@),
{
    proof {
        reveal_strlit(".json");
    }
    let v = chars_of(name);
    let n = v.len();
    if n <= 5 {
        return false;
    }
    let r = v[n - 5] == '.' && v[n - 4] == 'j' && v[n - 3] == 's' && v[n - 2] == 'o' && v[n - 1]
        == 'n';
    proof {
        let sub = v@.subrange(n - 5, n as int);
        assert(".json"@ =~= seq!['.', 'j', 's', 'o', 'n']);
        if r {
            assert(sub =~= ".json"@);
        } else if sub == ".json"@ {
            assert(sub[0] == v@[n - 5] && sub[1] == v@[n - 4] && sub[2] == v@[n - 3] && sub[3]
                == v@[n - 2] && sub[4] == v@[n - 1]);
        }
    }
    r
}

/// The two tasks that upload the local directory `dir` as the collection `sub`.
fn upload_subtree_tasks(dir: &str, sub: String, name: &str) -> (r: Vec<Task>)
    ensures
        task_views(r@) == seq![
            tv(TaskKind::MakeCollection, sub@, seq![], seq![], seq![], seq![]),
            tv(TaskKind::UploadTree, sub@, local_child(dir@, name@), seq![], seq![], seq![]),
        ],
{
    let mut r: Vec<Task> = Vec::new();
    r.push(task(TaskKind::MakeCollection, sub.clone(), String::new(), String::new(), String::new(), String::new()));
    r.push(task(TaskKind::UploadTree, sub, join_local(dir, name), String::new(), String::new(), String::new()));
    assert(task_views(r@) =~= seq![r@[0]@, r@[1]@]);
    r
}

/// The tasks for one entry of a local directory listed by upload task `t`.
fn local_item_tasks(t: &Task, e: &LocalEntry) -> (r: Vec<Task>)
    requires
        t.kind == TaskKind::UploadTree || t.kind == TaskKind::UploadAccounts || t.kind
            == TaskKind::UploadSkills,
    ensures
        task_views(r@) == match t.kind {
            TaskKind::UploadTree => tree_item_tasks(t.local_path@, t.remote_path@, e@),
            TaskKind::UploadAccounts => account_item_tasks(t.remote_path@, e@),
            _ => skill_item_tasks(t.local_path@, t.remote_path@, e@),
        },
{
    let mut r: Vec<Task> = Vec::new();
    proof {
        assert(task_views(r@) =~= seq![]);
    }
    match t.kind {
        TaskKind::UploadTree => {
            if is_reserved(e.name.as_str()) {
            } else if e.is_dir {
                let sub = child_path(t.remote_path.as_str(), e.name.as_str());
                r = upload_subtree_tasks(t.local_path.as_str(), sub, e.name.as_str());
            } else {
                match &e.content {
                    Ok(c) => {
                        let label = concat(t.remote_path.as_str(), e.name.as_str());
                        r.push(task(TaskKind::UploadFile, t.remote_path.clone(), String::new(), e.name.clone(), label, c.clone()));
                        assert(task_views(r@) =~= seq![r@[0]@]);
                    },
                    Err(m) => {
                        let line = concat(concat(e.name.as_str(), ": Read failed ").as_str(), m.as_str());
                        r.push(task(TaskKind::Report, String::new(), String::new(), String::new(), line, String::new()));
                        assert(task_views(r@) =~= seq![r@[0]@]);
                    },
                }
            }
        },
        TaskKind::UploadAccounts => {
            if json_extension(e.name.as_str()) {
                match &e.content {
                    Ok(c) => {
                        r.push(task(TaskKind::UploadFile, t.remote_path.clone(), String::new(), e.name.clone(), e.name.clone(), c.clone()));
                    },
                    Err(m) => {
                        let line = concat(concat(e.name.as_str(), ": Read failed ").as_str(), m.as_str());
                        r.push(task(TaskKind::Report, String::new(), String::new(), String::new(), line, String::new()));
                    },
                }
                assert(task_views(r@) =~= seq![r@[0]@]);
            }
        },
        _ => {
            if e.is_dir && crate::library::is_skill_dir_name(e.name.as_str()) {
                let sub = child_path(t.remote_path.as_str(), e.name.as_str());
                r = upload_subtree_tasks(t.local_path.as_str(), sub, e.name.as_str());
            }
        },
    }
    r
}

/// The tasks for the entries of the local directory of upload task `t`.
fn local_listing(t: &Task, es: &Vec<LocalEntry>) -> (r: Vec<Task>)
    requires
        t.kind == TaskKind::UploadTree || t.kind == TaskKind::UploadAccounts || t.kind
            == TaskKind::UploadSkills,
    ensures
        task_views(r@) == local_listing_tasks(t@, local_views(es@)),
{
    let mut out: Vec<Task> = Vec::new();
    let mut i: usize = 0;
    assert(local_views(es@).subrange(0, 0) =~= seq![]);
    assert(task_views(out@) =~= seq![]);
    while i < es.len()
        invariant
            t.kind == TaskKind::UploadTree || t.kind == TaskKind::UploadAccounts || t.kind
                == TaskKind::UploadSkills,
            i <= es.len(),
            task_views(out@) == local_listing_tasks(t@, local_views(es@).subrange(0, i as int)),
        decreases es.len() - i,
    {
        let mut items = local_item_tasks(t, &es[i]);
        let ghost before = out@;
        let ghost added = items@;
        out.append(&mut items);
        proof {
            let sub = local_views(es@).subrange(0, i + 1);
            assert(sub.drop_last() =~= local_views(es@).subrange(0, i as int));
            assert(sub.last() == es@[i as int]@);
            assert(task_views(out@) =~= task_views(before) + task_views(added));
        }
        i = i + 1;
    }
    assert(local_views(es@).subrange(0, es.len() as int) =~= local_views(es@));
    out
}

/// The tasks for the entries of a remote tree listing of task `t`.
fn remote_listing(t: &Task, es: &Vec<crate::listing::RemoteEntry>) -> (r: Vec<Task>)
    ensures
        task_views(r@) == remote_listing_tasks(t@, entry_views(es@)),
{
    let mut out: Vec<Task> = Vec::new();
    let mut i: usize = 0;
    assert(entry_views(es@).subrange(0, 0) =~= seq![]);
    assert(task_views(out@) =~= seq![]);
    while i < es.len()
        invariant
            i <= es.len(),
            task_views(out@) == remote_listing_tasks(t@, entry_views(es@).subrange(0, i as int)),
        decreases es.len() - i,
    {
        let en = &es[i];
        let local = join_local(t.local_path.as_str(), en.name.as_str());
        let ghost before = out@;
        if en.is_collection {
            out.push(task(TaskKind::MakeLocalDir { required: false }, String::new(), local.clone(), String::new(), String::new(), String::new()));
            let sub = child_path(t.remote_path.as_str(), en.name.as_str());
            out.push(task(TaskKind::DownloadTree, sub, local, String::new(), String::new(), String::new()));
        } else {
            let label = concat(t.remote_path.as_str(), en.name.as_str());
            let check_json = json_extension(en.name.as_str());
            out.push(task(TaskKind::DownloadFile { check_json, quiet_missing: false }, t.remote_path.clone(), local, en.name.clone(), label, String::new()));
        }
        proof {
            let sub = entry_views(es@).subrange(0, i + 1);
            assert(sub.drop_last() =~= entry_views(es@).subrange(0, i as int));
            assert(sub.last() == es@[i as int]@);
            assert(task_views(out@) =~= task_views(before) + remote_item_tasks(t@, es@[i as int]@));
        }
        i = i + 1;
    }
    assert(entry_views(es@).subrange(0, es.len() as int) =~= entry_views(es@));
    out
}

/// The tasks for the names of a remote accounts listing of task `t`.
fn account_downloads(t: &Task, names: &Vec<String>) -> (r: Vec<Task>)
    ensures
        task_views(r@) == account_download_tasks(t@, string_views(names@)),
{
    let mut out: Vec<Task> = Vec::new();
    let mut i: usize = 0;
    assert(string_views(names@).subrange(0, 0) =~= seq![]);
    assert(task_views(out@) =~= seq![]);
    while i < names.len()
        invariant
            i <= names.len(),
            task_views(out@) == account_download_tasks(t@, string_views(names@).subrange(0, i as int)),
        decreases names.len() - i,
    {
        let n = &names[i];
        let local = join_local(t.local_path.as_str(), n.as_str());
        let ghost before = out@;
        out.push(task(TaskKind::DownloadFile { check_json: true, quiet_missing: false }, t.remote_path.clone(), local, n.clone(), n.clone(), String::new()));
        proof {
            let sub = string_views(names@).subrange(0, i + 1);
            assert(sub.drop_last() =~= string_views(names@).subrange(0, i as int));
            assert(sub.last() == names@[i as int]@);
            assert(task_views(out@) =~= task_views(before).push(out@.last()@));
        }
        i = i + 1;
    }
    assert(string_views(names@).subrange(0, names.len() as int) =~= string_views(names@));
    out
}

/// One sync run: the server, the tasks still to do, the task waiting for an
/// event, and what has been done so far.
pub struct SyncRun {
    pub url: String,
    pub tasks: Vec<Task>,
    pub current: Option<Task>,
    pub result: SyncResult,
}

pub struct RunView {
    pub url: Seq<char>,
    pub tasks: Seq<TaskView>,
    pub current: Option<TaskView>,
    pub result: SyncView,
}

impl View for SyncRun {
    type V = RunView;

    open spec fn view(&self) -> RunView {
        RunView {
            url: self.url@,
            tasks: task_views(self.tasks@),
            current: match self.current {
                Some(t) => Some(t@),
                None => None,
            },
            result: self.result@,
        }
    }
}

/// The run `r` after `advance`.
pub open spec fn advanced(r: RunView) -> (RunView, ActionView) {
    let (tasks, current, result, action) = advance(r.url, r.tasks, r.result);
    (RunView { url: r.url, tasks, current, result }, action)
}

/// The run `r`, whose task `t` was waiting, after event `ev`.
pub open spec fn resumed(r: RunView, t: TaskView, ev: EventView) -> (RunView, ActionView) {
    let (added, result, fail) = handle(t, ev, r.result);
    match fail {
        Some(m) => (
            RunView { url: r.url, tasks: seq![], current: None, result },
            ActionView::Failed { message: m },
        ),
        None => advanced(
            RunView { url: r.url, tasks: r.tasks + added.reverse(), current: None, result },
        ),
    }
}

/// A run with nothing done yet, whose tasks are `order`, first to last.
pub open spec fn fresh_run(url: Seq<char>, order: Seq<TaskView>) -> RunView {
    RunView {
        url,
        tasks: order.reverse(),
        current: None,
        result: SyncView { uploaded: seq![], downloaded: seq![], errors: seq![] },
    }
}

/// The action that task `t` starts with.
fn action_for(url: &str, t: &Task) -> (r: Action)
    ensures
        r@ == action_of(url@, t@),
{
    match t.kind {
        TaskKind::MakeCollection => Action::MakeCollection {
            url: mkcol_url(url, t.remote_path.as_str()),
        },
        TaskKind::UploadFile => Action::Put {
            url: item_url(url, t.remote_path.as_str(), t.name.as_str()),
            body: t.content.clone(),
        },
        TaskKind::UploadLocalFile => Action::ReadLocal { path: t.local_path.clone() },
        TaskKind::DownloadTree => Action::ListCollection {
            url: collection_url(url, t.remote_path.as_str()),
        },
        TaskKind::DownloadAccounts => Action::ListCollection {
            url: collection_url(url, t.remote_path.as_str()),
        },
        TaskKind::DownloadFile { .. } => Action::Get {
            url: item_url(url, t.remote_path.as_str(), t.name.as_str()),
        },
        TaskKind::StoreFile => Action::WriteLocal {
            path: t.local_path.clone(),
            content: t.content.clone(),
        },
        TaskKind::MakeLocalDir { .. } => Action::MakeLocalDir { path: t.local_path.clone() },
        _ => Action::ListLocal { path: t.local_path.clone() },
    }
}

/// Pushes `added` onto `tasks` so that its first task comes off first.
fn push_reversed(tasks: &mut Vec<Task>, added: Vec<Task>)
    ensures
        task_views(final(tasks)@) == task_views(old(tasks)@) + task_views(added@).reverse(),
{
    let ghost orig = added@;
    let mut added = added;
    let ghost all = task_views(added@);
    assert(task_views(old(tasks)@) + all.subrange(added.len() as int, all.len() as int).reverse()
        =~= task_views(tasks@));
    while added.len() > 0
        invariant
            all == task_views(orig),
            added.len() <= orig.len(),
            added@ == orig.subrange(0, added.len() as int),
            task_views(tasks@) == task_views(old(tasks)@) + all.subrange(
                added.len() as int,
                all.len() as int,
            ).reverse(),
        decreases added.len(),
    {
        let ghost k = added.len();
        let t = added.pop().unwrap();
        let ghost prev = task_views(tasks@);
        tasks.push(t);
        proof {
            assert(task_views(tasks@) =~= prev.push(t@));
            assert(all[k - 1] == t@);
            assert(all.subrange(k - 1, all.len() as int).reverse() =~= all.subrange(
                k as int,
                all.len() as int,
            ).reverse().push(all[k - 1]));
            assert(task_views(tasks@) =~= task_views(old(tasks)@) + all.subrange(
                k - 1,
                all.len() as int,
            ).reverse());
        }
    }
    assert(all.subrange(0, all.len() as int) =~= all);
}

/// Adds `line` to the errors of `r`.
fn push_error(r: &mut SyncResult, line: String)
    ensures
        final(r)@ == with_error(old(r)@, line@),
{
    let ghost before = r@.errors;
    r.errors.push(line);
    assert(r@.errors =~= before.push(line@));
}

/// Adds `t` to the end of `v`.
pub fn push_task(v: &mut Vec<Task>, t: Task)
    ensures
        task_views(final(v)@) == task_views(old(v)@).push(t@),
{
    let ghost before = task_views(v@);
    v.push(t);
    assert(task_views(v@) =~= before.push(t@));
}

/// Adds `label` to `v`.
fn push_label(v: &mut Vec<String>, label: String)
    ensures
        string_views(final(v)@) == string_views(old(v)@).push(label@),
{
    let ghost before = string_views(v@);
    v.push(label);
    assert(string_views(v@) =~= before.push(label@));
}

/// `a`, `b` and `c` in a row.
fn concat3(a: &str, b: &str, c: &str) -> (r: String)
    ensures
        r@ == a@ + b@ + c@,
{
    let ab = concat(a, b);
    concat(ab.as_str(), c)
}

/// Applies event `ev` to the result for the waiting task `t`; returns the
/// tasks that follow from it, in order, or the message that ends the run.
fn handle_event(result: &mut SyncResult, t: &Task, ev: Event) -> (r: (Vec<Task>, Option<String>))
    requires
        awaits(t@, ev@),
    ensures
        ({
            let (added, res, fail) = handle(t@, ev@, old(result)@);
            &&& task_views(r.0@) == added
            &&& final(result)@ == res
            &&& match r.1 {
                Some(m) => fail == Some(m@),
                None => fail is None,
            }
        }),
{
    let mut none: Vec<Task> = Vec::new();
    assert(task_views(none@) =~= seq![]);
    match ev {
        Event::Listed(l) => match l {
            Some(es) => (local_listing(t, &es), None),
            None => (none, None),
        },
        Event::Loaded(c) => match c {
            Some(text) => {
                none.push(task(TaskKind::UploadFile, t.remote_path.clone(), String::new(), t.name.clone(), t.name.clone(), text));
                assert(task_views(none@) =~= seq![none@[0]@]);
                (none, None)
            },
            None => (none, None),
        },
        Event::Stored(st) => match t.kind {
            TaskKind::StoreFile => {
                match st {
                    Ok(_) => push_label(&mut result.downloaded, t.label.clone()),
                    Err(m) => push_error(result, concat3(t.name.as_str(), ": Write failed ", m.as_str())),
                }
                (none, None)
            },
            TaskKind::MakeLocalDir { required } => match st {
                Err(m) => if required {
                    (none, Some(concat("Failed to create local directory: ", m.as_str())))
                } else {
                    (none, None)
                },
                Ok(_) => (none, None),
            },
            _ => (none, None),
        },
        Event::Remote(reply) => match t.kind {
            TaskKind::UploadFile => {
                match reply {
                    Reply::Answer { status, reason, .. } => if 200 <= status && status <= 299 {
                        push_label(&mut result.uploaded, t.label.clone());
                    } else {
                        push_error(result, concat3(t.name.as_str(), ": Upload failed: HTTP ", status_line_string(status, reason.as_str()).as_str()));
                    },
                    Reply::Failure { message } => {
                        push_error(result, concat3(t.name.as_str(), ": Upload failed: ", message.as_str()));
                    },
                }
                (none, None)
            },
            TaskKind::DownloadTree => match reply {
                Reply::Answer { status, reason, body } => if 200 <= status && status <= 299 {
                    let entries = parse_listing(body.as_str());
                    (remote_listing(t, &entries), None)
                } else if status == 404 {
                    (none, None)
                } else {
                    push_error(result, concat("Failed to list directory: HTTP ", status_line_string(status, reason.as_str()).as_str()));
                    (none, None)
                },
                Reply::Failure { message } => {
                    push_error(result, concat("Failed to list directory: ", message.as_str()));
                    (none, None)
                },
            },
            TaskKind::DownloadAccounts => match reply {
                Reply::Answer { status, reason, body } => if 200 <= status && status <= 299 {
                    let names = parse_json_names(body.as_str());
                    (account_downloads(t, &names), None)
                } else if status == 404 {
                    (none, None)
                } else {
                    (none, Some(concat("Failed to list directory: HTTP ", status_line_string(status, reason.as_str()).as_str())))
                },
                Reply::Failure { message } => {
                    (none, Some(concat("Failed to list directory: ", message.as_str())))
                },
            },
            TaskKind::DownloadFile { check_json, quiet_missing } => match reply {
                Reply::Answer { status, reason, body } => if 200 <= status && status <= 299 {
                    if check_json && !parses_as_json(body.as_str()) {
                        push_error(result, concat(t.name.as_str(), ": Invalid JSON"));
                        (none, None)
                    } else {
                        none.push(task(TaskKind::StoreFile, String::new(), t.local_path.clone(), t.name.clone(), t.label.clone(), body));
                        assert(task_views(none@) =~= seq![none@[0]@]);
                        (none, None)
                    }
                } else if status == 404 && quiet_missing {
                    (none, None)
                } else {
                    push_error(result, concat3(t.name.as_str(), ": Download failed: HTTP ", status_line_string(status, reason.as_str()).as_str()));
                    (none, None)
                },
                Reply::Failure { message } => {
                    push_error(result, concat3(t.name.as_str(), ": Download failed: ", message.as_str()));
                    (none, None)
                },
            },
            _ => (none, None),
        },
    }
}

impl SyncRun {
    /// A run on the server at `url` that works through `order`, first to last.
    pub fn new(url: String, order: Vec<Task>) -> (r: SyncRun)
        ensures
            r@ == fresh_run(url@, task_views(order@)),
    {
        let mut tasks: Vec<Task> = Vec::new();
        push_reversed(&mut tasks, order);
        assert(task_views(tasks@) =~= seq![] + task_views(order@).reverse());
        let r = SyncRun {
            url,
            tasks,
            current: None,
            result: SyncResult { uploaded: Vec::new(), downloaded: Vec::new(), errors: Vec::new() },
        };
        assert(r@.result.uploaded =~= seq![]);
        assert(r@.result.downloaded =~= seq![]);
        assert(r@.result.errors =~= seq![]);
        r
    }

    /// Pops tasks until one needs the outside world, and returns its action.
    fn advance(&mut self) -> (a: Action)
        requires
            old(self).current is None,
        ensures
            (final(self)@, a@) == advanced(old(self)@),
    {
        loop
            invariant
                self.current is None,
                self.url@ == old(self).url@,
                advance(self.url@, task_views(self.tasks@), self.result@) == advance(
                    old(self)@.url,
                    old(self)@.tasks,
                    old(self)@.result,
                ),
            decreases self.tasks.len(),
        {
            let ghost before = task_views(self.tasks@);
            match self.tasks.pop() {
                None => {
                    assert(before.len() == 0);
                    return Action::Finished;
                },
                Some(t) => {
                    assert(before.last() == t@);
                    assert(before.drop_last() =~= task_views(self.tasks@));
                    if t.kind == TaskKind::Report {
                        let ghost old_errors = self.result@.errors;
                        self.result.errors.push(t.label);
                        assert(self.result@.errors =~= old_errors.push(t@.label));
                    } else {
                        let a = action_for(self.url.as_str(), &t);
                        self.current = Some(t);
                        return a;
                    }
                },
            }
        }
    }

    /// Starts the run: the first action.
    pub fn start(&mut self) -> (a: Action)
        requires
            old(self).current is None,
        ensures
            (final(self)@, a@) == advanced(old(self)@),
    {
        self.advance()
    }

    /// Hands the run the event that its last action produced, and returns
    /// the next action.
    pub fn resume(&mut self, event: Event) -> (a: Action)
        requires
            old(self)@.current matches Some(t) && awaits(t, event@),
        ensures
            (final(self)@, a@) == resumed(old(self)@, old(self)@.current->0, event@),
    {
        let t = self.current.take().unwrap();
        let (added, fail) = handle_event(&mut self.result, &t, event);
        match fail {
            Some(m) => {
                self.tasks = Vec::new();
                assert(task_views(self.tasks@) =~= seq![]);
                Action::Failed { message: m }
            },
            None => {
                push_reversed(&mut self.tasks, added);
                self.advance()
            },
        }
    }

    /// Whether `event` is what the waiting task expects.
    pub fn accepts(&self, event: &Event) -> (r: bool)
        ensures
            r == (self@.current matches Some(t) && awaits(t, event@)),
    {
        match &self.current {
            None => false,
            Some(t) => match t.kind {
                TaskKind::MakeCollection | TaskKind::UploadFile | TaskKind::DownloadTree
                | TaskKind::DownloadAccounts | TaskKind::DownloadFile { .. } => {
                    matches!(event, Event::Remote(_))
                },
                TaskKind::UploadTree | TaskKind::UploadAccounts | TaskKind::UploadSkills => {
                    matches!(event, Event::Listed(_))
                },
                TaskKind::UploadLocalFile => matches!(event, Event::Loaded(_)),
                TaskKind::StoreFile | TaskKind::MakeLocalDir { .. } => {
                    matches!(event, Event::Stored(_))
                },
                TaskKind::Report => false,
            },
        }
    }
}

} // verus!
