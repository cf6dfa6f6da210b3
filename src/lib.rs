//! Account switching and WebDAV mirroring for a command-line tool's
//! credential and configuration files.
//!
//! The verified core reconciles a local directory tree with a remote WebDAV
//! collection tree: it builds request URLs, reads PROPFIND listings and
//! decides, step by step, what to transfer and what to report.
pub mod text;
pub mod remote;
pub mod listing;
pub mod sync;
pub mod plan;
pub mod auth;
pub mod library;
pub mod accounts;
pub mod usage;

pub use auth::{
    decode_jwt_payload, extract_info_from_auth, AccountInfo, AppConfig, CodexAuthFile, CodexTokens,
    ScanResult,
};
pub use library::{PromptInfo, SkillInfo};
pub use listing::{parse_json_names, parse_listing, RemoteEntry};
pub use plan::{get_codex_dir, get_prompts_dir, get_skills_dir, CodexSyncConfig};
pub use remote::{normalize_remote_path, WebDavConfig};
pub use sync::{Action, Event, LocalEntry, Reply, SyncResult, SyncRun};
