//! What the account commands decide, apart from the file system.
use vstd::prelude::*;
use crate::auth::{opt_view, AccountInfo, CodexAuthFile, CodexTokens};
use crate::sync::{join_local, local_child, status_line, status_line_string};
use crate::text::{chars_of, concat, slice_string, trim, trim_bounds};

verus! {

/// The accounts directory: the configured one if it exists, else
/// `.myswitch/accounts` under the home directory `home`.
pub open spec fn accounts_dir_of(configured: Option<Seq<char>>, exists: bool, home: Seq<char>) -> Seq<
    char,
> {
    match configured {
        Some(d) if exists => d,
        _ => local_child(local_child(home, ".myswitch"@), "accounts"@),
    }
}

/// Picks the accounts directory; `configured_exists` says whether the
/// configured directory is there.
pub fn choose_accounts_dir(configured: Option<String>, configured_exists: bool, home: &str) -> (r: String)
    ensures
        r@ == accounts_dir_of(opt_view(configured), configured_exists, home@),
{
    match configured {
        Some(d) if configured_exists => d,
        _ => {
            let base = join_local(home, ".myswitch");
            join_local(base.as_str(), "accounts")
        },
    }
}

/// The settings file under the home directory `home`.
pub fn config_file_path(home: &str) -> (r: String)
    ensures
        r@ == local_child(local_child(home@, ".myswitch"@), "config.json"@),
{
    let base = join_local(home, ".myswitch");
    join_local(base.as_str(), "config.json")
}

/// The credential file that the command-line tool reads, under `home`.
pub fn codex_auth_file_path(home: &str) -> (r: String)
    ensures
        r@ == local_child(local_child(home@, ".codex"@), "auth.json"@),
{
    let base = join_local(home, ".codex");
    join_local(base.as_str(), "auth.json")
}

/// The file name of the account `stem`.
pub fn account_file_name(stem: &str) -> (r: String)
    ensures
        r@ == stem@ + ".json"@,
{
    concat(stem, ".json")
}

/// The stem of a new account's file: the given name, trimmed, if any; else
/// the e-mail of its token, if known; else `None`, and the caller names it
/// after the time.
pub open spec fn new_account_stem(name: Seq<char>, email: Seq<char>) -> Option<Seq<char>> {
    if trim(name).len() > 0 {
        Some(trim(name))
    } else if email != "Unknown"@ {
        Some(email)
    } else {
        None
    }
}

/// Decides the stem of a new account's file; see `new_account_stem`.
pub fn account_file_stem(name: &str, email: &str) -> (r: Option<String>)
    ensures
        match r {
            Some(s) => new_account_stem(name@, email@) == Some(s@),
            None => new_account_stem(name@, email@) is None,
        },
{
    let v = chars_of(name);
    let (lo, hi) = trim_bounds(&v);
    if lo < hi {
        return Some(slice_string(&v, lo, hi));
    }
    let unknown = String::from_str("Unknown");
    let e = String::from_str(email);
    if e != unknown {
        Some(e)
    } else {
        None
    }
}

/// The account list entry for the credential file `auth` at `file_path`
/// (its stem `stem`, changed at `modified_ms`), given what its token says
/// and the account that is active now, if any.
pub fn account_info_of(
    auth: &CodexAuthFile,
    file_path: String,
    stem: String,
    modified_ms: i64,
    active_account_id: &Option<String>,
) -> (r: AccountInfo)
    ensures
        r.id@ == auth.tokens.account_id@,
        r.name@ == stem@,
        r.file_path@ == file_path@,
        r.auth_updated_at == modified_ms,
        r.last_refresh@ == auth.last_refresh@,
        r.is_active == (active_account_id matches Some(a) && a@ == auth.tokens.account_id@),
{
    let (email, plan_type, subscription_end, expires_at) = crate::auth::extract_info_from_auth(auth);
    let is_active = match active_account_id {
        Some(a) => *a == auth.tokens.account_id,
        None => false,
    };
    AccountInfo {
        id: auth.tokens.account_id.clone(),
        name: stem,
        email,
        plan_type,
        subscription_end,
        is_active,
        file_path,
        auth_updated_at: modified_ms,
        expires_at,
        last_refresh: auth.last_refresh.clone(),
    }
}

/// `auth` after a token refresh: each token the server sent replaces the old
/// one, the others stay, and the refresh time is `now`.
pub fn apply_refresh(
    auth: &CodexAuthFile,
    access_token: Option<String>,
    id_token: Option<String>,
    refresh_token: Option<String>,
    now: String,
) -> (r: CodexAuthFile)
    ensures
        r.tokens.access_token@ == (match access_token {
            Some(t) => t@,
            None => auth.tokens.access_token@,
        }),
        r.tokens.id_token@ == (match id_token {
            Some(t) => t@,
            None => auth.tokens.id_token@,
        }),
        r.tokens.refresh_token@ == (match refresh_token {
            Some(t) => t@,
            None => auth.tokens.refresh_token@,
        }),
        r.tokens.account_id@ == auth.tokens.account_id@,
        opt_view(r.openai_api_key) == opt_view(auth.openai_api_key),
        r.last_refresh@ == now@,
{
    let access = match access_token {
        Some(t) => t,
        None => auth.tokens.access_token.clone(),
    };
    let id = match id_token {
        Some(t) => t,
        None => auth.tokens.id_token.clone(),
    };
    let refresh = match refresh_token {
        Some(t) => t,
        None => auth.tokens.refresh_token.clone(),
    };
    let key = match &auth.openai_api_key {
        Some(k) => Some(k.clone()),
        None => None,
    };
    CodexAuthFile {
        openai_api_key: key,
        last_refresh: now,
        tokens: CodexTokens {
            access_token: access,
            account_id: auth.tokens.account_id.clone(),
            id_token: id,
            refresh_token: refresh,
        },
    }
}

/// The message for a refused token refresh, given the error code the server
/// sent, if any, and the status and body of its answer.
pub open spec fn refresh_failure_of(
    code: Option<Seq<char>>,
    status: u16,
    reason: Seq<char>,
    body: Seq<char>,
) -> Seq<
    char,
> {
    match code {
        Some(c) => if c == "refresh_token_expired"@ {
            "Refresh Token expired, please log in to Codex CLI again"@
        } else if c == "refresh_token_reused"@ {
            "Refresh Token reused, please log in to Codex CLI again"@
        } else if c == "refresh_token_invalidated"@ {
            "Refresh Token invalidated, please log in to Codex CLI again"@
        } else {
            "Refresh failed: "@ + status_line(status, reason) + " - "@ + body
        },
        None => "Refresh failed: HTTP "@ + status_line(status, reason) + " - "@ + body,
    }
}

/// The message for a refused token refresh; see `refresh_failure_of`. The
/// code is `Some` where the body is a JSON error object, `unknown` where that
/// object names no code.
pub fn refresh_failure_message(code: Option<&str>, status: u16, reason: &str, body: &str) -> (r: String)
    ensures
        r@ == refresh_failure_of(
            match code {
                Some(c) => Some(c@),
                None => None,
            },
            status,
            reason@,
            body@,
        ),
{
    match code {
        Some(c) => {
            let c = String::from_str(c);
            if c == String::from_str("refresh_token_expired") {
                String::from_str("Refresh Token expired, please log in to Codex CLI again")
            } else if c == String::from_str("refresh_token_reused") {
                String::from_str("Refresh Token reused, please log in to Codex CLI again")
            } else if c == String::from_str("refresh_token_invalidated") {
                String::from_str("Refresh Token invalidated, please log in to Codex CLI again")
            } else {
                let a = concat("Refresh failed: ", status_line_string(status, reason).as_str());
                let b = concat(a.as_str(), " - ");
                concat(b.as_str(), body)
            }
        },
        None => {
            let a = concat("Refresh failed: HTTP ", status_line_string(status, reason).as_str());
            let b = concat(a.as_str(), " - ");
            concat(b.as_str(), body)
        },
    }
}

/// The tray's line about the active account: not configured where the
/// credential file is missing or unreadable, unknown where it does not
/// parse, else the e-mail of its token.
pub fn tray_account_label(readable: bool, auth: Option<&CodexAuthFile>) -> (r: String)
    ensures
        !readable ==> r@ == "Current: Not Configured"@,
        readable && auth is None ==> r@ == "Current: Unknown"@,
        readable && auth is Some ==> exists|e: Seq<char>| r@ == "Current: "@ + e,
{
    if !readable {
        return String::from_str("Current: Not Configured");
    }
    match auth {
        None => String::from_str("Current: Unknown"),
        Some(a) => {
            let (email, _, _, _) = crate::auth::extract_info_from_auth(a);
            let r = concat("Current: ", email.as_str());
            assert(r@ == "Current: "@ + email@);
            r
        },
    }
}

} // verus!
