use base64::Engine;
use codex_revolver::accounts::tray_account_label;
use codex_revolver::auth::{jwt_payload_base64, refresh_error_code};
use codex_revolver::{decode_jwt_payload, extract_info_from_auth, CodexAuthFile, CodexTokens, AppConfig};

fn token_with(payload: &str) -> String {
    let enc = base64::engine::general_purpose::URL_SAFE_NO_PAD.encode(payload.as_bytes());
    format!("eyJhbGciOiJub25lIn0.{}.sig", enc)
}

fn auth_with(id_token: &str) -> CodexAuthFile {
    CodexAuthFile {
        openai_api_key: None,
        last_refresh: "2025-01-01T00:00:00Z".to_string(),
        tokens: CodexTokens {
            access_token: "a".to_string(),
            account_id: "acct".to_string(),
            id_token: id_token.to_string(),
            refresh_token: "r".to_string(),
        },
    }
}

#[test]
fn info_read_from_identity_token() {
    let token = token_with(
        "{\"email\":\"me@example.com\",\"exp\":1700000000,\
         \"https://api.openai.com/auth\":{\"chatgpt_plan_type\":\"plus\",\
         \"chatgpt_subscription_active_until\":\"2026-01-01\"}}",
    );
    let (email, plan, until, exp) = extract_info_from_auth(&auth_with(&token));
    assert_eq!(email, "me@example.com");
    assert_eq!(plan, "plus");
    assert_eq!(until, Some("2026-01-01".to_string()));
    assert_eq!(exp, Some(1700000000));
}

#[test]
fn info_defaults_for_missing_claims() {
    let token = token_with("{\"sub\":\"x\"}");
    let (email, plan, until, exp) = extract_info_from_auth(&auth_with(&token));
    assert_eq!((email.as_str(), plan.as_str(), until, exp), ("Unknown", "unknown", None, None));
}

#[test]
fn info_defaults_for_unreadable_token() {
    let (email, plan, until, exp) = extract_info_from_auth(&auth_with("not-a-token"));
    assert_eq!((email.as_str(), plan.as_str(), until, exp), ("Unknown", "unknown", None, None));
}

#[test]
fn payload_needs_three_parts() {
    assert!(jwt_payload_base64("a.b").is_none());
    assert!(jwt_payload_base64("a.b.c.d").is_none());
    assert!(decode_jwt_payload("a.b.c.d").is_none());
}

#[test]
fn payload_is_padded_and_translated() {
    assert_eq!(jwt_payload_base64("h.ab-_.s"), Some("ab+/".to_string()));
    assert_eq!(jwt_payload_base64("h.abcdef.s"), Some("abcdef==".to_string()));
    assert_eq!(jwt_payload_base64("h.abcdefg.s"), Some("abcdefg=".to_string()));
    assert_eq!(jwt_payload_base64("h.abcde.s"), None);
}

#[test]
fn payload_that_is_not_json_is_none() {
    let token = token_with("plain text");
    assert!(decode_jwt_payload(&token).is_none());
    let token = token_with("{\"a\":1}");
    assert!(decode_jwt_payload(&token).is_some());
}

#[test]
fn default_app_config_has_no_dir() {
    assert!(AppConfig::default().accounts_dir.is_none());
}

#[test]
fn refresh_error_codes() {
    assert_eq!(refresh_error_code("{\"error\":{\"code\":\"refresh_token_reused\"}}"), Some("refresh_token_reused".to_string()));
    assert_eq!(refresh_error_code("{\"error\":\"bad\",\"code\":\"top\"}"), Some("top".to_string()));
    assert_eq!(refresh_error_code("{\"error\":{}}"), Some("unknown".to_string()));
    assert_eq!(refresh_error_code("{\"message\":\"x\"}"), None);
    assert_eq!(refresh_error_code("not json"), None);
}

#[test]
fn tray_labels() {
    assert_eq!(tray_account_label(false, None), "Current: Not Configured");
    assert_eq!(tray_account_label(true, None), "Current: Unknown");
    let token = token_with("{\"email\":\"me@example.com\"}");
    assert_eq!(tray_account_label(true, Some(&auth_with(&token))), "Current: me@example.com");
}
