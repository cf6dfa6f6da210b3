use codex_revolver::usage::{failure_message, usage_url, UsageAttempts, UsageStep};
use codex_revolver::Reply;

fn answer(status: u16, reason: &str, body: &str) -> Reply {
    Reply::Answer { status, reason: reason.to_string(), body: body.to_string() }
}

#[test]
fn first_success_is_used() {
    let mut a = UsageAttempts::new();
    match a.on_reply(answer(403, "Forbidden", "")) {
        UsageStep::Try { url } => assert_eq!(url, usage_url(1)),
        _ => panic!("expected another endpoint"),
    }
    match a.on_reply(answer(200, "OK", "{\"plan_type\":\"plus\"}")) {
        UsageStep::Use { body } => assert_eq!(body, "{\"plan_type\":\"plus\"}"),
        _ => panic!("expected the body"),
    }
}

#[test]
fn all_endpoints_failing_gives_up_with_reasons() {
    let mut a = UsageAttempts::new();
    let mut last = None;
    for i in 0..4 {
        let r = if i == 2 {
            Reply::Failure { message: "timed out".to_string() }
        } else {
            answer(500, "Internal Server Error", "")
        };
        last = Some(a.on_reply(r));
    }
    match last {
        Some(UsageStep::GiveUp { message }) => assert_eq!(
            message,
            "All API requests failed: \
             https://chatgpt.com/backend-api/wham/usage -> HTTP 500 Internal Server Error | \
             https://api.openai.com/backend-api/wham/usage -> HTTP 500 Internal Server Error | \
             https://api.openai.com/api/codex/usage -> timed out | \
             https://chat.openai.com/backend-api/wham/usage -> HTTP 500 Internal Server Error"
        ),
        _ => panic!("expected to give up"),
    }
}

#[test]
fn no_reasons_message() {
    assert_eq!(failure_message(&Vec::new()), "All API requests failed");
}
