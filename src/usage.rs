//! The fallback over the usage endpoints: try each in turn until one answers
//! with a success, and say why each failed when none does.
use vstd::prelude::*;
use crate::sync::{is_success, status_line, status_line_string, Reply, ReplyView};
use crate::listing::string_views;
use crate::text::concat;

verus! {

/// How many usage endpoints there are.
pub const USAGE_ENDPOINTS: usize = 4;

/// The usage endpoint number `i`, in the order they are tried.
pub open spec fn usage_endpoint(i: int) -> Seq<char> {
    if i == 0 {
        "https://chatgpt.com/backend-api/wham/usage"@
    } else if i == 1 {
        "https://api.openai.com/backend-api/wham/usage"@
    } else if i == 2 {
        "https://api.openai.com/api/codex/usage"@
    } else {
        "https://chat.openai.com/backend-api/wham/usage"@
    }
}

/// The usage endpoint number `i`.
pub fn usage_url(i: usize) -> (r: String)
    requires
        i < USAGE_ENDPOINTS,
    ensures
        r@ == usage_endpoint(i as int),
{
    if i == 0 {
        String::from_str("https://chatgpt.com/backend-api/wham/usage")
    } else if i == 1 {
        String::from_str("https://api.openai.com/backend-api/wham/usage")
    } else if i == 2 {
        String::from_str("https://api.openai.com/api/codex/usage")
    } else {
        String::from_str("https://chat.openai.com/backend-api/wham/usage")
    }
}

/// The line that records why endpoint `url` failed.
pub open spec fn attempt_error(url: Seq<char>, reply: ReplyView) -> Seq<char> {
    match reply {
        ReplyView::Answer { status, reason, .. } => url + " -> HTTP "@ + status_line(status, reason),
        ReplyView::Failure { message } => url + " -> "@ + message,
    }
}

/// `lines` joined with ` | `.
pub open spec fn joined(lines: Seq<Seq<char>>) -> Seq<char>
    decreases lines.len(),
{
    if lines.len() == 0 {
        seq![]
    } else if lines.len() == 1 {
        lines[0]
    } else {
        joined(lines.drop_last()) + " | "@ + lines.last()
    }
}

/// The message when every endpoint failed.
pub open spec fn all_failed(lines: Seq<Seq<char>>) -> Seq<char> {
    if lines.len() == 0 {
        "All API requests failed"@
    } else {
        "All API requests failed: "@ + joined(lines)
    }
}

/// What to do after an endpoint answered.
pub enum UsageStep {
    /// This answer is the one: read the usage from its body.
    Use { body: String },
    /// Try the endpoint at `url`.
    Try { url: String },
    /// Every endpoint failed; `message` says how.
    GiveUp { message: String },
}

/// The endpoints tried so far and why each failed.
pub struct UsageAttempts {
    /// The endpoint being tried.
    pub current: usize,
    pub errors: Vec<String>,
}

impl UsageAttempts {
    /// Starts with the first endpoint; its URL is `usage_url(0)`.
    pub fn new() -> (r: UsageAttempts)
        ensures
            r.current == 0,
            r.errors@.len() == 0,
    {
        UsageAttempts { current: 0, errors: Vec::new() }
    }

    /// Takes the reply of the current endpoint.
    pub fn on_reply(&mut self, reply: Reply) -> (step: UsageStep)
        requires
            old(self).current < USAGE_ENDPOINTS,
            old(self).errors@.len() == old(self).current,
        ensures
            match reply@ {
                ReplyView::Answer { status, body, .. } if is_success(status) => {
                    &&& step matches UsageStep::Use { body: b } && b@ == body
                    &&& final(self).errors@ == old(self).errors@
                    &&& final(self).current == old(self).current
                },
                _ => {
                    let errs = string_views(old(self).errors@).push(
                        attempt_error(usage_endpoint(old(self).current as int), reply@),
                    );
                    &&& string_views(final(self).errors@) == errs
                    &&& final(self).current == old(self).current + 1
                    &&& if final(self).current < USAGE_ENDPOINTS {
                        step matches UsageStep::Try { url } && url@ == usage_endpoint(
                            final(self).current as int,
                        )
                    } else {
                        step matches UsageStep::GiveUp { message } && message@ == all_failed(errs)
                    }
                },
            },
            final(self).errors@.len() == final(self).current,
    {
        let url = usage_url(self.current);
        let line = match reply {
            Reply::Answer { status, reason, body } => {
                if 200 <= status && status <= 299 {
                    return UsageStep::Use { body };
                }
                concat(concat(url.as_str(), " -> HTTP ").as_str(), status_line_string(status, reason.as_str()).as_str())
            },
            Reply::Failure { message } => concat(concat(url.as_str(), " -> ").as_str(), message.as_str()),
        };
        let ghost before = string_views(self.errors@);
        self.errors.push(line);
        assert(string_views(self.errors@) =~= before.push(line@));
        self.current = self.current + 1;
        if self.current < USAGE_ENDPOINTS {
            UsageStep::Try { url: usage_url(self.current) }
        } else {
            UsageStep::GiveUp { message: failure_message(&self.errors) }
        }
    }
}

/// The message when every endpoint failed, from the lines `errors`.
pub fn failure_message(errors: &Vec<String>) -> (r: String)
    ensures
        r@ == all_failed(string_views(errors@)),
{
    if errors.len() == 0 {
        return String::from_str("All API requests failed");
    }
    let mut acc = errors[0].clone();
    let mut i: usize = 1;
    proof {
        assert(string_views(errors@).subrange(0, 1) =~= seq![errors@[0]@]);
    }
    while i < errors.len()
        invariant
            1 <= i <= errors.len(),
            acc@ == joined(string_views(errors@).subrange(0, i as int)),
        decreases errors.len() - i,
    {
        let a = concat(acc.as_str(), " | ");
        acc = concat(a.as_str(), errors[i].as_str());
        proof {
            let sub = string_views(errors@).subrange(0, i + 1);
            assert(sub.drop_last() =~= string_views(errors@).subrange(0, i as int));
            assert(sub.last() == errors@[i as int]@);
        }
        i = i + 1;
    }
    assert(string_views(errors@).subrange(0, errors.len() as int) =~= string_views(errors@));
    concat("All API requests failed: ", acc.as_str())
}

} // verus!
