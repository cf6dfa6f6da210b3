//! Credential files and what the identity token inside them tells.
use vstd::prelude::*;
use crate::text::chars_of;
use std::io::Read;

verus! {

/// The tokens of one account.
pub struct CodexTokens {
    pub access_token: String,
    pub account_id: String,
    pub id_token: String,
    pub refresh_token: String,
}

/// One credential file.
pub struct CodexAuthFile {
    pub openai_api_key: Option<String>,
    pub last_refresh: String,
    pub tokens: CodexTokens,
}

/// An account as the account list shows it.
pub struct AccountInfo {
    pub id: String,
    pub name: String,
    pub email: String,
    pub plan_type: String,
    pub subscription_end: Option<String>,
    pub is_active: bool,
    pub file_path: String,
    /// Milliseconds since the epoch at which the file was last changed.
    pub auth_updated_at: i64,
    pub expires_at: Option<i64>,
    pub last_refresh: String,
}

/// The account list and the directory it was read from.
pub struct ScanResult {
    pub accounts: Vec<AccountInfo>,
    pub accounts_dir: String,
}

/// The tool's own settings.
pub struct AppConfig {
    /// Where the account files live, if not in the default place.
    pub accounts_dir: Option<String>,
}

impl Default for AppConfig {
    fn default() -> (r: Self)
        ensures
            r.accounts_dir is None,
    {
        AppConfig { accounts_dir: None }
    }
}

#[verifier::external_type_specification]
#[verifier::external_body]
pub struct ExJsonValue(serde_json::Value);

/// The segments of `s` between dots, as `str::split('.')` gives them.
pub open spec fn dot_segments(s: Seq<char>) -> Seq<Seq<char>>
    decreases s.len(),
{
    if s.len() == 0 {
        seq![seq![]]
    } else {
        let p = dot_segments(s.drop_last());
        if s.last() == '.' {
            p.push(seq![])
        } else {
            p.update(p.len() - 1, p.last().push(s.last()))
        }
    }
}

proof fn lemma_dot_segments_nonempty(s: Seq<char>)
    ensures
        dot_segments(s).len() >= 1,
    decreases s.len(),
{
    if s.len() > 0 {
        lemma_dot_segments_nonempty(s.drop_last());
    }
}

/// Base64url written in the standard alphabet: `-` as `+`, `_` as `/`.
pub open spec fn to_standard_alphabet(s: Seq<char>) -> Seq<char> {
    s.map_values(|c: char| if c == '-' { '+' } else if c == '_' { '/' } else { c })
}

/// `s` padded with `=` to a multiple of four; `None` where no padding can
/// make it valid base64.
pub open spec fn padded(s: Seq<char>) -> Option<Seq<char>> {
    let m = s.len() % 4;
    if m == 0 {
        Some(s)
    } else if m == 2 {
        Some(s + seq!['=', '='])
    } else if m == 3 {
        Some(s + seq!['='])
    } else {
        None
    }
}

/// The base64 text of the payload of the token `token`, in the standard
/// alphabet and padded: `None` unless the token has three parts.
pub open spec fn jwt_payload_text(token: Seq<char>) -> Option<Seq<char>> {
    let parts = dot_segments(token);
    if parts.len() == 3 {
        padded(to_standard_alphabet(parts[1]))
    } else {
        None
    }
}

/// The bytes that standard base64 decoding makes of `s`, if it is valid.
pub uninterp spec fn base64_decoded(s: Seq<char>) -> Option<Seq<u8>>;

/// Whether `b` is the UTF-8 text of one JSON value.
pub uninterp spec fn is_json_bytes(b: Seq<u8>) -> bool;

/// Relies on `base64::read::DecoderReader` with the standard engine, read to
/// the end: the decoded bytes, or `None` where `s` is not valid base64.
#[verifier::external_body]
fn decode_base64(s: &str) -> (r: Option<Vec<u8>>)
    ensures
        r matches Some(b) ==> base64_decoded(s@) == Some(b@),
        r is None ==> base64_decoded(s@) is None,
{
    let mut decoder = base64::read::DecoderReader::new(
        s.as_bytes(),
        &base64::engine::general_purpose::STANDARD,
    );
    let mut out = Vec::new();
    decoder.read_to_end(&mut out).ok().map(|_| out)
}

/// Relies on `serde_json::from_slice::<serde_json::Value>`: a value exactly
/// where the bytes hold one JSON value.
#[verifier::external_body]
fn json_from_bytes(b: &[u8]) -> (r: Option<serde_json::Value>)
    ensures
        r is Some == is_json_bytes(b@),
{
    serde_json::from_slice::<serde_json::Value>(b).ok()
}

/// Whether a text holds one JSON value.
pub uninterp spec fn is_json(s: Seq<char>) -> bool;

/// Relies on `serde_json::from_str::<serde_json::Value>`: a value exactly
/// where the text holds one JSON value.
#[verifier::external_body]
pub(crate) fn json_from_text(s: &str) -> (r: Option<serde_json::Value>)
    ensures
        r is Some == is_json(s@),
{
    serde_json::from_str::<serde_json::Value>(s).ok()
}

/// The error code of a refused token refresh: `None` unless `body` is JSON
/// with an `error` member; then the `code` of that error, else the
/// top-level `code`, else `unknown`.
pub fn refresh_error_code(body: &str) -> (r: Option<String>)
    ensures
        !is_json(body@) ==> r is None,
{
    let json = match json_from_text(body) {
        Some(v) => v,
        None => {
            return None;
        },
    };
    let error = match json_member(&json, "error") {
        Some(e) => e,
        None => {
            return None;
        },
    };
    let code = match json_member(error, "code") {
        Some(c) => Some(c),
        None => json_member(&json, "code"),
    };
    let text = match code {
        Some(c) => json_text(c),
        None => None,
    };
    match text {
        Some(t) => Some(t),
        None => Some(String::from_str("unknown")),
    }
}

/// Relies on `serde_json::Value::get` with a string key: the member `key` of
/// an object.
#[verifier::external_body]
fn json_member<'a>(v: &'a serde_json::Value, key: &str) -> (r: Option<&'a serde_json::Value>) {
    v.get(key)
}

/// Relies on `serde_json::Value::as_str`: the text of a string value.
#[verifier::external_body]
fn json_text(v: &serde_json::Value) -> (r: Option<String>) {
    v.as_str().map(|s| s.to_string())
}

/// Relies on `serde_json::Value::as_i64`: a number that fits in `i64`.
#[verifier::external_body]
fn json_integer(v: &serde_json::Value) -> (r: Option<i64>) {
    v.as_i64()
}

/// The payload text of `token`: see `jwt_payload_text`.
pub fn jwt_payload_base64(token: &str) -> (r: Option<String>)
    ensures
        match r {
            Some(s) => jwt_payload_text(token@) == Some(s@),
            None => jwt_payload_text(token@) is None,
        },
{
    let v = chars_of(token);
    let n = v.len();
    let mut dots: usize = 0;
    let mut first_dot: usize = 0;
    let mut second_dot: usize = 0;
    let mut i: usize = 0;
    while i < n
        invariant
            n == v.len(),
            i <= n,
            dots <= i,
            dots as int + 1 == dot_segments(v@.subrange(0, i as int)).len(),
            dots >= 1 ==> first_dot < i && dot_segments(v@.subrange(0, i as int))[1]
                == v@.subrange(first_dot + 1, if dots >= 2 {
                second_dot as int
            } else {
                i as int
            }),
            dots >= 2 ==> first_dot < second_dot < i,
        decreases n - i,
    {
        let ghost pre = v@.subrange(0, i as int);
        let ghost post = v@.subrange(0, i + 1);
        proof {
            assert(post.drop_last() =~= pre);
            lemma_dot_segments_nonempty(pre);
        }
        if v[i] == '.' {
            if dots == 0 {
                first_dot = i;
            } else if dots == 1 {
                second_dot = i;
            }
            dots = dots + 1;
            proof {
                if dots == 2 {
                    assert(v@.subrange(first_dot + 1, second_dot as int) == dot_segments(pre)[1]);
                }
            }
        } else {
            proof {
                if dots == 1 {
                    assert(v@.subrange(first_dot + 1, i + 1) =~= v@.subrange(first_dot + 1, i as int).push(v@[i as int]));
                }
            }
        }
        i = i + 1;
    }
    assert(v@.subrange(0, n as int) =~= v@);
    if dots != 2 {
        return None;
    }
    let mut t: Vec<char> = Vec::new();
    let mut k: usize = first_dot + 1;
    while k < second_dot
        invariant
            first_dot < second_dot < n == v.len(),
            first_dot + 1 <= k <= second_dot,
            t@ == to_standard_alphabet(v@.subrange(first_dot + 1, k as int)),
        decreases second_dot - k,
    {
        let c = v[k];
        let d = if c == '-' {
            '+'
        } else if c == '_' {
            '/'
        } else {
            c
        };
        t.push(d);
        proof {
            assert(v@.subrange(first_dot + 1, k + 1) =~= v@.subrange(first_dot + 1, k as int).push(c));
            assert(t@ =~= to_standard_alphabet(v@.subrange(first_dot + 1, k + 1)));
        }
        k = k + 1;
    }
    let m = t.len() % 4;
    if m == 1 {
        return None;
    }
    if m == 2 {
        t.push('=');
        t.push('=');
    } else if m == 3 {
        t.push('=');
    }
    Some(crate::text::string_from_chars(&t))
}

/// Decodes the payload of a JSON web token: `None` unless the token has
/// three parts and its middle part is base64url of a JSON text.
pub fn decode_jwt_payload(token: &str) -> (r: Option<serde_json::Value>)
    ensures
        r is Some <==> (jwt_payload_text(token@) matches Some(s) && base64_decoded(s) matches Some(
            b,
        ) && is_json_bytes(b)),
{
    match jwt_payload_base64(token) {
        None => None,
        Some(s) => match decode_base64(s.as_str()) {
            None => None,
            Some(b) => json_from_bytes(b.as_slice()),
        },
    }
}

/// The claims of an identity token that the account list shows.
pub struct TokenClaims {
    pub email: Option<String>,
    pub plan_type: Option<String>,
    pub subscription_end: Option<String>,
    pub expires_at: Option<i64>,
}

/// Reads the claims out of a token payload.
fn claims_of(payload: &serde_json::Value) -> (r: TokenClaims) {
    let email = match json_member(payload, "email") {
        Some(v) => json_text(v),
        None => None,
    };
    let expires_at = match json_member(payload, "exp") {
        Some(v) => json_integer(v),
        None => None,
    };
    let auth = json_member(payload, "https://api.openai.com/auth");
    let (plan_type, subscription_end) = match auth {
        Some(a) => {
            let plan = match json_member(a, "chatgpt_plan_type") {
                Some(v) => json_text(v),
                None => None,
            };
            let until = match json_member(a, "chatgpt_subscription_active_until") {
                Some(v) => json_text(v),
                None => None,
            };
            (plan, until)
        },
        None => (None, None),
    };
    TokenClaims { email, plan_type, subscription_end, expires_at }
}

/// What the account list shows for the claims `c`: e-mail, plan, end of
/// subscription and expiry, with `Unknown` / `unknown` where the token says
/// nothing.
pub open spec fn info_of(c: Option<(Option<Seq<char>>, Option<Seq<char>>, Option<Seq<char>>, Option<i64>)>) -> (
    Seq<char>,
    Seq<char>,
    Option<Seq<char>>,
    Option<i64>,
) {
    match c {
        None => ("Unknown"@, "unknown"@, None, None),
        Some((email, plan, until, exp)) => (
            match email {
                Some(e) => e,
                None => "Unknown"@,
            },
            match plan {
                Some(p) => p,
                None => "unknown"@,
            },
            until,
            exp,
        ),
    }
}

pub open spec fn opt_view(o: Option<String>) -> Option<Seq<char>> {
    match o {
        Some(s) => Some(s@),
        None => None,
    }
}

impl View for TokenClaims {
    type V = (Option<Seq<char>>, Option<Seq<char>>, Option<Seq<char>>, Option<i64>);

    open spec fn view(&self) -> Self::V {
        (opt_view(self.email), opt_view(self.plan_type), opt_view(self.subscription_end), self.expires_at)
    }
}

/// The view of an account summary.
pub open spec fn summary_view(r: (String, String, Option<String>, Option<i64>)) -> (
    Seq<char>,
    Seq<char>,
    Option<Seq<char>>,
    Option<i64>,
) {
    (r.0@, r.1@, opt_view(r.2), r.3)
}

/// The account summary for the claims `claims`, if the token could be read.
pub fn info_from_claims(claims: Option<TokenClaims>) -> (r: (String, String, Option<String>, Option<i64>))
    ensures
        summary_view(r) == info_of(
            match claims {
                Some(c) => Some(c@),
                None => None,
            },
        ),
{
    match claims {
        None => (String::from_str("Unknown"), String::from_str("unknown"), None, None),
        Some(c) => {
            let email = match c.email {
                Some(e) => e,
                None => String::from_str("Unknown"),
            };
            let plan = match c.plan_type {
                Some(p) => p,
                None => String::from_str("unknown"),
            };
            (email, plan, c.subscription_end, c.expires_at)
        },
    }
}

/// E-mail, plan, end of subscription and expiry of the account `auth`, read
/// from its identity token; `Unknown` / `unknown` and nothing else where the
/// token cannot be read.
pub fn extract_info_from_auth(auth: &CodexAuthFile) -> (r: (String, String, Option<String>, Option<i64>))
    ensures
        decode_jwt_payload_fails(auth.tokens.id_token@) ==> summary_view(r) == info_of(None),
        !decode_jwt_payload_fails(auth.tokens.id_token@) ==> exists|c: (
            Option<Seq<char>>,
            Option<Seq<char>>,
            Option<Seq<char>>,
            Option<i64>,
        )| summary_view(r) == info_of(Some(c)),
{
    match decode_jwt_payload(auth.tokens.id_token.as_str()) {
        None => info_from_claims(None),
        Some(payload) => {
            let c = claims_of(&payload);
            let ghost cv = c@;
            let r = info_from_claims(Some(c));
            assert(summary_view(r) == info_of(Some(cv)));
            r
        },
    }
}

/// Whether the identity token `token` cannot be read.
pub open spec fn decode_jwt_payload_fails(token: Seq<char>) -> bool {
    !(jwt_payload_text(token) matches Some(s) && base64_decoded(s) matches Some(b) && is_json_bytes(b))
}

} // verus!
