//! Remote endpoints: path normalisation and the URLs of collections and items.
use vstd::prelude::*;
use crate::text::{
    chars_of, concat, is_space, slice_string, strip_bounds, strip_leading, strip_trailing, trim,
    trim_bounds, without_trailing,
};

verus! {

/// Where a sync run reads and writes on the server.
pub struct WebDavConfig {
    pub url: String,
    pub username: String,
    pub password: String,
    /// A collection path on the server; normalised whenever a URL is built.
    pub remote_path: String,
}

/// What percent-encoding makes of `s`.
pub uninterp spec fn url_encoded(s: Seq<char>) -> Seq<char>;

/// A character that percent-encoding leaves as it is.
pub open spec fn is_unreserved(c: char) -> bool {
    ('a' <= c <= 'z') || ('A' <= c <= 'Z') || ('0' <= c <= '9') || c == '-' || c == '_' || c
        == '.' || c == '~'
}

/// Relies on `urlencoding::encode`: every byte of the UTF-8 form of `s` but
/// ASCII letters, digits and `-`, `_`, `.`, `~` becomes `%XX`; a text made of
/// those characters only comes back unchanged.
#[verifier::external_body]
fn percent_encode(s: &str) -> (r: String)
    ensures
        r@ == url_encoded(s@),
        (forall|i: int| 0 <= i < s@.len() ==> is_unreserved(#[trigger] s@[i])) ==> r@ == s@,
{
    urlencoding::encode(s).into_owned()
}

/// The part of a remote path between its outer slashes, whitespace trimmed.
pub open spec fn path_core(p: Seq<char>) -> Seq<char> {
    strip_trailing(strip_leading(trim(p), '/'), '/')
}

/// A remote path with exactly one leading and one trailing `/`.
pub open spec fn normalized(p: Seq<char>) -> Seq<char> {
    let c = path_core(p);
    if c.len() == 0 {
        seq!['/']
    } else {
        seq!['/'] + c + seq!['/']
    }
}

/// A base URL without its trailing slashes.
pub open spec fn base_of(url: Seq<char>) -> Seq<char> {
    strip_trailing(url, '/')
}

/// URL of the collection `remote_path` (PROPFIND).
pub open spec fn collection_url_of(url: Seq<char>, remote_path: Seq<char>) -> Seq<char> {
    base_of(url) + normalized(remote_path)
}

/// URL of the item `name` in the collection `remote_path` (PUT, GET).
pub open spec fn item_url_of(url: Seq<char>, remote_path: Seq<char>, name: Seq<char>) -> Seq<char> {
    base_of(url) + normalized(remote_path) + url_encoded(name)
}

/// URL that creates the collection `remote_path` (MKCOL): no trailing slash.
pub open spec fn mkcol_url_of(url: Seq<char>, remote_path: Seq<char>) -> Seq<char> {
    base_of(url) + strip_trailing(normalized(remote_path), '/')
}

/// Normalises a remote path: whitespace trimmed, exactly one leading and one
/// trailing `/`.
pub fn normalize_remote_path(path: &str) -> (r: String)
    ensures
        r@ == normalized(path@),
{
    let v = chars_of(path);
    let (lo, hi) = trim_bounds(&v);
    let (a, b) = strip_bounds(&v, lo, hi, '/');
    proof {
        reveal_strlit("/");
    }
    if a == b {
        String::from_str("/")
    } else {
        let core = slice_string(&v, a, b);
        let with_lead = concat("/", core.as_str());
        concat(with_lead.as_str(), "/")
    }
}

/// `remote_path` with the sub-collection `name` appended.
pub fn child_path(remote_path: &str, name: &str) -> (r: String)
    ensures
        r@ == remote_path@ + name@ + seq!['/'],
{
    proof {
        reveal_strlit("/");
    }
    let a = concat(remote_path, name);
    concat(a.as_str(), "/")
}

/// URL of the collection `remote_path` on the server at `url`.
pub fn collection_url(url: &str, remote_path: &str) -> (r: String)
    ensures
        r@ == collection_url_of(url@, remote_path@),
{
    let base = without_trailing(url, '/');
    let path = normalize_remote_path(remote_path);
    concat(base.as_str(), path.as_str())
}

/// URL of the item `name` of the collection `remote_path` on the server at
/// `url`; the name is percent-encoded.
pub fn item_url(url: &str, remote_path: &str, name: &str) -> (r: String)
    ensures
        r@ == item_url_of(url@, remote_path@, name@),
{
    let dir = collection_url(url, remote_path);
    let enc = percent_encode(name);
    concat(dir.as_str(), enc.as_str())
}

/// URL that a MKCOL for the collection `remote_path` is sent to.
pub fn mkcol_url(url: &str, remote_path: &str) -> (r: String)
    ensures
        r@ == mkcol_url_of(url@, remote_path@),
{
    let base = without_trailing(url, '/');
    let path = normalize_remote_path(remote_path);
    let path = without_trailing(path.as_str(), '/');
    concat(base.as_str(), path.as_str())
}

proof fn lemma_strip_leading_shape(s: Seq<char>, c: char)
    ensures
        strip_leading(s, c).len() > 0 ==> strip_leading(s, c)[0] != c,
    decreases s.len(),
{
    if s.len() > 0 && s[0] == c {
        lemma_strip_leading_shape(s.drop_first(), c);
    }
}

proof fn lemma_strip_trailing_shape(s: Seq<char>, c: char)
    ensures
        strip_trailing(s, c).len() <= s.len(),
        strip_trailing(s, c) == s.subrange(0, strip_trailing(s, c).len() as int),
        strip_trailing(s, c).len() > 0 ==> strip_trailing(s, c).last() != c,
    decreases s.len(),
{
    if s.len() > 0 && s.last() == c {
        lemma_strip_trailing_shape(s.drop_last(), c);
        let r = strip_trailing(s.drop_last(), c);
        assert(s.drop_last().subrange(0, r.len() as int) =~= s.subrange(0, r.len() as int));
    } else {
        assert(s.subrange(0, s.len() as int) =~= s);
    }
}

proof fn lemma_trim_keeps(s: Seq<char>)
    requires
        s.len() > 0,
        !is_space(s[0]),
        !is_space(s.last()),
    ensures
        trim(s) == s,
{
}

/// A normalised path starts and ends with exactly one `/`: the root is
/// `/`, any other path has something else right inside both slashes.
pub proof fn lemma_normalized_shape(p: Seq<char>)
    ensures
        normalized(p).len() >= 1,
        normalized(p)[0] == '/',
        normalized(p).last() == '/',
        normalized(p).len() > 1 ==> normalized(p).len() >= 3 && normalized(p)[1] != '/'
            && normalized(p)[normalized(p).len() - 2] != '/',
{
    let c = path_core(p);
    if c.len() > 0 {
        lemma_strip_leading_shape(trim(p), '/');
        lemma_strip_trailing_shape(strip_leading(trim(p), '/'), '/');
        let n = normalized(p);
        assert(n[1] == c[0]);
        assert(n[n.len() - 2] == c.last());
    }
}

/// Normalising a path that is already normal leaves it as it is.
pub proof fn lemma_normalize_idempotent(p: Seq<char>)
    ensures
        normalized(normalized(p)) == normalized(p),
{
    let c = path_core(p);
    let n = normalized(p);
    let slash = seq!['/'];
    if c.len() == 0 {
        lemma_trim_keeps(n);
        assert(strip_leading(n, '/') == strip_leading(n.drop_first(), '/'));
        assert(n.drop_first().len() == 0);
    } else {
        lemma_strip_leading_shape(trim(p), '/');
        lemma_strip_trailing_shape(strip_leading(trim(p), '/'), '/');
        assert(c[0] != '/');
        assert(c.last() != '/');
        lemma_trim_keeps(n);
        assert(n.drop_first() =~= c + slash);
        assert(strip_leading(n, '/') == strip_leading(c + slash, '/'));
        assert((c + slash)[0] == c[0]);
        assert(strip_leading(c + slash, '/') == c + slash);
        assert((c + slash).drop_last() =~= c);
        assert(strip_trailing(c + slash, '/') == strip_trailing(c, '/'));
        assert(path_core(n) == c);
    }
}

} // verus!
