//! Reading a depth-1 PROPFIND answer: the entries of a remote collection.
//!
//! Servers differ in how they write the multistatus XML, so the body is
//! scanned as text: `href` elements under the `d:`, `D:` or no prefix, a
//! trailing slash or a nearby `collection` marker for sub-collections.
use vstd::prelude::*;
use crate::text::{
    chars_of, contains_seq, contains_within, find_from, first_occurrence, is_first_from, lemma_first_unique, occurs_at,
    slice_string,
    strip_trailing, without_trailing,
};

verus! {

/// One child of a remote collection.
pub struct RemoteEntry {
    /// Percent-decoded last path segment.
    pub name: String,
    pub is_collection: bool,
}

impl View for RemoteEntry {
    type V = (Seq<char>, bool);

    open spec fn view(&self) -> (Seq<char>, bool) {
        (self.name@, self.is_collection)
    }
}

/// The views of a sequence of entries.
pub open spec fn entry_views(s: Seq<RemoteEntry>) -> Seq<(Seq<char>, bool)> {
    s.map_values(|e: RemoteEntry| e@)
}

/// What percent-decoding makes of `s` (UTF-8); `s` itself where the decoded
/// bytes are not UTF-8.
pub uninterp spec fn url_decoded(s: Seq<char>) -> Seq<char>;

/// Relies on `urlencoding::decode`: `%XX` sequences become bytes, read as
/// UTF-8; a text without `%` comes back unchanged. Where the bytes are not
/// UTF-8 the text is kept as it was.
#[verifier::external_body]
fn percent_decode(s: &str) -> (r: String)
    ensures
        r@ == url_decoded(s@),
        (forall|i: int| 0 <= i < s@.len() ==> s@[i] != '%') ==> r@ == s@,
{
    match urlencoding::decode(s) {
        Ok(d) => d.into_owned(),
        Err(_) => s.to_string(),
    }
}

/// How far after an `href` a `collection` marker still counts for it.
pub const MARKER_WINDOW: usize = 500;

/// The opening `href` tag of pass `k`.
pub open spec fn href_open(k: int) -> Seq<char> {
    if k == 0 {
        "<d:href>"@
    } else if k == 1 {
        "<D:href>"@
    } else {
        "<href>"@
    }
}

/// The closing `href` tag of pass `k`.
pub open spec fn href_close(k: int) -> Seq<char> {
    if k == 0 {
        "</d:href>"@
    } else if k == 1 {
        "</D:href>"@
    } else {
        "</href>"@
    }
}

/// The bounds `(a, e)` of the text of each `href` element that a scan for
/// `open` ... `close` finds from `pos` on, in order.
pub open spec fn hrefs_from(body: Seq<char>, open: Seq<char>, close: Seq<char>, pos: int) -> Seq<
    (int, int),
>
    decreases body.len() - pos,
{
    if 0 <= pos <= body.len() && open.len() > 0 {
        match first_occurrence(body, open, pos) {
            Some(i) => {
                let a = i + open.len();
                match first_occurrence(body, close, a) {
                    Some(e) => if pos < e <= body.len() {
                        seq![(a, e)] + hrefs_from(body, open, close, e)
                    } else {
                        seq![]
                    },
                    None => seq![],
                }
            },
            None => seq![],
        }
    } else {
        seq![]
    }
}

/// The last `/`-separated segment of `s`.
pub open spec fn last_segment(s: Seq<char>) -> Seq<char>
    decreases s.len(),
{
    if s.len() == 0 {
        s
    } else if s.last() == '/' {
        seq![]
    } else {
        last_segment(s.drop_last()).push(s.last())
    }
}

/// Whether the text after an `href` marks the entry as a collection.
pub open spec fn has_collection_marker(w: Seq<char>) -> bool {
    contains_seq(w, "<d:collection"@) || contains_seq(w, "<D:collection"@) || contains_seq(
        w,
        "<collection"@,
    )
}

/// The entry that the `href` text at `a..e` stands for, if it is kept: a
/// visible, non-empty name, a collection when the decoded text ends with `/`
/// or a marker follows within the window.
pub open spec fn href_entry(body: Seq<char>, a: int, e: int) -> Option<(Seq<char>, bool)> {
    let decoded = url_decoded(body.subrange(a, e));
    let name = last_segment(strip_trailing(decoded, '/'));
    if name.len() > 0 && name[0] != '.' {
        let end = if body.len() - a > MARKER_WINDOW {
            a + MARKER_WINDOW
        } else {
            body.len() as int
        };
        let dir = has_collection_marker(body.subrange(a, end)) || (decoded.len() > 0
            && decoded.last() == '/');
        Some((name, dir))
    } else {
        None
    }
}

/// Some entry of `s` has the name `name`.
pub open spec fn has_name(s: Seq<(Seq<char>, bool)>, name: Seq<char>) -> bool {
    exists|i: int| 0 <= i < s.len() && (#[trigger] s[i]).0 == name
}

/// `acc` with the entry of the `href` at `h`, unless it is skipped or its
/// name is already there.
pub open spec fn add_href(acc: Seq<(Seq<char>, bool)>, body: Seq<char>, h: (int, int)) -> Seq<
    (Seq<char>, bool),
> {
    match href_entry(body, h.0, h.1) {
        Some(en) => if has_name(acc, en.0) {
            acc
        } else {
            acc.push(en)
        },
        None => acc,
    }
}

/// `acc` with the entries of the `href`s `hs`, in order.
pub open spec fn add_hrefs(acc: Seq<(Seq<char>, bool)>, body: Seq<char>, hs: Seq<(int, int)>) -> Seq<
    (Seq<char>, bool),
>
    decreases hs.len(),
{
    if hs.len() == 0 {
        acc
    } else {
        add_href(add_hrefs(acc, body, hs.drop_last()), body, hs.last())
    }
}

/// `acc` with the entries that pass `k` finds; the first `href` of a pass
/// is the collection itself and is skipped.
pub open spec fn listing_pass(acc: Seq<(Seq<char>, bool)>, body: Seq<char>, k: int) -> Seq<
    (Seq<char>, bool),
> {
    let hs = hrefs_from(body, href_open(k), href_close(k), 0);
    if hs.len() == 0 {
        acc
    } else {
        add_hrefs(acc, body, hs.drop_first())
    }
}

/// The entries of a collection, as its depth-1 PROPFIND body lists them.
pub open spec fn listing_of(body: Seq<char>) -> Seq<(Seq<char>, bool)> {
    listing_pass(listing_pass(listing_pass(seq![], body, 0), body, 1), body, 2)
}

/// The name that the `href` at `h` gives its entry.
pub open spec fn href_name(body: Seq<char>, h: (int, int)) -> Seq<char> {
    last_segment(strip_trailing(url_decoded(body.subrange(h.0, h.1)), '/'))
}

/// Children with distinct visible names give one entry each: folding the
/// `href`s `hs` into an empty listing yields exactly `hs.len()` entries, the
/// `i`-th named after the `i`-th `href`.
pub proof fn lemma_distinct_children_all_listed(body: Seq<char>, hs: Seq<(int, int)>)
    requires
        forall|i: int|
            0 <= i < hs.len() ==> (#[trigger] href_entry(body, hs[i].0, hs[i].1)) is Some,
        forall|i: int, j: int|
            0 <= i < j < hs.len() ==> href_name(body, #[trigger] hs[i]) != href_name(
                body,
                #[trigger] hs[j],
            ),
    ensures
        add_hrefs(seq![], body, hs).len() == hs.len(),
        forall|i: int|
            0 <= i < hs.len() ==> (#[trigger] add_hrefs(seq![], body, hs)[i]).0 == href_name(
                body,
                hs[i],
            ),
    decreases hs.len(),
{
    if hs.len() > 0 {
        let init = hs.drop_last();
        assert forall|i: int| 0 <= i < init.len() implies (#[trigger] href_entry(
            body,
            init[i].0,
            init[i].1,
        )) is Some by {
            assert(init[i] == hs[i]);
        }
        assert forall|i: int, j: int| 0 <= i < j < init.len() implies href_name(
            body,
            #[trigger] init[i],
        ) != href_name(body, #[trigger] init[j]) by {
            assert(init[i] == hs[i] && init[j] == hs[j]);
        }
        lemma_distinct_children_all_listed(body, init);
        let acc = add_hrefs(seq![], body, init);
        let last = hs.last();
        assert(href_entry(body, hs[hs.len() - 1].0, hs[hs.len() - 1].1) is Some);
        let en = href_entry(body, last.0, last.1)->0;
        assert(en.0 == href_name(body, last));
        assert(!has_name(acc, en.0)) by {
            if has_name(acc, en.0) {
                let k = choose|k: int| 0 <= k < acc.len() && (#[trigger] acc[k]).0 == en.0;
                assert(acc[k].0 == href_name(body, init[k]));
                assert(init[k] == hs[k]);
                assert(href_name(body, hs[k]) != href_name(body, hs[hs.len() - 1]));
            }
        }
        assert forall|i: int| 0 <= i < hs.len() implies (#[trigger] add_hrefs(
            seq![],
            body,
            hs,
        )[i]).0 == href_name(body, hs[i]) by {
            if i < hs.len() - 1 {
                assert(add_hrefs(seq![], body, hs)[i] == acc[i]);
                assert(init[i] == hs[i]);
            }
        }
    }
}

/// One `response` element of a depth-1 PROPFIND body, for `href`.
pub open spec fn response_of(href: Seq<char>) -> Seq<char> {
    "<d:response><d:href>"@ + href + "</d:href></d:response>"@
}

/// A multistatus body that lists `hrefs`, one response each, in order.
pub open spec fn multistatus_body(hrefs: Seq<Seq<char>>) -> Seq<char>
    decreases hrefs.len(),
{
    if hrefs.len() == 0 {
        seq![]
    } else {
        response_of(hrefs[0]) + multistatus_body(hrefs.drop_first())
    }
}

/// The name that a listing gives the child at `href`.
pub open spec fn child_name(href: Seq<char>) -> Seq<char> {
    last_segment(strip_trailing(url_decoded(href), '/'))
}

/// `s` with every position moved by `d`.
pub open spec fn shifted(s: Seq<(int, int)>, d: int) -> Seq<(int, int)> {
    s.map_values(|h: (int, int)| (h.0 + d, h.1 + d))
}

proof fn lemma_occurs_shift(x: Seq<char>, y: Seq<char>, pat: Seq<char>, j: int)
    requires
        j >= 0,
    ensures
        occurs_at(x + y, pat, x.len() + j) == occurs_at(y, pat, j),
{
    if j + pat.len() <= y.len() {
        assert((x + y).subrange(x.len() + j, x.len() + j + pat.len()) =~= y.subrange(
            j,
            j + pat.len(),
        ));
    }
}

proof fn lemma_first_shift(x: Seq<char>, y: Seq<char>, pat: Seq<char>, p: int)
    requires
        0 <= p,
    ensures
        first_occurrence(x + y, pat, x.len() + p) == match first_occurrence(y, pat, p) {
            Some(i) => Some(i + x.len()),
            None => None,
        },
{
    let s = x + y;
    let d = x.len() as int;
    let q = d + p;
    assert forall|j: int| j >= 0 implies #[trigger] occurs_at(s, pat, d + j) == occurs_at(
        y,
        pat,
        j,
    ) by {
        lemma_occurs_shift(x, y, pat, j);
    }
    if exists|i: int| is_first_from(y, pat, p, i) {
        let i = choose|i: int| is_first_from(y, pat, p, i);
        assert(occurs_at(s, pat, d + i));
        assert forall|j: int| q <= j < d + i implies !#[trigger] occurs_at(s, pat, j) by {
            assert(occurs_at(s, pat, d + (j - d)) == occurs_at(y, pat, j - d));
            assert(!occurs_at(y, pat, j - d));
        }
        assert(is_first_from(s, pat, q, d + i));
        let c = choose|c: int| is_first_from(s, pat, q, c);
        if c < d + i {
            assert(!occurs_at(s, pat, c));
        } else if c > d + i {
            assert(!occurs_at(s, pat, d + i));
        }
    } else {
        if exists|c: int| is_first_from(s, pat, q, c) {
            let c = choose|c: int| is_first_from(s, pat, q, c);
            assert(occurs_at(y, pat, c - d)) by {
                assert(occurs_at(s, pat, d + (c - d)) == occurs_at(y, pat, c - d));
            }
            assert forall|j: int| p <= j < c - d implies !#[trigger] occurs_at(y, pat, j) by {
                assert(occurs_at(s, pat, d + j) == occurs_at(y, pat, j));
                assert(!occurs_at(s, pat, d + j));
            }
            assert(is_first_from(y, pat, p, c - d));
        }
    }
}

proof fn lemma_hrefs_shift(x: Seq<char>, y: Seq<char>, open: Seq<char>, close: Seq<char>, p: int)
    requires
        0 <= p <= y.len(),
        open.len() > 0,
    ensures
        hrefs_from(x + y, open, close, x.len() + p) == shifted(hrefs_from(y, open, close, p), x.len() as int),
    decreases y.len() - p,
{
    let s = x + y;
    let d = x.len() as int;
    lemma_first_shift(x, y, open, p);
    match first_occurrence(y, open, p) {
        Some(i) => {
            let a = i + open.len();
            let i_ch = choose|c: int| is_first_from(y, open, p, c);
            assert(is_first_from(y, open, p, i));
            assert(a >= 0);
            lemma_first_shift(x, y, close, a);
            match first_occurrence(y, close, a) {
                Some(e) => {
                    if p < e <= y.len() {
                        lemma_hrefs_shift(x, y, open, close, e);
                        assert(shifted(seq![(a, e)] + hrefs_from(y, open, close, e), d) =~= seq![
                            (a + d, e + d),
                        ] + shifted(hrefs_from(y, open, close, e), d));
                    } else {
                        assert(shifted(seq![], d) =~= seq![]);
                    }
                },
                None => {
                    assert(shifted(seq![], d) =~= seq![]);
                },
            }
        },
        None => {
            assert(shifted(seq![], d) =~= seq![]);
        },
    }
}

proof fn lemma_literals()
    ensures
        "<d:response><d:href>"@ =~= seq![
            '<', 'd', ':', 'r', 'e', 's', 'p', 'o', 'n', 's', 'e', '>', '<', 'd', ':', 'h', 'r', 'e',
            'f', '>',
        ],
        "</d:href></d:response>"@ =~= seq![
            '<', '/', 'd', ':', 'h', 'r', 'e', 'f', '>', '<', '/', 'd', ':', 'r', 'e', 's', 'p', 'o',
            'n', 's', 'e', '>',
        ],
        href_open(0) =~= seq!['<', 'd', ':', 'h', 'r', 'e', 'f', '>'],
        href_close(0) =~= seq!['<', '/', 'd', ':', 'h', 'r', 'e', 'f', '>'],
        href_open(1) =~= seq!['<', 'D', ':', 'h', 'r', 'e', 'f', '>'],
        href_open(2) =~= seq!['<', 'h', 'r', 'e', 'f', '>'],
{
    reveal_strlit("<d:response><d:href>");
    reveal_strlit("</d:href></d:response>");
    reveal_strlit("<d:href>");
    reveal_strlit("</d:href>");
    reveal_strlit("<D:href>");
    reveal_strlit("<href>");
}

/// No `<` in `h`.
pub open spec fn tag_free(h: Seq<char>) -> bool {
    forall|j: int| 0 <= j < h.len() ==> h[j] != '<'
}

/// Every `<` of a response is followed by `d` or `/`.
proof fn lemma_response_tags(h: Seq<char>, y: Seq<char>, j: int)
    requires
        tag_free(h),
        0 <= j < response_of(h).len(),
        (response_of(h) + y)[j] == '<',
    ensures
        j + 1 < response_of(h).len(),
        (response_of(h) + y)[j + 1] == 'd' || (response_of(h) + y)[j + 1] == '/',
        j < 12 ==> j == 0 && (response_of(h) + y)[j + 3] == 'r',
        20 + h.len() <= j ==> (response_of(h) + y)[j + 1] == '/',
        20 <= j ==> j >= 20 + h.len(),
{
    lemma_literals();
    let l1 = "<d:response><d:href>"@;
    let l2 = "</d:href></d:response>"@;
    let b = response_of(h) + y;
    let n = h.len() as int;
    assert(response_of(h).len() == 42 + n);
    if j < 20 {
        assert(b[j] == l1[j]);
        assert(b[j + 1] == l1[j + 1] || j == 19);
        if j < 12 {
            assert(b[j + 3] == l1[j + 3]);
        }
    } else if j < 20 + n {
        assert(b[j] == h[j - 20]);
    } else {
        assert(b[j] == l2[j - 20 - n]);
        if j + 1 < 42 + n {
            assert(b[j + 1] == l2[j + 1 - 20 - n]);
        }
    }
}

/// A body of responses has no tag that starts `<` and then neither `d`
/// nor `/`.
proof fn lemma_no_other_tags(hrefs: Seq<Seq<char>>, pat: Seq<char>)
    requires
        forall|i: int| 0 <= i < hrefs.len() ==> tag_free(#[trigger] hrefs[i]),
        pat.len() >= 2,
        pat[0] == '<',
        pat[1] != 'd' && pat[1] != '/',
    ensures
        forall|j: int| !#[trigger] occurs_at(multistatus_body(hrefs), pat, j),
    decreases hrefs.len(),
{
    if hrefs.len() > 0 {
        let rest = hrefs.drop_first();
        assert forall|i: int| 0 <= i < rest.len() implies tag_free(#[trigger] rest[i]) by {
            assert(rest[i] == hrefs[i + 1]);
        }
        lemma_no_other_tags(rest, pat);
        let x = response_of(hrefs[0]);
        let y = multistatus_body(rest);
        let b = x + y;
        assert(tag_free(hrefs[0]));
        assert forall|j: int| !#[trigger] occurs_at(b, pat, j) by {
            if occurs_at(b, pat, j) {
                assert(b.subrange(j, j + pat.len())[0] == pat[0]);
                assert(b.subrange(j, j + pat.len())[1] == pat[1]);
                if j < x.len() {
                    lemma_response_tags(hrefs[0], y, j);
                } else {
                    lemma_occurs_shift(x, y, pat, j - x.len());
                }
            }
        }
    }
}

/// Where the scan meets the tags of the first response of `x + y`.
proof fn lemma_response_scan(h: Seq<char>, y: Seq<char>)
    requires
        tag_free(h),
    ensures
        ({
            let b = response_of(h) + y;
            &&& first_occurrence(b, href_open(0), 0) == Some(12int)
            &&& first_occurrence(b, href_close(0), 20) == Some(20 + h.len() as int)
            &&& forall|j: int|
                20 + h.len() <= j < response_of(h).len() ==> !#[trigger] occurs_at(
                    b,
                    href_open(0),
                    j,
                )
            &&& b.subrange(20, 20 + h.len() as int) == h
            &&& response_of(h).len() == 42 + h.len()
        }),
{
    lemma_literals();
    let open = href_open(0);
    let close = href_close(0);
    let x = response_of(h);
    let b = x + y;
    let n = h.len() as int;
    let e0 = 20 + n;
    assert(x.len() == 42 + n);
    assert(b.subrange(12, 20) =~= open) by {
        assert forall|k: int| 0 <= k < 8 implies b.subrange(12, 20)[k] == open[k] by {
            assert(b[12 + k] == "<d:response><d:href>"@[12 + k]);
        }
    }
    assert forall|j: int| 0 <= j < 12 implies !#[trigger] occurs_at(b, open, j) by {
        if occurs_at(b, open, j) {
            assert(b.subrange(j, j + 8)[0] == open[0]);
            assert(b.subrange(j, j + 8)[3] == open[3]);
            lemma_response_tags(h, y, j);
        }
    }
    assert(is_first_from(b, open, 0, 12));
    let c0 = choose|c: int| is_first_from(b, open, 0, c);
    lemma_first_unique(b, open, 0, 12, c0);
    assert(b.subrange(e0, e0 + 9) =~= close) by {
        assert forall|k: int| 0 <= k < 9 implies b.subrange(e0, e0 + 9)[k] == close[k] by {
            assert(b[e0 + k] == "</d:href></d:response>"@[k]);
        }
    }
    assert forall|j: int| 20 <= j < e0 implies !#[trigger] occurs_at(b, close, j) by {
        if occurs_at(b, close, j) {
            assert(b.subrange(j, j + 9)[0] == close[0]);
            assert(b[j] == h[j - 20]);
        }
    }
    assert(is_first_from(b, close, 20, e0));
    let c1 = choose|c: int| is_first_from(b, close, 20, c);
    lemma_first_unique(b, close, 20, e0, c1);
    assert forall|j: int| e0 <= j < x.len() implies !#[trigger] occurs_at(b, open, j) by {
        if occurs_at(b, open, j) {
            assert(b.subrange(j, j + 8)[0] == open[0]);
            assert(b.subrange(j, j + 8)[1] == open[1]);
            lemma_response_tags(h, y, j);
        }
    }
    assert(b.subrange(20, e0) =~= h) by {
        assert forall|k: int| 0 <= k < n implies b.subrange(20, e0)[k] == h[k] by {
            assert(b[20 + k] == x[20 + k]);
        }
    }
}

/// The `d:href` scan of a body of responses finds each `href`, in order.
proof fn lemma_scan_positions(hrefs: Seq<Seq<char>>)
    requires
        forall|i: int| 0 <= i < hrefs.len() ==> tag_free(#[trigger] hrefs[i]),
    ensures
        ({
            let b = multistatus_body(hrefs);
            let hs = hrefs_from(b, href_open(0), href_close(0), 0);
            &&& hs.len() == hrefs.len()
            &&& forall|i: int|
                0 <= i < hs.len() ==> 0 <= (#[trigger] hs[i]).0 <= hs[i].1 <= b.len()
                    && b.subrange(hs[i].0, hs[i].1) == hrefs[i]
        }),
    decreases hrefs.len(),
{
    let open = href_open(0);
    let close = href_close(0);
    let b = multistatus_body(hrefs);
    assert(open.len() == 8) by {
        lemma_literals();
    }
    if hrefs.len() == 0 {
        assert(first_occurrence(b, open, 0) is None) by {
            if exists|i: int| is_first_from(b, open, 0, i) {
                let i = choose|i: int| is_first_from(b, open, 0, i);
                assert(occurs_at(b, open, i));
            }
        }
    } else {
        let h = hrefs[0];
        let rest = hrefs.drop_first();
        assert forall|i: int| 0 <= i < rest.len() implies tag_free(#[trigger] rest[i]) by {
            assert(rest[i] == hrefs[i + 1]);
        }
        lemma_scan_positions(rest);
        let x = response_of(h);
        let y = multistatus_body(rest);
        assert(b == x + y);
        assert(tag_free(h));
        lemma_response_scan(h, y);
        let e0: int = 20 + h.len() as int;
        let bl = x.len() as int;
        lemma_same_scan(b, open, close, e0, bl);
        lemma_hrefs_shift(x, y, open, close, 0);
        let tail = hrefs_from(y, open, close, 0);
        let hs = hrefs_from(b, open, close, 0);
        assert(hs == seq![(20int, e0)] + hrefs_from(b, open, close, e0));
        assert(hs == seq![(20int, e0)] + shifted(tail, bl));
        assert forall|i: int| 0 <= i < hs.len() implies 0 <= (#[trigger] hs[i]).0 <= hs[i].1
            <= b.len() && b.subrange(hs[i].0, hs[i].1) == hrefs[i] by {
            if i > 0 {
                let t = tail[i - 1];
                assert(hs[i] == (t.0 + bl, t.1 + bl));
                assert(b.subrange(t.0 + bl, t.1 + bl) =~= y.subrange(t.0, t.1));
                assert(rest[i - 1] == hrefs[i]);
            }
        }
    }
}

/// A scan that starts where nothing opens before `q` finds what a scan from
/// `q` finds.
proof fn lemma_same_scan(b: Seq<char>, open: Seq<char>, close: Seq<char>, p: int, q: int)
    requires
        0 <= p <= q <= b.len(),
        open.len() > 0,
        forall|j: int| p <= j < q ==> !#[trigger] occurs_at(b, open, j),
    ensures
        hrefs_from(b, open, close, p) == hrefs_from(b, open, close, q),
        first_occurrence(b, open, p) == first_occurrence(b, open, q),
{
    if exists|i: int| is_first_from(b, open, q, i) {
        let i = choose|i: int| is_first_from(b, open, q, i);
        assert(is_first_from(b, open, p, i));
        let c = choose|c: int| is_first_from(b, open, p, c);
        lemma_first_unique(b, open, p, i, c);
    } else if exists|c: int| is_first_from(b, open, p, c) {
        let c = choose|c: int| is_first_from(b, open, p, c);
        assert(occurs_at(b, open, c));
        assert(c >= q);
        assert(is_first_from(b, open, q, c));
    }
}

/// A depth-1 PROPFIND body that lists the collection itself and then
/// children with distinct, visible names yields exactly one entry per child,
/// each named after its decoded `href`, in order.
pub proof fn lemma_listing_counts_children(hrefs: Seq<Seq<char>>)
    requires
        hrefs.len() >= 1,
        forall|i: int| 0 <= i < hrefs.len() ==> tag_free(#[trigger] hrefs[i]),
        forall|i: int|
            1 <= i < hrefs.len() ==> (#[trigger] child_name(hrefs[i])).len() > 0 && child_name(
                hrefs[i],
            )[0] != '.',
        forall|i: int, j: int|
            1 <= i < j < hrefs.len() ==> child_name(#[trigger] hrefs[i]) != child_name(
                #[trigger] hrefs[j],
            ),
    ensures
        listing_of(multistatus_body(hrefs)).len() == hrefs.len() - 1,
        forall|i: int|
            0 <= i < hrefs.len() - 1 ==> (#[trigger] listing_of(multistatus_body(hrefs))[i]).0
                == child_name(hrefs[i + 1]),
{
    lemma_literals();
    let b = multistatus_body(hrefs);
    lemma_scan_positions(hrefs);
    let hs = hrefs_from(b, href_open(0), href_close(0), 0);
    let kids = hs.drop_first();
    assert forall|i: int| 0 <= i < kids.len() implies href_name(b, #[trigger] kids[i]) == child_name(
        hrefs[i + 1],
    ) by {
        assert(kids[i] == hs[i + 1]);
    }
    assert forall|i: int| 0 <= i < kids.len() implies (#[trigger] href_entry(
        b,
        kids[i].0,
        kids[i].1,
    )) is Some by {
        assert(kids[i] == hs[i + 1]);
        assert(child_name(hrefs[i + 1]).len() > 0);
    }
    assert forall|i: int, j: int| 0 <= i < j < kids.len() implies href_name(
        b,
        #[trigger] kids[i],
    ) != href_name(b, #[trigger] kids[j]) by {
        assert(child_name(hrefs[i + 1]) != child_name(hrefs[j + 1]));
    }
    lemma_distinct_children_all_listed(b, kids);
    let acc = add_hrefs(seq![], b, kids);
    lemma_no_other_tags(hrefs, href_open(1));
    lemma_no_other_tags(hrefs, href_open(2));
    assert(hrefs_from(b, href_open(1), href_close(1), 0).len() == 0) by {
        if exists|i: int| is_first_from(b, href_open(1), 0, i) {
            let i = choose|i: int| is_first_from(b, href_open(1), 0, i);
            assert(occurs_at(b, href_open(1), i));
        }
    }
    assert(hrefs_from(b, href_open(2), href_close(2), 0).len() == 0) by {
        if exists|i: int| is_first_from(b, href_open(2), 0, i) {
            let i = choose|i: int| is_first_from(b, href_open(2), 0, i);
            assert(occurs_at(b, href_open(2), i));
        }
    }
    assert(listing_of(b) == acc);
}

/// The tags of pass `k`.
fn href_tags(k: usize) -> (r: (Vec<char>, Vec<char>))
    requires
        k < 3,
    ensures
        r.0@ == href_open(k as int),
        r.1@ == href_close(k as int),
        r.0.len() > 0,
        r.1.len() > 0,
{
    proof {
        reveal_strlit("<d:href>");
        reveal_strlit("</d:href>");
        reveal_strlit("<D:href>");
        reveal_strlit("</D:href>");
        reveal_strlit("<href>");
        reveal_strlit("</href>");
    }
    if k == 0 {
        (chars_of("<d:href>"), chars_of("</d:href>"))
    } else if k == 1 {
        (chars_of("<D:href>"), chars_of("</D:href>"))
    } else {
        (chars_of("<href>"), chars_of("</href>"))
    }
}

/// Where the last `/`-separated segment of `w` starts.
fn last_segment_start(w: &Vec<char>) -> (j: usize)
    ensures
        j <= w.len(),
        w@.subrange(j as int, w.len() as int) == last_segment(w@),
{
    let n = w.len();
    let mut j: usize = n;
    assert(w@.subrange(0, n as int) =~= w@);
    assert(w@.subrange(n as int, n as int) =~= Seq::<char>::empty());
    while j > 0 && w[j - 1] != '/'
        invariant
            j <= n == w.len(),
            last_segment(w@) == last_segment(w@.subrange(0, j as int)) + w@.subrange(
                j as int,
                n as int,
            ),
        decreases j,
    {
        let ghost p = w@.subrange(0, j as int);
        proof {
            assert(p.drop_last() =~= w@.subrange(0, j - 1));
            assert(p.last() == w@[j - 1]);
            assert(last_segment(p) == last_segment(w@.subrange(0, j - 1)).push(w@[j - 1]));
            assert(last_segment(w@.subrange(0, j - 1)).push(w@[j - 1]) + w@.subrange(
                j as int,
                n as int,
            ) =~= last_segment(w@.subrange(0, j - 1)) + w@.subrange(j - 1, n as int));
        }
        j = j - 1;
    }
    proof {
        let p = w@.subrange(0, j as int);
        if j > 0 {
            assert(p.last() == w@[j - 1]);
        }
        assert(last_segment(p) =~= Seq::<char>::empty());
        assert(last_segment(w@) =~= w@.subrange(j as int, n as int));
    }
    j
}

/// Whether a collection marker occurs in `v[lo..hi]`.
fn marker_within(v: &Vec<char>, lo: usize, hi: usize) -> (r: bool)
    requires
        lo <= hi <= v.len(),
    ensures
        r == has_collection_marker(v@.subrange(lo as int, hi as int)),
{
    proof {
        reveal_strlit("<d:collection");
        reveal_strlit("<D:collection");
        reveal_strlit("<collection");
    }
    let m1 = chars_of("<d:collection");
    let m2 = chars_of("<D:collection");
    let m3 = chars_of("<collection");
    contains_within(v, &m1, lo, hi) || contains_within(v, &m2, lo, hi) || contains_within(
        v,
        &m3,
        lo,
        hi,
    )
}

/// The entry that the `href` text at `a..e` of `v` stands for, if kept.
fn entry_of_href(v: &Vec<char>, a: usize, e: usize) -> (r: Option<RemoteEntry>)
    requires
        a <= e <= v.len(),
    ensures
        match r {
            Some(en) => href_entry(v@, a as int, e as int) == Some(en@),
            None => href_entry(v@, a as int, e as int) is None,
        },
{
    let raw = slice_string(v, a, e);
    let decoded = percent_decode(raw.as_str());
    let stripped = chars_of(without_trailing(decoded.as_str(), '/').as_str());
    let j = last_segment_start(&stripped);
    let n = stripped.len();
    if j < n && stripped[j] != '.' {
        let name = slice_string(&stripped, j, n);
        let end = if v.len() - a > MARKER_WINDOW {
            a + MARKER_WINDOW
        } else {
            v.len()
        };
        let dv = chars_of(decoded.as_str());
        let slash_end = dv.len() > 0 && dv[dv.len() - 1] == '/';
        let dir = marker_within(v, a, end) || slash_end;
        Some(RemoteEntry { name, is_collection: dir })
    } else {
        None
    }
}

/// Adds `en` to `entries` unless an entry of that name is already there.
fn add_unique(entries: &mut Vec<RemoteEntry>, en: RemoteEntry)
    ensures
        entry_views(final(entries)@) == if has_name(entry_views(old(entries)@), en@.0) {
            entry_views(old(entries)@)
        } else {
            entry_views(old(entries)@).push(en@)
        },
{
    let ghost old_views = entry_views(entries@);
    let mut i: usize = 0;
    while i < entries.len()
        invariant
            entries@ == old(entries)@,
            old_views == entry_views(entries@),
            i <= entries.len(),
            forall|t: int| 0 <= t < i ==> (#[trigger] old_views[t]).0 != en@.0,
        decreases entries.len() - i,
    {
        if entries[i].name == en.name {
            proof {
                assert(old_views[i as int].0 == en@.0);
            }
            return;
        }
        i = i + 1;
    }
    proof {
        assert(!has_name(old_views, en@.0));
    }
    entries.push(en);
    proof {
        assert(entry_views(entries@) =~= old_views.push(en@));
    }
}

/// Runs pass `k` of the scan over `v`, adding what it finds to `entries`.
fn scan_pass(v: &Vec<char>, k: usize, entries: &mut Vec<RemoteEntry>)
    requires
        k < 3,
    ensures
        entry_views(final(entries)@) == listing_pass(entry_views(old(entries)@), v@, k as int),
{
    let (open, close) = href_tags(k);
    let ghost start = entry_views(entries@);
    let ghost whole = hrefs_from(v@, open@, close@, 0);
    let ghost mut seen: Seq<(int, int)> = seq![];
    let mut pos: usize = 0;
    let mut first = true;
    assert(whole =~= seen + hrefs_from(v@, open@, close@, 0));
    loop
        invariant
            open@ == href_open(k as int),
            close@ == href_close(k as int),
            open.len() > 0,
            close.len() > 0,
            pos <= v.len(),
            whole == hrefs_from(v@, open@, close@, 0),
            whole == seen + hrefs_from(v@, open@, close@, pos as int),
            first <==> seen.len() == 0,
            entry_views(entries@) == if seen.len() == 0 {
                start
            } else {
                add_hrefs(start, v@, seen.drop_first())
            },
        ensures
            hrefs_from(v@, open@, close@, pos as int).len() == 0,
            whole == seen + hrefs_from(v@, open@, close@, pos as int),
            first <==> seen.len() == 0,
            entry_views(entries@) == if seen.len() == 0 {
                start
            } else {
                add_hrefs(start, v@, seen.drop_first())
            },
        decreases v.len() - pos,
    {
        let found = find_from(v, &open, pos);
        match found {
            None => {
                break ;
            },
            Some(i) => {
                let a = i + open.len();
                let found_end = find_from(v, &close, a);
                match found_end {
                    None => {
                        break ;
                    },
                    Some(e) => {
                        let ghost rest = hrefs_from(v@, open@, close@, e as int);
                        assert(hrefs_from(v@, open@, close@, pos as int) == seq![
                            (a as int, e as int),
                        ] + rest);
                        if first {
                            first = false;
                        } else {
                            let en = entry_of_href(v, a, e);
                            match en {
                                Some(en) => add_unique(entries, en),
                                None => {},
                            }
                        }
                        proof {
                            let old_seen = seen;
                            seen = seen.push((a as int, e as int));
                            assert(whole =~= seen + rest);
                            if old_seen.len() > 0 {
                                assert(seen.drop_first().drop_last() =~= old_seen.drop_first());
                            }
                        }
                        pos = e;
                    },
                }
            },
        }
    }
    proof {
        assert(whole =~= seen);
    }
}

/// The entries of a remote collection, read from the body of its depth-1
/// PROPFIND answer: decoded names, the collection itself and hidden names
/// left out, each name once, in the order found.
pub fn parse_listing(body: &str) -> (r: Vec<RemoteEntry>)
    ensures
        entry_views(r@) == listing_of(body@),
{
    let v = chars_of(body);
    let mut entries: Vec<RemoteEntry> = Vec::new();
    assert(entry_views(entries@) =~= seq![]);
    scan_pass(&v, 0, &mut entries);
    scan_pass(&v, 1, &mut entries);
    scan_pass(&v, 2, &mut entries);
    entries
}

/// `s` ends with `.json`.
pub open spec fn is_json_name(s: Seq<char>) -> bool {
    s.len() >= 5 && s.subrange(s.len() - 5, s.len() as int) == ".json"@
}

/// The file name that the `href` text at `a..e` stands for in an accounts
/// listing, if it names a visible `.json` file.
pub open spec fn json_href_name(body: Seq<char>, a: int, e: int) -> Option<Seq<char>> {
    let name = last_segment(url_decoded(body.subrange(a, e)));
    if is_json_name(name) && name[0] != '.' {
        Some(name)
    } else {
        None
    }
}

/// `acc` with the names of the `href`s `hs` that name `.json` files, each
/// name once.
pub open spec fn add_json_hrefs(acc: Seq<Seq<char>>, body: Seq<char>, hs: Seq<(int, int)>) -> Seq<
    Seq<char>,
>
    decreases hs.len(),
{
    if hs.len() == 0 {
        acc
    } else {
        let before = add_json_hrefs(acc, body, hs.drop_last());
        match json_href_name(body, hs.last().0, hs.last().1) {
            Some(n) => if before.contains(n) {
                before
            } else {
                before.push(n)
            },
            None => before,
        }
    }
}

/// The `.json` file names of an accounts collection, as its PROPFIND body
/// lists them.
pub open spec fn json_names_of(body: Seq<char>) -> Seq<Seq<char>> {
    let lower = add_json_hrefs(seq![], body, hrefs_from(body, href_open(0), href_close(0), 0));
    let upper = add_json_hrefs(lower, body, hrefs_from(body, href_open(1), href_close(1), 0));
    add_json_hrefs(upper, body, hrefs_from(body, href_open(2), href_close(2), 0))
}

/// The views of a sequence of strings.
pub open spec fn string_views(s: Seq<String>) -> Seq<Seq<char>> {
    s.map_values(|x: String| x@)
}

/// Whether `w` ends with `.json`.
fn ends_with_json(w: &Vec<char>) -> (r: bool)
    ensures
        r == is_json_name(w@),
{
    proof {
        reveal_strlit(".json");
    }
    let n = w.len();
    if n < 5 {
        return false;
    }
    let r = w[n - 5] == '.' && w[n - 4] == 'j' && w[n - 3] == 's' && w[n - 2] == 'o' && w[n - 1]
        == 'n';
    proof {
        let sub = w@.subrange(n - 5, n as int);
        let lit = ".json"@;
        assert(lit =~= seq!['.', 'j', 's', 'o', 'n']);
        if r {
            assert(sub =~= lit);
        } else if sub == lit {
            assert(sub[0] == w@[n - 5] && sub[1] == w@[n - 4] && sub[2] == w@[n - 3] && sub[3]
                == w@[n - 2] && sub[4] == w@[n - 1]);
        }
    }
    r
}

/// Adds `name` to `names` unless it is already there.
fn add_unique_name(names: &mut Vec<String>, name: String)
    ensures
        string_views(final(names)@) == if string_views(old(names)@).contains(name@) {
            string_views(old(names)@)
        } else {
            string_views(old(names)@).push(name@)
        },
{
    let ghost old_views = string_views(names@);
    let mut i: usize = 0;
    while i < names.len()
        invariant
            names@ == old(names)@,
            old_views == string_views(names@),
            i <= names.len(),
            forall|t: int| 0 <= t < i ==> #[trigger] old_views[t] != name@,
        decreases names.len() - i,
    {
        if names[i] == name {
            proof {
                assert(old_views[i as int] == name@);
            }
            return;
        }
        i = i + 1;
    }
    proof {
        assert(!old_views.contains(name@));
    }
    names.push(name);
    proof {
        assert(string_views(names@) =~= old_views.push(name@));
    }
}

/// Runs pass `k` of the accounts scan over `v`, adding to `names`.
fn scan_json_pass(v: &Vec<char>, k: usize, names: &mut Vec<String>)
    requires
        k < 3,
    ensures
        string_views(final(names)@) == add_json_hrefs(
            string_views(old(names)@),
            v@,
            hrefs_from(v@, href_open(k as int), href_close(k as int), 0),
        ),
{
    let (open, close) = href_tags(k);
    let ghost start = string_views(names@);
    let ghost whole = hrefs_from(v@, open@, close@, 0);
    let ghost mut seen: Seq<(int, int)> = seq![];
    let mut pos: usize = 0;
    assert(whole =~= seen + hrefs_from(v@, open@, close@, 0));
    loop
        invariant
            open@ == href_open(k as int),
            close@ == href_close(k as int),
            open.len() > 0,
            close.len() > 0,
            pos <= v.len(),
            whole == hrefs_from(v@, open@, close@, 0),
            whole == seen + hrefs_from(v@, open@, close@, pos as int),
            string_views(names@) == add_json_hrefs(start, v@, seen),
        ensures
            hrefs_from(v@, open@, close@, pos as int).len() == 0,
            whole == seen + hrefs_from(v@, open@, close@, pos as int),
            string_views(names@) == add_json_hrefs(start, v@, seen),
        decreases v.len() - pos,
    {
        let found = find_from(v, &open, pos);
        match found {
            None => {
                break ;
            },
            Some(i) => {
                let a = i + open.len();
                let found_end = find_from(v, &close, a);
                match found_end {
                    None => {
                        break ;
                    },
                    Some(e) => {
                        let ghost rest = hrefs_from(v@, open@, close@, e as int);
                        assert(hrefs_from(v@, open@, close@, pos as int) == seq![
                            (a as int, e as int),
                        ] + rest);
                        let raw = slice_string(v, a, e);
                        let decoded = chars_of(percent_decode(raw.as_str()).as_str());
                        let j = last_segment_start(&decoded);
                        let n = decoded.len();
                        let name = slice_string(&decoded, j, n);
                        let name_chars = chars_of(name.as_str());
                        if ends_with_json(&name_chars) && name_chars[0] != '.' {
                            add_unique_name(names, name);
                        }
                        proof {
                            assert(name@ == last_segment(url_decoded(v@.subrange(a as int, e as int))));
                            let old_seen = seen;
                            seen = seen.push((a as int, e as int));
                            assert(whole =~= seen + rest);
                            assert(seen.drop_last() =~= old_seen);
                        }
                        pos = e;
                    },
                }
            },
        }
    }
    proof {
        assert(whole =~= seen);
    }
}

/// The `.json` file names of an accounts collection, read from the body of
/// its depth-1 PROPFIND answer: decoded last segments, each name once, in the
/// order found.
pub fn parse_json_names(body: &str) -> (r: Vec<String>)
    ensures
        string_views(r@) == json_names_of(body@),
{
    let v = chars_of(body);
    let mut names: Vec<String> = Vec::new();
    assert(string_views(names@) =~= seq![]);
    scan_json_pass(&v, 0, &mut names);
    scan_json_pass(&v, 1, &mut names);
    scan_json_pass(&v, 2, &mut names);
    names
}

} // verus!
