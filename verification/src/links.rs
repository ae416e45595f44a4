//! Link detection and host rewriting.
//!
//! The engine scans free-form message text (UTF-8 bytes) for URLs, keeps
//! those whose host belongs to a fixed family of hostnames, and can splice
//! host-rewritten URLs back into the text at their original byte spans.
use vstd::prelude::*;
use vstd::string::StrSliceExecFns;
use vstd::string::StringSliceAdditionalSpecFns;

use crate::text::bytes_eq;
use crate::text::bytes_range;
use crate::text::splice_bytes;

verus! {

// ------------------------------------------------------------------
// Host tables
// ------------------------------------------------------------------
pub open spec fn twitter_host() -> Seq<u8> {
    "twitter.com".spec_bytes()
}

pub open spec fn mobile_twitter_host() -> Seq<u8> {
    "mobile.twitter.com".spec_bytes()
}

pub open spec fn x_host() -> Seq<u8> {
    "x.com".spec_bytes()
}

pub open spec fn mobile_x_host() -> Seq<u8> {
    "mobile.x.com".spec_bytes()
}

pub open spec fn fxtwitter_host() -> Seq<u8> {
    "fxtwitter.com".spec_bytes()
}

pub open spec fn fixupx_host() -> Seq<u8> {
    "fixupx.com".spec_bytes()
}

pub open spec fn threads_host() -> Seq<u8> {
    "threads.net".spec_bytes()
}

pub open spec fn www_threads_host() -> Seq<u8> {
    "www.threads.net".spec_bytes()
}

/// The two families of hostnames the bot recognises: one for the
/// Twitter-rewrite command and one for the Threads-expand command.
#[derive(Clone, Copy, PartialEq, Eq, Structural)]
pub enum LinkFamily {
    Twitter,
    Threads,
}

/// Whether `host` belongs to the allow-list of `family`.
pub open spec fn family_contains(family: LinkFamily, host: Seq<u8>) -> bool {
    match family {
        LinkFamily::Twitter => host == twitter_host() || host == mobile_twitter_host() || host
            == x_host() || host == mobile_x_host(),
        LinkFamily::Threads => host == threads_host() || host == www_threads_host(),
    }
}

/// The rewrite table for the Twitter family: the embed-friendly host that
/// replaces `host`. A host outside the table falls back to the default
/// replacement.
pub open spec fn replacement_host(host: Seq<u8>) -> Seq<u8> {
    if host == twitter_host() {
        fxtwitter_host()
    } else if host == mobile_twitter_host() {
        fxtwitter_host()
    } else if host == x_host() {
        fixupx_host()
    } else if host == mobile_x_host() {
        fixupx_host()
    } else {
        fxtwitter_host()
    }
}

fn twitter_host_vec() -> (r: Vec<u8>)
    ensures
        r@ == twitter_host(),
{
    "twitter.com".as_bytes_vec()
}

fn mobile_twitter_host_vec() -> (r: Vec<u8>)
    ensures
        r@ == mobile_twitter_host(),
{
    "mobile.twitter.com".as_bytes_vec()
}

fn x_host_vec() -> (r: Vec<u8>)
    ensures
        r@ == x_host(),
{
    "x.com".as_bytes_vec()
}

fn mobile_x_host_vec() -> (r: Vec<u8>)
    ensures
        r@ == mobile_x_host(),
{
    "mobile.x.com".as_bytes_vec()
}

fn fxtwitter_host_vec() -> (r: Vec<u8>)
    ensures
        r@ == fxtwitter_host(),
{
    "fxtwitter.com".as_bytes_vec()
}

fn fixupx_host_vec() -> (r: Vec<u8>)
    ensures
        r@ == fixupx_host(),
{
    "fixupx.com".as_bytes_vec()
}

fn threads_host_vec() -> (r: Vec<u8>)
    ensures
        r@ == threads_host(),
{
    "threads.net".as_bytes_vec()
}

fn www_threads_host_vec() -> (r: Vec<u8>)
    ensures
        r@ == www_threads_host(),
{
    "www.threads.net".as_bytes_vec()
}

/// Whether `host` is on the allow-list of `family`.
pub fn host_in_family(host: &[u8], family: LinkFamily) -> (r: bool)
    ensures
        r == family_contains(family, host@),
{
    match family {
        LinkFamily::Twitter => {
            let tw = twitter_host_vec();
            let mtw = mobile_twitter_host_vec();
            let x = x_host_vec();
            let mx = mobile_x_host_vec();
            bytes_eq(host, tw.as_slice()) || bytes_eq(host, mtw.as_slice()) || bytes_eq(
                host,
                x.as_slice(),
            ) || bytes_eq(host, mx.as_slice())
        },
        LinkFamily::Threads => {
            let th = threads_host_vec();
            let wth = www_threads_host_vec();
            bytes_eq(host, th.as_slice()) || bytes_eq(host, wth.as_slice())
        },
    }
}

/// The embed-friendly host that replaces `host`, per the rewrite table.
pub fn replacement_host_for(host: &[u8]) -> (r: Vec<u8>)
    ensures
        r@ == replacement_host(host@),
{
    let tw = twitter_host_vec();
    let mtw = mobile_twitter_host_vec();
    let x = x_host_vec();
    let mx = mobile_x_host_vec();
    if bytes_eq(host, tw.as_slice()) {
        fxtwitter_host_vec()
    } else if bytes_eq(host, mtw.as_slice()) {
        fxtwitter_host_vec()
    } else if bytes_eq(host, x.as_slice()) {
        fixupx_host_vec()
    } else if bytes_eq(host, mx.as_slice()) {
        fixupx_host_vec()
    } else {
        fxtwitter_host_vec()
    }
}

// ------------------------------------------------------------------
// Trusted boundary: linkify and url
// ------------------------------------------------------------------
/// The byte spans, in order of appearance, at which linkify's URL scanner
/// finds a URL in `text` (empty when `text` is not valid UTF-8).
pub uninterp spec fn url_spans(text: Seq<u8>) -> Seq<(int, int)>;

/// Relies on linkify's `LinkFinder::links` restricted to `LinkKind::Url`:
/// the scanner walks the text left to right and each link's byte span lies
/// within the text, is non-empty, and starts at or after the end of the
/// previous link.
#[verifier::external_body]
fn find_url_spans(text: &[u8]) -> (r: Vec<(usize, usize)>)
    ensures
        r@.map_values(|p: (usize, usize)| (p.0 as int, p.1 as int)) == url_spans(text@),
        forall|i: int| 0 <= i < r@.len() ==> (#[trigger] r@[i]).0 < r@[i].1 <= text@.len(),
        forall|i: int, j: int| 0 <= i < j < r@.len() ==> (#[trigger] r@[i]).1 <= (#[trigger] r@[j]).0,
{
    let Ok(s) = std::str::from_utf8(text) else { return Vec::new() };
    let mut finder = linkify::LinkFinder::new();
    finder.kinds(&[linkify::LinkKind::Url]);
    finder.links(s).map(|l| (l.start(), l.end())).collect()
}

/// The host of the URL that the url crate parses out of `s`: `None` when
/// `s` does not parse as a URL or the URL has no host.
pub uninterp spec fn url_host(s: Seq<u8>) -> Option<Seq<u8>>;

/// The url crate's normalized serialization of the URL parsed from `s`:
/// `None` when `s` does not parse as a URL.
pub uninterp spec fn url_normal_form(s: Seq<u8>) -> Option<Seq<u8>>;

/// Relies on `url::Url::parse`, `Url::host_str` and `Url::as_str`: parsing
/// is a pure function of the input text, `as_str` returns the normalized
/// serialization, and `host_str` the host part, if any.
#[verifier::external_body]
fn parse_url(s: &[u8]) -> (r: Option<(Vec<u8>, Option<Vec<u8>>)>)
    ensures
        r is None ==> url_normal_form(s@) is None && url_host(s@) is None,
        r matches Some(p) ==> url_normal_form(s@) == Some(p.0@),
        r matches Some(p) && p.1 matches Some(h) ==> url_host(s@) == Some(h@),
        r matches Some(p) && p.1 is None ==> url_host(s@) is None,
{
    let text = std::str::from_utf8(s).ok()?;
    let u = url::Url::parse(text).ok()?;
    let host = u.host_str().map(|h| h.as_bytes().to_vec());
    Some((u.as_str().as_bytes().to_vec(), host))
}

/// The url crate's serialization of the URL parsed from `s` after its host
/// is replaced by `new_host`: `None` when `s` does not parse or the host
/// cannot be set.
pub uninterp spec fn url_host_rewrite(s: Seq<u8>, new_host: Seq<u8>) -> Option<Seq<u8>>;

/// Relies on `url::Url::parse`, `Url::set_host` and `Url::as_str`: all are
/// pure functions of the URL text and the new host.
#[verifier::external_body]
fn rewrite_url_host(s: &[u8], new_host: &[u8]) -> (r: Option<Vec<u8>>)
    ensures
        r is Some <==> url_host_rewrite(s@, new_host@) is Some,
        r matches Some(v) ==> url_host_rewrite(s@, new_host@) == Some(v@),
{
    let text = std::str::from_utf8(s).ok()?;
    let host = std::str::from_utf8(new_host).ok()?;
    let mut u = url::Url::parse(text).ok()?;
    u.set_host(Some(host)).ok()?;
    Some(u.as_str().as_bytes().to_vec())
}

// ------------------------------------------------------------------
// Matches
// ------------------------------------------------------------------
/// A URL found in message text: its byte span there, the url crate's
/// normalized form of it, and its host.
pub struct LinkMatch {
    pub start: usize,
    pub end: usize,
    pub url: Vec<u8>,
    pub host: Vec<u8>,
}

/// The spans of `ms` are within a text of length `n`, ordered by position,
/// and pairwise non-overlapping.
pub open spec fn spans_wf(ms: Seq<LinkMatch>, n: int) -> bool {
    &&& forall|i: int|
        0 <= i < ms.len() ==> (#[trigger] ms[i]).start <= ms[i].end && ms[i].end <= n
    &&& forall|i: int, j: int|
        0 <= i < j < ms.len() ==> (#[trigger] ms[i]).end <= (#[trigger] ms[j]).start
}

/// A span of `text` is kept for `family` when the text under it parses as
/// a URL whose host is on the family's allow-list.
pub open spec fn keeps(text: Seq<u8>, sp: (int, int), family: LinkFamily) -> bool {
    url_host(text.subrange(sp.0, sp.1)) matches Some(h) && family_contains(family, h)
}

/// The spans of `spans` that are kept for `family`, in order.
pub open spec fn selected_spans(
    text: Seq<u8>,
    spans: Seq<(int, int)>,
    family: LinkFamily,
) -> Seq<(int, int)>
    decreases spans.len(),
{
    if spans.len() == 0 {
        Seq::empty()
    } else {
        selected_spans(text, spans.drop_last(), family) + (if keeps(text, spans.last(), family) {
            seq![spans.last()]
        } else {
            Seq::empty()
        })
    }
}

/// The spans of the links of `family` found in `text`.
pub open spec fn found_spans(text: Seq<u8>, family: LinkFamily) -> Seq<(int, int)> {
    selected_spans(text, url_spans(text), family)
}

/// Everything `find_links` promises of its result `r` on `text`.
pub open spec fn find_links_post(text: Seq<u8>, family: LinkFamily, r: Seq<LinkMatch>) -> bool {
    &&& r.map_values(|m: LinkMatch| (m.start as int, m.end as int)) == found_spans(text, family)
    &&& forall|i: int|
        0 <= i < r.len() ==> {
            let sub = text.subrange((#[trigger] r[i]).start as int, r[i].end as int);
            &&& r[i].start < r[i].end
            &&& r[i].end <= text.len()
            &&& url_host(sub) == Some(r[i].host@)
            &&& url_normal_form(sub) == Some(r[i].url@)
            &&& family_contains(family, r[i].host@)
        }
    &&& spans_wf(r, text.len() as int)
}

/// Scan `text` for URLs and keep those whose host is on the allow-list of
/// `family`, each with the byte span it occupies in `text`. Order of
/// appearance is preserved; malformed or foreign links are dropped.
pub fn find_links(text: &[u8], family: LinkFamily) -> (r: Vec<LinkMatch>)
    ensures
        find_links_post(text@, family, r@),
{
    let spans = find_url_spans(text);
    let ghost gspans: Seq<(int, int)> = spans@.map_values(
        |p: (usize, usize)| (p.0 as int, p.1 as int),
    );
    let mut r: Vec<LinkMatch> = Vec::new();
    let mut i: usize = 0;
    proof {
        assert(gspans.take(0) =~= Seq::<(int, int)>::empty());
        assert(r@.map_values(|m: LinkMatch| (m.start as int, m.end as int)) =~= Seq::<(
            int,
            int,
        )>::empty());
    }
    while i < spans.len()
        invariant
            0 <= i <= spans@.len(),
            gspans == spans@.map_values(|p: (usize, usize)| (p.0 as int, p.1 as int)),
            gspans == url_spans(text@),
            forall|k: int| 0 <= k < spans@.len() ==> (#[trigger] spans@[k]).0 < spans@[k].1
                && spans@[k].1 <= text@.len(),
            forall|k: int, l: int|
                0 <= k < l < spans@.len() ==> (#[trigger] spans@[k]).1 <= (#[trigger] spans@[l]).0,
            r@.map_values(|m: LinkMatch| (m.start as int, m.end as int)) == selected_spans(
                text@,
                gspans.take(i as int),
                family,
            ),
            forall|a: int|
                0 <= a < r@.len() ==> {
                    let sub = text@.subrange((#[trigger] r@[a]).start as int, r@[a].end as int);
                    &&& r@[a].start < r@[a].end
                    &&& r@[a].end <= text@.len()
                    &&& url_host(sub) == Some(r@[a].host@)
                    &&& url_normal_form(sub) == Some(r@[a].url@)
                    &&& family_contains(family, r@[a].host@)
                },
            forall|a: int, b: int|
                0 <= a < b < r@.len() ==> (#[trigger] r@[a]).end <= (#[trigger] r@[b]).start,
            forall|a: int|
                0 <= a < r@.len() && i < spans@.len() ==> (#[trigger] r@[a]).end <= spans@[
                    i as int
                ].0,
        decreases spans@.len() - i,
    {
        let (s, e) = spans[i];
        let sub = bytes_range(text, s, e);
        let ghost prev = r@;
        let ghost prev_map = r@.map_values(|m: LinkMatch| (m.start as int, m.end as int));
        match parse_url(sub.as_slice()) {
            Some((normal, host_opt)) => {
                match host_opt {
                    Some(host) => {
                        if host_in_family(host.as_slice(), family) {
                            assert(keeps(text@, gspans[i as int], family));
                            r.push(LinkMatch { start: s, end: e, url: normal, host });
                            proof {
                                assert(r@.map_values(|m: LinkMatch| (m.start as int, m.end as int))
                                    =~= prev_map + seq![gspans[i as int]]);
                            }
                        } else {
                            assert(!keeps(text@, gspans[i as int], family));
                        }
                    },
                    None => {
                        assert(!keeps(text@, gspans[i as int], family));
                    },
                }
            },
            None => {
                assert(!keeps(text@, gspans[i as int], family));
            },
        }
        proof {
            assert(gspans.take(i + 1).drop_last() =~= gspans.take(i as int));
            assert(gspans.take(i + 1).last() == gspans[i as int]);
            assert(selected_spans(text@, gspans.take(i + 1), family) == selected_spans(
                text@,
                gspans.take(i as int),
                family,
            ) + (if keeps(text@, gspans.take(i + 1).last(), family) {
                seq![gspans.take(i + 1).last()]
            } else {
                Seq::<(int, int)>::empty()
            }));
            if !keeps(text@, gspans[i as int], family) {
                assert(r@ == prev);
                assert(r@.map_values(|m: LinkMatch| (m.start as int, m.end as int)) =~= prev_map
                    + Seq::<(int, int)>::empty());
            }
        }
        i += 1;
    }
    proof {
        assert(gspans.take(spans@.len() as int) =~= gspans);
    }
    r
}

/// The URLs of `family` found in `message_content`, with their spans.
pub fn parse_twitter_links_inner(message_content: &[u8]) -> (r: Vec<LinkMatch>)
    ensures
        find_links_post(message_content@, LinkFamily::Twitter, r@),
{
    find_links(message_content, LinkFamily::Twitter)
}

// ------------------------------------------------------------------
// Rewriting
// ------------------------------------------------------------------
/// What the span of `m` is replaced by: the url crate's serialization of
/// the span's URL with its host replaced per the rewrite table, or the
/// span unchanged when the rewrite fails.
pub open spec fn rewritten_span(text: Seq<u8>, m: LinkMatch) -> Seq<u8> {
    let sub = text.subrange(m.start as int, m.end as int);
    match url_host_rewrite(sub, replacement_host(m.host@)) {
        Some(v) => v,
        None => sub,
    }
}

/// Where the untouched stretch of text after the spans of `ms[..i]` ends:
/// the start of span `i`, or the end of the text after the last span.
pub open spec fn next_start(text: Seq<u8>, ms: Seq<LinkMatch>, i: int) -> int {
    if i < ms.len() {
        ms[i].start as int
    } else {
        text.len() as int
    }
}

/// The tail of the rewritten text from span `i` on: the replacement of
/// span `i`, the untouched text up to span `i + 1`, and so on.
pub open spec fn rewritten_from(text: Seq<u8>, ms: Seq<LinkMatch>, i: int) -> Seq<u8>
    decreases ms.len() - i,
{
    if 0 <= i < ms.len() {
        rewritten_span(text, ms[i]) + text.subrange(ms[i].end as int, next_start(text, ms, i + 1))
            + rewritten_from(text, ms, i + 1)
    } else {
        Seq::empty()
    }
}

/// The whole rewritten text: every span of `ms` replaced, every byte
/// outside the spans preserved verbatim, in order.
pub open spec fn rewritten(text: Seq<u8>, ms: Seq<LinkMatch>) -> Seq<u8> {
    text.subrange(0, next_start(text, ms, 0)) + rewritten_from(text, ms, 0)
}

/// Replace each matched span of `original_message` by its rewritten URL,
/// splicing in reverse span order (highest start first) so that earlier
/// offsets stay valid; a span whose URL cannot take the new host is left
/// unchanged.
pub fn fix_twitter_links_in_place(original_message: Vec<u8>, twitter_links: Vec<LinkMatch>) -> (r:
    Vec<u8>)
    requires
        spans_wf(twitter_links@, original_message@.len() as int),
    ensures
        r@ == rewritten(original_message@, twitter_links@),
{
    let ghost text = original_message@;
    let ghost ms = twitter_links@;
    let mut result = original_message;
    let mut i: usize = twitter_links.len();
    proof {
        assert(rewritten_from(text, ms, i as int) =~= Seq::<u8>::empty());
        assert(result@ =~= text.subrange(0, next_start(text, ms, i as int)) + rewritten_from(
            text,
            ms,
            i as int,
        ));
    }
    while i > 0
        invariant
            0 <= i <= ms.len(),
            ms == twitter_links@,
            spans_wf(ms, text.len() as int),
            result@ == text.subrange(0, next_start(text, ms, i as int)) + rewritten_from(
                text,
                ms,
                i as int,
            ),
        decreases i,
    {
        let idx = i - 1;
        let start = twitter_links[idx].start;
        let end = twitter_links[idx].end;
        let ghost ns = next_start(text, ms, i as int);
        proof {
            assert(ms[idx as int].start == start && ms[idx as int].end == end);
            assert(start <= end && end <= text.len());
            if (i as int) < ms.len() {
                assert(ms[idx as int].end <= ms[i as int].start);
            }
            assert(end <= ns && ns <= text.len());
            assert(result@.len() == ns + rewritten_from(text, ms, i as int).len());
            assert(result@.subrange(start as int, end as int) =~= text.subrange(
                start as int,
                end as int,
            ));
        }
        let sub = bytes_range(result.as_slice(), start, end);
        let new_host = replacement_host_for(twitter_links[idx].host.as_slice());
        let rep_opt = rewrite_url_host(sub.as_slice(), new_host.as_slice());
        let rep: Vec<u8> = match rep_opt {
            Some(v) => v,
            None => sub,
        };
        proof {
            assert(rep@ == rewritten_span(text, ms[idx as int]));
        }
        let spliced = splice_bytes(&result, start, end, &rep);
        proof {
            assert(spliced@ == result@.subrange(0, start as int) + rep@ + result@.subrange(
                end as int,
                result@.len() as int,
            ));
            assert(result@.subrange(0, start as int) =~= text.subrange(0, start as int));
            assert(result@.subrange(end as int, result@.len() as int) =~= text.subrange(
                end as int,
                ns,
            ) + rewritten_from(text, ms, i as int));
            assert(next_start(text, ms, idx as int) == start as int);
            assert(rewritten_from(text, ms, idx as int) == rewritten_span(text, ms[idx as int])
                + text.subrange(ms[idx as int].end as int, next_start(text, ms, idx + 1))
                + rewritten_from(text, ms, idx + 1));
            assert(spliced@ =~= text.subrange(0, next_start(text, ms, idx as int))
                + rewritten_from(text, ms, idx as int));
        }
        result = spliced;
        i = idx;
    }
    proof {
        assert(next_start(text, ms, 0) == next_start(text, ms, i as int));
    }
    result
}

// ------------------------------------------------------------------
// Laws of rewriting
// ------------------------------------------------------------------
/// Where the untouched stretch of text before span `k` begins.
pub open spec fn gap_lo(text: Seq<u8>, ms: Seq<LinkMatch>, k: int) -> int {
    if k == 0 {
        0
    } else {
        ms[k - 1].end as int
    }
}

/// The untouched stretch of text between span `k - 1` and span `k` (before
/// span 0 for `k == 0`, after the last span for `k == ms.len()`).
pub open spec fn gap(text: Seq<u8>, ms: Seq<LinkMatch>, k: int) -> Seq<u8> {
    text.subrange(gap_lo(text, ms, k), next_start(text, ms, k))
}

/// The rewritten text up to (excluding) the untouched stretch before span
/// `k`: gaps and replacements of the spans before `k`, alternating.
pub open spec fn built(text: Seq<u8>, ms: Seq<LinkMatch>, k: int) -> Seq<u8>
    decreases k,
{
    if k <= 0 {
        Seq::empty()
    } else {
        built(text, ms, k - 1) + gap(text, ms, k - 1) + rewritten_span(text, ms[k - 1])
    }
}

/// The rewritten text decomposes, at every span index `k`, into what was
/// built so far, the untouched gap before span `k`, and the rewritten tail
/// from span `k` on. In particular every stretch of text outside the
/// matched spans appears verbatim in the result, in order.
pub proof fn lemma_rewrite_decomposition(text: Seq<u8>, ms: Seq<LinkMatch>, k: int)
    requires
        spans_wf(ms, text.len() as int),
        0 <= k <= ms.len(),
    ensures
        rewritten(text, ms) == built(text, ms, k) + gap(text, ms, k) + rewritten_from(text, ms, k),
    decreases k,
{
    if k == 0 {
        assert(gap(text, ms, 0) == text.subrange(0, next_start(text, ms, 0)));
        assert(rewritten(text, ms) =~= built(text, ms, 0) + gap(text, ms, 0) + rewritten_from(
            text,
            ms,
            0,
        ));
    } else {
        lemma_rewrite_decomposition(text, ms, k - 1);
        assert(rewritten_from(text, ms, k - 1) == rewritten_span(text, ms[k - 1]) + text.subrange(
            ms[k - 1].end as int,
            next_start(text, ms, k),
        ) + rewritten_from(text, ms, k));
        assert(text.subrange(ms[k - 1].end as int, next_start(text, ms, k)) == gap(text, ms, k));
        assert(built(text, ms, k) == built(text, ms, k - 1) + gap(text, ms, k - 1) + rewritten_span(
            text,
            ms[k - 1],
        ));
        assert(built(text, ms, k - 1) + gap(text, ms, k - 1) + rewritten_from(text, ms, k - 1)
            =~= built(text, ms, k) + gap(text, ms, k) + rewritten_from(text, ms, k));
    }
}

/// Every byte outside the matched spans is left unchanged: byte `d` of the
/// untouched gap before span `k` reappears in the rewritten text right
/// after what was built for the spans before `k`.
pub proof fn lemma_rewrite_preserves_outside(text: Seq<u8>, ms: Seq<LinkMatch>, k: int, d: int)
    requires
        spans_wf(ms, text.len() as int),
        0 <= k <= ms.len(),
        0 <= d < gap(text, ms, k).len(),
    ensures
        rewritten(text, ms)[built(text, ms, k).len() + d] == text[gap_lo(text, ms, k) + d],
{
    lemma_rewrite_decomposition(text, ms, k);
    assert(rewritten(text, ms)[built(text, ms, k).len() + d] == gap(text, ms, k)[d]);
}

/// Every matched span is replaced: span `k`'s replacement appears in the
/// rewritten text right after the gap that precedes it.
pub proof fn lemma_rewrite_replaces_span(text: Seq<u8>, ms: Seq<LinkMatch>, k: int)
    requires
        spans_wf(ms, text.len() as int),
        0 <= k < ms.len(),
    ensures
        ({
            let off = built(text, ms, k).len() + gap(text, ms, k).len() as int;
            rewritten(text, ms).subrange(
                off,
                off + rewritten_span(text, ms[k]).len(),
            ) == rewritten_span(text, ms[k])
        }),
{
    lemma_rewrite_decomposition(text, ms, k);
    let off = built(text, ms, k).len() + gap(text, ms, k).len() as int;
    assert(rewritten_from(text, ms, k) == rewritten_span(text, ms[k]) + text.subrange(
        ms[k].end as int,
        next_start(text, ms, k + 1),
    ) + rewritten_from(text, ms, k + 1));
    assert(rewritten(text, ms).subrange(off, off + rewritten_span(text, ms[k]).len())
        =~= rewritten_span(text, ms[k]));
}

/// A span that is not kept for `family` — its text does not parse as a URL
/// with a host on the family's allow-list — never appears among the
/// selected spans, and so is never rewritten.
pub proof fn lemma_family_exclusion(
    text: Seq<u8>,
    spans: Seq<(int, int)>,
    family: LinkFamily,
    sp: (int, int),
)
    requires
        !keeps(text, sp, family),
    ensures
        !selected_spans(text, spans, family).contains(sp),
    decreases spans.len(),
{
    if spans.len() == 0 {
        assert(!selected_spans(text, spans, family).contains(sp));
    } else {
        lemma_family_exclusion(text, spans.drop_last(), family, sp);
        let head = selected_spans(text, spans.drop_last(), family);
        let sel = selected_spans(text, spans, family);
        if sel.contains(sp) {
            let idx = choose|idx: int| 0 <= idx < sel.len() && sel[idx] == sp;
            if idx < head.len() {
                assert(head[idx] == sp);
                assert(head.contains(sp));
            } else {
                assert(keeps(text, spans.last(), family));
                assert(sel[idx] == spans.last());
            }
            assert(false);
        }
    }
}

/// Every selected span came from the scanner's spans and is kept: its
/// text parses as a URL whose host is on the allow-list of `family`, so
/// the table's replacement is defined for every span handed to the
/// rewriter.
pub proof fn lemma_selected_spans_kept(
    text: Seq<u8>,
    spans: Seq<(int, int)>,
    family: LinkFamily,
    k: int,
)
    requires
        0 <= k < selected_spans(text, spans, family).len(),
    ensures
        spans.contains(selected_spans(text, spans, family)[k]),
        keeps(text, selected_spans(text, spans, family)[k], family),
    decreases spans.len(),
{
    let sel = selected_spans(text, spans, family);
    if spans.len() > 0 {
        let head = selected_spans(text, spans.drop_last(), family);
        if k < head.len() {
            lemma_selected_spans_kept(text, spans.drop_last(), family, k);
            assert(head[k] == sel[k]);
            let i = choose|i: int|
                0 <= i < spans.drop_last().len() && spans.drop_last()[i] == head[k];
            assert(spans[i] == sel[k]);
            assert(spans.contains(sel[k]));
        } else {
            assert(keeps(text, spans.last(), family));
            assert(sel[k] == spans.last());
            assert(spans[spans.len() - 1] == spans.last());
            assert(spans.contains(sel[k]));
        }
    }
}

/// Every span in the output of `find_links` is one of the scanner's spans
/// and is kept for `family`.
pub proof fn lemma_found_spans_kept(text: Seq<u8>, family: LinkFamily, k: int)
    requires
        0 <= k < found_spans(text, family).len(),
    ensures
        url_spans(text).contains(found_spans(text, family)[k]),
        keeps(text, found_spans(text, family)[k], family),
{
    lemma_selected_spans_kept(text, url_spans(text), family, k);
}

/// A link whose host is not on the allow-list of `family` never appears in
/// the output of `find_links`.
pub proof fn lemma_unlisted_never_found(text: Seq<u8>, family: LinkFamily, sp: (int, int))
    requires
        !keeps(text, sp, family),
    ensures
        !found_spans(text, family).contains(sp),
{
    lemma_family_exclusion(text, url_spans(text), family, sp);
}

/// Reverse-order splicing is correct for two non-overlapping spans: even
/// when the replacements differ in length from the spans they replace,
/// the result is exactly prefix, first replacement, middle, second
/// replacement, suffix — neither span's replacement corrupts the other or
/// the text around them.
pub proof fn lemma_reverse_splice_two(text: Seq<u8>, m0: LinkMatch, m1: LinkMatch)
    requires
        spans_wf(seq![m0, m1], text.len() as int),
    ensures
        rewritten(text, seq![m0, m1]) == text.subrange(0, m0.start as int) + rewritten_span(
            text,
            m0,
        ) + text.subrange(m0.end as int, m1.start as int) + rewritten_span(text, m1)
            + text.subrange(m1.end as int, text.len() as int),
{
    let ms = seq![m0, m1];
    assert(ms[0] == m0 && ms[1] == m1 && ms.len() == 2);
    assert(rewritten_from(text, ms, 2) =~= Seq::<u8>::empty());
    assert(rewritten_from(text, ms, 1) == rewritten_span(text, m1) + text.subrange(
        m1.end as int,
        text.len() as int,
    ) + rewritten_from(text, ms, 2));
    assert(rewritten_from(text, ms, 0) == rewritten_span(text, m0) + text.subrange(
        m0.end as int,
        m1.start as int,
    ) + rewritten_from(text, ms, 1));
    assert(rewritten(text, ms) =~= text.subrange(0, m0.start as int) + rewritten_span(text, m0)
        + text.subrange(m0.end as int, m1.start as int) + rewritten_span(text, m1) + text.subrange(
        m1.end as int,
        text.len() as int,
    ));
}

} // verus!
