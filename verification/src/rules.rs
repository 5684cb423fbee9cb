//! What a rule does to a text: it finds its links by a pattern and either
//! rebuilds them from what the pattern captured or strips their query down
//! to the keys that matter. Each rule that needs nothing but the text can
//! also be called by itself.

use crate::guard::{guarded, is_guarded};
use crate::link::{keep_only, kept_only, key_set};
use crate::pattern::{
    find_spans, regex_replaced, regex_spans, replace_matches, AMAZON, AMAZON_SEARCH,
    AMAZON_SEARCH_TO, AMAZON_TO, BILI_ARTICLE, BILI_ARTICLE_TO, BILI_OPUS, BILI_OPUS_TO,
    BILI_VIDEO, EVERY_MATCH, JD, JD_TO, STATUS_TO, TWITTER, TWITTER_X, WEIXIN, YOUTUBE,
};
use crate::splice::{
    check_spans, covered, lemma_spliced_nothing, replacement_bytes, replacements_bytes, slice,
    span_fits, spans_fit, splice, spliced, Span,
};
use crate::table::Keys;
use vstd::prelude::*;
use vstd::string::*;
use vstd::utf8::*;

verus! {

/// The engine finds no match of `pattern` in `text`.
pub open spec fn no_match(text: Seq<char>, pattern: Seq<char>) -> bool {
    regex_spans(pattern, text).len() == 0
}

/// `text` with every match of `pattern` rebuilt after `template`; unchanged
/// where the engine has no result.
pub open spec fn substituted(text: Seq<char>, pattern: Seq<char>, template: Seq<char>) -> Seq<char> {
    match regex_replaced(pattern, text, EVERY_MATCH as nat, template) {
        Some(out) => out,
        None => text,
    }
}

/// What stands for each match once its query is stripped down to `allowed`:
/// `None`, which leaves the match as it is, where the match is no URL.
pub open spec fn trimmed_matches(
    bytes: Seq<u8>,
    spans: Seq<Span>,
    allowed: Set<Seq<char>>,
) -> Seq<Option<Seq<u8>>> {
    Seq::new(
        spans.len(),
        |i: int|
            match kept_only(decode_utf8(covered(bytes, spans[i])), allowed) {
                Some(url) => Some(encode_utf8(url)),
                None => None,
            },
    )
}

/// The links of `pattern` in `text` that a rule works on: the matches that
/// the engine finds, less those that start inside a word. Where the engine
/// reports matches that do not fit the text there are none.
pub open spec fn links(text: Seq<char>, pattern: Seq<char>) -> Seq<Span> {
    let bytes = encode_utf8(text);
    let spans = regex_spans(pattern, text);
    if spans_fit(bytes, spans) {
        spans.filter(|span: Span| guarded(bytes, span.start as int))
    } else {
        Seq::empty()
    }
}

/// `text` with the query of every link of `pattern` stripped down to the
/// keys in `allowed`. Links that are no URL stay as they are.
pub open spec fn trimmed(text: Seq<char>, pattern: Seq<char>, allowed: Set<Seq<char>>) -> Seq<char> {
    let bytes = encode_utf8(text);
    let found = links(text, pattern);
    decode_utf8(spliced(bytes, found, trimmed_matches(bytes, found, allowed)))
}

/// Spans picked from spans that fit a text fit it too.
pub proof fn lemma_picked_spans_fit(bytes: Seq<u8>, spans: Seq<Span>, pick: spec_fn(Span) -> bool)
    requires
        spans_fit(bytes, spans),
    ensures
        spans_fit(bytes, spans.filter(pick)),
        forall|i: int|
            0 <= i < spans.filter(pick).len() ==> #[trigger] spans.contains(spans.filter(pick)[i]),
    decreases spans.len(),
{
    reveal(Seq::filter);
    if spans.len() > 0 {
        let front = spans.drop_last();
        let last = spans.last();
        lemma_picked_spans_fit(bytes, front, pick);
        let picked = spans.filter(pick);
        let before = front.filter(pick);
        assert forall|i: int| 0 <= i < picked.len() implies #[trigger] spans.contains(picked[i]) by {
            if i < before.len() {
                assert(front.contains(before[i]));
            }
        }
        if pick(last) {
            assert forall|i: int, j: int| 0 <= i < j < picked.len() implies (#[trigger] picked[i]).end
                <= (#[trigger] picked[j]).start by {
                if j == before.len() {
                    assert(front.contains(before[i]));
                }
            }
        }
    }
}

/// The links that a rule works on fit the text, and none starts inside a word.
pub proof fn lemma_links_guarded(text: Seq<char>, pattern: Seq<char>)
    ensures
        spans_fit(encode_utf8(text), links(text, pattern)),
        forall|i: int|
            0 <= i < links(text, pattern).len() ==> guarded(
                encode_utf8(text),
                (#[trigger] links(text, pattern)[i]).start as int,
            ),
        links(text, pattern).len() <= regex_spans(pattern, text).len(),
{
    let bytes = encode_utf8(text);
    let spans = regex_spans(pattern, text);
    let pick = |span: Span| guarded(bytes, span.start as int);
    if spans_fit(bytes, spans) {
        lemma_picked_spans_fit(bytes, spans, pick);
        spans.lemma_filter_len(pick);
    }
}

/// Finds the links of `pattern` in `text` that a rule works on.
pub fn find_links(pattern: &str, text: &str) -> (found: Vec<Span>)
    ensures
        found@ == links(text@, pattern@),
        spans_fit(text.spec_bytes(), found@),
{
    proof {
        lemma_links_guarded(text@, pattern@);
    }
    let spans = find_spans(pattern, text);
    if !check_spans(text, &spans) {
        return Vec::new();
    }
    let ghost bytes = text.spec_bytes();
    let ghost pick = |span: Span| guarded(bytes, span.start as int);
    let mut found: Vec<Span> = Vec::new();
    let mut i: usize = 0;
    proof {
        reveal(Seq::filter);
    }
    while i < spans.len()
        invariant
            i <= spans.len(),
            bytes == text.spec_bytes(),
            spans_fit(bytes, spans@),
            pick == |span: Span| guarded(bytes, span.start as int),
            found@ == spans@.take(i as int).filter(pick),
        decreases spans.len() - i,
    {
        let span = spans[i];
        proof {
            assert(spans@.take(i + 1) =~= spans@.take(i as int).push(span));
            spans@.take(i as int).lemma_filter_push(span, pick);
        }
        if is_guarded(text, span.start) {
            found.push(span);
        }
        i += 1;
    }
    assert(spans@.take(i as int) =~= spans@);
    found
}

/// Rebuilds every match of `pattern` in `text` after `template`.
pub fn substitute(text: &str, pattern: &str, template: &str) -> (out: String)
    ensures
        out@ == substituted(text@, pattern@, template@),
        no_match(text@, pattern@) ==> out@ == text@,
{
    match replace_matches(pattern, text, EVERY_MATCH, template) {
        Some(out) => out,
        None => text.to_owned(),
    }
}

/// A rule that finds no match leaves the text as it is.
pub proof fn lemma_trimmed_no_match(text: Seq<char>, pattern: Seq<char>, allowed: Set<Seq<char>>)
    requires
        no_match(text, pattern),
    ensures
        trimmed(text, pattern, allowed) == text,
{
    lemma_links_guarded(text, pattern);
    encode_utf8_decode_utf8(text);
}

/// A rule all of whose links are no URLs leaves the text as it is.
pub proof fn lemma_trimmed_nothing_read(text: Seq<char>, pattern: Seq<char>, allowed: Set<Seq<char>>)
    requires
        forall|i: int|
            0 <= i < links(text, pattern).len() ==> kept_only(
                decode_utf8(covered(encode_utf8(text), #[trigger] links(text, pattern)[i])),
                allowed,
            ) is None,
    ensures
        trimmed(text, pattern, allowed) == text,
{
    let bytes = encode_utf8(text);
    let found = links(text, pattern);
    encode_utf8_decode_utf8(text);
    lemma_links_guarded(text, pattern);
    lemma_spliced_nothing(bytes, found, trimmed_matches(bytes, found, allowed));
}

/// Strips the query of every link of `pattern` in `text` down to the allowed keys.
pub fn trim_links(text: &str, pattern: &str, allowed: &[&str]) -> (out: String)
    ensures
        out@ == trimmed(text@, pattern@, key_set(allowed@)),
        no_match(text@, pattern@) ==> out@ == text@,
{
    proof {
        if no_match(text@, pattern@) {
            lemma_trimmed_no_match(text@, pattern@, key_set(allowed@));
        }
    }
    let spans = find_links(pattern, text);
    let ghost bytes = text.spec_bytes();
    let ghost wanted = trimmed_matches(bytes, spans@, key_set(allowed@));
    let mut with: Vec<Option<String>> = Vec::new();
    let mut i: usize = 0;
    while i < spans.len()
        invariant
            i <= spans.len(),
            with.len() == i,
            bytes == text.spec_bytes(),
            spans_fit(bytes, spans@),
            wanted == trimmed_matches(bytes, spans@, key_set(allowed@)),
            forall|j: int| 0 <= j < i ==> replacement_bytes(#[trigger] with@[j]) == wanted[j],
        decreases spans.len() - i,
    {
        let found = slice(text, spans[i]);
        proof {
            encode_utf8_decode_utf8(found@);
        }
        with.push(keep_only(found, allowed));
        i += 1;
    }
    assert(replacements_bytes(with@) =~= wanted);
    let out = splice(text, &spans, &with);
    proof {
        encode_utf8_decode_utf8(out@);
    }
    out
}

/// Strips a link to a video on bilibili down to the keys that matter.
pub fn trim_bili_link(url: &str) -> (out: Option<String>)
    ensures
        out.deep_view() == kept_only(url@, Keys::Bili.set()),
{
    Keys::Bili.trim(url)
}

/// Strips a link to a video on YouTube down to the keys that matter.
pub fn trim_youtube_link(url: &str) -> (out: Option<String>)
    ensures
        out.deep_view() == kept_only(url@, Keys::Youtube.set()),
{
    Keys::Youtube.trim(url)
}

/// Strips links to videos on YouTube down to the keys that matter.
pub fn replace_youtube(text: &mut String)
    ensures
        final(text)@ == trimmed(old(text)@, YOUTUBE@, Keys::Youtube.set()),
        no_match(old(text)@, YOUTUBE@) ==> final(text)@ == old(text)@,
{
    let names = Keys::Youtube.names();
    let out = trim_links(text.as_str(), YOUTUBE, names.as_slice());
    *text = out;
}

/// Strips links to videos on bilibili down to the keys that matter.
pub fn replace_btrack(text: &mut String)
    ensures
        final(text)@ == trimmed(old(text)@, BILI_VIDEO@, Keys::Bili.set()),
        no_match(old(text)@, BILI_VIDEO@) ==> final(text)@ == old(text)@,
{
    let names = Keys::Bili.names();
    let out = trim_links(text.as_str(), BILI_VIDEO, names.as_slice());
    *text = out;
}

/// Strips links to articles on Weixin down to the keys that matter.
pub fn replace_weixin(text: &str) -> (out: String)
    ensures
        out@ == trimmed(text@, WEIXIN@, Keys::Weixin.set()),
        no_match(text@, WEIXIN@) ==> out@ == text@,
{
    let names = Keys::Weixin.names();
    trim_links(text, WEIXIN, names.as_slice())
}

/// Rewrites links to mobile articles on bilibili to the articles themselves.
pub fn replace_barticle(text: &str) -> (out: String)
    ensures
        out@ == substituted(text@, BILI_ARTICLE@, BILI_ARTICLE_TO@),
        no_match(text@, BILI_ARTICLE@) ==> out@ == text@,
{
    substitute(text, BILI_ARTICLE, BILI_ARTICLE_TO)
}

/// Rewrites links to posts on bilibili to their short form.
pub fn replace_bopus(text: &str) -> (out: String)
    ensures
        out@ == substituted(text@, BILI_OPUS@, BILI_OPUS_TO@),
        no_match(text@, BILI_OPUS@) ==> out@ == text@,
{
    substitute(text, BILI_OPUS, BILI_OPUS_TO)
}

/// Rewrites links to statuses on X, and on the hosts that embed it, to the
/// one embedding host; the query is dropped.
pub fn replace_twitter_x(url: &str) -> (out: String)
    ensures
        out@ == substituted(url@, TWITTER_X@, STATUS_TO@),
        no_match(url@, TWITTER_X@) ==> out@ == url@,
{
    substitute(url, TWITTER_X, STATUS_TO)
}

/// `text` with the links to statuses of either name rewritten.
pub open spec fn status_rewritten(text: Seq<char>) -> Seq<char> {
    substituted(substituted(text, TWITTER@, STATUS_TO@), TWITTER_X@, STATUS_TO@)
}

/// Rewrites links to statuses, on Twitter, on X and on the hosts that embed
/// either, to the one embedding host; the query is dropped.
pub fn replace_twitter(url: &str) -> (out: String)
    ensures
        out@ == status_rewritten(url@),
        no_match(url@, TWITTER@) && no_match(url@, TWITTER_X@) ==> out@ == url@,
{
    let first = substitute(url, TWITTER, STATUS_TO);
    replace_twitter_x(first.as_str())
}

/// Reduces links to product pages on Amazon to the host and the product.
pub fn replace_amazon(url: &str) -> (out: String)
    ensures
        out@ == substituted(url@, AMAZON@, AMAZON_TO@),
        no_match(url@, AMAZON@) ==> out@ == url@,
{
    substitute(url, AMAZON, AMAZON_TO)
}

/// Reduces links to searches on Amazon to the host and the keyword.
pub fn replace_amazon_search(url: &str) -> (out: String)
    ensures
        out@ == substituted(url@, AMAZON_SEARCH@, AMAZON_SEARCH_TO@),
        no_match(url@, AMAZON_SEARCH@) ==> out@ == url@,
{
    substitute(url, AMAZON_SEARCH, AMAZON_SEARCH_TO)
}

/// Strips the query from links to product pages on JD.
pub fn replace_jd(url: &str) -> (out: String)
    ensures
        out@ == substituted(url@, JD@, JD_TO@),
        no_match(url@, JD@) ==> out@ == url@,
{
    substitute(url, JD, JD_TO)
}

} // verus!
