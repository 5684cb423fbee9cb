//! Links as the rules see them: a URL whose query is an ordered list of
//! `key=value` pairs, of which a rule keeps the pairs it has a use for.

use vstd::prelude::*;
use vstd::string::*;
use vstd::utf8::*;

verus! {

/// The longest link, in bytes, that is taken apart. The URL parser counts
/// offsets in 32 bits; a longer match is treated as one it cannot read.
pub const MAX_LINK_BYTES: usize = 0x400_0000;

/// The pairs in the query of `url`, percent-decoded, in the order in which
/// they stand there; `None` where the parser does not take `url` for a URL.
pub uninterp spec fn url_query_pairs(url: Seq<char>) -> Option<Seq<(Seq<char>, Seq<char>)>>;

/// The byte stands for itself in `application/x-www-form-urlencoded`
/// syntax: a letter, a digit, or one of `*`, `-`, `.` and `_`.
pub open spec fn is_plain(byte: u8) -> bool {
    ||| byte == 0x2a
    ||| byte == 0x2d
    ||| byte == 0x2e
    ||| byte == 0x5f
    ||| 0x30 <= byte <= 0x39
    ||| 0x41 <= byte <= 0x5a
    ||| 0x61 <= byte <= 0x7a
}

/// The digit for a value below sixteen, in upper case.
pub open spec fn hex_digit(value: u8) -> char {
    if value < 10 {
        (0x30 + value) as char
    } else {
        (0x37 + value) as char
    }
}

/// One byte in `application/x-www-form-urlencoded` syntax: itself where it
/// is plain, `+` for a space, and otherwise `%` and its two hex digits.
pub open spec fn byte_encoded(byte: u8) -> Seq<char> {
    if is_plain(byte) {
        seq![byte as char]
    } else if byte == 0x20 {
        seq!['+']
    } else {
        seq!['%', hex_digit(byte / 16), hex_digit(byte % 16)]
    }
}

/// Bytes in `application/x-www-form-urlencoded` syntax, one after the other.
pub open spec fn bytes_encoded(bytes: Seq<u8>) -> Seq<char>
    decreases bytes.len(),
{
    if bytes.len() == 0 {
        Seq::empty()
    } else {
        bytes_encoded(bytes.drop_last()) + byte_encoded(bytes.last())
    }
}

/// A pair in `application/x-www-form-urlencoded` syntax: the key and the
/// value, each by its UTF-8 bytes, with `=` between them.
pub open spec fn pair_encoded(pair: (Seq<char>, Seq<char>)) -> Seq<char> {
    bytes_encoded(encode_utf8(pair.0)) + seq!['='] + bytes_encoded(encode_utf8(pair.1))
}

/// The pairs written out in `application/x-www-form-urlencoded` syntax,
/// with `&` between one pair and the next.
pub open spec fn pairs_encoded(pairs: Seq<(Seq<char>, Seq<char>)>) -> Seq<char>
    decreases pairs.len(),
{
    if pairs.len() == 0 {
        Seq::empty()
    } else if pairs.len() == 1 {
        pair_encoded(pairs[0])
    } else {
        pairs_encoded(pairs.drop_last()) + seq!['&'] + pair_encoded(pairs.last())
    }
}

/// Pairs are written as the empty text only where there is none.
pub proof fn lemma_pairs_encoded_empty(pairs: Seq<(Seq<char>, Seq<char>)>)
    ensures
        pairs_encoded(pairs).len() == 0 <==> pairs.len() == 0,
{
}

/// `url` as the parser writes it once its query is `query`, or is removed
/// where `query` is `None`; `None` where the parser does not take `url` for a URL.
pub uninterp spec fn url_with_query(url: Seq<char>, query: Option<Seq<char>>) -> Option<Seq<char>>;

/// Reads the pairs with `url::Url::query_pairs`, after `Url::parse`. Trusted:
/// the result is what the parser returns, named [`url_query_pairs`].
#[verifier::external_body]
pub(crate) fn query_pairs(url: &str) -> (pairs: Option<Vec<(String, String)>>)
    ensures
        pairs.deep_view() == url_query_pairs(url@),
{
    let parsed = url::Url::parse(url).ok()?;
    Some(parsed.query_pairs().into_owned().collect())
}

/// Writes the pairs with `form_urlencoded::Serializer::extend_pairs`, on a
/// serializer that `Serializer::new` started on an empty string. Trusted:
/// the result is the pairs in `application/x-www-form-urlencoded` syntax,
/// as [`pairs_encoded`] spells it out: `&` before every pair but the first,
/// `=` inside each, and every byte of a key or a value as the serializer
/// writes it.
#[verifier::external_body]
pub(crate) fn encode_pairs(pairs: &Vec<(String, String)>) -> (query: String)
    ensures
        query@ == pairs_encoded(pairs.deep_view()),
{
    form_urlencoded::Serializer::new(String::new()).extend_pairs(pairs).finish()
}

/// Sets the query with `url::Url::set_query`, after `Url::parse`, and writes
/// the URL out. Trusted: the result is what the parser returns, named
/// [`url_with_query`], and it is there exactly when `Url::parse` accepts `url`,
/// as for [`query_pairs`]. The bounds keep the written URL within the 32-bit
/// offsets beyond which `set_query` panics.
#[verifier::external_body]
pub(crate) fn with_query(url: &str, query: Option<&str>) -> (out: Option<String>)
    requires
        url.spec_bytes().len() <= MAX_LINK_BYTES,
        query matches Some(q) ==> q.spec_bytes().len() <= MAX_LINK_BYTES,
    ensures
        out.deep_view() == url_with_query(url@, query.deep_view()),
        out is Some <==> url_query_pairs(url@) is Some,
{
    let mut parsed = url::Url::parse(url).ok()?;
    parsed.set_query(query);
    Some(parsed.into())
}

/// The keys named in a list, as a set.
pub open spec fn key_set(allowed: Seq<&str>) -> Set<Seq<char>> {
    Set::new(|key: Seq<char>| exists|i: int| 0 <= i < allowed.len() && (#[trigger] allowed[i])@ == key)
}

/// The pairs whose key is in `allowed`, in the order in which they stood.
pub open spec fn retained(
    pairs: Seq<(Seq<char>, Seq<char>)>,
    allowed: Set<Seq<char>>,
) -> Seq<(Seq<char>, Seq<char>)> {
    pairs.filter(|pair: (Seq<char>, Seq<char>)| allowed.contains(pair.0))
}

/// The query that stands for a list of pairs: none at all for no pairs.
pub open spec fn query_for(pairs: Seq<(Seq<char>, Seq<char>)>) -> Option<Seq<char>> {
    if pairs.len() == 0 {
        None
    } else {
        Some(pairs_encoded(pairs))
    }
}

/// `url` with only the pairs of its query whose key is in `allowed`, or
/// `None` where `url` cannot be read: it is no URL, or it or its new query
/// is longer than [`MAX_LINK_BYTES`].
pub open spec fn kept_only(url: Seq<char>, allowed: Set<Seq<char>>) -> Option<Seq<char>> {
    match url_query_pairs(url) {
        Some(pairs) if encode_utf8(url).len() <= MAX_LINK_BYTES => {
            let query = query_for(retained(pairs, allowed));
            if query matches Some(q) && encode_utf8(q).len() > MAX_LINK_BYTES {
                None
            } else {
                url_with_query(url, query)
            }
        },
        _ => None,
    }
}

/// `url` can be read, and written again with the pairs of its query whose
/// key is in `allowed`: it is a URL, and neither it nor its new query is
/// longer than [`MAX_LINK_BYTES`].
pub open spec fn can_keep(url: Seq<char>, allowed: Set<Seq<char>>) -> bool {
    &&& url_query_pairs(url) matches Some(pairs)
    &&& encode_utf8(url).len() <= MAX_LINK_BYTES
    &&& query_for(retained(pairs, allowed)) matches Some(query) ==> encode_utf8(query).len()
        <= MAX_LINK_BYTES
}

/// `url` can be read: it is a URL no longer than [`MAX_LINK_BYTES`].
pub open spec fn can_clear(url: Seq<char>) -> bool {
    url_query_pairs(url) is Some && encode_utf8(url).len() <= MAX_LINK_BYTES
}

/// `url` without its query, or `None` where `url` cannot be read.
pub open spec fn query_cleared(url: Seq<char>) -> Option<Seq<char>> {
    if encode_utf8(url).len() <= MAX_LINK_BYTES {
        url_with_query(url, None)
    } else {
        None
    }
}

/// Every pair that the filter retains has an allowed key.
pub proof fn lemma_retained_keys_allowed(pairs: Seq<(Seq<char>, Seq<char>)>, allowed: Set<Seq<char>>)
    ensures
        forall|k: int|
            0 <= k < retained(pairs, allowed).len() ==> allowed.contains(
                (#[trigger] retained(pairs, allowed)[k]).0,
            ),
{
}

/// The filter drops no pair with an allowed key and reorders nothing: what
/// it retains are the pairs at exactly the positions whose key is allowed,
/// taken in ascending order. The result lists those positions.
pub proof fn lemma_retained_in_order(pairs: Seq<(Seq<char>, Seq<char>)>, allowed: Set<Seq<char>>) -> (at:
    Seq<int>)
    ensures
        at.len() == retained(pairs, allowed).len(),
        forall|k: int|
            0 <= k < at.len() ==> 0 <= #[trigger] at[k] < pairs.len() && retained(pairs, allowed)[k]
                == pairs[at[k]],
        forall|j: int, k: int| 0 <= j < k < at.len() ==> #[trigger] at[j] < #[trigger] at[k],
        forall|i: int|
            0 <= i < pairs.len() ==> (allowed.contains((#[trigger] pairs[i]).0) <==> at.contains(i)),
    decreases pairs.len(),
{
    let keep = |pair: (Seq<char>, Seq<char>)| allowed.contains(pair.0);
    reveal(Seq::filter);
    if pairs.len() == 0 {
        Seq::empty()
    } else {
        let front = pairs.drop_last();
        let last = pairs.len() - 1;
        let before = lemma_retained_in_order(front, allowed);
        let at = if keep(pairs.last()) {
            before.push(last)
        } else {
            before
        };
        assert forall|i: int| 0 <= i < pairs.len() implies (allowed.contains((#[trigger] pairs[i]).0)
            <==> at.contains(i)) by {
            if i < last {
                assert(front[i] == pairs[i]);
                if before.contains(i) {
                    let k = choose|k: int| 0 <= k < before.len() && before[k] == i;
                    assert(at[k] == i);
                }
            } else if keep(pairs.last()) {
                assert(at[before.len() as int] == last);
            }
        }
        at
    }
}

/// Filtering a second time with the same keys changes nothing.
pub proof fn lemma_retained_idempotent(pairs: Seq<(Seq<char>, Seq<char>)>, allowed: Set<Seq<char>>)
    ensures
        retained(retained(pairs, allowed), allowed) == retained(pairs, allowed),
    decreases pairs.len(),
{
    let keep = |pair: (Seq<char>, Seq<char>)| allowed.contains(pair.0);
    reveal(Seq::filter);
    if pairs.len() > 0 {
        lemma_retained_idempotent(pairs.drop_last(), allowed);
        if keep(pairs.last()) {
            pairs.drop_last().filter(keep).lemma_filter_push(pairs.last(), keep);
        }
    }
}

/// A URL of which no pair is retained comes out with no query at all.
pub proof fn lemma_nothing_retained_no_query(url: Seq<char>, allowed: Set<Seq<char>>)
    requires
        url_query_pairs(url) matches Some(pairs) && retained(pairs, allowed).len() == 0,
        encode_utf8(url).len() <= MAX_LINK_BYTES,
    ensures
        kept_only(url, allowed) == url_with_query(url, None),
{
}

/// Two texts are the same exactly when their UTF-8 forms are.
pub proof fn lemma_same_bytes_same_text(a: Seq<char>, b: Seq<char>)
    ensures
        encode_utf8(a) == encode_utf8(b) <==> a == b,
{
    encode_utf8_decode_utf8(a);
    encode_utf8_decode_utf8(b);
}

/// Tells whether two texts are the same.
pub fn same_text(a: &str, b: &str) -> (same: bool)
    ensures
        same == (a@ == b@),
{
    let left = a.as_bytes();
    let right = b.as_bytes();
    proof {
        lemma_same_bytes_same_text(a@, b@);
    }
    if left.len() != right.len() {
        return false;
    }
    let mut i: usize = 0;
    while i < left.len()
        invariant
            i <= left.len(),
            left.len() == right.len(),
            left@ == encode_utf8(a@),
            right@ == encode_utf8(b@),
            forall|j: int| 0 <= j < i ==> left@[j] == right@[j],
        decreases left.len() - i,
    {
        if left[i] != right[i] {
            proof {
                lemma_same_bytes_same_text(a@, b@);
            }
            return false;
        }
        i += 1;
    }
    assert(left@ =~= right@);
    true
}

/// Tells whether `key` is one of the allowed keys.
pub fn is_allowed(key: &str, allowed: &[&str]) -> (yes: bool)
    ensures
        yes == key_set(allowed@).contains(key@),
{
    let mut i: usize = 0;
    while i < allowed.len()
        invariant
            i <= allowed.len(),
            forall|j: int| 0 <= j < i ==> (#[trigger] allowed@[j])@ != key@,
        decreases allowed.len() - i,
    {
        if same_text(allowed[i], key) {
            return true;
        }
        i += 1;
    }
    false
}

/// Keeps the pairs whose key is allowed, in the order in which they stood.
pub fn retain_allowed(pairs: &Vec<(String, String)>, allowed: &[&str]) -> (kept: Vec<(String, String)>)
    ensures
        kept.deep_view() == retained(pairs.deep_view(), key_set(allowed@)),
{
    let ghost all = pairs.deep_view();
    let ghost keep = |pair: (Seq<char>, Seq<char>)| key_set(allowed@).contains(pair.0);
    let mut kept: Vec<(String, String)> = Vec::new();
    let mut i: usize = 0;
    proof {
        reveal(Seq::filter);
    }
    while i < pairs.len()
        invariant
            i <= pairs.len(),
            all == pairs.deep_view(),
            keep == |pair: (Seq<char>, Seq<char>)| key_set(allowed@).contains(pair.0),
            kept.deep_view() == all.take(i as int).filter(keep),
        decreases pairs.len() - i,
    {
        let ghost before = kept.deep_view();
        let pair = &pairs[i];
        proof {
            assert(all.take(i + 1) =~= all.take(i as int).push(all[i as int]));
            all.take(i as int).lemma_filter_push(all[i as int], keep);
        }
        if is_allowed(pair.0.as_str(), allowed) {
            kept.push((pair.0.clone(), pair.1.clone()));
        }
        i += 1;
    }
    assert(all.take(i as int) =~= all);
    kept
}

/// Strips from `url` every query pair whose key is not allowed. The pairs
/// that stay keep their order; where none stays the URL has no query at all.
/// Returns `None` for a text that cannot be read as a URL.
pub fn keep_only(url: &str, allowed: &[&str]) -> (out: Option<String>)
    ensures
        out.deep_view() == kept_only(url@, key_set(allowed@)),
        out is Some <==> can_keep(url@, key_set(allowed@)),
{
    if url.as_bytes().len() > MAX_LINK_BYTES {
        return None;
    }
    match query_pairs(url) {
        None => None,
        Some(pairs) => {
            let kept = retain_allowed(&pairs, allowed);
            let query = encode_pairs(&kept);
            if kept.len() == 0 {
                with_query(url, None)
            } else if query.as_str().as_bytes().len() > MAX_LINK_BYTES {
                None
            } else {
                with_query(url, Some(query.as_str()))
            }
        },
    }
}

/// The parser takes `text` for a URL.
pub open spec fn is_url(text: Seq<char>) -> bool {
    url_query_pairs(text) is Some
}

/// Tells whether the parser takes `text` for a URL.
pub fn check_url(text: &str) -> (yes: bool)
    ensures
        yes == is_url(text@),
{
    query_pairs(text).is_some()
}

/// Strips the whole query from `url`. Returns `None` for a text that cannot
/// be read as a URL.
pub fn clear_query(url: &str) -> (out: Option<String>)
    ensures
        out.deep_view() == query_cleared(url@),
        out is Some <==> can_clear(url@),
{
    if url.as_bytes().len() > MAX_LINK_BYTES {
        return None;
    }
    with_query(url, None)
}

} // verus!
