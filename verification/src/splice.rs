//! Replacing ranges of a text: the one editing step that every rewrite rule shares.
//!
//! Ranges are byte offsets into the UTF-8 form of the text, as a pattern
//! search reports them, so the model of a text here is its byte sequence.

use vstd::prelude::*;
use vstd::string::*;
use vstd::utf8::*;

verus! {

/// A half-open range of byte offsets into a text.
#[derive(Clone, Copy, Debug, PartialEq, Eq, Structural)]
pub struct Span {
    pub start: usize,
    pub end: usize,
}

/// The range `start..end` lies inside `bytes` and cuts no character in two.
pub open spec fn span_fits(bytes: Seq<u8>, start: int, end: int) -> bool {
    &&& 0 <= start <= end <= bytes.len()
    &&& is_char_boundary(bytes, start)
    &&& is_char_boundary(bytes, end)
}

/// Every span fits `bytes`, and the spans come in ascending order without overlap.
pub open spec fn spans_fit(bytes: Seq<u8>, spans: Seq<Span>) -> bool {
    &&& forall|i: int|
        0 <= i < spans.len() ==> span_fits(
            bytes,
            (#[trigger] spans[i]).start as int,
            spans[i].end as int,
        )
    &&& forall|i: int, j: int|
        0 <= i < j < spans.len() ==> (#[trigger] spans[i]).end <= (#[trigger] spans[j]).start
}

/// The bytes that `span` covers.
pub open spec fn covered(bytes: Seq<u8>, span: Span) -> Seq<u8> {
    bytes.subrange(span.start as int, span.end as int)
}

/// `bytes` with the range of each span replaced by the bytes that stand for
/// it in `with`; a span whose entry is `None` keeps what it covers. Offsets
/// refer to `bytes` itself: no replacement sees what another one wrote.
pub open spec fn spliced(bytes: Seq<u8>, spans: Seq<Span>, with: Seq<Option<Seq<u8>>>) -> Seq<u8>
    decreases spans.len(),
{
    if spans.len() == 0 {
        bytes
    } else {
        let span = spans.last();
        let head = spliced(bytes.subrange(0, span.start as int), spans.drop_last(), with.drop_last());
        let middle = match with.last() {
            Some(text) => text,
            None => covered(bytes, span),
        };
        head + middle + bytes.subrange(span.end as int, bytes.len() as int)
    }
}

/// The UTF-8 bytes of an optional replacement.
pub open spec fn replacement_bytes(text: Option<String>) -> Option<Seq<u8>> {
    match text {
        Some(s) => Some(encode_utf8(s@)),
        None => None,
    }
}

/// The UTF-8 bytes of each replacement in a list.
pub open spec fn replacements_bytes(with: Seq<Option<String>>) -> Seq<Option<Seq<u8>>> {
    Seq::new(with.len(), |i: int| replacement_bytes(with[i]))
}

/// Encoding distributes over concatenation.
pub proof fn lemma_encode_concat(a: Seq<char>, b: Seq<char>)
    ensures
        encode_utf8(a + b) == encode_utf8(a) + encode_utf8(b),
    decreases a.len(),
{
    if a.len() > 0 {
        lemma_encode_concat(a.drop_first(), b);
        assert((a + b).drop_first() =~= a.drop_first() + b);
    }
}

/// Between two character boundaries of `bytes`, the part of `bytes` is valid
/// UTF-8 whose boundaries are those of `bytes`.
pub proof fn lemma_boundary_within(bytes: Seq<u8>, from: int, to: int, at: int)
    requires
        valid_utf8(bytes),
        span_fits(bytes, from, to),
        from <= at <= to,
    ensures
        valid_utf8(bytes.subrange(from, to)),
        is_char_boundary(bytes.subrange(from, to), at - from) <==> is_char_boundary(bytes, at),
{
    let upto = bytes.subrange(0, to);
    valid_utf8_split(bytes, to);
    assert(is_char_boundary(upto, from)) by {
        if from == to {
            is_char_boundary_start_end_of_seq(upto);
        } else if from > 0 {
            is_char_boundary_iff_not_is_continuation_byte(bytes, from);
            is_char_boundary_iff_not_is_continuation_byte(upto, from);
        }
    }
    valid_utf8_split(upto, from);
    let part = bytes.subrange(from, to);
    assert(upto.subrange(from, upto.len() as int) =~= part);
    if at == to {
        is_char_boundary_start_end_of_seq(part);
    } else if at > from {
        is_char_boundary_iff_not_is_continuation_byte(bytes, at);
        is_char_boundary_iff_not_is_continuation_byte(part, at - from);
    }
}

/// Text after the last span passes through a splice untouched.
pub proof fn lemma_spliced_extend(
    bytes: Seq<u8>,
    more: Seq<u8>,
    spans: Seq<Span>,
    with: Seq<Option<Seq<u8>>>,
)
    requires
        spans.len() == with.len(),
        forall|i: int| 0 <= i < spans.len() ==> (#[trigger] spans[i]).start <= spans[i].end <= bytes.len(),
    ensures
        spliced(bytes + more, spans, with) == spliced(bytes, spans, with) + more,
{
    if spans.len() > 0 {
        let span = spans.last();
        let whole = bytes + more;
        assert(whole.subrange(0, span.start as int) =~= bytes.subrange(0, span.start as int));
    }
}

/// A splice in which no span has a replacement changes nothing.
pub proof fn lemma_spliced_nothing(bytes: Seq<u8>, spans: Seq<Span>, with: Seq<Option<Seq<u8>>>)
    requires
        spans.len() == with.len(),
        forall|i: int| 0 <= i < spans.len() ==> (#[trigger] spans[i]).start <= spans[i].end <= bytes.len(),
        forall|i: int, j: int|
            0 <= i < j < spans.len() ==> (#[trigger] spans[i]).end <= (#[trigger] spans[j]).start,
        forall|i: int| 0 <= i < with.len() ==> (#[trigger] with[i]) is None,
    ensures
        spliced(bytes, spans, with) == bytes,
    decreases spans.len(),
{
    if spans.len() > 0 {
        let span = spans.last();
        let head = bytes.subrange(0, span.start as int);
        lemma_spliced_nothing(head, spans.drop_last(), with.drop_last());
    }
}

/// One more span taken into a splice that has reached the end of the span before it.
pub proof fn lemma_spliced_step(
    bytes: Seq<u8>,
    spans: Seq<Span>,
    with: Seq<Option<Seq<u8>>>,
    i: int,
    consumed: int,
)
    requires
        spans.len() == with.len(),
        0 <= i < spans.len(),
        forall|j: int| 0 <= j < spans.len() ==> (#[trigger] spans[j]).start <= spans[j].end <= bytes.len(),
        forall|j: int, k: int|
            0 <= j < k < spans.len() ==> (#[trigger] spans[j]).end <= (#[trigger] spans[k]).start,
        consumed == if i == 0 { 0 } else { spans[i - 1].end as int },
    ensures
        consumed <= spans[i].start,
        spliced(bytes.subrange(0, spans[i].end as int), spans.take(i + 1), with.take(i + 1))
            == spliced(bytes.subrange(0, consumed), spans.take(i), with.take(i)) + match with[i] {
            Some(text) => bytes.subrange(consumed, spans[i].start as int) + text,
            None => bytes.subrange(consumed, spans[i].end as int),
        },
{
    let span = spans[i];
    let done = spans.take(i);
    let done_with = with.take(i);
    let next = spans.take(i + 1);
    let next_with = with.take(i + 1);
    let head = bytes.subrange(0, span.end as int);
    let gap = bytes.subrange(consumed, span.start as int);
    assert(next.drop_last() =~= done);
    assert(next_with.drop_last() =~= done_with);
    assert(head.subrange(0, span.start as int) =~= bytes.subrange(0, consumed) + gap);
    lemma_spliced_extend(bytes.subrange(0, consumed), gap, done, done_with);
}

/// Tells whether the spans fit the text: ascending, inside it, on character boundaries.
pub fn check_spans(text: &str, spans: &Vec<Span>) -> (ok: bool)
    ensures
        ok == spans_fit(text.spec_bytes(), spans@),
{
    let ghost bytes = text.spec_bytes();
    let len = text.as_bytes().len();
    let mut floor: usize = 0;
    let mut i: usize = 0;
    while i < spans.len()
        invariant
            i <= spans.len(),
            bytes == text.spec_bytes(),
            spans_fit(bytes, spans@.take(i as int)),
            forall|j: int| 0 <= j < i ==> (#[trigger] spans[j]).end <= floor,
            i > 0 ==> floor == spans[i - 1].end,
            i == 0 ==> floor == 0,
            len == bytes.len(),
        decreases spans.len() - i,
    {
        let span = spans[i];
        let fits = floor <= span.start && span.start <= span.end && span.end <= len
            && text.is_char_boundary(span.start) && text.is_char_boundary(span.end);
        if !fits {
            return false;
        }
        floor = span.end;
        i += 1;
    }
    assert(spans@.take(i as int) =~= spans@);
    true
}

/// The part of the text that a fitting span covers.
pub fn slice<'a>(text: &'a str, span: Span) -> (piece: &'a str)
    requires
        span_fits(text.spec_bytes(), span.start as int, span.end as int),
    ensures
        piece.spec_bytes() == covered(text.spec_bytes(), span),
{
    let ghost bytes = text.spec_bytes();
    proof {
        encode_utf8_valid_utf8(text@);
        lemma_boundary_within(bytes, 0, span.end as int, span.start as int);
    }
    let (head, _) = text.split_at(span.end);
    let (_, piece) = head.split_at(span.start);
    piece
}

/// Replaces each span of the text that has a replacement, and keeps the rest.
pub fn splice(text: &str, spans: &Vec<Span>, with: &Vec<Option<String>>) -> (out: String)
    requires
        spans.len() == with.len(),
        spans_fit(text.spec_bytes(), spans@),
    ensures
        encode_utf8(out@) == spliced(text.spec_bytes(), spans@, replacements_bytes(with@)),
{
    let ghost bytes = text.spec_bytes();
    let ghost reps = replacements_bytes(with@);
    proof {
        encode_utf8_valid_utf8(text@);
        is_char_boundary_start_end_of_seq(bytes);
    }
    let mut out = String::new();
    let mut rest: &str = text;
    let mut consumed: usize = 0;
    let mut i: usize = 0;
    while i < spans.len()
        invariant
            i <= spans.len(),
            spans.len() == with.len(),
            bytes == text.spec_bytes(),
            reps == replacements_bytes(with@),
            valid_utf8(bytes),
            spans_fit(bytes, spans@),
            consumed <= bytes.len(),
            is_char_boundary(bytes, consumed as int),
            i > 0 ==> consumed == spans[i - 1].end,
            i == 0 ==> consumed == 0,
            rest.spec_bytes() == bytes.subrange(consumed as int, bytes.len() as int),
            encode_utf8(out@) == spliced(
                bytes.subrange(0, consumed as int),
                spans@.take(i as int),
                reps.take(i as int),
            ),
        decreases spans.len() - i,
    {
        let span = spans[i];
        let ghost len = bytes.len() as int;
        let ghost old_out = out@;
        proof {
            assert(span_fits(bytes, consumed as int, len)) by {
                is_char_boundary_start_end_of_seq(bytes);
            }
            lemma_boundary_within(bytes, consumed as int, len, span.end as int);
        }
        let (upto, after) = rest.split_at(span.end - consumed);
        assert(upto.spec_bytes() =~= bytes.subrange(consumed as int, span.end as int));
        match &with[i] {
            Some(text) => {
                proof {
                    lemma_boundary_within(bytes, consumed as int, span.end as int, span.start as int);
                }
                let (gap, _) = upto.split_at(span.start - consumed);
                out.append(gap);
                out.append(text.as_str());
                proof {
                    lemma_encode_concat(old_out, gap@);
                    lemma_encode_concat(old_out + gap@, text@);
                }
            },
            None => {
                out.append(upto);
                proof {
                    lemma_encode_concat(old_out, upto@);
                }
            },
        }
        proof {
            lemma_spliced_step(bytes, spans@, reps, i as int, consumed as int);
        }
        rest = after;
        consumed = span.end;
        i += 1;
    }
    let ghost before = out@;
    out.append(rest);
    proof {
        lemma_encode_concat(before, rest@);
        assert(spans@.take(i as int) =~= spans@);
        assert(reps.take(i as int) =~= reps);
        let head = bytes.subrange(0, consumed as int);
        let tail = bytes.subrange(consumed as int, bytes.len() as int);
        assert(head + tail =~= bytes);
        lemma_spliced_extend(head, tail, spans@, reps);
    }
    out
}

} // verus!
