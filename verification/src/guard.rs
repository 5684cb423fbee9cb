//! The guard at the front of a link: what a rule takes for a link starts
//! with a scheme, or at the start of the text, or after something that is
//! no letter, so that a host is never cut out of a longer word.

use vstd::prelude::*;
use vstd::slice::*;
use vstd::string::*;
use vstd::utf8::*;

verus! {

/// The schemes that a link may start with, as they are written.
pub const HTTP: &'static str = "http://";

/// See [`HTTP`].
pub const HTTPS: &'static str = "https://";

/// The byte is an ASCII letter.
pub open spec fn is_letter(byte: u8) -> bool {
    (0x41 <= byte <= 0x5a) || (0x61 <= byte <= 0x7a)
}

/// `prefix` stands in `bytes` at `at`.
pub open spec fn stands_at(bytes: Seq<u8>, at: int, prefix: Seq<u8>) -> bool {
    &&& 0 <= at
    &&& at + prefix.len() <= bytes.len()
    &&& bytes.subrange(at, at + prefix.len()) == prefix
}

/// What starts at `start` may be a link: it starts the text, or follows
/// something that is no letter, or starts with a scheme.
pub open spec fn guarded(bytes: Seq<u8>, start: int) -> bool {
    ||| start == 0
    ||| !is_letter(bytes[start - 1])
    ||| stands_at(bytes, start, encode_utf8(HTTP@))
    ||| stands_at(bytes, start, encode_utf8(HTTPS@))
}

/// Tells whether `prefix` stands in `bytes` at `at`.
pub fn starts_with(bytes: &[u8], at: usize, prefix: &[u8]) -> (yes: bool)
    ensures
        yes == stands_at(bytes@, at as int, prefix@),
{
    if prefix.len() > bytes.len() || at > bytes.len() - prefix.len() {
        return false;
    }
    let ghost window = bytes@.subrange(at as int, at + prefix.len());
    let mut i: usize = 0;
    while i < prefix.len()
        invariant
            i <= prefix.len(),
            at + prefix.len() <= bytes.len(),
            window == bytes@.subrange(at as int, at + prefix.len()),
            forall|j: int| 0 <= j < i ==> bytes@[at + j] == prefix@[j],
        decreases prefix.len() - i,
    {
        if bytes[at + i] != prefix[i] {
            return false;
        }
        i += 1;
    }
    assert(window =~= prefix@);
    true
}

/// Tells whether what starts at `start` may be a link.
pub fn is_guarded(text: &str, start: usize) -> (yes: bool)
    requires
        start <= text.spec_bytes().len(),
    ensures
        yes == guarded(text.spec_bytes(), start as int),
{
    let bytes = text.as_bytes();
    if start == 0 {
        return true;
    }
    let before = bytes[start - 1];
    let letter = (0x41 <= before && before <= 0x5a) || (0x61 <= before && before <= 0x7a);
    !letter || starts_with(bytes, start, HTTP.as_bytes()) || starts_with(bytes, start, HTTPS.as_bytes())
}

} // verus!
