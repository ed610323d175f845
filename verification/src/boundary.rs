//! Cutting a UTF-8 byte sequence to a byte budget without splitting a code point.
//!
//! Every truncating operation of the crate goes through [`extract_utf8_within`],
//! whose result is described by [`extract_within`].

use vstd::prelude::*;
use vstd::utf8::*;

verus! {

/// True when `index` is a position at which `bytes` may be cut: the start, the
/// end, or any position whose byte is not a continuation byte.
pub open spec fn is_cut_point(bytes: Seq<u8>, index: int) -> bool {
    &&& 0 <= index <= bytes.len()
    &&& (index == 0 || index == bytes.len() || !is_continuation_byte(bytes[index]))
}

/// The length of the prefix that [`extract_within`] keeps: the whole length when
/// `limit` covers it, else the greatest cut point that is at most `limit`
/// (see [`lemma_boundary_within_is_greatest`]).
pub open spec fn boundary_within(bytes: Seq<u8>, limit: int) -> int
    decreases limit,
{
    if limit >= bytes.len() {
        bytes.len() as int
    } else if limit <= 0 {
        0
    } else if !is_continuation_byte(bytes[limit]) {
        limit
    } else {
        boundary_within(bytes, limit - 1)
    }
}

/// The longest prefix of `bytes` of at most `limit` bytes that ends at a cut point.
pub open spec fn extract_within(bytes: Seq<u8>, limit: int) -> Seq<u8> {
    bytes.subrange(0, boundary_within(bytes, limit))
}

/// The kept length lies within the sequence and, for a limit that is not
/// negative, within the limit.
pub proof fn lemma_boundary_within_bounds(bytes: Seq<u8>, limit: int)
    ensures
        0 <= boundary_within(bytes, limit) <= bytes.len(),
        0 <= limit ==> boundary_within(bytes, limit) <= limit,
        limit >= bytes.len() ==> boundary_within(bytes, limit) == bytes.len(),
        extract_within(bytes, limit).len() == boundary_within(bytes, limit),
    decreases limit,
{
    if limit < bytes.len() && limit > 0 && is_continuation_byte(bytes[limit]) {
        lemma_boundary_within_bounds(bytes, limit - 1);
    }
}

/// The kept length is a cut point, and no cut point lies between it and the limit.
pub proof fn lemma_boundary_within_is_greatest(bytes: Seq<u8>, limit: int)
    ensures
        is_cut_point(bytes, boundary_within(bytes, limit)),
        forall|j: int|
            boundary_within(bytes, limit) < j <= limit ==> !#[trigger] is_cut_point(bytes, j),
    decreases limit,
{
    if limit < bytes.len() && limit > 0 && is_continuation_byte(bytes[limit]) {
        lemma_boundary_within_is_greatest(bytes, limit - 1);
    }
}

/// A limit that covers the whole sequence cuts nothing off.
pub proof fn lemma_extract_within_whole(bytes: Seq<u8>, limit: int)
    requires
        limit >= bytes.len(),
    ensures
        extract_within(bytes, limit) == bytes,
{
    assert(bytes.subrange(0, bytes.len() as int) =~= bytes);
}

/// Cutting twice at the same limit is the same as cutting once.
pub proof fn lemma_extract_within_idempotent(bytes: Seq<u8>, limit: int)
    ensures
        extract_within(extract_within(bytes, limit), limit) == extract_within(bytes, limit),
{
    let once = extract_within(bytes, limit);
    lemma_boundary_within_bounds(bytes, limit);
    lemma_boundary_within_bounds(once, limit);
    if limit >= once.len() {
        lemma_extract_within_whole(once, limit);
    } else {
        assert(once.len() == 0);
        assert(extract_within(once, limit) =~= once);
    }
}

/// Below the length, the kept length depends only on the bytes up to and
/// including the one at `limit`.
pub proof fn lemma_boundary_within_local(a: Seq<u8>, b: Seq<u8>, limit: int)
    requires
        0 <= limit < a.len(),
        limit < b.len(),
        forall|j: int| 0 <= j <= limit ==> a[j] == b[j],
    ensures
        boundary_within(a, limit) == boundary_within(b, limit),
    decreases limit,
{
    if limit > 0 && is_continuation_byte(a[limit]) {
        lemma_boundary_within_local(a, b, limit - 1);
    }
}

/// In valid UTF-8 every cut point is a character boundary.
pub proof fn lemma_cut_point_is_char_boundary(bytes: Seq<u8>, index: int)
    requires
        valid_utf8(bytes),
        is_cut_point(bytes, index),
    ensures
        is_char_boundary(bytes, index),
{
    if index == bytes.len() {
        is_char_boundary_start_end_of_seq(bytes);
    } else if index > 0 {
        is_char_boundary_iff_not_is_continuation_byte(bytes, index);
    }
}

/// A prefix cut out of valid UTF-8 is valid UTF-8, and so is what is cut off.
pub proof fn lemma_extract_within_valid(bytes: Seq<u8>, limit: int)
    requires
        valid_utf8(bytes),
    ensures
        is_char_boundary(bytes, boundary_within(bytes, limit)),
        valid_utf8(extract_within(bytes, limit)),
        valid_utf8(bytes.subrange(boundary_within(bytes, limit), bytes.len() as int)),
{
    lemma_boundary_within_is_greatest(bytes, limit);
    lemma_cut_point_is_char_boundary(bytes, boundary_within(bytes, limit));
    valid_utf8_split(bytes, boundary_within(bytes, limit));
}

/// The cut keeps at least the first character whenever the limit has room for it.
pub proof fn lemma_extract_within_keeps_first(bytes: Seq<u8>, limit: int)
    requires
        valid_utf8(bytes),
        bytes.len() > 0,
        limit >= length_of_first_scalar(bytes),
    ensures
        boundary_within(bytes, limit) >= length_of_first_scalar(bytes),
        extract_within(bytes, limit).len() > 0,
{
    let first = length_of_first_scalar(bytes);
    lemma_boundary_within_bounds(bytes, limit);
    lemma_boundary_within_is_greatest(bytes, limit);
    if first < bytes.len() {
        assert(is_char_boundary(bytes, first)) by {
            reveal_with_fuel(is_char_boundary, 2);
        }
        is_char_boundary_iff_not_is_continuation_byte(bytes, first);
    }
    assert(is_cut_point(bytes, first));
}

/// Encoded text cut to a capacity is valid UTF-8 of at most that many bytes,
/// whatever the text and the capacity.
pub proof fn lemma_cut_text_is_safe(text: Seq<char>, capacity: nat)
    ensures
        valid_utf8(extract_within(encode_utf8(text), capacity as int)),
        extract_within(encode_utf8(text), capacity as int).len() <= capacity,
        extract_within(encode_utf8(text), capacity as int).is_prefix_of(encode_utf8(text)),
{
    encode_utf8_valid_utf8(text);
    lemma_extract_within_valid(encode_utf8(text), capacity as int);
    lemma_boundary_within_bounds(encode_utf8(text), capacity as int);
}

/// Text whose encoding fits a capacity is read back unchanged after it was
/// cut to that capacity.
pub proof fn lemma_fitting_text_round_trips(text: Seq<char>, capacity: nat)
    requires
        encode_utf8(text).len() <= capacity,
    ensures
        extract_within(encode_utf8(text), capacity as int) == encode_utf8(text),
        decode_utf8(extract_within(encode_utf8(text), capacity as int)) == text,
{
    lemma_extract_within_whole(encode_utf8(text), capacity as int);
    encode_utf8_decode_utf8(text);
}

/// Tells a byte that starts a character (or is ASCII) from a continuation byte.
pub fn is_boundary_byte(byte: u8) -> (yes: bool)
    ensures
        yes == !is_continuation_byte(byte),
{
    byte < 0x80 || byte >= 0xc0
}

/// The greatest cut point of `bytes` at or before `at`, found by walking
/// backward over continuation bytes.
pub fn boundary_at_or_before(bytes: &[u8], at: usize) -> (boundary: usize)
    requires
        at < bytes@.len(),
    ensures
        boundary == boundary_within(bytes@, at as int),
        boundary <= at,
{
    let mut boundary = at;
    while boundary > 0 && !is_boundary_byte(bytes[boundary])
        invariant
            boundary <= at < bytes@.len(),
            boundary_within(bytes@, at as int) == boundary_within(bytes@, boundary as int),
        decreases boundary,
    {
        boundary -= 1;
    }
    boundary
}

/// Extracts the longest prefix of `bytes` that has at most `len` bytes and does
/// not end inside a code point.
pub fn extract_utf8_within(bytes: &[u8], len: usize) -> (prefix: &[u8])
    ensures
        prefix@ == extract_within(bytes@, len as int),
        prefix@.len() <= len,
        valid_utf8(bytes@) ==> valid_utf8(prefix@),
{
    proof {
        lemma_boundary_within_bounds(bytes@, len as int);
        if valid_utf8(bytes@) {
            lemma_extract_within_valid(bytes@, len as int);
        }
    }
    let boundary = if len < bytes.len() {
        boundary_at_or_before(bytes, len)
    } else {
        bytes.len()
    };
    &bytes[0..boundary]
}

} // verus!
