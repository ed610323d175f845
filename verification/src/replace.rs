//! Replacement of every match of a pattern, within the capacity of the string.

use crate::boundary::boundary_at_or_before;
use crate::boundary::extract_within;
use crate::boundary::is_boundary_byte;
use crate::boundary::is_cut_point;
use crate::boundary::lemma_boundary_within_bounds;
use crate::boundary::lemma_boundary_within_local;
use crate::boundary::lemma_cut_point_is_char_boundary;
use crate::boundary::lemma_extract_within_valid;
use crate::boundary::lemma_extract_within_whole;
use crate::compare::same_bytes;
use crate::rocstr::zeroed;
use crate::rocstr::RocStr;
use vstd::prelude::*;
use vstd::string::StringSliceAdditionalSpecFns;
use vstd::utf8::*;

verus! {

/// `hay` with every match of `pattern` replaced by `with`. Matches are looked
/// for from the start; the bytes of a match are not scanned again. An empty
/// pattern matches nowhere.
pub open spec fn replace_all(hay: Seq<u8>, pattern: Seq<u8>, with: Seq<u8>) -> Seq<u8>
    decreases hay.len(),
{
    if pattern.len() == 0 || hay.len() < pattern.len() {
        hay
    } else if hay.subrange(0, pattern.len() as int) == pattern {
        with + replace_all(hay.subrange(pattern.len() as int, hay.len() as int), pattern, with)
    } else {
        seq![hay[0]] + replace_all(hay.subrange(1, hay.len() as int), pattern, with)
    }
}

/// What `replace` yields at capacity `capacity`: the replaced text, cut at a
/// character boundary if it is longer than the capacity.
pub open spec fn replace_within(
    hay: Seq<u8>,
    pattern: Seq<u8>,
    with: Seq<u8>,
    capacity: int,
) -> Seq<u8> {
    extract_within(replace_all(hay, pattern, with), capacity)
}

/// Where the pattern does not match at the start, the first byte passes through.
pub proof fn lemma_replace_all_passes(hay: Seq<u8>, pattern: Seq<u8>, with: Seq<u8>)
    requires
        pattern.len() > 0,
        hay.len() > 0,
        hay.len() < pattern.len() || hay.subrange(0, pattern.len() as int) != pattern,
    ensures
        replace_all(hay, pattern, with) == seq![hay[0]] + replace_all(
            hay.subrange(1, hay.len() as int),
            pattern,
            with,
        ),
{
    if hay.len() < pattern.len() {
        assert(seq![hay[0]] + hay.subrange(1, hay.len() as int) =~= hay);
    }
}

/// A pattern that occurs nowhere leaves the text as it is.
pub proof fn lemma_replace_all_without_match(hay: Seq<u8>, pattern: Seq<u8>, with: Seq<u8>)
    requires
        forall|i: int|
            0 <= i && i + pattern.len() <= hay.len() ==> #[trigger] hay.subrange(
                i,
                i + pattern.len(),
            ) != pattern,
    ensures
        replace_all(hay, pattern, with) == hay,
    decreases hay.len(),
{
    if pattern.len() > 0 && hay.len() >= pattern.len() {
        let rest = hay.subrange(1, hay.len() as int);
        assert(hay.subrange(0int, 0int + pattern.len()) != pattern);
        assert forall|i: int| 0 <= i && i + pattern.len() <= rest.len() implies #[trigger] rest.subrange(
            i,
            i + pattern.len(),
        ) != pattern by {
            assert(rest.subrange(i, i + pattern.len()) =~= hay.subrange(
                i + 1,
                i + 1 + pattern.len(),
            ));
        }
        lemma_replace_all_without_match(rest, pattern, with);
        assert(seq![hay[0]] + rest =~= hay);
    }
}

/// Valid UTF-8 that is not empty starts with a byte that is no continuation byte.
pub proof fn lemma_valid_starts_at_boundary(bytes: Seq<u8>)
    requires
        valid_utf8(bytes),
        bytes.len() > 0,
    ensures
        !is_continuation_byte(bytes[0]),
        length_of_first_scalar(bytes) <= bytes.len(),
{
}

/// What follows valid UTF-8 inside valid UTF-8 is valid UTF-8.
pub proof fn lemma_valid_suffix(head: Seq<u8>, tail: Seq<u8>)
    requires
        valid_utf8(head + tail),
        valid_utf8(head),
    ensures
        valid_utf8(tail),
    decreases head.len(),
{
    if head.len() == 0 {
        assert(head + tail =~= tail);
    } else {
        lemma_valid_starts_at_boundary(head);
        let whole = head + tail;
        let first = length_of_first_scalar(head);
        assert(whole[0] == head[0]);
        assert(length_of_first_scalar(whole) == first);
        assert(pop_first_scalar(whole) =~= pop_first_scalar(head) + tail);
        lemma_valid_suffix(pop_first_scalar(head), tail);
    }
}

/// Valid UTF-8 can be taken out of the middle of valid UTF-8 and other valid
/// UTF-8 put in its place.
pub proof fn lemma_valid_exchange(before: Seq<u8>, old: Seq<u8>, new: Seq<u8>, after: Seq<u8>)
    requires
        valid_utf8(before + old + after),
        valid_utf8(old),
        old.len() > 0,
        valid_utf8(new),
    ensures
        valid_utf8(before + new + after),
{
    let whole = before + old + after;
    lemma_valid_starts_at_boundary(old);
    assert(whole[before.len() as int] == old[0]);
    assert(is_cut_point(whole, before.len() as int));
    lemma_cut_point_is_char_boundary(whole, before.len() as int);
    valid_utf8_split(whole, before.len() as int);
    assert(whole.subrange(0, before.len() as int) =~= before);
    assert(whole.subrange(before.len() as int, whole.len() as int) =~= old + after);
    lemma_valid_suffix(old, after);
    valid_utf8_concat(before, new);
    valid_utf8_concat(before + new, after);
}

/// Replacing valid UTF-8 by valid UTF-8 in valid UTF-8 gives valid UTF-8,
/// also behind a prefix that is valid only together with the text.
pub proof fn lemma_replace_all_valid(
    before: Seq<u8>,
    hay: Seq<u8>,
    pattern: Seq<u8>,
    with: Seq<u8>,
)
    requires
        valid_utf8(before + hay),
        valid_utf8(pattern),
        valid_utf8(with),
    ensures
        valid_utf8(before + replace_all(hay, pattern, with)),
    decreases hay.len(),
{
    if pattern.len() == 0 || hay.len() < pattern.len() {
    } else if hay.subrange(0, pattern.len() as int) == pattern {
        let rest = hay.subrange(pattern.len() as int, hay.len() as int);
        assert(before + pattern + rest =~= before + hay);
        lemma_valid_exchange(before, pattern, with, rest);
        lemma_replace_all_valid(before + with, rest, pattern, with);
        assert(before + with + replace_all(rest, pattern, with) =~= before + (with + replace_all(
            rest,
            pattern,
            with,
        )));
    } else {
        let rest = hay.subrange(1, hay.len() as int);
        assert(before + seq![hay[0]] + rest =~= before + hay);
        lemma_replace_all_valid(before + seq![hay[0]], rest, pattern, with);
        assert(before + seq![hay[0]] + replace_all(rest, pattern, with) =~= before + (seq![hay[0]]
            + replace_all(rest, pattern, with)));
    }
}

/// Tells whether `pattern` occurs in `hay` at position `at`.
pub fn matches_at(hay: &[u8], at: usize, pattern: &[u8]) -> (found: bool)
    requires
        at <= hay@.len(),
    ensures
        found == (at + pattern@.len() <= hay@.len() && hay@.subrange(
            at as int,
            at + pattern@.len(),
        ) == pattern@),
{
    if pattern.len() > hay.len() - at {
        return false;
    }
    same_bytes(&hay[at..at + pattern.len()], pattern)
}

/// Writes behind the first `used` bytes of `out` as many bytes of `bytes` as
/// still fit, and returns `out` with the number of bytes it then holds.
fn emit<const SIZE: usize>(out: [u8; SIZE], used: usize, bytes: &[u8]) -> (grown: ([u8; SIZE], usize))
    requires
        used <= SIZE,
    ensures
        used <= grown.1 <= SIZE,
        grown.1 == if used + bytes@.len() <= SIZE {
            used + bytes@.len()
        } else {
            SIZE as int
        },
        grown.0@.subrange(0, grown.1 as int) == out@.subrange(0, used as int) + bytes@.subrange(
            0,
            grown.1 - used,
        ),
{
    let mut out = out;
    let ghost start = out@;
    let mut k: usize = 0;
    while k < bytes.len() && used + k < SIZE
        invariant
            used <= SIZE,
            k <= bytes@.len(),
            used + k <= SIZE,
            start.len() == SIZE,
            out@.subrange(0, used + k) == start.subrange(0, used as int) + bytes@.subrange(
                0,
                k as int,
            ),
        decreases bytes@.len() - k,
    {
        out[used + k] = bytes[k];
        assert(out@.subrange(0, used + k + 1) =~= start.subrange(0, used as int)
            + bytes@.subrange(0, k + 1)) by {
            let now = out@.subrange(0, used + k + 1);
            let before = start.subrange(0, used as int) + bytes@.subrange(0, k as int);
            assert forall|j: int| 0 <= j < used + k implies now[j] == before[j] by {
                assert(now[j] == out@.subrange(0, used + k)[j]);
            }
        }
        k += 1;
    }
    (out, used + k)
}

/// The replaced text of `hay` at capacity `SIZE`.
pub fn replace_bytes<const SIZE: usize>(hay: &[u8], pattern: &[u8], with: &[u8]) -> (replaced:
    RocStr<SIZE>)
    requires
        valid_utf8(hay@),
        valid_utf8(pattern@),
        valid_utf8(with@),
        pattern@.len() > 0,
    ensures
        replaced@ == replace_within(hay@, pattern@, with@, SIZE as int),
        replaced == RocStr::<SIZE>::holding(replace_within(hay@, pattern@, with@, SIZE as int)),
        replaced@.len() <= SIZE,
        valid_utf8(replaced@),
{
    let ghost all = replace_all(hay@, pattern@, with@);
    let mut out = zeroed::<SIZE>();
    let mut used: usize = 0;
    let mut at: usize = 0;
    // The first byte that found no room, once there is one.
    let mut pending: Option<u8> = None;
    proof {
        assert(hay@.subrange(0, hay@.len() as int) =~= hay@);
        assert(out@.subrange(0, 0) + all =~= all);
    }
    while at < hay.len() && pending.is_none()
        invariant
            at <= hay@.len(),
            used <= SIZE,
            pattern@.len() > 0,
            all == replace_all(hay@, pattern@, with@),
            pending is None ==> all == out@.subrange(0, used as int) + replace_all(
                hay@.subrange(at as int, hay@.len() as int),
                pattern@,
                with@,
            ),
            pending is Some ==> used == SIZE && all.len() > SIZE && all.subrange(0, SIZE as int)
                == out@ && all[SIZE as int] == pending->0,
        decreases hay@.len() - at + (if pending is None { 1int } else { 0int }),
    {
        let ghost rest = hay@.subrange(at as int, hay@.len() as int);
        let ghost emitted = out@.subrange(0, used as int);
        if matches_at(hay, at, pattern) {
            proof {
                assert(rest.subrange(0, pattern@.len() as int) =~= hay@.subrange(
                    at as int,
                    at + pattern@.len(),
                ));
                assert(rest.subrange(pattern@.len() as int, rest.len() as int) =~= hay@.subrange(
                    at + pattern@.len(),
                    hay@.len() as int,
                ));
            }
            let ghost tail = replace_all(
                hay@.subrange(at + pattern@.len(), hay@.len() as int),
                pattern@,
                with@,
            );
            assert(all == emitted + (with@ + tail));
            let grown = emit(out, used, with);
            out = grown.0;
            let written = grown.1 - used;
            if written < with.len() {
                pending = Some(with[written]);
                proof {
                    assert(out@.subrange(0, SIZE as int) =~= out@);
                    assert(all.subrange(0, SIZE as int) =~= emitted + with@.subrange(
                        0,
                        written as int,
                    ));
                }
            } else {
                proof {
                    assert(with@.subrange(0, written as int) =~= with@);
                    assert(emitted + (with@ + tail) =~= emitted + with@ + tail);
                }
                at += pattern.len();
            }
            used = grown.1;
        } else {
            proof {
                assert(rest.len() >= pattern@.len() ==> rest.subrange(0, pattern@.len() as int)
                    =~= hay@.subrange(at as int, at + pattern@.len()));
                lemma_replace_all_passes(rest, pattern@, with@);
                assert(rest.subrange(1, rest.len() as int) =~= hay@.subrange(
                    at + 1,
                    hay@.len() as int,
                ));
            }
            let ghost tail = replace_all(
                hay@.subrange(at + 1, hay@.len() as int),
                pattern@,
                with@,
            );
            assert(all == emitted + (seq![hay@[at as int]] + tail));
            if used < SIZE {
                out[used] = hay[at];
                proof {
                    assert(out@.subrange(0, used + 1) =~= emitted + seq![hay@[at as int]]);
                    assert(emitted + (seq![hay@[at as int]] + tail) =~= emitted + seq![
                        hay@[at as int],
                    ] + tail);
                }
                used += 1;
                at += 1;
            } else {
                pending = Some(hay[at]);
                proof {
                    assert(out@.subrange(0, SIZE as int) =~= out@);
                    assert(all.subrange(0, SIZE as int) =~= emitted);
                }
            }
        }
    }
    proof {
        assert(valid_utf8(Seq::<u8>::empty() + hay@)) by {
            assert(Seq::<u8>::empty() + hay@ =~= hay@);
        }
        lemma_replace_all_valid(Seq::<u8>::empty(), hay@, pattern@, with@);
        assert(Seq::<u8>::empty() + all =~= all);
        lemma_extract_within_valid(all, SIZE as int);
        lemma_boundary_within_bounds(all, SIZE as int);
    }
    let whole = out.as_slice();
    let cut = match pending {
        None => {
            proof {
                assert(hay@.subrange(at as int, hay@.len() as int) =~= Seq::<u8>::empty());
                assert(all =~= out@.subrange(0, used as int));
                lemma_extract_within_whole(all, SIZE as int);
            }
            used
        },
        Some(byte) => {
            if is_boundary_byte(byte) || SIZE == 0 {
                SIZE
            } else {
                proof {
                    lemma_boundary_within_local(all, out@, SIZE - 1);
                }
                boundary_at_or_before(whole, SIZE - 1)
            }
        },
    };
    assert(whole@.subrange(0, cut as int) =~= extract_within(all, SIZE as int));
    RocStr::from_valid(&whole[0..cut])
}

impl<const SIZE: usize> RocStr<SIZE> {
    /// Replaces all matches of a pattern with another string.
    ///
    /// An empty pattern matches nowhere. If the replaced text is longer than
    /// the capacity, it is cut at the last character boundary within it.
    pub fn replace(&self, from: &str, to: &str) -> (replaced: Self)
        ensures
            replaced@ == replace_within(self@, from.spec_bytes(), to.spec_bytes(), SIZE as int),
            from.spec_bytes().len() == 0 ==> replaced@ == self@,
            replaced@.len() <= SIZE,
            valid_utf8(replaced@),
    {
        broadcast use encode_utf8_valid_utf8;

        let hay = self.as_bytes();
        proof {
            lemma_boundary_within_bounds(
                replace_all(self@, from.spec_bytes(), to.spec_bytes()),
                SIZE as int,
            );
        }
        if from.as_bytes().len() == 0 {
            proof {
                lemma_extract_within_whole(self@, SIZE as int);
            }
            *self
        } else {
            replace_bytes::<SIZE>(hay, from.as_bytes(), to.as_bytes())
        }
    }
}

} // verus!
