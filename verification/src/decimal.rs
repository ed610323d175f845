//! Decimal text of integers.

use crate::rocstr::zeroed;
use crate::rocstr::RocStr;
use core::ops::Div;
use core::ops::Mul;
use core::ops::Neg;
use core::ops::Sub;
use vstd::prelude::*;
use vstd::std_specs::cmp::PartialEqSpec;
use vstd::std_specs::cmp::PartialOrdIs;
use vstd::std_specs::cmp::PartialOrdSpec;
use vstd::std_specs::ops::DivSpec;
use vstd::std_specs::ops::MulSpec;
use vstd::std_specs::ops::NegSpec;
use vstd::std_specs::ops::SubSpec;
use vstd::utf8::*;

verus! {

/// The ASCII digit for `d`, which is meant to lie between 0 and 9.
pub open spec fn digit_byte(d: int) -> u8 {
    (0x30 + d) as u8
}

/// The decimal digits of `n`, most significant first; none for zero.
pub open spec fn digits(n: nat) -> Seq<u8>
    decreases n,
{
    if n == 0 {
        Seq::empty()
    } else {
        digits(n / 10).push(digit_byte((n % 10) as int))
    }
}

/// The decimal text of `v`: `0` for zero, the digits of a positive number, and
/// a minus sign before the digits of the magnitude of a negative one.
pub open spec fn decimal(v: int) -> Seq<u8> {
    if v == 0 {
        seq![0x30u8]
    } else if v > 0 {
        digits(v as nat)
    } else {
        seq![0x2du8] + digits((-v) as nat)
    }
}

/// Ten to the power `k`.
pub open spec fn pow10(k: nat) -> nat
    decreases k,
{
    if k == 0 {
        1
    } else {
        10 * pow10((k - 1) as nat)
    }
}

/// The number that a sequence of ASCII digits writes, most significant first.
pub open spec fn digits_value(text: Seq<u8>) -> nat
    decreases text.len(),
{
    if text.len() == 0 {
        0
    } else {
        digits_value(text.drop_last()) * 10 + (text.last() - 0x30) as nat
    }
}

/// The integer that a decimal text writes: digits, with or without a minus
/// sign before them.
pub open spec fn decimal_value(text: Seq<u8>) -> int {
    if text.len() > 0 && text[0] == 0x2d {
        -(digits_value(text.drop_first()) as int)
    } else {
        digits_value(text) as int
    }
}

/// The digits of a number are ASCII digits, and the first of them is not `0`.
pub proof fn lemma_digits_are_digits(n: nat)
    ensures
        forall|i: int| 0 <= i < digits(n).len() ==> 0x30 <= #[trigger] digits(n)[i] <= 0x39,
        n > 0 ==> digits(n).len() > 0 && digits(n)[0] != 0x30,
    decreases n,
{
    if n > 0 {
        lemma_digits_are_digits(n / 10);
        let low = digit_byte((n % 10) as int);
        assert(0x30 <= low <= 0x39);
        assert forall|i: int| 0 <= i < digits(n).len() implies 0x30 <= #[trigger] digits(n)[i]
            <= 0x39 by {
            if i < digits(n / 10).len() {
                assert(digits(n)[i] == digits(n / 10)[i]);
            }
        }
        if n / 10 > 0 {
            assert(digits(n)[0] == digits(n / 10)[0]);
        }
    }
}

/// A number below ten to the power `k` has at most `k` digits.
pub proof fn lemma_digits_len(n: nat, k: nat)
    requires
        n < pow10(k),
    ensures
        digits(n).len() <= k,
    decreases k,
{
    if n > 0 {
        lemma_digits_len(n / 10, (k - 1) as nat);
    }
}

/// Reading the digits of a number gives the number back.
pub proof fn lemma_digits_value(n: nat)
    ensures
        digits_value(digits(n)) == n,
    decreases n,
{
    if n > 0 {
        lemma_digits_value(n / 10);
        assert(digits(n).drop_last() =~= digits(n / 10));
    }
}

/// Reading the decimal text of an integer gives the integer back.
pub proof fn lemma_decimal_round_trip(v: int)
    ensures
        decimal_value(decimal(v)) == v,
{
    if v == 0 {
        let zero = seq![0x30u8];
        assert(zero.drop_last() =~= Seq::<u8>::empty());
        assert(digits_value(zero.drop_last()) == 0);
        assert(zero.last() == 0x30);
        assert(digits_value(zero) == 0);
    } else if v > 0 {
        lemma_digits_are_digits(v as nat);
        lemma_digits_value(v as nat);
        assert(digits(v as nat)[0] != 0x2d);
    } else {
        lemma_digits_value((-v) as nat);
        assert(decimal(v)[0] == 0x2d);
        assert(decimal(v).drop_first() =~= digits((-v) as nat));
    }
}

/// Bytes that are all ASCII are valid UTF-8.
pub proof fn lemma_ascii_is_valid(bytes: Seq<u8>)
    requires
        forall|i: int| 0 <= i < bytes.len() ==> bytes[i] < 0x80,
    ensures
        valid_utf8(bytes),
{
    assert(bytes.subrange(0, 0) =~= Seq::<u8>::empty());
    assert(partial_valid_utf8(bytes, 0));
    assert forall|i: int| 0 <= 0 <= i < bytes.len() <= bytes.len() implies #[trigger] is_leading_byte_width_1(
        bytes[i],
    ) by {}
    partial_valid_utf8_extend_ascii_block(bytes, 0, bytes.len() as int);
    assert(bytes.subrange(0, bytes.len() as int) =~= bytes);
}

/// The decimal text of an integer is ASCII, so valid UTF-8, and not empty.
pub proof fn lemma_decimal_is_valid(v: int)
    ensures
        valid_utf8(decimal(v)),
        decimal(v).len() > 0,
{
    if v > 0 {
        lemma_digits_are_digits(v as nat);
    } else if v < 0 {
        lemma_digits_are_digits((-v) as nat);
    }
    lemma_ascii_is_valid(decimal(v));
}

/// An integer type with a zero.
pub trait Zero: Copy {
    /// The integer that a value of the type stands for.
    spec fn as_int(self) -> int;

    /// The greatest integer that the type holds.
    spec fn max_int() -> int;

    /// The zero of the type.
    fn zero() -> (zero: Self)
        ensures
            zero.as_int() == 0,
    ;

    /// The text `0`.
    fn zero_as_rocstr<const SIZE: usize>() -> (text: RocStr<SIZE>)
        requires
            SIZE >= 1,
        ensures
            text@ == decimal(0),
            text == RocStr::<SIZE>::holding(decimal(0)),
    {
        let zero: [u8; 1] = [0x30];
        proof {
            assert(zero@ =~= decimal(0));
            lemma_decimal_is_valid(0);
        }
        RocStr::from_valid(zero.as_slice())
    }
}

/// An integer type that holds ten.
pub trait Ten: Zero {
    /// The ten of the type.
    fn ten() -> (ten: Self)
        ensures
            ten.as_int() == 10,
    ;
}

/// An integer type whose small values can be had as a `u8`.
pub trait AsDigit: Zero {
    /// The low eight bits of the value, which are the value where it is a digit.
    fn as_digit(&self) -> (digit: u8)
        ensures
            0 <= self.as_int() <= 255 ==> digit == self.as_int(),
    ;
}

/// An integer type whose operators compute on the integers that its values
/// stand for, as far as the results fit.
pub trait Decimal: Ten + AsDigit + PartialOrd + Div<Output = Self> + Mul<Output = Self> + Sub<
    Output = Self,
> {
    /// `==`, `<`, `>`, `/`, `*` and `-` on values that are not negative are
    /// those of the integers, and no value exceeds `max_int`.
    proof fn lemma_operators(a: Self, b: Self)
        ensures
            a.as_int() <= Self::max_int(),
            Self::obeys_eq_spec(),
            a.eq_spec(&b) <==> a.as_int() == b.as_int(),
            Self::obeys_partial_cmp_spec(),
            a.is_lt(&b) <==> a.as_int() < b.as_int(),
            a.is_gt(&b) <==> a.as_int() > b.as_int(),
            Self::obeys_div_spec(),
            Self::obeys_mul_spec(),
            Self::obeys_sub_spec(),
            0 <= a.as_int() && 0 < b.as_int() ==> a.div_req(b) && a.div_spec(b).as_int()
                == a.as_int() / b.as_int(),
            0 <= a.as_int() && 0 <= b.as_int() && a.as_int() * b.as_int() <= Self::max_int()
                ==> a.mul_req(b) && a.mul_spec(b).as_int() == a.as_int() * b.as_int(),
            0 <= b.as_int() <= a.as_int() ==> a.sub_req(b) && a.sub_spec(b).as_int() == a.as_int()
                - b.as_int(),
    ;
}

/// True when comparing `a` with `b` by the operators of the type is comparing
/// the integers that they stand for.
pub open spec fn compares_as_integers<T: Decimal>(a: T, b: T) -> bool {
    &&& T::obeys_eq_spec()
    &&& T::obeys_partial_cmp_spec()
    &&& a.eq_spec(&b) <==> a.as_int() == b.as_int()
    &&& a.is_lt(&b) <==> a.as_int() < b.as_int()
    &&& a.is_gt(&b) <==> a.as_int() > b.as_int()
}

/// An integer type with negative values and a negation that computes on the
/// integers that its values stand for, as far as the result fits.
pub trait Signed: Decimal + Neg<Output = Self> {
    /// Negation is that of the integers wherever the type holds the result.
    proof fn lemma_negation(a: Self)
        ensures
            Self::obeys_neg_spec(),
            -Self::max_int() <= a.as_int() ==> a.neg_req() && a.neg_spec().as_int() == -a.as_int(),
    ;
}

/// Splits off the last decimal digit of `value`: what is left of the value,
/// and the digit as an ASCII byte.
pub fn next_char<T: Decimal>(value: T) -> (split: (T, u8))
    requires
        value.as_int() >= 0,
    ensures
        split.0.as_int() == value.as_int() / 10,
        split.1 == digit_byte(value.as_int() % 10),
{
    let ten = T::ten();
    proof {
        T::lemma_operators(value, ten);
    }
    let next = value / ten;
    proof {
        T::lemma_operators(next, ten);
    }
    let mask = next * ten;
    proof {
        T::lemma_operators(value, mask);
    }
    let digit = (value - mask).as_digit();
    (next, 0x30 + digit)
}

/// Writes the digits of `value` at the end of a buffer of `SIZE` bytes and
/// returns the buffer with the number of digits.
fn digits_at_end<const SIZE: usize, T: Decimal>(value: T) -> (written: ([u8; SIZE], usize))
    requires
        value.as_int() >= 0,
        digits(value.as_int() as nat).len() <= SIZE,
    ensures
        written.1 == digits(value.as_int() as nat).len(),
        written.1 <= SIZE,
        written.0@.subrange(SIZE - written.1, SIZE as int) == digits(value.as_int() as nat),
{
    let ghost all = digits(value.as_int() as nat);
    let mut value = value;
    let mut len: usize = 0;
    let mut buffer = zeroed::<SIZE>();
    let zero = T::zero();
    proof {
        T::lemma_operators(value, zero);
        assert(all + buffer@.subrange(SIZE as int, SIZE as int) =~= all);
    }
    while value > zero
        invariant
            zero.as_int() == 0,
            value.as_int() >= 0,
            compares_as_integers(value, zero),
            len <= SIZE,
            all.len() <= SIZE,
            all == digits(value.as_int() as nat) + buffer@.subrange(SIZE - len, SIZE as int),
        decreases value.as_int(),
    {
        let ghost before = buffer@.subrange(SIZE - len, SIZE as int);
        proof {
            assert(before.len() == len);
            assert(digits(value.as_int() as nat).len() >= 1);
        }
        len += 1;
        let (next, char) = next_char(value);
        buffer[SIZE - len] = char;
        proof {
            T::lemma_operators(next, zero);
            assert(buffer@.subrange(SIZE - len, SIZE as int) =~= seq![char] + before);
            assert(digits((value.as_int() / 10) as nat).push(char) + before =~= digits(
                (value.as_int() / 10) as nat,
            ) + (seq![char] + before));
        }
        value = next;
    }
    proof {
        assert(digits(0) + buffer@.subrange(SIZE - len, SIZE as int) =~= buffer@.subrange(
            SIZE - len,
            SIZE as int,
        ));
    }
    (buffer, len)
}

/// The decimal text of an integer that is not negative.
pub fn from_unsigned<const SIZE: usize, T: Decimal>(value: T) -> (text: RocStr<SIZE>)
    requires
        value.as_int() >= 0,
        decimal(value.as_int()).len() <= SIZE,
    ensures
        text@ == decimal(value.as_int()),
        text == RocStr::<SIZE>::holding(decimal(value.as_int())),
{
    let zero = T::zero();
    proof {
        T::lemma_operators(value, zero);
        lemma_decimal_is_valid(value.as_int());
    }
    if value == zero {
        T::zero_as_rocstr()
    } else {
        let (buffer, len) = digits_at_end::<SIZE, T>(value);
        let whole = buffer.as_slice();
        RocStr::from_valid(&whole[SIZE - len..SIZE])
    }
}

/// The decimal text of an integer whose negation the type holds.
pub fn from_signed<const SIZE: usize, T: Signed>(value: T) -> (text: RocStr<SIZE>)
    requires
        -T::max_int() <= value.as_int(),
        decimal(value.as_int()).len() <= SIZE,
    ensures
        text@ == decimal(value.as_int()),
        text == RocStr::<SIZE>::holding(decimal(value.as_int())),
{
    let zero = T::zero();
    proof {
        T::lemma_operators(value, zero);
        T::lemma_negation(value);
        lemma_decimal_is_valid(value.as_int());
    }
    if value == zero {
        T::zero_as_rocstr()
    } else {
        // Keep the sign, go on with the magnitude.
        let negative = value < zero;
        let magnitude = if negative {
            value.neg()
        } else {
            value
        };
        let (buffer, len) = digits_at_end::<SIZE, T>(magnitude);
        let whole = buffer.as_slice();
        let written = &whole[SIZE - len..SIZE];
        if negative {
            let sign: [u8; 1] = [0x2d];
            assert(sign@ =~= seq![0x2du8]);
            RocStr::from_valid_parts(sign.as_slice(), written)
        } else {
            RocStr::from_valid(written)
        }
    }
}

} // verus!
