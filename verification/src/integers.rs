//! The integer types that have a decimal text, and the conversions from them.

use crate::decimal::decimal;
use crate::decimal::digits;
use crate::decimal::from_signed;
use crate::decimal::from_unsigned;
use crate::decimal::lemma_decimal_is_valid;
use crate::decimal::lemma_digits_len;
use crate::decimal::pow10;
use crate::decimal::AsDigit;
use crate::decimal::Decimal;
use crate::decimal::Signed;
use crate::decimal::Ten;
use crate::decimal::Zero;
use crate::rocstr::RocStr;
use vstd::prelude::*;
use vstd::std_specs::convert::FromSpecImpl;

verus! {

impl Zero for u8 {
    open spec fn as_int(self) -> int {
        self as int
    }

    open spec fn max_int() -> int {
        0xff
    }

    fn zero() -> Self {
        0
    }
}

impl Ten for u8 {
    fn ten() -> Self {
        10
    }
}

impl AsDigit for u8 {
    fn as_digit(&self) -> u8 {
        *self
    }
}

impl Decimal for u8 {
    proof fn lemma_operators(a: Self, b: Self) {
    }
}

impl Zero for u16 {
    open spec fn as_int(self) -> int {
        self as int
    }

    open spec fn max_int() -> int {
        0xffff
    }

    fn zero() -> Self {
        0
    }
}

impl Ten for u16 {
    fn ten() -> Self {
        10
    }
}

impl AsDigit for u16 {
    fn as_digit(&self) -> u8 {
        #[verifier::truncate]
        (*self as u8)
    }
}

impl Decimal for u16 {
    proof fn lemma_operators(a: Self, b: Self) {
    }
}

impl Zero for u32 {
    open spec fn as_int(self) -> int {
        self as int
    }

    open spec fn max_int() -> int {
        0xffff_ffff
    }

    fn zero() -> Self {
        0
    }
}

impl Ten for u32 {
    fn ten() -> Self {
        10
    }
}

impl AsDigit for u32 {
    fn as_digit(&self) -> u8 {
        #[verifier::truncate]
        (*self as u8)
    }
}

impl Decimal for u32 {
    proof fn lemma_operators(a: Self, b: Self) {
    }
}

impl Zero for u64 {
    open spec fn as_int(self) -> int {
        self as int
    }

    open spec fn max_int() -> int {
        0xffff_ffff_ffff_ffff
    }

    fn zero() -> Self {
        0
    }
}

impl Ten for u64 {
    fn ten() -> Self {
        10
    }
}

impl AsDigit for u64 {
    fn as_digit(&self) -> u8 {
        #[verifier::truncate]
        (*self as u8)
    }
}

impl Decimal for u64 {
    proof fn lemma_operators(a: Self, b: Self) {
    }
}

impl Zero for u128 {
    open spec fn as_int(self) -> int {
        self as int
    }

    open spec fn max_int() -> int {
        0xffff_ffff_ffff_ffff_ffff_ffff_ffff_ffff
    }

    fn zero() -> Self {
        0
    }
}

impl Ten for u128 {
    fn ten() -> Self {
        10
    }
}

impl AsDigit for u128 {
    fn as_digit(&self) -> u8 {
        #[verifier::truncate]
        (*self as u8)
    }
}

impl Decimal for u128 {
    proof fn lemma_operators(a: Self, b: Self) {
    }
}

impl Zero for usize {
    open spec fn as_int(self) -> int {
        self as int
    }

    open spec fn max_int() -> int {
        usize::MAX as int
    }

    fn zero() -> Self {
        0
    }
}

impl Ten for usize {
    fn ten() -> Self {
        10
    }
}

impl AsDigit for usize {
    fn as_digit(&self) -> u8 {
        #[verifier::truncate]
        (*self as u8)
    }
}

impl Decimal for usize {
    proof fn lemma_operators(a: Self, b: Self) {
    }
}

impl Zero for i8 {
    open spec fn as_int(self) -> int {
        self as int
    }

    open spec fn max_int() -> int {
        0x7f
    }

    fn zero() -> Self {
        0
    }
}

impl Ten for i8 {
    fn ten() -> Self {
        10
    }
}

impl AsDigit for i8 {
    fn as_digit(&self) -> u8 {
        #[verifier::truncate]
        (*self as u8)
    }
}

impl Decimal for i8 {
    proof fn lemma_operators(a: Self, b: Self) {
    }
}

impl Signed for i8 {
    proof fn lemma_negation(a: Self) {
    }
}

impl Zero for i16 {
    open spec fn as_int(self) -> int {
        self as int
    }

    open spec fn max_int() -> int {
        0x7fff
    }

    fn zero() -> Self {
        0
    }
}

impl Ten for i16 {
    fn ten() -> Self {
        10
    }
}

impl AsDigit for i16 {
    fn as_digit(&self) -> u8 {
        #[verifier::truncate]
        (*self as u8)
    }
}

impl Decimal for i16 {
    proof fn lemma_operators(a: Self, b: Self) {
    }
}

impl Signed for i16 {
    proof fn lemma_negation(a: Self) {
    }
}

impl Zero for i32 {
    open spec fn as_int(self) -> int {
        self as int
    }

    open spec fn max_int() -> int {
        0x7fff_ffff
    }

    fn zero() -> Self {
        0
    }
}

impl Ten for i32 {
    fn ten() -> Self {
        10
    }
}

impl AsDigit for i32 {
    fn as_digit(&self) -> u8 {
        #[verifier::truncate]
        (*self as u8)
    }
}

impl Decimal for i32 {
    proof fn lemma_operators(a: Self, b: Self) {
    }
}

impl Signed for i32 {
    proof fn lemma_negation(a: Self) {
    }
}

impl Zero for i64 {
    open spec fn as_int(self) -> int {
        self as int
    }

    open spec fn max_int() -> int {
        0x7fff_ffff_ffff_ffff
    }

    fn zero() -> Self {
        0
    }
}

impl Ten for i64 {
    fn ten() -> Self {
        10
    }
}

impl AsDigit for i64 {
    fn as_digit(&self) -> u8 {
        #[verifier::truncate]
        (*self as u8)
    }
}

impl Decimal for i64 {
    proof fn lemma_operators(a: Self, b: Self) {
    }
}

impl Signed for i64 {
    proof fn lemma_negation(a: Self) {
    }
}

impl Zero for isize {
    open spec fn as_int(self) -> int {
        self as int
    }

    open spec fn max_int() -> int {
        isize::MAX as int
    }

    fn zero() -> Self {
        0
    }
}

impl Ten for isize {
    fn ten() -> Self {
        10
    }
}

impl AsDigit for isize {
    fn as_digit(&self) -> u8 {
        #[verifier::truncate]
        (*self as u8)
    }
}

impl Decimal for isize {
    proof fn lemma_operators(a: Self, b: Self) {
    }
}

impl Signed for isize {
    proof fn lemma_negation(a: Self) {
    }
}

/// The powers of ten that bound the integer types.
pub proof fn lemma_powers_of_ten()
    ensures
        pow10(3) == 1_000,
        pow10(5) == 100_000,
        pow10(10) == 10_000_000_000,
        pow10(19) == 10_000_000_000_000_000_000,
        pow10(20) == 100_000_000_000_000_000_000,
        pow10(39) == 1_000_000_000_000_000_000_000_000_000_000_000_000_000,
{
    reveal_with_fuel(pow10, 40);
}

/// An integer whose magnitude is below ten to the power `k` has a decimal
/// text of at most `k` bytes, and one more if it is negative.
pub proof fn lemma_decimal_len(v: int, k: nat)
    requires
        k >= 1,
        -pow10(k) < v < pow10(k),
    ensures
        v >= 0 ==> decimal(v).len() <= k,
        v < 0 ==> decimal(v).len() <= k + 1,
{
    if v > 0 {
        lemma_digits_len(v as nat, k);
    } else if v < 0 {
        lemma_digits_len((-v) as nat, k);
    }
}

impl From<u8> for RocStr<3> {
    /// The decimal text of `value`.
    fn from(value: u8) -> (text: Self)
        ensures
            text@ == decimal(value as int),
    {
        proof {
            lemma_powers_of_ten();
            lemma_decimal_len(value as int, 3);
        }
        from_unsigned(value)
    }
}

impl FromSpecImpl<u8> for RocStr<3> {
    open spec fn obeys_from_spec() -> bool {
        true
    }

    open spec fn from_spec(value: u8) -> Self {
        Self::holding(decimal(value as int))
    }
}

impl From<u16> for RocStr<5> {
    /// The decimal text of `value`.
    fn from(value: u16) -> (text: Self)
        ensures
            text@ == decimal(value as int),
    {
        proof {
            lemma_powers_of_ten();
            lemma_decimal_len(value as int, 5);
        }
        from_unsigned(value)
    }
}

impl FromSpecImpl<u16> for RocStr<5> {
    open spec fn obeys_from_spec() -> bool {
        true
    }

    open spec fn from_spec(value: u16) -> Self {
        Self::holding(decimal(value as int))
    }
}

impl From<u32> for RocStr<10> {
    /// The decimal text of `value`.
    fn from(value: u32) -> (text: Self)
        ensures
            text@ == decimal(value as int),
    {
        proof {
            lemma_powers_of_ten();
            lemma_decimal_len(value as int, 10);
        }
        from_unsigned(value)
    }
}

impl FromSpecImpl<u32> for RocStr<10> {
    open spec fn obeys_from_spec() -> bool {
        true
    }

    open spec fn from_spec(value: u32) -> Self {
        Self::holding(decimal(value as int))
    }
}

impl From<u64> for RocStr<20> {
    /// The decimal text of `value`.
    fn from(value: u64) -> (text: Self)
        ensures
            text@ == decimal(value as int),
    {
        proof {
            lemma_powers_of_ten();
            lemma_decimal_len(value as int, 20);
        }
        from_unsigned(value)
    }
}

impl FromSpecImpl<u64> for RocStr<20> {
    open spec fn obeys_from_spec() -> bool {
        true
    }

    open spec fn from_spec(value: u64) -> Self {
        Self::holding(decimal(value as int))
    }
}

impl From<u128> for RocStr<39> {
    /// The decimal text of `value`.
    fn from(value: u128) -> (text: Self)
        ensures
            text@ == decimal(value as int),
    {
        proof {
            lemma_powers_of_ten();
            lemma_decimal_len(value as int, 39);
        }
        from_unsigned(value)
    }
}

impl FromSpecImpl<u128> for RocStr<39> {
    open spec fn obeys_from_spec() -> bool {
        true
    }

    open spec fn from_spec(value: u128) -> Self {
        Self::holding(decimal(value as int))
    }
}

impl From<usize> for RocStr<20> {
    /// The decimal text of `value`.
    fn from(value: usize) -> (text: Self)
        ensures
            text@ == decimal(value as int),
    {
        proof {
            lemma_powers_of_ten();
            lemma_decimal_len(value as int, 20);
        }
        from_unsigned(value)
    }
}

impl FromSpecImpl<usize> for RocStr<20> {
    open spec fn obeys_from_spec() -> bool {
        true
    }

    open spec fn from_spec(value: usize) -> Self {
        Self::holding(decimal(value as int))
    }
}

/// The decimal text of the least `i8`, whose magnitude the type does not hold.
fn min_i8_text() -> (text: RocStr<4>)
    ensures
        text@ == decimal(i8::MIN as int),
        text == RocStr::<4>::holding(decimal(i8::MIN as int)),
{
    // The text `-128`.
    let literal: [u8; 4] = [0x2d, 0x31, 0x32, 0x38];
    proof {
        reveal_with_fuel(digits, 4);
        assert(literal@ =~= decimal(i8::MIN as int));
        lemma_decimal_is_valid(i8::MIN as int);
    }
    RocStr::from_valid(literal.as_slice())
}

impl From<i8> for RocStr<4> {
    /// The decimal text of `value`.
    fn from(value: i8) -> (text: Self)
        ensures
            text@ == decimal(value as int),
    {
        if value == i8::MIN {
            min_i8_text()
        } else {
            proof {
                lemma_powers_of_ten();
                lemma_decimal_len(value as int, 3);
            }
            from_signed(value)
        }
    }
}

impl FromSpecImpl<i8> for RocStr<4> {
    open spec fn obeys_from_spec() -> bool {
        true
    }

    open spec fn from_spec(value: i8) -> Self {
        Self::holding(decimal(value as int))
    }
}

/// The decimal text of the least `i16`, whose magnitude the type does not hold.
fn min_i16_text() -> (text: RocStr<6>)
    ensures
        text@ == decimal(i16::MIN as int),
        text == RocStr::<6>::holding(decimal(i16::MIN as int)),
{
    // The text `-32768`.
    let literal: [u8; 6] = [0x2d, 0x33, 0x32, 0x37, 0x36, 0x38];
    proof {
        reveal_with_fuel(digits, 6);
        assert(literal@ =~= decimal(i16::MIN as int));
        lemma_decimal_is_valid(i16::MIN as int);
    }
    RocStr::from_valid(literal.as_slice())
}

impl From<i16> for RocStr<6> {
    /// The decimal text of `value`.
    fn from(value: i16) -> (text: Self)
        ensures
            text@ == decimal(value as int),
    {
        if value == i16::MIN {
            min_i16_text()
        } else {
            proof {
                lemma_powers_of_ten();
                lemma_decimal_len(value as int, 5);
            }
            from_signed(value)
        }
    }
}

impl FromSpecImpl<i16> for RocStr<6> {
    open spec fn obeys_from_spec() -> bool {
        true
    }

    open spec fn from_spec(value: i16) -> Self {
        Self::holding(decimal(value as int))
    }
}

/// The decimal text of the least `i32`, whose magnitude the type does not hold.
fn min_i32_text() -> (text: RocStr<11>)
    ensures
        text@ == decimal(i32::MIN as int),
        text == RocStr::<11>::holding(decimal(i32::MIN as int)),
{
    // The text `-2147483648`.
    let literal: [u8; 11] = [0x2d, 0x32, 0x31, 0x34, 0x37, 0x34, 0x38, 0x33, 0x36, 0x34, 0x38];
    proof {
        reveal_with_fuel(digits, 11);
        assert(literal@ =~= decimal(i32::MIN as int));
        lemma_decimal_is_valid(i32::MIN as int);
    }
    RocStr::from_valid(literal.as_slice())
}

impl From<i32> for RocStr<11> {
    /// The decimal text of `value`.
    fn from(value: i32) -> (text: Self)
        ensures
            text@ == decimal(value as int),
    {
        if value == i32::MIN {
            min_i32_text()
        } else {
            proof {
                lemma_powers_of_ten();
                lemma_decimal_len(value as int, 10);
            }
            from_signed(value)
        }
    }
}

impl FromSpecImpl<i32> for RocStr<11> {
    open spec fn obeys_from_spec() -> bool {
        true
    }

    open spec fn from_spec(value: i32) -> Self {
        Self::holding(decimal(value as int))
    }
}

/// The decimal text of the least `i64`, whose magnitude the type does not hold.
fn min_i64_text() -> (text: RocStr<20>)
    ensures
        text@ == decimal(i64::MIN as int),
        text == RocStr::<20>::holding(decimal(i64::MIN as int)),
{
    // The text `-9223372036854775808`.
    let literal: [u8; 20] = [0x2d, 0x39, 0x32, 0x32, 0x33, 0x33, 0x37, 0x32, 0x30, 0x33, 0x36, 0x38, 0x35, 0x34, 0x37, 0x37, 0x35, 0x38, 0x30, 0x38];
    proof {
        reveal_with_fuel(digits, 20);
        assert(literal@ =~= decimal(i64::MIN as int));
        lemma_decimal_is_valid(i64::MIN as int);
    }
    RocStr::from_valid(literal.as_slice())
}

impl From<i64> for RocStr<20> {
    /// The decimal text of `value`.
    fn from(value: i64) -> (text: Self)
        ensures
            text@ == decimal(value as int),
    {
        if value == i64::MIN {
            min_i64_text()
        } else {
            proof {
                lemma_powers_of_ten();
                lemma_decimal_len(value as int, 19);
            }
            from_signed(value)
        }
    }
}

impl FromSpecImpl<i64> for RocStr<20> {
    open spec fn obeys_from_spec() -> bool {
        true
    }

    open spec fn from_spec(value: i64) -> Self {
        Self::holding(decimal(value as int))
    }
}

impl From<isize> for RocStr<20> {
    /// The decimal text of `value`.
    fn from(value: isize) -> (text: Self)
        ensures
            text@ == decimal(value as int),
    {
        if value == isize::MIN {
            RocStr::<20>::from(value as i64)
        } else {
            proof {
                lemma_powers_of_ten();
                lemma_decimal_len(value as int, 19);
            }
            from_signed(value)
        }
    }
}

impl FromSpecImpl<isize> for RocStr<20> {
    open spec fn obeys_from_spec() -> bool {
        true
    }

    open spec fn from_spec(value: isize) -> Self {
        Self::holding(decimal(value as int))
    }
}

} // verus!
