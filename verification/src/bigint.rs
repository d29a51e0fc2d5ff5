//! Integers of any size. The arithmetic is that of `num_bigint`; a value is held as plain bytes.

use crate::modular::{
    invertible, is_inverse, is_mod_quotient, lemma_mod_of_opposite, lemma_mod_quotient,
    lemma_negation_of_multiple, lemma_quotient_from_inverse, mod_quotient, reduced,
};
use vstd::prelude::*;

verus! {

/// The integer that `bytes` stands for, read as two's complement with the least significant byte
/// first. No bytes at all stand for zero.
pub open spec fn signed_value(bytes: Seq<u8>) -> int
    decreases bytes.len(),
{
    if bytes.len() == 0 {
        0
    } else if bytes.len() == 1 {
        if bytes[0] < 128 {
            bytes[0] as int
        } else {
            bytes[0] - 256
        }
    } else {
        bytes[0] + 256 * signed_value(bytes.drop_first())
    }
}

/// `bytes` is not empty and its top byte says more than the sign that the byte below it repeats.
pub open spec fn minimal(bytes: Seq<u8>) -> bool {
    &&& bytes.len() >= 1
    &&& bytes.len() >= 2 ==> {
        let top = bytes[bytes.len() - 1];
        let below = bytes[bytes.len() - 2];
        &&& !(top == 0 && below < 128)
        &&& !(top == 255 && below >= 128)
    }
}

/// The quotient of `a` and `b`, rounded toward zero. (Where `a` is not negative, `/` rounds toward
/// zero, whatever the sign of `b`.)
pub open spec fn trunc_div(a: int, b: int) -> int {
    if a < 0 {
        -((-a) / b)
    } else {
        a / b
    }
}

/// What `trunc_div` leaves over: it has the sign of `a`. (`%` is never negative.)
pub open spec fn trunc_rem(a: int, b: int) -> int {
    if a < 0 {
        -((-a) % b)
    } else {
        a % b
    }
}

/// The remainder that has the sign of `m`.
pub open spec fn floor_mod(a: int, m: int) -> int {
    if m > 0 {
        a % m
    } else {
        -((-a) % m)
    }
}

/// The decimal digits of `n`, the most significant first.
pub open spec fn decimal_digits(n: nat) -> Seq<char>
    decreases n,
{
    if n < 10 {
        seq![(48 + n) as char]
    } else {
        decimal_digits(n / 10).push((48 + n % 10) as char)
    }
}

/// `a` in decimal, with a minus sign before a negative number.
pub open spec fn decimal_text(a: int) -> Seq<char> {
    if a < 0 {
        seq!['-'] + decimal_digits(-a as nat)
    } else {
        decimal_digits(a as nat)
    }
}

/// `num_bigint::BigInt` addition, between `from_signed_bytes_le` and `to_signed_bytes_le`: the
/// bytes that come back stand for the sum, and are as few as two's complement allows.
#[verifier::external_body]
fn sum_bytes(a: &[u8], b: &[u8]) -> (r: Vec<u8>)
    ensures
        signed_value(r@) == signed_value(a@) + signed_value(b@),
        minimal(r@),
{
    (num_bigint::BigInt::from_signed_bytes_le(a) + num_bigint::BigInt::from_signed_bytes_le(
        b,
    )).to_signed_bytes_le()
}

/// `num_bigint::BigInt` subtraction: the bytes that come back stand for the difference, and are as
/// few as two's complement allows.
#[verifier::external_body]
fn difference_bytes(a: &[u8], b: &[u8]) -> (r: Vec<u8>)
    ensures
        signed_value(r@) == signed_value(a@) - signed_value(b@),
        minimal(r@),
{
    (num_bigint::BigInt::from_signed_bytes_le(a) - num_bigint::BigInt::from_signed_bytes_le(
        b,
    )).to_signed_bytes_le()
}

/// `num_bigint::BigInt` multiplication: the bytes that come back stand for the product, and are as
/// few as two's complement allows.
#[verifier::external_body]
fn product_bytes(a: &[u8], b: &[u8]) -> (r: Vec<u8>)
    ensures
        signed_value(r@) == signed_value(a@) * signed_value(b@),
        minimal(r@),
{
    (num_bigint::BigInt::from_signed_bytes_le(a) * num_bigint::BigInt::from_signed_bytes_le(
        b,
    )).to_signed_bytes_le()
}

/// `num_bigint::BigInt` division, which rounds toward zero and panics on a zero divisor: the bytes
/// that come back stand for the quotient, and are as few as two's complement allows.
#[verifier::external_body]
fn quotient_bytes(a: &[u8], b: &[u8]) -> (r: Vec<u8>)
    requires
        signed_value(b@) != 0,
    ensures
        signed_value(r@) == trunc_div(signed_value(a@), signed_value(b@)),
        minimal(r@),
{
    (num_bigint::BigInt::from_signed_bytes_le(a) / num_bigint::BigInt::from_signed_bytes_le(
        b,
    )).to_signed_bytes_le()
}

/// The `%` of `num_bigint::BigInt`, which has the sign of the dividend and panics on a zero
/// divisor: the bytes that come back stand for the remainder, and are as few as two's complement
/// allows.
#[verifier::external_body]
fn remainder_bytes(a: &[u8], b: &[u8]) -> (r: Vec<u8>)
    requires
        signed_value(b@) != 0,
    ensures
        signed_value(r@) == trunc_rem(signed_value(a@), signed_value(b@)),
        minimal(r@),
{
    (num_bigint::BigInt::from_signed_bytes_le(a) % num_bigint::BigInt::from_signed_bytes_le(
        b,
    )).to_signed_bytes_le()
}

/// `modinv` of `num_bigint::BigInt`, which panics on a zero modulus: the bytes that come back stand
/// for an inverse of the number, lie between zero and the modulus, unless that is one or minus one,
/// and are as few as two's complement allows; and nothing comes back only if there is no inverse.
#[verifier::external_body]
fn inverse_bytes(a: &[u8], m: &[u8]) -> (r: Option<Vec<u8>>)
    requires
        signed_value(m@) != 0,
    ensures
        match r {
            Some(x) => {
                &&& is_inverse(signed_value(x@), signed_value(a@), signed_value(m@))
                &&& !(-1 <= signed_value(m@) <= 1) ==> reduced(
                    signed_value(x@),
                    signed_value(m@),
                )
                &&& minimal(x@)
            },
            None => !invertible(signed_value(a@), signed_value(m@)),
        },
{
    let modulus = num_bigint::BigInt::from_signed_bytes_le(m);
    match num_bigint::BigInt::from_signed_bytes_le(a).modinv(&modulus) {
        Some(x) => Some(x.to_signed_bytes_le()),
        None => None,
    }
}

/// `From<i64>` of `num_bigint::BigInt`: the bytes stand for `n`, and are as few as two's complement
/// allows.
#[verifier::external_body]
fn bytes_of_i64(n: i64) -> (r: Vec<u8>)
    ensures
        signed_value(r@) == n,
        minimal(r@),
{
    num_bigint::BigInt::from(n).to_signed_bytes_le()
}

/// `From<usize>` of `num_bigint::BigInt`: the bytes stand for `n`, and are as few as two's
/// complement allows.
#[verifier::external_body]
fn bytes_of_usize(n: usize) -> (r: Vec<u8>)
    ensures
        signed_value(r@) == n,
        minimal(r@),
{
    num_bigint::BigInt::from(n).to_signed_bytes_le()
}

/// `num_traits::ToPrimitive::to_i64` on a `num_bigint::BigInt`: the number itself if an `i64` can
/// hold it, and nothing otherwise.
#[verifier::external_body]
fn bytes_to_i64(a: &[u8]) -> (r: Option<i64>)
    ensures
        r == (if i64::MIN <= signed_value(a@) <= i64::MAX {
            Some(signed_value(a@) as i64)
        } else {
            None
        }),
{
    num_traits::ToPrimitive::to_i64(&num_bigint::BigInt::from_signed_bytes_le(a))
}

/// `num_traits::ToPrimitive::to_usize` on a `num_bigint::BigInt`: the number itself if a `usize`
/// can hold it, and nothing otherwise.
#[verifier::external_body]
fn bytes_to_usize(a: &[u8]) -> (r: Option<usize>)
    ensures
        r == (if 0 <= signed_value(a@) <= usize::MAX {
            Some(signed_value(a@) as usize)
        } else {
            None
        }),
{
    num_traits::ToPrimitive::to_usize(&num_bigint::BigInt::from_signed_bytes_le(a))
}

/// `to_str_radix` of `num_bigint::BigInt` in base ten: the number in decimal, without leading
/// zeros, after a minus sign where it is negative.
#[verifier::external_body]
fn bytes_to_decimal(a: &[u8]) -> (r: String)
    ensures
        r@ == decimal_text(signed_value(a@)),
{
    num_bigint::BigInt::from_signed_bytes_le(a).to_str_radix(10)
}

/// An integer of any size. Its view is that integer.
#[derive(Debug, Hash)]
pub struct BigInt {
    bytes: Vec<u8>,
}

impl View for BigInt {
    type V = int;

    closed spec fn view(&self) -> int {
        signed_value(self.bytes@)
    }
}

impl DeepView for BigInt {
    type V = int;

    open spec fn deep_view(&self) -> int {
        self@
    }
}

impl BigInt {
    /// The bytes are the shortest that stand for the number, so that no number has two forms.
    #[verifier::type_invariant]
    spec fn in_shortest_form(self) -> bool {
        minimal(self.bytes@)
    }

    pub fn from_i64(n: i64) -> (r: BigInt)
        ensures
            r@ == n,
    {
        BigInt { bytes: bytes_of_i64(n) }
    }

    pub fn from_usize(n: usize) -> (r: BigInt)
        ensures
            r@ == n,
    {
        BigInt { bytes: bytes_of_usize(n) }
    }

    /// The number that `bytes` stand for, in two's complement with the least significant byte
    /// first.
    pub fn from_signed_bytes_le(bytes: &[u8]) -> (r: BigInt)
        ensures
            r@ == signed_value(bytes@),
    {
        let mut kept: Vec<u8> = Vec::new();
        let n: usize = bytes.len();
        if n == 0 {
            kept.push(0);
            return BigInt { bytes: kept };
        }
        let mut len: usize = n;
        assert(bytes@.take(n as int) =~= bytes@);
        while len >= 2 && ((bytes[len - 1] == 0 && bytes[len - 2] < 128) || (bytes[len - 1] == 255
            && bytes[len - 2] >= 128))
            invariant
                1 <= len <= n == bytes@.len(),
                signed_value(bytes@.take(len as int)) == signed_value(bytes@),
            decreases len,
        {
            proof {
                lemma_drop_redundant_top(bytes@.take(len as int));
                assert(bytes@.take(len as int).drop_last() =~= bytes@.take(len - 1));
            }
            len = len - 1;
        }
        let mut i: usize = 0;
        while i < len
            invariant
                i <= len <= n == bytes@.len(),
                kept@ == bytes@.take(i as int),
            decreases len - i,
        {
            kept.push(bytes[i]);
            i = i + 1;
        }
        assert(kept@ == bytes@.take(len as int));
        BigInt { bytes: kept }
    }

    /// The shortest two's complement form, the least significant byte first.
    pub fn signed_bytes_le(&self) -> (r: &[u8])
        ensures
            signed_value(r@) == self@,
            minimal(r@),
    {
        proof {
            use_type_invariant(self);
        }
        self.bytes.as_slice()
    }

    pub fn plus(&self, other: &BigInt) -> (r: BigInt)
        ensures
            r@ == self@ + other@,
    {
        BigInt { bytes: sum_bytes(self.bytes.as_slice(), other.bytes.as_slice()) }
    }

    pub fn minus(&self, other: &BigInt) -> (r: BigInt)
        ensures
            r@ == self@ - other@,
    {
        BigInt { bytes: difference_bytes(self.bytes.as_slice(), other.bytes.as_slice()) }
    }

    pub fn times(&self, other: &BigInt) -> (r: BigInt)
        ensures
            r@ == self@ * other@,
    {
        BigInt { bytes: product_bytes(self.bytes.as_slice(), other.bytes.as_slice()) }
    }

    /// The quotient, rounded toward zero.
    pub fn quotient(&self, other: &BigInt) -> (r: BigInt)
        requires
            other@ != 0,
        ensures
            r@ == trunc_div(self@, other@),
    {
        BigInt { bytes: quotient_bytes(self.bytes.as_slice(), other.bytes.as_slice()) }
    }

    /// The remainder with the sign of `self`.
    pub fn remainder(&self, other: &BigInt) -> (r: BigInt)
        requires
            other@ != 0,
        ensures
            r@ == trunc_rem(self@, other@),
    {
        BigInt { bytes: remainder_bytes(self.bytes.as_slice(), other.bytes.as_slice()) }
    }

    pub fn is_negative(&self) -> (r: bool)
        ensures
            r == (self@ < 0),
    {
        proof {
            use_type_invariant(self);
            lemma_sign_of_top(self.bytes@);
        }
        self.bytes[self.bytes.len() - 1] >= 128
    }

    pub fn is_zero(&self) -> (r: bool)
        ensures
            r == (self@ == 0),
    {
        *self == BigInt::from_i64(0)
    }

    /// The remainder with the sign of `modulus`.
    pub fn mod_floor(&self, modulus: &BigInt) -> (r: BigInt)
        requires
            modulus@ != 0,
        ensures
            r@ == floor_mod(self@, modulus@),
    {
        let rem: BigInt = self.remainder(modulus);
        proof {
            lemma_floor_mod_from_trunc_rem(self@, modulus@);
        }
        if !rem.is_zero() && rem.is_negative() != modulus.is_negative() {
            rem.plus(modulus)
        } else {
            rem
        }
    }

    /// Whether `self` is a multiple of `modulus`.
    pub fn is_multiple_of(&self, modulus: &BigInt) -> (r: bool)
        requires
            modulus@ != 0,
        ensures
            r == (self@ % modulus@ == 0),
    {
        proof {
            lemma_negation_of_multiple(self@, modulus@);
        }
        self.remainder(modulus).is_zero()
    }

    /// The quotient modulo `modulus`, where `divisor` has an inverse.
    pub fn mod_quotient(&self, divisor: &BigInt, modulus: &BigInt) -> (r: Option<BigInt>)
        requires
            modulus@ != 0,
        ensures
            r.deep_view() == mod_quotient(self@, divisor@, modulus@),
            match r {
                Some(q) => is_mod_quotient(q@, self@, divisor@, modulus@),
                None => !invertible(divisor@, modulus@),
            },
    {
        match inverse_bytes(divisor.bytes.as_slice(), modulus.bytes.as_slice()) {
            Some(bytes) => {
                let inverse = BigInt { bytes };
                proof {
                    lemma_quotient_from_inverse(self@, divisor@, modulus@, inverse@);
                    lemma_mod_quotient(self@, divisor@, modulus@);
                }
                Some(self.times(&inverse).mod_floor(modulus))
            },
            None => None,
        }
    }

    pub fn to_i64(&self) -> (r: Option<i64>)
        ensures
            r == (if i64::MIN <= self@ <= i64::MAX {
                Some(self@ as i64)
            } else {
                None
            }),
    {
        bytes_to_i64(self.bytes.as_slice())
    }

    pub fn to_usize(&self) -> (r: Option<usize>)
        ensures
            r == (if 0 <= self@ <= usize::MAX {
                Some(self@ as usize)
            } else {
                None
            }),
    {
        bytes_to_usize(self.bytes.as_slice())
    }

    /// The number in decimal.
    pub fn to_decimal(&self) -> (r: String)
        ensures
            r@ == decimal_text(self@),
    {
        bytes_to_decimal(self.bytes.as_slice())
    }
}

impl Clone for BigInt {
    fn clone(&self) -> (r: Self)
        ensures
            r@ == self@,
    {
        proof {
            use_type_invariant(self);
        }
        let bytes: Vec<u8> = self.bytes.clone();
        assert(bytes@ =~= self.bytes@);
        BigInt { bytes }
    }
}

impl PartialEq for BigInt {
    fn eq(&self, other: &Self) -> (r: bool) {
        proof {
            use_type_invariant(self);
            use_type_invariant(other);
            if self@ == other@ {
                lemma_shortest_form_is_unique(self.bytes@, other.bytes@);
            }
        }
        let n: usize = self.bytes.len();
        if n != other.bytes.len() {
            return false;
        }
        let mut i: usize = 0;
        while i < n
            invariant
                i <= n,
                n == self.bytes@.len(),
                n == other.bytes@.len(),
                self.bytes@.take(i as int) =~= other.bytes@.take(i as int),
                self@ == other@ ==> self.bytes@ == other.bytes@,
            decreases n - i,
        {
            if self.bytes[i] != other.bytes[i] {
                return false;
            }
            assert(self.bytes@.take(i + 1) =~= self.bytes@.take(i as int).push(self.bytes@[i as int]));
            assert(other.bytes@.take(i + 1) =~= other.bytes@.take(i as int).push(other.bytes@[i as int]));
            i = i + 1;
        }
        assert(self.bytes@ =~= self.bytes@.take(n as int));
        assert(other.bytes@ =~= other.bytes@.take(n as int));
        true
    }
}

impl vstd::std_specs::cmp::PartialEqSpecImpl for BigInt {
    open spec fn obeys_eq_spec() -> bool {
        true
    }

    open spec fn eq_spec(&self, other: &Self) -> bool {
        self@ == other@
    }
}

impl Eq for BigInt {

}

/// A byte string of two or more stays the same number without a top byte that only repeats the
/// sign.
proof fn lemma_drop_redundant_top(bytes: Seq<u8>)
    requires
        bytes.len() >= 2,
        !minimal(bytes),
    ensures
        signed_value(bytes.drop_last()) == signed_value(bytes),
    decreases bytes.len(),
{
    if bytes.len() == 2 {
        reveal_with_fuel(signed_value, 3);
    } else {
        lemma_drop_redundant_top(bytes.drop_first());
        assert(bytes.drop_last().drop_first() =~= bytes.drop_first().drop_last());
    }
}

/// The top bit is the sign.
proof fn lemma_sign_of_top(bytes: Seq<u8>)
    requires
        bytes.len() >= 1,
    ensures
        (signed_value(bytes) < 0) == (bytes[bytes.len() - 1] >= 128),
    decreases bytes.len(),
{
    if bytes.len() >= 2 {
        lemma_sign_of_top(bytes.drop_first());
    }
}

/// Two or more bytes in shortest form stand for a number that one byte cannot hold.
proof fn lemma_long_form_is_large(bytes: Seq<u8>)
    requires
        minimal(bytes),
        bytes.len() >= 2,
    ensures
        signed_value(bytes) < -128 || signed_value(bytes) >= 128,
    decreases bytes.len(),
{
    if bytes.len() == 2 {
        reveal_with_fuel(signed_value, 3);
    } else {
        lemma_long_form_is_large(bytes.drop_first());
    }
}

/// No number has two shortest forms: two byte strings that are as short as two's complement
/// allows, and that stand for the same number, are equal.
pub proof fn lemma_shortest_form_is_unique(a: Seq<u8>, b: Seq<u8>)
    requires
        minimal(a),
        minimal(b),
        signed_value(a) == signed_value(b),
    ensures
        a == b,
    decreases a.len(),
{
    if a.len() >= 2 {
        lemma_long_form_is_large(a);
    }
    if b.len() >= 2 {
        lemma_long_form_is_large(b);
    }
    if a.len() >= 2 && b.len() >= 2 {
        let ra = a.drop_first();
        let rb = b.drop_first();
        assert(signed_value(ra) == signed_value(rb) && a[0] == b[0]);
        lemma_shortest_form_is_unique(ra, rb);
        assert(a =~= seq![a[0]] + ra);
        assert(b =~= seq![b[0]] + rb);
    } else {
        assert(a =~= b);
    }
}

/// How the two remainders differ: by the modulus, where the first is not zero and has the other
/// sign.
proof fn lemma_floor_mod_from_trunc_rem(a: int, m: int)
    requires
        m != 0,
    ensures
        ({
            let t = trunc_rem(a, m);
            floor_mod(a, m) == if t != 0 && (t < 0) != (m < 0) {
                t + m
            } else {
                t
            }
        }),
{
    let d = if m < 0 {
        -m
    } else {
        m
    };
    lemma_mod_of_negation(a, d);
    lemma_mod_of_negation(-a, d);
    lemma_mod_of_opposite(a, d);
    lemma_mod_of_opposite(-a, d);
}

/// The remainder of `-a` is what the remainder of `a` leaves to the divisor, or zero.
proof fn lemma_mod_of_negation(a: int, d: int)
    requires
        d > 0,
    ensures
        (-a) % d == if a % d == 0 {
            0
        } else {
            d - a % d
        },
{
    vstd::arithmetic::div_mod::lemma_fundamental_div_mod(a, d);
    let q = a / d;
    let r = a % d;
    assert(a == d * q + r);
    if r == 0 {
        assert(-a == (-q) * d + 0) by (nonlinear_arith)
            requires
                a == d * q + r,
                r == 0,
        ;
        vstd::arithmetic::div_mod::lemma_fundamental_div_mod_converse(-a, d, -q, 0);
    } else {
        assert(-a == (-q - 1) * d + (d - r)) by (nonlinear_arith)
            requires
                a == d * q + r,
        ;
        vstd::arithmetic::div_mod::lemma_fundamental_div_mod_converse(-a, d, -q - 1, d - r);
    }
}

} // verus!
