//! What holds of numbers, and of sums and differences of values.

use crate::bigint::{
    decimal_digits, decimal_text, floor_mod, signed_value, trunc_div, trunc_rem,
};
use crate::errors::{Fault, MemoryFault};
use crate::modular::lemma_floor_mod_is_congruent;
use crate::relocatable::{address_of, Relocatable, Value};
use vstd::arithmetic::power::{lemma_pow0, pow};
use vstd::prelude::*;

verus! {

/// `r` is `n` modulo `p`: it differs from `n` by a multiple of `p`, and lies between zero and `p`.
/// Of a zero `p` nothing is said.
pub open spec fn residue(r: int, n: int, p: int) -> bool {
    &&& p != 0 ==> (r - n) % p == 0
    &&& p > 0 ==> 0 <= r < p
    &&& p < 0 ==> p < r <= 0
}

/// `to` is `from` moved on by `n` modulo `p`: an integer to an integer, an address within its
/// segment.
pub open spec fn moved_on(from: Value, n: int, p: int, to: Value) -> bool {
    match (from, to) {
        (Value::Int(a), Value::Int(b)) => residue(b, a + n, p),
        (Value::RelocatableValue(a), Value::RelocatableValue(b)) => {
            &&& b.segment_index == a.segment_index
            &&& residue(b.offset as int, a.offset + n, p)
        },
        _ => false,
    }
}

/// `to` is `from` counted up by `n`: an integer to an integer, an address within its segment.
pub open spec fn counted_up(from: Value, n: int, to: Value) -> bool {
    match (from, to) {
        (Value::Int(a), Value::Int(b)) => b == a + n,
        (Value::RelocatableValue(a), Value::RelocatableValue(b)) => {
            &&& b.segment_index == a.segment_index
            &&& b.offset == a.offset + n
        },
        _ => false,
    }
}

/// `sum` is the sum of `a` and `b` modulo `p`.
pub open spec fn is_sum(a: Value, b: Value, p: int, sum: Value) -> bool {
    match (a, b) {
        (Value::Int(m), _) => moved_on(b, m, p, sum),
        (_, Value::Int(n)) => moved_on(a, n, p, sum),
        _ => false,
    }
}

/// `difference` is `a` less `b` modulo `p`.
pub open spec fn is_difference(a: Value, b: Value, p: int, difference: Value) -> bool {
    match (a, b) {
        (_, Value::Int(n)) => moved_on(a, -n, p, difference),
        (Value::RelocatableValue(m), Value::RelocatableValue(n)) => {
            &&& m.segment_index == n.segment_index
            &&& difference matches Value::Int(d)
            &&& residue(d, m.offset - n.offset, p)
        },
        _ => false,
    }
}

/// `from`, an address, moved on by `n` modulo `p` would have the offset `r`, and there is no such
/// offset.
pub open spec fn leaves_memory(from: Value, n: int, p: int, r: int) -> bool {
    &&& from matches Value::RelocatableValue(at)
    &&& residue(r, at.offset + n, p)
    &&& r < 0 || r > usize::MAX
}

/// A number leaves one residue.
pub proof fn law_residues_are_unique(r: int, t: int, n: int, p: int)
    requires
        p != 0,
        residue(r, n, p),
        residue(t, n, p),
    ensures
        r == t,
{
    assert(r == t) by (nonlinear_arith)
        requires
            (r - n) % p == 0,
            (t - n) % p == 0,
            p != 0,
            p > 0 ==> 0 <= r < p && 0 <= t < p,
            p < 0 ==> p < r <= 0 && p < t <= 0,
    ;
}

/// The remainder with the sign of the modulus is the residue.
pub proof fn law_floor_mod_is_the_residue(n: int, p: int)
    ensures
        residue(floor_mod(n, p), n, p),
{
    if p != 0 {
        lemma_floor_mod_is_congruent(n, p);
    }
}

/// Quotient and remainder make up the dividend, and the remainder is smaller than the divisor and
/// has the sign of the dividend.
pub proof fn law_quotient_and_remainder(a: int, b: int)
    requires
        b != 0,
    ensures
        a == trunc_div(a, b) * b + trunc_rem(a, b),
        -b < trunc_rem(a, b) < b || b < trunc_rem(a, b) < -b,
        a >= 0 ==> trunc_rem(a, b) >= 0,
        a <= 0 ==> trunc_rem(a, b) <= 0,
{
    let d = if a < 0 {
        -a
    } else {
        a
    };
    vstd::arithmetic::div_mod::lemma_fundamental_div_mod(d, b);
    assert(0 <= d % b && (b > 0 ==> d % b < b) && (b < 0 ==> d % b < -b)) by (nonlinear_arith)
        requires
            b != 0,
    ;
    assert(b * (d / b) == (d / b) * b && (-(d / b)) * b == -((d / b) * b)) by (nonlinear_arith);
    if a == 0 {
        assert(0int % b == 0) by (nonlinear_arith)
            requires
                b != 0,
        ;
    }
}

/// An integer is added to a value modulo `p`, or there is no such offset.
pub proof fn law_plus_int(value: Value, n: int, p: int)
    ensures
        match value.plus_int(n, p) {
            Ok(sum) => moved_on(value, n, p, sum),
            Err(Fault::OffsetExceeded(r)) => leaves_memory(value, n, p, r),
            Err(_) => false,
        },
{
    match value {
        Value::Int(a) => law_floor_mod_is_the_residue(a + n, p),
        Value::RelocatableValue(at) => law_floor_mod_is_the_residue(at.offset + n, p),
    }
}

/// Values are added modulo `p` in either order. Two addresses have no sum, and else only an offset
/// that does not exist stands in the way.
pub proof fn law_plus(a: Value, b: Value, p: int)
    ensures
        a.plus(b, p) == b.plus(a, p),
        match a.plus(b, p) {
            Ok(sum) => is_sum(a, b, p, sum),
            Err(Fault::RelocatableAdd) => a is RelocatableValue && b is RelocatableValue,
            Err(Fault::OffsetExceeded(r)) => {
                ||| b matches Value::Int(n) && leaves_memory(a, n, p, r)
                ||| a matches Value::Int(n) && leaves_memory(b, n, p, r)
            },
            Err(_) => false,
        },
{
    match (a, b) {
        (Value::RelocatableValue(_), Value::RelocatableValue(_)) => {},
        (Value::Int(m), Value::Int(n)) => {
            law_plus_int(a, n, p);
            assert(m + n == n + m);
        },
        (_, Value::Int(n)) => law_plus_int(a, n, p),
        (Value::Int(m), _) => law_plus_int(b, m, p),
    }
}

/// Values are subtracted modulo `p`. No address is subtracted from an integer or from an address of
/// another segment, and else only an offset that does not exist stands in the way.
pub proof fn law_minus(a: Value, b: Value, p: int)
    ensures
        match a.minus(b, p) {
            Ok(difference) => is_difference(a, b, p, difference),
            Err(Fault::DiffIndexSub) => {
                &&& a matches Value::RelocatableValue(m)
                &&& b matches Value::RelocatableValue(n)
                &&& m.segment_index != n.segment_index
            },
            Err(Fault::RelocatableSubtrahend) => a is Int && b is RelocatableValue,
            Err(Fault::OffsetExceeded(r)) => b matches Value::Int(n) && leaves_memory(a, -n, p, r),
            Err(_) => false,
        },
{
    match (a, b) {
        (Value::Int(m), Value::Int(n)) => {
            law_floor_mod_is_the_residue(m - n, p);
            assert(m - n == m + (-n));
        },
        (Value::RelocatableValue(m), Value::Int(n)) => {
            law_floor_mod_is_the_residue(m.offset - n, p);
            assert(m.offset - n == m.offset + (-n));
        },
        (Value::RelocatableValue(m), Value::RelocatableValue(n)) => {
            law_floor_mod_is_the_residue(m.offset - n.offset, p);
        },
        _ => {},
    }
}

/// A small number is added to an offset as it is, and to an integer modulo the prime, if there is
/// one.
pub proof fn law_advanced(value: Value, n: usize, p: int)
    requires
        value matches Value::RelocatableValue(at) ==> at.offset + n <= usize::MAX,
    ensures
        counted_up(value, n as int, value.advanced(n, None)),
        value is RelocatableValue ==> counted_up(value, n as int, value.advanced(n, Some(p))),
        value is Int ==> moved_on(value, n as int, p, value.advanced(n, Some(p))),
{
    if let Value::Int(a) = value {
        law_floor_mod_is_the_residue(a + n, p);
    }
}

/// An address is the address that it is, and an integer is none.
pub proof fn law_addresses_are_told(at: Relocatable, n: int)
    ensures
        address_of(Value::RelocatableValue(at)) == Ok::<Relocatable, MemoryFault>(at),
        address_of(Value::Int(n)) == Err::<Relocatable, MemoryFault>(
            MemoryFault::AddressNotRelocatable,
        ),
{
}

/// The number that a text of decimal digits stands for.
pub open spec fn number_read(digits: Seq<char>) -> int
    decreases digits.len(),
{
    if digits.len() == 0 {
        0
    } else {
        10 * number_read(digits.drop_last()) + (digits.last() as int - '0' as int)
    }
}

/// A number in decimal reads back as that number, is made of digits, and does not begin with a zero
/// unless it is one.
pub proof fn law_decimal_reads_back(n: nat)
    ensures
        number_read(decimal_digits(n)) == n,
        decimal_digits(n).len() >= 1,
        forall|i: int|
            0 <= i < decimal_digits(n).len() ==> '0' as int <= #[trigger] decimal_digits(n)[i] as int
                <= '9' as int,
        decimal_digits(n)[0] == '0' ==> n == 0,
    decreases n,
{
    if n < 10 {
        assert(decimal_digits(n).drop_last() =~= Seq::empty());
        assert(number_read(decimal_digits(n).drop_last()) == 0);
    } else {
        law_decimal_reads_back(n / 10);
        assert(decimal_digits(n).drop_last() =~= decimal_digits(n / 10));
    }
}

/// A minus sign before a negative number, and nothing before another.
pub proof fn law_decimal_shows_the_sign(n: int)
    ensures
        n >= 0 ==> decimal_text(n) == decimal_digits(n as nat),
        n < 0 ==> decimal_text(n).len() >= 1 && decimal_text(n)[0] == '-'
            && decimal_text(n).drop_first() == decimal_digits(-n as nat),
{
    if n < 0 {
        assert(decimal_text(n).drop_first() =~= decimal_digits(-n as nat));
    }
}

/// What bytes stand for without a sign: each counts for 256 times as much as the one before it.
pub open spec fn weighed(bytes: Seq<u8>) -> int
    decreases bytes.len(),
{
    if bytes.len() == 0 {
        0
    } else {
        weighed(bytes.drop_last()) + bytes.last() * pow(256, (bytes.len() - 1) as nat)
    }
}

proof fn lemma_weighed_from_below(bytes: Seq<u8>)
    requires
        bytes.len() >= 1,
    ensures
        weighed(bytes) == bytes[0] + 256 * weighed(bytes.drop_first()),
    decreases bytes.len(),
{
    reveal(pow);
    if bytes.len() == 1 {
        lemma_pow0(256);
        assert(bytes.drop_last() =~= Seq::empty());
        assert(bytes.drop_first() =~= Seq::empty());
        assert(weighed(bytes.drop_last()) == 0);
        assert(weighed(bytes.drop_first()) == 0);
        assert(bytes.last() * pow(256, 0) == bytes.last());
    } else {
        lemma_weighed_from_below(bytes.drop_last());
        assert(bytes.drop_last().drop_first() =~= bytes.drop_first().drop_last());
        let top = bytes.last() as int;
        let weight = pow(256, (bytes.len() - 2) as nat);
        assert(pow(256, (bytes.len() - 1) as nat) == 256 * weight);
        assert(top * (256 * weight) == 256 * (top * weight)) by (nonlinear_arith);
    }
}

/// Bytes stand for a number in two's complement, the least significant first: where the top bit is
/// set, the number is less by what one byte more would count for.
pub proof fn law_bytes_are_in_twos_complement(bytes: Seq<u8>)
    ensures
        bytes.len() == 0 ==> signed_value(bytes) == 0,
        bytes.len() >= 1 && bytes.last() < 128 ==> signed_value(bytes) == weighed(bytes),
        bytes.len() >= 1 && bytes.last() >= 128 ==> signed_value(bytes) == weighed(bytes) - pow(
            256,
            bytes.len(),
        ),
    decreases bytes.len(),
{
    reveal(pow);
    if bytes.len() >= 1 {
        lemma_weighed_from_below(bytes);
        if bytes.len() == 1 {
            lemma_pow0(256);
            assert(bytes.drop_first() =~= Seq::empty());
            assert(weighed(bytes.drop_first()) == 0);
            assert(pow(256, 1) == 256 * pow(256, 0));
        } else {
            law_bytes_are_in_twos_complement(bytes.drop_first());
            assert(bytes.drop_first().last() == bytes.last());
            assert(pow(256, bytes.len()) == 256 * pow(256, (bytes.len() - 1) as nat));
        }
    }
}

} // verus!
