//! Addresses, and the values that memory cells and registers hold.

use crate::bigint::{floor_mod, BigInt};
use crate::errors::{outcome, Fault, MemoryError, MemoryFault, VirtualMachineError};
use vstd::prelude::*;

verus! {

/// A place in memory: a segment and an offset into it.
#[derive(Clone, Copy, Debug, PartialEq, Eq, Hash, Structural)]
pub struct Relocatable {
    pub segment_index: usize,
    pub offset: usize,
}

impl DeepView for Relocatable {
    type V = Relocatable;

    open spec fn deep_view(&self) -> Relocatable {
        *self
    }
}

/// What a memory cell or a register holds: an address or an integer.
#[derive(Debug, Hash)]
pub enum MaybeRelocatable {
    RelocatableValue(Relocatable),
    Int(BigInt),
}

/// A `MaybeRelocatable`, mathematically.
pub enum Value {
    RelocatableValue(Relocatable),
    Int(int),
}

impl View for MaybeRelocatable {
    type V = Value;

    open spec fn view(&self) -> Value {
        match *self {
            MaybeRelocatable::RelocatableValue(rel) => Value::RelocatableValue(rel),
            MaybeRelocatable::Int(n) => Value::Int(n@),
        }
    }
}

impl DeepView for MaybeRelocatable {
    type V = Value;

    open spec fn deep_view(&self) -> Value {
        self@
    }
}

impl Clone for MaybeRelocatable {
    fn clone(&self) -> (r: Self)
        ensures
            r@ == self@,
    {
        match self {
            MaybeRelocatable::RelocatableValue(rel) => MaybeRelocatable::RelocatableValue(*rel),
            MaybeRelocatable::Int(n) => MaybeRelocatable::Int(n.clone()),
        }
    }
}

impl PartialEq for MaybeRelocatable {
    fn eq(&self, other: &Self) -> (r: bool) {
        match (self, other) {
            (
                MaybeRelocatable::RelocatableValue(a),
                MaybeRelocatable::RelocatableValue(b),
            ) => *a == *b,
            (MaybeRelocatable::Int(a), MaybeRelocatable::Int(b)) => *a == *b,
            _ => false,
        }
    }
}

impl vstd::std_specs::cmp::PartialEqSpecImpl for MaybeRelocatable {
    open spec fn obeys_eq_spec() -> bool {
        true
    }

    open spec fn eq_spec(&self, other: &Self) -> bool {
        self@ == other@
    }
}

impl Eq for MaybeRelocatable {

}

impl From<(usize, usize)> for MaybeRelocatable {
    fn from(pair: (usize, usize)) -> (r: Self) {
        MaybeRelocatable::RelocatableValue(Relocatable { segment_index: pair.0, offset: pair.1 })
    }
}

impl vstd::std_specs::convert::FromSpecImpl<(usize, usize)> for MaybeRelocatable {
    open spec fn obeys_from_spec() -> bool {
        true
    }

    open spec fn from_spec(pair: (usize, usize)) -> Self {
        MaybeRelocatable::RelocatableValue(Relocatable { segment_index: pair.0, offset: pair.1 })
    }
}

impl From<BigInt> for MaybeRelocatable {
    fn from(n: BigInt) -> (r: Self) {
        MaybeRelocatable::Int(n)
    }
}

impl vstd::std_specs::convert::FromSpecImpl<BigInt> for MaybeRelocatable {
    open spec fn obeys_from_spec() -> bool {
        true
    }

    open spec fn from_spec(n: BigInt) -> Self {
        MaybeRelocatable::Int(n)
    }
}

/// The place at `offset` in the segment, or the fault that no such place can be named.
pub open spec fn place(segment_index: usize, offset: int) -> Result<Value, Fault> {
    if 0 <= offset <= usize::MAX {
        Ok(Value::RelocatableValue(Relocatable { segment_index, offset: offset as usize }))
    } else {
        Err(Fault::OffsetExceeded(offset))
    }
}

impl Value {
    /// `self + n`, where an integer sum and an offset are both taken modulo `prime`.
    pub open spec fn plus_int(self, n: int, prime: int) -> Result<Value, Fault> {
        match self {
            Value::Int(a) => Ok(Value::Int(floor_mod(a + n, prime))),
            Value::RelocatableValue(rel) => place(
                rel.segment_index,
                floor_mod(rel.offset + n, prime),
            ),
        }
    }

    /// The sum modulo `prime`: two integers add up to an integer, an address and an integer to an
    /// address of the same segment, and two addresses to nothing.
    pub open spec fn plus(self, other: Value, prime: int) -> Result<Value, Fault> {
        match (self, other) {
            (Value::RelocatableValue(_), Value::RelocatableValue(_)) => Err(Fault::RelocatableAdd),
            (_, Value::Int(n)) => self.plus_int(n, prime),
            (Value::Int(n), _) => other.plus_int(n, prime),
        }
    }

    /// The difference modulo `prime`: between two integers, or two addresses of one segment, an
    /// integer; between an address and an integer an address. Nothing else can be subtracted.
    pub open spec fn minus(self, other: Value, prime: int) -> Result<Value, Fault> {
        match (self, other) {
            (Value::Int(a), Value::Int(b)) => Ok(Value::Int(floor_mod(a - b, prime))),
            (
                Value::RelocatableValue(a),
                Value::RelocatableValue(b),
            ) => if a.segment_index == b.segment_index {
                Ok(Value::Int(floor_mod(a.offset - b.offset, prime)))
            } else {
                Err(Fault::DiffIndexSub)
            },
            (Value::RelocatableValue(a), Value::Int(b)) => place(
                a.segment_index,
                floor_mod(a.offset - b, prime),
            ),
            (Value::Int(_), Value::RelocatableValue(_)) => Err(Fault::RelocatableSubtrahend),
        }
    }

    /// A sum with `other` is taken modulo the prime, rather than refused.
    pub open spec fn sum_is_reduced(self, other: Value) -> bool {
        !(self is RelocatableValue && other is RelocatableValue)
    }

    /// A difference with `other` is taken modulo the prime, rather than refused.
    pub open spec fn difference_is_reduced(self, other: Value) -> bool {
        match (self, other) {
            (Value::RelocatableValue(a), Value::RelocatableValue(b)) => a.segment_index
                == b.segment_index,
            (Value::Int(_), Value::RelocatableValue(_)) => false,
            _ => true,
        }
    }

    /// An integer, or an address that has `n` more offsets after it.
    pub open spec fn has_room_for(self, n: int) -> bool {
        self matches Value::RelocatableValue(rel) ==> rel.offset + n <= usize::MAX
    }

    /// `self + n`, where an integer sum is taken modulo `prime` if there is one, and an offset is
    /// not reduced.
    pub open spec fn advanced(self, n: usize, prime: Option<int>) -> Value {
        match self {
            Value::Int(a) => Value::Int(
                match prime {
                    Some(p) => floor_mod(a + n, p),
                    None => a + n,
                },
            ),
            Value::RelocatableValue(rel) => Value::RelocatableValue(
                Relocatable {
                    segment_index: rel.segment_index,
                    offset: (rel.offset + n) as usize,
                },
            ),
        }
    }
}

/// The place at `offset` in the segment, where an offset of that size exists.
fn place_at(segment_index: usize, offset: BigInt) -> (r: Result<
    MaybeRelocatable,
    VirtualMachineError,
>)
    ensures
        outcome(r) == place(segment_index, offset@),
{
    match offset.to_usize() {
        Some(offset) => Ok(
            MaybeRelocatable::RelocatableValue(Relocatable { segment_index, offset }),
        ),
        None => Err(VirtualMachineError::OffsetExceeded(offset)),
    }
}

impl MaybeRelocatable {
    /// Adds an integer modulo `prime`.
    pub fn add_int_mod(&self, other: &BigInt, prime: &BigInt) -> (r: Result<
        MaybeRelocatable,
        VirtualMachineError,
    >)
        requires
            prime@ != 0,
        ensures
            outcome(r) == self@.plus_int(other@, prime@),
    {
        match self {
            MaybeRelocatable::Int(n) => Ok(MaybeRelocatable::Int(n.plus(other).mod_floor(prime))),
            MaybeRelocatable::RelocatableValue(rel) => place_at(
                rel.segment_index,
                BigInt::from_usize(rel.offset).plus(other).mod_floor(prime),
            ),
        }
    }

    /// Adds a small number; an integer is reduced modulo `prime` where one is given.
    pub fn add_usize_mod(&self, other: usize, prime: Option<&BigInt>) -> (r: MaybeRelocatable)
        requires
            self@.has_room_for(other as int),
            self is Int && prime is Some ==> prime->0@ != 0,
        ensures
            r@ == self@.advanced(other, prime.deep_view()),
    {
        match self {
            MaybeRelocatable::Int(n) => {
                let sum: BigInt = n.plus(&BigInt::from_usize(other));
                match prime {
                    Some(p) => MaybeRelocatable::Int(sum.mod_floor(p)),
                    None => MaybeRelocatable::Int(sum),
                }
            },
            MaybeRelocatable::RelocatableValue(rel) => MaybeRelocatable::RelocatableValue(
                Relocatable { segment_index: rel.segment_index, offset: rel.offset + other },
            ),
        }
    }

    /// Adds two values modulo `prime`. Two addresses cannot be added.
    pub fn add_mod(&self, other: &MaybeRelocatable, prime: &BigInt) -> (r: Result<
        MaybeRelocatable,
        VirtualMachineError,
    >)
        requires
            self@.sum_is_reduced(other@) ==> prime@ != 0,
        ensures
            outcome(r) == self@.plus(other@, prime@),
    {
        match (self, other) {
            (
                MaybeRelocatable::RelocatableValue(_),
                MaybeRelocatable::RelocatableValue(_),
            ) => Err(VirtualMachineError::RelocatableAdd),
            (_, MaybeRelocatable::Int(n)) => self.add_int_mod(n, prime),
            (MaybeRelocatable::Int(n), _) => other.add_int_mod(n, prime),
        }
    }

    /// Subtracts modulo `prime`. Addresses are subtracted only within one segment, and never from
    /// an integer.
    pub fn sub(&self, other: &MaybeRelocatable, prime: &BigInt) -> (r: Result<
        MaybeRelocatable,
        VirtualMachineError,
    >)
        requires
            self@.difference_is_reduced(other@) ==> prime@ != 0,
        ensures
            outcome(r) == self@.minus(other@, prime@),
    {
        match (self, other) {
            (MaybeRelocatable::Int(a), MaybeRelocatable::Int(b)) => Ok(
                MaybeRelocatable::Int(a.minus(b).mod_floor(prime)),
            ),
            (MaybeRelocatable::RelocatableValue(a), MaybeRelocatable::RelocatableValue(b)) => {
                if a.segment_index == b.segment_index {
                    let a_offset: BigInt = BigInt::from_usize(a.offset);
                    let b_offset: BigInt = BigInt::from_usize(b.offset);
                    Ok(MaybeRelocatable::Int(a_offset.minus(&b_offset).mod_floor(prime)))
                } else {
                    Err(VirtualMachineError::DiffIndexSub)
                }
            },
            (MaybeRelocatable::RelocatableValue(a), MaybeRelocatable::Int(b)) => place_at(
                a.segment_index,
                BigInt::from_usize(a.offset).minus(b).mod_floor(prime),
            ),
            (
                MaybeRelocatable::Int(_),
                MaybeRelocatable::RelocatableValue(_),
            ) => Err(VirtualMachineError::RelocatableSubtrahend),
        }
    }

    /// The address that the value is, if it is one.
    pub fn as_relocatable(&self) -> (r: Result<Relocatable, MemoryError>)
        ensures
            outcome(r) == address_of(self@),
    {
        match self {
            MaybeRelocatable::RelocatableValue(rel) => Ok(*rel),
            MaybeRelocatable::Int(_) => Err(MemoryError::AddressNotRelocatable),
        }
    }
}

/// The address that a value is, or the fault that it is none.
pub open spec fn address_of(value: Value) -> Result<Relocatable, MemoryFault> {
    match value {
        Value::RelocatableValue(rel) => Ok(rel),
        Value::Int(_) => Err(MemoryFault::AddressNotRelocatable),
    }
}

} // verus!
