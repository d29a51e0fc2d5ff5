//! Arithmetic on addresses and integers.

use cairo_vm_core::bigint::BigInt;
use cairo_vm_core::errors::{MemoryError, VirtualMachineError};
use cairo_vm_core::relocatable::{MaybeRelocatable, Relocatable};

fn n(value: i64) -> BigInt {
    BigInt::from_i64(value)
}

fn felt(value: i64) -> MaybeRelocatable {
    MaybeRelocatable::Int(n(value))
}

fn addr(segment_index: usize, offset: usize) -> MaybeRelocatable {
    MaybeRelocatable::from((segment_index, offset))
}

#[test]
fn integers_are_added_modulo_the_prime() {
    assert_eq!(felt(15).add_int_mod(&n(4), &n(17)), Ok(felt(2)));
    assert_eq!(felt(1).add_int_mod(&n(-4), &n(17)), Ok(felt(14)));
    assert_eq!(felt(15).add_mod(&felt(4), &n(17)), Ok(felt(2)));
}

#[test]
fn offsets_are_added_modulo_the_prime() {
    assert_eq!(addr(3, 5).add_int_mod(&n(4), &n(1000)), Ok(addr(3, 9)));
    assert_eq!(addr(3, 5).add_int_mod(&n(-4), &n(1000)), Ok(addr(3, 1)));
    assert_eq!(addr(3, 5).add_int_mod(&n(996), &n(1000)), Ok(addr(3, 1)));
    assert_eq!(felt(4).add_mod(&addr(3, 5), &n(1000)), Ok(addr(3, 9)));
    assert_eq!(addr(3, 5).add_mod(&felt(4), &n(1000)), Ok(addr(3, 9)));
}

#[test]
fn an_offset_that_does_not_exist_is_named() {
    let prime = BigInt::from_usize(usize::MAX).times(&n(1000));
    let beyond = BigInt::from_usize(usize::MAX).plus(&n(1));
    assert_eq!(
        addr(0, usize::MAX).add_int_mod(&n(1), &prime),
        Err(VirtualMachineError::OffsetExceeded(beyond))
    );
    assert_eq!(
        addr(0, 0).sub(&felt(1), &prime),
        Err(VirtualMachineError::OffsetExceeded(prime.minus(&n(1))))
    );
}

#[test]
fn two_addresses_have_no_sum() {
    assert_eq!(
        addr(1, 2).add_mod(&addr(1, 3), &n(17)),
        Err(VirtualMachineError::RelocatableAdd)
    );
}

#[test]
fn differences_are_taken_modulo_the_prime() {
    assert_eq!(felt(3).sub(&felt(5), &n(17)), Ok(felt(15)));
    assert_eq!(addr(1, 7).sub(&addr(1, 2), &n(17)), Ok(felt(5)));
    assert_eq!(addr(1, 2).sub(&addr(1, 7), &n(17)), Ok(felt(12)));
    assert_eq!(addr(1, 7).sub(&felt(2), &n(17)), Ok(addr(1, 5)));
}

#[test]
fn some_differences_do_not_exist() {
    assert_eq!(
        addr(1, 7).sub(&addr(2, 7), &n(17)),
        Err(VirtualMachineError::DiffIndexSub)
    );
    assert_eq!(
        felt(7).sub(&addr(2, 7), &n(17)),
        Err(VirtualMachineError::RelocatableSubtrahend)
    );
}

#[test]
fn a_difference_adds_up_again() {
    let prime = n(101);
    let pairs = [
        (felt(3), felt(77)),
        (addr(4, 3), felt(3)),
        (addr(4, 3), addr(4, 90)),
    ];
    for (a, b) in pairs {
        let difference = a.sub(&b, &prime).unwrap();
        assert_eq!(difference.add_mod(&b, &prime), Ok(a.clone()));
        assert_eq!(b.add_mod(&difference, &prime), Ok(a));
    }
}

#[test]
fn small_numbers_are_added_without_reducing_an_offset() {
    assert_eq!(addr(1, 16).add_usize_mod(2, Some(&n(17))), addr(1, 18));
    assert_eq!(felt(16).add_usize_mod(2, Some(&n(17))), felt(1));
    assert_eq!(felt(16).add_usize_mod(2, None), felt(18));
}

#[test]
fn only_addresses_are_addresses() {
    assert_eq!(
        addr(1, 2).as_relocatable(),
        Ok(Relocatable { segment_index: 1, offset: 2 })
    );
    assert_eq!(felt(1).as_relocatable(), Err(MemoryError::AddressNotRelocatable));
    assert_ne!(felt(1), addr(0, 1));
    assert_eq!(addr(1, 2).clone(), addr(1, 2));
}
