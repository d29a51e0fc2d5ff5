//! What holds of the texts of errors.

use crate::bigint::decimal_text;
use crate::errors::{Fault, MemoryFault, RunnerFault};
use crate::messages::{held_text, memory_message, message, runner_message, value_text};
use crate::relocatable::Value;
use crate::value_laws::{law_decimal_reads_back, law_decimal_shows_the_sign, number_read};
use vstd::prelude::*;

verus! {

/// `text` is one decimal digit or more, and the digits stand for `n`.
pub open spec fn counts(text: Seq<char>, n: int) -> bool {
    &&& text.len() >= 1
    &&& forall|i: int| 0 <= i < text.len() ==> '0' as int <= #[trigger] text[i] as int <= '9' as int
    &&& number_read(text) == n
}

/// `text` reads as `n`: digits, after a minus sign where `n` is negative.
pub open spec fn reads_as(text: Seq<char>, n: int) -> bool {
    if n < 0 {
        text.len() >= 1 && text[0] == '-' && counts(text.drop_first(), -n)
    } else {
        counts(text, n)
    }
}

/// `text` shows `value`: the number, or the segment and the offset of the address.
pub open spec fn shows(text: Seq<char>, value: Value) -> bool {
    match value {
        Value::Int(n) => exists|number: Seq<char>| #[trigger]
            reads_as(number, n) && text == "Int("@ + number + ")"@,
        Value::RelocatableValue(at) => exists|segment: Seq<char>, offset: Seq<char>|
            {
                &&& #[trigger] reads_as(segment, at.segment_index as int)
                &&& #[trigger] reads_as(offset, at.offset as int)
                &&& text == "RelocatableValue(Relocatable { segment_index: "@ + segment
                    + ", offset: "@ + offset + " })"@
            },
    }
}

/// `text` is `label` with `n` behind it.
pub open spec fn tells(text: Seq<char>, label: Seq<char>, n: int) -> bool {
    exists|number: Seq<char>| #[trigger] reads_as(number, n) && text == label + number
}

/// `text` is `label`, `a`, the sign that they differ, `b` and `end`.
pub open spec fn contrasts(text: Seq<char>, label: Seq<char>, a: int, b: int, end: Seq<char>) -> bool {
    exists|x: Seq<char>, y: Seq<char>|
        {
            &&& #[trigger] reads_as(x, a)
            &&& #[trigger] reads_as(y, b)
            &&& text == label + x + " != "@ + y + end
        }
}

/// A number in decimal reads as that number.
pub proof fn law_decimal_text_reads_as_the_number(n: int)
    ensures
        reads_as(decimal_text(n), n),
{
    law_decimal_shows_the_sign(n);
    if n < 0 {
        law_decimal_reads_back(-n as nat);
    } else {
        law_decimal_reads_back(n as nat);
    }
}

/// The text of a value shows the value, and a missing value is told from one that is there.
pub proof fn law_values_are_shown(value: Value)
    ensures
        shows(value_text(value), value),
        exists|text: Seq<char>| #[trigger]
            shows(text, value) && held_text(Some(value)) == "Some("@ + text + ")"@,
        held_text(None) == "None"@,
{
    match value {
        Value::Int(n) => {
            law_decimal_text_reads_as_the_number(n);
        },
        Value::RelocatableValue(at) => {
            law_decimal_text_reads_as_the_number(at.segment_index as int);
            law_decimal_text_reads_as_the_number(at.offset as int);
        },
    }
    assert(shows(value_text(value), value));
}

/// What is said of flags that mean nothing: which field they are of, and the number in it.
pub proof fn law_what_is_said_of_flags(n: i64)
    ensures
        tells(message(Fault::InvalidOp1Reg(n)), "Invalid op1_register value: "@, n as int),
        tells(message(Fault::InvalidPcUpdate(n)), "Invalid pc_update value: "@, n as int),
        tells(message(Fault::InvalidRes(n)), "Invalid res value: "@, n as int),
        tells(message(Fault::InvalidOpcode(n)), "Invalid opcode value: "@, n as int),
        tells(message(Fault::InvalidApUpdate(n)), "Invalid ap_update value: "@, n as int),
{
    law_decimal_text_reads_as_the_number(n as int);
}

/// What is said of two numbers that should be one: both of them, in the order in which the error
/// holds them.
pub proof fn law_what_is_said_of_unequal_numbers(a: int, b: int)
    ensures
        contrasts(
            message(Fault::DiffAssertValues(a, b)),
            "An ASSERT_EQ instruction failed: "@,
            a,
            b,
            Seq::empty(),
        ),
        contrasts(
            message(Fault::CantWriteReturnPc(a, b)),
            "Call failed to write return-pc (inconsistent op0): "@,
            a,
            b,
            ". Did you forget to increment ap?"@,
        ),
        contrasts(
            message(Fault::CantWriteReturnFp(a, b)),
            "Call failed to write return-fp (inconsistent dst): "@,
            a,
            b,
            ". Did you forget to increment ap?"@,
        ),
{
    law_decimal_text_reads_as_the_number(a);
    law_decimal_text_reads_as_the_number(b);
    let text = message(Fault::DiffAssertValues(a, b));
    assert(text + Seq::<char>::empty() =~= text);
}

/// What is said of an offset that does not fit: the offset.
pub proof fn law_what_is_said_of_offsets(offset: int)
    ensures
        exists|number: Seq<char>| #[trigger]
            reads_as(number, offset) && message(Fault::OffsetExceeded(offset)) == "Offset "@ + number
                + " exceeds the maximum offset value"@,
{
    law_decimal_text_reads_as_the_number(offset);
}

/// What is said of memory: the segment that is not there and how many there are, or the address,
/// what it holds and what was to be written, in this order. A fault of memory says the same where it
/// stops a machine.
pub proof fn law_what_is_said_of_memory(
    index: usize,
    count: usize,
    address: Value,
    held: Value,
    new: Value,
    fault: MemoryFault,
)
    ensures
        exists|x: Seq<char>, y: Seq<char>|
            {
                &&& #[trigger] reads_as(x, index as int)
                &&& #[trigger] reads_as(y, count as int)
                &&& memory_message(MemoryFault::UnallocatedSegment(index, count))
                    == "Can't insert into segment #"@ + x + "; memory only has "@ + y + " segment"@
            },
        exists|x: Seq<char>, y: Seq<char>, z: Seq<char>|
            {
                &&& #[trigger] shows(x, address)
                &&& #[trigger] shows(y, held)
                &&& #[trigger] shows(z, new)
                &&& memory_message(MemoryFault::InconsistentMemory(address, held, new))
                    == "Inconsistent memory assignment at address "@ + x + ". "@ + y + " != "@ + z
            },
        message(Fault::MemoryError(fault)) == memory_message(fault),
{
    law_decimal_text_reads_as_the_number(index as int);
    law_decimal_text_reads_as_the_number(count as int);
    law_values_are_shown(address);
    law_values_are_shown(held);
    law_values_are_shown(new);
}

/// What is said of builtins: the address that should hold an integer, or the name of the builtin,
/// what it tells and what memory holds, in this order. A fault of a builtin says the same where it
/// stops a machine.
pub proof fn law_what_is_said_of_builtins(
    address: Value,
    name: Seq<char>,
    deduced: Value,
    held: Value,
    fault: RunnerFault,
)
    ensures
        exists|x: Seq<char>| #[trigger]
            shows(x, address) && runner_message(RunnerFault::ExpectedInteger(address))
                == "Expected an integer at address "@ + x,
        exists|x: Seq<char>, y: Seq<char>|
            {
                &&& #[trigger] shows(x, deduced)
                &&& #[trigger] shows(y, held)
                &&& message(Fault::InconsistentAutoDeduction(name, deduced, Some(held)))
                    == "Inconsistent auto-deduction for builtin "@ + name + ", expected "@ + x
                    + ", got "@ + ("Some("@ + y + ")"@)
            },
        exists|x: Seq<char>| #[trigger]
            shows(x, deduced) && message(Fault::InconsistentAutoDeduction(name, deduced, None))
                == "Inconsistent auto-deduction for builtin "@ + name + ", expected "@ + x
                + ", got "@ + "None"@,
        message(Fault::RunnerError(fault)) == runner_message(fault),
{
    law_values_are_shown(address);
    law_values_are_shown(deduced);
    law_values_are_shown(held);
}

} // verus!
