//! What holds of operands: where they are, and where their values come from.

use crate::bigint::{trunc_div, trunc_rem};
use crate::builtin_laws::{answered, law_asking_is_answered};
use crate::builtin_runner::Runners;
use crate::errors::Fault;
use crate::instruction::InstructionView;
use crate::laws::{lemma_answers, law_operands_are_in_memory, law_operands_keep_memory};
use crate::memory::{cell, written, Cells};
use crate::model::{
    assertion_outcome, computed_res, deduced_dst, deduced_factor, deduced_op0, deduced_op1, fetched,
    operands_computed, settled, settled_dst, settled_op0, settled_op1, settled_res, Fetched,
    MachineState, OperandsView,
};
use crate::modular::{invertible, is_inverse, lemma_combination, lemma_mod_quotient};
use crate::relocatable::Value;
use crate::value_laws::{
    counted_up, is_difference, is_sum, law_advanced, law_minus, law_plus, law_quotient_and_remainder,
    leaves_memory,
};
use vstd::prelude::*;

verus! {

/// Where the operands were found, and what was found there.
pub proof fn law_operands_are_fetched_from_their_addresses(s: MachineState, i: InstructionView)
    ensures
        match fetched(s, i) {
            Ok(found) => {
                &&& s.registers.dst_addr(i) == Ok::<Value, Fault>(found.addresses.dst)
                &&& s.registers.op0_addr(i) == Ok::<Value, Fault>(found.addresses.op0)
                &&& s.registers.op1_addr(i, found.op0) == Ok::<Value, Fault>(found.addresses.op1)
                &&& found.addresses.dst matches Value::RelocatableValue(dst_at)
                &&& found.dst == cell(s.cells, dst_at)
                &&& found.addresses.op0 matches Value::RelocatableValue(op0_at)
                &&& found.op0 == cell(s.cells, op0_at)
                &&& found.addresses.op1 matches Value::RelocatableValue(op1_at)
                &&& found.op1 == cell(s.cells, op1_at)
            },
            Err(fault) => {
                // The destination, then the first operand, then the second: each address must be
                // there, and be one.
                ||| s.registers.dst_addr(i) == Err::<Value, Fault>(fault)
                ||| {
                    &&& fault == Fault::InvalidInstructionEncoding
                    &&& s.registers.dst_addr(i) matches Ok(Value::Int(_))
                }
                ||| {
                    &&& s.registers.dst_addr(i) matches Ok(Value::RelocatableValue(_))
                    &&& s.registers.op0_addr(i) == Err::<Value, Fault>(fault)
                }
                ||| {
                    &&& fault == Fault::InvalidInstructionEncoding
                    &&& s.registers.dst_addr(i) matches Ok(Value::RelocatableValue(_))
                    &&& s.registers.op0_addr(i) matches Ok(Value::Int(_))
                }
                ||| {
                    &&& s.registers.dst_addr(i) matches Ok(Value::RelocatableValue(_))
                    &&& s.registers.op0_addr(i) matches Ok(Value::RelocatableValue(at))
                    &&& {
                        ||| s.registers.op1_addr(i, cell(s.cells, at)) == Err::<Value, Fault>(fault)
                        ||| {
                            &&& fault == Fault::InvalidInstructionEncoding
                            &&& s.registers.op1_addr(i, cell(s.cells, at)) matches Ok(
                                Value::Int(_),
                            )
                        }
                    }
                }
            },
        },
{
}

/// `factor` is what is deduced of the factor that makes `dst` out of `known` modulo `p`.
pub open spec fn factor_of(dst: int, known: int, p: int, factor: Option<Value>) -> bool {
    let whole = trunc_rem(trunc_div(dst, known), p);
    let whole_fits = p != 0 && (whole * known - dst) % p == 0;
    &&& known == 0 ==> factor is None
    &&& known != 0 && whole_fits ==> factor == Some(Value::Int(whole))
    &&& known != 0 && p != 0 && !whole_fits ==> match factor {
        Some(Value::Int(f)) => (f * known - dst) % p == 0 && (p > 0 ==> 0 <= f < p) && (p < 0
            ==> p < f <= 0),
        Some(Value::RelocatableValue(_)) => false,
        None => forall|x: int| (#[trigger] (x * known) - 1) % p != 0,
    }
}

/// A factor is deduced where one can be told, and it solves its equation; and the destination comes
/// with it as the result.
pub proof fn law_factors_solve_their_equation(dst: int, known: int, p: int)
    ensures
        factor_of(dst, known, p, deduced_factor(dst, known, p).0),
        deduced_factor(dst, known, p).0 is Some ==> deduced_factor(dst, known, p).1 == Some(
            Value::Int(dst),
        ),
        deduced_factor(dst, known, p).0 is None ==> deduced_factor(dst, known, p).1 is None,
{
    if p != 0 {
        if invertible(known, p) {
            lemma_mod_quotient(dst, known, p);
        } else {
            assert forall|x: int| (#[trigger] (x * known) - 1) % p != 0 by {
                assert(!is_inverse(x, known, p));
            }
        }
    }
}

/// `op0` is what is deduced of an unknown first operand.
pub open spec fn op0_follows(
    s: MachineState,
    i: InstructionView,
    dst: Option<Value>,
    op1: Option<Value>,
    op0: Option<Value>,
) -> bool {
    if i.opcode is Call {
        op0 is Some && counted_up(s.registers.pc, i.size() as int, op0->0)
    } else if i.opcode is AssertEq && i.res is Add && dst is Some && op1 is Some {
        op0 is Some && is_difference(dst->0, op1->0, s.prime, op0->0)
    } else if i.opcode is AssertEq && i.res is Mul && dst is Some && dst->0 is Int && op1 is Some
        && op1->0 is Int {
        factor_of(dst->0->Int_0, op1->0->Int_0, s.prime, op0)
    } else {
        op0 is None
    }
}

/// `op1` is what is deduced of an unknown second operand.
pub open spec fn op1_follows(
    s: MachineState,
    i: InstructionView,
    dst: Option<Value>,
    op0: Option<Value>,
    op1: Option<Value>,
) -> bool {
    if i.opcode is AssertEq && i.res is Op1 {
        op1 == dst
    } else if i.opcode is AssertEq && i.res is Add && dst is Some && op0 is Some {
        op1 is Some && is_difference(dst->0, op0->0, s.prime, op1->0)
    } else if i.opcode is AssertEq && i.res is Mul && dst is Some && dst->0 is Int && op0 is Some
        && op0->0 is Int {
        factor_of(dst->0->Int_0, op0->0->Int_0, s.prime, op1)
    } else {
        op1 is None
    }
}

/// A deduction of a sum's operand is refused, with `fault`, where the difference is.
pub open spec fn difference_is_refused(
    s: MachineState,
    i: InstructionView,
    dst: Option<Value>,
    known: Option<Value>,
    fault: Fault,
) -> bool {
    &&& i.opcode is AssertEq && i.res is Add && dst is Some && known is Some
    &&& match fault {
        Fault::DiffIndexSub => {
            &&& dst->0 matches Value::RelocatableValue(m)
            &&& known->0 matches Value::RelocatableValue(n)
            &&& m.segment_index != n.segment_index
        },
        Fault::RelocatableSubtrahend => dst->0 is Int && known->0 is RelocatableValue,
        Fault::OffsetExceeded(r) => known->0 matches Value::Int(n) && leaves_memory(
            dst->0,
            -n,
            s.prime,
            r,
        ),
        _ => false,
    }
}

/// An unknown first operand is deduced from the destination and the second operand, in a call from
/// pc. The destination comes with it as the result, unless in a call.
pub proof fn law_op0_is_deduced(
    s: MachineState,
    i: InstructionView,
    dst: Option<Value>,
    op1: Option<Value>,
)
    requires
        i.opcode is Call && s.registers.pc is RelocatableValue
            ==> s.registers.pc->RelocatableValue_0.offset + i.size() <= usize::MAX,
    ensures
        match deduced_op0(s, i, dst, op1) {
            Ok((op0, res)) => {
                &&& op0_follows(s, i, dst, op1, op0)
                &&& res == if op0 is Some && i.opcode is AssertEq {
                    dst
                } else {
                    None
                }
            },
            Err(fault) => difference_is_refused(s, i, dst, op1, fault),
        },
{
    if i.opcode is Call {
        law_advanced(s.registers.pc, i.size(), 1);
    }
    match (dst, op1) {
        (Some(d), Some(b)) => {
            law_minus(d, b, s.prime);
            law_factors_solve_their_equation(d->Int_0, b->Int_0, s.prime);
        },
        _ => {},
    }
}

/// An unknown second operand is deduced from the destination and the first operand. The destination
/// comes with it as the result.
pub proof fn law_op1_is_deduced(
    s: MachineState,
    i: InstructionView,
    dst: Option<Value>,
    op0: Option<Value>,
)
    ensures
        match deduced_op1(s, i, dst, op0) {
            Ok((op1, res)) => {
                &&& op1_follows(s, i, dst, op0, op1)
                &&& res == if op1 is Some {
                    dst
                } else {
                    None
                }
            },
            Err(fault) => difference_is_refused(s, i, dst, op0, fault),
        },
{
    match (dst, op0) {
        (Some(d), Some(a)) => {
            law_minus(d, a, s.prime);
            law_factors_solve_their_equation(d->Int_0, a->Int_0, s.prime);
        },
        _ => {},
    }
}

/// `res` is what the operands give.
pub open spec fn is_result(
    s: MachineState,
    i: InstructionView,
    op0: Value,
    op1: Value,
    res: Option<Value>,
) -> bool {
    if i.res is Unconstrained {
        res is None
    } else if i.res is Op1 {
        res == Some(op1)
    } else if i.res is Add {
        res is Some && is_sum(op0, op1, s.prime, res->0)
    } else {
        &&& op0 matches Value::Int(a)
        &&& op1 matches Value::Int(b)
        &&& res matches Some(Value::Int(r))
        &&& s.prime != 0 ==> {
            &&& (r - a * b) % s.prime == 0
            &&& -s.prime < r < s.prime || s.prime < r < -s.prime
            &&& a * b >= 0 ==> r >= 0
            &&& a * b <= 0 ==> r <= 0
        }
    }
}

/// The result is the second operand, the sum or the product of the operands, or nothing. Two
/// addresses have no sum, and only integers have a product.
pub proof fn law_results_are_computed(s: MachineState, i: InstructionView, op0: Value, op1: Value)
    ensures
        match computed_res(s, i, op0, op1) {
            Ok(res) => is_result(s, i, op0, op1, res),
            Err(Fault::PureValue) => i.res is Mul && !(op0 is Int && op1 is Int),
            Err(Fault::RelocatableAdd) => i.res is Add && op0 is RelocatableValue
                && op1 is RelocatableValue,
            Err(Fault::OffsetExceeded(r)) => {
                &&& i.res is Add
                &&& {
                    ||| op1 matches Value::Int(n) && leaves_memory(op0, n, s.prime, r)
                    ||| op0 matches Value::Int(n) && leaves_memory(op1, n, s.prime, r)
                }
            },
            Err(_) => false,
        },
{
    law_plus(op0, op1, s.prime);
    if i.res is Mul && op0 is Int && op1 is Int && s.prime != 0 {
        let product = op0->Int_0 * op1->Int_0;
        let quotient = trunc_div(product, s.prime);
        law_quotient_and_remainder(product, s.prime);
        lemma_combination(-quotient, s.prime, 0, s.prime, s.prime);
        assert(trunc_rem(product, s.prime) - product == (-quotient) * s.prime + 0 * s.prime)
            by (nonlinear_arith)
            requires
                product == quotient * s.prime + trunc_rem(product, s.prime),
        ;
        assert(s.prime % s.prime == 0) by {
            lemma_combination(1, 0, 0, 0, s.prime);
        }
    }
}

/// An unknown destination is the result of an assert-equal, be it an integer or an address, and the
/// frame pointer in a call, and else cannot be told.
pub proof fn law_dst_is_deduced(s: MachineState, i: InstructionView, res: Option<Value>)
    ensures
        i.opcode is AssertEq ==> deduced_dst(s, i, res) == res,
        i.opcode is Call ==> deduced_dst(s, i, res) == Some(s.registers.fp),
        i.opcode is NOp || i.opcode is Ret ==> deduced_dst(s, i, res) is None,
{
}

/// What the opcode demands is met exactly if: in an assert-equal, there is a result, and it equals
/// the destination where both are integers, whatever the operands are; in a call, integers that are
/// to be the return address and the frame pointer are so. The fault names what differs.
pub proof fn law_demands_of_the_opcode(s: MachineState, i: InstructionView, o: OperandsView)
    ensures
        match assertion_outcome(s, i, o) {
            Ok(()) => {
                &&& i.opcode is AssertEq ==> {
                    &&& o.res is Some
                    &&& o.res->0 is Int && o.dst is Int ==> o.res->0 == o.dst
                }
                &&& i.opcode is Call ==> {
                    &&& o.op0 is Int && s.registers.pc is Int ==> counted_up(
                        s.registers.pc,
                        i.size() as int,
                        o.op0,
                    )
                    &&& o.dst is Int && s.registers.fp is Int ==> o.dst == s.registers.fp
                }
            },
            Err(Fault::UnconstrainedResAssertEq) => i.opcode is AssertEq && o.res is None,
            Err(Fault::DiffAssertValues(res, dst)) => {
                &&& i.opcode is AssertEq
                &&& o.res == Some(Value::Int(res)) && o.dst == Value::Int(dst)
                &&& res != dst
            },
            Err(Fault::CantWriteReturnPc(op0, pc)) => {
                &&& i.opcode is Call
                &&& o.op0 == Value::Int(op0)
                &&& counted_up(s.registers.pc, i.size() as int, Value::Int(pc))
                &&& op0 != pc
            },
            Err(Fault::CantWriteReturnFp(dst, fp)) => {
                &&& i.opcode is Call
                &&& o.dst == Value::Int(dst) && s.registers.fp == Value::Int(fp)
                &&& dst != fp
                &&& o.op0 is Int && s.registers.pc is Int ==> counted_up(
                    s.registers.pc,
                    i.size() as int,
                    o.op0,
                )
            },
            Err(_) => false,
        },
{
}

/// Where the first operand comes from: memory, else the builtin, else deduction.
pub open spec fn op0_comes_from(
    s: MachineState,
    i: InstructionView,
    found: Fetched,
    answer0: Result<Option<Value>, Fault>,
    op0: Option<Value>,
) -> bool {
    if found.op0 is Some {
        op0 == found.op0
    } else {
        &&& answer0 is Ok
        &&& answer0->Ok_0 is Some ==> op0 == answer0->Ok_0
        &&& answer0->Ok_0 is None ==> op0_follows(s, i, found.dst, found.op1, op0)
    }
}

/// Where the second operand comes from: memory, else the builtin, else deduction.
pub open spec fn op1_comes_from(
    s: MachineState,
    i: InstructionView,
    found: Fetched,
    op0: Option<Value>,
    answer1: Result<Option<Value>, Fault>,
    op1: Option<Value>,
) -> bool {
    if found.op1 is Some {
        op1 == found.op1
    } else {
        &&& answer1 is Ok
        &&& answer1->Ok_0 is Some ==> op1 == answer1->Ok_0
        &&& answer1->Ok_0 is None ==> op1_follows(s, i, found.dst, op0, op1)
    }
}

/// An operand was deduced from the destination: neither memory nor a builtin told it.
pub open spec fn from_dst(
    i: InstructionView,
    found: Option<Value>,
    answer: Result<Option<Value>, Fault>,
    operand: Option<Value>,
) -> bool {
    &&& found is None
    &&& answer == Ok::<Option<Value>, Fault>(None)
    &&& i.opcode is AssertEq
    &&& operand is Some
}

/// The first operand is settled from where it comes from, and the destination comes with it as the
/// result exactly where it was deduced from that.
pub proof fn law_op0_is_settled(
    s: MachineState,
    i: InstructionView,
    found: Fetched,
    answer0: Result<Option<Value>, Fault>,
)
    requires
        i.opcode is Call && s.registers.pc is RelocatableValue && found.op0 is None && answer0
            == Ok::<Option<Value>, Fault>(None) ==> s.registers.pc->RelocatableValue_0.offset
            + i.size() <= usize::MAX,
    ensures
        match settled_op0(s, i, found, answer0) {
            Ok((op0, res)) => {
                &&& op0_comes_from(s, i, found, answer0, op0)
                &&& res == if from_dst(i, found.op0, answer0, op0) {
                    found.dst
                } else {
                    None
                }
            },
            Err(fault) => {
                &&& found.op0 is None
                &&& {
                    ||| answer0 == Err::<Option<Value>, Fault>(fault)
                    ||| {
                        &&& answer0 == Ok::<Option<Value>, Fault>(None)
                        &&& difference_is_refused(s, i, found.dst, found.op1, fault)
                    }
                }
            },
        },
{
    if found.op0 is None && answer0 == Ok::<Option<Value>, Fault>(None) {
        law_op0_is_deduced(s, i, found.dst, found.op1);
    }
}

/// The second operand is settled from where it comes from, and a result that is not there yet comes
/// with it exactly where it was deduced from the destination.
pub proof fn law_op1_is_settled(
    s: MachineState,
    i: InstructionView,
    found: Fetched,
    op0: Option<Value>,
    res0: Option<Value>,
    answer1: Result<Option<Value>, Fault>,
)
    ensures
        match settled_op1(s, i, found, op0, res0, answer1) {
            Ok((op1, res)) => {
                &&& op1_comes_from(s, i, found, op0, answer1, op1)
                &&& res == if res0 is None && from_dst(i, found.op1, answer1, op1) {
                    found.dst
                } else {
                    res0
                }
            },
            Err(fault) => {
                &&& found.op1 is None
                &&& {
                    ||| answer1 == Err::<Option<Value>, Fault>(fault)
                    ||| {
                        &&& answer1 == Ok::<Option<Value>, Fault>(None)
                        &&& difference_is_refused(s, i, found.dst, op0, fault)
                    }
                }
            },
        },
{
    if found.op1 is None && answer1 == Ok::<Option<Value>, Fault>(None) {
        law_op1_is_deduced(s, i, found.dst, op0);
    }
}

/// A result that is there stays; else it is computed from the operands, which must both be there.
pub proof fn law_res_is_settled(
    s: MachineState,
    i: InstructionView,
    op0: Option<Value>,
    op1: Option<Value>,
    res: Option<Value>,
)
    ensures
        res is Some ==> settled_res(s, i, op0, op1, res) == Ok::<Option<Value>, Fault>(res),
        res is None && op0 is Some && op1 is Some ==> settled_res(s, i, op0, op1, res)
            == computed_res(s, i, op0->0, op1->0),
        res is None && (op0 is None || op1 is None) ==> settled_res(s, i, op0, op1, res) == Err::<
            Option<Value>,
            Fault,
        >(Fault::InvalidInstructionEncoding),
{
}

/// A destination that is there stays; else it is the result of an assert-equal, or in a call the
/// frame pointer, and must be one of them.
pub proof fn law_dst_is_settled(
    s: MachineState,
    i: InstructionView,
    dst: Option<Value>,
    res: Option<Value>,
)
    ensures
        match settled_dst(s, i, dst, res) {
            Ok(value) => {
                ||| dst == Some(value)
                ||| dst is None && i.opcode is AssertEq && res == Some(value)
                ||| dst is None && i.opcode is Call && value == s.registers.fp
            },
            Err(fault) => {
                &&& fault == Fault::NoDst
                &&& dst is None
                &&& i.opcode is AssertEq ==> res is None
                &&& !(i.opcode is Call)
            },
        },
{
}

/// Where the operands and the result of a computation that succeeded come from. An operand is what
/// memory held, else what the builtin that sits in its segment answers, whatever the destination
/// holds, and only else what is deduced. The result is the destination where an operand was deduced
/// from that, and else is computed from the operands. A destination that memory did not hold is the
/// result of an assert-equal, and in a call the frame pointer. All of them are in memory
/// afterwards, at their addresses.
pub proof fn law_where_operands_come_from(
    s: MachineState,
    before: Runners,
    i: InstructionView,
    o: OperandsView,
    cells: Cells,
    after: Runners,
) -> (r: (Result<Option<Value>, Fault>, Runners, Result<Option<Value>, Fault>))
    requires
        operands_computed(s, before, i, Ok(o), cells, after),
        i.opcode is Call && s.registers.pc is RelocatableValue
            ==> s.registers.pc->RelocatableValue_0.offset + i.size() <= usize::MAX,
    ensures
        ({
            let (answer0, between, answer1) = r;
            &&& fetched(s, i) matches Ok(found)
            &&& found.addresses.dst matches Value::RelocatableValue(dst_at)
            &&& found.addresses.op0 matches Value::RelocatableValue(op0_at)
            &&& found.addresses.op1 matches Value::RelocatableValue(op1_at)
            // The builtins are asked for what memory does not hold, and for nothing else.
            &&& found.op0 is None ==> answered(before, op0_at, s.cells, answer0, between)
            &&& found.op0 is Some ==> between == before
            &&& found.op1 is None ==> answered(between, op1_at, s.cells, answer1, after)
            &&& found.op1 is Some ==> after == between
            // What they answer is taken.
            &&& found.op0 is Some ==> found.op0 == Some(o.op0)
            &&& found.op1 is Some ==> found.op1 == Some(o.op1)
            &&& found.op0 is None ==> answer0 is Ok && (answer0->Ok_0 is Some ==> answer0->Ok_0
                == Some(o.op0))
            &&& found.op1 is None ==> answer1 is Ok && (answer1->Ok_0 is Some ==> answer1->Ok_0
                == Some(o.op1))
            &&& op0_comes_from(s, i, found, answer0, Some(o.op0))
            &&& op1_comes_from(s, i, found, Some(o.op0), answer1, Some(o.op1))
            // The result and the destination.
            &&& if from_dst(i, found.op0, answer0, Some(o.op0)) || from_dst(
                i,
                found.op1,
                answer1,
                Some(o.op1),
            ) {
                found.dst is Some && o.res == found.dst
            } else {
                is_result(s, i, o.op0, o.op1, o.res)
            }
            &&& found.dst is Some ==> found.dst == Some(o.dst)
            &&& found.dst is None ==> {
                ||| i.opcode is AssertEq && o.res == Some(o.dst)
                ||| i.opcode is Call && o.dst == s.registers.fp
            }
            // Memory.
            &&& cell(cells, dst_at) == Some(o.dst)
            &&& cell(cells, op0_at) == Some(o.op0)
            &&& cell(cells, op1_at) == Some(o.op1)
        }),
{
    let (answer0, between, answer1) = lemma_answers(s, before, i, Ok(o), cells, after);
    law_operands_are_in_memory(s, before, i, o, cells, after);
    law_operands_keep_memory(s, before, i, Ok(o), cells, after);
    law_operands_are_fetched_from_their_addresses(s, i);
    let found = fetched(s, i)->Ok_0;
    let op0_at = found.addresses.op0->RelocatableValue_0;
    let op1_at = found.addresses.op1->RelocatableValue_0;
    if found.op0 is None {
        law_asking_is_answered(before, op0_at, s.cells, answer0, between);
    }
    if found.op1 is None {
        law_asking_is_answered(between, op1_at, s.cells, answer1, after);
    }
    law_op0_is_settled(s, i, found, answer0);
    let (op0, res0) = settled_op0(s, i, found, answer0)->Ok_0;
    law_op1_is_settled(s, i, found, op0, res0, answer1);
    let (op1, res1) = settled_op1(s, i, found, op0, res0, answer1)->Ok_0;
    law_res_is_settled(s, i, op0, op1, res1);
    law_results_are_computed(s, i, o.op0, o.op1);
    law_dst_is_settled(s, i, found.dst, o.res);
    (answer0, between, answer1)
}

/// An operand that memory does not hold cannot be put there: it is not known, its segment does not
/// exist, or its cell has come to hold another value.
pub open spec fn cannot_be_put(
    cells: Cells,
    found: Option<Value>,
    address: Value,
    value: Option<Value>,
) -> bool {
    found is None && (value is None || {
        &&& address matches Value::RelocatableValue(at)
        &&& at.segment_index >= cells.len() || (cell(cells, at) is Some && cell(cells, at) != value)
    })
}

/// Memory after an operand that it did not hold was put into it.
pub open spec fn put(
    cells: Cells,
    found: Option<Value>,
    address: Value,
    value: Option<Value>,
) -> Cells {
    if found is None && value is Some {
        written(cells, address, value->0)
    } else {
        cells
    }
}

/// Why operands cannot be computed, in the order in which that shows: they are not at addresses; a
/// builtin fails or a difference is refused, for the first operand, then for the second; there is
/// no result, or no destination; or what memory does not hold cannot be put there, the destination
/// first, then the first operand, then the second. Only the last of these changes memory, by what
/// was put there before.
pub proof fn law_why_operands_fail(
    s: MachineState,
    before: Runners,
    i: InstructionView,
    fault: Fault,
    cells: Cells,
    after: Runners,
) -> (r: (Result<Option<Value>, Fault>, Runners, Result<Option<Value>, Fault>))
    requires
        operands_computed(s, before, i, Err(fault), cells, after),
    ensures
        ({
            let (answer0, between, answer1) = r;
            ||| fetched(s, i) == Err::<Fetched, Fault>(fault) && cells == s.cells && after == before
            ||| {
                &&& fetched(s, i) matches Ok(found)
                &&& found.addresses.op0 matches Value::RelocatableValue(op0_at)
                &&& found.addresses.op1 matches Value::RelocatableValue(op1_at)
                &&& found.op0 is None ==> answered(before, op0_at, s.cells, answer0, between)
                &&& found.op0 is Some ==> between == before
                &&& match settled_op0(s, i, found, answer0) {
                    Err(f) => f == fault && cells == s.cells && after == between,
                    Ok((op0, res0)) => {
                        &&& found.op1 is None ==> answered(
                            between,
                            op1_at,
                            s.cells,
                            answer1,
                            after,
                        )
                        &&& found.op1 is Some ==> after == between
                        &&& match settled_op1(s, i, found, op0, res0, answer1) {
                            Err(f) => f == fault && cells == s.cells,
                            Ok((op1, res1)) => match settled_res(s, i, op0, op1, res1) {
                                Err(f) => f == fault && cells == s.cells,
                                Ok(res) => match settled_dst(s, i, found.dst, res) {
                                    Err(f) => f == fault && cells == s.cells,
                                    Ok(dst) => {
                                        let a = found.addresses;
                                        let with_dst = put(s.cells, found.dst, a.dst, Some(dst));
                                        let with_op0 = put(with_dst, found.op0, a.op0, op0);
                                        &&& fault == Fault::InvalidInstructionEncoding
                                        &&& {
                                            ||| cannot_be_put(
                                                s.cells,
                                                found.dst,
                                                a.dst,
                                                Some(dst),
                                            ) && cells == s.cells
                                            ||| cannot_be_put(with_dst, found.op0, a.op0, op0)
                                                && cells == with_dst
                                            ||| cannot_be_put(with_op0, found.op1, a.op1, op1)
                                                && cells == with_op0
                                        }
                                    },
                                },
                            },
                        }
                    },
                }
            }
        }),
{
    let (answer0, between, answer1) = lemma_answers(s, before, i, Err(fault), cells, after);
    law_operands_are_fetched_from_their_addresses(s, i);
    if let Ok(found) = fetched(s, i) {
        if found.op0 is None {
            law_asking_is_answered(
                before,
                found.addresses.op0->RelocatableValue_0,
                s.cells,
                answer0,
                between,
            );
        }
        if found.op1 is None && settled_op0(s, i, found, answer0) is Ok {
            law_asking_is_answered(
                between,
                found.addresses.op1->RelocatableValue_0,
                s.cells,
                answer1,
                after,
            );
        }
    }
    (answer0, between, answer1)
}

/// After operands were computed, memory is what it was, with what it did not hold put into it.
pub proof fn law_missing_operands_are_put_into_memory(
    s: MachineState,
    before: Runners,
    i: InstructionView,
    o: OperandsView,
    cells: Cells,
    after: Runners,
)
    requires
        operands_computed(s, before, i, Ok(o), cells, after),
    ensures
        ({
            let found = fetched(s, i)->Ok_0;
            let a = found.addresses;
            let with_dst = put(s.cells, found.dst, a.dst, Some(o.dst));
            let with_op0 = put(with_dst, found.op0, a.op0, Some(o.op0));
            cells == put(with_op0, found.op1, a.op1, Some(o.op1))
        }),
{
    let _ = lemma_answers(s, before, i, Ok(o), cells, after);
}

} // verus!
