//! What holds of the machine as a whole, on examples.

use cairo_vm_core::bigint::BigInt;
use cairo_vm_core::builtin_runner::BuiltinRunner;
use cairo_vm_core::errors::{
    Fault, MemoryError, RunnerError, RunnerFault, VirtualMachineError,
};
use cairo_vm_core::hint_processor::{HintProcessor, ProxyState, VMProxy};
use cairo_vm_core::instruction::{
    ApUpdate, FpUpdate, Instruction, Op1Addr, Opcode, PcUpdate, Register, Res,
};
use cairo_vm_core::memory::{Cells, Memory};
use cairo_vm_core::relocatable::{MaybeRelocatable, Relocatable, Value};
use cairo_vm_core::vm_core::{Operands, VirtualMachine};
use std::collections::HashMap;

fn n(value: i64) -> BigInt {
    BigInt::from_i64(value)
}

fn felt(value: i64) -> MaybeRelocatable {
    MaybeRelocatable::Int(n(value))
}

fn addr(segment_index: usize, offset: usize) -> MaybeRelocatable {
    MaybeRelocatable::from((segment_index, offset))
}

/// A prime above every offset: 2^89 - 1.
fn prime() -> BigInt {
    n(1 << 50).times(&n(1 << 39)).minus(&n(1))
}

/// A machine with a program segment and an execution segment, which start at pc and at ap and fp.
fn machine(cells: &[((usize, usize), MaybeRelocatable)]) -> VirtualMachine {
    let mut vm = VirtualMachine::new(prime(), Vec::new(), true);
    vm.accessed_addresses = Some(Vec::new());
    for _ in 0..3 {
        vm.segments.add(&mut vm.memory, None);
    }
    for (at, value) in cells {
        vm.memory.insert(&MaybeRelocatable::from(*at), value).unwrap();
    }
    vm.run_context.ap = addr(1, 0);
    vm.run_context.fp = addr(1, 0);
    vm
}

/// An instruction with all three operands relative to ap: [ap] = [ap + 1] (res) [ap + 2].
fn assert_equal(res: Res) -> Instruction {
    Instruction {
        off0: n(0),
        off1: n(1),
        off2: n(2),
        imm: None,
        dst_register: Register::AP,
        op0_register: Register::AP,
        op1_addr: Op1Addr::AP,
        res,
        pc_update: PcUpdate::Regular,
        ap_update: ApUpdate::Regular,
        fp_update: FpUpdate::Regular,
        opcode: Opcode::AssertEq,
    }
}

/// Says one thing of every cell of one segment, and counts how often it was asked.
struct Oracle {
    base: Option<Relocatable>,
    says: Option<i64>,
    asked: usize,
    patience: usize,
}

impl BuiltinRunner for Oracle {
    fn segment_base(&self) -> Option<Relocatable> {
        self.base
    }

    fn deduction(
        &self,
        _address: Value,
        _cells: Cells,
    ) -> Result<Option<Value>, RunnerFault> {
        unreachable!("only contracts speak of it")
    }

    fn base(&self) -> Option<Relocatable> {
        self.base
    }

    fn deduce_memory_cell(
        &mut self,
        address: &MaybeRelocatable,
        _memory: &Memory,
    ) -> Result<Option<MaybeRelocatable>, RunnerError> {
        self.asked += 1;
        if self.asked > self.patience {
            return Err(RunnerError::ExpectedInteger(address.clone()));
        }
        Ok(self.says.map(felt))
    }
}

fn oracle(segment_index: usize, says: Option<i64>, patience: usize) -> Box<dyn BuiltinRunner> {
    let base = Some(Relocatable { segment_index, offset: 0 });
    Box::new(Oracle { base, says, asked: 0, patience })
}

fn named(name: &str, runner: Box<dyn BuiltinRunner>) -> (String, Box<dyn BuiltinRunner>) {
    (String::from(name), runner)
}

/// Hints that move ap and note it, or fail.
struct MovingHints;

enum Move {
    Ap(usize),
    Fail,
}

impl HintProcessor for MovingHints {
    type HintData = Move;
    type ExecutionScopes = Vec<usize>;

    fn effect(
        &self,
        _data: Move,
        _before: ProxyState,
        _scopes_before: Vec<usize>,
        _result: Result<(), Fault>,
        _after: ProxyState,
        _scopes_after: Vec<usize>,
    ) -> bool {
        unreachable!("only contracts speak of it")
    }

    fn execute_hint(
        &self,
        vm_proxy: VMProxy<'_>,
        exec_scopes: &mut Vec<usize>,
        hint_data: &Move,
    ) -> Result<(), VirtualMachineError> {
        match hint_data {
            Move::Ap(offset) => {
                *vm_proxy.ap = addr(1, *offset);
                exec_scopes.push(*offset);
                Ok(())
            }
            Move::Fail => Err(VirtualMachineError::PureValue),
        }
    }
}

fn step(vm: &mut VirtualMachine) -> Result<(), VirtualMachineError> {
    let mut scopes = Vec::new();
    let r = vm.step(&MovingHints, &mut scopes, &HashMap::new());
    assert!(scopes.is_empty());
    r
}

#[test]
fn a_new_machine_starts_at_zero() {
    let vm = VirtualMachine::new(n(17), Vec::new(), false);
    assert_eq!(vm.run_context.pc, addr(0, 0));
    assert_eq!(vm.run_context.ap, addr(0, 0));
    assert_eq!(vm.run_context.fp, addr(0, 0));
    assert_eq!(vm.run_context.prime, n(17));
    assert_eq!(vm.prime, n(17));
    assert!(vm.builtin_runners.is_empty());
    assert_eq!(vm.segments.num_segments, 0);
    assert_eq!(vm._program_base, None);
    assert!(vm.memory.data.is_empty());
    assert_eq!(vm.accessed_addresses, None);
    assert_eq!(vm.trace, None);
    assert_eq!(vm.current_step, 0);
    assert!(!vm.skip_instruction_execution);
    assert_eq!(VirtualMachine::new(n(17), Vec::new(), true).trace, Some(Vec::new()));
}

#[test]
fn a_return_undoes_a_call() {
    // call rel 2; then ret
    let mut vm = machine(&[
        ((0, 0), felt(0x1104800180018000)),
        ((0, 1), felt(2)),
        ((0, 2), felt(0x208b7fff7fff7ffe)),
    ]);
    vm.run_context.ap = addr(1, 4);
    vm.run_context.fp = addr(1, 3);
    assert_eq!(step(&mut vm), Ok(()));
    assert_eq!(vm.memory.get(&addr(1, 4)), Ok(Some(&addr(1, 3))));
    assert_eq!(vm.memory.get(&addr(1, 5)), Ok(Some(&addr(0, 2))));
    assert_eq!(vm.run_context.pc, addr(0, 2));
    assert_eq!(vm.run_context.ap, addr(1, 6));
    assert_eq!(vm.run_context.fp, addr(1, 6));
    vm.run_context.ap = addr(1, 20);
    assert_eq!(step(&mut vm), Ok(()));
    assert_eq!(vm.run_context.pc, addr(0, 2));
    assert_eq!(vm.run_context.fp, addr(1, 3));
    assert_eq!(vm.run_context.ap, addr(1, 20));
}

#[test]
fn a_missing_operand_makes_the_equation_hold() {
    for missing in 0..3 {
        let mut vm = machine(&[]);
        let known = [felt(9), felt(4), felt(5)];
        for i in 0..3 {
            if i != missing {
                vm.memory.insert(&addr(1, i), &known[i]).unwrap();
            }
        }
        assert_eq!(vm.run_instruction(assert_equal(Res::Add)), Ok(()));
        for i in 0..3 {
            assert_eq!(vm.memory.get(&addr(1, i)), Ok(Some(&known[i])));
        }
    }
}

#[test]
fn a_missing_factor_makes_the_equation_hold() {
    for missing in 0..3 {
        let mut vm = machine(&[]);
        let known = [felt(20), felt(4), felt(5)];
        for i in 0..3 {
            if i != missing {
                vm.memory.insert(&addr(1, i), &known[i]).unwrap();
            }
        }
        assert_eq!(vm.run_instruction(assert_equal(Res::Mul)), Ok(()));
        for i in 0..3 {
            assert_eq!(vm.memory.get(&addr(1, i)), Ok(Some(&known[i])));
        }
    }
}

#[test]
fn a_factor_is_found_modulo_the_prime() {
    // half of 5 is 2^88 + 2, where the prime is 2^89 - 1
    let half = n(1 << 50).times(&n(1 << 38)).plus(&n(2));
    let mut vm = machine(&[((1, 0), felt(5)), ((1, 2), felt(2))]);
    assert_eq!(vm.run_instruction(assert_equal(Res::Mul)), Ok(()));
    assert_eq!(
        vm.memory.get(&addr(1, 1)),
        Ok(Some(&MaybeRelocatable::Int(half.clone())))
    );
    let product =
        vm.compute_res(&assert_equal(Res::Mul), &MaybeRelocatable::Int(half.clone()), &felt(2));
    assert_eq!(product, Ok(Some(felt(5))));
    let mut vm = machine(&[((1, 0), felt(5)), ((1, 1), felt(2))]);
    assert_eq!(vm.run_instruction(assert_equal(Res::Mul)), Ok(()));
    assert_eq!(vm.memory.get(&addr(1, 2)), Ok(Some(&MaybeRelocatable::Int(half))));
}

#[test]
fn a_factor_that_cannot_be_told_is_not_deduced() {
    let vm = VirtualMachine::new(n(15), Vec::new(), false);
    let instruction = assert_equal(Res::Mul);
    let (dst, known) = (felt(13), felt(6));
    assert_eq!(vm.deduce_op0(&instruction, Some(&dst), Some(&known)), Ok((None, None)));
    assert_eq!(vm.deduce_op1(&instruction, Some(&dst), Some(known)), Ok((None, None)));
    let (dst, known) = (felt(12), felt(7));
    assert_eq!(
        vm.deduce_op0(&instruction, Some(&dst), Some(&known)),
        Ok((Some(felt(6)), Some(felt(12))))
    );
    assert_eq!(
        vm.deduce_op1(&instruction, Some(&dst), Some(known)),
        Ok((Some(felt(6)), Some(felt(12))))
    );
}

#[test]
fn an_integer_quotient_that_solves_the_equation_is_taken() {
    let instruction = assert_equal(Res::Mul);
    for (prime, dst, known, factor) in [(7, -4, 2, -2), (6, 4, 2, 2), (7, 0, 7, 0), (7, 30, 3, 3)] {
        let vm = VirtualMachine::new(n(prime), Vec::new(), false);
        let expected = Ok((Some(felt(factor)), Some(felt(dst))));
        assert_eq!(
            vm.deduce_op0(&instruction, Some(&felt(dst)), Some(&felt(known))),
            expected
        );
        assert_eq!(
            vm.deduce_op1(&instruction, Some(&felt(dst)), Some(felt(known))),
            expected
        );
    }
}

#[test]
fn a_zero_prime_matters_only_to_remainders() {
    let mut vm = machine(&[]);
    vm.prime = n(0);
    let operands = |dst, res| Operands { dst, res, op0: felt(1), op1: felt(1) };
    let mut instruction = assert_equal(Res::Mul);
    assert_eq!(
        vm.compute_res(&instruction, &addr(1, 1), &felt(2)),
        Err(VirtualMachineError::PureValue)
    );
    assert_eq!(
        vm.deduce_op0(&instruction, Some(&felt(4)), Some(&felt(0))),
        Ok((None, None))
    );
    assert_eq!(vm.deduce_op1(&instruction, Some(&addr(1, 1)), Some(felt(2))), Ok((None, None)));
    instruction.ap_update = ApUpdate::Add;
    assert_eq!(
        vm.update_ap(&instruction, &operands(felt(0), None)),
        Err(VirtualMachineError::UnconstrainedResAdd)
    );
    instruction.pc_update = PcUpdate::JumpRel;
    assert_eq!(
        vm.update_pc(&instruction, &operands(felt(0), None)),
        Err(VirtualMachineError::UnconstrainedResJumpRel)
    );
    assert_eq!(
        vm.update_pc(&instruction, &operands(felt(0), Some(addr(1, 1)))),
        Err(VirtualMachineError::PureValue)
    );
    instruction.pc_update = PcUpdate::Jnz;
    assert_eq!(
        vm.update_pc(&instruction, &operands(addr(1, 1), None)),
        Err(VirtualMachineError::PureValue)
    );
    assert_eq!(vm.update_pc(&instruction, &operands(felt(0), None)), Ok(()));
    assert_eq!(vm.run_context.pc, addr(0, 1));
    vm.run_context.pc = felt(0);
    vm.run_context.prime = n(0);
    assert_eq!(
        step(&mut vm),
        Err(VirtualMachineError::MemoryError(MemoryError::AddressNotRelocatable))
    );
}

#[test]
fn operands_that_are_there_are_taken_and_nothing_is_asked() {
    let mut vm = machine(&[((1, 0), felt(1)), ((1, 1), felt(4)), ((1, 2), felt(5))]);
    vm.builtin_runners = vec![named("impatient", oracle(1, Some(7), 0))];
    let (operands, _) = vm.compute_operands(&assert_equal(Res::Add)).unwrap();
    let expected =
        Operands { dst: felt(1), res: Some(felt(9)), op0: felt(4), op1: felt(5) };
    assert_eq!(operands, expected);
    assert_eq!(vm.memory.data[1], vec![Some(felt(1)), Some(felt(4)), Some(felt(5))]);
}

#[test]
fn only_operand_cells_change() {
    let mut vm = machine(&[((1, 0), felt(9)), ((1, 1), felt(4)), ((1, 5), felt(6))]);
    vm.compute_operands(&assert_equal(Res::Add)).unwrap();
    assert_eq!(
        vm.memory.data[1],
        vec![Some(felt(9)), Some(felt(4)), Some(felt(5)), None, None, Some(felt(6))]
    );
    assert_eq!(vm.current_step, 0);
    assert_eq!(vm.trace, Some(Vec::new()));
}

#[test]
fn a_jump_needs_no_room_after_pc() {
    let mut vm = machine(&[((1, 0), felt(9)), ((1, 1), felt(4)), ((1, 2), addr(0, 3))]);
    vm.run_context.pc = addr(0, usize::MAX);
    let mut instruction = assert_equal(Res::Op1);
    instruction.opcode = Opcode::NOp;
    instruction.pc_update = PcUpdate::Jump;
    assert_eq!(vm.run_instruction(instruction), Ok(()));
    assert_eq!(vm.run_context.pc, addr(0, 3));
}

#[test]
fn a_product_is_reduced() {
    let mut vm = VirtualMachine::new(n(17), Vec::new(), false);
    vm.run_context.prime = prime();
    let res = vm.compute_res(&assert_equal(Res::Mul), &felt(5), &felt(7));
    assert_eq!(res, Ok(Some(felt(1))));
}

#[test]
fn an_equation_that_does_not_hold_is_refused() {
    let mut vm = machine(&[((1, 0), felt(9)), ((1, 1), felt(4)), ((1, 2), felt(6))]);
    assert_eq!(
        vm.run_instruction(assert_equal(Res::Add)),
        Err(VirtualMachineError::DiffAssertValues(n(10), n(9)))
    );
    assert_eq!(vm.current_step, 0);
    assert_eq!(vm.run_context.pc, addr(0, 0));
    assert_eq!(vm.trace, Some(Vec::new()));
    assert_eq!(vm.accessed_addresses, Some(Vec::new()));
}

#[test]
fn addresses_can_be_deduced_too() {
    let mut vm = machine(&[((1, 0), addr(2, 9)), ((1, 2), addr(2, 4))]);
    assert_eq!(vm.run_instruction(assert_equal(Res::Add)), Ok(()));
    assert_eq!(vm.memory.get(&addr(1, 1)), Ok(Some(&felt(5))));
    let mut vm = machine(&[((1, 0), addr(2, 9)), ((1, 1), felt(4))]);
    assert_eq!(vm.run_instruction(assert_equal(Res::Add)), Ok(()));
    assert_eq!(vm.memory.get(&addr(1, 2)), Ok(Some(&addr(2, 5))));
    let mut vm = machine(&[((1, 0), addr(2, 9)), ((1, 1), addr(0, 4))]);
    assert_eq!(
        vm.run_instruction(assert_equal(Res::Add)),
        Err(VirtualMachineError::DiffIndexSub)
    );
}

#[test]
fn success_is_recorded() {
    let mut vm = machine(&[((1, 0), felt(9)), ((1, 1), felt(4))]);
    assert_eq!(vm.run_instruction(assert_equal(Res::Add)), Ok(()));
    assert_eq!(vm.current_step, 1);
    assert_eq!(vm.run_context.pc, addr(0, 1));
    assert_eq!(
        vm.accessed_addresses,
        Some(vec![addr(1, 0), addr(1, 1), addr(1, 2), addr(0, 0)])
    );
    let trace = vm.trace.unwrap();
    assert_eq!(trace.len(), 1);
    assert_eq!(trace[0].pc, Relocatable { segment_index: 0, offset: 0 });
    assert_eq!(trace[0].ap, Relocatable { segment_index: 1, offset: 0 });
    assert_eq!(trace[0].fp, Relocatable { segment_index: 1, offset: 0 });
}

#[test]
fn registers_that_are_no_addresses_leave_no_trace() {
    let mut vm = machine(&[((1, 0), felt(9)), ((1, 1), felt(4))]);
    vm.run_context.pc = felt(3);
    assert_eq!(vm.run_instruction(assert_equal(Res::Add)), Ok(()));
    assert_eq!(vm.trace, Some(Vec::new()));
    assert_eq!(vm.run_context.pc, felt(4));
    assert_eq!(vm.current_step, 1);
}

#[test]
fn a_register_update_that_fails_leaves_the_later_ones_out() {
    let mut vm = machine(&[]);
    let mut instruction = assert_equal(Res::Add);
    instruction.fp_update = FpUpdate::Dst;
    instruction.ap_update = ApUpdate::Add;
    let operands =
        Operands { dst: addr(2, 0), res: Some(addr(1, 1)), op0: felt(1), op1: felt(1) };
    assert_eq!(
        vm.update_registers(instruction, operands),
        Err(VirtualMachineError::RelocatableAdd)
    );
    assert_eq!(vm.run_context.fp, addr(2, 0));
    assert_eq!(vm.run_context.ap, addr(1, 0));
    assert_eq!(vm.run_context.pc, addr(0, 0));
}

#[test]
fn ap_stops_at_the_last_offset() {
    let mut vm = machine(&[((1, 0), felt(9)), ((1, 1), felt(4)), ((1, 2), felt(5))]);
    vm.run_context.ap = addr(1, usize::MAX);
    let mut instruction = assert_equal(Res::Add);
    instruction.dst_register = Register::FP;
    instruction.op0_register = Register::FP;
    instruction.op1_addr = Op1Addr::FP;
    instruction.ap_update = ApUpdate::Add1;
    let beyond = BigInt::from_usize(usize::MAX).plus(&n(1));
    assert_eq!(
        vm.run_instruction(instruction),
        Err(VirtualMachineError::OffsetExceeded(beyond))
    );
    assert_eq!(vm.run_context.ap, addr(1, usize::MAX));
    assert_eq!(vm.current_step, 0);
}

#[test]
fn operands_need_addresses() {
    let mut vm = machine(&[]);
    vm.run_context.ap = felt(4);
    assert_eq!(
        vm.compute_operands(&assert_equal(Res::Add)),
        Err(VirtualMachineError::InvalidInstructionEncoding)
    );
}

#[test]
fn operands_that_nothing_tells_are_refused() {
    let mut vm = machine(&[]);
    assert_eq!(
        vm.compute_operands(&assert_equal(Res::Add)),
        Err(VirtualMachineError::InvalidInstructionEncoding)
    );
    assert_eq!(vm.memory.data[1], vec![]);
}

#[test]
fn an_immediate_value_is_next_to_the_instruction() {
    let mut vm = machine(&[]);
    let mut instruction = assert_equal(Res::Op1);
    instruction.op1_addr = Op1Addr::Imm;
    assert_eq!(
        vm.compute_operands(&instruction),
        Err(VirtualMachineError::ImmShouldBe1)
    );
    instruction.op1_addr = Op1Addr::Op0;
    assert_eq!(
        vm.compute_operands(&instruction),
        Err(VirtualMachineError::UnknownOp0)
    );
}

#[test]
fn addresses_in_the_operands_wrap_at_the_prime() {
    let mut vm = machine(&[((1, 0), felt(9)), ((1, 1), felt(4))]);
    vm.run_context.prime = n(3);
    vm.run_context.ap = addr(1, 3);
    let (operands, addresses) = vm.compute_operands(&assert_equal(Res::Add)).unwrap();
    let addresses = addresses.unwrap();
    assert_eq!(addresses.0, addr(1, 0));
    assert_eq!(addresses.1, addr(1, 1));
    assert_eq!(addresses.2, addr(1, 2));
    assert_eq!(operands.op1, felt(5));
}

#[test]
fn an_encoding_must_fit_its_word() {
    let too_large = n(i64::MAX).plus(&n(1));
    let vm = machine(&[((0, 0), MaybeRelocatable::Int(too_large))]);
    assert_eq!(
        vm.decode_current_instruction(),
        Err(VirtualMachineError::InvalidInstructionEncoding)
    );
    let vm = machine(&[((0, 0), addr(0, 0))]);
    assert_eq!(
        vm.decode_current_instruction(),
        Err(VirtualMachineError::InvalidInstructionEncoding)
    );
    let vm = machine(&[((0, 0), felt(0x480680017fff8000)), ((0, 1), addr(0, 0))]);
    assert_eq!(vm.decode_current_instruction(), Err(VirtualMachineError::NoImm));
}

#[test]
fn a_step_needs_an_address_to_start_from() {
    let mut vm = machine(&[]);
    vm.run_context.pc = felt(0);
    assert_eq!(
        step(&mut vm),
        Err(VirtualMachineError::MemoryError(MemoryError::AddressNotRelocatable))
    );
}

#[test]
fn a_step_without_hints_runs_the_instruction() {
    // [ap] = 5; ap++
    let mut vm = machine(&[((0, 0), felt(0x480680017fff8000)), ((0, 1), felt(5))]);
    vm.memory.insert(&addr(1, 2), &felt(0)).unwrap();
    vm.run_context.fp = addr(1, 3);
    vm.skip_instruction_execution = true;
    assert_eq!(step(&mut vm), Ok(()));
    assert_eq!(vm.memory.get(&addr(1, 0)), Ok(Some(&felt(5))));
    assert_eq!(vm.run_context.ap, addr(1, 1));
    assert_eq!(vm.run_context.pc, addr(0, 2));
    assert!(!vm.skip_instruction_execution);
}

#[test]
fn hints_run_in_order_before_the_instruction() {
    let mut vm = machine(&[((0, 0), felt(0x480680017fff8000)), ((0, 1), felt(5))]);
    vm.memory.insert(&addr(1, 2), &felt(0)).unwrap();
    vm.run_context.fp = addr(1, 3);
    let mut scopes = Vec::new();
    let hints = HashMap::from([(0, vec![Move::Ap(7), Move::Ap(6)]), (1, vec![Move::Fail])]);
    assert_eq!(vm.step(&MovingHints, &mut scopes, &hints), Ok(()));
    assert_eq!(scopes, vec![7, 6]);
    assert_eq!(vm.memory.get(&addr(1, 6)), Ok(Some(&felt(5))));
    assert_eq!(vm.run_context.ap, addr(1, 7));
}

#[test]
fn a_hint_that_fails_ends_the_step() {
    let mut vm = machine(&[((0, 0), felt(0x480680017fff8000)), ((0, 1), felt(5))]);
    vm.skip_instruction_execution = true;
    let mut scopes = Vec::new();
    let hints = HashMap::from([(0, vec![Move::Ap(7), Move::Fail, Move::Ap(6)])]);
    assert_eq!(
        vm.step(&MovingHints, &mut scopes, &hints),
        Err(VirtualMachineError::PureValue)
    );
    assert_eq!(scopes, vec![7]);
    assert_eq!(vm.run_context.ap, addr(1, 7));
    assert_eq!(vm.run_context.pc, addr(0, 0));
    assert_eq!(vm.current_step, 0);
    assert!(vm.skip_instruction_execution);
}

#[test]
fn memory_is_remembered_over_a_step() {
    // [ap] = 5; ap++ where [ap] is 6 already
    let mut vm = machine(&[((0, 0), felt(0x480680017fff8000)), ((0, 1), felt(5))]);
    vm.memory.insert(&addr(1, 0), &felt(6)).unwrap();
    vm.memory.insert(&addr(1, 2), &felt(0)).unwrap();
    vm.run_context.fp = addr(1, 3);
    assert_eq!(
        step(&mut vm),
        Err(VirtualMachineError::DiffAssertValues(n(5), n(6)))
    );
    assert_eq!(vm.memory.get(&addr(1, 0)), Ok(Some(&felt(6))));
}

#[test]
fn without_builtins_two_machines_do_the_same() {
    let build = || machine(&[((1, 0), felt(9)), ((1, 2), felt(4))]);
    let (mut a, mut b) = (build(), build());
    assert_eq!(
        a.run_instruction(assert_equal(Res::Add)),
        b.run_instruction(assert_equal(Res::Add))
    );
    assert_eq!(a.memory.data, b.memory.data);
    assert_eq!(a.run_context.pc, b.run_context.pc);
    assert_eq!(a.trace, b.trace);
}

#[test]
fn the_first_builtin_that_owns_a_segment_is_asked() {
    let mut vm = machine(&[]);
    vm.builtin_runners = vec![
        named("elsewhere", oracle(0, Some(1), 9)),
        named("first", oracle(2, Some(2), 1)),
        named("second", oracle(2, Some(3), 9)),
    ];
    assert_eq!(vm.deduce_memory_cell(&addr(2, 5)), Ok(Some(felt(2))));
    assert_eq!(
        vm.deduce_memory_cell(&addr(2, 5)),
        Err(VirtualMachineError::RunnerError(RunnerError::ExpectedInteger(addr(2, 5))))
    );
    assert_eq!(vm.deduce_memory_cell(&addr(1, 0)), Ok(None));
    assert_eq!(
        vm.deduce_memory_cell(&felt(5)),
        Err(VirtualMachineError::RunnerError(RunnerError::NonRelocatableAddress))
    );
}

#[test]
fn what_a_builtin_says_of_an_operand_is_stored() {
    let mut vm = machine(&[((1, 0), felt(9)), ((1, 2), felt(5))]);
    vm.builtin_runners = vec![named("oracle", oracle(1, Some(4), 1))];
    let (operands, _) = vm.compute_operands(&assert_equal(Res::Add)).unwrap();
    assert_eq!(operands.op0, felt(4));
    assert_eq!(operands.res, Some(felt(9)));
    assert_eq!(vm.memory.get(&addr(1, 1)), Ok(Some(&felt(4))));
}

#[test]
fn a_builtin_that_fails_stops_the_instruction() {
    let mut vm = machine(&[((1, 0), felt(9)), ((1, 2), felt(5))]);
    vm.builtin_runners = vec![named("oracle", oracle(1, Some(4), 0))];
    assert_eq!(
        vm.run_instruction(assert_equal(Res::Add)),
        Err(VirtualMachineError::RunnerError(RunnerError::ExpectedInteger(addr(1, 1))))
    );
}

#[test]
fn without_builtins_memory_is_consistent() {
    let mut vm = machine(&[((1, 0), felt(9)), ((2, 3), addr(0, 0))]);
    assert_eq!(vm.verify_auto_deductions(), Ok(()));
}

#[test]
fn memory_that_agrees_with_its_builtin_is_consistent() {
    let mut vm = machine(&[((1, 0), felt(9)), ((2, 1), felt(4)), ((2, 3), felt(4))]);
    vm.builtin_runners =
        vec![named("silent", oracle(2, None, 9)), named("four", oracle(2, Some(4), 9))];
    assert_eq!(vm.verify_auto_deductions(), Ok(()));
    vm.memory.insert(&addr(2, 2), &felt(5)).unwrap();
    assert_eq!(
        vm.verify_auto_deductions(),
        Err(VirtualMachineError::InconsistentAutoDeduction(
            String::from("four"),
            felt(4),
            Some(felt(5))
        ))
    );
}

#[test]
fn a_builtin_without_a_segment_cannot_be_verified() {
    let mut vm = machine(&[((2, 0), felt(4))]);
    let nowhere = Box::new(Oracle { base: None, says: None, asked: 0, patience: 9 });
    vm.builtin_runners = vec![named("nowhere", nowhere)];
    assert_eq!(
        vm.verify_auto_deductions(),
        Err(VirtualMachineError::InvalidInstructionEncoding)
    );
    vm.memory = Memory::new();
    assert_eq!(vm.verify_auto_deductions(), Ok(()));
}

#[test]
fn a_builtin_that_fails_cannot_be_verified() {
    let mut vm = machine(&[((2, 1), felt(4))]);
    vm.builtin_runners = vec![named("impatient", oracle(2, Some(4), 1))];
    assert_eq!(
        vm.verify_auto_deductions(),
        Err(VirtualMachineError::InvalidInstructionEncoding)
    );
}
