//! The virtual machine.

use crate::auto_deduction::{
    cell_visits, deductions_verified, lemma_failure_stands, lemma_memory_visits_extend,
    lemma_segment_visits_extend, lemma_visits_in_a_row, memory_visits, segment_visits, visited,
    visits_made, visits_passed, Visit,
};
use crate::bigint::BigInt;
use crate::builtin_runner::{asked, is_first_owner, owns, BuiltinRunner, Runners};
use crate::decoder::decode_instruction;
use crate::errors::{outcome, Fault, RunnerError, VirtualMachineError};
use crate::hint_processor::{
    changed, hint_failed, hints_at, hints_lead_to_runnable, hints_ran, shown, stepped,
    HintProcessor, VMProxy,
};
use crate::instruction::{
    ApUpdate, FpUpdate, Instruction, Opcode, PcUpdate, Res,
};
use crate::memory::{read, Memory, MemorySegmentManager};
use crate::model::{
    ap_is_reduced, assertion_outcome, completed, computed_res, consulted, current_instruction,
    deduced_dst, deduced_factor, deduced_op0, deduced_op0_is_reduced, deduced_op1,
    deduced_op1_is_reduced, factor_solves, fetched, initial_state, instruction_encoding,
    instruction_is_never_reduced, instruction_never_completes, instruction_ran,
    lemma_consultation_goes_on, next_accessed, next_ap, next_fp, next_pc, next_registers,
    next_trace, operands_are_never_reduced, operands_computed, pc_is_counted_up,
    pc_is_never_counted_up, pc_is_reduced, reach, reaches_registers, registers_are_reduced,
    registers_outcome, res_is_reduced, return_address_is_never_deduced, settled, settled_dst,
    settled_op0, settled_op1, settled_res, store_all, store_outcome, stored, zero_test,
    AddressesView, Fetched, MachineState, OperandsView, Settled,
};
use crate::relocatable::{MaybeRelocatable, Relocatable, Value};
use crate::run_context::{Registers, RunContext, TraceEntry};
use std::collections::HashMap;
use vstd::prelude::*;

verus! {

/// The values that an instruction works on.
#[derive(Debug, PartialEq)]
pub struct Operands {
    pub dst: MaybeRelocatable,
    pub res: Option<MaybeRelocatable>,
    pub op0: MaybeRelocatable,
    pub op1: MaybeRelocatable,
}

impl View for Operands {
    type V = OperandsView;

    open spec fn view(&self) -> OperandsView {
        OperandsView {
            dst: self.dst@,
            res: self.res.deep_view(),
            op0: self.op0@,
            op1: self.op1@,
        }
    }
}

impl DeepView for Operands {
    type V = OperandsView;

    open spec fn deep_view(&self) -> OperandsView {
        self@
    }
}

/// The addresses of the destination, the first and the second operand.
#[derive(Debug, PartialEq)]
pub struct OperandsAddresses(pub MaybeRelocatable, pub MaybeRelocatable, pub MaybeRelocatable);

impl View for OperandsAddresses {
    type V = AddressesView;

    open spec fn view(&self) -> AddressesView {
        AddressesView { dst: self.0@, op0: self.1@, op1: self.2@ }
    }
}

impl DeepView for OperandsAddresses {
    type V = AddressesView;

    open spec fn deep_view(&self) -> AddressesView {
        self@
    }
}

/// Where the operands are, and what memory holds there.
struct FetchedOperands {
    addresses: OperandsAddresses,
    dst: Option<MaybeRelocatable>,
    op0: Option<MaybeRelocatable>,
    op1: Option<MaybeRelocatable>,
}

impl DeepView for FetchedOperands {
    type V = Fetched;

    closed spec fn deep_view(&self) -> Fetched {
        Fetched {
            addresses: self.addresses@,
            dst: self.dst.deep_view(),
            op0: self.op0.deep_view(),
            op1: self.op1.deep_view(),
        }
    }
}

/// The operands and the result, before what memory did not hold is stored.
struct SettledOperands {
    dst: MaybeRelocatable,
    op0: Option<MaybeRelocatable>,
    op1: Option<MaybeRelocatable>,
    res: Option<MaybeRelocatable>,
}

impl DeepView for SettledOperands {
    type V = Settled;

    closed spec fn deep_view(&self) -> Settled {
        Settled {
            dst: self.dst@,
            op0: self.op0.deep_view(),
            op1: self.op1.deep_view(),
            res: self.res.deep_view(),
        }
    }
}

/// A machine: registers, memory and builtins, and what is recorded of a run.
pub struct VirtualMachine {
    pub run_context: RunContext,
    pub prime: BigInt,
    pub builtin_runners: Vec<(String, Box<dyn BuiltinRunner>)>,
    pub segments: MemorySegmentManager,
    pub _program_base: Option<MaybeRelocatable>,
    pub memory: Memory,
    pub accessed_addresses: Option<Vec<MaybeRelocatable>>,
    pub trace: Option<Vec<TraceEntry>>,
    pub current_step: usize,
    pub skip_instruction_execution: bool,
}

impl View for VirtualMachine {
    type V = MachineState;

    open spec fn view(&self) -> MachineState {
        MachineState {
            registers: self.run_context@,
            prime: self.prime@,
            cells: self.memory@,
            num_segments: self.segments.num_segments,
            segment_sizes: self.segments.segment_sizes@,
            program_base: self._program_base.deep_view(),
            accessed_addresses: self.accessed_addresses.deep_view(),
            trace: match self.trace {
                Some(entries) => Some(entries@),
                None => None,
            },
            current_step: self.current_step,
            skip_instruction_execution: self.skip_instruction_execution,
        }
    }
}

impl VirtualMachine {
    /// A machine with empty memory and all registers at the start of segment zero.
    pub fn new(
        prime: BigInt,
        builtin_runners: Vec<(String, Box<dyn BuiltinRunner>)>,
        trace_enabled: bool,
    ) -> (r: VirtualMachine)
        ensures
            r@ == initial_state(prime@, trace_enabled),
            r.builtin_runners == builtin_runners,
    {
        let run_context = RunContext {
            pc: MaybeRelocatable::from((0usize, 0usize)),
            ap: MaybeRelocatable::from((0usize, 0usize)),
            fp: MaybeRelocatable::from((0usize, 0usize)),
            prime: prime.clone(),
        };
        let trace: Option<Vec<TraceEntry>> = if trace_enabled {
            Some(Vec::new())
        } else {
            None
        };
        VirtualMachine {
            run_context,
            prime,
            builtin_runners,
            segments: MemorySegmentManager::new(),
            _program_base: None,
            memory: Memory::new(),
            accessed_addresses: None,
            trace,
            current_step: 0,
            skip_instruction_execution: false,
        }
    }

    /// Returns the encoded instruction (the value at pc) and the immediate value (the value at
    /// pc + 1, if it exists in the memory).
    pub fn get_instruction_encoding(&self) -> (r: Result<
        (&BigInt, Option<&MaybeRelocatable>),
        VirtualMachineError,
    >)
        ensures
            outcome(r) == instruction_encoding(self@),
    {
        let encoding: &BigInt = match self.memory.get(&self.run_context.pc) {
            Ok(Some(MaybeRelocatable::Int(encoding))) => encoding,
            _ => return Err(VirtualMachineError::InvalidInstructionEncoding),
        };
        assert(self.run_context.pc@.has_room_for(1)) by {
            self.memory.lemma_cells_are_addressable();
        }
        let imm_addr: MaybeRelocatable = self.run_context.pc.add_usize_mod(1, None);
        match self.memory.get(&imm_addr) {
            Ok(imm) => Ok((encoding, imm)),
            Err(_) => Err(VirtualMachineError::InvalidInstructionEncoding),
        }
    }

    pub fn update_fp(&mut self, instruction: &Instruction, operands: &Operands)
        requires
            instruction.fp_update is APPlus2 ==> old(self).run_context.ap@.has_room_for(2),
        ensures
            final(self)@ == (MachineState {
                registers: Registers {
                    fp: next_fp(old(self)@, instruction@, operands@),
                    ..old(self)@.registers
                },
                ..old(self)@
            }),
            final(self).builtin_runners == old(self).builtin_runners,
    {
        let new_fp: MaybeRelocatable = match instruction.fp_update {
            FpUpdate::APPlus2 => self.run_context.ap.add_usize_mod(2, None),
            FpUpdate::Dst => operands.dst.clone(),
            FpUpdate::Regular => return ,
        };
        self.run_context.fp = new_fp;
    }

    pub fn update_ap(&mut self, instruction: &Instruction, operands: &Operands) -> (r: Result<
        (),
        VirtualMachineError,
    >)
        requires
            ap_is_reduced(old(self)@, instruction@, operands@) ==> old(self).prime@ != 0,
            instruction.ap_update is Add1 ==> old(self).run_context.ap@.has_room_for(1),
            instruction.ap_update is Add2 ==> old(self).run_context.ap@.has_room_for(2),
        ensures
            match next_ap(old(self)@, instruction@, operands@) {
                Ok(ap) => outcome(r) == Ok::<(), Fault>(()) && final(self)@ == (MachineState {
                    registers: Registers { ap, ..old(self)@.registers },
                    ..old(self)@
                }),
                Err(fault) => outcome(r) == Err::<(), Fault>(fault) && final(self)@ == old(self)@,
            },
            final(self).builtin_runners == old(self).builtin_runners,
    {
        let new_ap: MaybeRelocatable = match instruction.ap_update {
            ApUpdate::Add => match &operands.res {
                Some(res) => self.run_context.ap.add_mod(res, &self.prime)?,
                None => return Err(VirtualMachineError::UnconstrainedResAdd),
            },
            ApUpdate::Add1 => self.run_context.ap.add_usize_mod(1, None),
            ApUpdate::Add2 => self.run_context.ap.add_usize_mod(2, None),
            ApUpdate::Regular => return Ok(()),
        };
        self.run_context.ap = new_ap;
        Ok(())
    }

    pub fn update_pc(&mut self, instruction: &Instruction, operands: &Operands) -> (r: Result<
        (),
        VirtualMachineError,
    >)
        requires
            pc_is_reduced(old(self)@, instruction@, operands@) ==> old(self).prime@ != 0,
            pc_is_counted_up(instruction@, operands@) ==> old(self).run_context.pc@.has_room_for(
                instruction@.size() as int,
            ),
        ensures
            match next_pc(old(self)@, instruction@, operands@) {
                Ok(pc) => outcome(r) == Ok::<(), Fault>(()) && final(self)@ == (MachineState {
                    registers: Registers { pc, ..old(self)@.registers },
                    ..old(self)@
                }),
                Err(fault) => outcome(r) == Err::<(), Fault>(fault) && final(self)@ == old(self)@,
            },
            final(self).builtin_runners == old(self).builtin_runners,
    {
        let new_pc: MaybeRelocatable = match instruction.pc_update {
            PcUpdate::Regular => self.run_context.pc.add_usize_mod(
                instruction.size(),
                Some(&self.prime),
            ),
            PcUpdate::Jump => match &operands.res {
                Some(res) => res.clone(),
                None => return Err(VirtualMachineError::UnconstrainedResJump),
            },
            PcUpdate::JumpRel => match &operands.res {
                Some(res) => match res {
                    MaybeRelocatable::Int(num_res) => {
                        self.run_context.pc.add_int_mod(num_res, &self.prime)?
                    },
                    _ => return Err(VirtualMachineError::PureValue),
                },
                None => return Err(VirtualMachineError::UnconstrainedResJumpRel),
            },
            PcUpdate::Jnz => {
                if VirtualMachine::is_zero(operands.dst.clone())? {
                    self.run_context.pc.add_usize_mod(instruction.size(), None)
                } else {
                    self.run_context.pc.add_mod(&operands.op1, &self.prime)?
                }
            },
        };
        self.run_context.pc = new_pc;
        Ok(())
    }

    pub fn update_registers(&mut self, instruction: Instruction, operands: Operands) -> (r: Result<
        (),
        VirtualMachineError,
    >)
        requires
            registers_are_reduced(old(self)@, instruction@, operands@) ==> old(self).prime@ != 0,
            old(self).run_context.ap@.has_room_for(reach(instruction@)),
            next_ap(old(self)@, instruction@, operands@) is Ok && pc_is_counted_up(
                instruction@,
                operands@,
            ) ==> old(self).run_context.pc@.has_room_for(instruction@.size() as int),
        ensures
            outcome(r) == registers_outcome(old(self)@, instruction@, operands@),
            final(self)@ == (MachineState {
                registers: next_registers(old(self)@, instruction@, operands@),
                ..old(self)@
            }),
            final(self).builtin_runners == old(self).builtin_runners,
    {
        self.update_fp(&instruction, &operands);
        self.update_ap(&instruction, &operands)?;
        self.update_pc(&instruction, &operands)?;
        Ok(())
    }

    /// Returns true if the value is zero
    /// Used for JNZ instructions
    pub fn is_zero(addr: MaybeRelocatable) -> (r: Result<bool, VirtualMachineError>)
        ensures
            outcome(r) == zero_test(addr@),
    {
        match addr {
            MaybeRelocatable::Int(num) => Ok(num == BigInt::from_i64(0)),
            MaybeRelocatable::RelocatableValue(_) => Err(VirtualMachineError::PureValue),
        }
    }

    /// Returns a tuple (deduced_factor, deduced_res).
    /// Deduces a factor whose product with `known` is dst, if one can be told.
    fn deduce_factor(&self, dst: &BigInt, known: &BigInt) -> (r: (
        Option<MaybeRelocatable>,
        Option<MaybeRelocatable>,
    ))
        requires
            known@ != 0 ==> self.prime@ != 0,
        ensures
            r.deep_view() == deduced_factor(dst@, known@, self.prime@),
            factor_solves(r.deep_view(), dst@, known@, self.prime@),
    {
        if known.is_zero() {
            return (None, None);
        }
        let rounded: BigInt = dst.quotient(known).remainder(&self.prime);
        if rounded.times(known).minus(dst).is_multiple_of(&self.prime) {
            return (
                Some(MaybeRelocatable::Int(rounded)),
                Some(MaybeRelocatable::Int(dst.clone())),
            );
        }
        match dst.mod_quotient(known, &self.prime) {
            Some(factor) => (
                Some(MaybeRelocatable::Int(factor)),
                Some(MaybeRelocatable::Int(dst.clone())),
            ),
            None => (None, None),
        }
    }

    /// Returns a tuple (deduced_op0, deduced_res).
    /// Deduces the value of op0 if possible (based on dst and op1). Otherwise, returns None.
    /// If res was already deduced, returns its deduced value as well.
    pub fn deduce_op0(
        &self,
        instruction: &Instruction,
        dst: Option<&MaybeRelocatable>,
        op1: Option<&MaybeRelocatable>,
    ) -> (r: Result<(Option<MaybeRelocatable>, Option<MaybeRelocatable>), VirtualMachineError>)
        requires
            deduced_op0_is_reduced(instruction@, dst.deep_view(), op1.deep_view()) ==> self.prime@
                != 0,
            instruction.opcode is Call ==> self.run_context.pc@.has_room_for(
                instruction@.size() as int,
            ),
        ensures
            outcome(r) == deduced_op0(self@, instruction@, dst.deep_view(), op1.deep_view()),
            match (instruction.opcode, instruction.res, dst.deep_view(), op1.deep_view()) {
                (Opcode::AssertEq, Res::Mul, Some(Value::Int(d)), Some(Value::Int(known))) => {
                    outcome(r) is Ok && factor_solves(outcome(r)->Ok_0, d, known, self.prime@)
                },
                _ => true,
            },
    {
        match instruction.opcode {
            Opcode::Call => {
                return Ok(
                    (Some(self.run_context.pc.add_usize_mod(instruction.size(), None)), None),
                );
            },
            Opcode::AssertEq => match instruction.res {
                Res::Add => {
                    if let (Some(dst_addr), Some(op1_addr)) = (dst, op1) {
                        return Ok(
                            (Some(dst_addr.sub(op1_addr, &self.prime)?), Some(dst_addr.clone())),
                        );
                    }
                },
                Res::Mul => {
                    if let (
                        Some(MaybeRelocatable::Int(num_dst)),
                        Some(MaybeRelocatable::Int(num_op1)),
                    ) = (dst, op1) {
                        return Ok(self.deduce_factor(num_dst, num_op1));
                    }
                },
                _ => (),
            },
            _ => (),
        }
        Ok((None, None))
    }

    /// Returns a tuple (deduced_op1, deduced_res).
    /// Deduces the value of op1 if possible (based on dst and op0). Otherwise, returns None.
    /// If res was already deduced, returns its deduced value as well.
    pub fn deduce_op1(
        &self,
        instruction: &Instruction,
        dst: Option<&MaybeRelocatable>,
        op0: Option<MaybeRelocatable>,
    ) -> (r: Result<(Option<MaybeRelocatable>, Option<MaybeRelocatable>), VirtualMachineError>)
        requires
            deduced_op1_is_reduced(instruction@, dst.deep_view(), op0.deep_view()) ==> self.prime@
                != 0,
        ensures
            outcome(r) == deduced_op1(self@, instruction@, dst.deep_view(), op0.deep_view()),
            match (instruction.opcode, instruction.res, dst.deep_view(), op0.deep_view()) {
                (Opcode::AssertEq, Res::Mul, Some(Value::Int(d)), Some(Value::Int(known))) => {
                    outcome(r) is Ok && factor_solves(outcome(r)->Ok_0, d, known, self.prime@)
                },
                _ => true,
            },
    {
        if let Opcode::AssertEq = instruction.opcode {
            match instruction.res {
                Res::Op1 => {
                    if let Some(dst_addr) = dst {
                        return Ok((Some(dst_addr.clone()), Some(dst_addr.clone())));
                    }
                },
                Res::Add => {
                    if let (Some(dst_addr), Some(op0_addr)) = (dst, op0) {
                        return Ok(
                            (Some(dst_addr.sub(&op0_addr, &self.prime)?), Some(dst_addr.clone())),
                        );
                    }
                },
                Res::Mul => {
                    if let (
                        Some(MaybeRelocatable::Int(num_dst)),
                        Some(MaybeRelocatable::Int(num_op0)),
                    ) = (dst, op0) {
                        return Ok(self.deduce_factor(num_dst, &num_op0));
                    }
                },
                _ => (),
            }
        }
        Ok((None, None))
    }

    /// What the builtin that owns the segment of `address` says of the cell there.
    pub fn deduce_memory_cell(&mut self, address: &MaybeRelocatable) -> (r: Result<
        Option<MaybeRelocatable>,
        VirtualMachineError,
    >)
        ensures
            asked(
                old(self).builtin_runners@,
                address@,
                old(self)@.cells,
                outcome(r),
                final(self).builtin_runners@,
            ),
            final(self)@ == old(self)@,
    {
        if let MaybeRelocatable::RelocatableValue(addr) = address {
            let n: usize = self.builtin_runners.len();
            let mut i: usize = 0;
            while i < n
                invariant
                    i <= n == self.builtin_runners@.len(),
                    *self == *old(self),
                    forall|j: int|
                        0 <= j < i ==> !owns(
                            #[trigger] self.builtin_runners@[j],
                            addr.segment_index,
                        ),
                    address@ == Value::RelocatableValue(*addr),
                decreases n - i,
            {
                if let Some(base) = self.builtin_runners[i].1.base() {
                    if base.segment_index == addr.segment_index {
                        assert(is_first_owner(
                            self.builtin_runners@,
                            addr.segment_index,
                            i as int,
                        ));
                        return match self.builtin_runners[i].1.deduce_memory_cell(
                            address,
                            &self.memory,
                        ) {
                            Ok(maybe_reloc) => Ok(maybe_reloc),
                            Err(error) => Err(VirtualMachineError::RunnerError(error)),
                        };
                    }
                }
                i = i + 1;
            }
            return Ok(None);
        }
        Err(VirtualMachineError::RunnerError(RunnerError::NonRelocatableAddress))
    }

    /// Computes the value of res if possible
    pub fn compute_res(
        &self,
        instruction: &Instruction,
        op0: &MaybeRelocatable,
        op1: &MaybeRelocatable,
    ) -> (r: Result<Option<MaybeRelocatable>, VirtualMachineError>)
        requires
            res_is_reduced(instruction@, op0@, op1@) ==> self.prime@ != 0,
        ensures
            outcome(r) == computed_res(self@, instruction@, op0@, op1@),
    {
        match instruction.res {
            Res::Op1 => Ok(Some(op1.clone())),
            Res::Add => Ok(Some(op0.add_mod(op1, &self.prime)?)),
            Res::Mul => {
                if let (MaybeRelocatable::Int(num_op0), MaybeRelocatable::Int(num_op1)) = (
                    op0,
                    op1,
                ) {
                    return Ok(
                        Some(
                            MaybeRelocatable::Int(num_op0.times(num_op1).remainder(&self.prime)),
                        ),
                    );
                }
                Err(VirtualMachineError::PureValue)
            },
            Res::Unconstrained => Ok(None),
        }
    }

    /// The destination that the opcode demands, where it demands one.
    pub fn deduce_dst(&self, instruction: &Instruction, res: Option<&MaybeRelocatable>) -> (r:
        Option<MaybeRelocatable>)
        ensures
            r.deep_view() == deduced_dst(self@, instruction@, res.deep_view()),
    {
        match instruction.opcode {
            Opcode::AssertEq => {
                if let Some(res_addr) = res {
                    return Some(res_addr.clone());
                }
            },
            Opcode::Call => return Some(self.run_context.fp.clone()),
            _ => (),
        }
        None
    }

    /// Checks what the opcode demands of the operands.
    pub fn opcode_assertions(&self, instruction: &Instruction, operands: &Operands) -> (r: Result<
        (),
        VirtualMachineError,
    >)
        ensures
            outcome(r) == assertion_outcome(self@, instruction@, operands@),
    {
        match instruction.opcode {
            Opcode::AssertEq => {
                match &operands.res {
                    None => return Err(VirtualMachineError::UnconstrainedResAssertEq),
                    Some(res) => {
                        if let (MaybeRelocatable::Int(res_num), MaybeRelocatable::Int(dst_num)) = (
                            res,
                            &operands.dst,
                        ) {
                            if *res_num != *dst_num {
                                return Err(
                                    VirtualMachineError::DiffAssertValues(
                                        res_num.clone(),
                                        dst_num.clone(),
                                    ),
                                );
                            }
                        }
                    },
                }
                Ok(())
            },
            Opcode::Call => {
                if let (MaybeRelocatable::Int(op0_num), MaybeRelocatable::Int(run_pc)) = (
                    &operands.op0,
                    &self.run_context.pc,
                ) {
                    let return_pc: BigInt = run_pc.plus(&BigInt::from_usize(instruction.size()));
                    if *op0_num != return_pc {
                        return Err(
                            VirtualMachineError::CantWriteReturnPc(op0_num.clone(), return_pc),
                        );
                    }
                }
                if let (MaybeRelocatable::Int(return_fp), MaybeRelocatable::Int(dst_num)) = (
                    &self.run_context.fp,
                    &operands.dst,
                ) {
                    if *dst_num != *return_fp {
                        return Err(
                            VirtualMachineError::CantWriteReturnFp(
                                dst_num.clone(),
                                return_fp.clone(),
                            ),
                        );
                    }
                }
                Ok(())
            },
            _ => Ok(()),
        }
    }

    /// What the cell of an operand holds.
    fn fetch(&self, address: &MaybeRelocatable) -> (r: Result<
        Option<MaybeRelocatable>,
        VirtualMachineError,
    >)
        ensures
            outcome(r) == (match read(self@.cells, address@) {
                Ok(held) => Ok::<Option<Value>, Fault>(held),
                Err(_) => Err(Fault::InvalidInstructionEncoding),
            }),
    {
        match self.memory.get(address) {
            Err(_) => Err(VirtualMachineError::InvalidInstructionEncoding),
            Ok(Some(held)) => Ok(Some(held.clone())),
            Ok(None) => Ok(None),
        }
    }

    /// Stores an operand that memory did not hold.
    fn store(&mut self, address: &MaybeRelocatable, value: &Option<MaybeRelocatable>) -> (r: Result<
        (),
        VirtualMachineError,
    >)
        ensures
            outcome(r) == store_outcome(old(self)@.cells, true, address@, value.deep_view()),
            final(self)@ == (MachineState {
                cells: stored(old(self)@.cells, true, address@, value.deep_view()),
                ..old(self)@
            }),
            final(self).builtin_runners == old(self).builtin_runners,
    {
        match value {
            Some(value) => match self.memory.insert(address, value) {
                Ok(()) => Ok(()),
                _ => Err(VirtualMachineError::InvalidInstructionEncoding),
            },
            None => Err(VirtualMachineError::InvalidInstructionEncoding),
        }
    }

    /// Finds the operands and reads them.
    fn fetch_operands(&self, instruction: &Instruction) -> (r: Result<
        FetchedOperands,
        VirtualMachineError,
    >)
        requires
            self.run_context.prime@ != 0,
        ensures
            outcome(r) == fetched(self@, instruction@),
    {
        let dst_addr: MaybeRelocatable = self.run_context.compute_dst_addr(instruction)?;
        let dst: Option<MaybeRelocatable> = self.fetch(&dst_addr)?;
        let op0_addr: MaybeRelocatable = self.run_context.compute_op0_addr(instruction)?;
        let op0: Option<MaybeRelocatable> = self.fetch(&op0_addr)?;
        let op1_addr: MaybeRelocatable = self.run_context.compute_op1_addr(
            instruction,
            op0.as_ref(),
        )?;
        let op1: Option<MaybeRelocatable> = self.fetch(&op1_addr)?;
        Ok(
            FetchedOperands {
                addresses: OperandsAddresses(dst_addr, op0_addr, op1_addr),
                dst,
                op0,
                op1,
            },
        )
    }

    /// The first operand, and the result where it is known with it.
    fn settle_op0(&mut self, instruction: &Instruction, found: &FetchedOperands) -> (r: Result<
        (Option<MaybeRelocatable>, Option<MaybeRelocatable>),
        VirtualMachineError,
    >)
        requires
            found.op0 is None && deduced_op0_is_reduced(
                instruction@,
                found.dst.deep_view(),
                found.op1.deep_view(),
            ) && old(self).prime@ == 0 ==> forall|after: Runners|
                !asked(
                    old(self).builtin_runners@,
                    found.addresses@.op0,
                    old(self)@.cells,
                    Ok(None),
                    after,
                ),
            found.op0 is None && instruction.opcode is Call && !old(
                self,
            ).run_context.pc@.has_room_for(instruction@.size() as int) ==> forall|after: Runners|
                !asked(
                    old(self).builtin_runners@,
                    found.addresses@.op0,
                    old(self)@.cells,
                    Ok(None),
                    after,
                ),
        ensures
            exists|answer0: Result<Option<Value>, Fault>|
                {
                    &&& #[trigger] settled_op0(
                        old(self)@,
                        instruction@,
                        found.deep_view(),
                        answer0,
                    ) == outcome(r)
                    &&& if found.op0 is None {
                        asked(
                            old(self).builtin_runners@,
                            found.addresses@.op0,
                            old(self)@.cells,
                            answer0,
                            final(self).builtin_runners@,
                        )
                    } else {
                        final(self).builtin_runners@ == old(self).builtin_runners@
                    }
                },
            final(self)@ == old(self)@,
    {
        let ghost s = self@;
        if let Some(op0) = &found.op0 {
            let r = Ok((Some(op0.clone()), None));
            assert(settled_op0(s, instruction@, found.deep_view(), Ok(None)) == outcome(r));
            return r;
        }
        let answer = self.deduce_memory_cell(&found.addresses.1);
        let ghost answer0 = outcome(answer);
        let r = match answer {
            Ok(None) => self.deduce_op0(instruction, found.dst.as_ref(), found.op1.as_ref()),
            Ok(deduced_memory_cell) => Ok((deduced_memory_cell, None)),
            Err(e) => Err(e),
        };
        assert(settled_op0(s, instruction@, found.deep_view(), answer0) == outcome(r));
        r
    }

    /// The second operand, and the result where it is known by then.
    fn settle_op1(
        &mut self,
        instruction: &Instruction,
        found: &FetchedOperands,
        op0: &Option<MaybeRelocatable>,
        res: Option<MaybeRelocatable>,
    ) -> (r: Result<(Option<MaybeRelocatable>, Option<MaybeRelocatable>), VirtualMachineError>)
        requires
            found.op1 is None && deduced_op1_is_reduced(
                instruction@,
                found.dst.deep_view(),
                op0.deep_view(),
            ) && old(self).prime@ == 0 ==> forall|after: Runners|
                !asked(
                    old(self).builtin_runners@,
                    found.addresses@.op1,
                    old(self)@.cells,
                    Ok(None),
                    after,
                ),
        ensures
            exists|answer1: Result<Option<Value>, Fault>|
                {
                    &&& #[trigger] settled_op1(
                        old(self)@,
                        instruction@,
                        found.deep_view(),
                        op0.deep_view(),
                        res.deep_view(),
                        answer1,
                    ) == outcome(r)
                    &&& if found.op1 is None {
                        asked(
                            old(self).builtin_runners@,
                            found.addresses@.op1,
                            old(self)@.cells,
                            answer1,
                            final(self).builtin_runners@,
                        )
                    } else {
                        final(self).builtin_runners@ == old(self).builtin_runners@
                    }
                },
            final(self)@ == old(self)@,
    {
        let ghost s = self@;
        let ghost known = res.deep_view();
        if let Some(op1) = &found.op1 {
            let r = Ok((Some(op1.clone()), res));
            assert(settled_op1(
                s,
                instruction@,
                found.deep_view(),
                op0.deep_view(),
                known,
                Ok(None),
            ) == outcome(r));
            return r;
        }
        let answer = self.deduce_memory_cell(&found.addresses.2);
        let ghost answer1 = outcome(answer);
        let r = match answer {
            Ok(None) => match self.deduce_op1(instruction, found.dst.as_ref(), op0.clone()) {
                Ok((op1, deduced_res)) => if res.is_none() {
                    Ok((op1, deduced_res))
                } else {
                    Ok((op1, res))
                },
                Err(e) => Err(e),
            },
            Ok(deduced_memory_cell) => Ok((deduced_memory_cell, res)),
            Err(e) => Err(e),
        };
        assert(settled_op1(s, instruction@, found.deep_view(), op0.deep_view(), known, answer1)
            == outcome(r));
        r
    }

    /// The result, once both operands are settled.
    fn settle_res(
        &self,
        instruction: &Instruction,
        op0: &Option<MaybeRelocatable>,
        op1: &Option<MaybeRelocatable>,
        res: Option<MaybeRelocatable>,
    ) -> (r: Result<Option<MaybeRelocatable>, VirtualMachineError>)
        requires
            res is None && op0 is Some && op1 is Some && res_is_reduced(
                instruction@,
                op0.deep_view()->0,
                op1.deep_view()->0,
            ) ==> self.prime@ != 0,
        ensures
            outcome(r) == settled_res(
                self@,
                instruction@,
                op0.deep_view(),
                op1.deep_view(),
                res.deep_view(),
            ),
    {
        if res.is_some() {
            return Ok(res);
        }
        match (op0, op1) {
            (Some(op0), Some(op1)) => self.compute_res(instruction, op0, op1),
            _ => Err(VirtualMachineError::InvalidInstructionEncoding),
        }
    }

    /// The destination, once the result is settled.
    fn settle_dst(
        &self,
        instruction: &Instruction,
        dst: &Option<MaybeRelocatable>,
        res: &Option<MaybeRelocatable>,
    ) -> (r: Result<MaybeRelocatable, VirtualMachineError>)
        ensures
            outcome(r) == settled_dst(self@, instruction@, dst.deep_view(), res.deep_view()),
    {
        match dst {
            Some(dst) => Ok(dst.clone()),
            None => match self.deduce_dst(instruction, res.as_ref()) {
                Some(dst) => Ok(dst),
                None => Err(VirtualMachineError::NoDst),
            },
        }
    }

    /// Settles the operands and the result: from memory, from the builtins, or by deduction.
    fn settle_operands(&mut self, instruction: &Instruction, found: &FetchedOperands) -> (r: Result<
        SettledOperands,
        VirtualMachineError,
    >)
        requires
            old(self).prime@ == 0 ==> operands_are_never_reduced(
                old(self)@,
                old(self).builtin_runners@,
                instruction@,
            ),
            !old(self).run_context.pc@.has_room_for(instruction@.size() as int)
                ==> return_address_is_never_deduced(
                old(self)@,
                old(self).builtin_runners@,
                instruction@,
            ),
            fetched(old(self)@, instruction@) == Ok::<Fetched, Fault>(found.deep_view()),
        ensures
            exists|
                answer0: Result<Option<Value>, Fault>,
                between: Runners,
                answer1: Result<Option<Value>, Fault>,
            |
                {
                    &&& #[trigger] consulted(
                        old(self)@,
                        instruction@,
                        old(self).builtin_runners@,
                        answer0,
                        between,
                        answer1,
                        final(self).builtin_runners@,
                    )
                    &&& outcome(r) == settled(
                        old(self)@,
                        instruction@,
                        found.deep_view(),
                        answer0,
                        answer1,
                    )
                },
            final(self)@ == old(self)@,
    {
        let ghost s = self@;
        let ghost before = self.builtin_runners@;
        let ghost unasked = Ok::<Option<Value>, Fault>(None);
        assert forall|after: Runners| #[trigger]
            asked(before, found.addresses@.op0, s.cells, unasked, after)
                && found.op0 is None implies {
            &&& s.prime == 0 ==> !deduced_op0_is_reduced(
                instruction@,
                found.dst.deep_view(),
                found.op1.deep_view(),
            )
            &&& instruction.opcode is Call ==> s.registers.pc.has_room_for(
                instruction@.size() as int,
            )
        } by {
            let answer1 = lemma_consultation_goes_on(s, instruction@, before, unasked, after);
            assert(consulted(s, instruction@, before, unasked, after, answer1, after));
        }
        let settled0 = self.settle_op0(instruction, found);
        let ghost between = self.builtin_runners@;
        let ghost answer0 = choose|answer0: Result<Option<Value>, Fault>|
            {
                &&& #[trigger] settled_op0(s, instruction@, found.deep_view(), answer0) == outcome(
                    settled0,
                )
                &&& if found.op0 is None {
                    asked(before, found.addresses@.op0, s.cells, answer0, between)
                } else {
                    between == before
                }
            };
        let (op0, res) = match settled0 {
            Ok(settled) => settled,
            Err(e) => {
                assert(consulted(
                    s,
                    instruction@,
                    before,
                    answer0,
                    between,
                    unasked,
                    between,
                ));
                return Err(e);
            },
        };
        let ghost known = res.deep_view();
        assert forall|after: Runners| #[trigger]
            asked(between, found.addresses@.op1, s.cells, unasked, after)
                && found.op1 is None implies s.prime == 0 ==> !deduced_op1_is_reduced(
            instruction@,
            found.dst.deep_view(),
            op0.deep_view(),
        ) by {
            assert(consulted(s, instruction@, before, answer0, between, unasked, after));
        }
        let settled1 = self.settle_op1(instruction, found, &op0, res);
        let ghost after = self.builtin_runners@;
        let ghost answer1 = choose|answer1: Result<Option<Value>, Fault>|
            {
                &&& #[trigger] settled_op1(
                    s,
                    instruction@,
                    found.deep_view(),
                    op0.deep_view(),
                    known,
                    answer1,
                ) == outcome(settled1)
                &&& if found.op1 is None {
                    asked(between, found.addresses@.op1, s.cells, answer1, after)
                } else {
                    after == between
                }
            };
        assert(consulted(s, instruction@, before, answer0, between, answer1, after));
        let (op1, res) = settled1?;
        let res: Option<MaybeRelocatable> = self.settle_res(instruction, &op0, &op1, res)?;
        let dst: MaybeRelocatable = self.settle_dst(instruction, &found.dst, &res)?;
        Ok(SettledOperands { dst, op0, op1, res })
    }

    /// Stores the operands that memory did not hold.
    fn store_operands(&mut self, found: &FetchedOperands, settled: SettledOperands) -> (r: Result<
        Operands,
        VirtualMachineError,
    >)
        requires
            found.op0 is Some ==> settled.op0 is Some,
            found.op1 is Some ==> settled.op1 is Some,
        ensures
            (outcome(r), final(self)@.cells) == store_all(
                old(self)@.cells,
                found.deep_view(),
                settled.deep_view(),
            ),
            final(self)@ == (MachineState { cells: final(self)@.cells, ..old(self)@ }),
            final(self).builtin_runners == old(self).builtin_runners,
    {
        let dst: Option<MaybeRelocatable> = Some(settled.dst.clone());
        if found.dst.is_none() {
            self.store(&found.addresses.0, &dst)?;
        }
        if found.op0.is_none() {
            self.store(&found.addresses.1, &settled.op0)?;
        }
        if found.op1.is_none() {
            self.store(&found.addresses.2, &settled.op1)?;
        }
        match (settled.op0, settled.op1) {
            (Some(op0), Some(op1)) => Ok(
                Operands { dst: settled.dst, res: settled.res, op0, op1 },
            ),
            _ => Err(VirtualMachineError::InvalidInstructionEncoding),
        }
    }

    /// Compute operands and result, trying to deduce them if normal memory access returns a None
    /// value.
    pub fn compute_operands(&mut self, instruction: &Instruction) -> (r: Result<
        (Operands, Option<OperandsAddresses>),
        VirtualMachineError,
    >)
        requires
            old(self).run_context.prime@ != 0,
            old(self).prime@ == 0 ==> operands_are_never_reduced(
                old(self)@,
                old(self).builtin_runners@,
                instruction@,
            ),
            !old(self).run_context.pc@.has_room_for(instruction@.size() as int)
                ==> return_address_is_never_deduced(
                old(self)@,
                old(self).builtin_runners@,
                instruction@,
            ),
        ensures
            operands_computed(
                old(self)@,
                old(self).builtin_runners@,
                instruction@,
                match r {
                    Ok((operands, _)) => Ok(operands@),
                    Err(error) => Err(error.deep_view()),
                },
                final(self)@.cells,
                final(self).builtin_runners@,
            ),
            final(self)@ == (MachineState { cells: final(self)@.cells, ..old(self)@ }),
            r matches Ok((_, addresses)) ==> addresses.deep_view() == if old(
                self,
            )@.accessed_addresses is Some {
                Some(fetched(old(self)@, instruction@)->Ok_0.addresses)
            } else {
                None
            },
    {
        let found: FetchedOperands = match self.fetch_operands(instruction) {
            Ok(found) => found,
            Err(e) => {
                assert(consulted(
                    self@,
                    instruction@,
                    self.builtin_runners@,
                    Ok(None),
                    self.builtin_runners@,
                    Ok(None),
                    self.builtin_runners@,
                ));
                return Err(e);
            },
        };
        let settled: SettledOperands = self.settle_operands(instruction, &found)?;
        let operands: Operands = self.store_operands(&found, settled)?;
        let accessed_addresses: Option<OperandsAddresses> = if self.accessed_addresses.is_some() {
            Some(found.addresses)
        } else {
            None
        };
        Ok((operands, accessed_addresses))
    }

    /// Adds the registers to the trace, if there is one.
    fn record_registers(&mut self)
        ensures
            final(self)@ == (MachineState { trace: next_trace(old(self)@), ..old(self)@ }),
            final(self).builtin_runners == old(self).builtin_runners,
    {
        if let Some(trace) = &mut self.trace {
            if let Some(entry) = self.run_context.trace_entry() {
                trace.push(entry);
            }
        }
    }

    /// Adds the addresses of an instruction's operands and of the instruction itself to those
    /// accessed, if they are kept.
    fn record_accesses(&mut self, addresses: Option<OperandsAddresses>)
        requires
            old(self).accessed_addresses is Some ==> addresses is Some,
        ensures
            final(self)@ == (MachineState {
                accessed_addresses: next_accessed(old(self)@, addresses.deep_view()->0),
                ..old(self)@
            }),
            final(self).builtin_runners == old(self).builtin_runners,
    {
        if let Some(accessed_addresses) = &mut self.accessed_addresses {
            if let Some(op_addrs) = addresses {
                accessed_addresses.push(op_addrs.0);
                accessed_addresses.push(op_addrs.1);
                accessed_addresses.push(op_addrs.2);
                accessed_addresses.push(self.run_context.pc.clone());
            }
        }
        proof {
            if let Some(before) = old(self).accessed_addresses {
                assert(self.accessed_addresses->0.deep_view() =~= before.deep_view() + seq![
                    addresses->0@.dst,
                    addresses->0@.op0,
                    addresses->0@.op1,
                    self.run_context.pc@,
                ]);
            }
        }
    }

    /// The offset that the register updates would count `ap` up to, where there is no such offset.
    fn ap_overflow(&self, instruction: &Instruction) -> (r: Option<BigInt>)
        ensures
            r.deep_view() == if self@.registers.ap.has_room_for(reach(instruction@)) {
                None
            } else {
                Some(self@.registers.ap->RelocatableValue_0.offset + reach(instruction@))
            },
    {
        let reach: usize = match (&instruction.fp_update, &instruction.ap_update) {
            (FpUpdate::APPlus2, _) => 2,
            (_, ApUpdate::Add2) => 2,
            (_, ApUpdate::Add1) => 1,
            _ => 0,
        };
        match &self.run_context.ap {
            MaybeRelocatable::RelocatableValue(ap) if ap.offset > usize::MAX - reach => Some(
                BigInt::from_usize(ap.offset).plus(&BigInt::from_usize(reach)),
            ),
            _ => None,
        }
    }

    /// Records an instruction whose operands meet the opcode's demands, and updates the registers.
    fn complete_instruction(
        &mut self,
        instruction: Instruction,
        operands: Operands,
        addresses: Option<OperandsAddresses>,
    ) -> (r: Result<(), VirtualMachineError>)
        requires
            old(self)@.registers.ap.has_room_for(reach(instruction@)) ==> {
                &&& registers_are_reduced(old(self)@, instruction@, operands@) ==> old(self).prime@
                    != 0
                &&& next_ap(old(self)@, instruction@, operands@) is Ok && pc_is_counted_up(
                    instruction@,
                    operands@,
                ) ==> old(self).run_context.pc@.has_room_for(instruction@.size() as int)
            },
            old(self).accessed_addresses is Some ==> addresses is Some,
            old(self)@.registers.ap.has_room_for(reach(instruction@)) && registers_outcome(
                old(self)@,
                instruction@,
                operands@,
            ) is Ok ==> old(self).current_step < usize::MAX,
        ensures
            (outcome(r), final(self)@) == completed(
                old(self)@,
                instruction@,
                operands@,
                addresses.deep_view()->0,
            ),
            final(self).builtin_runners == old(self).builtin_runners,
    {
        self.record_registers();
        self.record_accesses(addresses);
        if let Some(offset) = self.ap_overflow(&instruction) {
            return Err(VirtualMachineError::OffsetExceeded(offset));
        }
        self.update_registers(instruction, operands)?;
        self.current_step = self.current_step + 1;
        Ok(())
    }

    /// Runs an instruction: computes its operands, checks them, records the step and updates the
    /// registers.
    pub fn run_instruction(&mut self, instruction: Instruction) -> (r: Result<
        (),
        VirtualMachineError,
    >)
        requires
            old(self).run_context.prime@ != 0,
            old(self).prime@ == 0 ==> instruction_is_never_reduced(
                old(self)@,
                old(self).builtin_runners@,
                instruction@,
            ),
            !old(self).run_context.pc@.has_room_for(instruction@.size() as int)
                ==> pc_is_never_counted_up(
                old(self)@,
                old(self).builtin_runners@,
                instruction@,
            ),
            old(self).current_step == usize::MAX ==> instruction_never_completes(
                old(self)@,
                old(self).builtin_runners@,
                instruction@,
            ),
        ensures
            instruction_ran(
                old(self)@,
                old(self).builtin_runners@,
                instruction@,
                outcome(r),
                final(self)@,
                final(self).builtin_runners@,
            ),
    {
        let (operands, operands_mem_addresses) = self.compute_operands(&instruction)?;
        self.opcode_assertions(&instruction, &operands)?;
        proof {
            if self@.registers.ap.has_room_for(reach(instruction@)) {
                assert(reaches_registers(
                    old(self)@,
                    old(self).builtin_runners@,
                    instruction@,
                    operands@,
                    self@.cells,
                    self.builtin_runners@,
                ));
            }
        }
        self.complete_instruction(instruction, operands, operands_mem_addresses)
    }

    /// The instruction at pc.
    pub fn decode_current_instruction(&self) -> (r: Result<Instruction, VirtualMachineError>)
        ensures
            outcome(r) == current_instruction(self@),
            r matches Ok(instruction) ==> self.run_context.pc@.has_room_for(
                instruction@.size() as int,
            ),
    {
        let (instruction_ref, imm) = self.get_instruction_encoding()?;
        proof {
            self.memory.lemma_cells_are_addressable();
            assert(self.run_context.pc@.has_room_for(1));
            assert(imm is Some ==> self.run_context.pc@.has_room_for(2));
        }
        match instruction_ref.to_i64() {
            Some(instruction) => {
                if let Some(MaybeRelocatable::Int(imm_ref)) = imm {
                    return decode_instruction(instruction, Some(imm_ref.clone()));
                }
                decode_instruction(instruction, None)
            },
            None => Err(VirtualMachineError::InvalidInstructionEncoding),
        }
    }

    /// Runs hints in order, up to the first that fails.
    fn run_hints<P: HintProcessor>(
        &mut self,
        hint_executor: &P,
        exec_scopes: &mut P::ExecutionScopes,
        hint_list: &Vec<P::HintData>,
    ) -> (r: Result<(), VirtualMachineError>)
        ensures
            match r {
                Ok(()) => hints_ran(
                    *hint_executor,
                    hint_list@,
                    shown(old(self)@, old(self).builtin_runners@),
                    *old(exec_scopes),
                    shown(final(self)@, final(self).builtin_runners@),
                    *final(exec_scopes),
                ),
                Err(error) => hint_failed(
                    *hint_executor,
                    hint_list@,
                    shown(old(self)@, old(self).builtin_runners@),
                    *old(exec_scopes),
                    error.deep_view(),
                    shown(final(self)@, final(self).builtin_runners@),
                    *final(exec_scopes),
                ),
            },
            final(self)@ == changed(
                old(self)@,
                shown(final(self)@, final(self).builtin_runners@),
            ),
            final(self).prime@ == old(self).prime@,
            final(self).builtin_runners == old(self).builtin_runners,
    {
        let n: usize = hint_list.len();
        let mut i: usize = 0;
        assert(hint_list@.take(0) =~= Seq::empty());
        while i < n
            invariant
                i <= n == hint_list@.len(),
                hints_ran(
                    *hint_executor,
                    hint_list@.take(i as int),
                    shown(old(self)@, old(self).builtin_runners@),
                    *old(exec_scopes),
                    shown(self@, self.builtin_runners@),
                    *exec_scopes,
                ),
                self@ == changed(old(self)@, shown(self@, self.builtin_runners@)),
                self.prime@ == old(self).prime@,
                self.builtin_runners == old(self).builtin_runners,
            decreases n - i,
        {
            let ghost between = shown(self@, self.builtin_runners@);
            let ghost scopes_between = *exec_scopes;
            let vm_proxy = VMProxy {
                pc: &mut self.run_context.pc,
                ap: &mut self.run_context.ap,
                fp: &mut self.run_context.fp,
                memory: &mut self.memory,
                segments: &mut self.segments,
                prime: &self.prime,
                builtin_runners: &self.builtin_runners,
            };
            let r = hint_executor.execute_hint(vm_proxy, exec_scopes, &hint_list[i]);
            assert(hint_executor.effect(
                hint_list@[i as int],
                between,
                scopes_between,
                outcome(r),
                shown(self@, self.builtin_runners@),
                *exec_scopes,
            ));
            r?;
            proof {
                let done = hint_list@.take(i + 1);
                assert(done.drop_last() =~= hint_list@.take(i as int));
                assert(done.last() == hint_list@[i as int]);
            }
            i = i + 1;
        }
        assert(hint_list@.take(n as int) =~= hint_list@);
        Ok(())
    }

    /// Runs the hints of the instruction at pc, then the instruction to which they have led.
    pub fn step<P: HintProcessor>(
        &mut self,
        hint_executor: &P,
        exec_scopes: &mut P::ExecutionScopes,
        hint_data_dictionary: &HashMap<usize, Vec<P::HintData>>,
    ) -> (r: Result<(), VirtualMachineError>)
        requires
            old(self).run_context.pc@ matches Value::RelocatableValue(pc) ==> hints_lead_to_runnable(
                *hint_executor,
                hints_at(hint_data_dictionary@, pc.offset),
                old(self)@,
                old(self).builtin_runners@,
                *old(exec_scopes),
            ),
        ensures
            stepped(
                *hint_executor,
                hint_data_dictionary@,
                old(self)@,
                old(self).builtin_runners@,
                *old(exec_scopes),
                outcome(r),
                final(self)@,
                final(self).builtin_runners@,
                *final(exec_scopes),
            ),
    {
        broadcast use vstd::std_specs::hash::group_hash_axioms;

        let pc: Relocatable = match self.run_context.pc.as_relocatable() {
            Ok(pc) => pc,
            Err(error) => return Err(VirtualMachineError::MemoryError(error)),
        };
        if let Some(hint_list) = hint_data_dictionary.get(&pc.offset) {
            self.run_hints(hint_executor, exec_scopes, hint_list)?;
        }
        assert(hints_ran(
            *hint_executor,
            hints_at(hint_data_dictionary@, pc.offset),
            shown(old(self)@, old(self).builtin_runners@),
            *old(exec_scopes),
            shown(self@, self.builtin_runners@),
            *exec_scopes,
        ));
        assert(self@ == changed(old(self)@, shown(self@, self.builtin_runners@)));
        self.skip_instruction_execution = false;
        let instruction: Instruction = self.decode_current_instruction()?;
        self.run_instruction(instruction)?;
        Ok(())
    }

    /// Checks the cell at offset `j` of segment `i` against the `k`-th builtin.
    fn verify_deduction(&mut self, i: usize, j: usize, k: usize) -> (r: Result<
        (),
        VirtualMachineError,
    >)
        requires
            i < old(self).memory.data@.len(),
            j < old(self).memory.data@[i as int]@.len(),
            k < old(self).builtin_runners@.len(),
        ensures
            visited(
                (Visit { segment_index: i as int, offset: j as int, runner: k as int }),
                old(self).builtin_runners@,
                old(self)@.cells,
                outcome(r),
                final(self).builtin_runners@,
            ),
            final(self)@ == old(self)@,
            final(self).memory == old(self).memory,
            final(self).builtin_runners@.len() == old(self).builtin_runners@.len(),
    {
        let ghost cells = self@.cells;
        assert(cells[i as int] == self.memory.data@[i as int].deep_view());
        assert(cells[i as int][j as int] == self.memory.data@[i as int]@[j as int].deep_view());
        let base: Relocatable = match self.builtin_runners[k].1.base() {
            Some(base) => base,
            None => return Err(VirtualMachineError::InvalidInstructionEncoding),
        };
        if base.segment_index != i {
            return Ok(());
        }
        let address: MaybeRelocatable = MaybeRelocatable::from((i, j));
        match self.builtin_runners[k].1.deduce_memory_cell(&address, &self.memory) {
            Ok(None) => Ok(()),
            Ok(Some(deduced_memory_cell)) => {
                if let Some(value) = &self.memory.data[i][j] {
                    if deduced_memory_cell != *value {
                        return Err(
                            VirtualMachineError::InconsistentAutoDeduction(
                                self.builtin_runners[k].0.clone(),
                                deduced_memory_cell,
                                Some(value.clone()),
                            ),
                        );
                    }
                }
                Ok(())
            },
            Err(_) => Err(VirtualMachineError::InvalidInstructionEncoding),
        }
    }

    /// Checks the cell at offset `j` of segment `i` against each builtin.
    fn verify_cell(&mut self, i: usize, j: usize) -> (r: Result<(), VirtualMachineError>)
        requires
            i < old(self).memory.data@.len(),
            j < old(self).memory.data@[i as int]@.len(),
        ensures
            visits_made(
                cell_visits(old(self).builtin_runners@.len(), i as int, j as int),
                old(self).builtin_runners@,
                old(self)@.cells,
                outcome(r),
                final(self).builtin_runners@,
            ),
            final(self)@ == old(self)@,
            final(self).memory == old(self).memory,
            final(self).builtin_runners@.len() == old(self).builtin_runners@.len(),
    {
        let n: usize = self.builtin_runners.len();
        let mut k: usize = 0;
        let ghost visits = cell_visits(n as nat, i as int, j as int);
        assert(visits.take(0) =~= Seq::empty());
        while k < n
            invariant
                k <= n == self.builtin_runners@.len(),
                n == old(self).builtin_runners@.len(),
                i < old(self).memory.data@.len(),
                j < old(self).memory.data@[i as int]@.len(),
                visits == cell_visits(n as nat, i as int, j as int),
                visits_passed(
                    visits.take(k as int),
                    old(self).builtin_runners@,
                    old(self)@.cells,
                    self.builtin_runners@,
                ),
                self@ == old(self)@,
                self.memory == old(self).memory,
            decreases n - k,
        {
            proof {
                assert(visits.take(k + 1).drop_last() =~= visits.take(k as int));
                assert(visits.take(k + 1).last() == visits[k as int]);
            }
            self.verify_deduction(i, j, k)?;
            k = k + 1;
        }
        assert(visits.take(n as int) =~= visits);
        Ok(())
    }

    /// Makes sure that all assigned memory cells are consistent with their auto deduction rules.
    pub fn verify_auto_deductions(&mut self) -> (r: Result<(), VirtualMachineError>)
        ensures
            deductions_verified(
                old(self).builtin_runners@,
                old(self)@.cells,
                outcome(r),
                final(self).builtin_runners@,
            ),
            final(self)@ == old(self)@,
    {
        let ghost n = self.builtin_runners@.len();
        let ghost cells = self@.cells;
        let count: usize = self.memory.data.len();
        let mut i: usize = 0;
        while i < count
            invariant
                i <= count == old(self).memory.data@.len(),
                n == old(self).builtin_runners@.len() == self.builtin_runners@.len(),
                cells == old(self)@.cells,
                visits_passed(
                    memory_visits(n, cells, i as nat),
                    old(self).builtin_runners@,
                    cells,
                    self.builtin_runners@,
                ),
                self@ == old(self)@,
                self.memory == old(self).memory,
            decreases count - i,
        {
            let ghost between = self.builtin_runners@;
            let len: usize = self.memory.data[i].len();
            let mut j: usize = 0;
            while j < len
                invariant
                    j <= len == old(self).memory.data@[i as int]@.len(),
                    i < count == old(self).memory.data@.len(),
                    n == old(self).builtin_runners@.len() == self.builtin_runners@.len(),
                    cells == old(self)@.cells,
                    visits_passed(
                        memory_visits(n, cells, i as nat),
                        old(self).builtin_runners@,
                        cells,
                        between,
                    ),
                    visits_passed(
                        segment_visits(n, i as int, j as nat),
                        between,
                        cells,
                        self.builtin_runners@,
                    ),
                    self@ == old(self)@,
                    self.memory == old(self).memory,
                decreases len - j,
            {
                let ghost last = self.builtin_runners@;
                let r = self.verify_cell(i, j);
                proof {
                    let after = self.builtin_runners@;
                    let through = segment_visits(n, i as int, (j + 1) as nat);
                    lemma_visits_in_a_row(
                        segment_visits(n, i as int, j as nat),
                        cell_visits(n, i as int, j as int),
                        between,
                        cells,
                        last,
                        outcome(r),
                        after,
                    );
                    assert(visits_made(through, between, cells, outcome(r), after));
                    if let Err(fault) = outcome(r) {
                        assert(cells[i as int].len() == len);
                        let rest = lemma_segment_visits_extend(
                            n,
                            i as int,
                            (j + 1) as nat,
                            len as nat,
                        );
                        lemma_failure_stands(through, rest, between, cells, fault, after);
                        lemma_visits_in_a_row(
                            memory_visits(n, cells, i as nat),
                            segment_visits(n, i as int, len as nat),
                            old(self).builtin_runners@,
                            cells,
                            between,
                            outcome(r),
                            after,
                        );
                        let others = lemma_memory_visits_extend(
                            n,
                            cells,
                            (i + 1) as nat,
                            count as nat,
                        );
                        lemma_failure_stands(
                            memory_visits(n, cells, (i + 1) as nat),
                            others,
                            old(self).builtin_runners@,
                            cells,
                            fault,
                            after,
                        );
                    }
                }
                r?;
                j = j + 1;
            }
            proof {
                assert(cells[i as int].len() == len);
                lemma_visits_in_a_row(
                    memory_visits(n, cells, i as nat),
                    segment_visits(n, i as int, len as nat),
                    old(self).builtin_runners@,
                    cells,
                    between,
                    Ok(()),
                    self.builtin_runners@,
                );
            }
            i = i + 1;
        }
        Ok(())
    }
}

} // verus!
