//! The machine: registers, operands, steps and builtins.

use cairo_vm_core::bigint::BigInt;
use cairo_vm_core::builtin_runner::BuiltinRunner;
use cairo_vm_core::errors::{Fault, RunnerError, RunnerFault, VirtualMachineError};
use cairo_vm_core::hint_processor::{ApTracking, HintData, HintProcessor, ProxyState, VMProxy};
use cairo_vm_core::instruction::{
    ApUpdate, FpUpdate, Instruction, Op1Addr, Opcode, PcUpdate, Register, Res,
};
use cairo_vm_core::memory::{Cells, Memory};
use cairo_vm_core::relocatable::{MaybeRelocatable, Relocatable, Value};
use cairo_vm_core::run_context::TraceEntry;
use cairo_vm_core::vm_core::{Operands, OperandsAddresses, VirtualMachine};
use std::collections::{HashMap, HashSet};

type Big = num_bigint::BigInt;

fn bigint(n: i64) -> BigInt {
    BigInt::from_i64(n)
}

fn from_big(n: &Big) -> BigInt {
    BigInt::from_signed_bytes_le(&n.to_signed_bytes_le())
}

fn to_big(n: &BigInt) -> Big {
    Big::from_signed_bytes_le(n.signed_bytes_le())
}

fn big(digits: &str) -> Big {
    Big::parse_bytes(digits.as_bytes(), 10).unwrap()
}

fn bigint_str(digits: &str) -> BigInt {
    from_big(&big(digits))
}

/// The prime of the field: 2^251 + 17 * 2^192 + 1.
fn prime() -> Big {
    (Big::from(1) << 251) + (Big::from(17) << 192) + 1
}

fn vm() -> VirtualMachine {
    VirtualMachine::new(from_big(&prime()), Vec::new(), false)
}

fn traced_vm() -> VirtualMachine {
    VirtualMachine::new(from_big(&prime()), Vec::new(), true)
}

fn set_registers(vm: &mut VirtualMachine, pc: usize, ap: usize, fp: usize) {
    vm.run_context.pc = MaybeRelocatable::from((0, pc));
    vm.run_context.ap = MaybeRelocatable::from((1, ap));
    vm.run_context.fp = MaybeRelocatable::from((1, fp));
}

fn felt(n: i64) -> MaybeRelocatable {
    MaybeRelocatable::Int(bigint(n))
}

fn dec(digits: &str) -> MaybeRelocatable {
    MaybeRelocatable::Int(bigint_str(digits))
}

fn addr(segment_index: usize, offset: usize) -> MaybeRelocatable {
    MaybeRelocatable::from((segment_index, offset))
}

/// A memory with these cells, and with the segments that they need.
fn memory(cells: &[((usize, usize), MaybeRelocatable)]) -> Memory {
    let mut memory = Memory::new();
    for (at, value) in cells {
        while memory.data.len() <= at.0 {
            memory.data.push(Vec::new());
        }
        memory.insert(&MaybeRelocatable::from(*at), value).unwrap();
    }
    memory
}

type Place = (usize, usize);

fn check_trace(trace: &[TraceEntry], expected: &[(Place, Place, Place)]) {
    let place = |at: Place| Relocatable { segment_index: at.0, offset: at.1 };
    for (index, (pc, ap, fp)) in expected.iter().enumerate() {
        assert_eq!(
            trace[index],
            TraceEntry { pc: place(*pc), ap: place(*ap), fp: place(*fp) }
        );
    }
}

/// The integers in `count` cells from `start` on, if all of them hold one.
fn integers(memory: &Memory, start: Relocatable, count: usize) -> Option<Vec<Big>> {
    let mut found = Vec::new();
    for i in 0..count {
        let at = MaybeRelocatable::from((start.segment_index, start.offset + i));
        match memory.get(&at) {
            Ok(Some(MaybeRelocatable::Int(n))) => found.push(to_big(n)),
            _ => return None,
        }
    }
    Some(found)
}

/// The start of the instance of `size` cells that holds `at`, and the place of `at` in it.
fn instance(at: Relocatable, size: usize) -> (Relocatable, usize) {
    let index = at.offset % size;
    (Relocatable { segment_index: at.segment_index, offset: at.offset - index }, index)
}

struct BitwiseBuiltinRunner {
    base: Option<Relocatable>,
}

impl BitwiseBuiltinRunner {
    fn new(_included: bool, _ratio: usize) -> Self {
        BitwiseBuiltinRunner { base: None }
    }
}

impl BuiltinRunner for BitwiseBuiltinRunner {
    fn segment_base(&self) -> Option<Relocatable> {
        self.base
    }

    fn deduction(
        &self,
        _address: Value,
        _cells: Cells,
    ) -> Result<Option<Value>, RunnerFault> {
        unreachable!("only contracts speak of it")
    }

    fn base(&self) -> Option<Relocatable> {
        self.base
    }

    fn deduce_memory_cell(
        &mut self,
        address: &MaybeRelocatable,
        memory: &Memory,
    ) -> Result<Option<MaybeRelocatable>, RunnerError> {
        let at = address.as_relocatable().map_err(|_| RunnerError::NonRelocatableAddress)?;
        let (start, index) = instance(at, 5);
        if index < 2 {
            return Ok(None);
        }
        let inputs = match integers(memory, start, 2) {
            Some(inputs) => inputs,
            None => return Ok(None),
        };
        let deduced = match index {
            2 => &inputs[0] & &inputs[1],
            3 => &inputs[0] ^ &inputs[1],
            _ => &inputs[0] | &inputs[1],
        };
        Ok(Some(MaybeRelocatable::Int(from_big(&deduced))))
    }
}

type Point = (Big, Big);

fn modulo(n: Big) -> Big {
    let r = n % prime();
    if r.sign() == num_bigint::Sign::Minus {
        r + prime()
    } else {
        r
    }
}

fn divided(a: Big, b: Big) -> Big {
    modulo(a * modulo(b).modpow(&(prime() - 2), &prime()))
}

/// The point where the line with this slope through `p` and `q` meets the curve again, mirrored.
fn third_point(slope: Big, p: &Point, q: &Point) -> Point {
    let x = modulo(&slope * &slope - &p.0 - &q.0);
    let y = modulo(slope * (&p.0 - &x) - &p.1);
    (x, y)
}

fn sum_of_points(p: &Point, q: &Point) -> Point {
    third_point(divided(&p.1 - &q.1, &p.0 - &q.0), p, q)
}

/// The point added to itself, on the curve y^2 = x^3 + x + b.
fn double_of_point(p: &Point) -> Point {
    third_point(divided(&p.0 * &p.0 * 3 + 1, &p.1 * 2), p, p)
}

/// p + m * q.
fn ec_op(p: Point, q: Point, m: Big) -> Point {
    let (mut sum, mut doubled, mut rest) = (p, q, m);
    while rest > Big::from(0) {
        if (&rest & Big::from(1)) == Big::from(1) {
            sum = sum_of_points(&sum, &doubled);
        }
        doubled = double_of_point(&doubled);
        rest >>= 1;
    }
    sum
}

struct EcOpBuiltinRunner {
    base: Option<Relocatable>,
}

impl EcOpBuiltinRunner {
    fn new(_included: bool, _ratio: usize) -> Self {
        EcOpBuiltinRunner { base: None }
    }
}

impl BuiltinRunner for EcOpBuiltinRunner {
    fn segment_base(&self) -> Option<Relocatable> {
        self.base
    }

    fn deduction(
        &self,
        _address: Value,
        _cells: Cells,
    ) -> Result<Option<Value>, RunnerFault> {
        unreachable!("only contracts speak of it")
    }

    fn base(&self) -> Option<Relocatable> {
        self.base
    }

    fn deduce_memory_cell(
        &mut self,
        address: &MaybeRelocatable,
        memory: &Memory,
    ) -> Result<Option<MaybeRelocatable>, RunnerError> {
        let at = address.as_relocatable().map_err(|_| RunnerError::NonRelocatableAddress)?;
        let (start, index) = instance(at, 7);
        if index < 5 {
            return Ok(None);
        }
        let inputs = match integers(memory, start, 5) {
            Some(inputs) => inputs,
            None => return Ok(None),
        };
        let result = ec_op(
            (inputs[0].clone(), inputs[1].clone()),
            (inputs[2].clone(), inputs[3].clone()),
            inputs[4].clone(),
        );
        let deduced = if index == 5 { result.0 } else { result.1 };
        Ok(Some(MaybeRelocatable::Int(from_big(&deduced))))
    }
}

/// The Pedersen hash of two elements of the field.
fn pedersen_hash(a: &Big, b: &Big) -> Big {
    let point = |x: &str, y: &str| (big(x), big(y));
    let mut sum = point(
        "2089986280348253421170679821480865132823066470938446095505822317253594081284",
        "1713931329540660377023406109199410414810705867260802078187082345529207694986",
    );
    let generators = [
        point(
            "996781205833008774514500082376783249102396023663454813447423147977397232763",
            "1668503676786377725805489344771023921079126552019160156920634619255970485781",
        ),
        point(
            "2251563274489750535117886426533222435294046428347329203627021249169616184184",
            "1798716007562728905295480679789526322175868328062420237419143593021674992973",
        ),
        point(
            "2138414695194151160943305727036575959195309218611738193261179310511854807447",
            "113410276730064486255102093846540133784865286929052426931474106396135072156",
        ),
        point(
            "2379962749567351885752724891227938183011949129833673362440656643086021394946",
            "776496453633298175483985398648758586525933812536653089401905292063708816422",
        ),
    ];
    let low: Big = (Big::from(1) << 248) - 1;
    let factors = [a & &low, a >> 248, b & &low, b >> 248];
    for (generator, factor) in generators.into_iter().zip(factors) {
        sum = ec_op(sum, generator, factor);
    }
    sum.0
}

/// Tells each hash once.
struct HashBuiltinRunner {
    base: Option<Relocatable>,
    told: Vec<Relocatable>,
}

impl HashBuiltinRunner {
    fn new(_included: bool, _ratio: usize) -> Self {
        HashBuiltinRunner { base: None, told: Vec::new() }
    }
}

impl BuiltinRunner for HashBuiltinRunner {
    fn segment_base(&self) -> Option<Relocatable> {
        self.base
    }

    fn deduction(
        &self,
        _address: Value,
        _cells: Cells,
    ) -> Result<Option<Value>, RunnerFault> {
        unreachable!("only contracts speak of it")
    }

    fn base(&self) -> Option<Relocatable> {
        self.base
    }

    fn deduce_memory_cell(
        &mut self,
        address: &MaybeRelocatable,
        memory: &Memory,
    ) -> Result<Option<MaybeRelocatable>, RunnerError> {
        let at = address.as_relocatable().map_err(|_| RunnerError::NonRelocatableAddress)?;
        let (start, index) = instance(at, 3);
        if index < 2 || self.told.contains(&at) {
            return Ok(None);
        }
        let inputs = match integers(memory, start, 2) {
            Some(inputs) => inputs,
            None => return Ok(None),
        };
        self.told.push(at);
        let hash = pedersen_hash(&inputs[0], &inputs[1]);
        Ok(Some(MaybeRelocatable::Int(from_big(&hash))))
    }
}

/// Knows one hint: to allocate a segment and put its address at ap.
struct AllocHints;

impl HintProcessor for AllocHints {
    type HintData = HintData;
    type ExecutionScopes = ();

    fn effect(
        &self,
        _data: HintData,
        _before: ProxyState,
        _scopes_before: (),
        _result: Result<(), Fault>,
        _after: ProxyState,
        _scopes_after: (),
    ) -> bool {
        unreachable!("only contracts speak of it")
    }

    fn execute_hint(
        &self,
        vm_proxy: VMProxy<'_>,
        _exec_scopes: &mut (),
        hint_data: &HintData,
    ) -> Result<(), VirtualMachineError> {
        assert_eq!(hint_data.hint_code, "memory[ap] = segments.add()");
        let base = vm_proxy.segments.add(vm_proxy.memory, None);
        vm_proxy
            .memory
            .insert(vm_proxy.ap, &MaybeRelocatable::RelocatableValue(base))
            .map_err(VirtualMachineError::MemoryError)
    }
}

#[test]
fn get_instruction_encoding_successful_without_imm() {
    let mut vm = vm();
    vm.memory = memory(&[((0, 0), felt(5))]);
    assert_eq!(Ok((&bigint(5), None)), vm.get_instruction_encoding());
}

#[test]
fn get_instruction_encoding_successful_with_imm() {
    let mut vm = vm();

    vm.memory = memory(&[((0, 0), felt(5)), ((0, 1), felt(6))]);

    let (num, imm) = vm
        .get_instruction_encoding()
        .expect("Unexpected error on get_instruction_encoding");
    assert_eq!(num, &bigint(5));
    assert_eq!(imm, Some(&MaybeRelocatable::Int(bigint(6))));
}

#[test]
fn get_instruction_encoding_unsuccesful() {
    let vm = vm();
    assert_eq!(
        vm.get_instruction_encoding(),
        Err(VirtualMachineError::InvalidInstructionEncoding)
    );
}

#[test]
fn update_fp_ap_plus2() {
    let instruction = Instruction {
        off0: bigint(1),
        off1: bigint(2),
        off2: bigint(3),
        imm: None,
        dst_register: Register::FP,
        op0_register: Register::AP,
        op1_addr: Op1Addr::AP,
        res: Res::Add,
        pc_update: PcUpdate::Regular,
        ap_update: ApUpdate::Regular,
        fp_update: FpUpdate::APPlus2,
        opcode: Opcode::NOp,
    };

    let operands = Operands {
        dst: MaybeRelocatable::Int(bigint(11)),
        res: Some(MaybeRelocatable::Int(bigint(8))),
        op0: MaybeRelocatable::Int(bigint(9)),
        op1: MaybeRelocatable::Int(bigint(10)),
    };

    let mut vm = vm();
    set_registers(&mut vm, 4, 5, 6);

    vm.update_fp(&instruction, &operands);
    assert_eq!(vm.run_context.fp, MaybeRelocatable::from((1, 7)))
}

#[test]
fn update_fp_dst() {
    let instruction = Instruction {
        off0: bigint(1),
        off1: bigint(2),
        off2: bigint(3),
        imm: None,
        dst_register: Register::FP,
        op0_register: Register::AP,
        op1_addr: Op1Addr::AP,
        res: Res::Add,
        pc_update: PcUpdate::Regular,
        ap_update: ApUpdate::Regular,
        fp_update: FpUpdate::Dst,
        opcode: Opcode::NOp,
    };

    let operands = Operands {
        dst: MaybeRelocatable::Int(bigint(11)),
        res: Some(MaybeRelocatable::Int(bigint(8))),
        op0: MaybeRelocatable::Int(bigint(9)),
        op1: MaybeRelocatable::Int(bigint(10)),
    };

    let mut vm = vm();

    vm.update_fp(&instruction, &operands);
    assert_eq!(vm.run_context.fp, MaybeRelocatable::Int(bigint(11)))
}

#[test]
fn update_fp_regular() {
    let instruction = Instruction {
        off0: bigint(1),
        off1: bigint(2),
        off2: bigint(3),
        imm: None,
        dst_register: Register::FP,
        op0_register: Register::AP,
        op1_addr: Op1Addr::AP,
        res: Res::Add,
        pc_update: PcUpdate::Regular,
        ap_update: ApUpdate::Regular,
        fp_update: FpUpdate::Regular,
        opcode: Opcode::NOp,
    };

    let operands = Operands {
        dst: MaybeRelocatable::Int(bigint(11)),
        res: Some(MaybeRelocatable::Int(bigint(8))),
        op0: MaybeRelocatable::Int(bigint(9)),
        op1: MaybeRelocatable::Int(bigint(10)),
    };

    let mut vm = vm();

    vm.update_fp(&instruction, &operands);
    assert_eq!(vm.run_context.fp, MaybeRelocatable::from((0, 0)))
}

#[test]
fn update_ap_add_with_res() {
    let instruction = Instruction {
        off0: bigint(1),
        off1: bigint(2),
        off2: bigint(3),
        imm: None,
        dst_register: Register::FP,
        op0_register: Register::AP,
        op1_addr: Op1Addr::AP,
        res: Res::Add,
        pc_update: PcUpdate::Regular,
        ap_update: ApUpdate::Add,
        fp_update: FpUpdate::Regular,
        opcode: Opcode::NOp,
    };

    let operands = Operands {
        dst: MaybeRelocatable::Int(bigint(11)),
        res: Some(MaybeRelocatable::Int(bigint(8))),
        op0: MaybeRelocatable::Int(bigint(9)),
        op1: MaybeRelocatable::Int(bigint(10)),
    };

    let mut vm = vm();

    assert_eq!(Ok(()), vm.update_ap(&instruction, &operands));
    assert_eq!(vm.run_context.ap, MaybeRelocatable::from((0, 8)));
}

#[test]
fn update_ap_add_without_res() {
    let instruction = Instruction {
        off0: bigint(1),
        off1: bigint(2),
        off2: bigint(3),
        imm: None,
        dst_register: Register::FP,
        op0_register: Register::AP,
        op1_addr: Op1Addr::AP,
        res: Res::Add,
        pc_update: PcUpdate::Regular,
        ap_update: ApUpdate::Add,
        fp_update: FpUpdate::Regular,
        opcode: Opcode::NOp,
    };

    let operands = Operands {
        dst: MaybeRelocatable::Int(bigint(11)),
        res: None,
        op0: MaybeRelocatable::Int(bigint(9)),
        op1: MaybeRelocatable::Int(bigint(10)),
    };

    let mut vm = vm();

    assert_eq!(
        vm.update_ap(&instruction, &operands),
        Err(VirtualMachineError::UnconstrainedResAdd)
    );
}

#[test]
fn update_ap_add1() {
    let instruction = Instruction {
        off0: bigint(1),
        off1: bigint(2),
        off2: bigint(3),
        imm: None,
        dst_register: Register::FP,
        op0_register: Register::AP,
        op1_addr: Op1Addr::AP,
        res: Res::Add,
        pc_update: PcUpdate::Regular,
        ap_update: ApUpdate::Add1,
        fp_update: FpUpdate::Regular,
        opcode: Opcode::NOp,
    };

    let operands = Operands {
        dst: MaybeRelocatable::Int(bigint(11)),
        res: Some(MaybeRelocatable::Int(bigint(8))),
        op0: MaybeRelocatable::Int(bigint(9)),
        op1: MaybeRelocatable::Int(bigint(10)),
    };

    let mut vm = vm();

    assert_eq!(Ok(()), vm.update_ap(&instruction, &operands));
    assert_eq!(vm.run_context.ap, MaybeRelocatable::from((0, 1)));
}

#[test]
fn update_ap_add2() {
    let instruction = Instruction {
        off0: bigint(1),
        off1: bigint(2),
        off2: bigint(3),
        imm: None,
        dst_register: Register::FP,
        op0_register: Register::AP,
        op1_addr: Op1Addr::AP,
        res: Res::Add,
        pc_update: PcUpdate::Regular,
        ap_update: ApUpdate::Add2,
        fp_update: FpUpdate::Regular,
        opcode: Opcode::NOp,
    };

    let operands = Operands {
        dst: MaybeRelocatable::Int(bigint(11)),
        res: Some(MaybeRelocatable::Int(bigint(8))),
        op0: MaybeRelocatable::Int(bigint(9)),
        op1: MaybeRelocatable::Int(bigint(10)),
    };

    let mut vm = vm();

    assert_eq!(Ok(()), vm.update_ap(&instruction, &operands));
    assert_eq!(vm.run_context.ap, MaybeRelocatable::from((0, 2)));
}

#[test]
fn update_ap_regular() {
    let instruction = Instruction {
        off0: bigint(1),
        off1: bigint(2),
        off2: bigint(3),
        imm: None,
        dst_register: Register::FP,
        op0_register: Register::AP,
        op1_addr: Op1Addr::AP,
        res: Res::Add,
        pc_update: PcUpdate::Regular,
        ap_update: ApUpdate::Regular,
        fp_update: FpUpdate::Regular,
        opcode: Opcode::NOp,
    };

    let operands = Operands {
        dst: MaybeRelocatable::Int(bigint(11)),
        res: Some(MaybeRelocatable::Int(bigint(8))),
        op0: MaybeRelocatable::Int(bigint(9)),
        op1: MaybeRelocatable::Int(bigint(10)),
    };

    let mut vm = vm();

    assert_eq!(Ok(()), vm.update_ap(&instruction, &operands));
    assert_eq!(vm.run_context.ap, MaybeRelocatable::from((0, 0)));
}

#[test]
fn update_pc_regular_instruction_no_imm() {
    let instruction = Instruction {
        off0: bigint(1),
        off1: bigint(2),
        off2: bigint(3),
        imm: None,
        dst_register: Register::FP,
        op0_register: Register::AP,
        op1_addr: Op1Addr::AP,
        res: Res::Add,
        pc_update: PcUpdate::Regular,
        ap_update: ApUpdate::Regular,
        fp_update: FpUpdate::Regular,
        opcode: Opcode::NOp,
    };

    let operands = Operands {
        dst: MaybeRelocatable::Int(bigint(11)),
        res: Some(MaybeRelocatable::Int(bigint(8))),
        op0: MaybeRelocatable::Int(bigint(9)),
        op1: MaybeRelocatable::Int(bigint(10)),
    };

    let mut vm = vm();

    assert_eq!(Ok(()), vm.update_pc(&instruction, &operands));
    assert_eq!(vm.run_context.pc, MaybeRelocatable::from((0, 1)));
}

#[test]
fn update_pc_regular_instruction_has_imm() {
    let instruction = Instruction {
        off0: bigint(1),
        off1: bigint(2),
        off2: bigint(3),
        imm: Some(bigint(5)),
        dst_register: Register::FP,
        op0_register: Register::AP,
        op1_addr: Op1Addr::AP,
        res: Res::Add,
        pc_update: PcUpdate::Regular,
        ap_update: ApUpdate::Regular,
        fp_update: FpUpdate::Regular,
        opcode: Opcode::NOp,
    };

    let operands = Operands {
        dst: MaybeRelocatable::Int(bigint(11)),
        res: Some(MaybeRelocatable::Int(bigint(8))),
        op0: MaybeRelocatable::Int(bigint(9)),
        op1: MaybeRelocatable::Int(bigint(10)),
    };

    let mut vm = vm();

    assert_eq!(Ok(()), vm.update_pc(&instruction, &operands));
    assert_eq!(vm.run_context.pc, MaybeRelocatable::from((0, 2)));
}

#[test]
fn update_pc_jump_with_res() {
    let instruction = Instruction {
        off0: bigint(1),
        off1: bigint(2),
        off2: bigint(3),
        imm: None,
        dst_register: Register::FP,
        op0_register: Register::AP,
        op1_addr: Op1Addr::AP,
        res: Res::Add,
        pc_update: PcUpdate::Jump,
        ap_update: ApUpdate::Regular,
        fp_update: FpUpdate::Regular,
        opcode: Opcode::NOp,
    };

    let operands = Operands {
        dst: MaybeRelocatable::Int(bigint(11)),
        res: Some(MaybeRelocatable::Int(bigint(8))),
        op0: MaybeRelocatable::Int(bigint(9)),
        op1: MaybeRelocatable::Int(bigint(10)),
    };

    let mut vm = vm();

    assert_eq!(Ok(()), vm.update_pc(&instruction, &operands));
    assert_eq!(vm.run_context.pc, MaybeRelocatable::Int(bigint(8)));
}

#[test]
fn update_pc_jump_without_res() {
    let instruction = Instruction {
        off0: bigint(1),
        off1: bigint(2),
        off2: bigint(3),
        imm: None,
        dst_register: Register::FP,
        op0_register: Register::AP,
        op1_addr: Op1Addr::AP,
        res: Res::Add,
        pc_update: PcUpdate::Jump,
        ap_update: ApUpdate::Regular,
        fp_update: FpUpdate::Regular,
        opcode: Opcode::NOp,
    };

    let operands = Operands {
        dst: MaybeRelocatable::Int(bigint(11)),
        res: None,
        op0: MaybeRelocatable::Int(bigint(9)),
        op1: MaybeRelocatable::Int(bigint(10)),
    };

    let mut vm = vm();

    assert_eq!(
        vm.update_pc(&instruction, &operands),
        Err(VirtualMachineError::UnconstrainedResJump)
    );
}

#[test]
fn update_pc_jump_rel_with_int_res() {
    let instruction = Instruction {
        off0: bigint(1),
        off1: bigint(2),
        off2: bigint(3),
        imm: None,
        dst_register: Register::FP,
        op0_register: Register::AP,
        op1_addr: Op1Addr::AP,
        res: Res::Add,
        pc_update: PcUpdate::JumpRel,
        ap_update: ApUpdate::Regular,
        fp_update: FpUpdate::Regular,
        opcode: Opcode::NOp,
    };

    let operands = Operands {
        dst: MaybeRelocatable::Int(bigint(11)),
        res: Some(MaybeRelocatable::Int(bigint(8))),
        op0: MaybeRelocatable::Int(bigint(9)),
        op1: MaybeRelocatable::Int(bigint(10)),
    };

    let mut vm = vm();
    vm.run_context.fp = MaybeRelocatable::Int(bigint(6));
    set_registers(&mut vm, 1, 1, 1);

    assert_eq!(Ok(()), vm.update_pc(&instruction, &operands));
    assert_eq!(vm.run_context.pc, MaybeRelocatable::from((0, 9)));
}

#[test]
fn update_pc_jump_rel_without_res() {
    let instruction = Instruction {
        off0: bigint(1),
        off1: bigint(2),
        off2: bigint(3),
        imm: None,
        dst_register: Register::FP,
        op0_register: Register::AP,
        op1_addr: Op1Addr::AP,
        res: Res::Add,
        pc_update: PcUpdate::JumpRel,
        ap_update: ApUpdate::Regular,
        fp_update: FpUpdate::Regular,
        opcode: Opcode::NOp,
    };

    let operands = Operands {
        dst: MaybeRelocatable::Int(bigint(11)),
        res: None,
        op0: MaybeRelocatable::Int(bigint(9)),
        op1: MaybeRelocatable::Int(bigint(10)),
    };

    let mut vm = vm();

    assert_eq!(
        vm.update_pc(&instruction, &operands),
        Err(VirtualMachineError::UnconstrainedResJumpRel)
    );
}

#[test]
fn update_pc_jump_rel_with_non_int_res() {
    let instruction = Instruction {
        off0: bigint(1),
        off1: bigint(2),
        off2: bigint(3),
        imm: None,
        dst_register: Register::FP,
        op0_register: Register::AP,
        op1_addr: Op1Addr::AP,
        res: Res::Add,
        pc_update: PcUpdate::JumpRel,
        ap_update: ApUpdate::Regular,
        fp_update: FpUpdate::Regular,
        opcode: Opcode::NOp,
    };

    let operands = Operands {
        dst: MaybeRelocatable::Int(bigint(11)),
        res: Some(MaybeRelocatable::from((1, 4))),
        op0: MaybeRelocatable::Int(bigint(9)),
        op1: MaybeRelocatable::Int(bigint(10)),
    };

    let mut vm = vm();

    assert_eq!(
        Err(VirtualMachineError::PureValue),
        vm.update_pc(&instruction, &operands)
    );
}

#[test]
fn update_pc_jnz_dst_is_zero() {
    let instruction = Instruction {
        off0: bigint(1),
        off1: bigint(2),
        off2: bigint(3),
        imm: None,
        dst_register: Register::FP,
        op0_register: Register::AP,
        op1_addr: Op1Addr::AP,
        res: Res::Add,
        pc_update: PcUpdate::Jnz,
        ap_update: ApUpdate::Regular,
        fp_update: FpUpdate::Regular,
        opcode: Opcode::NOp,
    };

    let operands = Operands {
        dst: MaybeRelocatable::Int(bigint(0)),
        res: Some(MaybeRelocatable::Int(bigint(0))),
        op0: MaybeRelocatable::Int(bigint(9)),
        op1: MaybeRelocatable::Int(bigint(10)),
    };

    let mut vm = vm();

    assert_eq!(Ok(()), vm.update_pc(&instruction, &operands));
    assert_eq!(vm.run_context.pc, MaybeRelocatable::from((0, 1)));
}

#[test]
fn update_pc_jnz_dst_is_not_zero() {
    let instruction = Instruction {
        off0: bigint(1),
        off1: bigint(2),
        off2: bigint(3),
        imm: None,
        dst_register: Register::FP,
        op0_register: Register::AP,
        op1_addr: Op1Addr::AP,
        res: Res::Add,
        pc_update: PcUpdate::Jnz,
        ap_update: ApUpdate::Regular,
        fp_update: FpUpdate::Regular,
        opcode: Opcode::NOp,
    };

    let operands = Operands {
        dst: MaybeRelocatable::Int(bigint(11)),
        res: Some(MaybeRelocatable::Int(bigint(8))),
        op0: MaybeRelocatable::Int(bigint(9)),
        op1: MaybeRelocatable::Int(bigint(10)),
    };

    let mut vm = vm();

    assert_eq!(Ok(()), vm.update_pc(&instruction, &operands));
    assert_eq!(vm.run_context.pc, MaybeRelocatable::from((0, 10)));
}

#[test]
fn update_registers_all_regular() {
    let instruction = Instruction {
        off0: bigint(1),
        off1: bigint(2),
        off2: bigint(3),
        imm: None,
        dst_register: Register::FP,
        op0_register: Register::AP,
        op1_addr: Op1Addr::AP,
        res: Res::Add,
        pc_update: PcUpdate::Regular,
        ap_update: ApUpdate::Regular,
        fp_update: FpUpdate::Regular,
        opcode: Opcode::NOp,
    };

    let operands = Operands {
        dst: MaybeRelocatable::Int(bigint(11)),
        res: Some(MaybeRelocatable::Int(bigint(8))),
        op0: MaybeRelocatable::Int(bigint(9)),
        op1: MaybeRelocatable::Int(bigint(10)),
    };

    let mut vm = vm();

    assert_eq!(Ok(()), vm.update_registers(instruction, operands));
    assert_eq!(vm.run_context.pc, MaybeRelocatable::from((0, 1)));
    assert_eq!(vm.run_context.ap, MaybeRelocatable::from((0, 0)));
    assert_eq!(vm.run_context.fp, MaybeRelocatable::from((0, 0)));
}

#[test]
fn update_registers_mixed_types() {
    let instruction = Instruction {
        off0: bigint(1),
        off1: bigint(2),
        off2: bigint(3),
        imm: None,
        dst_register: Register::FP,
        op0_register: Register::AP,
        op1_addr: Op1Addr::AP,
        res: Res::Add,
        pc_update: PcUpdate::JumpRel,
        ap_update: ApUpdate::Add2,
        fp_update: FpUpdate::Dst,
        opcode: Opcode::NOp,
    };

    let operands = Operands {
        dst: MaybeRelocatable::from((1, 11)),
        res: Some(MaybeRelocatable::Int(bigint(8))),
        op0: MaybeRelocatable::Int(bigint(9)),
        op1: MaybeRelocatable::Int(bigint(10)),
    };

    let mut vm = vm();
    set_registers(&mut vm, 4, 5, 6);

    assert_eq!(Ok(()), vm.update_registers(instruction, operands));
    assert_eq!(vm.run_context.pc, MaybeRelocatable::from((0, 12)));
    assert_eq!(vm.run_context.ap, MaybeRelocatable::from((1, 7)));
    assert_eq!(vm.run_context.fp, MaybeRelocatable::from((1, 11)));
}

#[test]
fn is_zero_int_value() {
    let value = MaybeRelocatable::Int(bigint(1));
    assert_eq!(Ok(false), VirtualMachine::is_zero(value));
}

#[test]
fn is_zero_relocatable_value() {
    let value = MaybeRelocatable::from((1, 2));
    assert_eq!(
        Err(VirtualMachineError::PureValue),
        VirtualMachine::is_zero(value)
    );
}

#[test]
fn is_zero_relocatable_value_negative() {
    let value = MaybeRelocatable::from((1, 1));
    assert_eq!(
        Err(VirtualMachineError::PureValue),
        VirtualMachine::is_zero(value)
    );
}

#[test]
fn deduce_op0_opcode_call() {
    let instruction = Instruction {
        off0: bigint(1),
        off1: bigint(2),
        off2: bigint(3),
        imm: None,
        dst_register: Register::FP,
        op0_register: Register::AP,
        op1_addr: Op1Addr::AP,
        res: Res::Add,
        pc_update: PcUpdate::Jump,
        ap_update: ApUpdate::Regular,
        fp_update: FpUpdate::Regular,
        opcode: Opcode::Call,
    };

    let vm = vm();

    assert_eq!(
        Ok((Some(MaybeRelocatable::from((0, 1))), None)),
        vm.deduce_op0(&instruction, None, None)
    );
}

#[test]
fn deduce_op0_opcode_assert_eq_res_add_with_optionals() {
    let instruction = Instruction {
        off0: bigint(1),
        off1: bigint(2),
        off2: bigint(3),
        imm: None,
        dst_register: Register::FP,
        op0_register: Register::AP,
        op1_addr: Op1Addr::AP,
        res: Res::Add,
        pc_update: PcUpdate::Jump,
        ap_update: ApUpdate::Regular,
        fp_update: FpUpdate::Regular,
        opcode: Opcode::AssertEq,
    };

    let vm = vm();

    let dst = MaybeRelocatable::Int(bigint(3));
    let op1 = MaybeRelocatable::Int(bigint(2));
    assert_eq!(
        Ok((
            Some(MaybeRelocatable::Int(bigint(1))),
            Some(MaybeRelocatable::Int(bigint(3)))
        )),
        vm.deduce_op0(&instruction, Some(&dst), Some(&op1))
    );
}

#[test]
fn deduce_op0_opcode_assert_eq_res_add_without_optionals() {
    let instruction = Instruction {
        off0: bigint(1),
        off1: bigint(2),
        off2: bigint(3),
        imm: None,
        dst_register: Register::FP,
        op0_register: Register::AP,
        op1_addr: Op1Addr::AP,
        res: Res::Add,
        pc_update: PcUpdate::Jump,
        ap_update: ApUpdate::Regular,
        fp_update: FpUpdate::Regular,
        opcode: Opcode::AssertEq,
    };

    let vm = vm();

    assert_eq!(Ok((None, None)), vm.deduce_op0(&instruction, None, None));
}

#[test]
fn deduce_op0_opcode_assert_eq_res_mul_non_zero_op1() {
    let instruction = Instruction {
        off0: bigint(1),
        off1: bigint(2),
        off2: bigint(3),
        imm: None,
        dst_register: Register::FP,
        op0_register: Register::AP,
        op1_addr: Op1Addr::AP,
        res: Res::Mul,
        pc_update: PcUpdate::Jump,
        ap_update: ApUpdate::Regular,
        fp_update: FpUpdate::Regular,
        opcode: Opcode::AssertEq,
    };

    let vm = vm();

    let dst = MaybeRelocatable::Int(bigint(4));
    let op1 = MaybeRelocatable::Int(bigint(2));
    assert_eq!(
        Ok((
            Some(MaybeRelocatable::Int(bigint(2))),
            Some(MaybeRelocatable::Int(bigint(4)))
        )),
        vm.deduce_op0(&instruction, Some(&dst), Some(&op1))
    );
}

#[test]
fn deduce_op0_opcode_assert_eq_res_mul_zero_op1() {
    let instruction = Instruction {
        off0: bigint(1),
        off1: bigint(2),
        off2: bigint(3),
        imm: None,
        dst_register: Register::FP,
        op0_register: Register::AP,
        op1_addr: Op1Addr::AP,
        res: Res::Mul,
        pc_update: PcUpdate::Jump,
        ap_update: ApUpdate::Regular,
        fp_update: FpUpdate::Regular,
        opcode: Opcode::AssertEq,
    };

    let vm = vm();

    let dst = MaybeRelocatable::Int(bigint(4));
    let op1 = MaybeRelocatable::Int(bigint(0));
    assert_eq!(
        Ok((None, None)),
        vm.deduce_op0(&instruction, Some(&dst), Some(&op1))
    );
}

#[test]
fn deduce_op0_opcode_assert_eq_res_op1() {
    let instruction = Instruction {
        off0: bigint(1),
        off1: bigint(2),
        off2: bigint(3),
        imm: None,
        dst_register: Register::FP,
        op0_register: Register::AP,
        op1_addr: Op1Addr::AP,
        res: Res::Op1,
        pc_update: PcUpdate::Jump,
        ap_update: ApUpdate::Regular,
        fp_update: FpUpdate::Regular,
        opcode: Opcode::AssertEq,
    };

    let vm = vm();

    let dst = MaybeRelocatable::Int(bigint(4));
    let op1 = MaybeRelocatable::Int(bigint(0));
    assert_eq!(
        Ok((None, None)),
        vm.deduce_op0(&instruction, Some(&dst), Some(&op1))
    );
}

#[test]
fn deduce_op0_opcode_ret() {
    let instruction = Instruction {
        off0: bigint(1),
        off1: bigint(2),
        off2: bigint(3),
        imm: None,
        dst_register: Register::FP,
        op0_register: Register::AP,
        op1_addr: Op1Addr::AP,
        res: Res::Mul,
        pc_update: PcUpdate::Jump,
        ap_update: ApUpdate::Regular,
        fp_update: FpUpdate::Regular,
        opcode: Opcode::Ret,
    };

    let vm = vm();

    let dst = MaybeRelocatable::Int(bigint(4));
    let op1 = MaybeRelocatable::Int(bigint(0));
    assert_eq!(
        Ok((None, None)),
        vm.deduce_op0(&instruction, Some(&dst), Some(&op1))
    );
}

#[test]
fn deduce_op1_opcode_call() {
    let instruction = Instruction {
        off0: bigint(1),
        off1: bigint(2),
        off2: bigint(3),
        imm: None,
        dst_register: Register::FP,
        op0_register: Register::AP,
        op1_addr: Op1Addr::AP,
        res: Res::Add,
        pc_update: PcUpdate::Jump,
        ap_update: ApUpdate::Regular,
        fp_update: FpUpdate::Regular,
        opcode: Opcode::Call,
    };

    let vm = vm();

    assert_eq!(Ok((None, None)), vm.deduce_op1(&instruction, None, None));
}

#[test]
fn deduce_op1_opcode_assert_eq_res_add_with_optionals() {
    let instruction = Instruction {
        off0: bigint(1),
        off1: bigint(2),
        off2: bigint(3),
        imm: None,
        dst_register: Register::FP,
        op0_register: Register::AP,
        op1_addr: Op1Addr::AP,
        res: Res::Add,
        pc_update: PcUpdate::Jump,
        ap_update: ApUpdate::Regular,
        fp_update: FpUpdate::Regular,
        opcode: Opcode::AssertEq,
    };

    let vm = vm();

    let dst = MaybeRelocatable::Int(bigint(3));
    let op0 = MaybeRelocatable::Int(bigint(2));
    assert_eq!(
        Ok((
            Some(MaybeRelocatable::Int(bigint(1))),
            Some(MaybeRelocatable::Int(bigint(3)))
        )),
        vm.deduce_op1(&instruction, Some(&dst), Some(op0))
    );
}

#[test]
fn deduce_op1_opcode_assert_eq_res_add_without_optionals() {
    let instruction = Instruction {
        off0: bigint(1),
        off1: bigint(2),
        off2: bigint(3),
        imm: None,
        dst_register: Register::FP,
        op0_register: Register::AP,
        op1_addr: Op1Addr::AP,
        res: Res::Add,
        pc_update: PcUpdate::Jump,
        ap_update: ApUpdate::Regular,
        fp_update: FpUpdate::Regular,
        opcode: Opcode::AssertEq,
    };

    let vm = vm();

    assert_eq!(Ok((None, None)), vm.deduce_op1(&instruction, None, None));
}

#[test]
fn deduce_op1_opcode_assert_eq_res_mul_non_zero_op0() {
    let instruction = Instruction {
        off0: bigint(1),
        off1: bigint(2),
        off2: bigint(3),
        imm: None,
        dst_register: Register::FP,
        op0_register: Register::AP,
        op1_addr: Op1Addr::AP,
        res: Res::Mul,
        pc_update: PcUpdate::Jump,
        ap_update: ApUpdate::Regular,
        fp_update: FpUpdate::Regular,
        opcode: Opcode::AssertEq,
    };

    let vm = vm();

    let dst = MaybeRelocatable::Int(bigint(4));
    let op0 = MaybeRelocatable::Int(bigint(2));
    assert_eq!(
        Ok((
            Some(MaybeRelocatable::Int(bigint(2))),
            Some(MaybeRelocatable::Int(bigint(4)))
        )),
        vm.deduce_op1(&instruction, Some(&dst), Some(op0))
    );
}

#[test]
fn deduce_op1_opcode_assert_eq_res_mul_zero_op0() {
    let instruction = Instruction {
        off0: bigint(1),
        off1: bigint(2),
        off2: bigint(3),
        imm: None,
        dst_register: Register::FP,
        op0_register: Register::AP,
        op1_addr: Op1Addr::AP,
        res: Res::Mul,
        pc_update: PcUpdate::Jump,
        ap_update: ApUpdate::Regular,
        fp_update: FpUpdate::Regular,
        opcode: Opcode::AssertEq,
    };

    let vm = vm();

    let dst = MaybeRelocatable::Int(bigint(4));
    let op0 = MaybeRelocatable::Int(bigint(0));
    assert_eq!(
        Ok((None, None)),
        vm.deduce_op1(&instruction, Some(&dst), Some(op0))
    );
}

#[test]
fn deduce_op1_opcode_assert_eq_res_op1_without_dst() {
    let instruction = Instruction {
        off0: bigint(1),
        off1: bigint(2),
        off2: bigint(3),
        imm: None,
        dst_register: Register::FP,
        op0_register: Register::AP,
        op1_addr: Op1Addr::AP,
        res: Res::Op1,
        pc_update: PcUpdate::Jump,
        ap_update: ApUpdate::Regular,
        fp_update: FpUpdate::Regular,
        opcode: Opcode::AssertEq,
    };

    let vm = vm();

    let op0 = MaybeRelocatable::Int(bigint(0));
    assert_eq!(
        Ok((None, None)),
        vm.deduce_op1(&instruction, None, Some(op0))
    );
}

#[test]
fn deduce_op1_opcode_assert_eq_res_op1_with_dst() {
    let instruction = Instruction {
        off0: bigint(1),
        off1: bigint(2),
        off2: bigint(3),
        imm: None,
        dst_register: Register::FP,
        op0_register: Register::AP,
        op1_addr: Op1Addr::AP,
        res: Res::Op1,
        pc_update: PcUpdate::Jump,
        ap_update: ApUpdate::Regular,
        fp_update: FpUpdate::Regular,
        opcode: Opcode::AssertEq,
    };

    let vm = vm();

    let dst = MaybeRelocatable::Int(bigint(7));
    assert_eq!(
        Ok((
            Some(MaybeRelocatable::Int(bigint(7))),
            Some(MaybeRelocatable::Int(bigint(7)))
        )),
        vm.deduce_op1(&instruction, Some(&dst), None)
    );
}

#[test]
fn compute_res_op1() {
    let instruction = Instruction {
        off0: bigint(1),
        off1: bigint(2),
        off2: bigint(3),
        imm: None,
        dst_register: Register::FP,
        op0_register: Register::AP,
        op1_addr: Op1Addr::AP,
        res: Res::Op1,
        pc_update: PcUpdate::Jump,
        ap_update: ApUpdate::Regular,
        fp_update: FpUpdate::Regular,
        opcode: Opcode::AssertEq,
    };

    let vm = vm();

    let op1 = MaybeRelocatable::Int(bigint(7));
    let op0 = MaybeRelocatable::Int(bigint(9));
    assert_eq!(
        Ok(Some(MaybeRelocatable::Int(bigint(7)))),
        vm.compute_res(&instruction, &op0, &op1)
    );
}

#[test]
fn compute_res_add() {
    let instruction = Instruction {
        off0: bigint(1),
        off1: bigint(2),
        off2: bigint(3),
        imm: None,
        dst_register: Register::FP,
        op0_register: Register::AP,
        op1_addr: Op1Addr::AP,
        res: Res::Add,
        pc_update: PcUpdate::Jump,
        ap_update: ApUpdate::Regular,
        fp_update: FpUpdate::Regular,
        opcode: Opcode::AssertEq,
    };

    let vm = vm();

    let op1 = MaybeRelocatable::Int(bigint(7));
    let op0 = MaybeRelocatable::Int(bigint(9));
    assert_eq!(
        Ok(Some(MaybeRelocatable::Int(bigint(16)))),
        vm.compute_res(&instruction, &op0, &op1)
    );
}

#[test]
fn compute_res_mul_int_operands() {
    let instruction = Instruction {
        off0: bigint(1),
        off1: bigint(2),
        off2: bigint(3),
        imm: None,
        dst_register: Register::FP,
        op0_register: Register::AP,
        op1_addr: Op1Addr::AP,
        res: Res::Mul,
        pc_update: PcUpdate::Jump,
        ap_update: ApUpdate::Regular,
        fp_update: FpUpdate::Regular,
        opcode: Opcode::AssertEq,
    };

    let vm = vm();

    let op1 = MaybeRelocatable::Int(bigint(7));
    let op0 = MaybeRelocatable::Int(bigint(9));
    assert_eq!(
        Ok(Some(MaybeRelocatable::Int(bigint(63)))),
        vm.compute_res(&instruction, &op0, &op1)
    );
}

#[test]
fn compute_res_mul_relocatable_values() {
    let instruction = Instruction {
        off0: bigint(1),
        off1: bigint(2),
        off2: bigint(3),
        imm: None,
        dst_register: Register::FP,
        op0_register: Register::AP,
        op1_addr: Op1Addr::AP,
        res: Res::Mul,
        pc_update: PcUpdate::Jump,
        ap_update: ApUpdate::Regular,
        fp_update: FpUpdate::Regular,
        opcode: Opcode::AssertEq,
    };

    let vm = vm();

    let op1 = MaybeRelocatable::from((2, 3));
    let op0 = MaybeRelocatable::from((2, 6));
    assert_eq!(
        Err(VirtualMachineError::PureValue),
        vm.compute_res(&instruction, &op0, &op1)
    );
}

#[test]
fn compute_res_unconstrained() {
    let instruction = Instruction {
        off0: bigint(1),
        off1: bigint(2),
        off2: bigint(3),
        imm: None,
        dst_register: Register::FP,
        op0_register: Register::AP,
        op1_addr: Op1Addr::AP,
        res: Res::Unconstrained,
        pc_update: PcUpdate::Jump,
        ap_update: ApUpdate::Regular,
        fp_update: FpUpdate::Regular,
        opcode: Opcode::AssertEq,
    };

    let vm = vm();

    let op1 = MaybeRelocatable::Int(bigint(7));
    let op0 = MaybeRelocatable::Int(bigint(9));
    assert_eq!(Ok(None), vm.compute_res(&instruction, &op0, &op1));
}

#[test]
fn deduce_dst_opcode_assert_eq_with_res() {
    let instruction = Instruction {
        off0: bigint(1),
        off1: bigint(2),
        off2: bigint(3),
        imm: None,
        dst_register: Register::FP,
        op0_register: Register::AP,
        op1_addr: Op1Addr::AP,
        res: Res::Unconstrained,
        pc_update: PcUpdate::Jump,
        ap_update: ApUpdate::Regular,
        fp_update: FpUpdate::Regular,
        opcode: Opcode::AssertEq,
    };

    let vm = vm();

    let res = MaybeRelocatable::Int(bigint(7));
    assert_eq!(
        Some(MaybeRelocatable::Int(bigint(7))),
        vm.deduce_dst(&instruction, Some(&res))
    );
}

#[test]
fn deduce_dst_opcode_assert_eq_without_res() {
    let instruction = Instruction {
        off0: bigint(1),
        off1: bigint(2),
        off2: bigint(3),
        imm: None,
        dst_register: Register::FP,
        op0_register: Register::AP,
        op1_addr: Op1Addr::AP,
        res: Res::Unconstrained,
        pc_update: PcUpdate::Jump,
        ap_update: ApUpdate::Regular,
        fp_update: FpUpdate::Regular,
        opcode: Opcode::AssertEq,
    };

    let vm = vm();

    assert_eq!(None, vm.deduce_dst(&instruction, None));
}

#[test]
fn deduce_dst_opcode_call() {
    let instruction = Instruction {
        off0: bigint(1),
        off1: bigint(2),
        off2: bigint(3),
        imm: None,
        dst_register: Register::FP,
        op0_register: Register::AP,
        op1_addr: Op1Addr::AP,
        res: Res::Unconstrained,
        pc_update: PcUpdate::Jump,
        ap_update: ApUpdate::Regular,
        fp_update: FpUpdate::Regular,
        opcode: Opcode::Call,
    };

    let vm = vm();

    assert_eq!(
        Some(MaybeRelocatable::from((0, 0))),
        vm.deduce_dst(&instruction, None)
    );
}

#[test]
fn deduce_dst_opcode_ret() {
    let instruction = Instruction {
        off0: bigint(1),
        off1: bigint(2),
        off2: bigint(3),
        imm: None,
        dst_register: Register::FP,
        op0_register: Register::AP,
        op1_addr: Op1Addr::AP,
        res: Res::Unconstrained,
        pc_update: PcUpdate::Jump,
        ap_update: ApUpdate::Regular,
        fp_update: FpUpdate::Regular,
        opcode: Opcode::Ret,
    };

    let vm = vm();

    assert_eq!(None, vm.deduce_dst(&instruction, None));
}

#[test]
fn compute_operands_add_ap() {
    let inst = Instruction {
        off0: bigint(0),
        off1: bigint(1),
        off2: bigint(2),
        imm: None,
        dst_register: Register::AP,
        op0_register: Register::AP,
        op1_addr: Op1Addr::AP,
        res: Res::Add,
        pc_update: PcUpdate::Regular,
        ap_update: ApUpdate::Regular,
        fp_update: FpUpdate::Regular,
        opcode: Opcode::NOp,
    };

    let mut vm = vm();
    vm.accessed_addresses = Some(Vec::new());
    vm.memory = memory(&[((0, 0), felt(5)), ((0, 1), felt(2)), ((0, 2), felt(3))]);

    let expected_operands = Operands {
        dst: MaybeRelocatable::Int(bigint(5)),
        res: Some(MaybeRelocatable::Int(bigint(5))),
        op0: MaybeRelocatable::Int(bigint(2)),
        op1: MaybeRelocatable::Int(bigint(3)),
    };

    let expected_addresses = Some(OperandsAddresses(
        MaybeRelocatable::from((0, 0)),
        MaybeRelocatable::from((0, 1)),
        MaybeRelocatable::from((0, 2)),
    ));

    let (operands, addresses) = vm.compute_operands(&inst).unwrap();
    assert!(operands == expected_operands);
    assert!(addresses == expected_addresses);
}

#[test]
fn compute_operands_mul_fp() {
    let inst = Instruction {
        off0: bigint(0),
        off1: bigint(1),
        off2: bigint(2),
        imm: None,
        dst_register: Register::FP,
        op0_register: Register::FP,
        op1_addr: Op1Addr::FP,
        res: Res::Mul,
        pc_update: PcUpdate::Regular,
        ap_update: ApUpdate::Regular,
        fp_update: FpUpdate::Regular,
        opcode: Opcode::NOp,
    };
    let mut vm = vm();
    vm.accessed_addresses = Some(Vec::new());

    vm.memory = memory(&[((0, 0), felt(6)), ((0, 1), felt(2)), ((0, 2), felt(3))]);

    let expected_operands = Operands {
        dst: MaybeRelocatable::Int(bigint(6)),
        res: Some(MaybeRelocatable::Int(bigint(6))),
        op0: MaybeRelocatable::Int(bigint(2)),
        op1: MaybeRelocatable::Int(bigint(3)),
    };

    let expected_addresses = Some(OperandsAddresses(
        MaybeRelocatable::from((0, 0)),
        MaybeRelocatable::from((0, 1)),
        MaybeRelocatable::from((0, 2)),
    ));

    let (operands, addresses) = vm.compute_operands(&inst).unwrap();
    assert!(operands == expected_operands);
    assert!(addresses == expected_addresses);
}

#[test]
fn compute_jnz() {
    let instruction = Instruction {
        off0: bigint(1),
        off1: bigint(1),
        off2: bigint(1),
        imm: Some(bigint(4)),
        dst_register: Register::AP,
        op0_register: Register::AP,
        op1_addr: Op1Addr::Imm,
        res: Res::Unconstrained,
        pc_update: PcUpdate::Jnz,
        ap_update: ApUpdate::Regular,
        fp_update: FpUpdate::Regular,
        opcode: Opcode::NOp,
    };

    let mut vm = vm();
    vm.accessed_addresses = Some(Vec::new());
    vm.memory = memory(&[((0, 0), felt(0x206800180018001)), ((0, 1), felt(0x4))]);

    let expected_operands = Operands {
        dst: MaybeRelocatable::Int(bigint(0x4)),
        res: None,
        op0: MaybeRelocatable::Int(bigint(0x4)),
        op1: MaybeRelocatable::Int(bigint(0x4)),
    };

    let expected_addresses = Some(OperandsAddresses(
        MaybeRelocatable::from((0, 1)),
        MaybeRelocatable::from((0, 1)),
        MaybeRelocatable::from((0, 1)),
    ));

    let (operands, addresses) = vm.compute_operands(&instruction).unwrap();
    assert!(operands == expected_operands);
    assert!(addresses == expected_addresses);
    let hint_processor = AllocHints;
    assert_eq!(
        vm.step(&hint_processor, &mut (), &HashMap::new()),
        Ok(())
    );
    assert_eq!(vm.run_context.pc, MaybeRelocatable::from((0, 4)));
}

#[test]
fn compute_operands_deduce_dst_none() {
    let instruction = Instruction {
        off0: bigint(2),
        off1: bigint(0),
        off2: bigint(0),
        imm: None,
        dst_register: Register::FP,
        op0_register: Register::AP,
        op1_addr: Op1Addr::AP,
        res: Res::Unconstrained,
        pc_update: PcUpdate::Regular,
        ap_update: ApUpdate::Regular,
        fp_update: FpUpdate::Regular,
        opcode: Opcode::NOp,
    };

    let mut vm = vm();
    vm.memory = memory(&[((0, 0), felt(0x206800180018001))]);

    let error = vm.compute_operands(&instruction);
    assert_eq!(error, Err(VirtualMachineError::NoDst));
}

#[test]
fn opcode_assertions_res_unconstrained() {
    let instruction = Instruction {
        off0: bigint(1),
        off1: bigint(2),
        off2: bigint(3),
        imm: None,
        dst_register: Register::FP,
        op0_register: Register::AP,
        op1_addr: Op1Addr::AP,
        res: Res::Add,
        pc_update: PcUpdate::Regular,
        ap_update: ApUpdate::Regular,
        fp_update: FpUpdate::APPlus2,
        opcode: Opcode::AssertEq,
    };

    let operands = Operands {
        dst: MaybeRelocatable::Int(bigint(8)),
        res: None,
        op0: MaybeRelocatable::Int(bigint(9)),
        op1: MaybeRelocatable::Int(bigint(10)),
    };

    let vm = vm();

    let error = vm.opcode_assertions(&instruction, &operands);
    assert_eq!(error, Err(VirtualMachineError::UnconstrainedResAssertEq));
}

#[test]
fn opcode_assertions_instruction_failed() {
    let instruction = Instruction {
        off0: bigint(1),
        off1: bigint(2),
        off2: bigint(3),
        imm: None,
        dst_register: Register::FP,
        op0_register: Register::AP,
        op1_addr: Op1Addr::AP,
        res: Res::Add,
        pc_update: PcUpdate::Regular,
        ap_update: ApUpdate::Regular,
        fp_update: FpUpdate::APPlus2,
        opcode: Opcode::AssertEq,
    };

    let operands = Operands {
        dst: MaybeRelocatable::Int(bigint(9)),
        res: Some(MaybeRelocatable::Int(bigint(8))),
        op0: MaybeRelocatable::Int(bigint(9)),
        op1: MaybeRelocatable::Int(bigint(10)),
    };

    let vm = vm();

    assert_eq!(
        vm.opcode_assertions(&instruction, &operands),
        Err(VirtualMachineError::DiffAssertValues(
            bigint(8),
            bigint(9)
        ))
    );
}

#[test]
fn opcode_assertions_inconsistent_op0() {
    let instruction = Instruction {
        off0: bigint(1),
        off1: bigint(2),
        off2: bigint(3),
        imm: None,
        dst_register: Register::FP,
        op0_register: Register::AP,
        op1_addr: Op1Addr::AP,
        res: Res::Add,
        pc_update: PcUpdate::Regular,
        ap_update: ApUpdate::Regular,
        fp_update: FpUpdate::APPlus2,
        opcode: Opcode::Call,
    };

    let operands = Operands {
        dst: MaybeRelocatable::Int(bigint(8)),
        res: Some(MaybeRelocatable::Int(bigint(8))),
        op0: MaybeRelocatable::Int(bigint(9)),
        op1: MaybeRelocatable::Int(bigint(10)),
    };

    let mut vm = vm();
    vm.run_context.pc = MaybeRelocatable::Int(bigint(4));

    assert_eq!(
        vm.opcode_assertions(&instruction, &operands),
        Err(VirtualMachineError::CantWriteReturnPc(
            bigint(9),
            bigint(5)
        ))
    );
}

#[test]
fn opcode_assertions_inconsistent_dst() {
    let instruction = Instruction {
        off0: bigint(1),
        off1: bigint(2),
        off2: bigint(3),
        imm: None,
        dst_register: Register::FP,
        op0_register: Register::AP,
        op1_addr: Op1Addr::AP,
        res: Res::Add,
        pc_update: PcUpdate::Regular,
        ap_update: ApUpdate::Regular,
        fp_update: FpUpdate::APPlus2,
        opcode: Opcode::Call,
    };

    let operands = Operands {
        dst: MaybeRelocatable::Int(bigint(8)),
        res: Some(MaybeRelocatable::Int(bigint(8))),
        op0: MaybeRelocatable::Int(bigint(9)),
        op1: MaybeRelocatable::Int(bigint(10)),
    };
    let mut vm = vm();
    vm.run_context.fp = MaybeRelocatable::Int(bigint(6));

    assert_eq!(
        vm.opcode_assertions(&instruction, &operands),
        Err(VirtualMachineError::CantWriteReturnFp(
            bigint(8),
            bigint(6)
        ))
    );
}

/// func main():
///     let a = 1
///     let b = 2
///     let c = a + b
///     return()
/// end
#[test]
fn test_step_for_preset_memory() {
    let mut vm = traced_vm();
    vm.accessed_addresses = Some(Vec::new());

    let hint_processor = AllocHints;

    set_registers(&mut vm, 0, 2, 2);

    vm.memory = memory(&[
        ((0, 0), felt(2345108766317314046)),
        ((1, 0), addr(2, 0)),
        ((1, 1), addr(3, 0)),
    ]);

    assert_eq!(
        vm.step(&hint_processor, &mut (), &HashMap::new()),
        Ok(())
    );
    let trace = vm.trace.unwrap();
    check_trace(&trace, &[((0, 0), (1, 2), (1, 2))]);

    assert_eq!(vm.run_context.pc, MaybeRelocatable::from((3, 0)));
    assert_eq!(vm.run_context.ap, MaybeRelocatable::from((1, 2)));
    assert_eq!(vm.run_context.fp, MaybeRelocatable::from((2, 0)));

    let accessed_addresses = vm.accessed_addresses.as_ref().unwrap();
    assert!(accessed_addresses.contains(&MaybeRelocatable::from((1, 0))));
    assert!(accessed_addresses.contains(&MaybeRelocatable::from((1, 1))));
    assert!(accessed_addresses.contains(&MaybeRelocatable::from((0, 0))));
}

/// func myfunc(a: felt) -> (r: felt):
///     let b = a * 2
///     return(b)
/// end
/// func main():
///     let a = 1
///     let b = myfunc(a)
///     return()
/// end
#[test]
fn test_step_for_preset_memory_function_call() {
    let mut vm = traced_vm();
    vm.accessed_addresses = Some(Vec::new());

    set_registers(&mut vm, 3, 2, 2);
    vm.memory = memory(&[
        ((0, 0), felt(5207990763031199744)),
        ((0, 1), felt(2)),
        ((0, 2), felt(2345108766317314046)),
        ((0, 3), felt(5189976364521848832)),
        ((0, 4), felt(1)),
        ((0, 5), felt(1226245742482522112)),
        ((0, 6), dec("3618502788666131213697322783095070105623107215331596699973092056135872020476")),
        ((0, 7), felt(2345108766317314046)),
        ((1, 0), addr(2, 0)),
        ((1, 1), addr(3, 0)),
    ]);

    let final_pc = MaybeRelocatable::from((3, 0));
    let hint_processor = AllocHints;
    while vm.run_context.pc != final_pc {
        assert_eq!(
            vm.step(&hint_processor, &mut (), &HashMap::new()),
            Ok(())
        );
    }
    assert_eq!(vm.run_context.pc, MaybeRelocatable::from((3, 0)));

    assert_eq!(vm.run_context.ap, MaybeRelocatable::from((1, 6)));

    assert_eq!(vm.run_context.fp, MaybeRelocatable::from((2, 0)));
    let trace = vm.trace.unwrap();
    assert_eq!(trace.len(), 5);
    check_trace(&trace, &[
            ((0, 3), (1, 2), (1, 2)),
            ((0, 5), (1, 3), (1, 2)),
            ((0, 0), (1, 5), (1, 5)),
            ((0, 2), (1, 6), (1, 5)),
            ((0, 7), (1, 6), (1, 2))
    ]);
    let accessed_addresses = vm
        .accessed_addresses
        .unwrap()
        .into_iter()
        .collect::<HashSet<MaybeRelocatable>>();
    assert_eq!(accessed_addresses.len(), 14);
    assert!(accessed_addresses.contains(&MaybeRelocatable::from((0, 1))));
    assert!(accessed_addresses.contains(&MaybeRelocatable::from((0, 7))));
    assert!(accessed_addresses.contains(&MaybeRelocatable::from((1, 2))));
    assert!(accessed_addresses.contains(&MaybeRelocatable::from((0, 4))));
    assert!(accessed_addresses.contains(&MaybeRelocatable::from((0, 0))));
    assert!(accessed_addresses.contains(&MaybeRelocatable::from((1, 5))));
    assert!(accessed_addresses.contains(&MaybeRelocatable::from((1, 1))));
    assert!(accessed_addresses.contains(&MaybeRelocatable::from((0, 3))));
    assert!(accessed_addresses.contains(&MaybeRelocatable::from((1, 4))));
    assert!(accessed_addresses.contains(&MaybeRelocatable::from((0, 6))));
    assert!(accessed_addresses.contains(&MaybeRelocatable::from((0, 2))));
    assert!(accessed_addresses.contains(&MaybeRelocatable::from((0, 5))));
    assert!(accessed_addresses.contains(&MaybeRelocatable::from((1, 0))));
    assert!(accessed_addresses.contains(&MaybeRelocatable::from((1, 3))));
}

/// [ap] = 4
/// ap += 1
/// [ap] = 5; ap++
/// [ap] = [ap - 1] * [ap - 2]
#[test]
fn multiplication_and_different_ap_increase() {
    let mut vm = vm();
    vm.memory = memory(&[
        ((0, 0), felt(0x400680017fff8000)),
        ((0, 1), felt(0x4)),
        ((0, 2), felt(0x40780017fff7fff)),
        ((0, 3), felt(0x1)),
        ((0, 4), felt(0x480680017fff8000)),
        ((0, 5), felt(0x5)),
        ((0, 6), felt(0x40507ffe7fff8000)),
        ((0, 7), felt(0x208b7fff7fff7ffe)),
        ((1, 0), addr(2, 0)),
        ((1, 1), addr(3, 0)),
        ((1, 2), felt(0x4)),
        ((1, 3), felt(0x5)),
        ((1, 4), felt(0x14)),
    ]);

    set_registers(&mut vm, 0, 2, 2);

    assert_eq!(vm.run_context.pc, MaybeRelocatable::from((0, 0)));
    assert_eq!(vm.run_context.ap, MaybeRelocatable::from((1, 2)));
    let hint_processor = AllocHints;
    assert_eq!(
        vm.step(&hint_processor, &mut (), &HashMap::new()),
        Ok(())
    );
    assert_eq!(vm.run_context.pc, MaybeRelocatable::from((0, 2)));
    assert_eq!(vm.run_context.ap, MaybeRelocatable::from((1, 2)));

    assert_eq!(
        vm.memory.get(&vm.run_context.ap),
        Ok(Some(&MaybeRelocatable::Int(bigint(0x4)))),
    );
    let hint_processor = AllocHints;
    assert_eq!(
        vm.step(&hint_processor, &mut (), &HashMap::new()),
        Ok(())
    );
    assert_eq!(vm.run_context.pc, MaybeRelocatable::from((0, 4)));
    assert_eq!(vm.run_context.ap, MaybeRelocatable::from((1, 3)));

    assert_eq!(
        vm.memory.get(&vm.run_context.ap),
        Ok(Some(&MaybeRelocatable::Int(bigint(0x5))))
    );

    let hint_processor = AllocHints;
    assert_eq!(
        vm.step(&hint_processor, &mut (), &HashMap::new()),
        Ok(())
    );
    assert_eq!(vm.run_context.pc, MaybeRelocatable::from((0, 6)));
    assert_eq!(vm.run_context.ap, MaybeRelocatable::from((1, 4)));

    assert_eq!(
        vm.memory.get(&vm.run_context.ap),
        Ok(Some(&MaybeRelocatable::Int(bigint(0x14)))),
    );
}

#[test]
fn deduce_memory_cell_no_pedersen_builtin() {
    let mut vm = vm();
    assert_eq!(
        vm.deduce_memory_cell(&MaybeRelocatable::from((0, 0))),
        Ok(None)
    );
}

#[test]
fn deduce_memory_cell_pedersen_builtin_valid() {
    let mut vm = vm();
    let mut builtin = HashBuiltinRunner::new(true, 8);
    builtin.base = Some(Relocatable { segment_index: 0, offset: 0 });
    vm.builtin_runners
        .push((String::from("pedersen"), Box::new(builtin)));
    vm.memory = memory(&[((0, 3), felt(32)), ((0, 4), felt(72)), ((0, 5), felt(0))]);
    assert_eq!(
        vm.deduce_memory_cell(&MaybeRelocatable::from((0, 5))),
        Ok(Some(MaybeRelocatable::from(bigint_str("3270867057177188607814717243084834301278723532952411121381966378910183338911"))))
    );
}

#[test]
fn compute_operands_pedersen() {
    let instruction = Instruction {
        off0: bigint(0),
        off1: bigint(-5),
        off2: bigint(2),
        imm: None,
        dst_register: Register::AP,
        op0_register: Register::FP,
        op1_addr: Op1Addr::Op0,
        res: Res::Op1,
        pc_update: PcUpdate::Regular,
        ap_update: ApUpdate::Add1,
        fp_update: FpUpdate::Regular,
        opcode: Opcode::AssertEq,
    };
    let mut builtin = HashBuiltinRunner::new(true, 8);
    builtin.base = Some(Relocatable { segment_index: 3, offset: 0 });
    let mut vm = vm();
    vm.accessed_addresses = Some(Vec::new());
    vm.builtin_runners
        .push((String::from("pedersen"), Box::new(builtin)));
    set_registers(&mut vm, 0, 13, 12);
    vm.memory = memory(&[
        ((3, 0), felt(32)),
        ((3, 1), felt(72)),
        ((1, 0), addr(2, 0)),
        ((1, 1), addr(3, 0)),
        ((1, 2), addr(4, 0)),
        ((1, 3), addr(5, 0)),
        ((1, 4), addr(3, 0)),
        ((1, 5), addr(1, 4)),
        ((1, 6), addr(0, 21)),
        ((1, 7), addr(3, 0)),
        ((1, 8), felt(32)),
        ((1, 9), felt(72)),
        ((1, 10), addr(1, 7)),
        ((1, 11), addr(0, 17)),
        ((1, 12), addr(3, 3)),
    ]);

    let expected_operands = Operands {
        dst: MaybeRelocatable::from(bigint_str("3270867057177188607814717243084834301278723532952411121381966378910183338911")),
        res: Some(MaybeRelocatable::from(bigint_str("3270867057177188607814717243084834301278723532952411121381966378910183338911"))),
        op0: MaybeRelocatable::from((3, 0)),
        op1: MaybeRelocatable::from(bigint_str("3270867057177188607814717243084834301278723532952411121381966378910183338911")),
    };
    let expected_operands_mem_addresses = Some(OperandsAddresses(
        MaybeRelocatable::from((1, 13)),
        MaybeRelocatable::from((1, 7)),
        MaybeRelocatable::from((3, 2)),
    ));
    assert_eq!(
        Ok((expected_operands, expected_operands_mem_addresses)),
        vm.compute_operands(&instruction)
    );
}

#[test]
fn deduce_memory_cell_bitwise_builtin_valid_and() {
    let mut vm = VirtualMachine::new(bigint(17), Vec::new(), false);
    let mut builtin = BitwiseBuiltinRunner::new(true, 8);
    builtin.base = Some(Relocatable { segment_index: 0, offset: 0 });
    vm.builtin_runners
        .push((String::from("bitwise"), Box::new(builtin)));
    vm.memory = memory(&[((0, 5), felt(10)), ((0, 6), felt(12)), ((0, 7), felt(0))]);
    assert_eq!(
        vm.deduce_memory_cell(&MaybeRelocatable::from((0, 7))),
        Ok(Some(MaybeRelocatable::from(bigint(8))))
    );
}

#[test]
fn compute_operands_bitwise() {
    let instruction = Instruction {
        off0: bigint(0),
        off1: bigint(-5),
        off2: bigint(2),
        imm: None,
        dst_register: Register::AP,
        op0_register: Register::FP,
        op1_addr: Op1Addr::Op0,
        res: Res::Op1,
        pc_update: PcUpdate::Regular,
        ap_update: ApUpdate::Add1,
        fp_update: FpUpdate::Regular,
        opcode: Opcode::AssertEq,
    };
    let mut builtin = BitwiseBuiltinRunner::new(true, 256);
    builtin.base = Some(Relocatable { segment_index: 2, offset: 0 });
    let mut vm = vm();
    vm.accessed_addresses = Some(Vec::new());
    vm.builtin_runners
        .push((String::from("bitwise"), Box::new(builtin)));
    set_registers(&mut vm, 0, 9, 8);
    vm.memory = memory(&[
        ((2, 0), felt(12)),
        ((2, 1), felt(10)),
        ((1, 0), addr(2, 0)),
        ((1, 1), addr(3, 0)),
        ((1, 2), addr(4, 0)),
        ((1, 3), addr(2, 0)),
        ((1, 4), felt(12)),
        ((1, 5), felt(10)),
        ((1, 6), addr(1, 3)),
        ((1, 7), addr(0, 13)),
    ]);

    let expected_operands = Operands {
        dst: MaybeRelocatable::from(bigint(8)),
        res: Some(MaybeRelocatable::from(bigint(8))),
        op0: MaybeRelocatable::from((2, 0)),
        op1: MaybeRelocatable::from(bigint(8)),
    };
    let expected_operands_mem_addresses = Some(OperandsAddresses(
        MaybeRelocatable::from((1, 9)),
        MaybeRelocatable::from((1, 3)),
        MaybeRelocatable::from((2, 2)),
    ));
    assert_eq!(
        Ok((expected_operands, expected_operands_mem_addresses)),
        vm.compute_operands(&instruction)
    );
}

#[test]
fn deduce_memory_cell_ec_op_builtin_valid() {
    let mut vm = vm();
    let mut builtin = EcOpBuiltinRunner::new(true, 256);
    builtin.base = Some(Relocatable { segment_index: 0, offset: 0 });
    vm.builtin_runners
        .push((String::from("ec_op"), Box::new(builtin)));

    vm.memory = memory(&[
        ((0, 0), dec("2962412995502985605007699495352191122971573493113767820301112397466445942584")),
        ((0, 1), dec("214950771763870898744428659242275426967582168179217139798831865603966154129")),
        ((0, 2), dec("874739451078007766457464989774322083649278607533249481151382481072868806602")),
        ((0, 3), dec("152666792071518830868575557812948353041420400780739481342941381225525861407")),
        ((0, 4), felt(34)),
        ((0, 5), dec("2778063437308421278851140253538604815869848682781135193774472480292420096757")),
    ]);

    let result = vm.deduce_memory_cell(&MaybeRelocatable::from((0, 6)));
    assert_eq!(
        result,
        Ok(Some(MaybeRelocatable::from(bigint_str("3598390311618116577316045819420613574162151407434885460365915347732568210029"))))
    );
}

#[test]
fn verify_auto_deductions_for_ec_op_builtin_valid() {
    let mut builtin = EcOpBuiltinRunner::new(true, 256);
    builtin.base = Some(Relocatable { segment_index: 3, offset: 0 });
    let mut vm = vm();
    vm.builtin_runners
        .push((String::from("ec_op"), Box::new(builtin)));
    vm.memory = memory(&[
        ((3, 0), dec("2962412995502985605007699495352191122971573493113767820301112397466445942584")),
        ((3, 1), dec("214950771763870898744428659242275426967582168179217139798831865603966154129")),
        ((3, 2), dec("874739451078007766457464989774322083649278607533249481151382481072868806602")),
        ((3, 3), dec("152666792071518830868575557812948353041420400780739481342941381225525861407")),
        ((3, 4), felt(34)),
        ((3, 5), dec("2778063437308421278851140253538604815869848682781135193774472480292420096757")),
    ]);
    assert_eq!(vm.verify_auto_deductions(), Ok(()));
}

#[test]
fn verify_auto_deductions_for_ec_op_builtin_valid_points_invalid_result() {
    let mut builtin = EcOpBuiltinRunner::new(true, 256);
    builtin.base = Some(Relocatable { segment_index: 3, offset: 0 });
    let mut vm = vm();
    vm.builtin_runners
        .push((String::from("ec_op"), Box::new(builtin)));
    vm.memory = memory(&[
        ((3, 0), dec("2962412995502985605007699495352191122971573493113767820301112397466445942584")),
        ((3, 1), dec("214950771763870898744428659242275426967582168179217139798831865603966154129")),
        ((3, 2), dec("2089986280348253421170679821480865132823066470938446095505822317253594081284")),
        ((3, 3), dec("1713931329540660377023406109199410414810705867260802078187082345529207694986")),
        ((3, 4), felt(34)),
        ((3, 5), dec("2778063437308421278851140253538604815869848682781135193774472480292420096757")),
    ]);
    let error = vm.verify_auto_deductions();
    assert_eq!(
        error,
        Err(VirtualMachineError::InconsistentAutoDeduction(
            String::from("ec_op"),
            MaybeRelocatable::Int(bigint_str("2739017437753868763038285897969098325279422804143820990343394856167768859289")),
            Some(MaybeRelocatable::Int(bigint_str("2778063437308421278851140253538604815869848682781135193774472480292420096757")))
        ))
    );
    assert_eq!(error.unwrap_err().to_string(), "Inconsistent auto-deduction for builtin ec_op, expected Int(2739017437753868763038285897969098325279422804143820990343394856167768859289), got Some(Int(2778063437308421278851140253538604815869848682781135193774472480292420096757))");
}

#[test]
fn verify_auto_deductions_bitwise() {
    let mut builtin = BitwiseBuiltinRunner::new(true, 256);
    builtin.base = Some(Relocatable { segment_index: 2, offset: 0 });
    let mut vm = vm();
    vm.builtin_runners
        .push((String::from("bitwise"), Box::new(builtin)));
    vm.memory = memory(&[((2, 0), felt(12)), ((2, 1), felt(10))]);
    assert_eq!(vm.verify_auto_deductions(), Ok(()));
}

#[test]
fn verify_auto_deductions_pedersen() {
    let mut builtin = HashBuiltinRunner::new(true, 8);
    builtin.base = Some(Relocatable { segment_index: 3, offset: 0 });
    let mut vm = vm();
    vm.builtin_runners
        .push((String::from("pedersen"), Box::new(builtin)));
    vm.memory = memory(&[((3, 0), felt(32)), ((3, 1), felt(72))]);
    assert_eq!(vm.verify_auto_deductions(), Ok(()));
}

/// func main{}():
///     let vec: felt* = alloc()
///     assert vec[0] = 1
///     return()
/// end
#[test]
fn test_step_for_preset_memory_with_alloc_hint() {
    let mut vm = traced_vm();
    let hint_data_dictionary = HashMap::from([(
        0_usize,
        vec![HintData::new(
            "memory[ap] = segments.add()",
            HashMap::new(),
            ApTracking { group: 0, offset: 0 },
        )],
    )]);
    set_registers(&mut vm, 3, 2, 2);
    for _ in 0..2 {
        vm.segments.add(&mut vm.memory, None);
    }

    let hint_processor = AllocHints;

    vm.memory = memory(&[
        ((0, 0), felt(290341444919459839)),
        ((0, 1), felt(1)),
        ((0, 2), felt(2345108766317314046)),
        ((0, 3), felt(1226245742482522112)),
        ((0, 4), dec("3618502788666131213697322783095070105623107215331596699973092056135872020478")),
        ((0, 5), felt(5189976364521848832)),
        ((0, 6), felt(1)),
        ((0, 7), felt(4611826758063128575)),
        ((0, 8), felt(2345108766317314046)),
        ((1, 0), addr(2, 0)),
        ((1, 1), addr(3, 0)),
    ]);
    for _ in 0..6 {
        assert_eq!(
            vm.step(&hint_processor, &mut (), &hint_data_dictionary),
            Ok(())
        );
    }
    let trace = vm.trace.unwrap();
    check_trace(&trace, &[
            ((0, 3), (1, 2), (1, 2)),
            ((0, 0), (1, 4), (1, 4)),
            ((0, 2), (1, 5), (1, 4)),
            ((0, 5), (1, 5), (1, 2)),
            ((0, 7), (1, 6), (1, 2)),
            ((0, 8), (1, 6), (1, 2))
    ]);
    assert_eq!(vm.run_context.pc, MaybeRelocatable::from((3, 0)));
    assert_eq!(vm.run_context.ap, MaybeRelocatable::from((1, 6)));
    assert_eq!(vm.run_context.fp, MaybeRelocatable::from((2, 0)));
    assert_eq!(
        vm.memory.data[2],
        vec![Some(MaybeRelocatable::from(bigint(1)))]
    );
}
