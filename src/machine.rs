use vstd::prelude::*;
use vstd::string::StringExecFns;

use crate::text::{current_line_text, decimal_string, registers_text};

verus! {

/// One of the eight registers of the machine.
#[derive(PartialEq, Eq, Structural, Clone, Copy, Debug, PartialOrd)]
pub enum Register {
    R0,
    R1,
    R2,
    R3,
    R4,
    R5,
    R6,
    R7,
}

impl Register {
    /// Position of the register in the register bank.
    pub open spec fn id(self) -> int {
        match self {
            Register::R0 => 0,
            Register::R1 => 1,
            Register::R2 => 2,
            Register::R3 => 3,
            Register::R4 => 4,
            Register::R5 => 5,
            Register::R6 => 6,
            Register::R7 => 7,
        }
    }

    pub fn index(&self) -> (r: usize)
        ensures
            r == self.id(),
            r < 8,
    {
        match self {
            Register::R0 => 0,
            Register::R1 => 1,
            Register::R2 => 2,
            Register::R3 => 3,
            Register::R4 => 4,
            Register::R5 => 5,
            Register::R6 => 6,
            Register::R7 => 7,
        }
    }
}

/// The register at position `i` of the bank.
pub open spec fn register_at(i: int) -> Register {
    if i == 0 {
        Register::R0
    } else if i == 1 {
        Register::R1
    } else if i == 2 {
        Register::R2
    } else if i == 3 {
        Register::R3
    } else if i == 4 {
        Register::R4
    } else if i == 5 {
        Register::R5
    } else if i == 6 {
        Register::R6
    } else {
        Register::R7
    }
}

/// The register at position `i` of the bank.
pub fn register_of_index(i: usize) -> (r: Register)
    requires
        i < 8,
    ensures
        r == register_at(i as int),
        r.id() == i,
{
    if i == 0 {
        Register::R0
    } else if i == 1 {
        Register::R1
    } else if i == 2 {
        Register::R2
    } else if i == 3 {
        Register::R3
    } else if i == 4 {
        Register::R4
    } else if i == 5 {
        Register::R5
    } else if i == 6 {
        Register::R6
    } else {
        Register::R7
    }
}

/// A jump target, by name.
#[derive(Clone, Debug)]
pub struct Label(pub String);

impl View for Label {
    type V = Seq<char>;

    open spec fn view(&self) -> Seq<char> {
        self.0@
    }
}

#[derive(Clone, Debug)]
pub enum Instruction {
    Zero(Register),
    Mov(Register, Register),
    Add(Register, Register, Register),
    Sub(Register, Register, Register),
    Inc(Register),
    Dec(Register),
    And(Register, Register, Register),
    Or(Register, Register, Register),
    Xor(Register, Register, Register),
    Not(Register),
    Shl(Register, u8),
    Shr(Register, u8),
    Jz(Label),
    Jnz(Label),
    J(Label),
    SetReg(Register, u8),
}

/// What an instruction is, with each label taken as its sequence of characters.
pub enum InstructionView {
    Zero(Register),
    Mov(Register, Register),
    Add(Register, Register, Register),
    Sub(Register, Register, Register),
    Inc(Register),
    Dec(Register),
    And(Register, Register, Register),
    Or(Register, Register, Register),
    Xor(Register, Register, Register),
    Not(Register),
    Shl(Register, u8),
    Shr(Register, u8),
    Jz(Seq<char>),
    Jnz(Seq<char>),
    J(Seq<char>),
    SetReg(Register, u8),
}

impl View for Instruction {
    type V = InstructionView;

    open spec fn view(&self) -> InstructionView {
        match self {
            Instruction::Zero(d) => InstructionView::Zero(*d),
            Instruction::Mov(d, a) => InstructionView::Mov(*d, *a),
            Instruction::Add(d, a, b) => InstructionView::Add(*d, *a, *b),
            Instruction::Sub(d, a, b) => InstructionView::Sub(*d, *a, *b),
            Instruction::Inc(d) => InstructionView::Inc(*d),
            Instruction::Dec(d) => InstructionView::Dec(*d),
            Instruction::And(d, a, b) => InstructionView::And(*d, *a, *b),
            Instruction::Or(d, a, b) => InstructionView::Or(*d, *a, *b),
            Instruction::Xor(d, a, b) => InstructionView::Xor(*d, *a, *b),
            Instruction::Not(d) => InstructionView::Not(*d),
            Instruction::Shl(d, k) => InstructionView::Shl(*d, *k),
            Instruction::Shr(d, k) => InstructionView::Shr(*d, *k),
            Instruction::Jz(l) => InstructionView::Jz(l@),
            Instruction::Jnz(l) => InstructionView::Jnz(l@),
            Instruction::J(l) => InstructionView::J(l@),
            Instruction::SetReg(d, k) => InstructionView::SetReg(*d, *k),
        }
    }
}

/// One line of a program: an instruction or a label declaration.
#[derive(Clone, Debug)]
pub enum ProgramLine {
    Ins(Instruction),
    Lbl(Label),
}

pub enum LineView {
    Ins(InstructionView),
    Lbl(Seq<char>),
}

impl View for ProgramLine {
    type V = LineView;

    open spec fn view(&self) -> LineView {
        match self {
            ProgramLine::Ins(i) => LineView::Ins(i@),
            ProgramLine::Lbl(l) => LineView::Lbl(l@),
        }
    }
}

/// The lines of a program, as views.
pub open spec fn program_view(p: Seq<ProgramLine>) -> Seq<LineView> {
    p.map_values(|l: ProgramLine| l@)
}

/// Why a step could not be taken.
#[derive(PartialEq, Eq, Structural, Clone, Copy, Debug)]
pub enum ProgramError {
    EndOfProgram,
    MissingLabel,
}

/// The whole state of a machine: register values, flag, program and
/// instruction pointer.
pub struct MachineView {
    pub regs: Seq<u8>,
    pub flag: bool,
    pub program: Seq<LineView>,
    pub ip: int,
}

/// The result of one step: the next state, and whether the step was taken.
pub type StepOutcome = (MachineView, Result<(), ProgramError>);

/// `x` reduced to eight bits.
pub open spec fn wrap(x: int) -> u8 {
    (x % 256) as u8
}

/// `v` shifted left by `k`; bits shifted past the width are lost.
pub open spec fn shl_value(v: u8, k: u8) -> u8 {
    if k >= 8 {
        0
    } else {
        v << k
    }
}

/// `v` shifted right (logically) by `k`.
pub open spec fn shr_value(v: u8, k: u8) -> u8 {
    if k >= 8 {
        0
    } else {
        v >> k
    }
}

/// The bits set in both `a` and `b`.
#[verifier::opaque]
pub open spec fn and_value(a: u8, b: u8) -> u8 {
    a & b
}

/// The bits set in `a` or in `b`.
#[verifier::opaque]
pub open spec fn or_value(a: u8, b: u8) -> u8 {
    a | b
}

/// The bits set in exactly one of `a` and `b`.
#[verifier::opaque]
pub open spec fn xor_value(a: u8, b: u8) -> u8 {
    a ^ b
}

/// The bits of `a` flipped.
#[verifier::opaque]
pub open spec fn not_value(a: u8) -> u8 {
    !a
}

/// The value of register `r` in state `s`.
pub open spec fn reg(s: MachineView, r: Register) -> u8 {
    s.regs[r.id()]
}

/// Whether line `i` of `program` declares the label `name`.
pub open spec fn declares(program: Seq<LineView>, i: int, name: Seq<char>) -> bool {
    0 <= i < program.len() && program[i] == LineView::Lbl(name)
}

/// The first line at or after `i` that declares `name`.
pub open spec fn label_from(program: Seq<LineView>, name: Seq<char>, i: int) -> Option<int>
    decreases program.len() - i,
{
    if i < 0 || i >= program.len() {
        None
    } else if program[i] == LineView::Lbl(name) {
        Some(i)
    } else {
        label_from(program, name, i + 1)
    }
}

/// The line of the first declaration of `name` in `program`.
pub open spec fn label_index(program: Seq<LineView>, name: Seq<char>) -> Option<int> {
    label_from(program, name, 0)
}

/// `s` with register `r` set to `v`; the flag is kept.
pub open spec fn with_reg(s: MachineView, r: Register, v: u8) -> MachineView {
    MachineView { regs: s.regs.update(r.id(), v), ..s }
}

/// `s` with register `r` set to the result `v` of a computation, and the flag
/// set to whether `v` is zero.
pub open spec fn with_result(s: MachineView, r: Register, v: u8) -> MachineView {
    MachineView { regs: s.regs.update(r.id(), v), flag: v == 0, ..s }
}

/// `s` with the instruction pointer on the next line.
pub open spec fn advance(s: MachineView) -> MachineView {
    MachineView { ip: s.ip + 1, ..s }
}

/// A taken jump to `name`: the pointer goes to the line that declares it.
pub open spec fn jump(s: MachineView, name: Seq<char>) -> StepOutcome {
    match label_index(s.program, name) {
        Some(p) => (MachineView { ip: p, ..s }, Ok(())),
        None => (s, Err(ProgramError::MissingLabel)),
    }
}

/// The label that `ins` jumps to in state `s`, where it jumps there.
pub open spec fn taken_jump(s: MachineView, ins: InstructionView) -> Option<Seq<char>> {
    match ins {
        InstructionView::Jz(l) => if s.flag {
            Some(l)
        } else {
            None
        },
        InstructionView::Jnz(l) => if !s.flag {
            Some(l)
        } else {
            None
        },
        InstructionView::J(l) => Some(l),
        _ => None,
    }
}

/// What an instruction that does not jump writes, given the register values
/// `regs`: the register, the value, and whether the flag is set to whether
/// that value is zero. Jumps write nothing.
pub open spec fn write_of(regs: Seq<u8>, ins: InstructionView) -> Option<(Register, u8, bool)> {
    match ins {
        InstructionView::Zero(d) => Some((d, 0u8, false)),
        InstructionView::Mov(d, a) => Some((d, regs[a.id()], false)),
        InstructionView::Add(d, a, b) => Some((d, wrap(regs[a.id()] + regs[b.id()]), true)),
        InstructionView::Sub(d, a, b) => Some((d, wrap(regs[a.id()] - regs[b.id()]), true)),
        InstructionView::Inc(d) => Some((d, wrap(regs[d.id()] + 1), true)),
        InstructionView::Dec(d) => Some((d, wrap(regs[d.id()] - 1), true)),
        InstructionView::And(d, a, b) => Some((d, and_value(regs[a.id()], regs[b.id()]), true)),
        InstructionView::Or(d, a, b) => Some((d, or_value(regs[a.id()], regs[b.id()]), true)),
        InstructionView::Xor(d, a, b) => Some((d, xor_value(regs[a.id()], regs[b.id()]), true)),
        InstructionView::Not(d) => Some((d, not_value(regs[d.id()]), true)),
        InstructionView::Shl(d, k) => Some((d, shl_value(regs[d.id()], k), true)),
        InstructionView::Shr(d, k) => Some((d, shr_value(regs[d.id()], k), true)),
        InstructionView::SetReg(d, k) => Some((d, k, false)),
        _ => None,
    }
}

/// What executing `ins` does to the state `s`: a jump moves the pointer (or
/// fails on a missing label); any other instruction writes its register, and
/// the flag where it computes, and moves the pointer to the next line.
pub open spec fn execute(s: MachineView, ins: InstructionView) -> StepOutcome {
    match ins {
        InstructionView::Jz(l) => if s.flag {
            jump(s, l)
        } else {
            (advance(s), Ok(()))
        },
        InstructionView::Jnz(l) => if !s.flag {
            jump(s, l)
        } else {
            (advance(s), Ok(()))
        },
        InstructionView::J(l) => jump(s, l),
        _ => match write_of(s.regs, ins) {
            Some((d, v, f)) => (
                advance(
                    if f {
                        with_result(s, d, v)
                    } else {
                        with_reg(s, d, v)
                    },
                ),
                Ok(()),
            ),
            None => (advance(s), Ok(())),
        },
    }
}

/// One step from `s`: the line at the pointer is executed, a label line only
/// moves the pointer on, and past the last line nothing changes.
pub open spec fn step_result(s: MachineView) -> StepOutcome {
    if s.ip < 0 || s.ip >= s.program.len() {
        (s, Err(ProgramError::EndOfProgram))
    } else {
        match s.program[s.ip] {
            LineView::Lbl(_) => (advance(s), Ok(())),
            LineView::Ins(i) => execute(s, i),
        }
    }
}

/// The state after `n` steps from `s`, stopping at the first failed step.
pub open spec fn run(s: MachineView, n: nat) -> MachineView
    decreases n,
{
    if n == 0 {
        s
    } else {
        let (t, r) = step_result(s);
        if r is Ok {
            run(t, (n - 1) as nat)
        } else {
            t
        }
    }
}

/// The sum of `a` and `b` in eight bits.
fn add8(a: u8, b: u8) -> (r: u8)
    ensures
        r == wrap(a + b),
{
    a.wrapping_add(b)
}

/// The difference of `a` and `b` in eight bits.
fn sub8(a: u8, b: u8) -> (r: u8)
    ensures
        r == wrap(a - b),
{
    a.wrapping_sub(b)
}

fn and8(a: u8, b: u8) -> (r: u8)
    ensures
        r == and_value(a, b),
{
    reveal(and_value);
    a & b
}

fn or8(a: u8, b: u8) -> (r: u8)
    ensures
        r == or_value(a, b),
{
    reveal(or_value);
    a | b
}

fn xor8(a: u8, b: u8) -> (r: u8)
    ensures
        r == xor_value(a, b),
{
    reveal(xor_value);
    a ^ b
}

fn not8(a: u8) -> (r: u8)
    ensures
        r == not_value(a),
{
    reveal(not_value);
    !a
}

fn shl8(v: u8, k: u8) -> (r: u8)
    ensures
        r == shl_value(v, k),
{
    if k >= 8 {
        0
    } else {
        v << k
    }
}

fn shr8(v: u8, k: u8) -> (r: u8)
    ensures
        r == shr_value(v, k),
{
    if k >= 8 {
        0
    } else {
        v >> k
    }
}

/// What `ins` writes when it does not jump; see `write_of`.
fn write_effect(ins: &Instruction, regs: &Vec<u8>) -> (r: Option<(Register, u8, bool)>)
    requires
        regs@.len() == 8,
    ensures
        r == write_of(regs@, ins@),
{
    match ins {
        Instruction::And(..) | Instruction::Or(..) | Instruction::Xor(..) | Instruction::Not(..)
        | Instruction::Shl(..) | Instruction::Shr(..) => bitwise_effect(ins, regs),
        _ => arithmetic_effect(ins, regs),
    }
}

/// What a bitwise or shift instruction writes.
fn bitwise_effect(ins: &Instruction, regs: &Vec<u8>) -> (r: Option<(Register, u8, bool)>)
    requires
        regs@.len() == 8,
        ins is And || ins is Or || ins is Xor || ins is Not || ins is Shl || ins is Shr,
    ensures
        r == write_of(regs@, ins@),
{
    match ins {
        Instruction::And(d, a, b) => Some((*d, and8(regs[a.index()], regs[b.index()]), true)),
        Instruction::Or(d, a, b) => Some((*d, or8(regs[a.index()], regs[b.index()]), true)),
        Instruction::Xor(d, a, b) => Some((*d, xor8(regs[a.index()], regs[b.index()]), true)),
        Instruction::Not(d) => Some((*d, not8(regs[d.index()]), true)),
        Instruction::Shl(d, k) => Some((*d, shl8(regs[d.index()], *k), true)),
        Instruction::Shr(d, k) => Some((*d, shr8(regs[d.index()], *k), true)),
        _ => None,
    }
}

/// What any other instruction writes; jumps write nothing.
fn arithmetic_effect(ins: &Instruction, regs: &Vec<u8>) -> (r: Option<(Register, u8, bool)>)
    requires
        regs@.len() == 8,
        !(ins is And || ins is Or || ins is Xor || ins is Not || ins is Shl || ins is Shr),
    ensures
        r == write_of(regs@, ins@),
{
    match ins {
        Instruction::Zero(d) => Some((*d, 0, false)),
        Instruction::Mov(d, a) => Some((*d, regs[a.index()], false)),
        Instruction::Add(d, a, b) => Some((*d, add8(regs[a.index()], regs[b.index()]), true)),
        Instruction::Sub(d, a, b) => Some((*d, sub8(regs[a.index()], regs[b.index()]), true)),
        Instruction::Inc(d) => Some((*d, add8(regs[d.index()], 1), true)),
        Instruction::Dec(d) => Some((*d, sub8(regs[d.index()], 1), true)),
        Instruction::SetReg(d, k) => Some((*d, *k, false)),
        _ => None,
    }
}

/// A register machine with a loaded program.
pub struct Machine {
    registers: Vec<u8>,
    flag: bool,
    program: Vec<ProgramLine>,
    index: usize,
}

impl View for Machine {
    type V = MachineView;

    closed spec fn view(&self) -> MachineView {
        MachineView {
            regs: self.registers@,
            flag: self.flag,
            program: program_view(self.program@),
            ip: self.index as int,
        }
    }
}

impl Machine {
    /// The bank holds exactly the eight registers.
    pub open spec fn wf(&self) -> bool {
        self@.regs.len() == 8
    }

    fn init_registers() -> (r: Vec<u8>)
        ensures
            r@ == Seq::new(8, |i: int| 0u8),
    {
        let r = vec![0u8, 0u8, 0u8, 0u8, 0u8, 0u8, 0u8, 0u8];
        assert(r@ == Seq::new(8, |i: int| 0u8));
        r
    }

    /// A machine with every register zero, the flag clear and no program.
    pub fn new() -> (m: Machine)
        ensures
            m.wf(),
            m@.regs == Seq::new(8, |i: int| 0u8),
            !m@.flag,
            m@.program.len() == 0,
            m@.ip == 0,
    {
        Machine { registers: Machine::init_registers(), flag: false, program: Vec::new(), index: 0 }
    }

    /// Installs `program` and puts the pointer on its first line; registers
    /// and flag are kept.
    pub fn init_program(&mut self, program: Vec<ProgramLine>)
        ensures
            final(self)@ == (MachineView {
                program: program_view(program@),
                ip: 0,
                ..old(self)@
            }),
    {
        self.program = program;
        self.index = 0;
    }

    /// Clears every register and the flag; program and pointer are kept.
    pub fn reset(&mut self)
        requires
            old(self).wf(),
        ensures
            final(self)@ == (MachineView {
                regs: Seq::new(8, |i: int| 0u8),
                flag: false,
                ..old(self)@
            }),
            final(self).wf(),
    {
        self.registers = Machine::init_registers();
        self.flag = false;
    }

    /// The value held in register `r`.
    pub fn get_register(&self, r: Register) -> (v: u8)
        requires
            self.wf(),
        ensures
            v == reg(self@, r),
    {
        self.registers[r.index()]
    }

    /// Writes `value` into register `r`, bypassing the instructions: the flag
    /// is left as it is.
    pub fn set_register(&mut self, r: Register, value: u8)
        requires
            old(self).wf(),
        ensures
            final(self)@ == with_reg(old(self)@, r, value),
            final(self).wf(),
    {
        self.registers.set(r.index(), value);
    }

    /// The condition flag.
    pub fn get_flag(&self) -> (f: bool)
        ensures
            f == self@.flag,
    {
        self.flag
    }

    /// The instruction pointer.
    pub fn get_index(&self) -> (i: usize)
        ensures
            i == self@.ip,
    {
        self.index
    }

    /// The register values in bank order, each with its register.
    pub fn register_snapshot(&self) -> (r: Vec<(Register, u8)>)
        requires
            self.wf(),
        ensures
            r@.len() == 8,
            forall|i: int| 0 <= i < 8 ==> #[trigger] r@[i] == (register_at(i), self@.regs[i]),
    {
        let mut r: Vec<(Register, u8)> = Vec::new();
        let mut i: usize = 0;
        while i < 8
            invariant
                self.wf(),
                i <= 8,
                r@.len() == i,
                forall|j: int| 0 <= j < i ==> #[trigger] r@[j] == (register_at(j), self@.regs[j]),
            decreases 8 - i,
        {
            let reg = register_of_index(i);
            r.push((reg, self.registers[i]));
            i = i + 1;
        }
        r
    }

    /// A description of the line at the pointer, for tracing.
    pub fn get_current_instruction(&self) -> (r: String)
        ensures
            r@ == current_line_text(self@),
    {
        if self.index >= self.program.len() {
            return String::from_str("End of program");
        }
        match &self.program[self.index] {
            ProgramLine::Ins(i) => {
                let mut s = String::from_str("At instruction: ");
                let t = i.to_text();
                s.append(t.as_str());
                s
            },
            ProgramLine::Lbl(l) => {
                let mut s = String::from_str("At label: Label(\"");
                s.append(l.0.as_str());
                s.append("\")");
                s
            },
        }
    }

    /// One line per register, in bank order: `Register: R0 = 5`.
    pub fn get_string_registers(&self) -> (r: String)
        requires
            self.wf(),
        ensures
            r@ == registers_text(self@.regs, 8),
    {
        let mut s = String::new();
        let mut i: usize = 0;
        while i < 8
            invariant
                self.wf(),
                i <= 8,
                s@ == registers_text(self@.regs, i as nat),
            decreases 8 - i,
        {
            let r = register_of_index(i);
            s.append("Register: ");
            s.append(r.name());
            s.append(" = ");
            let num = decimal_string(self.registers[i]);
            s.append(num.as_str());
            s.append("\n");
            assert(s@ =~= registers_text(self@.regs, (i + 1) as nat));
            i = i + 1;
        }
        s
    }

    /// The line of the first declaration of the label `name`, if any.
    fn find_label(&self, name: &String) -> (r: Option<usize>)
        ensures
            match r {
                Some(p) => label_index(self@.program, name@) == Some(p as int),
                None => label_index(self@.program, name@) is None,
            },
    {
        let mut i: usize = 0;
        while i < self.program.len()
            invariant
                i <= self.program.len(),
                label_index(self@.program, name@) == label_from(self@.program, name@, i as int),
            decreases self.program.len() - i,
        {
            if let ProgramLine::Lbl(l) = &self.program[i] {
                if l.0 == *name {
                    return Some(i);
                }
            }
            i = i + 1;
        }
        None
    }

    fn set_flag(&mut self, value: bool)
        ensures
            final(self)@ == (MachineView { flag: value, ..old(self)@ }),
    {
        self.flag = value;
    }

    /// Writes the result `v` of a computation into `r` and sets the flag to
    /// whether it is zero.
    fn put_result(&mut self, r: Register, v: u8)
        requires
            old(self).wf(),
        ensures
            final(self)@ == with_result(old(self)@, r, v),
            final(self).wf(),
    {
        self.registers.set(r.index(), v);
        self.set_flag(v == 0);
    }

    /// Where the instruction at the pointer jumps, if it jumps: the line of
    /// its label, or `None` when the label is missing.
    fn jump_target(&self) -> (r: Option<Option<usize>>)
        requires
            self.index < self.program.len(),
            self.program@[self.index as int] is Ins,
        ensures
            match taken_jump(self@, self@.program[self@.ip]->Ins_0) {
                None => r is None,
                Some(l) => r is Some && match r->Some_0 {
                    Some(p) => label_index(self@.program, l) == Some(p as int),
                    None => label_index(self@.program, l) is None,
                },
            },
    {
        let ProgramLine::Ins(ins) = &self.program[self.index] else {
            return None;
        };
        match ins {
            Instruction::Jz(l) => if self.flag {
                Some(self.find_label(&l.0))
            } else {
                None
            },
            Instruction::Jnz(l) => if !self.flag {
                Some(self.find_label(&l.0))
            } else {
                None
            },
            Instruction::J(l) => Some(self.find_label(&l.0)),
            _ => None,
        }
    }

    /// Executes the instruction at the pointer.
    fn interpret_instruction(&mut self) -> (res: Result<(), ProgramError>)
        requires
            old(self).wf(),
            old(self).index < old(self).program.len(),
            old(self).program@[old(self).index as int] is Ins,
        ensures
            (final(self)@, res) == execute(
                old(self)@,
                old(self)@.program[old(self)@.ip]->Ins_0,
            ),
            final(self).wf(),
    {
        match self.jump_target() {
            Some(Some(p)) => {
                self.index = p;
                Ok(())
            },
            Some(None) => Err(ProgramError::MissingLabel),
            None => {
                let ghost iv = self@.program[self@.ip]->Ins_0;
                let effect = match &self.program[self.index] {
                    ProgramLine::Ins(ins) => write_effect(ins, &self.registers),
                    ProgramLine::Lbl(_) => None,
                };
                assert(effect == write_of(self@.regs, iv));
                match effect {
                    Some((d, v, f)) => {
                        if f {
                            self.put_result(d, v);
                        } else {
                            self.set_register(d, v);
                        }
                    },
                    None => {},
                }
                self.index = self.index + 1;
                Ok(())
            },
        }
    }

    /// Executes the line at the pointer and moves on; see `step_result`.
    pub fn step(&mut self) -> (res: Result<(), ProgramError>)
        requires
            old(self).wf(),
        ensures
            (final(self)@, res) == step_result(old(self)@),
            final(self).wf(),
    {
        if self.index >= self.program.len() {
            return Err(ProgramError::EndOfProgram);
        }
        if let ProgramLine::Lbl(_) = &self.program[self.index] {
            self.index = self.index + 1;
            return Ok(());
        }
        self.interpret_instruction()
    }
}

} // verus!
