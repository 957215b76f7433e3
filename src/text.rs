use vstd::prelude::*;
use vstd::string::StringExecFns;

use crate::machine::{Instruction, InstructionView, LineView, MachineView, Register};
use crate::parser::{Opcode, mnemonic};

verus! {

/// The decimal digit `d`.
pub open spec fn digit(d: int) -> char {
    (d + 48) as u8 as char
}

/// `v` written in decimal, without leading zeros.
pub open spec fn decimal_text(v: nat) -> Seq<char>
    decreases v,
{
    if v < 10 {
        seq![digit(v as int)]
    } else {
        decimal_text(v / 10) + seq![digit((v % 10) as int)]
    }
}

/// The name of register `r` in program text: `R0` to `R7`.
pub open spec fn register_name(r: Register) -> Seq<char> {
    seq!['R', digit(r.id())]
}

/// The separator between operands.
pub open spec fn operand_separator() -> Seq<char> {
    seq![',', ' ']
}

/// The operation of an instruction.
pub open spec fn opcode_of_instruction(iv: InstructionView) -> Opcode {
    match iv {
        InstructionView::Zero(_) => Opcode::Zero,
        InstructionView::Mov(_, _) => Opcode::Mov,
        InstructionView::Add(_, _, _) => Opcode::Add,
        InstructionView::Sub(_, _, _) => Opcode::Sub,
        InstructionView::Inc(_) => Opcode::Inc,
        InstructionView::Dec(_) => Opcode::Dec,
        InstructionView::And(_, _, _) => Opcode::And,
        InstructionView::Or(_, _, _) => Opcode::Or,
        InstructionView::Xor(_, _, _) => Opcode::Xor,
        InstructionView::Not(_) => Opcode::Not,
        InstructionView::Shl(_, _) => Opcode::Shl,
        InstructionView::Shr(_, _) => Opcode::Shr,
        InstructionView::Jz(_) => Opcode::Jz,
        InstructionView::Jnz(_) => Opcode::Jnz,
        InstructionView::J(_) => Opcode::J,
        InstructionView::SetReg(_, _) => Opcode::SetReg,
    }
}

/// The operands of an instruction in program text, separated by commas.
pub open spec fn operands_text(iv: InstructionView) -> Seq<char> {
    match iv {
        InstructionView::Zero(d) => register_name(d),
        InstructionView::Inc(d) => register_name(d),
        InstructionView::Dec(d) => register_name(d),
        InstructionView::Not(d) => register_name(d),
        InstructionView::Mov(d, a) => register_name(d) + operand_separator() + register_name(a),
        InstructionView::Add(d, a, b) => three_registers(d, a, b),
        InstructionView::Sub(d, a, b) => three_registers(d, a, b),
        InstructionView::And(d, a, b) => three_registers(d, a, b),
        InstructionView::Or(d, a, b) => three_registers(d, a, b),
        InstructionView::Xor(d, a, b) => three_registers(d, a, b),
        InstructionView::Shl(d, k) => register_name(d) + operand_separator() + decimal_text(
            k as nat,
        ),
        InstructionView::Shr(d, k) => register_name(d) + operand_separator() + decimal_text(
            k as nat,
        ),
        InstructionView::SetReg(d, k) => register_name(d) + operand_separator() + decimal_text(
            k as nat,
        ),
        InstructionView::Jz(l) => l,
        InstructionView::Jnz(l) => l,
        InstructionView::J(l) => l,
    }
}

pub open spec fn three_registers(d: Register, a: Register, b: Register) -> Seq<char> {
    register_name(d) + operand_separator() + register_name(a) + operand_separator()
        + register_name(b)
}

/// An instruction in program text: its mnemonic, a space, its operands.
pub open spec fn instruction_text(iv: InstructionView) -> Seq<char> {
    mnemonic(opcode_of_instruction(iv)) + seq![' '] + operands_text(iv)
}

/// A description of the line at the pointer of `s`.
pub open spec fn current_line_text(s: MachineView) -> Seq<char> {
    if 0 <= s.ip < s.program.len() {
        match s.program[s.ip] {
            LineView::Ins(i) => "At instruction: "@ + instruction_text(i),
            LineView::Lbl(l) => "At label: Label(\""@ + l + "\")"@,
        }
    } else {
        "End of program"@
    }
}

/// The line that shows register `r` holding `v`.
pub open spec fn register_line(r: Register, v: u8) -> Seq<char> {
    "Register: "@ + register_name(r) + " = "@ + decimal_text(v as nat) + "\n"@
}

/// The lines for the first `n` registers of `regs`.
pub open spec fn registers_text(regs: Seq<u8>, n: nat) -> Seq<char>
    decreases n,
{
    if n == 0 {
        seq![]
    } else {
        registers_text(regs, (n - 1) as nat) + register_line(
            crate::machine::register_at(n - 1),
            regs[n - 1],
        )
    }
}

/// The text of the digit `d`.
fn digit_str(d: u8) -> (r: &'static str)
    requires
        d < 10,
    ensures
        r@ == seq![digit(d as int)],
{
    proof {
        reveal_strlit("0");
        reveal_strlit("1");
        reveal_strlit("2");
        reveal_strlit("3");
        reveal_strlit("4");
        reveal_strlit("5");
        reveal_strlit("6");
        reveal_strlit("7");
        reveal_strlit("8");
        reveal_strlit("9");
    }
    let r = match d {
        0 => "0",
        1 => "1",
        2 => "2",
        3 => "3",
        4 => "4",
        5 => "5",
        6 => "6",
        7 => "7",
        8 => "8",
        _ => "9",
    };
    assert(r@ =~= seq![digit(d as int)]);
    r
}

/// `v` in decimal.
pub fn decimal_string(v: u8) -> (r: String)
    ensures
        r@ == decimal_text(v as nat),
{
    let mut s = String::new();
    if v >= 100 {
        s.append(digit_str(v / 100));
    }
    if v >= 10 {
        s.append(digit_str((v / 10) % 10));
    }
    s.append(digit_str(v % 10));
    proof {
        let n = v as nat;
        if n >= 100 {
            assert(n / 10 >= 10);
            assert((n / 10) / 10 == n / 100);
            assert(n / 100 < 10);
            assert(decimal_text(n / 100) == seq![digit((n / 100) as int)]);
            assert(decimal_text(n / 10) == decimal_text(n / 100) + seq![
                digit(((n / 10) % 10) as int),
            ]);
            assert(decimal_text(n) == decimal_text(n / 10) + seq![digit((n % 10) as int)]);
            assert(s@ =~= decimal_text(n));
        } else if n >= 10 {
            assert(n / 10 < 10);
            assert((n / 10) % 10 == n / 10);
            assert(decimal_text(n / 10) == seq![digit((n / 10) as int)]);
            assert(decimal_text(n) == decimal_text(n / 10) + seq![digit((n % 10) as int)]);
            assert(s@ =~= decimal_text(n));
        } else {
            assert(s@ =~= decimal_text(n));
        }
    }
    s
}

impl Register {
    /// The name of the register in program text.
    pub fn name(&self) -> (r: &'static str)
        ensures
            r@ == register_name(*self),
    {
        proof {
            reveal_strlit("R0");
            reveal_strlit("R1");
            reveal_strlit("R2");
            reveal_strlit("R3");
            reveal_strlit("R4");
            reveal_strlit("R5");
            reveal_strlit("R6");
            reveal_strlit("R7");
        }
        let r = match self {
            Register::R0 => "R0",
            Register::R1 => "R1",
            Register::R2 => "R2",
            Register::R3 => "R3",
            Register::R4 => "R4",
            Register::R5 => "R5",
            Register::R6 => "R6",
            Register::R7 => "R7",
        };
        assert(r@ =~= register_name(*self));
        r
    }
}

impl Opcode {
    /// The mnemonic of the operation.
    pub fn name(&self) -> (r: &'static str)
        ensures
            r@ == mnemonic(*self),
    {
        proof {
            reveal_strlit("ZERO");
            reveal_strlit("MOV");
            reveal_strlit("ADD");
            reveal_strlit("SUB");
            reveal_strlit("INC");
            reveal_strlit("DEC");
            reveal_strlit("AND");
            reveal_strlit("OR");
            reveal_strlit("XOR");
            reveal_strlit("NOT");
            reveal_strlit("SHL");
            reveal_strlit("SHR");
            reveal_strlit("JZ");
            reveal_strlit("JNZ");
            reveal_strlit("J");
            reveal_strlit("SET");
        }
        let r = match self {
            Opcode::Zero => "ZERO",
            Opcode::Mov => "MOV",
            Opcode::Add => "ADD",
            Opcode::Sub => "SUB",
            Opcode::Inc => "INC",
            Opcode::Dec => "DEC",
            Opcode::And => "AND",
            Opcode::Or => "OR",
            Opcode::Xor => "XOR",
            Opcode::Not => "NOT",
            Opcode::Shl => "SHL",
            Opcode::Shr => "SHR",
            Opcode::Jz => "JZ",
            Opcode::Jnz => "JNZ",
            Opcode::J => "J",
            Opcode::SetReg => "SET",
        };
        assert(r@ =~= mnemonic(*self));
        r
    }
}

fn two_registers_string(d: Register, a: Register) -> (r: String)
    ensures
        r@ == register_name(d) + operand_separator() + register_name(a),
{
    proof {
        reveal_strlit(", ");
    }
    let mut s = String::from_str(d.name());
    s.append(", ");
    s.append(a.name());
    s
}

fn three_registers_string(d: Register, a: Register, b: Register) -> (r: String)
    ensures
        r@ == three_registers(d, a, b),
{
    proof {
        reveal_strlit(", ");
    }
    let mut s = two_registers_string(d, a);
    s.append(", ");
    s.append(b.name());
    s
}

fn register_immediate_string(d: Register, k: u8) -> (r: String)
    ensures
        r@ == register_name(d) + operand_separator() + decimal_text(k as nat),
{
    proof {
        reveal_strlit(", ");
    }
    let mut s = String::from_str(d.name());
    s.append(", ");
    let num = decimal_string(k);
    s.append(num.as_str());
    s
}

impl Instruction {
    /// The operation of the instruction.
    pub fn opcode(&self) -> (r: Opcode)
        ensures
            r == opcode_of_instruction(self@),
    {
        match self {
            Instruction::Zero(_) => Opcode::Zero,
            Instruction::Mov(_, _) => Opcode::Mov,
            Instruction::Add(_, _, _) => Opcode::Add,
            Instruction::Sub(_, _, _) => Opcode::Sub,
            Instruction::Inc(_) => Opcode::Inc,
            Instruction::Dec(_) => Opcode::Dec,
            Instruction::And(_, _, _) => Opcode::And,
            Instruction::Or(_, _, _) => Opcode::Or,
            Instruction::Xor(_, _, _) => Opcode::Xor,
            Instruction::Not(_) => Opcode::Not,
            Instruction::Shl(_, _) => Opcode::Shl,
            Instruction::Shr(_, _) => Opcode::Shr,
            Instruction::Jz(_) => Opcode::Jz,
            Instruction::Jnz(_) => Opcode::Jnz,
            Instruction::J(_) => Opcode::J,
            Instruction::SetReg(_, _) => Opcode::SetReg,
        }
    }

    /// The operands of the instruction in program text.
    fn operands_string(&self) -> (r: String)
        ensures
            r@ == operands_text(self@),
    {
        match self {
            Instruction::Zero(d) => String::from_str(d.name()),
            Instruction::Inc(d) => String::from_str(d.name()),
            Instruction::Dec(d) => String::from_str(d.name()),
            Instruction::Not(d) => String::from_str(d.name()),
            Instruction::Mov(d, a) => two_registers_string(*d, *a),
            Instruction::Add(d, a, b) => three_registers_string(*d, *a, *b),
            Instruction::Sub(d, a, b) => three_registers_string(*d, *a, *b),
            Instruction::And(d, a, b) => three_registers_string(*d, *a, *b),
            Instruction::Or(d, a, b) => three_registers_string(*d, *a, *b),
            Instruction::Xor(d, a, b) => three_registers_string(*d, *a, *b),
            Instruction::Shl(d, k) => register_immediate_string(*d, *k),
            Instruction::Shr(d, k) => register_immediate_string(*d, *k),
            Instruction::SetReg(d, k) => register_immediate_string(*d, *k),
            Instruction::Jz(l) => l.0.clone(),
            Instruction::Jnz(l) => l.0.clone(),
            Instruction::J(l) => l.0.clone(),
        }
    }

    /// The instruction in program text, as the parser reads it: `ADD R0, R1, R2`.
    pub fn to_text(&self) -> (r: String)
        ensures
            r@ == instruction_text(self@),
    {
        proof {
            reveal_strlit(" ");
        }
        let mut s = String::from_str(self.opcode().name());
        s.append(" ");
        let ops = self.operands_string();
        s.append(ops.as_str());
        s
    }
}

} // verus!
