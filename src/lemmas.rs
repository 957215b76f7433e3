use vstd::prelude::*;

use crate::machine::{
    InstructionView, LineView, MachineView, ProgramError, Register, advance, declares,
    execute, jump, label_from, label_index, reg, run, step_result, taken_jump, and_value, or_value,
    xor_value, not_value,
};

verus! {

/// The first declaration found from line `i` on declares `name`, and no line
/// between `i` and it does.
pub proof fn lemma_label_from_first(program: Seq<LineView>, name: Seq<char>, i: int)
    requires
        label_from(program, name, i) is Some,
    ensures
        ({
            let p = label_from(program, name, i)->Some_0;
            &&& 0 <= i <= p < program.len()
            &&& declares(program, p, name)
            &&& forall|j: int| i <= j < p ==> !declares(program, j, name)
        }),
    decreases program.len() - i,
{
    if program[i] != LineView::Lbl(name) {
        lemma_label_from_first(program, name, i + 1);
    }
}

/// Where no line from `i` on declares `name`, none is found.
pub proof fn lemma_label_from_absent(program: Seq<LineView>, name: Seq<char>, i: int)
    requires
        i >= 0,
        forall|j: int| i <= j ==> !declares(program, j, name),
    ensures
        label_from(program, name, i) is None,
    decreases program.len() - i,
{
    if i < program.len() {
        assert(!declares(program, i, name));
        lemma_label_from_absent(program, name, i + 1);
    }
}

/// Setting a register to a value and reading it back gives the value; the
/// flag is untouched.
pub proof fn lemma_set_then_read(s: MachineView, r: Register, v: u8)
    requires
        s.regs.len() == 8,
    ensures
        reg(execute(s, InstructionView::SetReg(r, v)).0, r) == v,
        execute(s, InstructionView::SetReg(r, v)).0.flag == s.flag,
        execute(s, InstructionView::SetReg(r, v)).1 is Ok,
{
}

/// Addition and subtraction give the sum and the difference modulo 256, and
/// the flag tells whether that result is zero.
pub proof fn lemma_add_sub_modular(s: MachineView, d: Register, a: Register, b: Register)
    requires
        s.regs.len() == 8,
    ensures
        ({
            let t = execute(s, InstructionView::Add(d, a, b)).0;
            &&& reg(t, d) as int == (reg(s, a) + reg(s, b)) % 256
            &&& t.flag == (reg(t, d) == 0)
        }),
        ({
            let t = execute(s, InstructionView::Sub(d, a, b)).0;
            &&& reg(t, d) as int == (reg(s, a) - reg(s, b)) % 256
            &&& t.flag == (reg(t, d) == 0)
        }),
{
}

/// Incrementing and decrementing a register is adding and subtracting a
/// register that holds one, wrapping around at the ends of the range.
pub proof fn lemma_inc_dec_are_add_sub_one(s: MachineView, d: Register, one: Register)
    requires
        s.regs.len() == 8,
        reg(s, one) == 1,
    ensures
        execute(s, InstructionView::Inc(d)) == execute(s, InstructionView::Add(d, d, one)),
        execute(s, InstructionView::Dec(d)) == execute(s, InstructionView::Sub(d, d, one)),
        reg(s, d) == 255 ==> reg(execute(s, InstructionView::Inc(d)).0, d) == 0
            && execute(s, InstructionView::Inc(d)).0.flag,
        reg(s, d) == 0 ==> reg(execute(s, InstructionView::Dec(d)).0, d) == 255,
{
}

/// Complementing a register twice gives back its value.
pub proof fn lemma_not_twice(s: MachineView, d: Register)
    requires
        s.regs.len() == 8,
    ensures
        execute(execute(s, InstructionView::Not(d)).0, InstructionView::Not(d)).0.regs == s.regs,
{
    let v = reg(s, d);
    reveal(not_value);
    assert(!(!v) == v) by (bit_vector);
    let t = execute(s, InstructionView::Not(d)).0;
    assert(execute(t, InstructionView::Not(d)).0.regs =~= s.regs);
}

/// With both operands the same register, `And` and `Or` copy its value and
/// `Xor` gives zero and sets the flag.
pub proof fn lemma_same_operand(s: MachineView, d: Register, a: Register)
    requires
        s.regs.len() == 8,
    ensures
        reg(execute(s, InstructionView::And(d, a, a)).0, d) == reg(s, a),
        reg(execute(s, InstructionView::Or(d, a, a)).0, d) == reg(s, a),
        reg(execute(s, InstructionView::Xor(d, a, a)).0, d) == 0,
        execute(s, InstructionView::Xor(d, a, a)).0.flag,
{
    let v = reg(s, a);
    reveal(and_value);
    reveal(or_value);
    reveal(xor_value);
    assert(v & v == v) by (bit_vector);
    assert(v | v == v) by (bit_vector);
    assert(v ^ v == 0) by (bit_vector);
}

/// `Jz` jumps exactly when the flag is set, `Jnz` exactly when it is clear,
/// and neither changes the flag.
pub proof fn lemma_conditional_jumps(s: MachineView, l: Seq<char>)
    ensures
        execute(s, InstructionView::Jz(l)) == if s.flag {
            jump(s, l)
        } else {
            (advance(s), Ok(()))
        },
        execute(s, InstructionView::Jnz(l)) == if !s.flag {
            jump(s, l)
        } else {
            (advance(s), Ok(()))
        },
        execute(s, InstructionView::Jz(l)).0.flag == s.flag,
        execute(s, InstructionView::Jnz(l)).0.flag == s.flag,
{
}

/// With the pointer at or past the last line, a step fails with
/// `EndOfProgram` and changes nothing.
pub proof fn lemma_step_past_end(s: MachineView)
    requires
        s.ip >= s.program.len(),
    ensures
        step_result(s) == (s, Err::<(), ProgramError>(ProgramError::EndOfProgram)),
{
}

/// A jump to a label that no line declares fails with `MissingLabel` and
/// leaves the state, pointer included, as it was.
pub proof fn lemma_jump_to_missing_label(s: MachineView, name: Seq<char>)
    requires
        0 <= s.ip < s.program.len(),
        s.program[s.ip] == LineView::Ins(InstructionView::J(name)),
        forall|i: int| !declares(s.program, i, name),
    ensures
        step_result(s) == (s, Err::<(), ProgramError>(ProgramError::MissingLabel)),
{
    lemma_label_from_absent(s.program, name, 0);
}

/// From a run of label lines ending before line `q`, stepping over them
/// brings the pointer to `q` and changes nothing else.
pub proof fn lemma_skip_labels(t: MachineView, q: int)
    requires
        0 <= t.ip <= q <= t.program.len(),
        forall|k: int| t.ip <= k < q ==> #[trigger] t.program[k] is Lbl,
    ensures
        run(t, (q - t.ip) as nat) == (MachineView { ip: q, ..t }),
    decreases q - t.ip,
{
    if t.ip < q {
        assert(t.program[t.ip] is Lbl);
        let u = advance(t);
        assert(step_result(t) == (u, Ok::<(), ProgramError>(())));
        lemma_skip_labels(u, q);
    }
}

/// A taken jump to `name` resumes at the first instruction after the first
/// declaration of `name`, however many label lines follow that declaration:
/// with the label declared on line `p` and only label lines between `p` and
/// `q`, where line `q` is an instruction or the end of the program, the jump
/// and the steps over those labels bring the pointer to `q` with registers
/// and flag as they were.
pub proof fn lemma_jump_resumes_after_label(s: MachineView, name: Seq<char>, q: int)
    requires
        0 <= s.ip < s.program.len(),
        s.program[s.ip] is Ins,
        taken_jump(s, s.program[s.ip]->Ins_0) == Some(name),
        label_index(s.program, name) is Some,
        label_index(s.program, name)->Some_0 < q <= s.program.len(),
        forall|k: int|
            label_index(s.program, name)->Some_0 < k < q ==> #[trigger] s.program[k] is Lbl,
        q == s.program.len() || s.program[q] is Ins,
    ensures
        run(s, (q - label_index(s.program, name)->Some_0 + 1) as nat) == (MachineView {
            ip: q,
            ..s
        }),
{
    let p = label_index(s.program, name)->Some_0;
    lemma_label_from_first(s.program, name, 0);
    let t = MachineView { ip: p, ..s };
    assert(step_result(s) == (t, Ok::<(), ProgramError>(())));
    assert forall|k: int| t.ip <= k < q implies #[trigger] t.program[k] is Lbl by {
        if k == p {
            assert(declares(s.program, p, name));
        }
    }
    lemma_skip_labels(t, q);
    assert((q - p + 1) as nat - 1 == (q - t.ip) as nat);
}

} // verus!
