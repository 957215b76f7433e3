use vstd::prelude::*;
use vstd::utf8::is_ascii_chars;

use crate::machine::{InstructionView, LineView, Register, register_at};
use crate::parser::{
    Opcode, comma, decimal_value, immediate_named, immediate_operand, instruction_operands,
    is_digit, is_name_start, is_word_char, label_operand, mnemonic, next_register, opcode_of,
    parse_from, parse_statement, parse_text, register_operand, skip_space,
    word_end,
};
use crate::text::{
    decimal_text, digit, instruction_text, opcode_of_instruction, operand_separator,
    operands_text, register_name, three_registers,
};

verus! {

/// Labels that the parser reads back: words that begin with a letter or `_`.
pub open spec fn is_label_name(l: Seq<char>) -> bool {
    l.len() > 0 && is_name_start(l[0]) && forall|i: int| 0 <= i < l.len() ==> is_word_char(#[trigger] l[i])
}

/// Every label of `iv` is one that the parser reads back.
pub open spec fn has_label_names(iv: InstructionView) -> bool {
    match iv {
        InstructionView::Jz(l) => is_label_name(l),
        InstructionView::Jnz(l) => is_label_name(l),
        InstructionView::J(l) => is_label_name(l),
        _ => true,
    }
}

/// A word runs from `i` to the first character that is not a word character.
pub proof fn lemma_word_end(cs: Seq<char>, i: int, e: int)
    requires
        0 <= i <= e <= cs.len(),
        forall|k: int| i <= k < e ==> is_word_char(#[trigger] cs[k]),
        e == cs.len() || !is_word_char(cs[e]),
    ensures
        word_end(cs, i) == e,
    decreases e - i,
{
    if i < e {
        lemma_word_end(cs, i + 1, e);
    }
}

proof fn lemma_digit(d: int)
    requires
        0 <= d < 10,
    ensures
        is_digit(digit(d)),
        is_word_char(digit(d)),
        digit(d) as int - '0' as int == d,
{
}

/// Decimal text is made of digits, and reads back as the number.
pub proof fn lemma_decimal_text(v: nat)
    ensures
        decimal_text(v).len() > 0,
        forall|i: int| 0 <= i < decimal_text(v).len() ==> is_digit(#[trigger] decimal_text(v)[i]),
        decimal_value(decimal_text(v)) == v,
    decreases v,
{
    lemma_digit((v % 10) as int);
    if v >= 10 {
        lemma_decimal_text(v / 10);
        let w = decimal_text(v);
        assert(w.drop_last() =~= decimal_text(v / 10));
        assert forall|i: int| 0 <= i < w.len() implies is_digit(#[trigger] w[i]) by {
            if i < w.len() - 1 {
                assert(w[i] == decimal_text(v / 10)[i]);
            }
        }
        assert(w.last() == digit((v % 10) as int));
        assert(decimal_value(w) == decimal_value(decimal_text(v / 10)) * 10 + (v % 10));
        assert((v / 10) * 10 + v % 10 == v);
    } else {
        lemma_digit(v as int);
        let w = decimal_text(v);
        assert(w.drop_last() =~= Seq::<char>::empty());
        assert(decimal_value(w) == decimal_value(w.drop_last()) * 10 + (w.last() as int
            - '0' as int) as nat);
    }
}

/// The register name at `i + 1`, after a space and before a comma or the end.
proof fn lemma_register_operand(cs: Seq<char>, i: int, r: Register)
    requires
        0 <= i,
        i + 3 <= cs.len(),
        cs[i] == ' ',
        cs.subrange(i + 1, i + 3) == register_name(r),
        i + 3 == cs.len() || cs[i + 3] == ',',
    ensures
        register_operand(cs, i) == Ok::<(Register, int), int>((r, i + 3)),
{
    assert(cs[i + 1] == register_name(r)[0]);
    assert(cs[i + 2] == register_name(r)[1]);
    lemma_digit(r.id());
    assert(skip_space(cs, i + 1) == i + 1);
    lemma_word_end(cs, i + 1, i + 3);
    assert(cs.subrange(i + 1, i + 3) =~= seq!['R', digit(r.id())]);
    assert(register_at(r.id()) == r);
}

/// A comma at `i` followed by a register operand.
proof fn lemma_next_register(cs: Seq<char>, i: int, r: Register)
    requires
        0 <= i,
        i + 4 <= cs.len(),
        cs[i] == ',',
        cs[i + 1] == ' ',
        cs.subrange(i + 2, i + 4) == register_name(r),
        i + 4 == cs.len() || cs[i + 4] == ',',
    ensures
        next_register(cs, i) == Ok::<(Register, int), int>((r, i + 4)),
{
    assert(comma(cs, i) == Ok::<int, int>(i + 1));
    lemma_register_operand(cs, i + 1, r);
}

/// The number written at `i + 1` to the end, after a space.
proof fn lemma_immediate_operand(cs: Seq<char>, i: int, k: u8)
    requires
        0 <= i < cs.len(),
        cs[i] == ' ',
        cs.subrange(i + 1, cs.len() as int) == decimal_text(k as nat),
    ensures
        immediate_operand(cs, i) == Ok::<(u8, int), int>((k, cs.len() as int)),
{
    let w = decimal_text(k as nat);
    lemma_decimal_text(k as nat);
    assert(cs[i + 1] == w[0]);
    assert(skip_space(cs, i + 1) == i + 1);
    assert forall|j: int| i + 1 <= j < cs.len() implies is_word_char(#[trigger] cs[j]) by {
        assert(cs[j] == w[j - i - 1]);
    }
    lemma_word_end(cs, i + 1, cs.len() as int);
    assert(immediate_named(w) == Some(k));
}

/// The label written at `i + 1` to the end, after a space.
proof fn lemma_label_operand(cs: Seq<char>, i: int, l: Seq<char>)
    requires
        0 <= i < cs.len(),
        cs[i] == ' ',
        cs.subrange(i + 1, cs.len() as int) == l,
        is_label_name(l),
    ensures
        label_operand(cs, i) == Ok::<(Seq<char>, int), int>((l, cs.len() as int)),
{
    assert(cs[i + 1] == l[0]);
    assert(skip_space(cs, i + 1) == i + 1);
    assert forall|j: int| i + 1 <= j < cs.len() implies is_word_char(#[trigger] cs[j]) by {
        assert(cs[j] == l[j - i - 1]);
    }
    lemma_word_end(cs, i + 1, cs.len() as int);
}

/// Each mnemonic is a non-empty word that names its operation.
proof fn lemma_mnemonic(op: Opcode)
    ensures
        mnemonic(op).len() > 0,
        forall|k: int| 0 <= k < mnemonic(op).len() ==> is_word_char(#[trigger] mnemonic(op)[k]),
        opcode_of(mnemonic(op)) == Some(op),
{
    assert forall|o: Opcode| o != op implies mnemonic(o) != mnemonic(op) by {
        if mnemonic(o) == mnemonic(op) {
            assert(mnemonic(o).len() == mnemonic(op).len());
            assert(mnemonic(o)[0] == mnemonic(op)[0]);
            if mnemonic(op).len() > 1 {
                assert(mnemonic(o)[1] == mnemonic(op)[1]);
            }
            if mnemonic(op).len() > 2 {
                assert(mnemonic(o)[2] == mnemonic(op)[2]);
            }
        }
    }
}

/// Text made of word characters, spaces and commas only.
pub open spec fn is_plain(cs: Seq<char>) -> bool {
    forall|i: int| 0 <= i < cs.len() ==> is_word_char(#[trigger] cs[i]) || cs[i] == ' ' || cs[i]
        == ','
}

proof fn lemma_plain_concat(a: Seq<char>, b: Seq<char>)
    requires
        is_plain(a),
        is_plain(b),
    ensures
        is_plain(a + b),
{
    assert forall|i: int| 0 <= i < (a + b).len() implies is_word_char(#[trigger] (a + b)[i]) || (a
        + b)[i] == ' ' || (a + b)[i] == ',' by {
        if i < a.len() {
            assert((a + b)[i] == a[i]);
        } else {
            assert((a + b)[i] == b[i - a.len()]);
        }
    }
}

proof fn lemma_register_name_plain(r: Register)
    ensures
        is_plain(register_name(r)),
        register_name(r).len() == 2,
{
    lemma_digit(r.id());
}

/// The operands of an instruction are written in plain text.
proof fn lemma_operands_plain(iv: InstructionView)
    requires
        has_label_names(iv),
    ensures
        is_plain(operands_text(iv)),
{
    assert(is_plain(operand_separator()));
    match iv {
        InstructionView::Jz(l) => {},
        InstructionView::Jnz(l) => {},
        InstructionView::J(l) => {},
        InstructionView::Mov(d, a) => {
            lemma_register_name_plain(d);
            lemma_register_name_plain(a);
            lemma_plain_concat(register_name(d), operand_separator());
            lemma_plain_concat(register_name(d) + operand_separator(), register_name(a));
        },
        InstructionView::Add(d, a, b) | InstructionView::Sub(d, a, b) | InstructionView::And(d, a, b)
        | InstructionView::Or(d, a, b) | InstructionView::Xor(d, a, b) => {
            lemma_register_name_plain(d);
            lemma_register_name_plain(a);
            lemma_register_name_plain(b);
            lemma_plain_concat(register_name(d), operand_separator());
            lemma_plain_concat(register_name(d) + operand_separator(), register_name(a));
            lemma_plain_concat(
                register_name(d) + operand_separator() + register_name(a),
                operand_separator(),
            );
            lemma_plain_concat(
                register_name(d) + operand_separator() + register_name(a) + operand_separator(),
                register_name(b),
            );
        },
        InstructionView::Shl(d, k) | InstructionView::Shr(d, k) | InstructionView::SetReg(d, k) => {
            lemma_register_name_plain(d);
            lemma_decimal_text(k as nat);
            lemma_plain_concat(register_name(d), operand_separator());
            lemma_plain_concat(register_name(d) + operand_separator(), decimal_text(k as nat));
        },
        InstructionView::Zero(d) | InstructionView::Inc(d) | InstructionView::Dec(d)
        | InstructionView::Not(d) => {
            lemma_register_name_plain(d);
        },
    }
}

proof fn lemma_read_two(cs: Seq<char>, m: int, d: Register, a: Register)
    requires
        0 <= m < cs.len(),
        cs[m] == ' ',
        cs.subrange(m + 1, cs.len() as int) == register_name(d) + operand_separator()
            + register_name(a),
    ensures
        instruction_operands(cs, Opcode::Mov, m) == Ok::<(InstructionView, int), int>(
            (InstructionView::Mov(d, a), cs.len() as int),
        ),
{
    let ops = cs.subrange(m + 1, cs.len() as int);
    assert(ops =~= seq!['R', digit(d.id()), ',', ' ', 'R', digit(a.id())]);
    assert(cs[m + 1] == ops[0] && cs[m + 2] == ops[1] && cs[m + 3] == ops[2]);
    assert(cs[m + 4] == ops[3] && cs[m + 5] == ops[4] && cs[m + 6] == ops[5]);
    assert(cs.subrange(m + 1, m + 3) =~= register_name(d));
    assert(cs.subrange(m + 5, m + 7) =~= register_name(a));
    lemma_register_operand(cs, m, d);
    lemma_next_register(cs, m + 3, a);
}

proof fn lemma_read_three(cs: Seq<char>, m: int, op: Opcode, d: Register, a: Register, b: Register)
    requires
        0 <= m < cs.len(),
        cs[m] == ' ',
        cs.subrange(m + 1, cs.len() as int) == three_registers(d, a, b),
        op == Opcode::Add || op == Opcode::Sub || op == Opcode::And || op == Opcode::Or || op
            == Opcode::Xor,
    ensures
        instruction_operands(cs, op, m) == Ok::<(InstructionView, int), int>(
            (
                if op == Opcode::Add {
                    InstructionView::Add(d, a, b)
                } else if op == Opcode::Sub {
                    InstructionView::Sub(d, a, b)
                } else if op == Opcode::And {
                    InstructionView::And(d, a, b)
                } else if op == Opcode::Or {
                    InstructionView::Or(d, a, b)
                } else {
                    InstructionView::Xor(d, a, b)
                },
                cs.len() as int,
            ),
        ),
{
    let ops = cs.subrange(m + 1, cs.len() as int);
    assert(ops =~= seq![
        'R',
        digit(d.id()),
        ',',
        ' ',
        'R',
        digit(a.id()),
        ',',
        ' ',
        'R',
        digit(b.id()),
    ]);
    assert(cs[m + 1] == ops[0] && cs[m + 2] == ops[1] && cs[m + 3] == ops[2]);
    assert(cs[m + 4] == ops[3] && cs[m + 5] == ops[4] && cs[m + 6] == ops[5]);
    assert(cs[m + 7] == ops[6] && cs[m + 8] == ops[7] && cs[m + 9] == ops[8]);
    assert(cs[m + 10] == ops[9]);
    assert(cs.subrange(m + 1, m + 3) =~= register_name(d));
    assert(cs.subrange(m + 5, m + 7) =~= register_name(a));
    assert(cs.subrange(m + 9, m + 11) =~= register_name(b));
    lemma_register_operand(cs, m, d);
    lemma_next_register(cs, m + 3, a);
    lemma_next_register(cs, m + 7, b);
}

proof fn lemma_read_immediate(cs: Seq<char>, m: int, op: Opcode, d: Register, k: u8)
    requires
        0 <= m < cs.len(),
        cs[m] == ' ',
        cs.subrange(m + 1, cs.len() as int) == register_name(d) + operand_separator()
            + decimal_text(k as nat),
        op == Opcode::Shl || op == Opcode::Shr || op == Opcode::SetReg,
    ensures
        instruction_operands(cs, op, m) == Ok::<(InstructionView, int), int>(
            (
                if op == Opcode::Shl {
                    InstructionView::Shl(d, k)
                } else if op == Opcode::Shr {
                    InstructionView::Shr(d, k)
                } else {
                    InstructionView::SetReg(d, k)
                },
                cs.len() as int,
            ),
        ),
{
    let num = decimal_text(k as nat);
    lemma_decimal_text(k as nat);
    let ops = cs.subrange(m + 1, cs.len() as int);
    assert(ops =~= seq!['R', digit(d.id()), ',', ' '] + num);
    assert(cs[m + 1] == ops[0] && cs[m + 2] == ops[1] && cs[m + 3] == ops[2]);
    assert(cs[m + 4] == ops[3]);
    assert(cs.subrange(m + 1, m + 3) =~= register_name(d));
    lemma_register_operand(cs, m, d);
    assert(comma(cs, m + 3) == Ok::<int, int>(m + 4));
    assert forall|j: int| 0 <= j < num.len() implies cs.subrange(m + 5, cs.len() as int)[j]
        == num[j] by {
        assert(ops[4 + j] == num[j]);
    }
    assert(cs.subrange(m + 5, cs.len() as int) =~= num);
    lemma_immediate_operand(cs, m + 4, k);
}

/// The operands of `iv`, written after its mnemonic and a space, read back as
/// `iv` and run to the end of the text.
proof fn lemma_operands_read_back(cs: Seq<char>, m: int, iv: InstructionView)
    requires
        0 <= m < cs.len(),
        cs[m] == ' ',
        cs.subrange(m + 1, cs.len() as int) == operands_text(iv),
        has_label_names(iv),
    ensures
        instruction_operands(cs, opcode_of_instruction(iv), m) == Ok::<
            (InstructionView, int),
            int,
        >((iv, cs.len() as int)),
{
    match iv {
        InstructionView::Jz(l) | InstructionView::Jnz(l) | InstructionView::J(l) => {
            lemma_label_operand(cs, m, l);
        },
        InstructionView::Zero(d) | InstructionView::Inc(d) | InstructionView::Dec(d)
        | InstructionView::Not(d) => {
            let ops = cs.subrange(m + 1, cs.len() as int);
            assert(ops == register_name(d));
            assert(ops.len() == 2);
            assert(cs[m + 1] == ops[0] && cs[m + 2] == ops[1]);
            assert(cs.subrange(m + 1, m + 3) =~= register_name(d));
            lemma_register_operand(cs, m, d);
        },
        InstructionView::Mov(d, a) => lemma_read_two(cs, m, d, a),
        InstructionView::Add(d, a, b) => lemma_read_three(cs, m, Opcode::Add, d, a, b),
        InstructionView::Sub(d, a, b) => lemma_read_three(cs, m, Opcode::Sub, d, a, b),
        InstructionView::And(d, a, b) => lemma_read_three(cs, m, Opcode::And, d, a, b),
        InstructionView::Or(d, a, b) => lemma_read_three(cs, m, Opcode::Or, d, a, b),
        InstructionView::Xor(d, a, b) => lemma_read_three(cs, m, Opcode::Xor, d, a, b),
        InstructionView::Shl(d, k) => lemma_read_immediate(cs, m, Opcode::Shl, d, k),
        InstructionView::Shr(d, k) => lemma_read_immediate(cs, m, Opcode::Shr, d, k),
        InstructionView::SetReg(d, k) => lemma_read_immediate(cs, m, Opcode::SetReg, d, k),
    }
}

/// Writing an instruction as text and reading the text back gives the
/// instruction again: the same operation, registers, immediate and label.
pub proof fn lemma_round_trip(iv: InstructionView)
    requires
        has_label_names(iv),
    ensures
        parse_text(instruction_text(iv)) == Ok::<Seq<LineView>, int>(seq![LineView::Ins(iv)]),
{
    let op = opcode_of_instruction(iv);
    let mn = mnemonic(op);
    let ops = operands_text(iv);
    let cs = instruction_text(iv);
    let m = mn.len() as int;
    lemma_mnemonic(op);
    lemma_operands_plain(iv);
    assert(is_plain(seq![' ']));
    lemma_plain_concat(mn, seq![' ']);
    lemma_plain_concat(mn + seq![' '], ops);
    assert(is_ascii_chars(cs));
    assert(ops.len() > 0) by {
        lemma_decimal_text(0);
        match iv {
            InstructionView::Shl(_, k) | InstructionView::Shr(_, k) | InstructionView::SetReg(_, k) => {
                lemma_decimal_text(k as nat);
            },
            _ => {},
        }
    }
    assert(cs.subrange(0, m) =~= mn);
    assert(cs[m] == ' ');
    assert(cs.subrange(m + 1, cs.len() as int) =~= ops);
    assert(cs[m + 1] == ops[0]);
    assert(is_word_char(cs[m + 1])) by {
        lemma_operands_word_start(iv);
    }
    assert forall|k: int| 0 <= k < m implies is_word_char(#[trigger] cs[k]) by {
        assert(cs[k] == mn[k]);
    }
    lemma_word_end(cs, 0, m);
    assert(skip_space(cs, m + 1) == m + 1);
    assert(skip_space(cs, m) == m + 1);
    lemma_operands_read_back(cs, m, iv);
    assert(parse_statement(cs, 0) == Ok::<(LineView, int), int>(
        (LineView::Ins(iv), cs.len() as int),
    ));
    assert(skip_space(cs, 0) == 0);
    assert(parse_from(cs, cs.len() as int) == Ok::<Seq<LineView>, int>(seq![]));
    assert(seq![LineView::Ins(iv)] + seq![] =~= seq![LineView::Ins(iv)]);
}

/// `register_name(d)` followed by anything starts with `R`.
proof fn lemma_starts_with_register(d: Register, rest: Seq<char>)
    ensures
        (register_name(d) + rest).len() > 0,
        (register_name(d) + rest)[0] == 'R',
{
    assert((register_name(d) + rest)[0] == register_name(d)[0]);
}

/// The operands of an instruction start with a word character.
proof fn lemma_operands_word_start(iv: InstructionView)
    requires
        has_label_names(iv),
    ensures
        operands_text(iv).len() > 0,
        is_word_char(operands_text(iv)[0]),
{
    let sep = operand_separator();
    match iv {
        InstructionView::Mov(d, a) => {
            assert(register_name(d) + sep + register_name(a) =~= register_name(d) + (sep
                + register_name(a)));
            lemma_starts_with_register(d, sep + register_name(a));
        },
        InstructionView::Add(d, a, b) | InstructionView::Sub(d, a, b) | InstructionView::And(d, a, b)
        | InstructionView::Or(d, a, b) | InstructionView::Xor(d, a, b) => {
            let rest = sep + register_name(a) + sep + register_name(b);
            assert(three_registers(d, a, b) =~= register_name(d) + rest);
            lemma_starts_with_register(d, rest);
        },
        InstructionView::Shl(d, k) | InstructionView::Shr(d, k) | InstructionView::SetReg(d, k) => {
            let rest = sep + decimal_text(k as nat);
            assert(register_name(d) + sep + decimal_text(k as nat) =~= register_name(d) + rest);
            lemma_starts_with_register(d, rest);
        },
        _ => {},
    }
}

} // verus!
