use vstd::prelude::*;
use vstd::string::{StrSliceExecFns, StringExecFns};
use vstd::utf8::is_ascii_chars;

use crate::machine::{
    Instruction, InstructionView, Label, LineView, ProgramLine, Register, program_view,
    register_at,
};

verus! {

/// Where in the text a program could not be read, as a character offset.
#[derive(PartialEq, Eq, Structural, Clone, Copy, Debug)]
pub struct ParseError {
    pub position: usize,
}

/// The sixteen operation names of the assembly language.
#[derive(PartialEq, Eq, Structural, Clone, Copy, Debug)]
pub enum Opcode {
    Zero,
    Mov,
    Add,
    Sub,
    Inc,
    Dec,
    And,
    Or,
    Xor,
    Not,
    Shl,
    Shr,
    Jz,
    Jnz,
    J,
    SetReg,
}

/// The mnemonic that names `op` in program text.
pub open spec fn mnemonic(op: Opcode) -> Seq<char> {
    match op {
        Opcode::Zero => seq!['Z', 'E', 'R', 'O'],
        Opcode::Mov => seq!['M', 'O', 'V'],
        Opcode::Add => seq!['A', 'D', 'D'],
        Opcode::Sub => seq!['S', 'U', 'B'],
        Opcode::Inc => seq!['I', 'N', 'C'],
        Opcode::Dec => seq!['D', 'E', 'C'],
        Opcode::And => seq!['A', 'N', 'D'],
        Opcode::Or => seq!['O', 'R'],
        Opcode::Xor => seq!['X', 'O', 'R'],
        Opcode::Not => seq!['N', 'O', 'T'],
        Opcode::Shl => seq!['S', 'H', 'L'],
        Opcode::Shr => seq!['S', 'H', 'R'],
        Opcode::Jz => seq!['J', 'Z'],
        Opcode::Jnz => seq!['J', 'N', 'Z'],
        Opcode::J => seq!['J'],
        Opcode::SetReg => seq!['S', 'E', 'T'],
    }
}

/// The operation that the word `w` names, if any.
pub open spec fn opcode_of(w: Seq<char>) -> Option<Opcode> {
    if w == mnemonic(Opcode::Zero) {
        Some(Opcode::Zero)
    } else if w == mnemonic(Opcode::Mov) {
        Some(Opcode::Mov)
    } else if w == mnemonic(Opcode::Add) {
        Some(Opcode::Add)
    } else if w == mnemonic(Opcode::Sub) {
        Some(Opcode::Sub)
    } else if w == mnemonic(Opcode::Inc) {
        Some(Opcode::Inc)
    } else if w == mnemonic(Opcode::Dec) {
        Some(Opcode::Dec)
    } else if w == mnemonic(Opcode::And) {
        Some(Opcode::And)
    } else if w == mnemonic(Opcode::Or) {
        Some(Opcode::Or)
    } else if w == mnemonic(Opcode::Xor) {
        Some(Opcode::Xor)
    } else if w == mnemonic(Opcode::Not) {
        Some(Opcode::Not)
    } else if w == mnemonic(Opcode::Shl) {
        Some(Opcode::Shl)
    } else if w == mnemonic(Opcode::Shr) {
        Some(Opcode::Shr)
    } else if w == mnemonic(Opcode::Jz) {
        Some(Opcode::Jz)
    } else if w == mnemonic(Opcode::Jnz) {
        Some(Opcode::Jnz)
    } else if w == mnemonic(Opcode::J) {
        Some(Opcode::J)
    } else if w == mnemonic(Opcode::SetReg) {
        Some(Opcode::SetReg)
    } else {
        None
    }
}

/// Characters that separate words.
pub open spec fn is_space(c: char) -> bool {
    c == ' ' || c == '\t' || c == '\n' || c == '\r'
}

/// Characters that make up words: names, mnemonics and numbers.
pub open spec fn is_word_char(c: char) -> bool {
    ('a' <= c && c <= 'z') || ('A' <= c && c <= 'Z') || ('0' <= c && c <= '9') || c == '_'
}

/// Characters that may begin a label name: letters and `_`.
pub open spec fn is_name_start(c: char) -> bool {
    ('a' <= c && c <= 'z') || ('A' <= c && c <= 'Z') || c == '_'
}

/// Decimal digits.
pub open spec fn is_digit(c: char) -> bool {
    '0' <= c && c <= '9'
}

/// The first position at or after `i` that does not hold a space.
pub open spec fn skip_space(cs: Seq<char>, i: int) -> int
    decreases cs.len() - i,
{
    if 0 <= i < cs.len() && is_space(cs[i]) {
        skip_space(cs, i + 1)
    } else {
        i
    }
}

/// The end of the word that starts at `i` (`i` itself where none does).
pub open spec fn word_end(cs: Seq<char>, i: int) -> int
    decreases cs.len() - i,
{
    if 0 <= i < cs.len() && is_word_char(cs[i]) {
        word_end(cs, i + 1)
    } else {
        i
    }
}

/// The register that the word `w` names: `R0` to `R7`.
pub open spec fn register_named(w: Seq<char>) -> Option<Register> {
    if w.len() == 2 && w[0] == 'R' && '0' <= w[1] && w[1] <= '7' {
        Some(register_at(w[1] as int - '0' as int))
    } else {
        None
    }
}

/// The number written in decimal by the digits `w`.
pub open spec fn decimal_value(w: Seq<char>) -> nat
    decreases w.len(),
{
    if w.len() == 0 {
        0
    } else {
        decimal_value(w.drop_last()) * 10 + (w.last() as int - '0' as int) as nat
    }
}

/// The eight-bit number that the word `w` writes in decimal.
pub open spec fn immediate_named(w: Seq<char>) -> Option<u8> {
    if w.len() > 0 && (forall|i: int| 0 <= i < w.len() ==> is_digit(#[trigger] w[i]))
        && decimal_value(w) <= 255 {
        Some(decimal_value(w) as u8)
    } else {
        None
    }
}

/// The word after the spaces from `i`: its start and end; the word is empty
/// where none stands there.
pub open spec fn next_word(cs: Seq<char>, i: int) -> (int, int) {
    let s = skip_space(cs, i);
    (s, word_end(cs, s))
}

/// A register operand after the spaces from `i`, and where it ends; or the
/// position of what stands there instead.
pub open spec fn register_operand(cs: Seq<char>, i: int) -> Result<(Register, int), int> {
    let (s, e) = next_word(cs, i);
    match register_named(cs.subrange(s, e)) {
        Some(r) => Ok((r, e)),
        None => Err(s),
    }
}

/// An immediate operand after the spaces from `i`.
pub open spec fn immediate_operand(cs: Seq<char>, i: int) -> Result<(u8, int), int> {
    let (s, e) = next_word(cs, i);
    match immediate_named(cs.subrange(s, e)) {
        Some(k) => Ok((k, e)),
        None => Err(s),
    }
}

/// A label name after the spaces from `i`: a word that begins with a letter
/// or `_`.
pub open spec fn label_operand(cs: Seq<char>, i: int) -> Result<(Seq<char>, int), int> {
    let (s, e) = next_word(cs, i);
    if s < e && is_name_start(cs[s]) {
        Ok((cs.subrange(s, e), e))
    } else {
        Err(s)
    }
}

/// A comma after the spaces from `i`, and the position after it.
pub open spec fn comma(cs: Seq<char>, i: int) -> Result<int, int> {
    let s = skip_space(cs, i);
    if 0 <= s < cs.len() && cs[s] == ',' {
        Ok(s + 1)
    } else {
        Err(s)
    }
}

/// A register operand after a comma.
pub open spec fn next_register(cs: Seq<char>, i: int) -> Result<(Register, int), int> {
    match comma(cs, i) {
        Ok(c) => register_operand(cs, c),
        Err(p) => Err(p),
    }
}

/// The operands of `op` from `i` on, and the instruction they make with it.
pub open spec fn instruction_operands(cs: Seq<char>, op: Opcode, i: int) -> Result<
    (InstructionView, int),
    int,
> {
    match op {
        Opcode::J | Opcode::Jz | Opcode::Jnz => match label_operand(cs, i) {
            Ok((l, e)) => Ok(
                (
                    if op == Opcode::J {
                        InstructionView::J(l)
                    } else if op == Opcode::Jz {
                        InstructionView::Jz(l)
                    } else {
                        InstructionView::Jnz(l)
                    },
                    e,
                ),
            ),
            Err(p) => Err(p),
        },
        _ => match register_operand(cs, i) {
            Err(p) => Err(p),
            Ok((d, e)) => match op {
                Opcode::Zero => Ok((InstructionView::Zero(d), e)),
                Opcode::Inc => Ok((InstructionView::Inc(d), e)),
                Opcode::Dec => Ok((InstructionView::Dec(d), e)),
                Opcode::Not => Ok((InstructionView::Not(d), e)),
                Opcode::Mov => match next_register(cs, e) {
                    Ok((a, e2)) => Ok((InstructionView::Mov(d, a), e2)),
                    Err(p) => Err(p),
                },
                Opcode::Shl | Opcode::Shr | Opcode::SetReg => match comma(cs, e) {
                    Err(p) => Err(p),
                    Ok(c) => match immediate_operand(cs, c) {
                        Err(p) => Err(p),
                        Ok((k, e2)) => Ok(
                            (
                                if op == Opcode::Shl {
                                    InstructionView::Shl(d, k)
                                } else if op == Opcode::Shr {
                                    InstructionView::Shr(d, k)
                                } else {
                                    InstructionView::SetReg(d, k)
                                },
                                e2,
                            ),
                        ),
                    },
                },
                _ => match next_register(cs, e) {
                    Err(p) => Err(p),
                    Ok((a, e2)) => match next_register(cs, e2) {
                        Err(p) => Err(p),
                        Ok((b, e3)) => Ok(
                            (
                                if op == Opcode::Add {
                                    InstructionView::Add(d, a, b)
                                } else if op == Opcode::Sub {
                                    InstructionView::Sub(d, a, b)
                                } else if op == Opcode::And {
                                    InstructionView::And(d, a, b)
                                } else if op == Opcode::Or {
                                    InstructionView::Or(d, a, b)
                                } else {
                                    InstructionView::Xor(d, a, b)
                                },
                                e3,
                            ),
                        ),
                    },
                },
            },
        },
    }
}

/// The statement that starts at `j`, a word: a label declaration (a name
/// that begins with a letter or `_`, and a colon) or an instruction (a mnemonic and its operands); and where it
/// ends.
pub open spec fn parse_statement(cs: Seq<char>, j: int) -> Result<(LineView, int), int> {
    let e = word_end(cs, j);
    let w = cs.subrange(j, e);
    let c = skip_space(cs, e);
    if e == j {
        Err(j)
    } else if 0 <= c < cs.len() && cs[c] == ':' {
        if is_name_start(cs[j]) {
            Ok((LineView::Lbl(w), c + 1))
        } else {
            Err(j)
        }
    } else {
        match opcode_of(w) {
            None => Err(j),
            Some(op) => match instruction_operands(cs, op, e) {
                Ok((ins, k)) => Ok((LineView::Ins(ins), k)),
                Err(p) => Err(p),
            },
        }
    }
}

/// The statements of `cs` from `i` on, in order; or the position of the
/// first thing that is not one.
pub open spec fn parse_from(cs: Seq<char>, i: int) -> Result<Seq<LineView>, int>
    decreases cs.len() - i,
{
    let j = skip_space(cs, i);
    if j < 0 || j >= cs.len() {
        Ok(seq![])
    } else {
        match parse_statement(cs, j) {
            Err(p) => Err(p),
            Ok((line, k)) => if k <= i || k > cs.len() {
                Err(j)
            } else {
                match parse_from(cs, k) {
                    Ok(rest) => Ok(seq![line] + rest),
                    Err(p) => Err(p),
                }
            },
        }
    }
}

/// The first position at or after `i` that holds a character outside ASCII.
pub open spec fn first_non_ascii(cs: Seq<char>, i: int) -> int
    decreases cs.len() - i,
{
    if i < 0 || i >= cs.len() || cs[i] > '\x7f' {
        i
    } else {
        first_non_ascii(cs, i + 1)
    }
}

/// The program that the text `cs` writes: its statements in order; or the
/// position where it goes wrong. The language is written in ASCII.
pub open spec fn parse_text(cs: Seq<char>) -> Result<Seq<LineView>, int> {
    if is_ascii_chars(cs) {
        parse_from(cs, 0)
    } else {
        Err(first_non_ascii(cs, 0))
    }
}

/// `prefix` followed by the lines of `rest`, or the error of `rest`.
pub open spec fn after(prefix: Seq<LineView>, rest: Result<Seq<LineView>, int>) -> Result<
    Seq<LineView>,
    int,
> {
    match rest {
        Ok(r) => Ok(prefix + r),
        Err(p) => Err(p),
    }
}

fn is_space_char(c: char) -> (r: bool)
    ensures
        r == is_space(c),
{
    c == ' ' || c == '\t' || c == '\n' || c == '\r'
}

fn is_name_start_char(c: char) -> (r: bool)
    ensures
        r == is_name_start(c),
{
    ('a' <= c && c <= 'z') || ('A' <= c && c <= 'Z') || c == '_'
}

fn is_word_character(c: char) -> (r: bool)
    ensures
        r == is_word_char(c),
{
    ('a' <= c && c <= 'z') || ('A' <= c && c <= 'Z') || ('0' <= c && c <= '9') || c == '_'
}

fn skip_spaces(cs: &Vec<char>, i: usize) -> (r: usize)
    requires
        i <= cs@.len(),
    ensures
        r == skip_space(cs@, i as int),
        i <= r <= cs@.len(),
{
    let mut k = i;
    while k < cs.len() && is_space_char(cs[k])
        invariant
            i <= k <= cs@.len(),
            skip_space(cs@, i as int) == skip_space(cs@, k as int),
        decreases cs@.len() - k,
    {
        k = k + 1;
    }
    k
}

fn find_word_end(cs: &Vec<char>, i: usize) -> (r: usize)
    requires
        i <= cs@.len(),
    ensures
        r == word_end(cs@, i as int),
        i <= r <= cs@.len(),
{
    let mut k = i;
    while k < cs.len() && is_word_character(cs[k])
        invariant
            i <= k <= cs@.len(),
            word_end(cs@, i as int) == word_end(cs@, k as int),
        decreases cs@.len() - k,
    {
        k = k + 1;
    }
    k
}


/// Whether the characters of `cs` from `s` to `e` are those of `lit`.
fn word_is(cs: &Vec<char>, s: usize, e: usize, lit: &Vec<char>) -> (r: bool)
    requires
        s <= e <= cs@.len(),
    ensures
        r == (cs@.subrange(s as int, e as int) == lit@),
{
    if e - s != lit.len() {
        return false;
    }
    let mut k: usize = 0;
    while k < lit.len()
        invariant
            e - s == lit@.len(),
            s <= e <= cs@.len(),
            k <= lit@.len(),
            forall|m: int| 0 <= m < k ==> cs@[s + m] == lit@[m],
        decreases lit@.len() - k,
    {
        if cs[s + k] != lit[k] {
            assert(cs@.subrange(s as int, e as int)[k as int] != lit@[k as int]);
            return false;
        }
        k = k + 1;
    }
    assert(cs@.subrange(s as int, e as int) =~= lit@);
    true
}

/// The characters of the mnemonic of `op`.
fn mnemonic_chars(op: Opcode) -> (r: Vec<char>)
    ensures
        r@ == mnemonic(op),
{
    let r = match op {
        Opcode::Zero => vec!['Z', 'E', 'R', 'O'],
        Opcode::Mov => vec!['M', 'O', 'V'],
        Opcode::Add => vec!['A', 'D', 'D'],
        Opcode::Sub => vec!['S', 'U', 'B'],
        Opcode::Inc => vec!['I', 'N', 'C'],
        Opcode::Dec => vec!['D', 'E', 'C'],
        Opcode::And => vec!['A', 'N', 'D'],
        Opcode::Or => vec!['O', 'R'],
        Opcode::Xor => vec!['X', 'O', 'R'],
        Opcode::Not => vec!['N', 'O', 'T'],
        Opcode::Shl => vec!['S', 'H', 'L'],
        Opcode::Shr => vec!['S', 'H', 'R'],
        Opcode::Jz => vec!['J', 'Z'],
        Opcode::Jnz => vec!['J', 'N', 'Z'],
        Opcode::J => vec!['J'],
        Opcode::SetReg => vec!['S', 'E', 'T'],
    };
    assert(r@ =~= mnemonic(op));
    r
}

/// The operation named by the word of `cs` from `s` to `e`.
fn read_opcode(cs: &Vec<char>, s: usize, e: usize) -> (r: Option<Opcode>)
    requires
        s <= e <= cs@.len(),
    ensures
        r == opcode_of(cs@.subrange(s as int, e as int)),
{
    if word_is(cs, s, e, &mnemonic_chars(Opcode::Zero)) {
        Some(Opcode::Zero)
    } else if word_is(cs, s, e, &mnemonic_chars(Opcode::Mov)) {
        Some(Opcode::Mov)
    } else if word_is(cs, s, e, &mnemonic_chars(Opcode::Add)) {
        Some(Opcode::Add)
    } else if word_is(cs, s, e, &mnemonic_chars(Opcode::Sub)) {
        Some(Opcode::Sub)
    } else if word_is(cs, s, e, &mnemonic_chars(Opcode::Inc)) {
        Some(Opcode::Inc)
    } else if word_is(cs, s, e, &mnemonic_chars(Opcode::Dec)) {
        Some(Opcode::Dec)
    } else if word_is(cs, s, e, &mnemonic_chars(Opcode::And)) {
        Some(Opcode::And)
    } else if word_is(cs, s, e, &mnemonic_chars(Opcode::Or)) {
        Some(Opcode::Or)
    } else if word_is(cs, s, e, &mnemonic_chars(Opcode::Xor)) {
        Some(Opcode::Xor)
    } else if word_is(cs, s, e, &mnemonic_chars(Opcode::Not)) {
        Some(Opcode::Not)
    } else if word_is(cs, s, e, &mnemonic_chars(Opcode::Shl)) {
        Some(Opcode::Shl)
    } else if word_is(cs, s, e, &mnemonic_chars(Opcode::Shr)) {
        Some(Opcode::Shr)
    } else if word_is(cs, s, e, &mnemonic_chars(Opcode::Jz)) {
        Some(Opcode::Jz)
    } else if word_is(cs, s, e, &mnemonic_chars(Opcode::Jnz)) {
        Some(Opcode::Jnz)
    } else if word_is(cs, s, e, &mnemonic_chars(Opcode::J)) {
        Some(Opcode::J)
    } else if word_is(cs, s, e, &mnemonic_chars(Opcode::SetReg)) {
        Some(Opcode::SetReg)
    } else {
        None
    }
}

/// The register named by the word of `cs` from `s` to `e`.
fn read_register(cs: &Vec<char>, s: usize, e: usize) -> (r: Option<Register>)
    requires
        s <= e <= cs@.len(),
    ensures
        r == register_named(cs@.subrange(s as int, e as int)),
{
    let ghost w = cs@.subrange(s as int, e as int);
    if e - s != 2 || cs[s] != 'R' {
        return None;
    }
    assert(w[0] == cs@[s as int] && w[1] == cs@[s + 1]);
    match cs[s + 1] {
        '0' => Some(Register::R0),
        '1' => Some(Register::R1),
        '2' => Some(Register::R2),
        '3' => Some(Register::R3),
        '4' => Some(Register::R4),
        '5' => Some(Register::R5),
        '6' => Some(Register::R6),
        '7' => Some(Register::R7),
        _ => None,
    }
}

/// The number written by the word of `cs` from `s` to `e`.
fn read_immediate(cs: &Vec<char>, s: usize, e: usize) -> (r: Option<u8>)
    requires
        s <= e <= cs@.len(),
    ensures
        r == immediate_named(cs@.subrange(s as int, e as int)),
{
    let ghost w = cs@.subrange(s as int, e as int);
    if s == e {
        return None;
    }
    let mut value: u32 = 0;
    let mut k = s;
    while k < e
        invariant
            s <= k <= e <= cs@.len(),
            w == cs@.subrange(s as int, e as int),
            forall|m: int| 0 <= m < k - s ==> is_digit(#[trigger] w[m]),
            value as int == if decimal_value(cs@.subrange(s as int, k as int)) <= 256 {
                decimal_value(cs@.subrange(s as int, k as int)) as int
            } else {
                256
            },
        decreases e - k,
    {
        let c = cs[k];
        if !('0' <= c && c <= '9') {
            assert(!is_digit(w[k - s]));
            return None;
        }
        let ghost prev = cs@.subrange(s as int, k as int);
        let ghost next = cs@.subrange(s as int, k + 1);
        assert(next.drop_last() =~= prev);
        assert(next.last() == c);
        let d = (c as u32) - ('0' as u32);
        assert(decimal_value(next) == decimal_value(prev) * 10 + d);
        let ghost vp = decimal_value(prev) as int;
        let ghost vn = decimal_value(next) as int;
        let nv = value * 10 + d;
        assert((if vn <= 256 { vn } else { 256 }) == (if nv > 256 { 256 } else { nv as int }))
            by (nonlinear_arith)
            requires
                vn == vp * 10 + d,
                vp >= 0,
                value as int == if vp <= 256 { vp } else { 256 },
                nv == value * 10 + d,
        {
        }
        value = if nv > 256 {
            256
        } else {
            nv
        };
        k = k + 1;
    }
    assert(cs@.subrange(s as int, k as int) == w);
    if value > 255 {
        None
    } else {
        Some(value as u8)
    }
}

fn register_operand_at(cs: &Vec<char>, i: usize) -> (r: Result<(Register, usize), usize>)
    requires
        i <= cs@.len(),
    ensures
        match r {
            Ok((x, e)) => register_operand(cs@, i as int) == Ok::<(Register, int), int>(
                (x, e as int),
            ) && i <= e <= cs@.len(),
            Err(p) => register_operand(cs@, i as int) == Err::<(Register, int), int>(p as int),
        },
{
    let s = skip_spaces(cs, i);
    let e = find_word_end(cs, s);
    match read_register(cs, s, e) {
        Some(x) => Ok((x, e)),
        None => Err(s),
    }
}

fn immediate_operand_at(cs: &Vec<char>, i: usize) -> (r: Result<(u8, usize), usize>)
    requires
        i <= cs@.len(),
    ensures
        match r {
            Ok((k, e)) => immediate_operand(cs@, i as int) == Ok::<(u8, int), int>((k, e as int))
                && i <= e <= cs@.len(),
            Err(p) => immediate_operand(cs@, i as int) == Err::<(u8, int), int>(p as int),
        },
{
    let s = skip_spaces(cs, i);
    let e = find_word_end(cs, s);
    match read_immediate(cs, s, e) {
        Some(k) => Ok((k, e)),
        None => Err(s),
    }
}

fn label_operand_at(text: &str, cs: &Vec<char>, i: usize) -> (r: Result<(Label, usize), usize>)
    requires
        i <= cs@.len(),
        text.is_ascii(),
        text@ == cs@,
    ensures
        match r {
            Ok((l, e)) => label_operand(cs@, i as int) == Ok::<(Seq<char>, int), int>(
                (l@, e as int),
            ) && i <= e <= cs@.len(),
            Err(p) => label_operand(cs@, i as int) == Err::<(Seq<char>, int), int>(p as int),
        },
{
    let s = skip_spaces(cs, i);
    let e = find_word_end(cs, s);
    if s < e && is_name_start_char(cs[s]) {
        let name = String::from_str(text.substring_ascii(s, e));
        Ok((Label(name), e))
    } else {
        Err(s)
    }
}

fn comma_at(cs: &Vec<char>, i: usize) -> (r: Result<usize, usize>)
    requires
        i <= cs@.len(),
    ensures
        match r {
            Ok(e) => comma(cs@, i as int) == Ok::<int, int>(e as int) && i < e <= cs@.len(),
            Err(p) => comma(cs@, i as int) == Err::<int, int>(p as int),
        },
{
    let s = skip_spaces(cs, i);
    if s < cs.len() && cs[s] == ',' {
        Ok(s + 1)
    } else {
        Err(s)
    }
}

fn next_register_at(cs: &Vec<char>, i: usize) -> (r: Result<(Register, usize), usize>)
    requires
        i <= cs@.len(),
    ensures
        match r {
            Ok((x, e)) => next_register(cs@, i as int) == Ok::<(Register, int), int>(
                (x, e as int),
            ) && i <= e <= cs@.len(),
            Err(p) => next_register(cs@, i as int) == Err::<(Register, int), int>(p as int),
        },
{
    match comma_at(cs, i) {
        Ok(c) => register_operand_at(cs, c),
        Err(p) => Err(p),
    }
}

/// Reads the operands of `op` from `i` on; see `instruction_operands`.
fn read_operands(text: &str, cs: &Vec<char>, op: Opcode, i: usize) -> (r: Result<
    (Instruction, usize),
    usize,
>)
    requires
        i <= cs@.len(),
        text.is_ascii(),
        text@ == cs@,
    ensures
        match r {
            Ok((ins, e)) => instruction_operands(cs@, op, i as int) == Ok::<
                (InstructionView, int),
                int,
            >((ins@, e as int)) && i <= e <= cs@.len(),
            Err(p) => instruction_operands(cs@, op, i as int) == Err::<(InstructionView, int), int>(
                p as int,
            ),
        },
{
    match op {
        Opcode::J | Opcode::Jz | Opcode::Jnz => {
            let (l, e) = match label_operand_at(text, cs, i) {
                Ok(x) => x,
                Err(p) => return Err(p),
            };
            let ins = match op {
                Opcode::J => Instruction::J(l),
                Opcode::Jz => Instruction::Jz(l),
                _ => Instruction::Jnz(l),
            };
            return Ok((ins, e));
        },
        _ => {},
    }
    let (d, e) = match register_operand_at(cs, i) {
        Ok(x) => x,
        Err(p) => return Err(p),
    };
    match op {
        Opcode::Zero => Ok((Instruction::Zero(d), e)),
        Opcode::Inc => Ok((Instruction::Inc(d), e)),
        Opcode::Dec => Ok((Instruction::Dec(d), e)),
        Opcode::Not => Ok((Instruction::Not(d), e)),
        Opcode::Mov => match next_register_at(cs, e) {
            Ok((a, e2)) => Ok((Instruction::Mov(d, a), e2)),
            Err(p) => Err(p),
        },
        Opcode::Shl | Opcode::Shr | Opcode::SetReg => {
            let c = match comma_at(cs, e) {
                Ok(c) => c,
                Err(p) => return Err(p),
            };
            let (k, e2) = match immediate_operand_at(cs, c) {
                Ok(x) => x,
                Err(p) => return Err(p),
            };
            let ins = match op {
                Opcode::Shl => Instruction::Shl(d, k),
                Opcode::Shr => Instruction::Shr(d, k),
                _ => Instruction::SetReg(d, k),
            };
            Ok((ins, e2))
        },
        _ => {
            let (a, e2) = match next_register_at(cs, e) {
                Ok(x) => x,
                Err(p) => return Err(p),
            };
            let (b, e3) = match next_register_at(cs, e2) {
                Ok(x) => x,
                Err(p) => return Err(p),
            };
            let ins = match op {
                Opcode::Add => Instruction::Add(d, a, b),
                Opcode::Sub => Instruction::Sub(d, a, b),
                Opcode::And => Instruction::And(d, a, b),
                Opcode::Or => Instruction::Or(d, a, b),
                _ => Instruction::Xor(d, a, b),
            };
            Ok((ins, e3))
        },
    }
}

/// Reads the statement that starts at `j`; see `parse_statement`.
fn read_statement(text: &str, cs: &Vec<char>, j: usize) -> (r: Result<(ProgramLine, usize), usize>)
    requires
        j <= cs@.len(),
        text.is_ascii(),
        text@ == cs@,
    ensures
        match r {
            Ok((line, k)) => parse_statement(cs@, j as int) == Ok::<(LineView, int), int>(
                (line@, k as int),
            ),
            Err(p) => parse_statement(cs@, j as int) == Err::<(LineView, int), int>(p as int),
        },
{
    let e = find_word_end(cs, j);
    let c = skip_spaces(cs, e);
    if e == j {
        return Err(j);
    }
    if c < cs.len() && cs[c] == ':' {
        if !is_name_start_char(cs[j]) {
            return Err(j);
        }
        let name = String::from_str(text.substring_ascii(j, e));
        return Ok((ProgramLine::Lbl(Label(name)), c + 1));
    }
    match read_opcode(cs, j, e) {
        None => Err(j),
        Some(op) => match read_operands(text, cs, op, e) {
            Ok((ins, k)) => Ok((ProgramLine::Ins(ins), k)),
            Err(p) => Err(p),
        },
    }
}

/// The position of the first character of `text` outside ASCII.
fn first_non_ascii_position(text: &str) -> (r: usize)
    ensures
        r == first_non_ascii(text@, 0),
{
    let n = text.unicode_len();
    let mut i: usize = 0;
    while i < n
        invariant
            n == text@.len(),
            i <= n,
            first_non_ascii(text@, 0) == first_non_ascii(text@, i as int),
        decreases n - i,
    {
        if text.get_char(i) > '\x7f' {
            return i;
        }
        i = i + 1;
    }
    i
}

/// The characters of the ASCII text `text`.
fn ascii_chars(text: &str) -> (r: Vec<char>)
    requires
        text.is_ascii(),
    ensures
        r@ == text@,
{
    let n = text.unicode_len();
    let mut out: Vec<char> = Vec::new();
    let mut i: usize = 0;
    while i < n
        invariant
            n == text@.len(),
            i <= n,
            text.is_ascii(),
            out@ == text@.subrange(0, i as int),
        decreases n - i,
    {
        let b = text.get_ascii(i);
        assert(is_ascii_chars(text@));
        assert(text@[i as int] == (b as char));
        out.push(b as char);
        i = i + 1;
    }
    assert(out@ =~= text@);
    out
}

/// Reads a program from its text: its label declarations and instructions,
/// in the order in which they stand; see `parse_text`.
pub fn parse_program(text: &str) -> (r: Result<Vec<ProgramLine>, ParseError>)
    ensures
        match r {
            Ok(lines) => parse_text(text@) == Ok::<Seq<LineView>, int>(program_view(lines@)),
            Err(e) => parse_text(text@) == Err::<Seq<LineView>, int>(e.position as int),
        },
{
    if !text.is_ascii() {
        return Err(ParseError { position: first_non_ascii_position(text) });
    }
    let cs = ascii_chars(text);
    let n = cs.len();
    let mut out: Vec<ProgramLine> = Vec::new();
    let mut i: usize = 0;
    while i < n
        invariant
            n == cs@.len(),
            i <= n,
            text.is_ascii(),
            text@ == cs@,
            parse_text(text@) == after(program_view(out@), parse_from(cs@, i as int)),
        decreases n - i,
    {
        let j = skip_spaces(&cs, i);
        if j >= n {
            assert(parse_from(cs@, i as int) == Ok::<Seq<LineView>, int>(seq![]));
            assert(program_view(out@) + seq![] =~= program_view(out@));
            return Ok(out);
        }
        match read_statement(text, &cs, j) {
            Err(p) => {
                return Err(ParseError { position: p });
            },
            Ok((line, k)) => {
                if k <= i || k > n {
                    return Err(ParseError { position: j });
                }
                let ghost before = out@;
                out.push(line);
                assert(program_view(out@) =~= program_view(before) + seq![line@]);
                proof {
                    if let Ok(rest) = parse_from(cs@, k as int) {
                        assert(program_view(before) + (seq![line@] + rest) =~= program_view(out@)
                            + rest);
                    }
                }
                i = k;
            },
        }
    }
    assert(parse_from(cs@, i as int) == Ok::<Seq<LineView>, int>(seq![]));
    assert(program_view(out@) + seq![] =~= program_view(out@));
    Ok(out)
}

} // verus!
