use asm_virtual_machine::machine::{Instruction, Label, Machine, ProgramError, ProgramLine, Register};

fn ins(i: Instruction) -> ProgramLine {
    ProgramLine::Ins(i)
}

fn lbl(name: &str) -> ProgramLine {
    ProgramLine::Lbl(Label(name.to_string()))
}

fn label(name: &str) -> Label {
    Label(name.to_string())
}

fn run_to_end(m: &mut Machine) -> (usize, ProgramError) {
    let mut steps = 0;
    loop {
        match m.step() {
            Ok(()) => steps += 1,
            Err(e) => return (steps, e),
        }
        assert!(steps < 10_000);
    }
}

#[test]
fn new_machine_is_zeroed() {
    let m = Machine::new();
    for (r, v) in m.register_snapshot() {
        assert_eq!(v, 0, "{:?}", r);
    }
    assert!(!m.get_flag());
    assert_eq!(m.get_index(), 0);
}

#[test]
fn set_then_read_keeps_flag() {
    let mut m = Machine::new();
    m.init_program(vec![
        ins(Instruction::Xor(Register::R1, Register::R1, Register::R1)),
        ins(Instruction::SetReg(Register::R3, 77)),
    ]);
    m.step().unwrap();
    assert!(m.get_flag());
    m.step().unwrap();
    assert_eq!(m.get_register(Register::R3), 77);
    assert!(m.get_flag());
}

#[test]
fn add_and_sub_wrap_modulo_256() {
    let mut m = Machine::new();
    m.set_register(Register::R1, 200);
    m.set_register(Register::R2, 100);
    m.init_program(vec![
        ins(Instruction::Add(Register::R0, Register::R1, Register::R2)),
        ins(Instruction::Sub(Register::R3, Register::R2, Register::R1)),
        ins(Instruction::Sub(Register::R4, Register::R1, Register::R1)),
    ]);
    m.step().unwrap();
    assert_eq!(m.get_register(Register::R0), 44);
    assert!(!m.get_flag());
    m.step().unwrap();
    assert_eq!(m.get_register(Register::R3), 156);
    assert!(!m.get_flag());
    m.step().unwrap();
    assert_eq!(m.get_register(Register::R4), 0);
    assert!(m.get_flag());
}

#[test]
fn add_to_exactly_256_sets_flag() {
    let mut m = Machine::new();
    m.set_register(Register::R1, 128);
    m.init_program(vec![ins(Instruction::Add(Register::R2, Register::R1, Register::R1))]);
    m.step().unwrap();
    assert_eq!(m.get_register(Register::R2), 0);
    assert!(m.get_flag());
}

#[test]
fn inc_and_dec_wrap_at_the_ends() {
    let mut m = Machine::new();
    m.set_register(Register::R0, 255);
    m.init_program(vec![
        ins(Instruction::Inc(Register::R0)),
        ins(Instruction::Dec(Register::R0)),
        ins(Instruction::Inc(Register::R5)),
    ]);
    m.step().unwrap();
    assert_eq!(m.get_register(Register::R0), 0);
    assert!(m.get_flag());
    m.step().unwrap();
    assert_eq!(m.get_register(Register::R0), 255);
    assert!(!m.get_flag());
    m.step().unwrap();
    assert_eq!(m.get_register(Register::R5), 1);
}

#[test]
fn inc_matches_add_of_one() {
    let mut a = Machine::new();
    let mut b = Machine::new();
    for m in [&mut a, &mut b] {
        m.set_register(Register::R0, 41);
        m.set_register(Register::R7, 1);
    }
    a.init_program(vec![ins(Instruction::Inc(Register::R0))]);
    b.init_program(vec![ins(Instruction::Add(Register::R0, Register::R0, Register::R7))]);
    a.step().unwrap();
    b.step().unwrap();
    assert_eq!(a.register_snapshot(), b.register_snapshot());
    assert_eq!(a.get_flag(), b.get_flag());
    assert_eq!(a.get_register(Register::R0), 42);
}

#[test]
fn not_twice_restores_value() {
    let mut m = Machine::new();
    m.set_register(Register::R2, 0b1010_0110);
    m.init_program(vec![ins(Instruction::Not(Register::R2)), ins(Instruction::Not(Register::R2))]);
    m.step().unwrap();
    assert_eq!(m.get_register(Register::R2), 0b0101_1001);
    m.step().unwrap();
    assert_eq!(m.get_register(Register::R2), 0b1010_0110);
}

#[test]
fn not_of_255_sets_flag() {
    let mut m = Machine::new();
    m.set_register(Register::R2, 255);
    m.init_program(vec![ins(Instruction::Not(Register::R2))]);
    m.step().unwrap();
    assert_eq!(m.get_register(Register::R2), 0);
    assert!(m.get_flag());
}

#[test]
fn logic_with_same_operand() {
    let mut m = Machine::new();
    m.set_register(Register::R1, 0x5a);
    m.init_program(vec![
        ins(Instruction::And(Register::R2, Register::R1, Register::R1)),
        ins(Instruction::Or(Register::R3, Register::R1, Register::R1)),
        ins(Instruction::Xor(Register::R4, Register::R1, Register::R1)),
    ]);
    m.step().unwrap();
    assert_eq!(m.get_register(Register::R2), 0x5a);
    m.step().unwrap();
    assert_eq!(m.get_register(Register::R3), 0x5a);
    assert!(!m.get_flag());
    m.step().unwrap();
    assert_eq!(m.get_register(Register::R4), 0);
    assert!(m.get_flag());
}

#[test]
fn bitwise_results() {
    let mut m = Machine::new();
    m.set_register(Register::R1, 0b1100);
    m.set_register(Register::R2, 0b1010);
    m.init_program(vec![
        ins(Instruction::And(Register::R3, Register::R1, Register::R2)),
        ins(Instruction::Or(Register::R4, Register::R1, Register::R2)),
        ins(Instruction::Xor(Register::R5, Register::R1, Register::R2)),
    ]);
    run_to_end(&mut m);
    assert_eq!(m.get_register(Register::R3), 0b1000);
    assert_eq!(m.get_register(Register::R4), 0b1110);
    assert_eq!(m.get_register(Register::R5), 0b0110);
}

#[test]
fn shifts_drop_bits_past_the_width() {
    let mut m = Machine::new();
    m.set_register(Register::R0, 3);
    m.set_register(Register::R1, 200);
    m.set_register(Register::R2, 200);
    m.set_register(Register::R3, 200);
    m.init_program(vec![
        ins(Instruction::Shl(Register::R0, 7)),
        ins(Instruction::Shr(Register::R1, 3)),
        ins(Instruction::Shl(Register::R2, 8)),
        ins(Instruction::Shr(Register::R3, 200)),
    ]);
    m.step().unwrap();
    assert_eq!(m.get_register(Register::R0), 128);
    assert!(!m.get_flag());
    m.step().unwrap();
    assert_eq!(m.get_register(Register::R1), 25);
    m.step().unwrap();
    assert_eq!(m.get_register(Register::R2), 0);
    assert!(m.get_flag());
    m.step().unwrap();
    assert_eq!(m.get_register(Register::R3), 0);
}

#[test]
fn zero_and_mov_leave_flag() {
    let mut m = Machine::new();
    m.set_register(Register::R1, 9);
    m.init_program(vec![
        ins(Instruction::Xor(Register::R7, Register::R7, Register::R7)),
        ins(Instruction::Mov(Register::R2, Register::R1)),
        ins(Instruction::Zero(Register::R1)),
    ]);
    run_to_end(&mut m);
    assert_eq!(m.get_register(Register::R2), 9);
    assert_eq!(m.get_register(Register::R1), 0);
    assert!(m.get_flag());
}

#[test]
fn jump_resumes_after_stacked_labels() {
    let mut m = Machine::new();
    m.init_program(vec![
        ins(Instruction::J(label("L"))),
        ins(Instruction::SetReg(Register::R0, 1)),
        lbl("L"),
        lbl("M"),
        lbl("N"),
        ins(Instruction::SetReg(Register::R1, 2)),
    ]);
    m.step().unwrap();
    assert_eq!(m.get_index(), 2);
    m.step().unwrap();
    m.step().unwrap();
    m.step().unwrap();
    assert_eq!(m.get_index(), 5);
    assert_eq!(m.get_current_instruction(), "At instruction: SET R1, 2");
    assert_eq!(run_to_end(&mut m), (1, ProgramError::EndOfProgram));
    assert_eq!(m.get_register(Register::R0), 0);
    assert_eq!(m.get_register(Register::R1), 2);
}

#[test]
fn jump_goes_to_first_of_duplicate_labels() {
    let mut m = Machine::new();
    m.init_program(vec![lbl("A"), ins(Instruction::J(label("B"))), lbl("B"), lbl("B")]);
    m.step().unwrap();
    m.step().unwrap();
    assert_eq!(m.get_index(), 2);
}

#[test]
fn conditional_jumps_follow_flag() {
    let mut m = Machine::new();
    m.init_program(vec![
        ins(Instruction::Jz(label("END"))),
        ins(Instruction::Xor(Register::R0, Register::R0, Register::R0)),
        ins(Instruction::Jnz(label("END"))),
        ins(Instruction::Jz(label("END"))),
        ins(Instruction::SetReg(Register::R1, 1)),
        lbl("END"),
    ]);
    m.step().unwrap();
    assert_eq!(m.get_index(), 1);
    assert!(!m.get_flag());
    m.step().unwrap();
    assert!(m.get_flag());
    m.step().unwrap();
    assert_eq!(m.get_index(), 3);
    assert!(m.get_flag());
    m.step().unwrap();
    assert_eq!(m.get_index(), 5);
    assert!(m.get_flag());
    assert_eq!(m.get_register(Register::R1), 0);
}

#[test]
fn step_past_end_changes_nothing() {
    let mut m = Machine::new();
    m.set_register(Register::R6, 12);
    m.init_program(vec![]);
    assert_eq!(m.step(), Err(ProgramError::EndOfProgram));
    assert_eq!(m.get_index(), 0);
    assert_eq!(m.get_register(Register::R6), 12);
    assert_eq!(m.get_current_instruction(), "End of program");
}

#[test]
fn missing_label_keeps_pointer() {
    let mut m = Machine::new();
    m.init_program(vec![ins(Instruction::Inc(Register::R0)), ins(Instruction::J(label("NOWHERE")))]);
    m.step().unwrap();
    assert_eq!(m.step(), Err(ProgramError::MissingLabel));
    assert_eq!(m.get_index(), 1);
    assert_eq!(m.step(), Err(ProgramError::MissingLabel));
    assert_eq!(m.get_index(), 1);
    assert_eq!(m.get_register(Register::R0), 1);
}

#[test]
fn untaken_jump_to_missing_label_is_fine() {
    let mut m = Machine::new();
    m.init_program(vec![ins(Instruction::Jz(label("NOWHERE")))]);
    assert_eq!(m.step(), Ok(()));
    assert_eq!(m.step(), Err(ProgramError::EndOfProgram));
}

#[test]
fn reload_keeps_registers_and_resets_pointer() {
    let mut m = Machine::new();
    m.init_program(vec![ins(Instruction::SetReg(Register::R0, 3))]);
    m.step().unwrap();
    m.init_program(vec![ins(Instruction::Inc(Register::R0))]);
    assert_eq!(m.get_index(), 0);
    m.step().unwrap();
    assert_eq!(m.get_register(Register::R0), 4);
    m.reset();
    assert_eq!(m.get_register(Register::R0), 0);
    assert!(!m.get_flag());
    assert_eq!(m.get_index(), 1);
}

#[test]
fn register_text_lists_all_registers() {
    let mut m = Machine::new();
    m.set_register(Register::R0, 5);
    m.set_register(Register::R7, 255);
    m.set_register(Register::R3, 10);
    let expected = "Register: R0 = 5\nRegister: R1 = 0\nRegister: R2 = 0\nRegister: R3 = 10\n\
                    Register: R4 = 0\nRegister: R5 = 0\nRegister: R6 = 0\nRegister: R7 = 255\n";
    assert_eq!(m.get_string_registers(), expected);
}

#[test]
fn current_line_descriptions() {
    let mut m = Machine::new();
    m.init_program(vec![lbl("LOOP"), ins(Instruction::Add(Register::R0, Register::R1, Register::R2))]);
    assert_eq!(m.get_current_instruction(), "At label: Label(\"LOOP\")");
    m.step().unwrap();
    assert_eq!(m.get_current_instruction(), "At instruction: ADD R0, R1, R2");
}
