use asm_virtual_machine::machine::{Instruction, Machine, ProgramError, ProgramLine, Register};
use asm_virtual_machine::parser::{ParseError, parse_program};

fn run_to_end(m: &mut Machine) -> (usize, ProgramError) {
    let mut steps = 0;
    loop {
        match m.step() {
            Ok(()) => steps += 1,
            Err(e) => return (steps, e),
        }
        assert!(steps < 10_000);
    }
}

fn only_instruction(text: &str) -> Instruction {
    let lines = parse_program(text).unwrap();
    assert_eq!(lines.len(), 1);
    match &lines[0] {
        ProgramLine::Ins(i) => i.clone(),
        ProgramLine::Lbl(_) => panic!("expected an instruction"),
    }
}

#[test]
fn countdown_loop_runs_five_decrements() {
    let lines = parse_program("SET R0, 5\nLOOP:\nDEC R0\nJNZ LOOP").unwrap();
    assert_eq!(lines.len(), 4);
    let mut m = Machine::new();
    m.init_program(lines);
    let mut decrements = 0;
    loop {
        let before = m.get_current_instruction();
        match m.step() {
            Ok(()) => {
                if before == "At instruction: DEC R0" {
                    decrements += 1;
                }
            }
            Err(e) => {
                assert_eq!(e, ProgramError::EndOfProgram);
                break;
            }
        }
    }
    assert_eq!(decrements, 5);
    assert_eq!(m.get_register(Register::R0), 0);
}

#[test]
fn inc_of_255_wraps_to_zero() {
    let mut m = Machine::new();
    m.init_program(parse_program("SET R0, 255\nINC R0").unwrap());
    m.step().unwrap();
    assert_eq!(m.get_register(Register::R0), 255);
    m.step().unwrap();
    assert_eq!(m.get_register(Register::R0), 0);
    assert!(m.get_flag());
}

#[test]
fn round_trip_every_form() {
    let texts = [
        "ZERO R0", "MOV R1, R2", "ADD R3, R4, R5", "SUB R6, R7, R0", "INC R1", "DEC R2",
        "AND R3, R3, R4", "OR R5, R6, R7", "XOR R0, R0, R0", "NOT R7", "SHL R2, 3", "SHR R4, 255",
        "JZ END", "JNZ LOOP_2", "J start", "SET R0, 0", "SET R5, 42", "SET R6, 100",
    ];
    for text in texts {
        let i = only_instruction(text);
        assert_eq!(i.to_text(), text);
        let again = only_instruction(&i.to_text());
        assert_eq!(again.to_text(), text);
    }
}

#[test]
fn parse_reads_every_form() {
    assert!(matches!(
        only_instruction("ADD R1, R2, R3"),
        Instruction::Add(Register::R1, Register::R2, Register::R3)
    ));
    assert!(matches!(only_instruction("SET R7, 200"), Instruction::SetReg(Register::R7, 200)));
    assert!(matches!(only_instruction("SHR R0, 7"), Instruction::Shr(Register::R0, 7)));
    assert!(matches!(only_instruction("MOV R4, R5"), Instruction::Mov(Register::R4, Register::R5)));
    match only_instruction("JNZ LOOP") {
        Instruction::Jnz(l) => assert_eq!(l.0, "LOOP"),
        _ => panic!("expected JNZ"),
    }
}

#[test]
fn parse_keeps_labels_and_order() {
    let lines = parse_program("  A:\n\tB :  INC R0 J A\r\nC:").unwrap();
    assert_eq!(lines.len(), 5);
    assert!(matches!(&lines[0], ProgramLine::Lbl(l) if l.0 == "A"));
    assert!(matches!(&lines[1], ProgramLine::Lbl(l) if l.0 == "B"));
    assert!(matches!(&lines[2], ProgramLine::Ins(Instruction::Inc(Register::R0))));
    assert!(matches!(&lines[3], ProgramLine::Ins(Instruction::J(l)) if l.0 == "A"));
    assert!(matches!(&lines[4], ProgramLine::Lbl(l) if l.0 == "C"));
}

#[test]
fn parse_empty_text() {
    assert_eq!(parse_program("").unwrap().len(), 0);
    assert_eq!(parse_program(" \n\t ").unwrap().len(), 0);
}

#[test]
fn parse_accepts_undefined_label() {
    let lines = parse_program("J MISSING").unwrap();
    let mut m = Machine::new();
    m.init_program(lines);
    assert_eq!(m.step(), Err(ProgramError::MissingLabel));
}

#[test]
fn parse_errors_carry_position() {
    assert_eq!(parse_program("FOO R0").unwrap_err(), ParseError { position: 0 });
    assert_eq!(parse_program("INC R8").unwrap_err(), ParseError { position: 4 });
    assert_eq!(parse_program("inc R0").unwrap_err(), ParseError { position: 0 });
    assert_eq!(parse_program("INC r0").unwrap_err(), ParseError { position: 4 });
    assert_eq!(parse_program("SET R0, 256").unwrap_err(), ParseError { position: 8 });
    assert_eq!(parse_program("SET R0 5").unwrap_err(), ParseError { position: 7 });
    assert_eq!(parse_program("ADD R0, R1").unwrap_err(), ParseError { position: 10 });
    assert_eq!(parse_program("INC R0\n, R1").unwrap_err(), ParseError { position: 7 });
    assert_eq!(parse_program("J").unwrap_err(), ParseError { position: 1 });
    assert_eq!(parse_program("SHL R1, x").unwrap_err(), ParseError { position: 8 });
    assert_eq!(parse_program("INC R0 é").unwrap_err(), ParseError { position: 7 });
}

#[test]
fn parse_immediates_with_leading_zeros() {
    assert!(matches!(only_instruction("SET R1, 007"), Instruction::SetReg(Register::R1, 7)));
    assert!(matches!(only_instruction("SET R1, 0255"), Instruction::SetReg(Register::R1, 255)));
    assert!(parse_program("SET R1, 99999999999").is_err());
}

#[test]
fn parsed_program_runs() {
    let text = "SET R1, 6\nSET R2, 7\nZERO R0\nMUL:\nADD R0, R0, R1\nDEC R2\nJNZ MUL";
    let mut m = Machine::new();
    m.init_program(parse_program(text).unwrap());
    let (_, e) = run_to_end(&mut m);
    assert_eq!(e, ProgramError::EndOfProgram);
    assert_eq!(m.get_register(Register::R0), 42);
}

#[test]
fn label_names_begin_with_letter_or_underscore() {
    assert_eq!(parse_program("9:").unwrap_err(), ParseError { position: 0 });
    assert_eq!(parse_program("J 9").unwrap_err(), ParseError { position: 2 });
    assert_eq!(parse_program("JZ 1abc").unwrap_err(), ParseError { position: 3 });
    let lines = parse_program("_start:\nJ _start\nL2:").unwrap();
    assert_eq!(lines.len(), 3);
    assert!(matches!(&lines[0], ProgramLine::Lbl(l) if l.0 == "_start"));
    assert!(matches!(&lines[1], ProgramLine::Ins(Instruction::J(l)) if l.0 == "_start"));
    assert!(matches!(&lines[2], ProgramLine::Lbl(l) if l.0 == "L2"));
}
