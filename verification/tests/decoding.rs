use fake_assembly::error::ExecError;
use fake_assembly::instruction::{
    decode, get_register_no, opcode_named, opcode_of, register_operand, shift_operand, BinaryOp,
    Instruction, JumpOp, Opcode, ShiftOp, UnaryOp,
};

fn invalid_register(token: &str) -> ExecError {
    ExecError::InvalidRegister { token: token.to_string() }
}

fn malformed(line: &str) -> ExecError {
    ExecError::MalformedInstruction { line: line.to_string() }
}

fn unknown(mnemonic: &str) -> ExecError {
    ExecError::UnknownInstruction { mnemonic: mnemonic.to_string() }
}

#[test]
fn register_numbers() {
    for n in 0..8usize {
        assert_eq!(get_register_no(&format!("R{}", n), 1), Ok(n));
    }
}

#[test]
fn register_number_past_the_last_register() {
    assert_eq!(get_register_no("R8", 1), Err(invalid_register("R8")));
    assert_eq!(get_register_no("R9", 1), Err(invalid_register("R9")));
}

#[test]
fn register_number_needs_a_digit_at_the_index() {
    assert_eq!(get_register_no("RX", 1), Err(invalid_register("RX")));
    assert_eq!(get_register_no("R", 1), Err(invalid_register("R")));
    assert_eq!(get_register_no("", 1), Err(invalid_register("")));
    assert_eq!(get_register_no("", 0), Err(invalid_register("")));
    assert_eq!(get_register_no("R10", 1), Err(invalid_register("R10")));
    assert_eq!(get_register_no("R1 ", 1), Err(invalid_register("R1 ")));
    assert_eq!(get_register_no("R\u{663}", 1), Err(invalid_register("R\u{663}")));
}

#[test]
fn register_number_at_another_index() {
    assert_eq!(get_register_no("5", 0), Ok(5));
    assert_eq!(get_register_no("AB5", 2), Ok(5));
    assert_eq!(get_register_no("#@5", 2), Ok(5));
    assert_eq!(get_register_no("R5", 2), Err(invalid_register("R5")));
    assert_eq!(get_register_no("R5", 0), Err(invalid_register("R5")));
    assert_eq!(get_register_no("R5", usize::MAX), Err(invalid_register("R5")));
}

#[test]
fn register_number_needs_one_byte_for_each_character() {
    assert_eq!(get_register_no("\u{e9}0", 1), Err(invalid_register("\u{e9}0")));
    assert_eq!(get_register_no("\u{e9}0", 2), Err(invalid_register("\u{e9}0")));
    assert_eq!(get_register_no("\u{e9}\u{e9}7", 2), Err(invalid_register("\u{e9}\u{e9}7")));
    assert_eq!(get_register_no("\u{e9}\u{e9}7", 4), Err(invalid_register("\u{e9}\u{e9}7")));
    assert_eq!(get_register_no("R\u{ff10}", 1), Err(invalid_register("R\u{ff10}")));
}

#[test]
fn register_operands() {
    assert_eq!(register_operand("R0"), Ok(0));
    assert_eq!(register_operand("R7"), Ok(7));
    assert_eq!(register_operand("r3"), Ok(3));
    assert_eq!(register_operand("R8"), Err(invalid_register("R8")));
    assert_eq!(register_operand("X0"), Err(invalid_register("X0")));
    assert_eq!(register_operand("0"), Err(invalid_register("0")));
    assert_eq!(register_operand("00"), Err(invalid_register("00")));
    assert_eq!(register_operand(""), Err(invalid_register("")));
    assert_eq!(register_operand("R"), Err(invalid_register("R")));
    assert_eq!(register_operand("R01"), Err(invalid_register("R01")));
}

#[test]
fn shift_operands() {
    for n in 0..10u32 {
        assert_eq!(shift_operand(&n.to_string()), Ok(n));
    }
    let bad = |token: &str| ExecError::InvalidShiftAmount { token: token.to_string() };
    assert_eq!(shift_operand(""), Err(bad("")));
    assert_eq!(shift_operand("12"), Err(bad("12")));
    assert_eq!(shift_operand("x"), Err(bad("x")));
    assert_eq!(shift_operand("-1"), Err(bad("-1")));
    assert_eq!(shift_operand("R1"), Err(bad("R1")));
}

#[test]
fn every_mnemonic_has_its_opcode() {
    assert_eq!(opcode_of("ZERO"), Some(Opcode::Zero));
    assert_eq!(opcode_of("MOV"), Some(Opcode::Mov));
    assert_eq!(opcode_of("ADD"), Some(Opcode::Binary(BinaryOp::Add)));
    assert_eq!(opcode_of("SUB"), Some(Opcode::Binary(BinaryOp::Sub)));
    assert_eq!(opcode_of("AND"), Some(Opcode::Binary(BinaryOp::And)));
    assert_eq!(opcode_of("OR"), Some(Opcode::Binary(BinaryOp::Or)));
    assert_eq!(opcode_of("XOR"), Some(Opcode::Binary(BinaryOp::Xor)));
    assert_eq!(opcode_of("NOT"), Some(Opcode::Unary(UnaryOp::Not)));
    assert_eq!(opcode_of("INC"), Some(Opcode::Unary(UnaryOp::Inc)));
    assert_eq!(opcode_of("DEC"), Some(Opcode::Unary(UnaryOp::Dec)));
    assert_eq!(opcode_of("SHL"), Some(Opcode::Shift(ShiftOp::Shl)));
    assert_eq!(opcode_of("SHR"), Some(Opcode::Shift(ShiftOp::Shr)));
    assert_eq!(opcode_of("J"), Some(Opcode::Jump(JumpOp::J)));
    assert_eq!(opcode_of("JZ"), Some(Opcode::Jump(JumpOp::Jz)));
    assert_eq!(opcode_of("JNZ"), Some(Opcode::Jump(JumpOp::Jnz)));
}

#[test]
fn mnemonics_in_any_case() {
    assert_eq!(opcode_of("zero"), Some(Opcode::Zero));
    assert_eq!(opcode_of("Mov"), Some(Opcode::Mov));
    assert_eq!(opcode_of("xOr"), Some(Opcode::Binary(BinaryOp::Xor)));
    assert_eq!(opcode_of("jnz"), Some(Opcode::Jump(JumpOp::Jnz)));
}

#[test]
fn names_that_are_no_mnemonic() {
    assert_eq!(opcode_of(""), None);
    assert_eq!(opcode_of("ZER"), None);
    assert_eq!(opcode_of("ZEROS"), None);
    assert_eq!(opcode_of("HALT"), None);
    assert_eq!(opcode_of(" INC"), None);
    assert_eq!(opcode_of("JN"), None);
    assert_eq!(opcode_of("\u{e9}"), None);
}

#[test]
fn mnemonics_by_their_upper_case_form() {
    assert_eq!(opcode_of("inc"), Some(Opcode::Unary(UnaryOp::Inc)));
    assert_eq!(opcode_of("\u{131}nc"), Some(Opcode::Unary(UnaryOp::Inc)));
    assert_eq!(opcode_of("\u{17f}ub"), Some(Opcode::Binary(BinaryOp::Sub)));
    assert_eq!(opcode_of("\u{17f}hl"), Some(Opcode::Shift(ShiftOp::Shl)));
    assert_eq!(opcode_of("\u{df}"), None);
}

#[test]
fn opcodes_by_name_letter_for_letter() {
    assert_eq!(opcode_named("ZERO"), Some(Opcode::Zero));
    assert_eq!(opcode_named("MOV"), Some(Opcode::Mov));
    assert_eq!(opcode_named("ADD"), Some(Opcode::Binary(BinaryOp::Add)));
    assert_eq!(opcode_named("SUB"), Some(Opcode::Binary(BinaryOp::Sub)));
    assert_eq!(opcode_named("AND"), Some(Opcode::Binary(BinaryOp::And)));
    assert_eq!(opcode_named("OR"), Some(Opcode::Binary(BinaryOp::Or)));
    assert_eq!(opcode_named("XOR"), Some(Opcode::Binary(BinaryOp::Xor)));
    assert_eq!(opcode_named("NOT"), Some(Opcode::Unary(UnaryOp::Not)));
    assert_eq!(opcode_named("INC"), Some(Opcode::Unary(UnaryOp::Inc)));
    assert_eq!(opcode_named("DEC"), Some(Opcode::Unary(UnaryOp::Dec)));
    assert_eq!(opcode_named("SHL"), Some(Opcode::Shift(ShiftOp::Shl)));
    assert_eq!(opcode_named("SHR"), Some(Opcode::Shift(ShiftOp::Shr)));
    assert_eq!(opcode_named("J"), Some(Opcode::Jump(JumpOp::J)));
    assert_eq!(opcode_named("JZ"), Some(Opcode::Jump(JumpOp::Jz)));
    assert_eq!(opcode_named("JNZ"), Some(Opcode::Jump(JumpOp::Jnz)));
    assert_eq!(opcode_named("inc"), None);
    assert_eq!(opcode_named("Inc"), None);
    assert_eq!(opcode_named(""), None);
    assert_eq!(opcode_named("INCR"), None);
}

#[test]
fn operand_counts() {
    assert_eq!(Opcode::Zero.operand_count(), 1);
    assert_eq!(Opcode::Mov.operand_count(), 2);
    assert_eq!(Opcode::Binary(BinaryOp::And).operand_count(), 3);
    assert_eq!(Opcode::Unary(UnaryOp::Not).operand_count(), 1);
    assert_eq!(Opcode::Shift(ShiftOp::Shr).operand_count(), 2);
    assert_eq!(Opcode::Jump(JumpOp::J).operand_count(), 1);
}

#[test]
fn decodes_register_instructions() {
    assert_eq!(decode("ZERO R3"), Ok(Instruction::Zero { dst: 3 }));
    assert_eq!(decode("MOV R1, R2"), Ok(Instruction::Mov { dst: 1, src: 2 }));
    assert_eq!(
        decode("ADD R0, R1, R2"),
        Ok(Instruction::Binary { op: BinaryOp::Add, dst: 0, a: 1, b: 2 })
    );
    assert_eq!(
        decode("SUB R7, R6, R5"),
        Ok(Instruction::Binary { op: BinaryOp::Sub, dst: 7, a: 6, b: 5 })
    );
    assert_eq!(
        decode("AND R1, R1, R1"),
        Ok(Instruction::Binary { op: BinaryOp::And, dst: 1, a: 1, b: 1 })
    );
    assert_eq!(
        decode("OR R2, R3, R4"),
        Ok(Instruction::Binary { op: BinaryOp::Or, dst: 2, a: 3, b: 4 })
    );
    assert_eq!(
        decode("XOR R4, R3, R2"),
        Ok(Instruction::Binary { op: BinaryOp::Xor, dst: 4, a: 3, b: 2 })
    );
    assert_eq!(decode("NOT R5"), Ok(Instruction::Unary { op: UnaryOp::Not, dst: 5 }));
    assert_eq!(decode("INC R6"), Ok(Instruction::Unary { op: UnaryOp::Inc, dst: 6 }));
    assert_eq!(decode("DEC R7"), Ok(Instruction::Unary { op: UnaryOp::Dec, dst: 7 }));
}

#[test]
fn decodes_shifts() {
    assert_eq!(decode("SHL R1, 3"), Ok(Instruction::Shift { op: ShiftOp::Shl, dst: 1, amount: 3 }));
    assert_eq!(decode("SHR R2, 9"), Ok(Instruction::Shift { op: ShiftOp::Shr, dst: 2, amount: 9 }));
    assert_eq!(decode("SHL R0,0"), Ok(Instruction::Shift { op: ShiftOp::Shl, dst: 0, amount: 0 }));
}

#[test]
fn decodes_jumps() {
    let jump = |op, label: &str| Ok(Instruction::Jump { op, label: label.to_string() });
    assert_eq!(decode("J end"), jump(JumpOp::J, "end"));
    assert_eq!(decode("JZ loop"), jump(JumpOp::Jz, "loop"));
    assert_eq!(decode("JNZ loop"), jump(JumpOp::Jnz, "loop"));
    assert_eq!(decode("J   my label  , other"), jump(JumpOp::J, "my label"));
    assert_eq!(decode("J "), jump(JumpOp::J, ""));
}

#[test]
fn decodes_in_any_case_and_spacing() {
    assert_eq!(decode("zero r3"), Ok(Instruction::Zero { dst: 3 }));
    assert_eq!(decode("mOv   R1 ,\tR2  "), Ok(Instruction::Mov { dst: 1, src: 2 }));
    assert_eq!(
        decode("add R0,R1,R2"),
        Ok(Instruction::Binary { op: BinaryOp::Add, dst: 0, a: 1, b: 2 })
    );
}

#[test]
fn operands_past_those_taken_are_not_read() {
    assert_eq!(decode("ZERO R0, junk"), Ok(Instruction::Zero { dst: 0 }));
    assert_eq!(decode("MOV R0, R1, R9, R9"), Ok(Instruction::Mov { dst: 0, src: 1 }));
    assert_eq!(decode("INC R1,"), Ok(Instruction::Unary { op: UnaryOp::Inc, dst: 1 }));
}

#[test]
fn unknown_mnemonic_fails() {
    assert_eq!(decode("FOO R0"), Err(unknown("FOO")));
    assert_eq!(decode("foo R0, R1"), Err(unknown("foo")));
    assert_eq!(decode("HALT"), Err(unknown("HALT")));
    assert_eq!(decode(""), Err(unknown("")));
    assert_eq!(decode(" INC R0"), Err(unknown("")));
    assert_eq!(decode("INC\tR0"), Err(unknown("INC\tR0")));
    assert_eq!(decode("loop: INC R0"), Err(unknown("loop:")));
}

#[test]
fn instruction_without_operands_is_malformed() {
    for line in ["ZERO", "MOV", "ADD", "NOT", "SHL", "J", "JZ", "jnz"] {
        assert_eq!(decode(line), Err(malformed(line)));
    }
}

#[test]
fn instruction_with_too_few_operands_is_malformed() {
    assert_eq!(decode("MOV R0"), Err(malformed("MOV R0")));
    assert_eq!(decode("ADD R0, R1"), Err(malformed("ADD R0, R1")));
    assert_eq!(decode("XOR R0"), Err(malformed("XOR R0")));
    assert_eq!(decode("SHL R0"), Err(malformed("SHL R0")));
    assert_eq!(decode("MOV X, "), Err(invalid_register("X")));
    assert_eq!(decode("MOV X"), Err(malformed("MOV X")));
}

#[test]
fn operand_that_names_no_register_fails() {
    assert_eq!(decode("ZERO R8"), Err(invalid_register("R8")));
    assert_eq!(decode("ZERO "), Err(invalid_register("")));
    assert_eq!(decode("INC X1"), Err(invalid_register("X1")));
    assert_eq!(decode("MOV R0, 5"), Err(invalid_register("5")));
    assert_eq!(decode("MOV R0, R1 R2"), Err(invalid_register("R1 R2")));
    assert_eq!(decode("ADD R0, R1, "), Err(invalid_register("")));
    assert_eq!(decode("SHL 3, 3"), Err(invalid_register("3")));
}

#[test]
fn first_bad_operand_is_the_failure() {
    assert_eq!(decode("ADD R9, R8, RX"), Err(invalid_register("R9")));
    assert_eq!(decode("ADD R0, R8, RX"), Err(invalid_register("R8")));
    assert_eq!(decode("ADD R0, R1, RX"), Err(invalid_register("RX")));
    assert_eq!(decode("SHL R9, 77"), Err(invalid_register("R9")));
}

#[test]
fn bad_shift_amount_fails() {
    let bad = |token: &str| Err(ExecError::InvalidShiftAmount { token: token.to_string() });
    assert_eq!(decode("SHL R0, 12"), bad("12"));
    assert_eq!(decode("SHR R0, x"), bad("x"));
    assert_eq!(decode("SHR R0, "), bad(""));
    assert_eq!(decode("SHL R0, R1"), bad("R1"));
}

#[test]
fn addition_and_subtraction_wrap() {
    assert_eq!(BinaryOp::Add.apply(2, 3), 5);
    assert_eq!(BinaryOp::Add.apply(-2, 1), -1);
    assert_eq!(BinaryOp::Add.apply(i32::MAX, 1), i32::MIN);
    assert_eq!(BinaryOp::Add.apply(i32::MIN, -1), i32::MAX);
    assert_eq!(BinaryOp::Add.apply(i32::MIN, i32::MIN), 0);
    assert_eq!(BinaryOp::Sub.apply(2, 3), -1);
    assert_eq!(BinaryOp::Sub.apply(i32::MIN, 1), i32::MAX);
    assert_eq!(BinaryOp::Sub.apply(i32::MAX, -1), i32::MIN);
    assert_eq!(BinaryOp::Sub.apply(0, i32::MIN), i32::MIN);
}

#[test]
fn bitwise_operations() {
    assert_eq!(BinaryOp::And.apply(0b1100, 0b1010), 0b1000);
    assert_eq!(BinaryOp::Or.apply(0b1100, 0b1010), 0b1110);
    assert_eq!(BinaryOp::Xor.apply(0b1100, 0b1010), 0b0110);
    assert_eq!(BinaryOp::And.apply(-1, 12345), 12345);
    assert_eq!(BinaryOp::Or.apply(-8, 7), -1);
    assert_eq!(BinaryOp::Xor.apply(-1, -1), 0);
    assert_eq!(UnaryOp::Not.apply(0), -1);
    assert_eq!(UnaryOp::Not.apply(-1), 0);
    assert_eq!(UnaryOp::Not.apply(5), -6);
}

#[test]
fn increment_and_decrement_wrap() {
    assert_eq!(UnaryOp::Inc.apply(0), 1);
    assert_eq!(UnaryOp::Inc.apply(-1), 0);
    assert_eq!(UnaryOp::Inc.apply(i32::MAX), i32::MIN);
    assert_eq!(UnaryOp::Dec.apply(0), -1);
    assert_eq!(UnaryOp::Dec.apply(1), 0);
    assert_eq!(UnaryOp::Dec.apply(i32::MIN), i32::MAX);
}

#[test]
fn shifts_of_values() {
    assert_eq!(ShiftOp::Shl.apply(1, 0), 1);
    assert_eq!(ShiftOp::Shl.apply(1, 9), 512);
    assert_eq!(ShiftOp::Shl.apply(3, 2), 12);
    assert_eq!(ShiftOp::Shl.apply(-1, 1), -2);
    assert_eq!(ShiftOp::Shl.apply(0x4000_0000, 1), i32::MIN);
    assert_eq!(ShiftOp::Shl.apply(i32::MIN, 1), 0);
    assert_eq!(ShiftOp::Shr.apply(512, 9), 1);
    assert_eq!(ShiftOp::Shr.apply(7, 1), 3);
    assert_eq!(ShiftOp::Shr.apply(-8, 1), -4);
    assert_eq!(ShiftOp::Shr.apply(-1, 9), -1);
    assert_eq!(ShiftOp::Shr.apply(i32::MIN, 9), -4194304);
}

#[test]
fn when_jumps_are_taken() {
    assert!(JumpOp::J.is_taken(true));
    assert!(JumpOp::J.is_taken(false));
    assert!(JumpOp::Jz.is_taken(false));
    assert!(!JumpOp::Jz.is_taken(true));
    assert!(JumpOp::Jnz.is_taken(true));
    assert!(!JumpOp::Jnz.is_taken(false));
}
