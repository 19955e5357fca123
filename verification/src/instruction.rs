//! The instruction set, and decoding: from the text of an instruction to what
//! the machine is to do.
//!
//! An instruction is a mnemonic, then a space, then its operands with commas
//! between them. White space around an operand counts for nothing. A mnemonic
//! is known by its upper-case form, so the case of its letters does not
//! matter. Operands beyond those that the instruction takes are not looked
//! at.

use vstd::prelude::*;
use vstd::string::*;
use crate::error::{ExecError, ExecErrorView};
use crate::text::{
    char_digit,
    chars_spell,
    digit_value,
    find,
    find_char,
    pieces,
    split,
    split_ranges,
    to_chars,
    trim,
    trim_range,
};
use vstd::utf8::encode_utf8;

verus! {

/// The number of registers.
pub const REGISTERS: usize = 8;

/// The instructions of three registers: `dst` becomes `a` combined with `b`.
#[derive(Debug, Clone, Copy, PartialEq, Eq)]
pub enum BinaryOp {
    Add,
    Sub,
    And,
    Or,
    Xor,
}

/// The instructions of one register: `dst` becomes a function of itself.
#[derive(Debug, Clone, Copy, PartialEq, Eq)]
pub enum UnaryOp {
    Not,
    Inc,
    Dec,
}

/// The shifts of a register by a number of bits.
#[derive(Debug, Clone, Copy, PartialEq, Eq)]
pub enum ShiftOp {
    Shl,
    Shr,
}

/// The jumps. Their names are their mnemonics; when each is taken is for
/// [`JumpOp::taken`] to say, and it is not what the names suggest.
#[derive(Debug, Clone, Copy, PartialEq, Eq)]
pub enum JumpOp {
    J,
    Jz,
    Jnz,
}

/// What a mnemonic names.
#[derive(Debug, Clone, Copy, PartialEq, Eq)]
pub enum Opcode {
    Zero,
    Mov,
    Binary(BinaryOp),
    Unary(UnaryOp),
    Shift(ShiftOp),
    Jump(JumpOp),
}

/// A decoded instruction. Registers are given by their numbers.
#[derive(Debug, Clone, PartialEq, Eq)]
pub enum Instruction {
    /// `ZERO dst`
    Zero { dst: usize },
    /// `MOV dst, src`
    Mov { dst: usize, src: usize },
    /// `ADD`, `SUB`, `AND`, `OR`, `XOR`, each with `dst, a, b`
    Binary { op: BinaryOp, dst: usize, a: usize, b: usize },
    /// `NOT`, `INC`, `DEC`, each with `dst`
    Unary { op: UnaryOp, dst: usize },
    /// `SHL`, `SHR`, each with `dst, amount`
    Shift { op: ShiftOp, dst: usize, amount: u32 },
    /// `J`, `JZ`, `JNZ`, each with `label`
    Jump { op: JumpOp, label: String },
}

/// An [`Instruction`] with its label as a sequence of characters.
pub enum InstructionView {
    Zero { dst: usize },
    Mov { dst: usize, src: usize },
    Binary { op: BinaryOp, dst: usize, a: usize, b: usize },
    Unary { op: UnaryOp, dst: usize },
    Shift { op: ShiftOp, dst: usize, amount: u32 },
    Jump { op: JumpOp, label: Seq<char> },
}

impl View for Instruction {
    type V = InstructionView;

    open spec fn view(&self) -> InstructionView {
        match self {
            Instruction::Zero { dst } => InstructionView::Zero { dst: *dst },
            Instruction::Mov { dst, src } => InstructionView::Mov { dst: *dst, src: *src },
            Instruction::Binary { op, dst, a, b } => InstructionView::Binary {
                op: *op,
                dst: *dst,
                a: *a,
                b: *b,
            },
            Instruction::Unary { op, dst } => InstructionView::Unary { op: *op, dst: *dst },
            Instruction::Shift { op, dst, amount } => InstructionView::Shift {
                op: *op,
                dst: *dst,
                amount: *amount,
            },
            Instruction::Jump { op, label } => InstructionView::Jump { op: *op, label: label@ },
        }
    }
}

impl InstructionView {
    /// Every register of the instruction is one of the machine's, and a shift
    /// is by one decimal digit.
    pub open spec fn wf(self) -> bool {
        match self {
            InstructionView::Zero { dst } => dst < REGISTERS,
            InstructionView::Mov { dst, src } => dst < REGISTERS && src < REGISTERS,
            InstructionView::Binary { op, dst, a, b } => dst < REGISTERS && a < REGISTERS && b
                < REGISTERS,
            InstructionView::Unary { op, dst } => dst < REGISTERS,
            InstructionView::Shift { op, dst, amount } => dst < REGISTERS && amount < 10,
            InstructionView::Jump { op, label } => true,
        }
    }
}

impl Opcode {
    /// The number of operands that the instruction takes.
    pub open spec fn arity(self) -> nat {
        match self {
            Opcode::Zero => 1,
            Opcode::Mov => 2,
            Opcode::Binary(_) => 3,
            Opcode::Unary(_) => 1,
            Opcode::Shift(_) => 2,
            Opcode::Jump(_) => 1,
        }
    }

    /// The number of operands that the instruction takes.
    pub fn operand_count(&self) -> (n: usize)
        ensures
            n == self.arity(),
    {
        match self {
            Opcode::Zero => 1,
            Opcode::Mov => 2,
            Opcode::Binary(_) => 3,
            Opcode::Unary(_) => 1,
            Opcode::Shift(_) => 2,
            Opcode::Jump(_) => 1,
        }
    }
}

/// `n` as a register holds it: brought into 32 bits by adding or taking away
/// 2^32 once. This is `n` itself where it fits, and the two's complement
/// wrap-around for the sum or the difference of two register values.
pub open spec fn wrap(n: int) -> i32 {
    if n > i32::MAX {
        (n - 0x1_0000_0000) as i32
    } else if n < i32::MIN {
        (n + 0x1_0000_0000) as i32
    } else {
        n as i32
    }
}

impl BinaryOp {
    /// What the destination register becomes, from the values `a` and `b` of
    /// the two source registers.
    pub open spec fn result(self, a: i32, b: i32) -> i32 {
        match self {
            BinaryOp::Add => wrap(a + b),
            BinaryOp::Sub => wrap(a - b),
            BinaryOp::And => a & b,
            BinaryOp::Or => a | b,
            BinaryOp::Xor => a ^ b,
        }
    }

    /// Computes what the destination register becomes.
    pub fn apply(&self, a: i32, b: i32) -> (r: i32)
        ensures
            r == self.result(a, b),
    {
        match self {
            BinaryOp::Add => a.wrapping_add(b),
            BinaryOp::Sub => a.wrapping_sub(b),
            BinaryOp::And => a & b,
            BinaryOp::Or => a | b,
            BinaryOp::Xor => a ^ b,
        }
    }
}

impl UnaryOp {
    /// What the register becomes, from its value `x`.
    pub open spec fn result(self, x: i32) -> i32 {
        match self {
            UnaryOp::Not => !x,
            UnaryOp::Inc => wrap(x + 1),
            UnaryOp::Dec => wrap(x - 1),
        }
    }

    /// Computes what the register becomes.
    pub fn apply(&self, x: i32) -> (r: i32)
        ensures
            r == self.result(x),
    {
        match self {
            UnaryOp::Not => !x,
            UnaryOp::Inc => x.wrapping_add(1),
            UnaryOp::Dec => x.wrapping_sub(1),
        }
    }
}

impl ShiftOp {
    /// What the register becomes, from its value `x`. A shift to the left
    /// drops the bits that leave the register; a shift to the right keeps
    /// the sign.
    pub open spec fn result(self, x: i32, amount: u32) -> i32 {
        match self {
            ShiftOp::Shl => x << amount,
            ShiftOp::Shr => x >> amount,
        }
    }

    /// Computes what the register becomes.
    pub fn apply(&self, x: i32, amount: u32) -> (r: i32)
        requires
            amount < 32,
        ensures
            r == self.result(x, amount),
    {
        match self {
            ShiftOp::Shl => x << amount,
            ShiftOp::Shr => x >> amount,
        }
    }
}

impl JumpOp {
    /// Whether the jump is taken when the zero flag is `zero_flag`: `J`
    /// always, `JZ` when the flag is clear, `JNZ` when it is set.
    pub open spec fn taken(self, zero_flag: bool) -> bool {
        match self {
            JumpOp::J => true,
            JumpOp::Jz => !zero_flag,
            JumpOp::Jnz => zero_flag,
        }
    }

    /// Whether the jump is taken.
    pub fn is_taken(&self, zero_flag: bool) -> (r: bool)
        ensures
            r == self.taken(zero_flag),
    {
        match self {
            JumpOp::J => true,
            JumpOp::Jz => !zero_flag,
            JumpOp::Jnz => zero_flag,
        }
    }
}

/// The upper-case form of `text`: what `str::to_uppercase` returns for it.
pub uninterp spec fn uppercase(text: Seq<char>) -> Seq<char>;

/// The instruction whose mnemonic is `name`, letter for letter.
pub open spec fn named_opcode(name: Seq<char>) -> Option<Opcode> {
    if name == "ZERO"@ {
        Some(Opcode::Zero)
    } else if name == "MOV"@ {
        Some(Opcode::Mov)
    } else if name == "ADD"@ {
        Some(Opcode::Binary(BinaryOp::Add))
    } else if name == "SUB"@ {
        Some(Opcode::Binary(BinaryOp::Sub))
    } else if name == "AND"@ {
        Some(Opcode::Binary(BinaryOp::And))
    } else if name == "OR"@ {
        Some(Opcode::Binary(BinaryOp::Or))
    } else if name == "XOR"@ {
        Some(Opcode::Binary(BinaryOp::Xor))
    } else if name == "NOT"@ {
        Some(Opcode::Unary(UnaryOp::Not))
    } else if name == "INC"@ {
        Some(Opcode::Unary(UnaryOp::Inc))
    } else if name == "DEC"@ {
        Some(Opcode::Unary(UnaryOp::Dec))
    } else if name == "SHL"@ {
        Some(Opcode::Shift(ShiftOp::Shl))
    } else if name == "SHR"@ {
        Some(Opcode::Shift(ShiftOp::Shr))
    } else if name == "J"@ {
        Some(Opcode::Jump(JumpOp::J))
    } else if name == "JZ"@ {
        Some(Opcode::Jump(JumpOp::Jz))
    } else if name == "JNZ"@ {
        Some(Opcode::Jump(JumpOp::Jnz))
    } else {
        None
    }
}


/// The instruction that `mnemonic` names: the one whose mnemonic is the
/// upper-case form of `mnemonic`.
pub open spec fn mnemonic_opcode(mnemonic: Seq<char>) -> Option<Opcode> {
    named_opcode(uppercase(mnemonic))
}

/// The number that `token` gives to a register by the digit at its index `i`:
/// `token` has `i` characters before the digit and none after it, each of
/// its characters takes one byte, and the digit is one of `0` to `7`.
pub open spec fn register_no(token: Seq<char>, i: nat) -> Option<usize> {
    if token.len() == i + 1 && encode_utf8(token).len() == i + 1 {
        match digit_value(token[i as int]) {
            Some(digit) => if digit < REGISTERS {
                Some(digit as usize)
            } else {
                None
            },
            None => None,
        }
    } else {
        None
    }
}

/// The register that the operand `token` names: the letter `R`, in either
/// case, and the register's number.
pub open spec fn register_of(token: Seq<char>) -> Option<usize> {
    if token.len() > 0 && (token[0] == 'R' || token[0] == 'r') {
        register_no(token, 1)
    } else {
        None
    }
}

/// The shift amount that the operand `token` gives: one decimal digit.
pub open spec fn shift_of(token: Seq<char>) -> Option<u32> {
    if token.len() == 1 {
        digit_value(token[0])
    } else {
        None
    }
}

/// The operands in `text`: the pieces between its commas, each trimmed.
pub open spec fn operands(text: Seq<char>) -> Seq<Seq<char>> {
    Seq::new(split(text, ',').len(), |k: int| trim(split(text, ',')[k]))
}

/// The register that operand `k` of `ops` names, or the failure that it names
/// none.
pub open spec fn register_at(ops: Seq<Seq<char>>, k: int) -> Result<usize, ExecErrorView> {
    match register_of(ops[k]) {
        Some(register) => Ok(register),
        None => Err(ExecErrorView::InvalidRegister { token: ops[k] }),
    }
}

/// The instruction of `opcode` with the operands `ops`. `line` is the text of
/// the whole instruction. The operands are read from left to right, and the
/// first that is not what the instruction takes there is the failure.
pub open spec fn with_operands(opcode: Opcode, line: Seq<char>, ops: Seq<Seq<char>>) -> Result<
    InstructionView,
    ExecErrorView,
> {
    if ops.len() < opcode.arity() {
        Err(ExecErrorView::MalformedInstruction { line })
    } else {
        match opcode {
            Opcode::Zero => match register_at(ops, 0) {
                Ok(dst) => Ok(InstructionView::Zero { dst }),
                Err(e) => Err(e),
            },
            Opcode::Mov => match (register_at(ops, 0), register_at(ops, 1)) {
                (Ok(dst), Ok(src)) => Ok(InstructionView::Mov { dst, src }),
                (Err(e), _) => Err(e),
                (_, Err(e)) => Err(e),
            },
            Opcode::Binary(op) => match (
                register_at(ops, 0),
                register_at(ops, 1),
                register_at(ops, 2),
            ) {
                (Ok(dst), Ok(a), Ok(b)) => Ok(InstructionView::Binary { op, dst, a, b }),
                (Err(e), _, _) => Err(e),
                (_, Err(e), _) => Err(e),
                (_, _, Err(e)) => Err(e),
            },
            Opcode::Unary(op) => match register_at(ops, 0) {
                Ok(dst) => Ok(InstructionView::Unary { op, dst }),
                Err(e) => Err(e),
            },
            Opcode::Shift(op) => match (register_at(ops, 0), shift_of(ops[1])) {
                (Ok(dst), Some(amount)) => Ok(InstructionView::Shift { op, dst, amount }),
                (Err(e), _) => Err(e),
                (_, None) => Err(ExecErrorView::InvalidShiftAmount { token: ops[1] }),
            },
            Opcode::Jump(op) => Ok(InstructionView::Jump { op, label: ops[0] }),
        }
    }
}

/// The mnemonic of the instruction `text`: what stands before its first
/// space, or all of it where it has no space.
pub open spec fn mnemonic_of(text: Seq<char>) -> Seq<char> {
    text.take(find(text, ' ') as int)
}

/// The instruction that `text` decodes to. The mnemonic is what stands before
/// the first space, or all of `text` where it has no space; the operands are
/// read from what follows that space. A mnemonic that names no instruction
/// is the failure before anything else of `text` is looked at.
pub open spec fn decoded(text: Seq<char>) -> Result<InstructionView, ExecErrorView> {
    let space = find(text, ' ') as int;
    match mnemonic_opcode(mnemonic_of(text)) {
        None => Err(ExecErrorView::UnknownInstruction { mnemonic: mnemonic_of(text) }),
        Some(opcode) => if space >= text.len() {
            Err(ExecErrorView::MalformedInstruction { line: text })
        } else {
            with_operands(opcode, text, operands(text.skip(space + 1)))
        },
    }
}

/// `r` as the specifications speak of it.
pub open spec fn decoded_view(r: Result<Instruction, ExecError>) -> Result<
    InstructionView,
    ExecErrorView,
> {
    match r {
        Ok(instruction) => Ok(instruction@),
        Err(e) => Err(e@),
    }
}

/// What decodes is well formed.
pub proof fn lemma_decoded_wf(text: Seq<char>)
    ensures
        decoded(text) matches Ok(instruction) ==> instruction.wf(),
{
}

/// Calls `str::to_uppercase`. Its result is a function of `text` alone, which
/// the contract names and says nothing else of.
#[verifier::external_body]
fn to_uppercase(text: &str) -> (r: String)
    ensures
        r@ == uppercase(text@),
{
    text.to_uppercase()
}

/// The instruction whose mnemonic is `name`, letter for letter.
pub fn opcode_named(name: &str) -> (r: Option<Opcode>)
    ensures
        r == named_opcode(name@),
{
    let name = to_chars(name);
    if chars_spell(&name, "ZERO") {
        Some(Opcode::Zero)
    } else if chars_spell(&name, "MOV") {
        Some(Opcode::Mov)
    } else if chars_spell(&name, "ADD") {
        Some(Opcode::Binary(BinaryOp::Add))
    } else if chars_spell(&name, "SUB") {
        Some(Opcode::Binary(BinaryOp::Sub))
    } else if chars_spell(&name, "AND") {
        Some(Opcode::Binary(BinaryOp::And))
    } else if chars_spell(&name, "OR") {
        Some(Opcode::Binary(BinaryOp::Or))
    } else if chars_spell(&name, "XOR") {
        Some(Opcode::Binary(BinaryOp::Xor))
    } else if chars_spell(&name, "NOT") {
        Some(Opcode::Unary(UnaryOp::Not))
    } else if chars_spell(&name, "INC") {
        Some(Opcode::Unary(UnaryOp::Inc))
    } else if chars_spell(&name, "DEC") {
        Some(Opcode::Unary(UnaryOp::Dec))
    } else if chars_spell(&name, "SHL") {
        Some(Opcode::Shift(ShiftOp::Shl))
    } else if chars_spell(&name, "SHR") {
        Some(Opcode::Shift(ShiftOp::Shr))
    } else if chars_spell(&name, "J") {
        Some(Opcode::Jump(JumpOp::J))
    } else if chars_spell(&name, "JZ") {
        Some(Opcode::Jump(JumpOp::Jz))
    } else if chars_spell(&name, "JNZ") {
        Some(Opcode::Jump(JumpOp::Jnz))
    } else {
        None
    }
}

/// The instruction that `mnemonic` names.
pub fn opcode_of(mnemonic: &str) -> (r: Option<Opcode>)
    ensures
        r == mnemonic_opcode(mnemonic@),
{
    let name = to_uppercase(mnemonic);
    opcode_named(name.as_str())
}

/// Reads the number of a register from `register`, whose digit stands at
/// index `i`.
pub fn get_register_no(register: &str, i: usize) -> (r: Result<usize, ExecError>)
    ensures
        match register_no(register@, i as nat) {
            Some(number) => r == Ok::<usize, ExecError>(number),
            None => r matches Err(e) && e@ == (ExecErrorView::InvalidRegister {
                token: register@,
            }),
        },
{
    let len = register.unicode_len();
    if register.as_bytes().len() == len && len >= 1 && len - 1 == i {
        match char_digit(register.get_char(i)) {
            Some(digit) => {
                if digit < 8 {
                    return Ok(digit as usize);
                }
            },
            None => {},
        }
    }
    Err(ExecError::InvalidRegister { token: register.to_owned() })
}

/// Reads the operand `token` as a register.
pub fn register_operand(token: &str) -> (r: Result<usize, ExecError>)
    ensures
        match register_of(token@) {
            Some(number) => r == Ok::<usize, ExecError>(number),
            None => r matches Err(e) && e@ == (ExecErrorView::InvalidRegister { token: token@ }),
        },
{
    if token.unicode_len() > 0 {
        let letter = token.get_char(0);
        if letter == 'R' || letter == 'r' {
            return get_register_no(token, 1);
        }
    }
    Err(ExecError::InvalidRegister { token: token.to_owned() })
}

/// Reads the operand `token` as a shift amount.
pub fn shift_operand(token: &str) -> (r: Result<u32, ExecError>)
    ensures
        match shift_of(token@) {
            Some(amount) => r == Ok::<u32, ExecError>(amount),
            None => r matches Err(e) && e@ == (ExecErrorView::InvalidShiftAmount {
                token: token@,
            }),
        },
{
    if token.unicode_len() == 1 {
        match char_digit(token.get_char(0)) {
            Some(amount) => {
                return Ok(amount);
            },
            None => {},
        }
    }
    Err(ExecError::InvalidShiftAmount { token: token.to_owned() })
}

/// The operand of `text` that the range at index `k` of `ranges` holds,
/// trimmed.
fn operand<'a>(text: &'a str, chars: &Vec<char>, ranges: &Vec<(usize, usize)>, k: usize) -> (r:
    &'a str)
    requires
        chars@ == text@,
        k < ranges.len(),
        ranges[k as int].0 <= ranges[k as int].1 <= chars.len(),
    ensures
        r@ == trim(pieces(chars@, ranges@)[k as int]),
{
    let (lo, hi) = ranges[k];
    let (a, b) = trim_range(chars, lo, hi);
    text.substring_char(a, b)
}

/// Decodes the instruction `text`.
pub fn decode(text: &str) -> (r: Result<Instruction, ExecError>)
    ensures
        decoded_view(r) == decoded(text@),
        r matches Ok(instruction) ==> instruction@.wf(),
{
    let chars = to_chars(text);
    let n = chars.len();
    let space = find_char(&chars, 0, n, ' ');
    assert(chars@.subrange(0, n as int) =~= text@);
    let mnemonic = text.substring_char(0, space);
    let opcode = match opcode_of(mnemonic) {
        Some(opcode) => opcode,
        None => {
            return Err(ExecError::UnknownInstruction { mnemonic: mnemonic.to_owned() });
        },
    };
    if space == n {
        return Err(ExecError::MalformedInstruction { line: text.to_owned() });
    }
    let ranges = split_ranges(&chars, space + 1, n, ',');
    if ranges.len() < opcode.operand_count() {
        return Err(ExecError::MalformedInstruction { line: text.to_owned() });
    }
    match opcode {
        Opcode::Zero => {
            let dst = register_operand(operand(text, &chars, &ranges, 0))?;
            Ok(Instruction::Zero { dst })
        },
        Opcode::Mov => {
            let dst = register_operand(operand(text, &chars, &ranges, 0))?;
            let src = register_operand(operand(text, &chars, &ranges, 1))?;
            Ok(Instruction::Mov { dst, src })
        },
        Opcode::Binary(op) => {
            let dst = register_operand(operand(text, &chars, &ranges, 0))?;
            let a = register_operand(operand(text, &chars, &ranges, 1))?;
            let b = register_operand(operand(text, &chars, &ranges, 2))?;
            Ok(Instruction::Binary { op, dst, a, b })
        },
        Opcode::Unary(op) => {
            let dst = register_operand(operand(text, &chars, &ranges, 0))?;
            Ok(Instruction::Unary { op, dst })
        },
        Opcode::Shift(op) => {
            let dst = register_operand(operand(text, &chars, &ranges, 0))?;
            let amount = shift_operand(operand(text, &chars, &ranges, 1))?;
            Ok(Instruction::Shift { op, dst, amount })
        },
        Opcode::Jump(op) => {
            let label = operand(text, &chars, &ranges, 0).to_owned();
            Ok(Instruction::Jump { op, label })
        },
    }
}

} // verus!
