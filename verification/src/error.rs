//! The failures of loading and of execution.

use vstd::prelude::*;

verus! {

/// Why program text could not be loaded.
#[derive(Debug, Clone, Copy, PartialEq, Eq)]
pub enum LoadError {
    /// A line holds a colon with no label name before it. `line` counts the
    /// lines that are not blank, starting at 1.
    EmptyLabel { line: usize },
}

/// Why the machine could not execute an instruction.
#[derive(Debug, Clone, PartialEq, Eq)]
pub enum ExecError {
    /// The instruction `line` has no operands, or fewer than it takes.
    MalformedInstruction { line: String },
    /// The operand `token` should name a register and does not.
    InvalidRegister { token: String },
    /// The operand `token` should be a shift amount of one decimal digit.
    InvalidShiftAmount { token: String },
    /// No instruction is called `mnemonic`.
    UnknownInstruction { mnemonic: String },
    /// A jump was taken to `label`, which the label table does not hold.
    UnknownLabel { label: String },
}

/// An [`ExecError`] with its text as a sequence of characters.
pub enum ExecErrorView {
    MalformedInstruction { line: Seq<char> },
    InvalidRegister { token: Seq<char> },
    InvalidShiftAmount { token: Seq<char> },
    UnknownInstruction { mnemonic: Seq<char> },
    UnknownLabel { label: Seq<char> },
}

impl View for ExecError {
    type V = ExecErrorView;

    open spec fn view(&self) -> ExecErrorView {
        match self {
            ExecError::MalformedInstruction { line } => ExecErrorView::MalformedInstruction {
                line: line@,
            },
            ExecError::InvalidRegister { token } => ExecErrorView::InvalidRegister {
                token: token@,
            },
            ExecError::InvalidShiftAmount { token } => ExecErrorView::InvalidShiftAmount {
                token: token@,
            },
            ExecError::UnknownInstruction { mnemonic } => ExecErrorView::UnknownInstruction {
                mnemonic: mnemonic@,
            },
            ExecError::UnknownLabel { label } => ExecErrorView::UnknownLabel { label: label@ },
        }
    }
}

} // verus!
