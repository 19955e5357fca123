//! The machine: eight registers, a zero flag and a program counter, and the
//! loop that fetches, decodes and executes.
//!
//! An instruction is decoded when the machine comes to it, so a program may
//! hold text that is no instruction as long as the machine never reaches it.
//! The machine stops when the program counter leaves the program. It fails at
//! the first instruction that it cannot decode or execute, and then keeps the
//! state in which it came to that instruction.

use vstd::prelude::*;
use crate::error::{ExecError, ExecErrorView};
use crate::instruction::{
    decode,
    decoded,
    mnemonic_of,
    mnemonic_opcode,
    Instruction,
    InstructionView,
    JumpOp,
    REGISTERS,
};
use crate::program::{LabelTable, Program};

verus! {

/// A machine as the specifications speak of it.
pub struct MachineView {
    /// The text of each instruction.
    pub program: Seq<Seq<char>>,
    /// The index that each label stands for.
    pub labels: Map<Seq<char>, nat>,
    /// The values of the registers.
    pub registers: Seq<i32>,
    /// Whether the last result that set the flag was zero.
    pub zero_flag: bool,
    /// The index of the instruction to execute next.
    pub pc: nat,
}

/// The machine before it has executed anything: every register is zero, the
/// zero flag is set, and the first instruction is next.
pub open spec fn fresh(program: Seq<Seq<char>>, labels: Map<Seq<char>, nat>) -> MachineView {
    MachineView {
        program,
        labels,
        registers: Seq::new(REGISTERS as nat, |i: int| 0i32),
        zero_flag: true,
        pc: 0,
    }
}

impl MachineView {
    /// The machine has all its registers.
    pub open spec fn wf(self) -> bool {
        self.registers.len() == REGISTERS
    }

    /// The program counter has left the program: nothing is left to execute.
    pub open spec fn halted(self) -> bool {
        self.pc >= self.program.len()
    }

    /// The machine with `value` in register `dst`, at the next instruction.
    pub open spec fn store(self, dst: usize, value: i32) -> MachineView {
        MachineView {
            registers: self.registers.update(dst as int, value),
            pc: self.pc + 1,
            ..self
        }
    }

    /// The machine with `value` in register `dst` and the zero flag set
    /// by it, at the next instruction.
    pub open spec fn store_flagged(self, dst: usize, value: i32) -> MachineView {
        MachineView { zero_flag: value == 0, ..self.store(dst, value) }
    }

    /// The machine after `instruction`, or why it cannot be executed: only a
    /// jump that is taken to a label that the table lacks.
    pub open spec fn execute(self, instruction: InstructionView) -> Result<
        MachineView,
        ExecErrorView,
    > {
        match instruction {
            InstructionView::Zero { dst } => Ok(self.store(dst, 0)),
            InstructionView::Mov { dst, src } => Ok(self.store(dst, self.registers[src as int])),
            InstructionView::Binary { op, dst, a, b } => Ok(
                self.store_flagged(
                    dst,
                    op.result(self.registers[a as int], self.registers[b as int]),
                ),
            ),
            InstructionView::Unary { op, dst } => Ok(
                self.store_flagged(dst, op.result(self.registers[dst as int])),
            ),
            InstructionView::Shift { op, dst, amount } => Ok(
                self.store(dst, op.result(self.registers[dst as int], amount)),
            ),
            InstructionView::Jump { op, label } => if !op.taken(self.zero_flag) {
                Ok(MachineView { pc: self.pc + 1, ..self })
            } else if self.labels.contains_key(label) {
                Ok(MachineView { pc: self.labels[label], ..self })
            } else {
                Err(ExecErrorView::UnknownLabel { label })
            },
        }
    }

    /// The machine after the instruction at the program counter, or why that
    /// instruction cannot be decoded or executed. It is meant for a machine
    /// that has not halted.
    pub open spec fn attempt(self) -> Result<MachineView, ExecErrorView> {
        match decoded(self.program[self.pc as int]) {
            Ok(instruction) => self.execute(instruction),
            Err(e) => Err(e),
        }
    }

    /// The failure that the machine is at, if it is at one.
    pub open spec fn fault(self) -> Option<ExecErrorView> {
        if self.halted() {
            None
        } else {
            match self.attempt() {
                Ok(_) => None,
                Err(e) => Some(e),
            }
        }
    }

    /// The machine has halted or is at a failure.
    pub open spec fn stopped(self) -> bool {
        self.halted() || self.fault() is Some
    }

    /// The machine one step on. A machine that has stopped stays as it is.
    pub open spec fn next(self) -> MachineView {
        if self.halted() {
            self
        } else {
            match self.attempt() {
                Ok(after) => after,
                Err(_) => self,
            }
        }
    }

    /// The machine `n` steps on.
    pub open spec fn run(self, n: nat) -> MachineView
        decreases n,
    {
        if n == 0 {
            self
        } else {
            self.run((n - 1) as nat).next()
        }
    }

    /// The failure that the machine meets within `n` steps, if it meets one.
    /// The step that fails counts.
    pub open spec fn failure_within(self, n: nat) -> Option<ExecErrorView> {
        if n == 0 {
            None
        } else {
            self.run((n - 1) as nat).fault()
        }
    }

    /// The machine stops after some number of steps.
    pub open spec fn terminates(self) -> bool {
        exists|n: nat| #[trigger] self.run(n).stopped()
    }

    /// A number of steps after which the machine has stopped, where it
    /// terminates.
    pub open spec fn steps_to_stop(self) -> nat {
        choose|n: nat| #[trigger] self.run(n).stopped()
    }

    /// The machine as it stops, where it terminates.
    pub open spec fn outcome(self) -> MachineView {
        self.run(self.steps_to_stop())
    }
}

/// A step keeps the program, the label table and the number of registers.
pub proof fn lemma_next_keeps(m: MachineView)
    requires
        m.wf(),
    ensures
        m.next().wf(),
        m.next().program == m.program,
        m.next().labels == m.labels,
{
}

/// Any number of steps keeps the program, the label table and the number of
/// registers.
pub proof fn lemma_run_keeps(m: MachineView, n: nat)
    requires
        m.wf(),
    ensures
        m.run(n).wf(),
        m.run(n).program == m.program,
        m.run(n).labels == m.labels,
    decreases n,
{
    if n > 0 {
        lemma_run_keeps(m, (n - 1) as nat);
        lemma_next_keeps(m.run((n - 1) as nat));
    }
}

/// Once the machine has stopped, further steps change nothing.
pub proof fn lemma_stopped_stays(m: MachineView, k: nat, n: nat)
    requires
        m.run(k).stopped(),
        k <= n,
    ensures
        m.run(n) == m.run(k),
    decreases n,
{
    if k < n {
        lemma_stopped_stays(m, k, (n - 1) as nat);
    }
}

/// The outcome of a machine is its state after any number of steps that
/// brings it to a stop.
pub proof fn lemma_outcome(m: MachineView, n: nat)
    requires
        m.run(n).stopped(),
    ensures
        m.terminates(),
        m.outcome() == m.run(n),
        m.outcome().stopped(),
{
    let k = m.steps_to_stop();
    if k <= n {
        lemma_stopped_stays(m, k, n);
    } else {
        lemma_stopped_stays(m, n, k);
    }
}

/// Two runs of the same program with the same label table, each from a fresh
/// machine and each to a stop, end in the same state, and so with the same
/// registers, however many steps each was given.
pub proof fn lemma_run_deterministic(
    program: Seq<Seq<char>>,
    labels: Map<Seq<char>, nat>,
    j: nat,
    k: nat,
)
    requires
        fresh(program, labels).run(j).stopped(),
        fresh(program, labels).run(k).stopped(),
    ensures
        fresh(program, labels).run(j) == fresh(program, labels).run(k),
        fresh(program, labels).run(j) == fresh(program, labels).outcome(),
{
    lemma_outcome(fresh(program, labels), j);
    lemma_outcome(fresh(program, labels), k);
}

/// A machine that comes to a mnemonic that names no instruction fails there
/// with that mnemonic, and stays in the state in which it came to it: what
/// the instructions before it did is kept, and nothing after it is executed.
pub proof fn lemma_unknown_mnemonic_stops(m: MachineView, n: nat)
    requires
        !m.halted(),
        mnemonic_opcode(mnemonic_of(m.program[m.pc as int])) is None,
    ensures
        m.fault() == Some(
            ExecErrorView::UnknownInstruction { mnemonic: mnemonic_of(m.program[m.pc as int]) },
        ),
        m.run(n) == m,
        m.outcome() == m,
{
    lemma_stopped_stays(m, 0, n);
    lemma_outcome(m, 0);
}

/// A machine that fails after `k` steps is, from then on, in the state in
/// which it came to the failing instruction.
pub proof fn lemma_failure_keeps_state(m: MachineView, k: nat, n: nat)
    requires
        m.run(k).fault() is Some,
        k <= n,
    ensures
        m.run(n) == m.run(k),
        m.failure_within(n + 1) == m.run(k).fault(),
        m.outcome() == m.run(k),
{
    lemma_stopped_stays(m, k, n);
    lemma_outcome(m, k);
}

/// A jump that is taken to a label that stands for the end of the program
/// halts the machine without a failure, and leaves the registers and the
/// zero flag as they are.
pub proof fn lemma_jump_to_end_halts(m: MachineView, op: JumpOp, label: Seq<char>)
    requires
        !m.halted(),
        decoded(m.program[m.pc as int]) == Ok::<InstructionView, ExecErrorView>(
            InstructionView::Jump { op, label },
        ),
        op.taken(m.zero_flag),
        m.labels.contains_key(label),
        m.labels[label] == m.program.len(),
    ensures
        m.fault() is None,
        m.next().halted(),
        m.next().fault() is None,
        m.next().registers == m.registers,
        m.next().zero_flag == m.zero_flag,
        m.outcome() == m.next(),
{
    assert(m.run(0) == m);
    lemma_outcome(m, 1);
}

/// The executing machine.
pub struct Machine {
    program: Program,
    labels: LabelTable,
    registers: [i32; 8],
    zero_flag: bool,
    pc: usize,
}

impl View for Machine {
    type V = MachineView;

    closed spec fn view(&self) -> MachineView {
        MachineView {
            program: self.program@,
            labels: self.labels@,
            registers: self.registers@,
            zero_flag: self.zero_flag,
            pc: self.pc as nat,
        }
    }
}

impl Machine {
    /// A fresh machine for `program` and its `labels`.
    pub fn new(program: Program, labels: LabelTable) -> (m: Machine)
        ensures
            m@ == fresh(program@, labels@),
    {
        let m = Machine { program, labels, registers: [0i32; 8], zero_flag: true, pc: 0 };
        assert(m.registers@ =~= Seq::new(REGISTERS as nat, |i: int| 0i32));
        m
    }

    /// Every machine has all its registers.
    pub proof fn lemma_wf(&self)
        ensures
            self@.wf(),
    {
    }

    /// The values of the registers.
    pub fn registers(&self) -> (r: [i32; 8])
        ensures
            r@ == self@.registers,
    {
        self.registers
    }

    /// The zero flag.
    pub fn zero_flag(&self) -> (r: bool)
        ensures
            r == self@.zero_flag,
    {
        self.zero_flag
    }

    /// The program counter.
    pub fn pc(&self) -> (r: usize)
        ensures
            r == self@.pc,
    {
        self.pc
    }

    /// The program.
    pub fn program(&self) -> (r: &Program)
        ensures
            r@ == self@.program,
    {
        &self.program
    }

    /// The label table.
    pub fn labels(&self) -> (r: &LabelTable)
        ensures
            r@ == self@.labels,
    {
        &self.labels
    }

    /// Whether the machine has halted.
    pub fn is_halted(&self) -> (r: bool)
        ensures
            r == self@.halted(),
    {
        self.pc >= self.program.len()
    }

    /// Executes `instruction`. On failure the machine is unchanged.
    fn execute(&mut self, instruction: &Instruction) -> (r: Result<(), ExecError>)
        requires
            instruction@.wf(),
            !old(self)@.halted(),
        ensures
            match old(self)@.execute(instruction@) {
                Ok(after) => r is Ok && final(self)@ == after,
                Err(e) => r matches Err(x) && x@ == e && final(self)@ == old(self)@,
            },
    {
        match instruction {
            Instruction::Zero { dst } => {
                self.registers[*dst] = 0;
            },
            Instruction::Mov { dst, src } => {
                self.registers[*dst] = self.registers[*src];
            },
            Instruction::Binary { op, dst, a, b } => {
                let value = op.apply(self.registers[*a], self.registers[*b]);
                self.registers[*dst] = value;
                self.zero_flag = value == 0;
            },
            Instruction::Unary { op, dst } => {
                let value = op.apply(self.registers[*dst]);
                self.registers[*dst] = value;
                self.zero_flag = value == 0;
            },
            Instruction::Shift { op, dst, amount } => {
                let value = op.apply(self.registers[*dst], *amount);
                self.registers[*dst] = value;
            },
            Instruction::Jump { op, label } => {
                if op.is_taken(self.zero_flag) {
                    match self.labels.get(label.as_str()) {
                        Some(target) => {
                            self.pc = target;
                            return Ok(());
                        },
                        None => {
                            return Err(ExecError::UnknownLabel { label: label.clone() });
                        },
                    }
                }
            },
        }
        proof {
            self.program.lemma_len_fits();
        }
        self.pc = self.pc + 1;
        Ok(())
    }

    /// Takes one step: executes the instruction at the program counter. A
    /// machine that has halted stays as it is, and so does one whose
    /// instruction fails.
    pub fn step(&mut self) -> (r: Result<(), ExecError>)
        ensures
            final(self)@ == old(self)@.next(),
            match old(self)@.fault() {
                Some(e) => r matches Err(x) && x@ == e,
                None => r is Ok,
            },
    {
        match self.program.get(self.pc) {
            None => Ok(()),
            Some(text) => {
                let instruction = decode(text)?;
                self.execute(&instruction)
            },
        }
    }

    /// Takes up to `steps` steps, fewer where the machine stops before. The
    /// result is the failure that it met, or whether it has halted.
    pub fn run_bounded(&mut self, steps: u64) -> (r: Result<bool, ExecError>)
        ensures
            final(self)@ == old(self)@.run(steps as nat),
            match old(self)@.failure_within(steps as nat) {
                Some(e) => r matches Err(x) && x@ == e,
                None => r == Ok::<bool, ExecError>(final(self)@.halted()),
            },
    {
        let ghost start = self@;
        let mut done: u64 = 0;
        while done < steps
            invariant
                done <= steps,
                start == old(self)@,
                self@ == start.run(done as nat),
                start.failure_within(done as nat) is None,
            decreases steps - done,
        {
            if self.is_halted() {
                proof {
                    lemma_stopped_stays(start, done as nat, steps as nat);
                    lemma_stopped_stays(start, done as nat, (steps - 1) as nat);
                }
                return Ok(true);
            }
            match self.step() {
                Ok(()) => {},
                Err(e) => {
                    proof {
                        lemma_stopped_stays(start, done as nat, steps as nat);
                        lemma_stopped_stays(start, done as nat, (steps - 1) as nat);
                    }
                    return Err(e);
                },
            }
            done = done + 1;
        }
        Ok(self.is_halted())
    }

    /// Runs the machine until it stops, and gives the registers where it has
    /// halted, or the failure that it met. The machine must be one that
    /// stops: on a program that loops forever there is nothing to return.
    pub fn run(&mut self) -> (r: Result<[i32; 8], ExecError>)
        requires
            old(self)@.terminates(),
        ensures
            final(self)@ == old(self)@.outcome(),
            final(self)@.stopped(),
            match final(self)@.fault() {
                Some(e) => r matches Err(x) && x@ == e,
                None => r matches Ok(registers) && registers@ == final(self)@.registers,
            },
    {
        let ghost start = self@;
        let ghost bound = start.steps_to_stop();
        let ghost mut done: nat = 0;
        while !self.is_halted()
            invariant
                done <= bound,
                start == old(self)@,
                bound == start.steps_to_stop(),
                start.run(bound).stopped(),
                self@ == start.run(done),
            decreases bound - done,
        {
            match self.step() {
                Ok(()) => {},
                Err(e) => {
                    proof {
                        lemma_outcome(start, done);
                    }
                    return Err(e);
                },
            }
            proof {
                done = done + 1;
            }
        }
        proof {
            lemma_outcome(start, done);
        }
        Ok(self.registers)
    }
}

} // verus!
