//! The machine as a mathematical value, and the meaning of every instruction
//! and of a whole cycle as functions on it.

use vstd::prelude::*;
use crate::alu::{clamped_sum, high_nibble, low_nibble, rotated_right, wrapping_sum};
use crate::driver::IterationFormat;

verus! {

/// Heat of a cell that has just been marked.
pub const MAX_HEAT: u8 = 5;

/// How a cycle ended when no fault occurred.
#[derive(Clone, Copy, Debug, PartialEq, Eq, Structural)]
pub enum Status {
    /// An instruction ran and the next one is due.
    Continued,
    /// The halt instruction was decoded.
    Halted,
}

/// A condition that ends a run for good.
#[derive(Clone, Copy, Debug, PartialEq, Eq, Structural)]
pub enum Fault {
    /// The upper nibble of the byte at `address` is no instruction.
    InvalidOpcode { opcode: u8, address: u8 },
}

/// Every heat value one lower, those at zero left at zero.
pub open spec fn decayed(heat: Seq<u8>) -> Seq<u8> {
    Seq::new(
        heat.len(),
        |i: int|
            if heat[i] > 0 {
                (heat[i] - 1) as u8
            } else {
                0u8
            },
    )
}

/// A heat value aged by `n`, never below zero.
pub open spec fn aged(heat: u8, n: nat) -> u8 {
    if heat >= n {
        (heat - n) as u8
    } else {
        0u8
    }
}

/// Whether every heat value lies in the range from 0 to `MAX_HEAT`.
pub open spec fn heat_bounded(heat: Seq<u8>) -> bool {
    forall|i: int| 0 <= i < heat.len() ==> #[trigger] heat[i] <= MAX_HEAT
}

/// The whole observable state of the machine.
pub struct MachineState {
    pub registers: Seq<u8>,
    pub register_heat: Seq<u8>,
    pub memory: Seq<u8>,
    pub memory_heat: Seq<u8>,
    pub pc: u8,
    pub cycles: nat,
    pub program_name: Seq<char>,
    pub iterate_by: IterationFormat,
}

impl MachineState {
    /// The state of a machine that has just been built: all cells zero and
    /// cold, no program, automatic pacing.
    pub open spec fn initial() -> MachineState {
        MachineState {
            registers: Seq::new(16, |i: int| 0u8),
            register_heat: Seq::new(16, |i: int| 0u8),
            memory: Seq::new(256, |i: int| 0u8),
            memory_heat: Seq::new(256, |i: int| 0u8),
            pc: 0,
            cycles: 0,
            program_name: Seq::empty(),
            iterate_by: IterationFormat::Auto,
        }
    }

    /// Sixteen registers, 256 cells, and every heat value within its range.
    pub open spec fn well_formed(self) -> bool {
        &&& self.registers.len() == 16
        &&& self.register_heat.len() == 16
        &&& self.memory.len() == 256
        &&& self.memory_heat.len() == 256
        &&& heat_bounded(self.register_heat)
        &&& heat_bounded(self.memory_heat)
    }

    /// First byte of the instruction at the program counter.
    pub open spec fn byte0(self) -> u8 {
        self.memory[self.pc as int]
    }

    /// Second byte of the instruction; the address after 255 is 0.
    pub open spec fn byte1(self) -> u8 {
        self.memory[(self.pc + 1) % 256]
    }

    /// The instruction's tag.
    pub open spec fn opcode(self) -> u8 {
        high_nibble(self.byte0())
    }

    /// Register field in the low nibble of the first byte.
    pub open spec fn field_r(self) -> int {
        low_nibble(self.byte0()) as int
    }

    /// Register field in the high nibble of the second byte.
    pub open spec fn field_s(self) -> int {
        high_nibble(self.byte1()) as int
    }

    /// Register field in the low nibble of the second byte.
    pub open spec fn field_t(self) -> int {
        low_nibble(self.byte1()) as int
    }

    /// Both heat arrays aged by one cycle.
    pub open spec fn cooled(self) -> MachineState {
        MachineState {
            register_heat: decayed(self.register_heat),
            memory_heat: decayed(self.memory_heat),
            ..self
        }
    }

    /// Register `r` holds `value` and is marked hot.
    pub open spec fn with_register(self, r: int, value: u8) -> MachineState {
        MachineState {
            registers: self.registers.update(r, value),
            register_heat: self.register_heat.update(r, MAX_HEAT),
            ..self
        }
    }

    /// Loads register R from the memory cell that the second byte addresses.
    pub open spec fn after_load_from(self) -> MachineState {
        self.with_register(self.field_r(), self.memory[self.byte1() as int])
    }

    /// Loads register R with the second byte itself.
    pub open spec fn after_load(self) -> MachineState {
        self.with_register(self.field_r(), self.byte1())
    }

    /// Stores register R into the memory cell that the second byte
    /// addresses, and marks that cell hot.
    pub open spec fn after_store(self) -> MachineState {
        let addr = self.byte1() as int;
        MachineState {
            memory: self.memory.update(addr, self.registers[self.field_r()]),
            memory_heat: self.memory_heat.update(addr, MAX_HEAT),
            ..self
        }
    }

    /// Copies register S into register T. The register marked hot is S,
    /// the source.
    pub open spec fn after_move(self) -> MachineState {
        MachineState {
            registers: self.registers.update(self.field_t(), self.registers[self.field_s()]),
            register_heat: self.register_heat.update(self.field_s(), MAX_HEAT),
            ..self
        }
    }

    /// Register R becomes the wrapping sum of registers S and T.
    pub open spec fn after_add_tc(self) -> MachineState {
        self.with_register(
            self.field_r(),
            wrapping_sum(self.registers[self.field_s()], self.registers[self.field_t()]),
        )
    }

    /// Register R becomes the clamped sum of registers S and T.
    pub open spec fn after_add_fl(self) -> MachineState {
        self.with_register(
            self.field_r(),
            clamped_sum(self.registers[self.field_s()], self.registers[self.field_t()]),
        )
    }

    /// Register R becomes the bitwise or of registers S and T.
    pub open spec fn after_or(self) -> MachineState {
        self.with_register(
            self.field_r(),
            self.registers[self.field_s()] | self.registers[self.field_t()],
        )
    }

    /// Register R becomes the bitwise and of registers S and T.
    pub open spec fn after_and(self) -> MachineState {
        self.with_register(
            self.field_r(),
            self.registers[self.field_s()] & self.registers[self.field_t()],
        )
    }

    /// Register R becomes the bitwise exclusive or of registers S and T.
    pub open spec fn after_xor(self) -> MachineState {
        self.with_register(
            self.field_r(),
            self.registers[self.field_s()] ^ self.registers[self.field_t()],
        )
    }

    /// Register R is rotated right by the low nibble of the second byte.
    pub open spec fn after_rotate(self) -> MachineState {
        self.with_register(
            self.field_r(),
            rotated_right(self.registers[self.field_r()], low_nibble(self.byte1())),
        )
    }

    /// Whether register R equals register 0, the condition of a branch.
    pub open spec fn branch_taken(self) -> bool {
        self.registers[self.field_r()] == self.registers[0]
    }

    /// The branch instruction changes no cell; taken, it ages the heat once
    /// more.
    pub open spec fn after_jump(self) -> MachineState {
        if self.branch_taken() {
            self.cooled()
        } else {
            self
        }
    }

    /// Where a branch instruction sends the program counter, if it is taken.
    pub open spec fn jump_target(self) -> Option<u8> {
        if self.branch_taken() {
            Some(self.byte1())
        } else {
            None
        }
    }

    /// The opening of a cycle: heat is aged and the cycle is counted, before
    /// anything is decoded.
    pub open spec fn begun(self) -> MachineState {
        MachineState { cycles: self.cycles + 1, ..self.cooled() }
    }

    /// What the instruction at the program counter does to the cells and
    /// their heat.
    pub open spec fn executed(self) -> MachineState {
        let op = self.opcode();
        if op == 0x1 {
            self.after_load_from()
        } else if op == 0x2 {
            self.after_load()
        } else if op == 0x3 {
            self.after_store()
        } else if op == 0x4 {
            self.after_move()
        } else if op == 0x5 {
            self.after_add_tc()
        } else if op == 0x6 {
            self.after_add_fl()
        } else if op == 0x7 {
            self.after_or()
        } else if op == 0x8 {
            self.after_and()
        } else if op == 0x9 {
            self.after_xor()
        } else if op == 0xA {
            self.after_rotate()
        } else if op == 0xB {
            self.after_jump()
        } else {
            self
        }
    }

    /// Where the program counter stands after the instruction: unmoved by a
    /// halt or an invalid tag, at the target of a taken branch, else two
    /// bytes on, with 256 wrapping to 0.
    pub open spec fn next_pc(self) -> u8 {
        let op = self.opcode();
        if op >= 0xC {
            self.pc
        } else if op == 0xB && self.branch_taken() {
            self.byte1()
        } else {
            ((self.pc + 2) % 256) as u8
        }
    }

    /// The state after one whole cycle.
    pub open spec fn step(self) -> MachineState {
        let s = self.begun();
        MachineState { pc: s.next_pc(), ..s.executed() }
    }

    /// How one cycle ends: with a fault on a tag from 0xD to 0xF, halted on
    /// 0xC, else continued.
    pub open spec fn step_outcome(self) -> Result<Status, Fault> {
        let op = self.opcode();
        if op >= 0xD {
            Err(Fault::InvalidOpcode { opcode: op, address: self.pc })
        } else if op == 0xC {
            Ok(Status::Halted)
        } else {
            Ok(Status::Continued)
        }
    }

    /// The register that the instruction at the program counter marks hot,
    /// if it marks one: register R of a load, an addition, a bitwise
    /// operation or a rotation, and the source register S of a move.
    pub open spec fn marked_register(self) -> Option<int> {
        let op = self.opcode();
        if op == 0x1 || op == 0x2 || (0x5 <= op && op <= 0xA) {
            Some(self.field_r())
        } else if op == 0x4 {
            Some(self.field_s())
        } else {
            None
        }
    }

    /// The register that the instruction at the program counter writes, if
    /// it writes one. It differs from the marked one for a move.
    pub open spec fn written_register(self) -> Option<int> {
        let op = self.opcode();
        if op == 0x1 || op == 0x2 || (0x5 <= op && op <= 0xA) {
            Some(self.field_r())
        } else if op == 0x4 {
            Some(self.field_t())
        } else {
            None
        }
    }

    /// The memory cell that the instruction at the program counter writes
    /// and marks hot, if it is a store.
    pub open spec fn marked_memory(self) -> Option<int> {
        if self.opcode() == 0x3 {
            Some(self.byte1() as int)
        } else {
            None
        }
    }

    /// By how much the cycle that starts here ages the heat: by 2 where it
    /// takes a branch, else by 1.
    pub open spec fn cycle_decay(self) -> nat {
        if self.opcode() == 0xB && self.branch_taken() {
            2
        } else {
            1
        }
    }

    /// The state after `n` cycles in a row.
    pub open spec fn steps(self, n: nat) -> MachineState
        decreases n,
    {
        if n == 0 {
            self
        } else {
            self.step().steps((n - 1) as nat)
        }
    }

    /// How many cycles a run of at most `budget` cycles executes: it stops
    /// after the first cycle that does not end as continued.
    pub open spec fn run_length(self, budget: nat) -> nat
        decreases budget,
    {
        if budget == 0 {
            0
        } else if self.step_outcome() == Ok::<Status, Fault>(Status::Continued) {
            1 + self.step().run_length((budget - 1) as nat)
        } else {
            1
        }
    }

    /// How a run of at most `budget` cycles ends: as its last cycle did, or
    /// continued where the budget was spent first.
    pub open spec fn run_outcome(self, budget: nat) -> Result<Status, Fault>
        decreases budget,
    {
        if budget == 0 {
            Ok(Status::Continued)
        } else if self.step_outcome() == Ok::<Status, Fault>(Status::Continued) {
            self.step().run_outcome((budget - 1) as nat)
        } else {
            self.step_outcome()
        }
    }
}

/// `memory` after the bytes of `code` were written to it one by one from
/// `start` on, the address after 255 being 0.
pub open spec fn loaded(memory: Seq<u8>, code: Seq<u8>, start: u8) -> Seq<u8>
    decreases code.len(),
{
    if code.len() == 0 {
        memory
    } else {
        loaded(memory, code.drop_last(), start).update(
            (start + code.len() - 1) % 256,
            code.last(),
        )
    }
}

} // verus!
