//! The machine itself: its cells, the instructions, and the cycle.

use vstd::prelude::*;
use crate::alu::{add_clamped, add_wrapping, lower, rotate_right, upper};
use crate::display::{
    append_column_labels, append_decimal, append_hex_number, append_memory_cell,
    append_register_cell, memory_cells, memory_text, register_cells, registers_text, status_text,
};
use crate::driver::IterationFormat;
use crate::laws::lemma_steps_then_step;
use crate::program::Program;
use crate::state::{decayed, loaded, Fault, MachineState, Status, MAX_HEAT};

verus! {

/// Sixteen registers, 256 memory cells, the heat of each, the program
/// counter and the count of cycles.
pub struct Cpu {
    register: [u8; 16],
    heated_register: [u8; 16],
    memory: [u8; 256],
    heated_memory: [u8; 256],
    pc: u8,
    program_name: String,
    cycles: u128,
    iterate_by: IterationFormat,
}

impl View for Cpu {
    type V = MachineState;

    closed spec fn view(&self) -> MachineState {
        MachineState {
            registers: self.register@,
            register_heat: self.heated_register@,
            memory: self.memory@,
            memory_heat: self.heated_memory@,
            pc: self.pc,
            cycles: self.cycles as nat,
            program_name: self.program_name@,
            iterate_by: self.iterate_by,
        }
    }
}

impl Cpu {
    /// Whether the machine's state is well formed.
    pub open spec fn wf(&self) -> bool {
        self@.well_formed()
    }

    /// A machine in its initial state.
    pub fn new() -> (r: Cpu)
        ensures
            r.wf(),
            r@ == MachineState::initial(),
    {
        let r = Cpu {
            register: [0u8;16],
            heated_register: [0u8;16],
            memory: [0u8;256],
            heated_memory: [0u8;256],
            pc: 0,
            program_name: String::new(),
            cycles: 0,
            iterate_by: IterationFormat::Auto,
        };
        assert(r@.registers =~= MachineState::initial().registers);
        assert(r@.register_heat =~= MachineState::initial().register_heat);
        assert(r@.memory =~= MachineState::initial().memory);
        assert(r@.memory_heat =~= MachineState::initial().memory_heat);
        r
    }

    /// Returns the machine to its initial state.
    pub fn reset(&mut self)
        ensures
            final(self).wf(),
            final(self)@ == MachineState::initial(),
    {
        *self = Cpu::new();
    }

    fn first_byte(&self) -> (b: u8)
        requires
            self.wf(),
        ensures
            b == self@.byte0(),
    {
        self.memory[self.pc as usize]
    }

    fn second_byte(&self) -> (b: u8)
        requires
            self.wf(),
        ensures
            b == self@.byte1(),
    {
        self.memory[self.pc.wrapping_add(1) as usize]
    }

    fn set_register(&mut self, r: u8, value: u8)
        requires
            old(self).wf(),
            r < 16,
        ensures
            final(self).wf(),
            final(self)@ == old(self)@.with_register(r as int, value),
    {
        self.register[r as usize] = value;
        self.heated_register[r as usize] = MAX_HEAT;
        assert(self@.registers =~= old(self)@.registers.update(r as int, value));
        assert(self@.register_heat =~= old(self)@.register_heat.update(r as int, MAX_HEAT));
    }

    /// The instruction that does nothing.
    pub fn no_op(&mut self)
        ensures
            *final(self) == *old(self),
    {
    }

    /// Executes a load from memory: register R takes the value of the cell
    /// that the second byte addresses.
    pub fn load_from(&mut self)
        requires
            old(self).wf(),
        ensures
            final(self).wf(),
            final(self)@ == old(self)@.after_load_from(),
    {
        let r = lower(self.first_byte());
        let addr = self.second_byte();
        let value = self.memory[addr as usize];
        self.set_register(r, value);
    }

    /// Executes an immediate load: register R takes the second byte.
    pub fn load(&mut self)
        requires
            old(self).wf(),
        ensures
            final(self).wf(),
            final(self)@ == old(self)@.after_load(),
    {
        let r = lower(self.first_byte());
        let value = self.second_byte();
        self.set_register(r, value);
    }

    /// Executes a store: the cell that the second byte addresses takes the
    /// value of register R.
    pub fn store(&mut self)
        requires
            old(self).wf(),
        ensures
            final(self).wf(),
            final(self)@ == old(self)@.after_store(),
    {
        let r = lower(self.first_byte());
        let addr = self.second_byte();
        self.memory[addr as usize] = self.register[r as usize];
        self.heated_memory[addr as usize] = MAX_HEAT;
        assert(self@.memory =~= old(self)@.after_store().memory);
        assert(self@.memory_heat =~= old(self)@.after_store().memory_heat);
    }

    /// Executes a move: register T takes the value of register S, and S is
    /// marked hot.
    pub fn move_op(&mut self)
        requires
            old(self).wf(),
        ensures
            final(self).wf(),
            final(self)@ == old(self)@.after_move(),
    {
        let operands = self.second_byte();
        let r1 = upper(operands);
        let r2 = lower(operands);
        self.register[r2 as usize] = self.register[r1 as usize];
        self.heated_register[r1 as usize] = MAX_HEAT;
        assert(self@.registers =~= old(self)@.after_move().registers);
        assert(self@.register_heat =~= old(self)@.after_move().register_heat);
    }

    /// Executes the wrapping addition of registers S and T into R.
    pub fn add_tc(&mut self)
        requires
            old(self).wf(),
        ensures
            final(self).wf(),
            final(self)@ == old(self)@.after_add_tc(),
    {
        let r1 = lower(self.first_byte());
        let operands = self.second_byte();
        let r2 = upper(operands);
        let r3 = lower(operands);
        let sum = add_wrapping(self.register[r2 as usize], self.register[r3 as usize]);
        self.set_register(r1, sum);
    }

    /// Executes the clamped addition of registers S and T into R.
    pub fn add_fl(&mut self)
        requires
            old(self).wf(),
        ensures
            final(self).wf(),
            final(self)@ == old(self)@.after_add_fl(),
    {
        let r1 = lower(self.first_byte());
        let operands = self.second_byte();
        let r2 = upper(operands);
        let r3 = lower(operands);
        let sum = add_clamped(self.register[r2 as usize], self.register[r3 as usize]);
        self.set_register(r1, sum);
    }

    /// Executes the bitwise or of registers S and T into R.
    pub fn or(&mut self)
        requires
            old(self).wf(),
        ensures
            final(self).wf(),
            final(self)@ == old(self)@.after_or(),
    {
        let r1 = lower(self.first_byte());
        let operands = self.second_byte();
        let r2 = upper(operands);
        let r3 = lower(operands);
        let value = self.register[r2 as usize] | self.register[r3 as usize];
        self.set_register(r1, value);
    }

    /// Executes the bitwise and of registers S and T into R.
    pub fn and(&mut self)
        requires
            old(self).wf(),
        ensures
            final(self).wf(),
            final(self)@ == old(self)@.after_and(),
    {
        let r1 = lower(self.first_byte());
        let operands = self.second_byte();
        let r2 = upper(operands);
        let r3 = lower(operands);
        let value = self.register[r2 as usize] & self.register[r3 as usize];
        self.set_register(r1, value);
    }

    /// Executes the bitwise exclusive or of registers S and T into R.
    pub fn xor(&mut self)
        requires
            old(self).wf(),
        ensures
            final(self).wf(),
            final(self)@ == old(self)@.after_xor(),
    {
        let r1 = lower(self.first_byte());
        let operands = self.second_byte();
        let r2 = upper(operands);
        let r3 = lower(operands);
        let value = self.register[r2 as usize] ^ self.register[r3 as usize];
        self.set_register(r1, value);
    }

    /// Executes the rotation of register R to the right.
    pub fn rotate(&mut self)
        requires
            old(self).wf(),
        ensures
            final(self).wf(),
            final(self)@ == old(self)@.after_rotate(),
    {
        let r = lower(self.first_byte());
        let bits = lower(self.second_byte());
        let value = rotate_right(self.register[r as usize], bits);
        self.set_register(r, value);
    }

    /// Executes the branch: where register R equals register 0 it ages the
    /// heat once and returns the target, else it returns nothing.
    pub fn jump(&mut self) -> (target: Option<u8>)
        requires
            old(self).wf(),
        ensures
            final(self).wf(),
            final(self)@ == old(self)@.after_jump(),
            target == old(self)@.jump_target(),
    {
        let r = lower(self.first_byte());
        let address = self.second_byte();
        if self.register[r as usize] == self.register[0] {
            self.cool_down();
            return Some(address);
        }
        None
    }

    /// Ages every heat value by one cycle.
    pub fn cool_down(&mut self)
        requires
            old(self).wf(),
        ensures
            final(self).wf(),
            final(self)@ == old(self)@.cooled(),
    {
        let mut i: usize = 0;
        while i < 16
            invariant
                i <= 16,
                self.register == old(self).register,
                self.memory == old(self).memory,
                self.heated_memory == old(self).heated_memory,
                self.pc == old(self).pc,
                self.cycles == old(self).cycles,
                self.program_name == old(self).program_name,
                self.iterate_by == old(self).iterate_by,
                forall|k: int|
                    0 <= k < i ==> self.heated_register@[k] == decayed(
                        old(self).heated_register@,
                    )[k],
                forall|k: int|
                    i <= k < 16 ==> self.heated_register@[k] == old(self).heated_register@[k],
            decreases 16 - i,
        {
            self.heated_register[i] = self.heated_register[i].saturating_sub(1);
            i = i + 1;
        }
        let mut j: usize = 0;
        while j < 256
            invariant
                j <= 256,
                self.register == old(self).register,
                self.memory == old(self).memory,
                self.heated_register@ =~= decayed(old(self).heated_register@),
                self.pc == old(self).pc,
                self.cycles == old(self).cycles,
                self.program_name == old(self).program_name,
                self.iterate_by == old(self).iterate_by,
                forall|k: int|
                    0 <= k < j ==> self.heated_memory@[k] == decayed(
                        old(self).heated_memory@,
                    )[k],
                forall|k: int|
                    j <= k < 256 ==> self.heated_memory@[k] == old(self).heated_memory@[k],
            decreases 256 - j,
        {
            self.heated_memory[j] = self.heated_memory[j].saturating_sub(1);
            j = j + 1;
        }
        assert(self.heated_memory@ =~= decayed(old(self).heated_memory@));
    }

    /// Runs one cycle: ages the heat, counts the cycle, then decodes and
    /// executes the instruction at the program counter and moves the counter.
    /// A halt and an invalid tag leave the counter where it is.
    pub fn step(&mut self) -> (r: Result<Status, Fault>)
        requires
            old(self).wf(),
            old(self)@.cycles < u128::MAX,
        ensures
            final(self).wf(),
            final(self)@ == old(self)@.step(),
            r == old(self)@.step_outcome(),
    {
        self.cool_down();
        self.cycles = self.cycles + 1;
        let ghost begun = self@;
        let opcode = upper(self.first_byte());
        let mut possible_jump_address: Option<u8> = None;
        match opcode {
            0x0 => self.no_op(),
            0x1 => self.load_from(),
            0x2 => self.load(),
            0x3 => self.store(),
            0x4 => self.move_op(),
            0x5 => self.add_tc(),
            0x6 => self.add_fl(),
            0x7 => self.or(),
            0x8 => self.and(),
            0x9 => self.xor(),
            0xA => self.rotate(),
            0xB => {
                possible_jump_address = self.jump();
            },
            0xC => {
                return Ok(Status::Halted);
            },
            _ => {
                return Err(Fault::InvalidOpcode { opcode, address: self.pc });
            },
        }
        assert(self@ == begun.executed());
        match possible_jump_address {
            Some(address) => {
                self.pc = address;
            },
            None => {
                self.pc = self.pc.wrapping_add(2);
            },
        }
        Ok(Status::Continued)
    }

    /// Runs cycles until one ends halted or with a fault, or until `budget`
    /// cycles have run. The state in which the run ended is left in place.
    pub fn run(&mut self, budget: u64) -> (r: Result<Status, Fault>)
        requires
            old(self).wf(),
            old(self)@.cycles + budget <= u128::MAX,
        ensures
            final(self).wf(),
            final(self)@ == old(self)@.steps(old(self)@.run_length(budget as nat)),
            r == old(self)@.run_outcome(budget as nat),
    {
        let mut done: u64 = 0;
        while done < budget
            invariant
                done <= budget,
                self.wf(),
                self@.cycles + (budget - done) <= u128::MAX,
                self@ == old(self)@.steps(done as nat),
                old(self)@.run_length(budget as nat) == done + self@.run_length(
                    (budget - done) as nat,
                ),
                old(self)@.run_outcome(budget as nat) == self@.run_outcome((budget - done) as nat),
            decreases budget - done,
        {
            let outcome = self.step();
            proof {
                lemma_steps_then_step(old(self)@, done as nat);
            }
            match outcome {
                Ok(Status::Continued) => {
                    done = done + 1;
                },
                _ => {
                    return outcome;
                },
            }
        }
        Ok(Status::Continued)
    }

    /// Loads a program: its bytes are written to memory from its start
    /// address on, the address after 255 being 0, and the program counter is
    /// set to the start address. Heat and cycle count are left as they are.
    pub fn import(&mut self, program: Program)
        requires
            old(self).wf(),
            program.name@.len() > 0,
        ensures
            final(self).wf(),
            final(self)@ == (MachineState {
                memory: loaded(old(self)@.memory, program.code@, program.start_address),
                pc: program.start_address,
                program_name: program.name@,
                ..old(self)@
            }),
    {
        let Program { name, code, start_address } = program;
        self.program_name = name;
        let mut address: u8 = start_address;
        let mut i: usize = 0;
        while i < code.len()
            invariant
                i <= code.len(),
                address as int == (start_address + i) % 256,
                self.memory@ == loaded(old(self).memory@, code@.take(i as int), start_address),
                self.register == old(self).register,
                self.heated_register == old(self).heated_register,
                self.heated_memory == old(self).heated_memory,
                self.cycles == old(self).cycles,
                self.iterate_by == old(self).iterate_by,
                self.program_name == name,
            decreases code.len() - i,
        {
            self.memory[address as usize] = code[i];
            proof {
                let next = code@.take(i + 1);
                assert(next.drop_last() =~= code@.take(i as int));
                assert(next.last() == code@[i as int]);
                assert(self.memory@ =~= loaded(old(self).memory@, next, start_address));
            }
            address = address.wrapping_add(1);
            i = i + 1;
        }
        assert(code@.take(i as int) =~= code@);
        self.pc = start_address;
    }

    /// Takes a key as the choice of pacing: `m`, `a` or `n`, in either
    /// case. Returns whether the key was one of them; any other key changes
    /// nothing.
    pub fn update_iteration_format(&mut self, key: char) -> (accepted: bool)
        ensures
            accepted == IterationFormat::of_key(key).is_some(),
            accepted ==> final(self)@ == (MachineState {
                iterate_by: IterationFormat::of_key(key).unwrap(),
                ..old(self)@
            }),
            !accepted ==> *final(self) == *old(self),
    {
        match IterationFormat::from_key(key) {
            Some(format) => {
                self.iterate_by = format;
                true
            },
            None => false,
        }
    }

    /// The registers.
    pub fn registers(&self) -> (r: &[u8; 16])
        ensures
            r@ == self@.registers,
    {
        &self.register
    }

    /// The heat of each register.
    pub fn register_heat(&self) -> (r: &[u8; 16])
        ensures
            r@ == self@.register_heat,
    {
        &self.heated_register
    }

    /// The memory cells.
    pub fn memory(&self) -> (r: &[u8; 256])
        ensures
            r@ == self@.memory,
    {
        &self.memory
    }

    /// The heat of each memory cell.
    pub fn memory_heat(&self) -> (r: &[u8; 256])
        ensures
            r@ == self@.memory_heat,
    {
        &self.heated_memory
    }

    /// The program counter.
    pub fn pc(&self) -> (r: u8)
        ensures
            r == self@.pc,
    {
        self.pc
    }

    /// The number of cycles run since the machine was built or reset.
    pub fn cycles(&self) -> (r: u128)
        ensures
            r == self@.cycles,
    {
        self.cycles
    }

    /// The name of the program loaded last.
    pub fn program_name(&self) -> (r: &String)
        ensures
            r@ == self@.program_name,
    {
        &self.program_name
    }

    /// The pacing chosen last.
    pub fn iterate_by(&self) -> (r: IterationFormat)
        ensures
            r == self@.iterate_by,
    {
        self.iterate_by
    }

    /// The table of registers as text, each value in the colour of its heat.
    pub fn render_registers(&self) -> (text: String)
        requires
            self.wf(),
        ensures
            text@ == registers_text(self@.registers, self@.register_heat),
    {
        proof {
            reveal_strlit("\n");
            reveal_strlit("r");
        }
        let mut text = String::from_str("\n");
        append_column_labels(&mut text, "r");
        text.append("\n");
        let ghost head = text@;
        let mut i: usize = 0;
        while i < 16
            invariant
                i <= 16,
                self.wf(),
                text@ == head + register_cells(self@.registers, self@.register_heat, i as nat),
            decreases 16 - i,
        {
            append_register_cell(&mut text, self.register[i], self.heated_register[i]);
            assert(text@ =~= head + register_cells(
                self@.registers,
                self@.register_heat,
                (i + 1) as nat,
            ));
            i = i + 1;
        }
        text.append("\n");
        assert(text@ =~= registers_text(self@.registers, self@.register_heat));
        text
    }

    /// The table of memory as text, the cell under the program counter
    /// marked, every other value in the colour of its heat.
    pub fn render_memory(&self) -> (text: String)
        requires
            self.wf(),
        ensures
            text@ == memory_text(self@.memory, self@.memory_heat, self@.pc),
    {
        proof {
            reveal_strlit("\n    ");
            reveal_strlit("\n");
            reveal_strlit("m");
        }
        let mut text = String::from_str("\n    ");
        append_column_labels(&mut text, "m");
        let ghost head = text@;
        let mut i: usize = 0;
        while i < 256
            invariant
                i <= 256,
                self.wf(),
                text@ == head + memory_cells(
                    self@.memory,
                    self@.memory_heat,
                    self@.pc,
                    i as nat,
                ),
            decreases 256 - i,
        {
            append_memory_cell(
                &mut text,
                i as u8,
                self.memory[i],
                self.heated_memory[i],
                self.pc,
            );
            assert(text@ =~= head + memory_cells(
                self@.memory,
                self@.memory_heat,
                self@.pc,
                (i + 1) as nat,
            ));
            i = i + 1;
        }
        text.append("\n");
        assert(text@ =~= memory_text(self@.memory, self@.memory_heat, self@.pc));
        text
    }

    /// The count of cycles and the program counter as two lines of text.
    pub fn render_status(&self) -> (text: String)
        ensures
            text@ == status_text(self@.cycles, self@.pc),
    {
        let mut text = String::from_str("\nProgram's Used CPU Cycles: 0x");
        append_hex_number(&mut text, self.cycles);
        text.append("::");
        append_decimal(&mut text, self.cycles);
        text.append("\nProgram Counter: m0x");
        append_hex_number(&mut text, self.pc as u128);
        text.append("\n");
        text
    }

    /// The whole machine as text: the status lines, the table of registers
    /// and the table of memory.
    pub fn render(&self) -> (text: String)
        requires
            self.wf(),
        ensures
            text@ == status_text(self@.cycles, self@.pc) + registers_text(
                self@.registers,
                self@.register_heat,
            ) + memory_text(self@.memory, self@.memory_heat, self@.pc),
    {
        let mut text = self.render_status();
        text.append(self.render_registers().as_str());
        text.append(self.render_memory().as_str());
        text
    }
}

} // verus!
