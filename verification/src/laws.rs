//! What holds of the machine over all states: how heat rises and fades, how
//! a run ends, and what loading writes.

use vstd::prelude::*;
use crate::alu::{
    bit_of, clamped_sum, lemma_clamped_sum_is_min, lemma_rotated_right_bits,
    lemma_wrapping_sum_is_signed_sum, low_nibble, rotated_right, signed8, wrapping_sum,
};
use crate::program::program_b;
use crate::state::{aged, loaded, Fault, MachineState, Status, MAX_HEAT};

verus! {

/// Running `n` cycles and then one more is running `n + 1` cycles.
pub proof fn lemma_steps_then_step(s: MachineState, n: nat)
    ensures
        s.steps(n + 1) == s.steps(n).step(),
    decreases n,
{
    if n > 0 {
        lemma_steps_then_step(s.step(), (n - 1) as nat);
    }
    reveal_with_fuel(MachineState::steps, 2);
}

/// A cycle keeps a well-formed state well formed.
pub proof fn lemma_step_well_formed(s: MachineState)
    requires
        s.well_formed(),
    ensures
        s.step().well_formed(),
{
}

/// Any number of cycles keeps a well-formed state well formed.
pub proof fn lemma_steps_well_formed(s: MachineState, n: nat)
    requires
        s.well_formed(),
    ensures
        s.steps(n).well_formed(),
    decreases n,
{
    if n > 0 {
        lemma_step_well_formed(s);
        lemma_steps_well_formed(s.step(), (n - 1) as nat);
    }
}

/// A cycle counts itself, whatever it decodes.
pub proof fn lemma_step_counts_one(s: MachineState)
    ensures
        s.step().cycles == s.cycles + 1,
{
}

/// After `n` cycles the count of cycles is `n` higher.
pub proof fn lemma_steps_count(s: MachineState, n: nat)
    ensures
        s.steps(n).cycles == s.cycles + n,
    decreases n,
{
    if n > 0 {
        lemma_steps_count(s.step(), (n - 1) as nat);
    }
}

/// Heat decides nothing: two states that differ in heat alone have, after a
/// cycle, the same registers, memory, program counter and cycle count, and
/// their cycles end alike.
pub proof fn lemma_heat_is_advisory(s: MachineState, t: MachineState)
    requires
        s.well_formed(),
        t.well_formed(),
        s.registers == t.registers,
        s.memory == t.memory,
        s.pc == t.pc,
        s.cycles == t.cycles,
    ensures
        s.step().registers == t.step().registers,
        s.step().memory == t.step().memory,
        s.step().pc == t.step().pc,
        s.step().cycles == t.step().cycles,
        s.step_outcome() == t.step_outcome(),
{
}

/// A cycle that decodes the wrapping addition writes to register R the sum
/// of the signed numbers in registers S and T, reduced modulo 256 and read
/// as an unsigned byte. It writes nothing else and moves on by two.
pub proof fn lemma_add_tc_cycle(s: MachineState)
    requires
        s.well_formed(),
        s.opcode() == 0x5,
    ensures
        s.step().registers == s.registers.update(
            s.field_r(),
            wrapping_sum(s.registers[s.field_s()], s.registers[s.field_t()]),
        ),
        s.step().registers[s.field_r()] as int == (signed8(s.registers[s.field_s()]) + signed8(
            s.registers[s.field_t()],
        )) % 256,
        s.step().memory == s.memory,
        s.step().pc as int == (s.pc + 2) % 256,
        s.step_outcome() == Ok::<Status, Fault>(Status::Continued),
{
    lemma_wrapping_sum_is_signed_sum(s.registers[s.field_s()], s.registers[s.field_t()]);
}

/// A cycle that decodes the clamped addition writes to register R the sum
/// of registers S and T, or 255 where the sum is larger. It writes nothing
/// else and moves on by two.
pub proof fn lemma_add_fl_cycle(s: MachineState)
    requires
        s.well_formed(),
        s.opcode() == 0x6,
    ensures
        s.step().registers == s.registers.update(
            s.field_r(),
            clamped_sum(s.registers[s.field_s()], s.registers[s.field_t()]),
        ),
        s.step().registers[s.field_r()] as int == vstd::math::min(
            255,
            s.registers[s.field_s()] + s.registers[s.field_t()],
        ),
        s.step().memory == s.memory,
        s.step().pc as int == (s.pc + 2) % 256,
        s.step_outcome() == Ok::<Status, Fault>(Status::Continued),
{
    lemma_clamped_sum_is_min(s.registers[s.field_s()], s.registers[s.field_t()]);
}

/// A cycle that decodes the rotation turns register R right by the encoded
/// distance modulo 8: bit `(i + distance) mod 8` of the old value is bit `i`
/// of the new one. It writes nothing else and moves on by two.
pub proof fn lemma_rotate_cycle(s: MachineState)
    requires
        s.well_formed(),
        s.opcode() == 0xA,
    ensures
        s.step().registers == s.registers.update(
            s.field_r(),
            rotated_right(s.registers[s.field_r()], (low_nibble(s.byte1()) % 8) as u8),
        ),
        forall|i: u8|
            i < 8 ==> #[trigger] bit_of(s.step().registers[s.field_r()], i) == bit_of(
                s.registers[s.field_r()],
                ((i + low_nibble(s.byte1())) % 8) as u8,
            ),
        s.step().memory == s.memory,
        s.step().pc as int == (s.pc + 2) % 256,
        s.step_outcome() == Ok::<Status, Fault>(Status::Continued),
{
    let x = s.registers[s.field_r()];
    let n = low_nibble(s.byte1());
    assert forall|i: u8| i < 8 implies #[trigger] bit_of(s.step().registers[s.field_r()], i)
        == bit_of(x, ((i + n) % 8) as u8) by {
        lemma_rotated_right_bits(x, n, i);
    }
}

/// A branch touches no cell and marks none. Taken, it lowers every heat
/// value by 2, those below 2 to zero, and sends the program counter to its
/// target; not taken, it lowers every heat value by 1 and the program
/// counter moves on by two.
pub proof fn lemma_branch_ages_heat(s: MachineState)
    requires
        s.well_formed(),
        s.opcode() == 0xB,
    ensures
        s.step().registers == s.registers,
        s.step().memory == s.memory,
        s.step_outcome() == Ok::<Status, Fault>(Status::Continued),
        s.branch_taken() ==> s.step().pc == s.byte1(),
        !s.branch_taken() ==> s.step().pc as int == (s.pc + 2) % 256,
        forall|i: int|
            0 <= i < 16 ==> #[trigger] s.step().register_heat[i] == aged(
                s.register_heat[i],
                if s.branch_taken() {
                    2
                } else {
                    1
                },
            ),
        forall|a: int|
            0 <= a < 256 ==> #[trigger] s.step().memory_heat[a] == aged(
                s.memory_heat[a],
                if s.branch_taken() {
                    2
                } else {
                    1
                },
            ),
{
}

/// After a cycle the cell that its instruction marked has the highest heat,
/// and every other cell has its former heat aged by what the cycle ages.
pub proof fn lemma_cycle_heat(s: MachineState)
    requires
        s.well_formed(),
    ensures
        forall|i: int|
            0 <= i < 16 ==> #[trigger] s.step().register_heat[i] == (if s.marked_register()
                == Some(i) {
                MAX_HEAT
            } else {
                aged(s.register_heat[i], s.cycle_decay())
            }),
        forall|a: int|
            0 <= a < 256 ==> #[trigger] s.step().memory_heat[a] == (if s.marked_memory() == Some(
                a,
            ) {
                MAX_HEAT
            } else {
                aged(s.memory_heat[a], s.cycle_decay())
            }),
{
}

/// A register that a cycle writes has the highest heat after it, unless the
/// cycle is a move between two different registers, which marks its source.
pub proof fn lemma_written_register_is_hot(s: MachineState, r: int)
    requires
        s.well_formed(),
        s.written_register() == Some(r),
        s.opcode() != 0x4 || s.field_s() == s.field_t(),
    ensures
        s.step().register_heat[r] == MAX_HEAT,
{
    lemma_cycle_heat(s);
}

/// A memory cell that a cycle writes has the highest heat after it.
pub proof fn lemma_written_memory_is_hot(s: MachineState, a: int)
    requires
        s.well_formed(),
        s.marked_memory() == Some(a),
    ensures
        s.step().memory[a] == s.registers[s.field_r()],
        s.step().memory_heat[a] == MAX_HEAT,
{
    lemma_cycle_heat(s);
}

/// A register that no cycle marks for `n` cycles in a row has lost at least
/// `n` of its heat by then, and is cold from the fifth cycle on.
pub proof fn lemma_register_heat_fades(s: MachineState, i: int, n: nat)
    requires
        s.well_formed(),
        0 <= i < 16,
        forall|k: nat| k < n ==> (#[trigger] s.steps(k)).marked_register() != Some(i),
    ensures
        s.steps(n).register_heat[i] <= aged(s.register_heat[i], n),
        n >= MAX_HEAT ==> s.steps(n).register_heat[i] == 0,
    decreases n,
{
    if n > 0 {
        let m = (n - 1) as nat;
        lemma_register_heat_fades(s, i, m);
        lemma_steps_well_formed(s, m);
        lemma_steps_then_step(s, m);
        lemma_cycle_heat(s.steps(m));
        assert(s.steps(m).marked_register() != Some(i));
    }
}

/// A memory cell that no cycle marks for `n` cycles in a row has lost at
/// least `n` of its heat by then, and is cold from the fifth cycle on.
pub proof fn lemma_memory_heat_fades(s: MachineState, a: int, n: nat)
    requires
        s.well_formed(),
        0 <= a < 256,
        forall|k: nat| k < n ==> (#[trigger] s.steps(k)).marked_memory() != Some(a),
    ensures
        s.steps(n).memory_heat[a] <= aged(s.memory_heat[a], n),
        n >= MAX_HEAT ==> s.steps(n).memory_heat[a] == 0,
    decreases n,
{
    if n > 0 {
        let m = (n - 1) as nat;
        lemma_memory_heat_fades(s, a, m);
        lemma_steps_well_formed(s, m);
        lemma_steps_then_step(s, m);
        lemma_cycle_heat(s.steps(m));
        assert(s.steps(m).marked_memory() != Some(a));
    }
}

/// A cycle ends with a fault exactly where the tag at the program counter
/// is 0xD, 0xE or 0xF. A run that meets such a tag in its first cycle ends
/// with that fault after that one cycle, whatever its budget; the faulting
/// cycle changes no cell and leaves the program counter in place.
pub proof fn lemma_invalid_opcode_ends_run(s: MachineState, budget: nat)
    requires
        budget > 0,
    ensures
        s.step_outcome().is_err() <==> s.opcode() >= 0xD,
        s.opcode() >= 0xD ==> {
            &&& s.run_length(budget) == 1
            &&& s.run_outcome(budget) == Err::<Status, Fault>(
                Fault::InvalidOpcode { opcode: s.opcode(), address: s.pc },
            )
            &&& s.step().registers == s.registers
            &&& s.step().memory == s.memory
            &&& s.step().pc == s.pc
        },
{
}

/// A cycle ends halted exactly where the tag at the program counter is
/// 0xC. A run that meets the halt in its first cycle ends halted after that
/// one cycle, whatever its budget; the halting cycle changes no cell and
/// leaves the program counter in place.
pub proof fn lemma_halt_ends_run(s: MachineState, budget: nat)
    requires
        budget > 0,
    ensures
        s.step_outcome() == Ok::<Status, Fault>(Status::Halted) <==> s.opcode() == 0xC,
        s.opcode() == 0xC ==> {
            &&& s.run_length(budget) == 1
            &&& s.run_outcome(budget) == Ok::<Status, Fault>(Status::Halted)
            &&& s.step().registers == s.registers
            &&& s.step().memory == s.memory
            &&& s.step().pc == s.pc
        },
{
}

/// A run executes no cycle after one that did not end as continued: every
/// cycle before its last one ended as continued, and it is shorter than its
/// budget only where its last cycle halted or faulted.
pub proof fn lemma_run_stops_at_first_end(s: MachineState, budget: nat)
    ensures
        s.run_length(budget) <= budget,
        forall|k: nat|
            k + 1 < s.run_length(budget) ==> (#[trigger] s.steps(k)).step_outcome() == Ok::<
                Status,
                Fault,
            >(Status::Continued),
        s.run_length(budget) > 0 ==> s.run_outcome(budget) == s.steps(
            (s.run_length(budget) - 1) as nat,
        ).step_outcome(),
        s.run_length(budget) < budget ==> s.run_outcome(budget) != Ok::<Status, Fault>(
            Status::Continued,
        ),
    decreases budget,
{
    if budget > 0 && s.step_outcome() == Ok::<Status, Fault>(Status::Continued) {
        let rest = (budget - 1) as nat;
        lemma_run_stops_at_first_end(s.step(), rest);
        assert forall|k: nat| k + 1 < s.run_length(budget) implies (#[trigger] s.steps(
            k,
        )).step_outcome() == Ok::<Status, Fault>(Status::Continued) by {
            if k > 0 {
                assert(s.steps(k) == s.step().steps((k - 1) as nat));
            }
        }
        let last = (s.step().run_length(rest) - 1) as nat;
        if s.step().run_length(rest) > 0 {
            assert(s.steps(last + 1) == s.step().steps(last));
        }
    }
}

/// A run that ends halted leaves the program counter on a halt instruction,
/// and one that ends with a fault leaves it on the invalid tag that the
/// fault names.
pub proof fn lemma_run_rests_on_its_last_instruction(s: MachineState, budget: nat)
    requires
        s.well_formed(),
    ensures
        s.run_outcome(budget) == Ok::<Status, Fault>(Status::Halted) ==> s.steps(
            s.run_length(budget),
        ).opcode() == 0xC,
        s.run_outcome(budget).is_err() ==> s.steps(s.run_length(budget)).opcode() >= 0xD
            && s.run_outcome(budget) == Err::<Status, Fault>(
            Fault::InvalidOpcode {
                opcode: s.steps(s.run_length(budget)).opcode(),
                address: s.steps(s.run_length(budget)).pc,
            },
        ),
    decreases budget,
{
    if budget > 0 {
        if s.step_outcome() == Ok::<Status, Fault>(Status::Continued) {
            lemma_step_well_formed(s);
            lemma_run_rests_on_its_last_instruction(s.step(), (budget - 1) as nat);
        } else {
            reveal_with_fuel(MachineState::steps, 2);
        }
    }
}

/// Loading keeps the size of memory.
pub proof fn lemma_loaded_len(memory: Seq<u8>, code: Seq<u8>, start: u8)
    requires
        memory.len() == 256,
    ensures
        loaded(memory, code, start).len() == 256,
    decreases code.len(),
{
    if code.len() > 0 {
        lemma_loaded_len(memory, code.drop_last(), start);
    }
}

/// A program that ends at or before address 255 lies in memory byte for
/// byte from its start address on, and every other cell is as it was.
pub proof fn lemma_loaded_in_place(memory: Seq<u8>, code: Seq<u8>, start: u8)
    requires
        memory.len() == 256,
        start + code.len() <= 256,
    ensures
        forall|i: int| 0 <= i < code.len() ==> #[trigger] loaded(memory, code, start)[start + i] == code[i],
        forall|a: int|
            0 <= a < 256 && !(start <= a < start + code.len()) ==> #[trigger] loaded(
                memory,
                code,
                start,
            )[a] == memory[a],
    decreases code.len(),
{
    if code.len() > 0 {
        lemma_loaded_len(memory, code.drop_last(), start);
        lemma_loaded_in_place(memory, code.drop_last(), start);
        let before = loaded(memory, code.drop_last(), start);
        assert forall|i: int| 0 <= i < code.len() implies #[trigger] loaded(memory, code, start)[start
            + i] == code[i] by {
            if i < code.len() - 1 {
                assert(before[start + i] == code.drop_last()[i]);
            }
        }
    }
}

/// Where a program runs past address 255, each cell holds the byte that was
/// written to it last: the cell at `(start + i) mod 256` holds byte `i`
/// unless a later byte of the program falls on the same cell.
pub proof fn lemma_loaded_last_write_wins(memory: Seq<u8>, code: Seq<u8>, start: u8, i: int)
    requires
        memory.len() == 256,
        0 <= i < code.len(),
        i + 256 >= code.len(),
    ensures
        loaded(memory, code, start)[(start + i) % 256] == code[i],
    decreases code.len(),
{
    lemma_loaded_len(memory, code.drop_last(), start);
    if i < code.len() - 1 {
        lemma_loaded_last_write_wins(memory, code.drop_last(), start, i);
        assert(code.drop_last()[i] == code[i]);
        assert((start + i) % 256 != (start + code.len() - 1) % 256);
    }
}

/// The library's program B, started at address 0 with its bytes in the
/// first fourteen cells, halts in its twelfth cycle with 4 in registers 0
/// and 1, on any budget of twelve cycles or more.
pub proof fn lemma_program_b_counts_to_four(s: MachineState, budget: nat)
    requires
        s.well_formed(),
        s.pc == 0,
        s.memory.subrange(0, 14) == program_b().code,
        budget >= 12,
    ensures
        s.run_length(budget) == 12,
        s.run_outcome(budget) == Ok::<Status, Fault>(Status::Halted),
        s.steps(12).registers[0] == 4,
        s.steps(12).registers[1] == 4,
        s.steps(12).cycles == s.cycles + 12,
        s.steps(12).pc == 0x0C,
{
    let code = program_b().code;
    assert forall|i: int| 0 <= i < 14 implies s.memory[i] == code[i] by {
        assert(s.memory.subrange(0, 14)[i] == s.memory[i]);
    }
    let s1 = s.step();
    assert(s1.pc == 2 && s1.memory == s.memory && s1.registers[0] == 4 && s1.well_formed());
    let s2 = s1.step();
    assert(s2.pc == 4 && s2.memory == s.memory && s2.registers[0] == 4 && s2.registers[1] == 1
        && s2.well_formed());
    let s3 = s2.step();
    assert(s3.pc == 6 && s3.memory == s.memory && s3.registers[0] == 4 && s3.registers[1] == 1
        && s3.registers[2] == 1 && s3.well_formed());
    let s4 = s3.step();
    assert(s4.pc == 8 && s4.memory == s.memory && s4.registers[0] == 4 && s4.registers[1] == 2
        && s4.registers[2] == 1 && s4.well_formed());
    let s5 = s4.step();
    assert(s5.pc == 10 && s5.memory == s.memory && s5.registers == s4.registers
        && s5.well_formed());
    let s6 = s5.step();
    assert(s6.pc == 6 && s6.memory == s.memory && s6.registers == s4.registers
        && s6.well_formed());
    let s7 = s6.step();
    assert(s7.pc == 8 && s7.memory == s.memory && s7.registers[0] == 4 && s7.registers[1] == 3
        && s7.registers[2] == 1 && s7.well_formed());
    let s8 = s7.step();
    assert(s8.pc == 10 && s8.memory == s.memory && s8.registers == s7.registers
        && s8.well_formed());
    let s9 = s8.step();
    assert(s9.pc == 6 && s9.memory == s.memory && s9.registers == s7.registers
        && s9.well_formed());
    let s10 = s9.step();
    assert(s10.pc == 8 && s10.memory == s.memory && s10.registers[0] == 4 && s10.registers[1]
        == 4 && s10.well_formed());
    let s11 = s10.step();
    assert(s11.pc == 12 && s11.memory == s.memory && s11.registers == s10.registers
        && s11.well_formed());
    let s12 = s11.step();
    assert(s12.pc == 12 && s12.registers == s10.registers);

    assert(s11.run_length((budget - 11) as nat) == 1);
    assert(s10.run_length((budget - 10) as nat) == 2);
    assert(s9.run_length((budget - 9) as nat) == 3);
    assert(s8.run_length((budget - 8) as nat) == 4);
    assert(s7.run_length((budget - 7) as nat) == 5);
    assert(s6.run_length((budget - 6) as nat) == 6);
    assert(s5.run_length((budget - 5) as nat) == 7);
    assert(s4.run_length((budget - 4) as nat) == 8);
    assert(s3.run_length((budget - 3) as nat) == 9);
    assert(s2.run_length((budget - 2) as nat) == 10);
    assert(s1.run_length((budget - 1) as nat) == 11);

    let halted = Ok::<Status, Fault>(Status::Halted);
    assert(s11.run_outcome((budget - 11) as nat) == halted);
    assert(s10.run_outcome((budget - 10) as nat) == halted);
    assert(s9.run_outcome((budget - 9) as nat) == halted);
    assert(s8.run_outcome((budget - 8) as nat) == halted);
    assert(s7.run_outcome((budget - 7) as nat) == halted);
    assert(s6.run_outcome((budget - 6) as nat) == halted);
    assert(s5.run_outcome((budget - 5) as nat) == halted);
    assert(s4.run_outcome((budget - 4) as nat) == halted);
    assert(s3.run_outcome((budget - 3) as nat) == halted);
    assert(s2.run_outcome((budget - 2) as nat) == halted);
    assert(s1.run_outcome((budget - 1) as nat) == halted);

    assert(s.steps(0) == s);
    lemma_steps_then_step(s, 0);
    lemma_steps_then_step(s, 1);
    lemma_steps_then_step(s, 2);
    lemma_steps_then_step(s, 3);
    lemma_steps_then_step(s, 4);
    lemma_steps_then_step(s, 5);
    lemma_steps_then_step(s, 6);
    lemma_steps_then_step(s, 7);
    lemma_steps_then_step(s, 8);
    lemma_steps_then_step(s, 9);
    lemma_steps_then_step(s, 10);
    lemma_steps_then_step(s, 11);
    assert(s.steps(12) == s12);
    lemma_steps_count(s, 12);
}

/// Loading the library's program B at address 0 into any machine and
/// running it halts in the twelfth cycle with 4 in registers 0 and 1.
pub proof fn lemma_loaded_program_b_counts_to_four(s: MachineState, budget: nat)
    requires
        s.well_formed(),
        budget >= 12,
    ensures
        ({
            let t = MachineState { memory: loaded(s.memory, program_b().code, 0), pc: 0, ..s };
            &&& t.run_length(budget) == 12
            &&& t.run_outcome(budget) == Ok::<Status, Fault>(Status::Halted)
            &&& t.steps(12).registers[0] == 4
            &&& t.steps(12).registers[1] == 4
            &&& t.steps(12).cycles == s.cycles + 12
        }),
{
    let code = program_b().code;
    let t = MachineState { memory: loaded(s.memory, code, 0), pc: 0, ..s };
    lemma_loaded_len(s.memory, code, 0);
    lemma_loaded_in_place(s.memory, code, 0);
    assert forall|i: int| 0 <= i < 14 implies t.memory.subrange(0, 14)[i] == code[i] by {
        assert(t.memory[0 + i] == code[i]);
    }
    assert(t.memory.subrange(0, 14) =~= code);
    lemma_program_b_counts_to_four(t, budget);
}

} // verus!
