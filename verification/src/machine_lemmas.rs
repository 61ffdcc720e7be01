//! What holds of the cycle: the state stays well-formed, the timers count
//! down, the call stack is bounded, and addition reports its carry.

use crate::fault::Fault;
use crate::instruction::{decoded, Instruction};
use crate::machine::{counted_down, Machine, Progress, FLAG_REGISTER, STACK_DEPTH};
use vstd::prelude::*;

verus! {

/// The operands of every decoded instruction are in range.
pub proof fn lemma_decoded_in_range(word: u16)
    ensures
        decoded(word) matches Some(instruction) ==> instruction.in_range(),
{
}

/// The state that a reset leaves is well-formed.
pub proof fn lemma_initial_wf()
    ensures
        Machine::initial().wf(),
{
}

/// A cycle leaves a well-formed state well-formed, however it ends.
pub proof fn lemma_cycle_keeps_wf(machine: Machine, input: Option<char>, random: u8)
    requires
        machine.wf(),
    ensures
        machine.cycle(input, random).1.wf(),
{
    lemma_decoded_in_range(machine.fetch());
    let after = machine.cycle(input, random).1;
    if machine.cycle(input, random).0 == Ok::<Progress, Fault>(Progress::Stepped) {
        let instruction = decoded(machine.fetch()).unwrap();
        let advanced = machine.advanced();
        let executed = advanced.execute(instruction, crate::keypad::pressed_key(input), random);
        assert(advanced.wf());
        assert(executed.wf()) by {
            match instruction {
                Instruction::Return => {
                    assert(advanced.stack.last() < 4096);
                },
                _ => {},
            }
        }
    }
}

/// The framebuffer changes only by the instructions that clear the screen
/// or draw a sprite.
pub proof fn lemma_screen_kept(machine: Machine, input: Option<char>, random: u8)
    requires
        !(decoded(machine.fetch()) matches Some(Instruction::ClearScreen)),
        !(decoded(machine.fetch()) matches Some(Instruction::Draw { .. })),
    ensures
        machine.cycle(input, random).1.screen == machine.screen,
{
}

/// An instruction makes of two states that differ in the overlay alone two
/// states that differ in the overlay alone.
proof fn lemma_execute_ignores_overlay(
    first: Machine,
    second: Machine,
    instruction: Instruction,
    key: Option<u8>,
    random: u8,
)
    requires
        first.same_but_overlay(second),
    ensures
        first.execute(instruction, key, random).same_but_overlay(
            second.execute(instruction, key, random),
        ),
{
    let left = first.execute(instruction, key, random);
    let right = second.execute(instruction, key, random);
    match instruction {
        Instruction::StoreRegisters { .. } => {
            assert(left.memory =~= right.memory);
        },
        Instruction::LoadRegisters { .. } => {
            assert(left.registers =~= right.registers);
        },
        Instruction::Draw { rows, .. } => {
            assert(first.sprite(rows) =~= second.sprite(rows));
        },
        _ => {},
    }
}

/// The overlay decides nothing: two states that differ in the overlay alone
/// end a cycle alike, and the states they leave differ in the overlay alone.
pub proof fn lemma_overlay_decides_nothing(
    first: Machine,
    second: Machine,
    input: Option<char>,
    random: u8,
)
    requires
        first.same_but_overlay(second),
    ensures
        first.cycle(input, random).0 == second.cycle(input, random).0,
        first.cycle(input, random).1.same_but_overlay(second.cycle(input, random).1),
{
    assert(first.fetch() == second.fetch());
    if first.fault().is_none() && !first.awaits_key(input) {
        lemma_execute_ignores_overlay(
            first.advanced(),
            second.advanced(),
            decoded(first.fetch()).unwrap(),
            crate::keypad::pressed_key(input),
            random,
        );
    }
}

/// A cycle that executes an instruction counts both timers down by one,
/// and not below zero: from the value that the instruction set, where it
/// set the timer, and else from the value before the cycle.
pub proof fn lemma_timers_count_down(machine: Machine, input: Option<char>, random: u8)
    requires
        machine.cycle(input, random).0 == Ok::<Progress, Fault>(Progress::Stepped),
    ensures
        machine.cycle(input, random).1.delay == counted_down(
            match decoded(machine.fetch()) {
                Some(Instruction::SetDelay { x }) => machine.register(x),
                _ => machine.delay,
            },
        ),
        machine.cycle(input, random).1.sound == counted_down(
            match decoded(machine.fetch()) {
                Some(Instruction::SetSound { x }) => machine.register(x),
                _ => machine.sound,
            },
        ),
{
    lemma_decoded_in_range(machine.fetch());
}

/// Whether cycle `k` of a run executes an instruction that does not set the
/// delay timer.
pub open spec fn steps_past_delay(
    machine: Machine,
    inputs: Seq<Option<char>>,
    randoms: Seq<u8>,
    k: nat,
) -> bool {
    &&& machine.outcome(inputs, randoms, k) == Ok::<Progress, Fault>(Progress::Stepped)
    &&& !(decoded(machine.run(inputs, randoms, k).fetch()) matches Some(
        Instruction::SetDelay { .. },
    ))
}

/// Over a run of cycles that each execute an instruction, none of which
/// sets the delay timer, the timer loses one per cycle until it is zero and
/// stays at zero from there on.
pub proof fn lemma_delay_after_cycles(
    machine: Machine,
    inputs: Seq<Option<char>>,
    randoms: Seq<u8>,
    cycles: nat,
)
    requires
        forall|k: nat| k < cycles ==> #[trigger] steps_past_delay(machine, inputs, randoms, k),
    ensures
        machine.run(inputs, randoms, cycles).delay == (if machine.delay >= cycles {
            machine.delay - cycles
        } else {
            0
        }),
    decreases cycles,
{
    if cycles > 0 {
        let before = (cycles - 1) as nat;
        lemma_delay_after_cycles(machine, inputs, randoms, before);
        assert(steps_past_delay(machine, inputs, randoms, before));
        let state = machine.run(inputs, randoms, before);
        lemma_timers_count_down(state, inputs[before as int], randoms[before as int]);
    }
}

/// A call succeeds exactly while fewer than sixteen calls are pending, and
/// pushes the address of the instruction after it; with sixteen pending it
/// faults and changes nothing.
pub proof fn lemma_call_depth(machine: Machine, input: Option<char>, random: u8)
    requires
        decoded(machine.fetch()) matches Some(Instruction::Call { .. }),
    ensures
        machine.stack.len() < STACK_DEPTH ==> machine.cycle(input, random).0 == Ok::<
            Progress,
            Fault,
        >(Progress::Stepped) && machine.cycle(input, random).1.stack == machine.stack.push(
            machine.advanced().pc,
        ),
        machine.stack.len() >= STACK_DEPTH ==> machine.cycle(input, random) == (
            Err::<Progress, Fault>(Fault::StackOverflow),
            machine,
        ),
{
}

/// A return succeeds exactly while a call is pending, and continues at the
/// address that the latest pending call pushed; with none pending it faults
/// and changes nothing.
pub proof fn lemma_return_depth(machine: Machine, input: Option<char>, random: u8)
    requires
        decoded(machine.fetch()) matches Some(Instruction::Return),
    ensures
        machine.stack.len() > 0 ==> machine.cycle(input, random).0 == Ok::<Progress, Fault>(
            Progress::Stepped,
        ) && machine.cycle(input, random).1.stack == machine.stack.drop_last() && machine.cycle(
            input,
            random,
        ).1.pc == machine.stack.last(),
        machine.stack.len() == 0 ==> machine.cycle(input, random) == (
            Err::<Progress, Fault>(Fault::StackUnderflow),
            machine,
        ),
{
}

/// Whether cycle `k` of a run finds a call at the program counter.
pub open spec fn calls_at(
    machine: Machine,
    inputs: Seq<Option<char>>,
    randoms: Seq<u8>,
    k: nat,
) -> bool {
    decoded(machine.run(inputs, randoms, k).fetch()) matches Some(Instruction::Call { .. })
}

/// Starting with no call pending, a run of cycles that each find a call at
/// the program counter nests sixteen calls and no more: each of the first
/// sixteen succeeds and adds one pending call, and the seventeenth faults
/// with a stack overflow.
pub proof fn lemma_nested_calls(
    machine: Machine,
    inputs: Seq<Option<char>>,
    randoms: Seq<u8>,
    calls: nat,
)
    requires
        machine.stack.len() == 0,
        forall|k: nat| k < calls ==> #[trigger] calls_at(machine, inputs, randoms, k),
    ensures
        forall|k: nat|
            k < calls && k < STACK_DEPTH ==> #[trigger] machine.outcome(inputs, randoms, k) == Ok::<
                Progress,
                Fault,
            >(Progress::Stepped),
        calls <= STACK_DEPTH ==> machine.run(inputs, randoms, calls).stack.len() == calls,
        calls > STACK_DEPTH ==> machine.outcome(inputs, randoms, STACK_DEPTH as nat) == Err::<
            Progress,
            Fault,
        >(Fault::StackOverflow),
    decreases calls,
{
    if calls > 0 {
        let before = (calls - 1) as nat;
        lemma_nested_calls(machine, inputs, randoms, before);
        assert(calls_at(machine, inputs, randoms, before));
        let state = machine.run(inputs, randoms, before);
        lemma_call_depth(state, inputs[before as int], randoms[before as int]);
    }
}

/// Adding one register to another stores the sum modulo 256 and sets the
/// flag register to 1 where the sum exceeds 255 and to 0 where it does not.
///
/// Where the destination is the flag register itself, the flag is what it
/// holds afterwards.
pub proof fn lemma_add_reports_carry(machine: Machine, x: u8, y: u8, key: Option<u8>, random: u8)
    requires
        machine.registers.len() == 16,
        x < 16,
        y < 16,
    ensures
        machine.execute(Instruction::Add { x, y }, key, random).register(FLAG_REGISTER as u8) == (
        if machine.register(x) + machine.register(y) > 255 {
            1u8
        } else {
            0u8
        }),
        x != FLAG_REGISTER ==> machine.execute(Instruction::Add { x, y }, key, random).register(x)
            == (machine.register(x) + machine.register(y)) % 256,
        forall|r: u8|
            r < 16 && r != x && r != FLAG_REGISTER ==> #[trigger] machine.execute(
                Instruction::Add { x, y },
                key,
                random,
            ).register(r) == machine.register(r),
{
}

} // verus!
