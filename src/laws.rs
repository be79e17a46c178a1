//! Properties of the machine that relate several steps or hold of every state.

use vstd::prelude::*;
use crate::semantics::{
    addr_nnn, byte_nn, family, lemma_fields, nib_x, step, top_pressed, word_at,
};
use crate::state::{
    blank_screen, timers_ticked, valid, EmuState, NUM_KEYS, RAM_SIZE, SCREEN_PIXELS,
};

verus! {

/// A cycle that succeeds leaves a valid machine, so the program counter stays
/// inside memory after every cycle, or the cycle reports an error.
pub proof fn lemma_step_keeps_pc_in_memory(s: EmuState, rnd: u8)
    requires
        valid(s),
    ensures
        step(s, rnd) is Ok ==> valid(step(s, rnd)->Ok_0) && step(s, rnd)->Ok_0.pc < RAM_SIZE,
{
    if s.pc + 1 < RAM_SIZE {
        lemma_fields(word_at(s.ram, s.pc as int));
    }
}

/// The highest pressed key below `m`: -1 exactly when none is pressed, and
/// otherwise a pressed key above which none is.
pub proof fn lemma_top_pressed(keys: Seq<bool>, m: int)
    requires
        0 <= m <= keys.len(),
    ensures
        -1 <= top_pressed(keys, m) < m,
        (top_pressed(keys, m) == -1) <==> (forall|j: int| 0 <= j < m ==> !keys[j]),
        top_pressed(keys, m) >= 0 ==> keys[top_pressed(keys, m)] && forall|j: int|
            top_pressed(keys, m) < j < m ==> !keys[j],
    decreases m,
{
    if m > 0 {
        lemma_top_pressed(keys, m - 1);
    }
}

/// Clearing the screen leaves every pixel dark, whatever was drawn before.
pub proof fn lemma_clear_screen(s: EmuState, rnd: u8)
    requires
        valid(s),
        s.pc + 2 < RAM_SIZE,
        word_at(s.ram, s.pc as int) == 0x00E0,
    ensures
        step(s, rnd) is Ok,
        step(s, rnd)->Ok_0.screen == blank_screen(),
        forall|k: int| 0 <= k < SCREEN_PIXELS ==> !(#[trigger] step(s, rnd)->Ok_0.screen[k]),
{
}

/// A call to `nnn` whose target returns at once brings the program counter
/// back to the address after the call, with the stack as deep as before.
pub proof fn lemma_call_then_return(s: EmuState, rnd: u8, nnn: u16)
    requires
        valid(s),
        s.sp < 16,
        s.pc + 2 < RAM_SIZE,
        nnn + 1 < RAM_SIZE,
        word_at(s.ram, s.pc as int) == 0x2000 + nnn,
        word_at(s.ram, nnn as int) == 0x00EE,
    ensures
        step(s, rnd) is Ok,
        step(s, rnd)->Ok_0.pc == nnn,
        step(step(s, rnd)->Ok_0, rnd) is Ok,
        step(step(s, rnd)->Ok_0, rnd)->Ok_0.pc == s.pc + 2,
        step(step(s, rnd)->Ok_0, rnd)->Ok_0 == (EmuState {
            pc: (s.pc + 2) as u16,
            stack: s.stack.update(s.sp as int, (s.pc + 2) as u16),
            ..s
        }),
{
    let op = (0x2000 + nnn) as u16;
    assert(family(op) == 2 && addr_nnn(op) == nnn && op != 0 && op != 0x00E0 && op != 0x00EE)
        by (bit_vector)
        requires
            op == 0x2000 + nnn,
            nnn < 4096,
    ;
    let t = step(s, rnd)->Ok_0;
    assert(family(0x00EEu16) == 0) by (bit_vector);
}

/// Waiting for a key with none pressed changes nothing: the same instruction
/// runs again on the next cycle.
pub proof fn lemma_get_key_waits(s: EmuState, rnd: u8)
    requires
        valid(s),
        s.pc + 1 < RAM_SIZE,
        family(word_at(s.ram, s.pc as int)) == 0xF,
        byte_nn(word_at(s.ram, s.pc as int)) == 0x0A,
        forall|k: int| 0 <= k < NUM_KEYS ==> !s.keys[k],
    ensures
        step(s, rnd) == Ok::<EmuState, crate::state::EmuError>(s),
{
    let op = word_at(s.ram, s.pc as int);
    lemma_fields(op);
    lemma_top_pressed(s.keys, NUM_KEYS as int);
    assert(op != 0 && op != 0x00E0 && op != 0x00EE) by (bit_vector)
        requires
            op >> 12u16 == 0xF,
    ;
}

/// Waiting for a key with some key pressed stores the highest pressed key in
/// VX and moves on to the next instruction.
pub proof fn lemma_get_key_takes_key(s: EmuState, rnd: u8)
    requires
        valid(s),
        s.pc + 2 < RAM_SIZE,
        family(word_at(s.ram, s.pc as int)) == 0xF,
        byte_nn(word_at(s.ram, s.pc as int)) == 0x0A,
        exists|k: int| 0 <= k < NUM_KEYS && s.keys[k],
    ensures
        step(s, rnd) is Ok,
        step(s, rnd)->Ok_0.pc == s.pc + 2,
        s.keys[step(s, rnd)->Ok_0.v[nib_x(word_at(s.ram, s.pc as int)) as int] as int],
        forall|j: int|
            step(s, rnd)->Ok_0.v[nib_x(word_at(s.ram, s.pc as int)) as int] < j < NUM_KEYS
                ==> !s.keys[j],
{
    let op = word_at(s.ram, s.pc as int);
    lemma_fields(op);
    lemma_top_pressed(s.keys, NUM_KEYS as int);
    assert(op != 0 && op != 0x00E0 && op != 0x00EE) by (bit_vector)
        requires
            op >> 12u16 == 0xF,
    ;
}

/// The timers stop at zero: a delay timer at zero stays there. A sound timer
/// at one reaches zero on the next tick, which is the tick that ends the
/// tone, and it is not at one on the tick after, so the tone ends once.
pub proof fn lemma_timers_stop_at_zero(s: EmuState)
    ensures
        s.dt == 0 ==> timers_ticked(s).dt == 0,
        s.st == 0 ==> timers_ticked(s).st == 0,
        s.st == 1 ==> timers_ticked(s).st == 0 && timers_ticked(s).st != 1 && timers_ticked(
            timers_ticked(s),
        ).st == 0,
{
}

/// Only the random-byte instruction reads the random byte: for any other
/// instruction at the program counter, a cycle has one outcome whatever byte
/// is drawn, so `tick` is then exactly `tick_with`.
pub proof fn lemma_step_ignores_random(s: EmuState, a: u8, b: u8)
    requires
        valid(s),
        s.pc + 1 < RAM_SIZE ==> family(word_at(s.ram, s.pc as int)) != 0xC,
    ensures
        step(s, a) == step(s, b),
{
}

} // verus!
