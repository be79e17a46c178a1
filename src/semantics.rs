//! What one instruction does, and what one cycle does, as functions on states.

use vstd::prelude::*;
use crate::state::{
    blank_screen, overwrite, EmuError, EmuState, NUM_KEYS, RAM_SIZE, SCREEN_HEIGHT, SCREEN_PIXELS,
    SCREEN_WIDTH, STACK_SIZE, VF,
};

verus! {

/// The operation family: the high nibble.
pub open spec fn family(op: u16) -> u16 {
    op >> 12u16
}

/// The register operand X: the second nibble.
pub open spec fn nib_x(op: u16) -> u16 {
    (op >> 8u16) & 0xFu16
}

/// The register operand Y: the third nibble.
pub open spec fn nib_y(op: u16) -> u16 {
    (op >> 4u16) & 0xFu16
}

/// The low nibble N.
pub open spec fn nib_n(op: u16) -> u16 {
    op & 0xFu16
}

/// The 12-bit address NNN.
pub open spec fn addr_nnn(op: u16) -> u16 {
    op & 0xFFFu16
}

/// The low byte NN.
pub open spec fn byte_nn(op: u16) -> u8 {
    (op & 0xFFu16) as u8
}

/// The big-endian instruction word at address `a`.
pub open spec fn word_at(ram: Seq<u8>, a: int) -> u16 {
    ((ram[a] as u16) << 8u16) | (ram[a + 1] as u16)
}

/// Bounds of the decoded fields.
pub proof fn lemma_fields(op: u16)
    ensures
        family(op) < 16,
        nib_x(op) < 16,
        nib_y(op) < 16,
        nib_n(op) < 16,
        addr_nnn(op) < 4096,
{
    assert(op >> 12u16 < 16) by (bit_vector);
    assert((op >> 8u16) & 0xFu16 < 16) by (bit_vector);
    assert((op >> 4u16) & 0xFu16 < 16) by (bit_vector);
    assert(op & 0xFu16 < 16) by (bit_vector);
    assert(op & 0xFFFu16 < 4096) by (bit_vector);
}

/// `s` with register `x` set to `val`.
pub open spec fn set_v(s: EmuState, x: int, val: u8) -> EmuState {
    EmuState { v: s.v.update(x, val), ..s }
}

/// `s` with register `x` set to `val`, then VF set to `flag`.
pub open spec fn set_v_flag(s: EmuState, x: int, val: u8, flag: u8) -> EmuState {
    EmuState { v: s.v.update(x, val).update(VF as int, flag), ..s }
}

/// `s` with the next instruction skipped when `cond` holds.
pub open spec fn skip_if(s: EmuState, cond: bool) -> EmuState {
    if cond {
        EmuState { pc: (s.pc + 2) as u16, ..s }
    } else {
        s
    }
}

/// The register-to-register family 8XYN.
pub open spec fn alu(s: EmuState, op: u16) -> Result<EmuState, EmuError> {
    let x = nib_x(op) as int;
    let vx = s.v[x];
    let vy = s.v[nib_y(op) as int];
    let n = nib_n(op);
    if n == 0 {
        Ok(set_v(s, x, vy))
    } else if n == 1 {
        Ok(set_v(s, x, vx | vy))
    } else if n == 2 {
        Ok(set_v(s, x, vx & vy))
    } else if n == 3 {
        Ok(set_v(s, x, vx ^ vy))
    } else if n == 4 {
        Ok(set_v_flag(s, x, ((vx + vy) % 256) as u8, if vx + vy > 255 { 1 } else { 0 }))
    } else if n == 5 {
        Ok(set_v_flag(s, x, ((vx - vy + 256) % 256) as u8, if vx >= vy { 1 } else { 0 }))
    } else if n == 6 {
        Ok(set_v_flag(s, x, vx / 2, vx % 2))
    } else if n == 7 {
        Ok(set_v_flag(s, x, ((vy - vx + 256) % 256) as u8, if vy >= vx { 1 } else { 0 }))
    } else if n == 0xE {
        Ok(set_v_flag(s, x, ((vx * 2) % 256) as u8, vx / 128))
    } else {
        Err(EmuError::UnknownOpcode(op))
    }
}

/// Whether bit `col` of `b` is set, counting from the most significant bit.
pub open spec fn bit_at(b: u8, col: u8) -> bool {
    (b >> (7u8 - col) as u8) & 1u8 == 1u8
}

/// Column of a sprite drawn at `vx` that covers pixel `k`, when below 8.
pub open spec fn sprite_col(vx: u8, k: int) -> int {
    (k % SCREEN_WIDTH as int - vx) % SCREEN_WIDTH as int
}

/// Row of a sprite drawn at `vy` that covers pixel `k`, when below its height.
pub open spec fn sprite_row(vy: u8, k: int) -> int {
    (k / SCREEN_WIDTH as int - vy) % SCREEN_HEIGHT as int
}

/// Whether a sprite of `n` rows read from `ram` at `i` and drawn at
/// (`vx`, `vy`), wrapping at the display's edges, has a set bit on pixel `k`.
pub open spec fn sprite_hits(ram: Seq<u8>, i: u16, vx: u8, vy: u8, n: u16, k: int) -> bool {
    let col = sprite_col(vx, k);
    let row = sprite_row(vy, k);
    col < 8 && row < n && bit_at(ram[i + row], col as u8)
}

/// Sprite drawing DXYN: each pixel under a set sprite bit is flipped; VF
/// tells whether any lit pixel went dark.
pub open spec fn draw(s: EmuState, op: u16) -> Result<EmuState, EmuError> {
    let vx = s.v[nib_x(op) as int];
    let vy = s.v[nib_y(op) as int];
    let n = nib_n(op);
    if s.i + n > RAM_SIZE {
        Err(EmuError::OutOfBounds)
    } else {
        let hit = |k: int| sprite_hits(s.ram, s.i, vx, vy, n, k);
        let collision = exists|k: int| 0 <= k < SCREEN_PIXELS && #[trigger] hit(k) && s.screen[k];
        Ok(EmuState {
            screen: Seq::new(SCREEN_PIXELS as nat, |k: int| s.screen[k] != hit(k)),
            v: s.v.update(VF as int, if collision { 1u8 } else { 0u8 }),
            ..s
        })
    }
}

/// The highest pressed key below `k`, or -1 when none is.
pub open spec fn top_pressed(keys: Seq<bool>, k: int) -> int
    decreases k,
{
    if k <= 0 {
        -1
    } else if keys[k - 1] {
        k - 1
    } else {
        top_pressed(keys, k - 1)
    }
}

/// The decimal digits of `v`, without leading zeros (a single 0 for zero).
pub open spec fn bcd_digits(v: u8) -> Seq<u8> {
    if v >= 100 {
        seq![v / 100, (v / 10) % 10, v % 10]
    } else if v >= 10 {
        seq![v / 10, v % 10]
    } else {
        seq![v]
    }
}

/// The family FXNN: timers, index register, keys, glyphs and block transfer.
pub open spec fn misc(s: EmuState, op: u16) -> Result<EmuState, EmuError> {
    let x = nib_x(op) as int;
    let vx = s.v[x];
    let nn = byte_nn(op);
    if nn == 0x07 {
        Ok(set_v(s, x, s.dt))
    } else if nn == 0x0A {
        let key = top_pressed(s.keys, NUM_KEYS as int);
        if key < 0 {
            Ok(EmuState { pc: (s.pc - 2) as u16, ..s })
        } else {
            Ok(set_v(s, x, key as u8))
        }
    } else if nn == 0x15 {
        Ok(EmuState { dt: vx, ..s })
    } else if nn == 0x18 {
        Ok(EmuState { st: vx, ..s })
    } else if nn == 0x1E {
        Ok(EmuState { i: ((s.i + vx) % 0x10000) as u16, ..s })
    } else if nn == 0x29 {
        if vx >= 16 {
            Err(EmuError::OutOfBounds)
        } else {
            Ok(EmuState { i: (5 * vx) as u16, ..s })
        }
    } else if nn == 0x33 {
        if s.i + bcd_digits(vx).len() > RAM_SIZE {
            Err(EmuError::OutOfBounds)
        } else {
            Ok(EmuState { ram: overwrite(s.ram, s.i as int, bcd_digits(vx)), ..s })
        }
    } else if nn == 0x55 {
        if s.i + x + 1 > RAM_SIZE {
            Err(EmuError::OutOfBounds)
        } else {
            Ok(EmuState { ram: overwrite(s.ram, s.i as int, s.v.subrange(0, x + 1)), ..s })
        }
    } else if nn == 0x65 {
        if s.i + x + 1 > RAM_SIZE {
            Err(EmuError::OutOfBounds)
        } else {
            Ok(EmuState { v: overwrite(s.v, 0, s.ram.subrange(s.i as int, s.i + x + 1)), ..s })
        }
    } else {
        Err(EmuError::UnknownOpcode(op))
    }
}

/// The effect of instruction `op` on `s`, whose program counter has already
/// moved past it; `rnd` is the random byte that CXNN uses.
pub open spec fn execute(s: EmuState, op: u16, rnd: u8) -> Result<EmuState, EmuError> {
    let f = family(op);
    let x = nib_x(op) as int;
    let vx = s.v[x];
    let vy = s.v[nib_y(op) as int];
    let nn = byte_nn(op);
    let nnn = addr_nnn(op);
    if op == 0x0000 {
        Ok(s)
    } else if op == 0x00E0 {
        Ok(EmuState { screen: blank_screen(), ..s })
    } else if op == 0x00EE {
        if s.sp == 0 {
            Err(EmuError::StackUnderflow)
        } else {
            Ok(EmuState { pc: s.stack[s.sp - 1], sp: (s.sp - 1) as u16, ..s })
        }
    } else if f == 1 {
        Ok(EmuState { pc: nnn, ..s })
    } else if f == 2 {
        if s.sp >= STACK_SIZE {
            Err(EmuError::StackOverflow)
        } else {
            Ok(EmuState { stack: s.stack.update(s.sp as int, s.pc), sp: (s.sp + 1) as u16, pc: nnn, ..s })
        }
    } else if f == 3 {
        Ok(skip_if(s, vx == nn))
    } else if f == 4 {
        Ok(skip_if(s, vx != nn))
    } else if f == 5 && nib_n(op) == 0 {
        Ok(skip_if(s, vx == vy))
    } else if f == 6 {
        Ok(set_v(s, x, nn))
    } else if f == 7 {
        Ok(set_v(s, x, ((vx + nn) % 256) as u8))
    } else if f == 8 {
        alu(s, op)
    } else if f == 9 && nib_n(op) == 0 {
        Ok(skip_if(s, vx != vy))
    } else if f == 0xA {
        Ok(EmuState { i: nnn, ..s })
    } else if f == 0xB {
        Ok(EmuState { pc: (s.v[0] + nnn) as u16, ..s })
    } else if f == 0xC {
        Ok(set_v(s, x, rnd & nn))
    } else if f == 0xD {
        draw(s, op)
    } else if f == 0xE && (nn == 0x9E || nn == 0xA1) {
        if vx >= NUM_KEYS {
            Err(EmuError::OutOfBounds)
        } else if nn == 0x9E {
            Ok(skip_if(s, s.keys[vx as int]))
        } else {
            Ok(skip_if(s, !s.keys[vx as int]))
        }
    } else if f == 0xF {
        misc(s, op)
    } else {
        Err(EmuError::UnknownOpcode(op))
    }
}

/// A result whose program counter lies outside memory becomes a bounds
/// violation.
pub open spec fn within_memory(res: Result<EmuState, EmuError>) -> Result<EmuState, EmuError> {
    match res {
        Ok(t) => if t.pc < RAM_SIZE {
            Ok(t)
        } else {
            Err(EmuError::OutOfBounds)
        },
        Err(e) => Err(e),
    }
}

/// One whole cycle from `s`: fetch the word at the program counter, move
/// past it, execute it. Both bytes of the word must lie in memory, and so
/// must the program counter that the instruction leaves.
pub open spec fn step(s: EmuState, rnd: u8) -> Result<EmuState, EmuError> {
    if s.pc + 1 >= RAM_SIZE {
        Err(EmuError::OutOfBounds)
    } else {
        within_memory(execute(EmuState { pc: (s.pc + 2) as u16, ..s }, word_at(s.ram, s.pc as int), rnd))
    }
}

/// A call that was to take `before` to `expected` did so: on success it
/// reached that state, on failure it returned that error and changed nothing.
pub open spec fn settles(
    before: EmuState,
    after: EmuState,
    r: Result<(), EmuError>,
    expected: Result<EmuState, EmuError>,
) -> bool {
    match expected {
        Ok(t) => r == Ok::<(), EmuError>(()) && after == t,
        Err(e) => r == Err::<(), EmuError>(e) && after == before,
    }
}

/// Where a sprite cell lands: pixel `k` is the cell at (`col`, `row`) of a
/// sprite drawn at (`vx`, `vy`) exactly when `k` is that cell's wrapped index.
pub proof fn lemma_sprite_cell(vx: u8, vy: u8, row: int, col: int, k: int)
    requires
        0 <= row < 16,
        0 <= col < 8,
        0 <= k < SCREEN_PIXELS,
    ensures
        0 <= ((vy + row) % 32) * 64 + (vx + col) % 64 < SCREEN_PIXELS,
        (k == ((vy + row) % 32) * 64 + (vx + col) % 64) <==> (sprite_col(vx, k) == col
            && sprite_row(vy, k) == row),
{
    let p = (vy + row) % 32;
    let q = (vx + col) % 64;
    assert(0 <= p < 32 && 0 <= q < 64);
    assert(0 <= p * 64 + q < 2048) by (nonlinear_arith)
        requires
            0 <= p < 32,
            0 <= q < 64,
    ;
    let px = k % 64;
    let py = k / 64;
    assert(k == py * 64 + px && 0 <= px < 64 && 0 <= py < 32);
    if k == p * 64 + q {
        assert(py == p && px == q) by (nonlinear_arith)
            requires
                k == py * 64 + px,
                k == p * 64 + q,
                0 <= px < 64,
                0 <= q < 64,
        ;
        assert((q - vx) % 64 == col);
        assert((p - vy) % 32 == row);
    }
    if sprite_col(vx, k) == col && sprite_row(vy, k) == row {
        assert((px - vx) % 64 == col);
        assert(px == q);
        assert(py == p);
    }
}

/// From a program counter inside memory, only a branch can leave memory,
/// and a branch changes nothing but the program counter and stack pointer.
pub proof fn lemma_leaving_memory_is_a_branch(s: EmuState, op: u16, rnd: u8)
    requires
        s.pc < RAM_SIZE,
        execute(s, op, rnd) is Ok,
        execute(s, op, rnd)->Ok_0.pc >= RAM_SIZE,
    ensures
        execute(s, op, rnd)->Ok_0 == (EmuState {
            pc: execute(s, op, rnd)->Ok_0.pc,
            sp: execute(s, op, rnd)->Ok_0.sp,
            ..s
        }),
{
    lemma_fields(op);
}

} // verus!
