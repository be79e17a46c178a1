use vstd::prelude::*;
use crate::semantics::{
    alu, bcd_digits, bit_at, draw, execute, family, lemma_fields, lemma_leaving_memory_is_a_branch, lemma_sprite_cell, misc, settles,
    sprite_col, sprite_hits, sprite_row, step, top_pressed, within_memory, word_at,
};
use crate::state::{
    blank_screen, font_table, initial_state, overwrite, shaped, timers_ticked, valid, EmuError,
    EmuState, FONTSET_SIZE, NUM_KEYS, NUM_REGS, RAM_SIZE, SCREEN_HEIGHT, SCREEN_PIXELS, SCREEN_WIDTH,
    STACK_SIZE, START_ADDR,
    VF,
};

verus! {

/// The machine: memory, registers, call stack, display, keypad and timers.
pub struct Emu {
    pc: u16,
    ram: Vec<u8>,
    screen: Vec<bool>,
    v_reg: Vec<u8>,
    i_reg: u16,
    sp: u16,
    stack: Vec<u16>,
    keys: Vec<bool>,
    dt: u8,
    st: u8,
}

impl View for Emu {
    type V = EmuState;

    closed spec fn view(&self) -> EmuState {
        EmuState {
            pc: self.pc,
            ram: self.ram@,
            screen: self.screen@,
            v: self.v_reg@,
            i: self.i_reg,
            sp: self.sp,
            stack: self.stack@,
            keys: self.keys@,
            dt: self.dt,
            st: self.st,
        }
    }
}

/// The glyph table as a vector.
fn font_glyphs() -> (r: Vec<u8>)
    ensures
        r@ == font_table(),
{
    let r: Vec<u8> = vec![
        0xF0, 0x90, 0x90, 0x90, 0xF0,
        0x20, 0x60, 0x20, 0x20, 0x70,
        0xF0, 0x10, 0xF0, 0x80, 0xF0,
        0xF0, 0x10, 0xF0, 0x10, 0xF0,
        0x90, 0x90, 0xF0, 0x10, 0x10,
        0xF0, 0x80, 0xF0, 0x10, 0xF0,
        0xF0, 0x80, 0xF0, 0x90, 0xF0,
        0xF0, 0x10, 0x20, 0x40, 0x40,
        0xF0, 0x90, 0xF0, 0x90, 0xF0,
        0xF0, 0x90, 0xF0, 0x10, 0xF0,
        0xF0, 0x90, 0xF0, 0x90, 0x90,
        0xE0, 0x90, 0xE0, 0x90, 0xE0,
        0xF0, 0x80, 0x80, 0x80, 0xF0,
        0xE0, 0x90, 0x90, 0x90, 0xE0,
        0xF0, 0x80, 0xF0, 0x80, 0xF0,
        0xF0, 0x80, 0xF0, 0x80, 0x80,
    ];
    assert(r@ =~= font_table());
    r
}

/// Memory as it stands after construction: the glyph table, then zeros.
fn initial_ram_vec() -> (r: Vec<u8>)
    ensures
        r@ == crate::state::initial_ram(),
{
    let font = font_glyphs();
    let mut ram: Vec<u8> = vec![0u8; RAM_SIZE];
    let mut a: usize = 0;
    while a < FONTSET_SIZE
        invariant
            a <= FONTSET_SIZE,
            font@ == font_table(),
            ram@.len() == RAM_SIZE,
            forall|b: int| 0 <= b < RAM_SIZE ==> ram@[b] == (if b < a { font_table()[b] } else { 0u8 }),
        decreases FONTSET_SIZE - a,
    {
        ram[a] = font[a];
        a += 1;
    }
    assert(ram@ =~= crate::state::initial_ram());
    ram
}

impl Emu {
    /// The machine is well formed: sizes fixed, stack pointer in range,
    /// program counter inside memory.
    pub open spec fn wf(&self) -> bool {
        valid(self@)
    }

    /// A machine in its initial state: glyph table loaded, all else zero or
    /// off, program counter at the load address.
    pub fn new() -> (r: Self)
        ensures
            r.wf(),
            r@ == initial_state(),
    {
        let r = Emu {
            pc: START_ADDR,
            ram: initial_ram_vec(),
            screen: vec![false; SCREEN_PIXELS],
            v_reg: vec![0u8; NUM_REGS],
            i_reg: 0,
            sp: 0,
            stack: vec![0u16; STACK_SIZE],
            keys: vec![false; NUM_KEYS],
            dt: 0,
            st: 0,
        };
        assert(r.screen@ =~= blank_screen());
        assert(r@.v =~= initial_state().v);
        assert(r@.stack =~= initial_state().stack);
        assert(r@.keys =~= initial_state().keys);
        r
    }

    /// Brings the machine back to its initial state.
    pub fn reset(&mut self)
        ensures
            final(self).wf(),
            final(self)@ == initial_state(),
    {
        *self = Emu::new();
    }

    /// Copies a program image into memory from the load address on; the rest
    /// of the state is unchanged.
    pub fn load(&mut self, data: &[u8])
        requires
            old(self).wf(),
            START_ADDR + data@.len() <= RAM_SIZE,
        ensures
            final(self).wf(),
            final(self)@ == (EmuState {
                ram: overwrite(old(self)@.ram, START_ADDR as int, data@),
                ..old(self)@
            }),
            final(self)@.ram.subrange(START_ADDR as int, START_ADDR + data@.len()) == data@,
    {
        let start: usize = START_ADDR as usize;
        let mut k: usize = 0;
        while k < data.len()
            invariant
                self.wf(),
                start == START_ADDR,
                start + data@.len() <= RAM_SIZE,
                k <= data@.len(),
                self@ == (EmuState { ram: self@.ram, ..old(self)@ }),
                forall|a: int|
                    0 <= a < RAM_SIZE ==> self@.ram[a] == (if start <= a < start + k {
                        data@[a - start]
                    } else {
                        old(self)@.ram[a]
                    }),
            decreases data@.len() - k,
        {
            self.ram[start + k] = data[k];
            k += 1;
        }
        assert(self@.ram =~= overwrite(old(self)@.ram, START_ADDR as int, data@));
        assert(self@.ram.subrange(START_ADDR as int, START_ADDR + data@.len()) =~= data@);
    }

    /// Records whether key `idx` is held down.
    pub fn keypress(&mut self, idx: usize, pressed: bool)
        requires
            old(self).wf(),
            idx < NUM_KEYS,
        ensures
            final(self).wf(),
            final(self)@ == (EmuState { keys: old(self)@.keys.update(idx as int, pressed), ..old(self)@ }),
    {
        self.keys[idx] = pressed;
    }

    /// The display, row by row: pixel (x, y) stands at index y * 64 + x.
    pub fn get_display(&self) -> (r: &[bool])
        ensures
            r@ == self@.screen,
    {
        self.screen.as_slice()
    }

    /// One tick of the timers. Returns true when the sound timer runs out on
    /// this tick (it was exactly 1), which is when the tone should end.
    pub fn tick_timers(&mut self) -> (tone_end: bool)
        requires
            old(self).wf(),
        ensures
            final(self).wf(),
            final(self)@ == timers_ticked(old(self)@),
            tone_end == (old(self)@.st == 1),
    {
        if self.dt > 0 {
            self.dt = self.dt - 1;
        }
        let mut tone_end = false;
        if self.st > 0 {
            if self.st == 1 {
                tone_end = true;
            }
            self.st = self.st - 1;
        }
        tone_end
    }

    /// The memory, address by address.
    pub fn memory(&self) -> (r: &[u8])
        ensures
            r@ == self@.ram,
    {
        self.ram.as_slice()
    }

    /// The general registers V0 to VF.
    pub fn registers(&self) -> (r: &[u8])
        ensures
            r@ == self@.v,
    {
        self.v_reg.as_slice()
    }

    /// The program counter.
    pub fn pc(&self) -> (r: u16)
        ensures
            r == self@.pc,
    {
        self.pc
    }

    /// The index register.
    pub fn index(&self) -> (r: u16)
        ensures
            r == self@.i,
    {
        self.i_reg
    }

    /// The delay timer.
    pub fn delay_timer(&self) -> (r: u8)
        ensures
            r == self@.dt,
    {
        self.dt
    }

    /// The sound timer.
    pub fn sound_timer(&self) -> (r: u8)
        ensures
            r == self@.st,
    {
        self.st
    }

    /// Reads the instruction word at the program counter and moves past it.
    fn fetch(&mut self) -> (r: Result<u16, EmuError>)
        requires
            valid(old(self)@),
        ensures
            old(self)@.pc + 1 < RAM_SIZE ==> r == Ok::<u16, EmuError>(
                word_at(old(self)@.ram, old(self)@.pc as int),
            ) && final(self)@ == (EmuState { pc: (old(self)@.pc + 2) as u16, ..old(self)@ }),
            old(self)@.pc + 1 >= RAM_SIZE ==> r == Err::<u16, EmuError>(EmuError::OutOfBounds)
                && final(self)@ == old(self)@,
    {
        let pc = self.pc as usize;
        if pc + 1 >= RAM_SIZE {
            return Err(EmuError::OutOfBounds);
        }
        let op = ((self.ram[pc] as u16) << 8u16) | (self.ram[pc + 1] as u16);
        self.pc = self.pc + 2;
        Ok(op)
    }

    /// Pushes a return address.
    fn push(&mut self, val: u16) -> (r: Result<(), EmuError>)
        requires
            shaped(old(self)@),
        ensures
            shaped(final(self)@),
            old(self)@.sp < STACK_SIZE ==> r == Ok::<(), EmuError>(()) && final(self)@ == (EmuState {
                stack: old(self)@.stack.update(old(self)@.sp as int, val),
                sp: (old(self)@.sp + 1) as u16,
                ..old(self)@
            }),
            old(self)@.sp >= STACK_SIZE ==> r == Err::<(), EmuError>(EmuError::StackOverflow)
                && final(self)@ == old(self)@,
    {
        if self.sp as usize >= STACK_SIZE {
            return Err(EmuError::StackOverflow);
        }
        self.stack[self.sp as usize] = val;
        self.sp = self.sp + 1;
        Ok(())
    }

    /// Pops the most recent return address.
    fn pop(&mut self) -> (r: Result<u16, EmuError>)
        requires
            shaped(old(self)@),
        ensures
            shaped(final(self)@),
            old(self)@.sp > 0 ==> r == Ok::<u16, EmuError>(old(self)@.stack[old(self)@.sp - 1])
                && final(self)@ == (EmuState { sp: (old(self)@.sp - 1) as u16, ..old(self)@ }),
            old(self)@.sp == 0 ==> r == Err::<u16, EmuError>(EmuError::StackUnderflow)
                && final(self)@ == old(self)@,
    {
        if self.sp == 0 {
            return Err(EmuError::StackUnderflow);
        }
        self.sp = self.sp - 1;
        Ok(self.stack[self.sp as usize])
    }

    /// The register-to-register family 8XYN.
    fn exec_alu(&mut self, op: u16) -> (r: Result<(), EmuError>)
        requires
            shaped(old(self)@),
        ensures
            shaped(final(self)@),
            settles(old(self)@, final(self)@, r, alu(old(self)@, op)),
    {
        proof {
            lemma_fields(op);
        }
        let x = ((op >> 8u16) & 0xFu16) as usize;
        let y = ((op >> 4u16) & 0xFu16) as usize;
        let n = op & 0xFu16;
        let vx = self.v_reg[x];
        let vy = self.v_reg[y];
        if n == 0 {
            self.v_reg[x] = vy;
        } else if n == 1 {
            self.v_reg[x] = vx | vy;
        } else if n == 2 {
            self.v_reg[x] = vx & vy;
        } else if n == 3 {
            self.v_reg[x] = vx ^ vy;
        } else if n == 4 {
            let sum: u16 = vx as u16 + vy as u16;
            self.v_reg[x] = (sum % 256) as u8;
            self.v_reg[VF] = if sum > 255 { 1 } else { 0 };
        } else if n == 5 {
            self.v_reg[x] = ((vx as u16 + 256 - vy as u16) % 256) as u8;
            self.v_reg[VF] = if vx >= vy { 1 } else { 0 };
        } else if n == 6 {
            self.v_reg[x] = vx / 2;
            self.v_reg[VF] = vx % 2;
        } else if n == 7 {
            self.v_reg[x] = ((vy as u16 + 256 - vx as u16) % 256) as u8;
            self.v_reg[VF] = if vy >= vx { 1 } else { 0 };
        } else if n == 0xE {
            self.v_reg[x] = ((vx as u16 * 2) % 256) as u8;
            self.v_reg[VF] = vx / 128;
        } else {
            return Err(EmuError::UnknownOpcode(op));
        }
        Ok(())
    }

    /// The highest pressed key, if any.
    fn pressed_key(&self) -> (r: Option<u8>)
        requires
            shaped(self@),
        ensures
            top_pressed(self@.keys, NUM_KEYS as int) < 0 ==> r == None::<u8>,
            top_pressed(self@.keys, NUM_KEYS as int) >= 0 ==> r == Some(
                top_pressed(self@.keys, NUM_KEYS as int) as u8,
            ),
    {
        let mut found: Option<u8> = None;
        let mut key: usize = 0;
        while key < NUM_KEYS
            invariant
                shaped(self@),
                key <= NUM_KEYS,
                -1 <= top_pressed(self@.keys, key as int) < key,
                top_pressed(self@.keys, key as int) < 0 ==> found == None::<u8>,
                top_pressed(self@.keys, key as int) >= 0 ==> found == Some(
                    top_pressed(self@.keys, key as int) as u8,
                ),
            decreases NUM_KEYS - key,
        {
            if self.keys[key] {
                found = Some(key as u8);
            }
            key += 1;
        }
        found
    }

    /// Writes `bytes` into memory from address `at` on.
    fn store(&mut self, at: usize, bytes: &Vec<u8>)
        requires
            shaped(old(self)@),
            at + bytes@.len() <= RAM_SIZE,
        ensures
            shaped(final(self)@),
            final(self)@ == (EmuState { ram: overwrite(old(self)@.ram, at as int, bytes@), ..old(self)@ }),
    {
        let mut k: usize = 0;
        while k < bytes.len()
            invariant
                shaped(self@),
                at + bytes@.len() <= RAM_SIZE,
                k <= bytes@.len(),
                self@ == (EmuState { ram: self@.ram, ..old(self)@ }),
                forall|a: int|
                    0 <= a < RAM_SIZE ==> self@.ram[a] == (if at <= a < at + k {
                        bytes@[a - at]
                    } else {
                        old(self)@.ram[a]
                    }),
            decreases bytes@.len() - k,
        {
            self.ram[at + k] = bytes[k];
            k += 1;
        }
        assert(self@.ram =~= overwrite(old(self)@.ram, at as int, bytes@));
    }

    /// The decimal digits of `v` without leading zeros.
    fn decimal_digits(v: u8) -> (r: Vec<u8>)
        ensures
            r@ == bcd_digits(v),
    {
        let r = if v >= 100 {
            vec![v / 100, (v / 10) % 10, v % 10]
        } else if v >= 10 {
            vec![v / 10, v % 10]
        } else {
            vec![v]
        };
        assert(r@ =~= bcd_digits(v));
        r
    }

    /// The family FXNN: timers, index register, keys, glyphs and block transfer.
    fn exec_misc(&mut self, op: u16) -> (r: Result<(), EmuError>)
        requires
            shaped(old(self)@),
            2 <= old(self)@.pc <= RAM_SIZE,
        ensures
            shaped(final(self)@),
            settles(old(self)@, final(self)@, r, misc(old(self)@, op)),
    {
        proof {
            lemma_fields(op);
        }
        let x = ((op >> 8u16) & 0xFu16) as usize;
        let nn = (op & 0xFFu16) as u8;
        let vx = self.v_reg[x];
        let i = self.i_reg as usize;
        if nn == 0x07 {
            self.v_reg[x] = self.dt;
        } else if nn == 0x0A {
            match self.pressed_key() {
                Some(key) => {
                    self.v_reg[x] = key;
                },
                None => {
                    self.pc = self.pc - 2;
                },
            }
        } else if nn == 0x15 {
            self.dt = vx;
        } else if nn == 0x18 {
            self.st = vx;
        } else if nn == 0x1E {
            self.i_reg = ((self.i_reg as u32 + vx as u32) % 0x10000) as u16;
        } else if nn == 0x29 {
            if vx >= 16 {
                return Err(EmuError::OutOfBounds);
            }
            self.i_reg = 5 * vx as u16;
        } else if nn == 0x33 {
            let digits = Self::decimal_digits(vx);
            if i + digits.len() > RAM_SIZE {
                return Err(EmuError::OutOfBounds);
            }
            self.store(i, &digits);
        } else if nn == 0x55 {
            if i + x + 1 > RAM_SIZE {
                return Err(EmuError::OutOfBounds);
            }
            let ghost s0 = self@;
            let mut r: usize = 0;
            while r <= x
                invariant
                    shaped(self@),
                    i == s0.i,
                    x < 16,
                    i + x + 1 <= RAM_SIZE,
                    r <= x + 1,
                    self@ == (EmuState { ram: self@.ram, ..s0 }),
                    forall|a: int|
                        0 <= a < RAM_SIZE ==> self@.ram[a] == (if i <= a < i + r {
                            s0.v[a - i]
                        } else {
                            s0.ram[a]
                        }),
                decreases x + 1 - r,
            {
                self.ram[i + r] = self.v_reg[r];
                r += 1;
            }
            assert(self@.ram =~= overwrite(s0.ram, i as int, s0.v.subrange(0, x + 1)));
        } else if nn == 0x65 {
            if i + x + 1 > RAM_SIZE {
                return Err(EmuError::OutOfBounds);
            }
            let ghost s0 = self@;
            let mut r: usize = 0;
            while r <= x
                invariant
                    shaped(self@),
                    i == s0.i,
                    x < 16,
                    i + x + 1 <= RAM_SIZE,
                    r <= x + 1,
                    self@ == (EmuState { v: self@.v, ..s0 }),
                    forall|q: int|
                        0 <= q < NUM_REGS ==> self@.v[q] == (if q < r {
                            s0.ram[i + q]
                        } else {
                            s0.v[q]
                        }),
                decreases x + 1 - r,
            {
                self.v_reg[r] = self.ram[i + r];
                r += 1;
            }
            assert(self@.v =~= overwrite(s0.v, 0, s0.ram.subrange(i as int, i + x + 1)));
        } else {
            return Err(EmuError::UnknownOpcode(op));
        }
        Ok(())
    }

    /// Sprite drawing DXYN.
    fn exec_draw(&mut self, op: u16) -> (r: Result<(), EmuError>)
        requires
            shaped(old(self)@),
        ensures
            shaped(final(self)@),
            settles(old(self)@, final(self)@, r, draw(old(self)@, op)),
    {
        proof {
            lemma_fields(op);
        }
        let x = ((op >> 8u16) & 0xFu16) as usize;
        let y = ((op >> 4u16) & 0xFu16) as usize;
        let n = op & 0xFu16;
        let vx = self.v_reg[x];
        let vy = self.v_reg[y];
        if self.i_reg as usize + n as usize > RAM_SIZE {
            return Err(EmuError::OutOfBounds);
        }
        let ghost s0 = self@;
        let ghost hit = |k: int| sprite_hits(s0.ram, s0.i, vx, vy, n, k);
        let mut collision = false;
        let mut row: u16 = 0;
        while row < n
            invariant
                shaped(self@),
                self@ == (EmuState { screen: self@.screen, ..s0 }),
                row <= n,
                n < 16,
                s0.i + n <= RAM_SIZE,
                hit == (|k: int| sprite_hits(s0.ram, s0.i, vx, vy, n, k)),
                forall|k: int|
                    0 <= k < SCREEN_PIXELS ==> self@.screen[k] == (s0.screen[k] != (hit(k)
                        && sprite_row(vy, k) < row)),
                collision == exists|k: int|
                    0 <= k < SCREEN_PIXELS && #[trigger] hit(k) && sprite_row(vy, k) < row
                        && s0.screen[k],
            decreases n - row,
        {
            let byte = self.ram[self.i_reg as usize + row as usize];
            let py: usize = (vy as usize + row as usize) % SCREEN_HEIGHT;
            let mut col: u8 = 0;
            while col < 8
                invariant
                    shaped(self@),
                    self@ == (EmuState { screen: self@.screen, ..s0 }),
                    row < n,
                    n < 16,
                    col <= 8,
                    s0.i + n <= RAM_SIZE,
                    byte == s0.ram[s0.i + row],
                    py == (vy + row) % 32,
                    hit == (|k: int| sprite_hits(s0.ram, s0.i, vx, vy, n, k)),
                    forall|k: int|
                        0 <= k < SCREEN_PIXELS ==> self@.screen[k] == (s0.screen[k] != (hit(k) && (
                        sprite_row(vy, k) < row || (sprite_row(vy, k) == row && sprite_col(vx, k)
                            < col)))),
                    collision == exists|k: int|
                        0 <= k < SCREEN_PIXELS && #[trigger] hit(k) && (sprite_row(vy, k) < row || (
                        sprite_row(vy, k) == row && sprite_col(vx, k) < col)) && s0.screen[k],
                decreases 8 - col,
            {
                let px: usize = (vx as usize + col as usize) % SCREEN_WIDTH;
                proof {
                    lemma_sprite_cell(vx, vy, row as int, col as int, 0);
                }
                let idx: usize = py * SCREEN_WIDTH + px;
                let ghost before = self@.screen;
                let ghost was_collision = collision;
                let lit = (byte >> (7u8 - col)) & 1u8 == 1u8;
                assert(lit == bit_at(byte, col));
                if lit {
                    if self.screen[idx] {
                        collision = true;
                    }
                    let old_px = self.screen[idx];
                    self.screen[idx] = !old_px;
                }
                proof {
                    assert forall|k: int| 0 <= k < SCREEN_PIXELS implies (k == idx) == (sprite_col(
                        vx,
                        k,
                    ) == col && sprite_row(vy, k) == row) by {
                        lemma_sprite_cell(vx, vy, row as int, col as int, k);
                    }
                    lemma_sprite_cell(vx, vy, row as int, col as int, idx as int);
                    assert(hit(idx as int) == lit);
                    if collision && !was_collision {
                        assert(hit(idx as int) && s0.screen[idx as int]);
                    }
                }
                col += 1;
            }
            row += 1;
        }
        self.v_reg[VF] = if collision { 1 } else { 0 };
        assert(self@.screen =~= Seq::new(SCREEN_PIXELS as nat, |k: int| s0.screen[k] != hit(k)));
        Ok(())
    }

    /// Executes instruction `op`, the program counter having moved past it,
    /// wherever the instruction sends the program counter.
    fn dispatch(&mut self, op: u16, rnd: u8) -> (r: Result<(), EmuError>)
        requires
            shaped(old(self)@),
            2 <= old(self)@.pc <= RAM_SIZE,
        ensures
            shaped(final(self)@),
            settles(old(self)@, final(self)@, r, execute(old(self)@, op, rnd)),
    {
        proof {
            lemma_fields(op);
        }
        let f = op >> 12u16;
        let x = ((op >> 8u16) & 0xFu16) as usize;
        let y = ((op >> 4u16) & 0xFu16) as usize;
        let n = op & 0xFu16;
        let nnn = op & 0xFFFu16;
        let nn = (op & 0xFFu16) as u8;
        let vx = self.v_reg[x];
        let vy = self.v_reg[y];
        if op == 0x0000 {
            Ok(())
        } else if op == 0x00E0 {
            self.screen = vec![false; SCREEN_PIXELS];
            assert(self.screen@ =~= blank_screen());
            Ok(())
        } else if op == 0x00EE {
            match self.pop() {
                Ok(addr) => {
                    self.pc = addr;
                    Ok(())
                },
                Err(e) => Err(e),
            }
        } else if f == 1 {
            self.pc = nnn;
            Ok(())
        } else if f == 2 {
            let ret = self.pc;
            match self.push(ret) {
                Ok(()) => {
                    self.pc = nnn;
                    Ok(())
                },
                Err(e) => Err(e),
            }
        } else if f == 3 {
            if vx == nn {
                self.pc = self.pc + 2;
            }
            Ok(())
        } else if f == 4 {
            if vx != nn {
                self.pc = self.pc + 2;
            }
            Ok(())
        } else if f == 5 && n == 0 {
            if vx == vy {
                self.pc = self.pc + 2;
            }
            Ok(())
        } else if f == 6 {
            self.v_reg[x] = nn;
            Ok(())
        } else if f == 7 {
            self.v_reg[x] = ((vx as u16 + nn as u16) % 256) as u8;
            Ok(())
        } else if f == 8 {
            self.exec_alu(op)
        } else if f == 9 && n == 0 {
            if vx != vy {
                self.pc = self.pc + 2;
            }
            Ok(())
        } else if f == 0xA {
            self.i_reg = nnn;
            Ok(())
        } else if f == 0xB {
            self.pc = self.v_reg[0] as u16 + nnn;
            Ok(())
        } else if f == 0xC {
            self.v_reg[x] = rnd & nn;
            Ok(())
        } else if f == 0xD {
            self.exec_draw(op)
        } else if f == 0xE && (nn == 0x9E || nn == 0xA1) {
            if vx as usize >= NUM_KEYS {
                return Err(EmuError::OutOfBounds);
            }
            let pressed = self.keys[vx as usize];
            if pressed == (nn == 0x9E) {
                self.pc = self.pc + 2;
            }
            Ok(())
        } else if f == 0xF {
            self.exec_misc(op)
        } else {
            Err(EmuError::UnknownOpcode(op))
        }
    }

    /// A copy of the machine.
    fn snapshot(&self) -> (r: Emu)
        ensures
            r@ == self@,
    {
        let r = Emu {
            pc: self.pc,
            ram: self.ram.clone(),
            screen: self.screen.clone(),
            v_reg: self.v_reg.clone(),
            i_reg: self.i_reg,
            sp: self.sp,
            stack: self.stack.clone(),
            keys: self.keys.clone(),
            dt: self.dt,
            st: self.st,
        };
        assert(r.ram@ =~= self.ram@);
        assert(r.screen@ =~= self.screen@);
        assert(r.v_reg@ =~= self.v_reg@);
        assert(r.stack@ =~= self.stack@);
        assert(r.keys@ =~= self.keys@);
        r
    }

    /// Executes instruction `op`, the program counter having moved past it.
    /// An instruction that would leave the program counter outside memory
    /// is a bounds violation and changes nothing.
    fn execute(&mut self, op: u16, rnd: u8) -> (r: Result<(), EmuError>)
        requires
            shaped(old(self)@),
            2 <= old(self)@.pc <= RAM_SIZE,
        ensures
            shaped(final(self)@),
            settles(old(self)@, final(self)@, r, within_memory(execute(old(self)@, op, rnd))),
    {
        if self.pc as usize >= RAM_SIZE {
            // The word was the last in memory: any instruction may have run
            // before the program counter is found outside memory.
            let saved = self.snapshot();
            match self.dispatch(op, rnd) {
                Ok(()) => {
                    if self.pc as usize >= RAM_SIZE {
                        *self = saved;
                        return Err(EmuError::OutOfBounds);
                    }
                    Ok(())
                },
                Err(e) => Err(e),
            }
        } else {
            let pc = self.pc;
            let sp = self.sp;
            match self.dispatch(op, rnd) {
                Ok(()) => {
                    if self.pc as usize >= RAM_SIZE {
                        proof {
                            lemma_leaving_memory_is_a_branch(old(self)@, op, rnd);
                        }
                        self.pc = pc;
                        self.sp = sp;
                        return Err(EmuError::OutOfBounds);
                    }
                    Ok(())
                },
                Err(e) => Err(e),
            }
        }
    }

    /// One instruction cycle, with `rnd` as the random byte that CXNN
    /// combines with its mask. On an error the machine is left as it was.
    pub fn tick_with(&mut self, rnd: u8) -> (r: Result<(), EmuError>)
        requires
            old(self).wf(),
        ensures
            final(self).wf(),
            final(self)@.pc < RAM_SIZE,
            settles(old(self)@, final(self)@, r, step(old(self)@, rnd)),
    {
        let start = self.pc;
        let op = match self.fetch() {
            Ok(op) => op,
            Err(e) => {
                return Err(e);
            },
        };
        match self.execute(op, rnd) {
            Ok(()) => Ok(()),
            Err(e) => {
                self.pc = start;
                Err(e)
            },
        }
    }

    /// One instruction cycle. CXNN masks a byte drawn from the thread-local
    /// random generator; whatever byte came, the outcome is that of
    /// `tick_with` on it. On an error the machine is left as it was.
    pub fn tick(&mut self) -> (r: Result<(), EmuError>)
        requires
            old(self).wf(),
        ensures
            final(self).wf(),
            final(self)@.pc < RAM_SIZE,
            exists|rnd: u8| settles(old(self)@, final(self)@, r, #[trigger] step(old(self)@, rnd)),
    {
        let rnd = random_byte();
        self.tick_with(rnd)
    }
}

/// Relies on rand::random::<u8>: a byte from the thread-local generator.
/// Any of the 256 values may come back, so nothing is promised of it.
#[verifier::external_body]
fn random_byte() -> (r: u8) {
    rand::random::<u8>()
}

} // verus!
