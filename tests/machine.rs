use chip8_core::{Emu, EmuError, SCREEN_HEIGHT, SCREEN_WIDTH};

fn machine_with(program: &[u8]) -> Emu {
    let mut emu = Emu::new();
    emu.load(program);
    emu
}

fn run(emu: &mut Emu, ticks: usize) {
    for _ in 0..ticks {
        emu.tick_with(0).expect("instruction should succeed");
    }
}

#[test]
fn new_machine_starts_at_load_address_with_font() {
    let emu = Emu::new();
    assert_eq!(emu.pc(), 0x200);
    assert_eq!(emu.index(), 0);
    assert_eq!(&emu.memory()[0..5], &[0xF0, 0x90, 0x90, 0x90, 0xF0]);
    assert_eq!(&emu.memory()[75..80], &[0xF0, 0x80, 0xF0, 0x80, 0x80]);
    assert!(emu.memory()[80..].iter().all(|b| *b == 0));
    assert_eq!(emu.memory().len(), 4096);
    assert_eq!(emu.get_display().len(), SCREEN_WIDTH * SCREEN_HEIGHT);
    assert!(emu.get_display().iter().all(|p| !*p));
    assert!(emu.registers().iter().all(|r| *r == 0));
}

#[test]
fn load_then_read_back() {
    let bytes = [0x12, 0x34, 0xAB, 0xCD, 0x00, 0xFF, 0x7];
    let emu = machine_with(&bytes);
    assert_eq!(&emu.memory()[0x200..0x200 + bytes.len()], &bytes);
    assert_eq!(emu.memory()[0x200 + bytes.len()], 0);
    assert_eq!(emu.memory()[0x1FF], 0);
}

#[test]
fn load_fills_memory_to_the_end() {
    let bytes = vec![0x5Au8; 4096 - 0x200];
    let emu = machine_with(&bytes);
    assert_eq!(&emu.memory()[0x200..], &bytes[..]);
}

#[test]
fn clear_screen_after_draw() {
    // I = glyph 0, draw it at (V0, V0), then clear.
    let mut emu = machine_with(&[0xA0, 0x00, 0xD0, 0x05, 0x00, 0xE0]);
    run(&mut emu, 2);
    assert!(emu.get_display().iter().any(|p| *p));
    run(&mut emu, 1);
    assert!(emu.get_display().iter().all(|p| !*p));
}

#[test]
fn call_then_return_restores_pc() {
    let mut emu = machine_with(&[0x22, 0x06, 0x00, 0x00, 0x00, 0x00, 0x00, 0xEE]);
    run(&mut emu, 1);
    assert_eq!(emu.pc(), 0x206);
    run(&mut emu, 1);
    assert_eq!(emu.pc(), 0x202);
}

#[test]
fn add_with_carry() {
    let mut emu = machine_with(&[0x60, 0xFF, 0x61, 0x01, 0x80, 0x14]);
    run(&mut emu, 3);
    assert_eq!(emu.registers()[0], 0x00);
    assert_eq!(emu.registers()[0xF], 1);

    let mut emu = machine_with(&[0x60, 0x01, 0x61, 0x01, 0x80, 0x14]);
    run(&mut emu, 3);
    assert_eq!(emu.registers()[0], 0x02);
    assert_eq!(emu.registers()[0xF], 0);
}

#[test]
fn subtract_with_borrow() {
    let mut emu = machine_with(&[0x60, 0x01, 0x61, 0x02, 0x80, 0x15]);
    run(&mut emu, 3);
    assert_eq!(emu.registers()[0xF], 0);
    assert_eq!(emu.registers()[0], 0xFF);

    let mut emu = machine_with(&[0x60, 0x05, 0x61, 0x02, 0x80, 0x15]);
    run(&mut emu, 3);
    assert_eq!(emu.registers()[0xF], 1);
    assert_eq!(emu.registers()[0], 0x03);
}

#[test]
fn reverse_subtract_uses_same_borrow_flag() {
    let mut emu = machine_with(&[0x60, 0x02, 0x61, 0x01, 0x80, 0x17]);
    run(&mut emu, 3);
    assert_eq!(emu.registers()[0], 0xFF);
    assert_eq!(emu.registers()[0xF], 0);

    let mut emu = machine_with(&[0x60, 0x02, 0x61, 0x05, 0x80, 0x17]);
    run(&mut emu, 3);
    assert_eq!(emu.registers()[0], 0x03);
    assert_eq!(emu.registers()[0xF], 1);
}

#[test]
fn shifts_report_dropped_bit() {
    let mut emu = machine_with(&[0x60, 0x03, 0x80, 0x06]);
    run(&mut emu, 2);
    assert_eq!(emu.registers()[0], 0x01);
    assert_eq!(emu.registers()[0xF], 1);

    let mut emu = machine_with(&[0x60, 0x81, 0x80, 0x0E]);
    run(&mut emu, 2);
    assert_eq!(emu.registers()[0], 0x02);
    assert_eq!(emu.registers()[0xF], 1);

    let mut emu = machine_with(&[0x60, 0x41, 0x80, 0x0E]);
    run(&mut emu, 2);
    assert_eq!(emu.registers()[0], 0x82);
    assert_eq!(emu.registers()[0xF], 0);
}

#[test]
fn logic_and_immediate_ops() {
    // V0 = 0xF0, V1 = 0x3C; V2 = V0 | V1; V3 = V0 & V1; V4 = V0 ^ V1; V0 += 0x20.
    let program = [
        0x60, 0xF0, 0x61, 0x3C, 0x82, 0x00, 0x82, 0x11, 0x83, 0x00, 0x83, 0x12, 0x84, 0x00,
        0x84, 0x13, 0x70, 0x20,
    ];
    let mut emu = machine_with(&program);
    run(&mut emu, 9);
    assert_eq!(emu.registers()[2], 0xFC);
    assert_eq!(emu.registers()[3], 0x30);
    assert_eq!(emu.registers()[4], 0xCC);
    assert_eq!(emu.registers()[0], 0x10);
    assert_eq!(emu.registers()[0xF], 0);
}

#[test]
fn bcd_store_zero_is_one_byte() {
    let mut emu = machine_with(&[0xA3, 0x00, 0x60, 0x00, 0xF0, 0x33]);
    run(&mut emu, 3);
    assert_eq!(emu.memory()[0x300], 0);
}

#[test]
fn bcd_store_single_digit_is_one_byte() {
    // Fill 0x300..0x303 with 9s first, then store 5.
    let mut emu = machine_with(&[
        0x60, 0x09, 0x61, 0x09, 0x62, 0x09, 0xA3, 0x00, 0xF2, 0x55, 0x60, 0x05, 0xF0, 0x33,
    ]);
    run(&mut emu, 7);
    assert_eq!(emu.memory()[0x300], 5);
    assert_eq!(emu.memory()[0x301], 9);
    assert_eq!(emu.memory()[0x302], 9);
}

#[test]
fn bcd_store_two_digits() {
    let mut emu = machine_with(&[0xA3, 0x00, 0x60, 42, 0xF0, 0x33]);
    run(&mut emu, 3);
    assert_eq!(&emu.memory()[0x300..0x303], &[4, 2, 0]);
}

#[test]
fn bcd_store_three_digits() {
    let mut emu = machine_with(&[0xA3, 0x00, 0x60, 123, 0xF0, 0x33]);
    run(&mut emu, 3);
    assert_eq!(&emu.memory()[0x300..0x303], &[1, 2, 3]);
}

#[test]
fn timers_count_down_and_stop_at_zero() {
    let mut emu = Emu::new();
    assert_eq!(emu.delay_timer(), 0);
    assert!(!emu.tick_timers());
    assert_eq!(emu.delay_timer(), 0);
    assert_eq!(emu.sound_timer(), 0);
}

#[test]
fn sound_timer_at_one_ends_tone_once() {
    let mut emu = machine_with(&[0x60, 0x01, 0xF0, 0x18, 0x61, 0x03, 0xF1, 0x15]);
    run(&mut emu, 4);
    assert_eq!(emu.sound_timer(), 1);
    assert_eq!(emu.delay_timer(), 3);
    assert!(emu.tick_timers());
    assert_eq!(emu.sound_timer(), 0);
    assert_eq!(emu.delay_timer(), 2);
    assert!(!emu.tick_timers());
    assert_eq!(emu.sound_timer(), 0);
    assert_eq!(emu.delay_timer(), 1);
}

#[test]
fn get_delay_timer_reads_it() {
    let mut emu = machine_with(&[0x60, 0x07, 0xF0, 0x15, 0xF5, 0x07]);
    run(&mut emu, 2);
    emu.tick_timers();
    run(&mut emu, 1);
    assert_eq!(emu.registers()[5], 6);
}

#[test]
fn get_key_waits_until_pressed() {
    let mut emu = machine_with(&[0xF3, 0x0A]);
    run(&mut emu, 1);
    assert_eq!(emu.pc(), 0x200);
    run(&mut emu, 1);
    assert_eq!(emu.pc(), 0x200);
    emu.keypress(7, true);
    run(&mut emu, 1);
    assert_eq!(emu.pc(), 0x202);
    assert_eq!(emu.registers()[3], 7);
}

#[test]
fn get_key_takes_highest_pressed() {
    let mut emu = machine_with(&[0xF3, 0x0A]);
    emu.keypress(2, true);
    emu.keypress(11, true);
    emu.keypress(4, true);
    run(&mut emu, 1);
    assert_eq!(emu.registers()[3], 11);
}

#[test]
fn key_skips() {
    // V0 = 5; skip next if key 5 pressed; skip next if key 5 not pressed.
    let mut emu = machine_with(&[0x60, 0x05, 0xE0, 0x9E, 0x00, 0x00, 0xE0, 0xA1]);
    emu.keypress(5, true);
    run(&mut emu, 2);
    assert_eq!(emu.pc(), 0x206);
    run(&mut emu, 1);
    assert_eq!(emu.pc(), 0x208);
}

#[test]
fn register_skips() {
    // V0 = 1, V1 = 1; 3001 skips; 4002 skips; 5010 skips; 9010 does not.
    let program = [
        0x60, 0x01, 0x61, 0x01, 0x30, 0x01, 0x00, 0x00, 0x40, 0x02, 0x00, 0x00, 0x50, 0x10,
        0x00, 0x00, 0x90, 0x10,
    ];
    let mut emu = machine_with(&program);
    run(&mut emu, 3);
    assert_eq!(emu.pc(), 0x208);
    run(&mut emu, 1);
    assert_eq!(emu.pc(), 0x20C);
    run(&mut emu, 1);
    assert_eq!(emu.pc(), 0x210);
    run(&mut emu, 1);
    assert_eq!(emu.pc(), 0x212);
}

#[test]
fn draw_flips_pixels_and_flags_collision() {
    // I = glyph 0 (first row 0xF0), draw at (0, 0) twice.
    let mut emu = machine_with(&[0xA0, 0x00, 0xD0, 0x01, 0xD0, 0x01]);
    run(&mut emu, 2);
    let lit: Vec<bool> = emu.get_display()[0..8].to_vec();
    assert_eq!(lit, vec![true, true, true, true, false, false, false, false]);
    assert_eq!(emu.registers()[0xF], 0);
    run(&mut emu, 1);
    assert!(emu.get_display().iter().all(|p| !*p));
    assert_eq!(emu.registers()[0xF], 1);
}

#[test]
fn draw_wraps_around_edges() {
    // V0 = 62, V1 = 31; I = glyph 0; draw 2 rows at (62, 31).
    let mut emu = machine_with(&[0x60, 62, 0x61, 31, 0xA0, 0x00, 0xD0, 0x12]);
    run(&mut emu, 4);
    let d = emu.get_display();
    assert!(d[31 * 64 + 62]);
    assert!(d[31 * 64 + 63]);
    assert!(d[31 * 64 + 0]);
    assert!(d[31 * 64 + 1]);
    assert!(!d[31 * 64 + 2]);
    // Second row of glyph 0 is 0x90 and lands on row 0.
    assert!(d[62]);
    assert!(!d[63]);
    assert!(!d[0]);
    assert!(d[1]);
}

#[test]
fn index_ops() {
    // I = 0x123; V0 = 0x10; I += V0; then font glyph for V1 = 0xA.
    let mut emu = machine_with(&[0xA1, 0x23, 0x60, 0x10, 0xF0, 0x1E]);
    run(&mut emu, 3);
    assert_eq!(emu.index(), 0x133);
    let mut emu = machine_with(&[0x61, 0x0A, 0xF1, 0x29]);
    run(&mut emu, 2);
    assert_eq!(emu.index(), 50);
}

#[test]
fn store_and_load_registers() {
    let program = [
        0x60, 0x11, 0x61, 0x22, 0x62, 0x33, 0xA4, 0x00, 0xF1, 0x55, 0x60, 0x00, 0x61, 0x00,
        0x62, 0x00, 0xF2, 0x65,
    ];
    let mut emu = machine_with(&program);
    run(&mut emu, 5);
    assert_eq!(&emu.memory()[0x400..0x403], &[0x11, 0x22, 0x00]);
    run(&mut emu, 4);
    assert_eq!(&emu.registers()[0..3], &[0x11, 0x22, 0x00]);
}

#[test]
fn jumps() {
    let mut emu = machine_with(&[0x13, 0x00]);
    run(&mut emu, 1);
    assert_eq!(emu.pc(), 0x300);
    let mut emu = machine_with(&[0x60, 0x04, 0xB3, 0x00]);
    run(&mut emu, 2);
    assert_eq!(emu.pc(), 0x304);
}

#[test]
fn random_byte_is_masked() {
    let mut emu = machine_with(&[0xC0, 0xF0, 0xC1, 0x00]);
    emu.tick_with(0xAB).unwrap();
    assert_eq!(emu.registers()[0], 0xA0);
    emu.tick().unwrap();
    assert_eq!(emu.registers()[1], 0);
}

#[test]
fn random_byte_respects_mask_through_generator() {
    let mut emu = machine_with(&[0xC0, 0x0F, 0x12, 0x00]);
    for _ in 0..50 {
        emu.tick().unwrap();
        assert!(emu.registers()[0] <= 0x0F);
        emu.tick().unwrap();
    }
}

#[test]
fn return_without_call_underflows() {
    let mut emu = machine_with(&[0x00, 0xEE]);
    assert_eq!(emu.tick_with(0), Err(EmuError::StackUnderflow));
    assert_eq!(emu.pc(), 0x200);
}

#[test]
fn seventeenth_call_overflows() {
    let mut emu = machine_with(&[0x22, 0x00]);
    run(&mut emu, 16);
    assert_eq!(emu.tick_with(0), Err(EmuError::StackOverflow));
    assert_eq!(emu.pc(), 0x200);
}

#[test]
fn unknown_opcode_is_reported() {
    let mut emu = machine_with(&[0x50, 0x01]);
    assert_eq!(emu.tick_with(0), Err(EmuError::UnknownOpcode(0x5001)));
    let mut emu = machine_with(&[0xF0, 0xFF]);
    assert_eq!(emu.tick_with(0), Err(EmuError::UnknownOpcode(0xF0FF)));
    let mut emu = machine_with(&[0x80, 0x08]);
    assert_eq!(emu.tick_with(0), Err(EmuError::UnknownOpcode(0x8008)));
}

#[test]
fn zero_word_does_nothing() {
    let mut emu = machine_with(&[0x00, 0x00]);
    run(&mut emu, 1);
    assert_eq!(emu.pc(), 0x202);
}

#[test]
fn font_of_large_value_is_out_of_bounds() {
    let mut emu = machine_with(&[0x60, 0x10, 0xF0, 0x29]);
    run(&mut emu, 1);
    assert_eq!(emu.tick_with(0), Err(EmuError::OutOfBounds));
    assert_eq!(emu.pc(), 0x202);
    assert_eq!(emu.index(), 0);
}

#[test]
fn key_skip_on_large_value_is_out_of_bounds() {
    let mut emu = machine_with(&[0x60, 0x10, 0xE0, 0x9E]);
    run(&mut emu, 1);
    assert_eq!(emu.tick_with(0), Err(EmuError::OutOfBounds));
}

#[test]
fn jump_past_memory_is_out_of_bounds() {
    let mut emu = machine_with(&[0x60, 0x01, 0xBF, 0xFF]);
    run(&mut emu, 1);
    assert_eq!(emu.tick_with(0), Err(EmuError::OutOfBounds));
    assert_eq!(emu.pc(), 0x202);
}

#[test]
fn fetch_at_end_of_memory_is_out_of_bounds() {
    let mut emu = machine_with(&[0x1F, 0xFE]);
    run(&mut emu, 1);
    assert_eq!(emu.pc(), 0xFFE);
    assert_eq!(emu.tick_with(0), Err(EmuError::OutOfBounds));
    assert_eq!(emu.pc(), 0xFFE);
}

#[test]
fn block_store_past_memory_is_out_of_bounds() {
    let mut emu = machine_with(&[0xAF, 0xFE, 0xF3, 0x55]);
    run(&mut emu, 1);
    assert_eq!(emu.tick_with(0), Err(EmuError::OutOfBounds));
    assert_eq!(emu.memory()[0xFFE], 0);
}

#[test]
fn reset_restores_initial_state() {
    let mut emu = machine_with(&[0x60, 0x42, 0xA0, 0x00, 0xD0, 0x05]);
    emu.keypress(3, true);
    run(&mut emu, 3);
    emu.reset();
    assert_eq!(emu.pc(), 0x200);
    assert_eq!(emu.registers()[0], 0);
    assert_eq!(emu.memory()[0x200], 0);
    assert_eq!(emu.memory()[0], 0xF0);
    assert!(emu.get_display().iter().all(|p| !*p));
}

fn machine_with_last_word(program: &[u8], last: [u8; 2]) -> Emu {
    let mut image = vec![0u8; 4096 - 0x200];
    image[..program.len()].copy_from_slice(program);
    let end = image.len();
    image[end - 2] = last[0];
    image[end - 1] = last[1];
    machine_with(&image)
}

#[test]
fn return_at_last_word_restores_pc() {
    let mut emu = machine_with_last_word(&[0x2F, 0xFE], [0x00, 0xEE]);
    run(&mut emu, 1);
    assert_eq!(emu.pc(), 0xFFE);
    run(&mut emu, 1);
    assert_eq!(emu.pc(), 0x202);
}

#[test]
fn jump_at_last_word_runs() {
    let mut emu = machine_with_last_word(&[0x1F, 0xFE], [0x13, 0x00]);
    run(&mut emu, 2);
    assert_eq!(emu.pc(), 0x300);
}

#[test]
fn get_key_at_last_word_waits() {
    let mut emu = machine_with_last_word(&[0x1F, 0xFE], [0xF2, 0x0A]);
    run(&mut emu, 2);
    assert_eq!(emu.pc(), 0xFFE);
    emu.keypress(4, true);
    assert_eq!(emu.tick_with(0), Err(EmuError::OutOfBounds));
    assert_eq!(emu.pc(), 0xFFE);
    assert_eq!(emu.registers()[2], 0);
}

#[test]
fn plain_instruction_at_last_word_changes_nothing() {
    let mut emu = machine_with_last_word(&[0x1F, 0xFE], [0x60, 0x42]);
    run(&mut emu, 1);
    assert_eq!(emu.tick_with(0), Err(EmuError::OutOfBounds));
    assert_eq!(emu.pc(), 0xFFE);
    assert_eq!(emu.registers()[0], 0);
}

#[test]
fn skip_past_memory_is_out_of_bounds() {
    // Jump to 0xFFC, which skips over 0xFFE to 0x1000.
    let mut emu = machine_with_last_word(&[0x1F, 0xFC], [0x00, 0x00]);
    run(&mut emu, 1);
    emu.load(&{
        let mut image = vec![0u8; 4096 - 0x200];
        image[0xFFC - 0x200] = 0x30;
        image[0xFFD - 0x200] = 0x00;
        image
    });
    assert_eq!(emu.tick_with(0), Err(EmuError::OutOfBounds));
    assert_eq!(emu.pc(), 0xFFC);
}
