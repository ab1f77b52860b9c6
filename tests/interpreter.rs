use chip8::cpu::Cpu;
use chip8::keypad::keypad_index;
use chip8::machine::{ExecError, LoadError, MAX_PROGRAM_LEN};

fn boot(words: &[u16]) -> Cpu {
    let mut rom: Vec<u8> = Vec::new();
    for w in words {
        rom.push((w >> 8) as u8);
        rom.push((w & 0xFF) as u8);
    }
    let mut cpu = Cpu::new();
    assert_eq!(cpu.load_rom(&rom), Ok(()));
    cpu
}

fn run(cpu: &mut Cpu, n: usize) {
    for _ in 0..n {
        assert_eq!(cpu.cycle(0), Ok(()));
    }
}

fn lit_pixels(cpu: &Cpu) -> usize {
    cpu.framebuffer().iter().filter(|p| **p == 1).count()
}

#[test]
fn new_machine_state() {
    let cpu = Cpu::new();
    assert_eq!(cpu.program_counter(), 0x200);
    assert_eq!(cpu.memory_at(0), 0xF0);
    assert_eq!(cpu.memory_at(5), 0x20);
    assert_eq!(cpu.memory_at(79), 0x80);
    assert_eq!(cpu.memory_at(80), 0);
    assert_eq!(cpu.framebuffer().len(), 64 * 32);
    assert_eq!(lit_pixels(&cpu), 0);
    assert!(!cpu.redraw_requested());
    assert!(!cpu.tone_active());
    assert_eq!(cpu.snapshot(), (0x200, 0, 0));
}

#[test]
fn fetch_is_big_endian() {
    let mut cpu = boot(&[0xABCD]);
    assert_eq!(cpu.memory_at(0x200), 0xAB);
    assert_eq!(cpu.memory_at(0x201), 0xCD);
    assert_eq!(cpu.fetch(), Ok(0xABCD));
    run(&mut cpu, 1);
    assert_eq!(cpu.snapshot().1, 0xABCD);
    assert_eq!(cpu.index(), 0xBCD);
}

#[test]
fn clear_screen_blanks_and_requests_redraw() {
    // draw the font glyph for 0, then clear
    let mut cpu = boot(&[0xA000, 0xD005, 0x00E0]);
    run(&mut cpu, 2);
    assert!(lit_pixels(&cpu) > 0);
    run(&mut cpu, 1);
    assert_eq!(lit_pixels(&cpu), 0);
    assert!(cpu.redraw_requested());
    assert_eq!(cpu.program_counter(), 0x206);
}

#[test]
fn redraw_flag_lasts_one_cycle() {
    let mut cpu = boot(&[0x00E0, 0x6001]);
    run(&mut cpu, 1);
    assert!(cpu.redraw_requested());
    run(&mut cpu, 1);
    assert!(!cpu.redraw_requested());
}

#[test]
fn jump_sets_pc_exactly() {
    let mut cpu = boot(&[0x1ABC]);
    run(&mut cpu, 1);
    assert_eq!(cpu.program_counter(), 0xABC);
}

#[test]
fn call_then_return_resumes_after_call() {
    // 0x200: call 0x206; 0x202: jump 0x202; 0x204: nothing; 0x206: 6105; 0x208: return
    let mut cpu = boot(&[0x2206, 0x1202, 0x0000, 0x6105, 0x00EE]);
    run(&mut cpu, 1);
    assert_eq!(cpu.program_counter(), 0x206);
    assert_eq!(cpu.snapshot().2, 1);
    run(&mut cpu, 2);
    assert_eq!(cpu.program_counter(), 0x202);
    assert_eq!(cpu.snapshot().2, 0);
    assert_eq!(cpu.register(1), 5);
}

#[test]
fn return_with_empty_stack_is_tolerated() {
    let mut cpu = boot(&[0x00EE]);
    assert_eq!(cpu.cycle(0), Ok(()));
    assert_eq!(cpu.snapshot().2, 0);
    assert_eq!(cpu.program_counter(), 0);
}

#[test]
fn stack_overflow_on_seventeenth_call() {
    let mut cpu = boot(&[0x2200]);
    run(&mut cpu, 16);
    assert_eq!(cpu.snapshot().2, 16);
    assert_eq!(cpu.cycle(0), Err(ExecError::StackOverflow { pc: 0x200 }));
    assert_eq!(cpu.snapshot().2, 16);
}

#[test]
fn load_then_skip_when_equal() {
    let mut cpu = boot(&[0x6A42, 0x3A42]);
    run(&mut cpu, 2);
    assert_eq!(cpu.program_counter(), 0x206);
}

#[test]
fn load_then_no_skip_when_different() {
    let mut cpu = boot(&[0x6A42, 0x3A43]);
    run(&mut cpu, 2);
    assert_eq!(cpu.program_counter(), 0x204);
}

#[test]
fn skip_not_equal_and_register_compares() {
    let mut cpu = boot(&[0x6103, 0x6203, 0x4103, 0x5120, 0x0000, 0x9120, 0x6204, 0x9120]);
    run(&mut cpu, 3);
    assert_eq!(cpu.program_counter(), 0x206);
    run(&mut cpu, 1);
    assert_eq!(cpu.program_counter(), 0x20A);
    run(&mut cpu, 1);
    assert_eq!(cpu.program_counter(), 0x20C);
    run(&mut cpu, 2);
    assert_eq!(cpu.program_counter(), 0x212);
}

#[test]
fn single_dot_sprite_drawn_then_erased() {
    // idx = 0x20C, V0 = 5, V1 = 3, draw twice; 0x20C holds 0b1000_0000
    let mut cpu = boot(&[0xA20C, 0x6005, 0x6103, 0xD011, 0xD011, 0x1000, 0x8000]);
    run(&mut cpu, 4);
    assert_eq!(cpu.pixel(3, 5), 1);
    assert_eq!(lit_pixels(&cpu), 1);
    assert_eq!(cpu.register(15), 0);
    assert!(cpu.redraw_requested());
    run(&mut cpu, 1);
    assert_eq!(cpu.pixel(3, 5), 0);
    assert_eq!(lit_pixels(&cpu), 0);
    assert_eq!(cpu.register(15), 1);
}

#[test]
fn sprite_wraps_on_both_axes() {
    // V0 = 62, V1 = 31, idx = 0x20A (0xFF row then 0x81 row), draw two rows
    let mut cpu = boot(&[0x603E, 0x611F, 0xA20A, 0xD012, 0x1208, 0xFF81]);
    run(&mut cpu, 4);
    assert_eq!(lit_pixels(&cpu), 10);
    assert_eq!(cpu.pixel(31, 62), 1);
    assert_eq!(cpu.pixel(31, 63), 1);
    for c in 0..6 {
        assert_eq!(cpu.pixel(31, c), 1);
    }
    assert_eq!(cpu.pixel(31, 6), 0);
    assert_eq!(cpu.pixel(0, 62), 1);
    assert_eq!(cpu.pixel(0, 63), 0);
    assert_eq!(cpu.pixel(0, 5), 1);
}

#[test]
fn draw_coordinates_reduce_modulo_screen() {
    // V0 = 200 (200 mod 64 = 8), V1 = 100 (100 mod 32 = 4)
    let mut cpu = boot(&[0x60C8, 0x6164, 0xA20A, 0xD011, 0x1208, 0x8000]);
    run(&mut cpu, 4);
    assert_eq!(cpu.pixel(4, 8), 1);
    assert_eq!(lit_pixels(&cpu), 1);
}

#[test]
fn store_clear_load_round_trip() {
    let mut cpu = boot(&[
        0x6011, 0x6122, 0x6233, 0x6344, 0xA300, 0xF355, 0x6000, 0x6100, 0x6200, 0x6300, 0xF365,
    ]);
    run(&mut cpu, 6);
    assert_eq!(cpu.memory_at(0x300), 0x11);
    assert_eq!(cpu.memory_at(0x303), 0x44);
    assert_eq!(cpu.memory_at(0x304), 0);
    run(&mut cpu, 4);
    assert_eq!(cpu.register(0), 0);
    run(&mut cpu, 1);
    assert_eq!(cpu.register(0), 0x11);
    assert_eq!(cpu.register(1), 0x22);
    assert_eq!(cpu.register(2), 0x33);
    assert_eq!(cpu.register(3), 0x44);
    assert_eq!(cpu.index(), 0x300);
}

#[test]
fn load_registers_stops_at_x() {
    let mut cpu = boot(&[0x6477, 0xA000, 0xF365]);
    run(&mut cpu, 3);
    assert_eq!(cpu.register(0), 0xF0);
    assert_eq!(cpu.register(3), 0x90);
    assert_eq!(cpu.register(4), 0x77);
}

#[test]
fn delay_timer_counts_down_to_zero() {
    let mut cpu = boot(&[0x6005, 0xF015, 0x1204]);
    run(&mut cpu, 1);
    assert_eq!(cpu.delay_timer(), 0);
    run(&mut cpu, 1);
    assert_eq!(cpu.delay_timer(), 4);
    for expected in [3u8, 2, 1, 0, 0, 0] {
        run(&mut cpu, 1);
        assert_eq!(cpu.delay_timer(), expected);
    }
}

#[test]
fn delay_timer_read_back() {
    let mut cpu = boot(&[0x6009, 0xF015, 0xF107]);
    run(&mut cpu, 3);
    assert_eq!(cpu.register(1), 8);
}

#[test]
fn sound_timer_drives_tone() {
    let mut cpu = boot(&[0x6002, 0xF018, 0x1204]);
    run(&mut cpu, 2);
    assert_eq!(cpu.sound_timer(), 1);
    assert!(cpu.tone_active());
    run(&mut cpu, 1);
    assert!(!cpu.tone_active());
}

#[test]
fn program_of_max_len_loads() {
    let mut cpu = Cpu::new();
    let rom = vec![0xAAu8; MAX_PROGRAM_LEN];
    assert_eq!(MAX_PROGRAM_LEN, 3584);
    assert_eq!(cpu.load_rom(&rom), Ok(()));
    assert_eq!(cpu.memory_at(0x200), 0xAA);
    assert_eq!(cpu.memory_at(0xFFF), 0xAA);
    assert_eq!(cpu.memory_at(0x1FF), 0);
}

#[test]
fn program_one_byte_too_long_is_refused() {
    let mut cpu = Cpu::new();
    let rom = vec![0xAAu8; 3585];
    assert_eq!(cpu.load_rom(&rom), Err(LoadError::ProgramTooLarge));
    assert_eq!(cpu.memory_at(0x200), 0);
    assert_eq!(cpu.memory_at(0xFFF), 0);
}

#[test]
fn unknown_word_is_illegal_and_changes_nothing() {
    let mut cpu = boot(&[0x6507, 0x5001]);
    run(&mut cpu, 1);
    let before = cpu.snapshot();
    assert_eq!(cpu.cycle(0), Err(ExecError::IllegalOpcode { word: 0x5001, pc: 0x202 }));
    assert_eq!(cpu.snapshot(), before);
    assert_eq!(cpu.register(5), 7);
    assert_eq!(cpu.memory_at(0x202), 0x50);
}

#[test]
fn other_unknown_words_are_illegal() {
    for w in [0x0123u16, 0x8AB8, 0x9121, 0xE1FF, 0xF1FF] {
        let mut cpu = boot(&[w]);
        assert_eq!(cpu.cycle(0), Err(ExecError::IllegalOpcode { word: w, pc: 0x200 }));
        assert_eq!(cpu.program_counter(), 0x200);
    }
}

#[test]
fn fetch_past_end_of_memory_fails() {
    let mut cpu = boot(&[0x1FFF]);
    run(&mut cpu, 1);
    assert_eq!(cpu.fetch(), Err(ExecError::AddressOutOfRange { addr: 0x1000, pc: 0xFFF }));
    assert_eq!(cpu.cycle(0), Err(ExecError::AddressOutOfRange { addr: 0x1000, pc: 0xFFF }));
    let mut cpu = boot(&[0x1FFE]);
    run(&mut cpu, 1);
    assert_eq!(cpu.fetch(), Ok(0));
}

#[test]
fn index_access_past_end_of_memory_fails() {
    let mut cpu = boot(&[0xAFFE, 0xF033, 0xF155, 0xF255]);
    run(&mut cpu, 1);
    assert_eq!(cpu.cycle(0), Err(ExecError::AddressOutOfRange { addr: 0xFFE, pc: 0x202 }));
    let mut cpu = boot(&[0xAFFE, 0xF155, 0xF255]);
    run(&mut cpu, 2);
    assert_eq!(cpu.cycle(0), Err(ExecError::AddressOutOfRange { addr: 0xFFE, pc: 0x204 }));
    let mut cpu = boot(&[0xAFFF, 0xD012]);
    run(&mut cpu, 1);
    assert_eq!(cpu.cycle(0), Err(ExecError::AddressOutOfRange { addr: 0xFFF, pc: 0x202 }));
}

#[test]
fn add_byte_wraps() {
    let mut cpu = boot(&[0x60FF, 0x7002, 0x7110]);
    run(&mut cpu, 3);
    assert_eq!(cpu.register(0), 1);
    assert_eq!(cpu.register(1), 0x10);
    assert_eq!(cpu.register(15), 0);
}

#[test]
fn register_logic_ops() {
    let mut cpu = boot(&[0x60CC, 0x61AA, 0x8010, 0x60CC, 0x8011, 0x8200, 0x60CC, 0x8012, 0x8300, 0x60CC, 0x8013]);
    run(&mut cpu, 3);
    assert_eq!(cpu.register(0), 0xAA);
    run(&mut cpu, 3);
    assert_eq!(cpu.register(2), 0xEE);
    run(&mut cpu, 3);
    assert_eq!(cpu.register(3), 0x88);
    run(&mut cpu, 2);
    assert_eq!(cpu.register(0), 0x66);
}

#[test]
fn add_registers_sets_carry() {
    let mut cpu = boot(&[0x60C8, 0x6164, 0x8014, 0x6201, 0x8124]);
    run(&mut cpu, 3);
    assert_eq!(cpu.register(0), 44);
    assert_eq!(cpu.register(15), 1);
    run(&mut cpu, 2);
    assert_eq!(cpu.register(1), 101);
    assert_eq!(cpu.register(15), 0);
}

#[test]
fn subtract_sets_no_borrow_flag() {
    let mut cpu = boot(&[0x6005, 0x610A, 0x8015, 0x620A, 0x6305, 0x8235, 0x6405, 0x6505, 0x8455]);
    run(&mut cpu, 3);
    assert_eq!(cpu.register(0), 251);
    assert_eq!(cpu.register(15), 0);
    run(&mut cpu, 3);
    assert_eq!(cpu.register(2), 5);
    assert_eq!(cpu.register(15), 1);
    run(&mut cpu, 3);
    assert_eq!(cpu.register(4), 0);
    assert_eq!(cpu.register(15), 1);
}

#[test]
fn reverse_subtract() {
    let mut cpu = boot(&[0x6005, 0x610A, 0x8017, 0x620A, 0x6305, 0x8237]);
    run(&mut cpu, 3);
    assert_eq!(cpu.register(0), 5);
    assert_eq!(cpu.register(15), 1);
    run(&mut cpu, 3);
    assert_eq!(cpu.register(2), 251);
    assert_eq!(cpu.register(15), 0);
}

#[test]
fn shifts_report_bit_shifted_out() {
    let mut cpu = boot(&[0x6085, 0x8006, 0x6185, 0x811E, 0x6240, 0x822E]);
    run(&mut cpu, 2);
    assert_eq!(cpu.register(0), 0x42);
    assert_eq!(cpu.register(15), 1);
    run(&mut cpu, 2);
    assert_eq!(cpu.register(1), 0x0A);
    assert_eq!(cpu.register(15), 1);
    run(&mut cpu, 2);
    assert_eq!(cpu.register(2), 0x80);
    assert_eq!(cpu.register(15), 0);
}

#[test]
fn jump_relative_to_v0() {
    let mut cpu = boot(&[0x6010, 0xB300]);
    run(&mut cpu, 2);
    assert_eq!(cpu.program_counter(), 0x310);
}

#[test]
fn random_byte_is_masked() {
    let mut cpu = boot(&[0xC30F]);
    assert_eq!(cpu.cycle(0xFF), Ok(()));
    assert_eq!(cpu.register(3), 0x0F);
    let mut cpu = boot(&[0xC3F0]);
    assert_eq!(cpu.cycle(0x5A), Ok(()));
    assert_eq!(cpu.register(3), 0x50);
}

#[test]
fn key_skips() {
    let mut cpu = boot(&[0x6007, 0xE09E, 0xE0A1, 0x0000, 0xE09E]);
    cpu.set_key(7, true);
    assert!(cpu.key_pressed(7));
    run(&mut cpu, 2);
    assert_eq!(cpu.program_counter(), 0x206);
    let mut cpu = boot(&[0x6017, 0xE09E, 0xE0A1]);
    run(&mut cpu, 2);
    assert_eq!(cpu.program_counter(), 0x204);
    run(&mut cpu, 1);
    assert_eq!(cpu.program_counter(), 0x208);
}

#[test]
fn wait_for_key_polls() {
    let mut cpu = boot(&[0xF50A]);
    run(&mut cpu, 3);
    assert_eq!(cpu.program_counter(), 0x200);
    cpu.set_key(15, true);
    cpu.set_key(9, true);
    run(&mut cpu, 1);
    assert_eq!(cpu.program_counter(), 0x202);
    assert_eq!(cpu.register(5), 9);
}

#[test]
fn add_to_index() {
    let mut cpu = boot(&[0xAFFF, 0x6010, 0xF01E]);
    run(&mut cpu, 3);
    assert_eq!(cpu.index(), 0x100F);
}

#[test]
fn font_glyph_address() {
    let mut cpu = boot(&[0x601A, 0xF029]);
    run(&mut cpu, 2);
    assert_eq!(cpu.index(), 50);
    assert_eq!(cpu.memory_at(50), 0xF0);
}

#[test]
fn decimal_digits() {
    let mut cpu = boot(&[0x60EA, 0xA300, 0xF033]);
    run(&mut cpu, 3);
    assert_eq!(cpu.memory_at(0x300), 2);
    assert_eq!(cpu.memory_at(0x301), 3);
    assert_eq!(cpu.memory_at(0x302), 4);
}

#[test]
fn keypad_layout_maps_sixteen_keys() {
    assert_eq!(keypad_index('1'), Some(1));
    assert_eq!(keypad_index('4'), Some(0xC));
    assert_eq!(keypad_index('q'), Some(4));
    assert_eq!(keypad_index('x'), Some(0));
    assert_eq!(keypad_index('v'), Some(0xF));
    assert_eq!(keypad_index('p'), None);
    assert_eq!(keypad_index('Q'), None);
    let mut seen = [false; 16];
    for c in "1234qwerasdfzxcv".chars() {
        let k = keypad_index(c).unwrap();
        assert!(!seen[k]);
        seen[k] = true;
    }
}
