//! Behavioral tests of the interpreter: one test per instruction family,
//! the documented edge cases, and an input for every error variant.

use chip8::chip::Chip;
use chip8::semantics::ChipError;

const NOKEYS: [bool; 16] = [false; 16];

fn boot(rom: Vec<u8>) -> Chip {
    let mut c = Chip::new();
    c.load_rom(&rom).unwrap();
    c
}

fn run(c: &mut Chip, steps: usize) {
    for _ in 0..steps {
        c.step(&NOKEYS).unwrap();
    }
}

#[test]
fn new_starts_at_rom_base() {
    let c = Chip::new();
    assert_eq!(c.program_counter(), 0x200);
    assert_eq!(c.address_register(), 0);
    assert_eq!(c.stack_depth(), 0);
    assert_eq!(c.delay_timer(), 0);
    assert_eq!(c.sound_timer(), 0);
    assert!(!c.tone_active());
    assert!(!c.is_waiting_for_key());
    for x in 0..16 {
        assert_eq!(c.register(x), 0);
    }
}

#[test]
fn new_loads_font() {
    let c = Chip::new();
    let zero_glyph = [0xF0, 0x90, 0x90, 0x90, 0xF0];
    for (k, b) in zero_glyph.iter().enumerate() {
        assert_eq!(c.mem_byte(k as u16), *b);
    }
    assert_eq!(c.mem_byte(79), 0x80);
    assert_eq!(c.mem_byte(80), 0);
    assert_eq!(c.mem_byte(0x200), 0);
}

#[test]
fn load_rom_places_bytes() {
    let c = boot(vec![0xAB, 0xCD, 0xEF]);
    assert_eq!(c.mem_byte(0x200), 0xAB);
    assert_eq!(c.mem_byte(0x201), 0xCD);
    assert_eq!(c.mem_byte(0x202), 0xEF);
    assert_eq!(c.mem_byte(0x203), 0x00);
    assert_eq!(c.mem_byte(0x1FF), 0x00);
}

#[test]
fn load_rom_accepts_largest() {
    let mut c = Chip::new();
    let rom = vec![0x77u8; 3583];
    assert_eq!(c.load_rom(&rom), Ok(()));
    assert_eq!(c.mem_byte(0x200 + 3582), 0x77);
}

#[test]
fn load_rom_rejects_oversize() {
    let mut c = Chip::new();
    let rom = vec![0x77u8; 3584];
    assert_eq!(c.load_rom(&rom), Err(ChipError::RomTooLarge { len: 3584 }));
    assert_eq!(c.mem_byte(0x200), 0);
}

#[test]
fn set_and_add_immediate_wraps() {
    let mut c = boot(vec![0x60, 0xFA, 0x70, 0x0A]);
    run(&mut c, 2);
    assert_eq!(c.register(0), 4);
    assert_eq!(c.register(15), 0);
    assert_eq!(c.program_counter(), 0x204);
}

#[test]
fn add_reg_carry() {
    let mut c = boot(vec![0x60, 0xC8, 0x61, 0x64, 0x80, 0x14]);
    run(&mut c, 3);
    assert_eq!(c.register(0), 44);
    assert_eq!(c.register(15), 1);
}

#[test]
fn add_reg_no_carry() {
    let mut c = boot(vec![0x60, 0x05, 0x61, 0x03, 0x80, 0x14]);
    run(&mut c, 3);
    assert_eq!(c.register(0), 8);
    assert_eq!(c.register(15), 0);
}

#[test]
fn sub_reg_borrow() {
    let mut c = boot(vec![0x60, 0x03, 0x61, 0x0A, 0x80, 0x15]);
    run(&mut c, 3);
    assert_eq!(c.register(0), 249);
    assert_eq!(c.register(15), 0);
}

#[test]
fn sub_reg_no_borrow() {
    let mut c = boot(vec![0x60, 0x0A, 0x61, 0x03, 0x80, 0x15]);
    run(&mut c, 3);
    assert_eq!(c.register(0), 7);
    assert_eq!(c.register(15), 1);
}

#[test]
fn sub_reverse() {
    let mut c = boot(vec![0x60, 0x03, 0x61, 0x0A, 0x80, 0x17]);
    run(&mut c, 3);
    assert_eq!(c.register(0), 7);
    assert_eq!(c.register(15), 1);
}

#[test]
fn shift_right_sets_vf_to_shifted_bit() {
    // VF is forced to 1 first; shifting an even value must overwrite it
    // with the 0 that falls out, never keep the stale flag.
    let mut c = boot(vec![0x6F, 0x01, 0x60, 0x04, 0x80, 0x06]);
    run(&mut c, 3);
    assert_eq!(c.register(0), 2);
    assert_eq!(c.register(15), 0);

    let mut c2 = boot(vec![0x60, 0x05, 0x80, 0x06]);
    run(&mut c2, 2);
    assert_eq!(c2.register(0), 2);
    assert_eq!(c2.register(15), 1);
}

#[test]
fn shift_left_sets_vf_to_shifted_bit() {
    let mut c = boot(vec![0x6F, 0x01, 0x60, 0x41, 0x80, 0x0E]);
    run(&mut c, 3);
    assert_eq!(c.register(0), 0x82);
    assert_eq!(c.register(15), 0);

    let mut c2 = boot(vec![0x60, 0x81, 0x80, 0x0E]);
    run(&mut c2, 2);
    assert_eq!(c2.register(0), 0x02);
    assert_eq!(c2.register(15), 1);
}

#[test]
fn logic_or_and_xor() {
    let mut c = boot(vec![0x60, 0x0C, 0x61, 0x0A, 0x80, 0x11]);
    run(&mut c, 3);
    assert_eq!(c.register(0), 0x0E);

    let mut c2 = boot(vec![0x60, 0x0C, 0x61, 0x0A, 0x80, 0x12]);
    run(&mut c2, 3);
    assert_eq!(c2.register(0), 0x08);

    let mut c3 = boot(vec![0x60, 0x0C, 0x61, 0x0A, 0x80, 0x13]);
    run(&mut c3, 3);
    assert_eq!(c3.register(0), 0x06);
}

#[test]
fn move_reg() {
    let mut c = boot(vec![0x61, 0x2A, 0x80, 0x10]);
    run(&mut c, 2);
    assert_eq!(c.register(0), 0x2A);
}

#[test]
fn jump_sets_pc() {
    let mut c = boot(vec![0x12, 0x46]);
    run(&mut c, 1);
    assert_eq!(c.program_counter(), 0x246);
}

#[test]
fn call_and_return_round_trip() {
    // Call 0x300, which holds a return; PC must come back to just after
    // the call, with exactly one frame pushed and popped.
    let mut rom = vec![0u8; 0x102];
    rom[0] = 0x23;
    rom[1] = 0x00;
    rom[0x100] = 0x00;
    rom[0x101] = 0xEE;
    let mut c = boot(rom);
    run(&mut c, 1);
    assert_eq!(c.program_counter(), 0x300);
    assert_eq!(c.stack_depth(), 1);
    run(&mut c, 1);
    assert_eq!(c.program_counter(), 0x202);
    assert_eq!(c.stack_depth(), 0);
}

#[test]
fn jump_plus_v0_masks_before_adding() {
    // The address mask applies to the immediate first; V0 is added after.
    let mut c = boot(vec![0x60, 0x02, 0xB2, 0x08]);
    run(&mut c, 2);
    assert_eq!(c.program_counter(), 0x20A);
}

#[test]
fn skip_on_immediate_compare() {
    let mut c = boot(vec![0x60, 0x07, 0x30, 0x07]);
    run(&mut c, 2);
    assert_eq!(c.program_counter(), 0x206);

    let mut c2 = boot(vec![0x60, 0x07, 0x30, 0x08]);
    run(&mut c2, 2);
    assert_eq!(c2.program_counter(), 0x204);

    let mut c3 = boot(vec![0x60, 0x07, 0x40, 0x08]);
    run(&mut c3, 2);
    assert_eq!(c3.program_counter(), 0x206);
}

#[test]
fn skip_on_register_compare() {
    let mut c = boot(vec![0x60, 0x07, 0x61, 0x07, 0x50, 0x10]);
    run(&mut c, 3);
    assert_eq!(c.program_counter(), 0x208);

    let mut c2 = boot(vec![0x60, 0x07, 0x61, 0x08, 0x90, 0x10]);
    run(&mut c2, 3);
    assert_eq!(c2.program_counter(), 0x208);

    let mut c3 = boot(vec![0x60, 0x07, 0x61, 0x07, 0x90, 0x10]);
    run(&mut c3, 3);
    assert_eq!(c3.program_counter(), 0x206);
}

#[test]
fn set_addr_register() {
    let mut c = boot(vec![0xA1, 0x23]);
    run(&mut c, 1);
    assert_eq!(c.address_register(), 0x123);
}

#[test]
fn add_to_addr_register() {
    let mut c = boot(vec![0xA1, 0x00, 0x60, 0x05, 0xF0, 0x1E]);
    run(&mut c, 3);
    assert_eq!(c.address_register(), 0x105);
    assert_eq!(c.register(15), 0);
}

#[test]
fn add_to_addr_out_of_range() {
    let mut c = boot(vec![0xAF, 0xFF, 0x60, 0x0A, 0xF0, 0x1E]);
    run(&mut c, 2);
    let r = c.step(&NOKEYS);
    assert_eq!(r, Err(ChipError::AddressOutOfRange { addr: 0xFFF + 10 }));
    assert_eq!(c.address_register(), 0xFFF);
    assert_eq!(c.program_counter(), 0x204);
}

#[test]
fn sprite_addr_of_hex_digit() {
    let mut c = boot(vec![0x60, 0x0A, 0xF0, 0x29]);
    run(&mut c, 2);
    assert_eq!(c.address_register(), 50);
}

#[test]
fn store_bcd_of_255() {
    let mut c = boot(vec![0x60, 0xFF, 0xA3, 0x00, 0xF0, 0x33]);
    run(&mut c, 3);
    assert_eq!(c.mem_byte(0x300), 2);
    assert_eq!(c.mem_byte(0x301), 5);
    assert_eq!(c.mem_byte(0x302), 5);
}

#[test]
fn store_bcd_digits() {
    let mut c = boot(vec![0x60, 0x4A, 0xA3, 0x00, 0xF0, 0x33]);
    run(&mut c, 3);
    assert_eq!(c.mem_byte(0x300), 0);
    assert_eq!(c.mem_byte(0x301), 7);
    assert_eq!(c.mem_byte(0x302), 4);
}

#[test]
fn store_bcd_out_of_range() {
    let mut c = boot(vec![0xAF, 0xFE, 0x60, 0x01, 0xF0, 0x33]);
    run(&mut c, 2);
    let r = c.step(&NOKEYS);
    assert_eq!(r, Err(ChipError::AddressOutOfRange { addr: 0xFFE + 3 }));
    assert_eq!(c.program_counter(), 0x204);
}

#[test]
fn reg_dump_writes_inclusive_range() {
    let mut c = boot(vec![
        0x60, 0x11, 0x61, 0x22, 0x62, 0x33, 0xA3, 0x00, 0xF2, 0x55,
    ]);
    run(&mut c, 5);
    assert_eq!(c.mem_byte(0x300), 0x11);
    assert_eq!(c.mem_byte(0x301), 0x22);
    assert_eq!(c.mem_byte(0x302), 0x33);
    assert_eq!(c.mem_byte(0x303), 0x00);
    assert_eq!(c.address_register(), 0x300);
}

#[test]
fn reg_dump_then_load_round_trip() {
    // Dump V0..=V2, clobber V1, load back: the dumped values return.
    let mut c = boot(vec![
        0x60, 0x11, 0x61, 0x22, 0x62, 0x33, 0xA3, 0x00, 0xF2, 0x55, 0x61, 0x99, 0xF2, 0x65,
    ]);
    run(&mut c, 7);
    assert_eq!(c.register(0), 0x11);
    assert_eq!(c.register(1), 0x22);
    assert_eq!(c.register(2), 0x33);
    assert_eq!(c.address_register(), 0x300);
}

#[test]
fn reg_load_reads_font() {
    let mut c = boot(vec![0xA0, 0x00, 0xF1, 0x65]);
    run(&mut c, 2);
    assert_eq!(c.register(0), 0xF0);
    assert_eq!(c.register(1), 0x90);
}

#[test]
fn reg_dump_out_of_range() {
    let mut c = boot(vec![0xAF, 0xFA, 0xFF, 0x55]);
    run(&mut c, 1);
    let r = c.step(&NOKEYS);
    assert_eq!(r, Err(ChipError::AddressOutOfRange { addr: 0xFFA + 16 }));
}

#[test]
fn draw_wraps_at_right_edge() {
    let mut c = boot(vec![
        0x60, 0x3C, 0x61, 0x00, 0xA2, 0x08, 0xD0, 0x11, 0xFF,
    ]);
    run(&mut c, 4);
    for x in 0..64 {
        let want = (60..64).contains(&x) || x < 4;
        assert_eq!(c.pixel(x, 0), want, "column {}", x);
    }
    for y in 1..32 {
        for x in 0..64 {
            assert!(!c.pixel(x, y));
        }
    }
    assert_eq!(c.register(15), 0);
}

#[test]
fn draw_twice_collides_and_erases() {
    let mut c = boot(vec![
        0x60, 0x00, 0xA2, 0x08, 0xD0, 0x01, 0xD0, 0x01, 0xFF,
    ]);
    run(&mut c, 3);
    assert_eq!(c.register(15), 0);
    assert!(c.pixel(0, 0));
    run(&mut c, 1);
    assert_eq!(c.register(15), 1);
    for x in 0..8 {
        assert!(!c.pixel(x, 0));
    }
}

#[test]
fn draw_out_of_range() {
    let mut c = boot(vec![0xAF, 0xFF, 0xD0, 0x02]);
    run(&mut c, 1);
    let r = c.step(&NOKEYS);
    assert_eq!(r, Err(ChipError::AddressOutOfRange { addr: 0xFFF + 2 }));
}

#[test]
fn clear_screen_idempotent() {
    let mut c = boot(vec![
        0x60, 0x00, 0xA2, 0x0A, 0xD0, 0x01, 0x00, 0xE0, 0x00, 0xE0, 0xFF,
    ]);
    run(&mut c, 3);
    assert!(c.pixel(0, 0));
    run(&mut c, 1);
    let mut first = Vec::new();
    for y in 0..32 {
        for x in 0..64 {
            first.push(c.pixel(x, y));
        }
    }
    assert!(first.iter().all(|p| !p));
    run(&mut c, 1);
    let mut k = 0;
    for y in 0..32 {
        for x in 0..64 {
            assert_eq!(c.pixel(x, y), first[k]);
            k += 1;
        }
    }
}

#[test]
fn rom_scenario_add_then_clear() {
    let mut c = boot(vec![0x60, 0x05, 0x61, 0x03, 0x80, 0x14, 0x00, 0x00]);
    run(&mut c, 1);
    assert_eq!(c.register(0), 5);
    run(&mut c, 1);
    assert_eq!(c.register(1), 3);
    run(&mut c, 1);
    assert_eq!(c.register(0), 8);
    assert_eq!(c.register(15), 0);
    assert_eq!(c.step(&NOKEYS), Ok(()));
    for y in 0..32 {
        for x in 0..64 {
            assert!(!c.pixel(x, y));
        }
    }
    assert_eq!(c.program_counter(), 0x208);
}

#[test]
fn wait_for_key_blocks_until_event() {
    let mut c = boot(vec![0xF0, 0x0A, 0x61, 0x22]);
    run(&mut c, 1);
    assert!(c.is_waiting_for_key());
    assert_eq!(c.program_counter(), 0x202);
    for _ in 0..3 {
        assert_eq!(c.step(&NOKEYS), Ok(()));
        assert_eq!(c.program_counter(), 0x202);
        for x in 0..16 {
            assert_eq!(c.register(x), 0);
        }
    }
    c.press_key(7);
    assert!(!c.is_waiting_for_key());
    assert_eq!(c.register(0), 7);
    assert_eq!(c.program_counter(), 0x202);
    for x in 1..16 {
        assert_eq!(c.register(x), 0);
    }
    run(&mut c, 1);
    assert_eq!(c.register(1), 0x22);
    assert_eq!(c.program_counter(), 0x204);
}

#[test]
fn press_key_ignored_when_not_waiting() {
    let mut c = Chip::new();
    c.press_key(7);
    for x in 0..16 {
        assert_eq!(c.register(x), 0);
    }
    assert_eq!(c.program_counter(), 0x200);
}

#[test]
fn skip_if_key_down_and_up() {
    let mut keys = [false; 16];
    keys[4] = true;
    let mut c = boot(vec![0x60, 0x04, 0xE0, 0x9E]);
    c.step(&NOKEYS).unwrap();
    c.step(&keys).unwrap();
    assert_eq!(c.program_counter(), 0x206);

    let mut c2 = boot(vec![0x60, 0x04, 0xE0, 0xA1]);
    c2.step(&NOKEYS).unwrap();
    c2.step(&keys).unwrap();
    assert_eq!(c2.program_counter(), 0x204);

    let mut c3 = boot(vec![0x60, 0x05, 0xE0, 0x9E]);
    c3.step(&NOKEYS).unwrap();
    c3.step(&keys).unwrap();
    assert_eq!(c3.program_counter(), 0x204);
}

#[test]
fn key_compare_uses_low_nibble() {
    let mut keys = [false; 16];
    keys[4] = true;
    let mut c = boot(vec![0x60, 0x14, 0xE0, 0x9E]);
    c.step(&NOKEYS).unwrap();
    c.step(&keys).unwrap();
    assert_eq!(c.program_counter(), 0x206);
}

#[test]
fn timers_and_tone() {
    let mut c = boot(vec![0x60, 0x02, 0xF0, 0x15, 0xF0, 0x18, 0xF1, 0x07]);
    run(&mut c, 3);
    assert_eq!(c.delay_timer(), 2);
    assert_eq!(c.sound_timer(), 2);
    assert!(c.tone_active());
    run(&mut c, 1);
    assert_eq!(c.register(1), 2);
    c.tick();
    assert_eq!(c.delay_timer(), 1);
    assert!(c.tone_active());
    c.tick();
    assert_eq!(c.sound_timer(), 0);
    assert!(!c.tone_active());
    c.tick();
    assert_eq!(c.delay_timer(), 0);
    assert_eq!(c.sound_timer(), 0);
}

#[test]
fn rand_with_zero_mask_is_zero() {
    let mut c = boot(vec![0x60, 0x55, 0xC0, 0x00]);
    run(&mut c, 2);
    assert_eq!(c.register(0), 0);
}

#[test]
fn rand_respects_mask() {
    let mut c = boot(vec![0xC0, 0x0F]);
    run(&mut c, 1);
    assert!(c.register(0) <= 0x0F);
}

#[test]
fn unknown_opcode_is_fatal() {
    let mut c = boot(vec![0xFF, 0xFF]);
    let r = c.step(&NOKEYS);
    assert_eq!(
        r,
        Err(ChipError::UnknownOpcode { op: 0xFFFF, pc: 0x200 })
    );
    assert_eq!(c.program_counter(), 0x200);
}

#[test]
fn unknown_subclass_is_fatal() {
    let mut c = boot(vec![0x80, 0x08]);
    assert_eq!(
        c.step(&NOKEYS),
        Err(ChipError::UnknownOpcode { op: 0x8008, pc: 0x200 })
    );

    let mut c2 = boot(vec![0x51, 0x21]);
    assert_eq!(
        c2.step(&NOKEYS),
        Err(ChipError::UnknownOpcode { op: 0x5121, pc: 0x200 })
    );
}

#[test]
fn return_on_empty_stack_is_fatal() {
    let mut c = boot(vec![0x00, 0xEE]);
    assert_eq!(c.step(&NOKEYS), Err(ChipError::StackUnderflow));
    assert_eq!(c.program_counter(), 0x200);
}

#[test]
fn fetch_past_memory_end_is_fatal() {
    let mut c = boot(vec![0x1F, 0xFF]);
    run(&mut c, 1);
    assert_eq!(c.program_counter(), 0xFFF);
    assert_eq!(
        c.step(&NOKEYS),
        Err(ChipError::PcOutOfRange { pc: 0xFFF })
    );
}

#[test]
fn jump_plus_v0_out_of_range_is_fatal() {
    let mut c = boot(vec![0x60, 0xFF, 0xBF, 0xFF]);
    run(&mut c, 1);
    assert_eq!(
        c.step(&NOKEYS),
        Err(ChipError::PcOutOfRange { pc: 0xFFF + 255 })
    );
    assert_eq!(c.program_counter(), 0x202);
}
