use chip8_emu::chip8::{build_chip8, Chip8ErrorKind, STACK_SIZE};
use chip8_emu::chip8_display::{px_at, DISPLAY_HEIGHT, DISPLAY_WIDTH};
use chip8_emu::chip8_instructions::exec;

#[test]
fn add_vx_vy_wraps_and_sets_carry() {
    let mut d = build_chip8();
    d.vn[0] = 0xFF;
    d.vn[1] = 0x01;
    assert!(exec(0x8014, &mut d).is_ok());
    assert_eq!(d.vn[0], 0x00);
    assert_eq!(d.vn[0xF], 1);
    assert_eq!(d.pc, 0x202);
}

#[test]
fn add_vx_vy_without_carry_clears_vf() {
    let mut d = build_chip8();
    d.vn[0] = 0x12;
    d.vn[1] = 0x34;
    d.vn[0xF] = 1;
    assert!(exec(0x8014, &mut d).is_ok());
    assert_eq!(d.vn[0], 0x46);
    assert_eq!(d.vn[0xF], 0);
}

#[test]
fn sub_vx_vy_wraps_and_signals_borrow() {
    let mut d = build_chip8();
    d.vn[0] = 0x05;
    d.vn[1] = 0x0A;
    assert!(exec(0x8015, &mut d).is_ok());
    assert_eq!(d.vn[0], 0xFB);
    assert_eq!(d.vn[0xF], 0);
}

#[test]
fn sub_vx_vy_without_borrow_sets_vf() {
    let mut d = build_chip8();
    d.vn[0] = 0x0A;
    d.vn[1] = 0x05;
    assert!(exec(0x8015, &mut d).is_ok());
    assert_eq!(d.vn[0], 0x05);
    assert_eq!(d.vn[0xF], 1);
}

#[test]
fn subn_is_the_mirror_of_sub() {
    let mut d = build_chip8();
    d.vn[2] = 0x05;
    d.vn[3] = 0x0A;
    assert!(exec(0x8237, &mut d).is_ok());
    assert_eq!(d.vn[2], 0x05);
    assert_eq!(d.vn[0xF], 1);
    d.vn[4] = 0x0A;
    d.vn[5] = 0x05;
    assert!(exec(0x8457, &mut d).is_ok());
    assert_eq!(d.vn[4], 0xFB);
    assert_eq!(d.vn[0xF], 0);
}

#[test]
fn logic_ops_combine_vx_and_vy() {
    let mut d = build_chip8();
    d.vn[0] = 0b1100;
    d.vn[1] = 0b1010;
    assert!(exec(0x8011, &mut d).is_ok());
    assert_eq!(d.vn[0], 0b1110);
    d.vn[0] = 0b1100;
    assert!(exec(0x8012, &mut d).is_ok());
    assert_eq!(d.vn[0], 0b1000);
    d.vn[0] = 0b1100;
    assert!(exec(0x8013, &mut d).is_ok());
    assert_eq!(d.vn[0], 0b0110);
}

#[test]
fn ld_and_add_with_immediate_byte() {
    let mut d = build_chip8();
    assert!(exec(0x63AB, &mut d).is_ok());
    assert_eq!(d.vn[3], 0xAB);
    assert!(exec(0x73FF, &mut d).is_ok());
    // 0xAB + 0xFF wraps to 0xAA without touching VF
    assert_eq!(d.vn[3], 0xAA);
    assert_eq!(d.vn[0xF], 0);
    assert!(exec(0x8430, &mut d).is_ok());
    assert_eq!(d.vn[4], 0xAA);
}

#[test]
fn shr_reads_vy_and_captures_the_low_bit() {
    let mut d = build_chip8();
    d.vn[1] = 0b0000_0101;
    d.vn[0] = 0xEE;
    assert!(exec(0x8016, &mut d).is_ok());
    assert_eq!(d.vn[0], 0b0000_0010);
    assert_eq!(d.vn[0xF], 1);
    assert_eq!(d.vn[1], 0b0000_0101);
}

#[test]
fn shl_reads_vy_and_captures_the_high_bit() {
    let mut d = build_chip8();
    d.vn[1] = 0b1100_0001;
    assert!(exec(0x801E, &mut d).is_ok());
    assert_eq!(d.vn[0], 0b1000_0010);
    assert_eq!(d.vn[0xF], 1);
    assert_eq!(d.vn[1], 0b1100_0001);
}

#[test]
fn skips_on_immediate_and_register_comparisons() {
    let mut d = build_chip8();
    d.vn[1] = 0x42;
    assert!(exec(0x3142, &mut d).is_ok());
    assert_eq!(d.pc, 0x204);
    assert!(exec(0x3143, &mut d).is_ok());
    assert_eq!(d.pc, 0x206);
    assert!(exec(0x4143, &mut d).is_ok());
    assert_eq!(d.pc, 0x20A);
    d.vn[2] = 0x42;
    assert!(exec(0x5120, &mut d).is_ok());
    assert_eq!(d.pc, 0x20E);
    assert!(exec(0x9120, &mut d).is_ok());
    assert_eq!(d.pc, 0x210);
    d.vn[2] = 0x00;
    assert!(exec(0x9120, &mut d).is_ok());
    assert_eq!(d.pc, 0x214);
}

#[test]
fn jumps_set_the_program_counter_absolutely() {
    let mut d = build_chip8();
    assert!(exec(0x1ABC, &mut d).is_ok());
    assert_eq!(d.pc, 0xABC);
    d.vn[0] = 0x10;
    assert!(exec(0xB300, &mut d).is_ok());
    assert_eq!(d.pc, 0x310);
}

#[test]
fn ldi_sets_the_index_register() {
    let mut d = build_chip8();
    assert!(exec(0xA220, &mut d).is_ok());
    assert_eq!(d.i, 0x220);
    assert_eq!(d.pc, 0x202);
}

#[test]
fn add_i_vx_sets_vf_when_leaving_the_address_space() {
    let mut d = build_chip8();
    d.i = 0xFFE;
    d.vn[0] = 0x01;
    assert!(exec(0xF01E, &mut d).is_ok());
    assert_eq!(d.i, 0xFFF);
    assert_eq!(d.vn[0xF], 0);
    assert!(exec(0xF01E, &mut d).is_ok());
    assert_eq!(d.i, 0x1000);
    assert_eq!(d.vn[0xF], 1);
}

#[test]
fn font_pointer_for_each_digit() {
    let mut d = build_chip8();
    d.vn[7] = 0x0;
    assert!(exec(0xF729, &mut d).is_ok());
    assert_eq!(d.i, 0);
    d.vn[7] = 0xF;
    assert!(exec(0xF729, &mut d).is_ok());
    assert_eq!(d.i, 75);
    // values above 15 name no digit and leave I unchanged
    d.vn[7] = 16;
    assert!(exec(0xF729, &mut d).is_ok());
    assert_eq!(d.i, 75);
    assert_eq!(d.pc, 0x206);
}

#[test]
fn bcd_store_writes_the_three_decimal_digits() {
    let mut d = build_chip8();
    d.vn[2] = 234;
    d.i = 0x300;
    assert!(exec(0xF233, &mut d).is_ok());
    assert_eq!(d.memory[0x300], 2);
    assert_eq!(d.memory[0x301], 3);
    assert_eq!(d.memory[0x302], 4);
}

#[test]
fn register_block_store_and_load_round_trip() {
    let mut d = build_chip8();
    for n in 0..4 {
        d.vn[n] = (n as u8) + 10;
    }
    d.i = 0x300;
    assert!(exec(0xF355, &mut d).is_ok());
    assert_eq!(d.memory[0x300], 10);
    assert_eq!(d.memory[0x301], 11);
    assert_eq!(d.memory[0x302], 12);
    assert_eq!(d.memory[0x303], 13);
    // I advanced past the stored block
    assert_eq!(d.i, 0x304);
    // wipe the registers and load them back
    for n in 0..4 {
        d.vn[n] = 0;
    }
    d.i = 0x300;
    assert!(exec(0xF365, &mut d).is_ok());
    assert_eq!(d.vn[0], 10);
    assert_eq!(d.vn[1], 11);
    assert_eq!(d.vn[2], 12);
    assert_eq!(d.vn[3], 13);
    assert_eq!(d.vn[4], 0);
    assert_eq!(d.i, 0x304);
}

#[test]
fn timer_transfers() {
    let mut d = build_chip8();
    d.vn[3] = 42;
    assert!(exec(0xF315, &mut d).is_ok());
    assert_eq!(d.dt, 42);
    assert!(exec(0xF318, &mut d).is_ok());
    assert_eq!(d.st, 42);
    assert!(exec(0xF507, &mut d).is_ok());
    assert_eq!(d.vn[5], 42);
}

#[test]
fn rnd_masks_the_random_byte() {
    let mut d = build_chip8();
    d.vn[5] = 0xAA;
    // with mask 0x00 the result is 0 whatever byte the generator drew
    assert!(exec(0xC500, &mut d).is_ok());
    assert_eq!(d.vn[5], 0);
    assert_eq!(d.pc, 0x202);
    // with mask 0x0F only the low nibble can be set
    assert!(exec(0xC60F, &mut d).is_ok());
    assert!(d.vn[6] <= 0x0F);
}

#[test]
fn skp_and_sknp_follow_the_keyboard() {
    let mut d = build_chip8();
    d.vn[1] = 0xB;
    d.keyboard[0xB] = true;
    assert!(exec(0xE19E, &mut d).is_ok());
    assert_eq!(d.pc, 0x204);
    assert!(exec(0xE1A1, &mut d).is_ok());
    assert_eq!(d.pc, 0x206);
    d.keyboard[0xB] = false;
    assert!(exec(0xE19E, &mut d).is_ok());
    assert_eq!(d.pc, 0x208);
    assert!(exec(0xE1A1, &mut d).is_ok());
    assert_eq!(d.pc, 0x20C);
    // a register value outside 0..16 counts as not pressed
    d.vn[1] = 200;
    assert!(exec(0xE19E, &mut d).is_ok());
    assert_eq!(d.pc, 0x20E);
}

#[test]
fn ret_on_an_empty_stack_is_a_fatal_error() {
    let mut d = build_chip8();
    let e = exec(0x00EE, &mut d).unwrap_err();
    assert_eq!(e.kind, Chip8ErrorKind::StackUnderflow);
    assert_eq!(e.pc, 0x200);
    assert_eq!(e.ins, 0x00EE);
    // the state is untouched
    assert_eq!(d.pc, 0x200);
    assert_eq!(d.sp, 0);
}

#[test]
fn call_beyond_sixteen_levels_is_a_fatal_error() {
    let mut d = build_chip8();
    for _ in 0..STACK_SIZE {
        assert!(exec(0x2300, &mut d).is_ok());
    }
    assert_eq!(d.sp as usize, STACK_SIZE);
    let e = exec(0x2300, &mut d).unwrap_err();
    assert_eq!(e.kind, Chip8ErrorKind::StackOverflow);
    assert_eq!(e.ins, 0x2300);
    assert_eq!(d.sp as usize, STACK_SIZE);
}

#[test]
fn block_and_bcd_writes_past_memory_are_fatal_errors() {
    let mut d = build_chip8();
    d.i = 0xFFE;
    let e = exec(0xF233, &mut d).unwrap_err();
    assert_eq!(e.kind, Chip8ErrorKind::MemoryOutOfBounds);
    d.i = 0xFFD;
    assert!(exec(0xF233, &mut d).is_ok());

    d.i = 0xFFE;
    let e = exec(0xF355, &mut d).unwrap_err();
    assert_eq!(e.kind, Chip8ErrorKind::MemoryOutOfBounds);
    d.i = 0xFFE;
    let e = exec(0xF365, &mut d).unwrap_err();
    assert_eq!(e.kind, Chip8ErrorKind::MemoryOutOfBounds);
}

#[test]
fn draw_renders_the_font_sprite_and_reports_collisions() {
    let mut d = build_chip8();
    // draw the 5-row sprite for digit 0 (at address 0) at (0, 0)
    d.i = 0;
    assert!(exec(0xD015, &mut d).is_ok());
    assert_eq!(d.vn[0xF], 0);
    // row 0 is 0xF0: pixels 0..4 lit, 4..8 unlit
    for x in 0..4 {
        assert!(px_at(&d.display, x, 0));
    }
    for x in 4..8 {
        assert!(!px_at(&d.display, x, 0));
    }
    // row 1 is 0x90: pixels 0 and 3 lit
    assert!(px_at(&d.display, 0, 1));
    assert!(!px_at(&d.display, 1, 1));
    assert!(!px_at(&d.display, 2, 1));
    assert!(px_at(&d.display, 3, 1));
    // drawing the same sprite again erases everything: collision
    assert!(exec(0xD015, &mut d).is_ok());
    assert_eq!(d.vn[0xF], 1);
    for y in 0..DISPLAY_HEIGHT {
        for x in 0..DISPLAY_WIDTH {
            assert!(!px_at(&d.display, x, y));
        }
    }
}

#[test]
fn draw_wraps_sprites_at_the_display_edges() {
    let mut d = build_chip8();
    d.i = 0;
    d.vn[0] = 62;
    d.vn[1] = 31;
    // draw one row (0xF0) at (62, 31): two pixels at the bottom right,
    // two wrapped to the left edge of the same row
    assert!(exec(0xD011, &mut d).is_ok());
    assert!(px_at(&d.display, 62, 31));
    assert!(px_at(&d.display, 63, 31));
    assert!(px_at(&d.display, 0, 31));
    assert!(px_at(&d.display, 1, 31));
    assert!(!px_at(&d.display, 2, 31));
}

#[test]
fn draw_reading_past_memory_is_a_fatal_error() {
    let mut d = build_chip8();
    d.i = 0xFFE;
    let e = exec(0xD015, &mut d).unwrap_err();
    assert_eq!(e.kind, Chip8ErrorKind::MemoryOutOfBounds);
    // a zero-row draw reads nothing and succeeds
    d.i = 0xFFE;
    assert!(exec(0xD010, &mut d).is_ok());
}

#[test]
fn cls_clears_whatever_a_draw_left_behind() {
    let mut d = build_chip8();
    d.i = 0;
    assert!(exec(0xD015, &mut d).is_ok());
    assert!(px_at(&d.display, 0, 0));
    assert!(exec(0x00E0, &mut d).is_ok());
    for y in 0..DISPLAY_HEIGHT {
        for x in 0..DISPLAY_WIDTH {
            assert!(!px_at(&d.display, x, y));
        }
    }
}

#[test]
fn sys_and_unrecognized_words_only_advance_the_counter() {
    let mut d = build_chip8();
    assert!(exec(0x0123, &mut d).is_ok());
    assert_eq!(d.pc, 0x202);
    assert!(exec(0xF1FF, &mut d).is_ok());
    assert_eq!(d.pc, 0x204);
    assert_eq!(d.sp, 0);
    assert_eq!(d.i, 0);
}
