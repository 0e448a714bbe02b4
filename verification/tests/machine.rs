use chip8_emu::chip8::{
    build_chip8, check_wf, clear_key_latch, is_key_down, latched_key, load_program, set_key,
    sound_active, KEYBOARD_SIZE, NO_KEY,
};
use chip8_emu::chip8_memory::{MEMORY_SIZE, START_PRG};

#[test]
fn power_on_state() {
    let d = build_chip8();
    assert!(check_wf(&d));
    assert_eq!(d.pc, START_PRG as u16);
    assert_eq!(d.sp, 0);
    assert_eq!(d.i, 0);
    assert_eq!(d.dt, 0);
    assert_eq!(d.st, 0);
    assert_eq!(d.cycle, 0);
    assert_eq!(d.key, NO_KEY);
    for n in 0..16 {
        assert_eq!(d.vn[n], 0);
        assert!(!d.keyboard[n]);
    }
    // program area and beyond is zeroed
    for a in 80..MEMORY_SIZE {
        assert_eq!(d.memory[a], 0);
    }
}

#[test]
fn font_is_loaded_at_address_zero() {
    let d = build_chip8();
    // digit 0: 0xF0 0x90 0x90 0x90 0xF0
    assert_eq!(d.memory[0], 0xF0);
    assert_eq!(d.memory[1], 0x90);
    assert_eq!(d.memory[2], 0x90);
    assert_eq!(d.memory[3], 0x90);
    assert_eq!(d.memory[4], 0xF0);
    // digit 1 ends with 0x70
    assert_eq!(d.memory[5], 0x20);
    assert_eq!(d.memory[9], 0x70);
    // digit F: 0xF0 0x80 0xF0 0x80 0x80
    assert_eq!(d.memory[75], 0xF0);
    assert_eq!(d.memory[76], 0x80);
    assert_eq!(d.memory[77], 0xF0);
    assert_eq!(d.memory[78], 0x80);
    assert_eq!(d.memory[79], 0x80);
}

#[test]
fn load_program_copies_bytes_at_0x200() {
    let mut d = build_chip8();
    let rom = vec![0xA2, 0x20, 0x12, 0x00];
    assert!(load_program(&mut d, &rom));
    assert_eq!(d.memory[0x200], 0xA2);
    assert_eq!(d.memory[0x201], 0x20);
    assert_eq!(d.memory[0x202], 0x12);
    assert_eq!(d.memory[0x203], 0x00);
    assert_eq!(d.memory[0x204], 0x00);
}

#[test]
fn load_program_fills_memory_to_the_end() {
    let mut d = build_chip8();
    let rom = vec![0xAB; MEMORY_SIZE - START_PRG];
    assert!(load_program(&mut d, &rom));
    assert_eq!(d.memory[START_PRG], 0xAB);
    assert_eq!(d.memory[MEMORY_SIZE - 1], 0xAB);
}

#[test]
fn load_program_accepts_an_empty_image_and_changes_nothing() {
    let mut d = build_chip8();
    let rom: Vec<u8> = Vec::new();
    assert!(load_program(&mut d, &rom));
    for a in START_PRG..MEMORY_SIZE {
        assert_eq!(d.memory[a], 0);
    }
    assert_eq!(d.pc, START_PRG as u16);
}

#[test]
fn load_program_rejects_an_oversized_image_and_keeps_memory() {
    let mut d = build_chip8();
    let rom = vec![0xCD; MEMORY_SIZE - START_PRG + 1];
    assert!(!load_program(&mut d, &rom));
    for a in START_PRG..MEMORY_SIZE {
        assert_eq!(d.memory[a], 0);
    }
    assert_eq!(d.memory[0], 0xF0);
}

#[test]
fn sound_plays_exactly_while_the_sound_timer_is_nonzero() {
    let mut d = build_chip8();
    assert!(!sound_active(&d));
    d.st = 3;
    assert!(sound_active(&d));
    d.st = 0;
    assert!(!sound_active(&d));
}

#[test]
fn set_key_updates_state_and_latches_presses() {
    let mut d = build_chip8();
    assert_eq!(latched_key(&d), None);
    set_key(&mut d, 0xA, true);
    assert!(is_key_down(&d, 0xA));
    assert_eq!(latched_key(&d), Some(0xA));
    // releasing does not latch
    set_key(&mut d, 0xA, false);
    assert!(!is_key_down(&d, 0xA));
    assert_eq!(latched_key(&d), Some(0xA));
    clear_key_latch(&mut d);
    assert_eq!(latched_key(&d), None);
    assert_eq!(d.key, KEYBOARD_SIZE + 1);
}
