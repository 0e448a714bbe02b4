use chip8_emu::chip8_instructions::{get_instruction_type, CH8_INSTRUCTION};

#[test]
fn decode_full_word_matches_before_sys_fallback() {
    assert_eq!(get_instruction_type(0x00E0), CH8_INSTRUCTION::CLS);
    assert_eq!(get_instruction_type(0x00EE), CH8_INSTRUCTION::RET);
    assert_eq!(get_instruction_type(0x0123), CH8_INSTRUCTION::SYS);
    assert_eq!(get_instruction_type(0x0000), CH8_INSTRUCTION::SYS);
}

#[test]
fn decode_nibble_families() {
    assert_eq!(get_instruction_type(0x1ABC), CH8_INSTRUCTION::JP);
    assert_eq!(get_instruction_type(0x2300), CH8_INSTRUCTION::CALL);
    assert_eq!(get_instruction_type(0x3A55), CH8_INSTRUCTION::SE);
    assert_eq!(get_instruction_type(0x4A55), CH8_INSTRUCTION::SNE);
    assert_eq!(get_instruction_type(0x5120), CH8_INSTRUCTION::SEVxVy);
    assert_eq!(get_instruction_type(0x6105), CH8_INSTRUCTION::LDVxbyte);
    assert_eq!(get_instruction_type(0x7842), CH8_INSTRUCTION::ADDVxbyte);
    assert_eq!(get_instruction_type(0x9230), CH8_INSTRUCTION::SNEVxVy);
    assert_eq!(get_instruction_type(0xA220), CH8_INSTRUCTION::LDIaddr);
    assert_eq!(get_instruction_type(0xB123), CH8_INSTRUCTION::JPV0addr);
    assert_eq!(get_instruction_type(0xC5FF), CH8_INSTRUCTION::RND);
    assert_eq!(get_instruction_type(0xD125), CH8_INSTRUCTION::DRW);
}

#[test]
fn decode_arithmetic_subfamily() {
    assert_eq!(get_instruction_type(0x8120), CH8_INSTRUCTION::LDVxVy);
    assert_eq!(get_instruction_type(0x8121), CH8_INSTRUCTION::OR);
    assert_eq!(get_instruction_type(0x8122), CH8_INSTRUCTION::AND);
    assert_eq!(get_instruction_type(0x8123), CH8_INSTRUCTION::XOR);
    assert_eq!(get_instruction_type(0x8124), CH8_INSTRUCTION::ADDVxVy);
    assert_eq!(get_instruction_type(0x8125), CH8_INSTRUCTION::SUBVxVy);
    assert_eq!(get_instruction_type(0x8126), CH8_INSTRUCTION::SHR);
    assert_eq!(get_instruction_type(0x8127), CH8_INSTRUCTION::SUBN);
    assert_eq!(get_instruction_type(0x812E), CH8_INSTRUCTION::SHL);
}

#[test]
fn decode_key_and_timer_subfamilies() {
    assert_eq!(get_instruction_type(0xE19E), CH8_INSTRUCTION::SKPVx);
    assert_eq!(get_instruction_type(0xE1A1), CH8_INSTRUCTION::SKNPVx);
    assert_eq!(get_instruction_type(0xF107), CH8_INSTRUCTION::LDVxDT);
    assert_eq!(get_instruction_type(0xF10A), CH8_INSTRUCTION::LDVxK);
    assert_eq!(get_instruction_type(0xF115), CH8_INSTRUCTION::LDDTVx);
    assert_eq!(get_instruction_type(0xF118), CH8_INSTRUCTION::LDSTVx);
    assert_eq!(get_instruction_type(0xF11E), CH8_INSTRUCTION::ADDIVx);
    assert_eq!(get_instruction_type(0xF129), CH8_INSTRUCTION::LDFVx);
    assert_eq!(get_instruction_type(0xF133), CH8_INSTRUCTION::LDBVx);
    assert_eq!(get_instruction_type(0xF155), CH8_INSTRUCTION::LDIVx);
    assert_eq!(get_instruction_type(0xF165), CH8_INSTRUCTION::LDVxI);
}

#[test]
fn decode_unmatched_patterns_are_noop() {
    assert_eq!(get_instruction_type(0x8128), CH8_INSTRUCTION::NOOP);
    assert_eq!(get_instruction_type(0x812F), CH8_INSTRUCTION::NOOP);
    assert_eq!(get_instruction_type(0xE19F), CH8_INSTRUCTION::NOOP);
    assert_eq!(get_instruction_type(0xE000), CH8_INSTRUCTION::NOOP);
    assert_eq!(get_instruction_type(0xF000), CH8_INSTRUCTION::NOOP);
    assert_eq!(get_instruction_type(0xF1FF), CH8_INSTRUCTION::NOOP);
}

#[test]
fn decode_is_total_over_samples_of_the_whole_range() {
    // every 16-bit value decodes to some tag without panicking
    let mut w: u32 = 0;
    while w <= 0xFFFF {
        let _ = get_instruction_type(w as u16);
        w += 1;
    }
}
