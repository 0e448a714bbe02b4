use chip8_emu::chip8::{build_chip8, load_program, set_key, step, Chip8ErrorKind, CYCLES_PER_TICK};

#[test]
fn one_step_fetches_decodes_and_executes() {
    let mut d = build_chip8();
    assert!(load_program(&mut d, &vec![0xA2, 0x20]));
    assert!(step(&mut d).is_ok());
    assert_eq!(d.i, 0x0220);
    assert_eq!(d.pc, 0x202);
}

#[test]
fn call_then_ret_restores_the_post_call_point() {
    let mut d = build_chip8();
    // 0x200: CALL 0x300; 0x300: RET
    let mut rom = vec![0x23, 0x00];
    rom.resize(0x100, 0);
    rom.push(0x00);
    rom.push(0xEE);
    assert!(load_program(&mut d, &rom));
    assert!(step(&mut d).is_ok());
    assert_eq!(d.pc, 0x300);
    assert_eq!(d.sp, 1);
    assert_eq!(d.stack[0], 0x200);
    assert!(step(&mut d).is_ok());
    assert_eq!(d.pc, 0x202);
    assert_eq!(d.sp, 0);
}

#[test]
fn key_wait_busy_waits_until_a_key_is_latched() {
    let mut d = build_chip8();
    // LD V1, K
    assert!(load_program(&mut d, &vec![0xF1, 0x0A]));
    for _ in 0..5 {
        assert!(step(&mut d).is_ok());
        assert_eq!(d.pc, 0x200);
    }
    set_key(&mut d, 5, true);
    assert!(step(&mut d).is_ok());
    assert_eq!(d.pc, 0x202);
    assert_eq!(d.vn[1], 5);
}

#[test]
fn delay_timer_decays_at_the_clock_to_timer_ratio() {
    let mut d = build_chip8();
    // JP 0x200: spin in place
    assert!(load_program(&mut d, &vec![0x12, 0x00]));
    d.dt = 10;
    assert_eq!(CYCLES_PER_TICK, 9);
    // the first tick happens on the 10th step (cycle reaches 9), later
    // ticks every 9 steps
    for _ in 0..9 {
        assert!(step(&mut d).is_ok());
    }
    assert_eq!(d.dt, 10);
    assert!(step(&mut d).is_ok());
    assert_eq!(d.dt, 9);
    let mut steps: usize = 10;
    while steps < 600 {
        assert!(step(&mut d).is_ok());
        steps += 1;
    }
    // 10 ticks happen within the first 10 + 9 * 9 = 91 steps
    assert_eq!(d.dt, 0);
}

#[test]
fn sound_timer_decays_too_and_stops_at_zero() {
    let mut d = build_chip8();
    assert!(load_program(&mut d, &vec![0x12, 0x00]));
    d.st = 2;
    for _ in 0..600 {
        assert!(step(&mut d).is_ok());
    }
    assert_eq!(d.st, 0);
    assert_eq!(d.dt, 0);
}

#[test]
fn a_fetch_outside_memory_is_a_fatal_error() {
    let mut d = build_chip8();
    d.pc = 0xFFF;
    let e = step(&mut d).unwrap_err();
    assert_eq!(e.kind, Chip8ErrorKind::FetchOutOfBounds);
    assert_eq!(e.pc, 0xFFF);
    assert_eq!(e.ins, 0);
    assert_eq!(d.pc, 0xFFF);
}

#[test]
fn a_failing_instruction_surfaces_through_step() {
    let mut d = build_chip8();
    // RET with an empty stack
    assert!(load_program(&mut d, &vec![0x00, 0xEE]));
    let e = step(&mut d).unwrap_err();
    assert_eq!(e.kind, Chip8ErrorKind::StackUnderflow);
    assert_eq!(e.pc, 0x200);
    assert_eq!(e.ins, 0x00EE);
    // the failing step did not tick the cycle counter
    assert_eq!(d.cycle, 0);
}
