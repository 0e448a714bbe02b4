//! The machine state: memory, registers, timers, index register, stack,
//! program counter, keyboard latch and display, owned as one aggregate and
//! passed by mutable reference into every core operation.

use crate::chip8_display::{blank_display, build_chip8_display, Chip8Display, PIXEL_COUNT};
use crate::chip8_instructions::{exec, spec_exec, spec_exec_err_kind, spec_exec_ok};
use crate::chip8_memory::{MEMORY_SIZE, START_PRG};
use crate::util::{copy_slice_into, filled_vec};
use vstd::prelude::*;

verus! {

/// Number of general-purpose registers.
pub const REGISTER_COUNT: usize = 16;

/// Number of return-address slots in the stack.
pub const STACK_SIZE: usize = 16;

/// Number of keys on the input device.
pub const KEYBOARD_SIZE: usize = 16;

/// Target instruction rate, in instructions per second.
pub const CLOCK_SPEED: u16 = 540;

/// Instructions executed between two 60 Hz timer ticks.
pub const CYCLES_PER_TICK: u16 = CLOCK_SPEED / 60;

/// Sentinel for the key latch: any value at or above `KEYBOARD_SIZE` means
/// "no key pressed since the last poll".
pub const NO_KEY: usize = KEYBOARD_SIZE + 1;

/// The machine state.
///
/// Fields are public so that the host shell can read them (the renderer
/// polls the display, the audio layer polls `st`); all verified mutation
/// goes through the core operations of this crate.
pub struct Chip8 {
    /// 4096 bytes of memory, addresses 0x000-0xFFF.
    pub memory: Vec<u8>,
    /// General-purpose registers V0-VF; VF doubles as the flag register.
    pub vn: Vec<u8>,
    /// Delay timer, decremented at 60 Hz while nonzero.
    pub dt: u8,
    /// Sound timer, decremented at 60 Hz while nonzero.
    pub st: u8,
    /// Index register I, holds a memory address.
    pub i: u16,
    /// The 64x32 monochrome display.
    pub display: Chip8Display,
    /// Current down/up state of the 16 keys.
    pub keyboard: Vec<bool>,
    /// Most recently pressed key index, or `NO_KEY` and above for none.
    pub key: usize,
    /// Program counter.
    pub pc: u16,
    /// Stack pointer: index of the next free stack slot.
    pub sp: u8,
    /// Return-address stack.
    pub stack: Vec<u16>,
    /// Instructions executed since the last timer tick.
    pub cycle: u16,
}

/// The mathematical model of the machine state.
#[verifier::ext_equal]
pub ghost struct Chip8View {
    pub memory: Seq<u8>,
    pub vn: Seq<u8>,
    pub dt: u8,
    pub st: u8,
    pub i: u16,
    pub display: Seq<bool>,
    pub keyboard: Seq<bool>,
    pub key: usize,
    pub pc: u16,
    pub sp: u8,
    pub stack: Seq<u16>,
    pub cycle: u16,
}

impl View for Chip8 {
    type V = Chip8View;

    open spec fn view(&self) -> Chip8View {
        Chip8View {
            memory: self.memory@,
            vn: self.vn@,
            dt: self.dt,
            st: self.st,
            i: self.i,
            display: self.display@,
            keyboard: self.keyboard@,
            key: self.key,
            pc: self.pc,
            sp: self.sp,
            stack: self.stack@,
            cycle: self.cycle,
        }
    }
}

impl Chip8View {
    /// Well-formedness: every sequence has its architectural size and the
    /// stack pointer stays within the 16 slots.
    pub open spec fn wf(self) -> bool {
        &&& self.memory.len() == MEMORY_SIZE
        &&& self.vn.len() == REGISTER_COUNT
        &&& self.display.len() == PIXEL_COUNT
        &&& self.keyboard.len() == KEYBOARD_SIZE
        &&& self.stack.len() == STACK_SIZE
        &&& self.sp <= STACK_SIZE
    }
}

impl Chip8 {
    /// Well-formedness of the executable state.
    pub open spec fn wf(&self) -> bool {
        self@.wf()
    }
}

/// Runtime check of the well-formedness invariant, for callers outside the
/// verified core that have manipulated the public fields directly.
pub fn check_wf(device: &Chip8) -> (r: bool)
    ensures
        r == device@.wf(),
{
    device.memory.len() == MEMORY_SIZE && device.vn.len() == REGISTER_COUNT
        && device.display.pixels.len() == PIXEL_COUNT && device.keyboard.len() == KEYBOARD_SIZE
        && device.stack.len() == STACK_SIZE && (device.sp as usize) <= STACK_SIZE
}

/// A fatal core error: emulation must halt, reporting the offending
/// program counter and instruction word.
#[derive(Clone, Copy, Debug, PartialEq, Eq, Structural)]
pub struct Chip8Error {
    /// Program counter at the offending instruction.
    pub pc: u16,
    /// The offending instruction word (0 when the fetch itself failed).
    pub ins: u16,
    /// What went wrong.
    pub kind: Chip8ErrorKind,
}

/// The ways an instruction can fail fatally.
#[derive(Clone, Copy, Debug, PartialEq, Eq, Structural)]
pub enum Chip8ErrorKind {
    /// The program counter points outside memory, so no instruction word
    /// can be fetched.
    FetchOutOfBounds,
    /// `RET` with an empty stack.
    StackUnderflow,
    /// `CALL` beyond 16 nested levels.
    StackOverflow,
    /// A memory access derived from the index register would fall outside
    /// the 4096 allocated bytes.
    MemoryOutOfBounds,
}

/// The font sprite byte for hexadecimal digit `d` (0-15), row `r` (0-4).
pub open spec fn spec_font(d: int, r: int) -> u8 {
    if d == 0x0 {
        if r == 0 { 0xF0 } else if r == 1 { 0x90 } else if r == 2 { 0x90 } else if r == 3 { 0x90 } else { 0xF0 }
    } else if d == 0x1 {
        if r == 0 { 0x20 } else if r == 1 { 0x60 } else if r == 2 { 0x20 } else if r == 3 { 0x20 } else { 0x70 }
    } else if d == 0x2 {
        if r == 0 { 0xF0 } else if r == 1 { 0x10 } else if r == 2 { 0xF0 } else if r == 3 { 0x80 } else { 0xF0 }
    } else if d == 0x3 {
        if r == 0 { 0xF0 } else if r == 1 { 0x10 } else if r == 2 { 0xF0 } else if r == 3 { 0x10 } else { 0xF0 }
    } else if d == 0x4 {
        if r == 0 { 0x90 } else if r == 1 { 0x90 } else if r == 2 { 0xF0 } else if r == 3 { 0x10 } else { 0x10 }
    } else if d == 0x5 {
        if r == 0 { 0xF0 } else if r == 1 { 0x80 } else if r == 2 { 0xF0 } else if r == 3 { 0x10 } else { 0xF0 }
    } else if d == 0x6 {
        if r == 0 { 0xF0 } else if r == 1 { 0x80 } else if r == 2 { 0xF0 } else if r == 3 { 0x90 } else { 0xF0 }
    } else if d == 0x7 {
        if r == 0 { 0xF0 } else if r == 1 { 0x10 } else if r == 2 { 0x20 } else if r == 3 { 0x40 } else { 0x40 }
    } else if d == 0x8 {
        if r == 0 { 0xF0 } else if r == 1 { 0x90 } else if r == 2 { 0xF0 } else if r == 3 { 0x90 } else { 0xF0 }
    } else if d == 0x9 {
        if r == 0 { 0xF0 } else if r == 1 { 0x90 } else if r == 2 { 0xF0 } else if r == 3 { 0x10 } else { 0xF0 }
    } else if d == 0xA {
        if r == 0 { 0xF0 } else if r == 1 { 0x90 } else if r == 2 { 0xF0 } else if r == 3 { 0x90 } else { 0x90 }
    } else if d == 0xB {
        if r == 0 { 0xE0 } else if r == 1 { 0x90 } else if r == 2 { 0xE0 } else if r == 3 { 0x10 } else { 0xE0 }
    } else if d == 0xC {
        if r == 0 { 0xF0 } else if r == 1 { 0x80 } else if r == 2 { 0x80 } else if r == 3 { 0x80 } else { 0xF0 }
    } else if d == 0xD {
        if r == 0 { 0xE0 } else if r == 1 { 0x90 } else if r == 2 { 0x90 } else if r == 3 { 0x90 } else { 0xE0 }
    } else if d == 0xE {
        if r == 0 { 0xF0 } else if r == 1 { 0x80 } else if r == 2 { 0xF0 } else if r == 3 { 0x80 } else { 0xF0 }
    } else {
        if r == 0 { 0xF0 } else if r == 1 { 0x80 } else if r == 2 { 0xF0 } else if r == 3 { 0x80 } else { 0x80 }
    }
}

/// Executable counterpart of `spec_font`.
fn font_byte(d: usize, r: usize) -> (b: u8)
    requires
        d < 16,
        r < 5,
    ensures
        b == spec_font(d as int, r as int),
{
    if d == 0x0 {
        if r == 0 { 0xF0 } else if r == 1 { 0x90 } else if r == 2 { 0x90 } else if r == 3 { 0x90 } else { 0xF0 }
    } else if d == 0x1 {
        if r == 0 { 0x20 } else if r == 1 { 0x60 } else if r == 2 { 0x20 } else if r == 3 { 0x20 } else { 0x70 }
    } else if d == 0x2 {
        if r == 0 { 0xF0 } else if r == 1 { 0x10 } else if r == 2 { 0xF0 } else if r == 3 { 0x80 } else { 0xF0 }
    } else if d == 0x3 {
        if r == 0 { 0xF0 } else if r == 1 { 0x10 } else if r == 2 { 0xF0 } else if r == 3 { 0x10 } else { 0xF0 }
    } else if d == 0x4 {
        if r == 0 { 0x90 } else if r == 1 { 0x90 } else if r == 2 { 0xF0 } else if r == 3 { 0x10 } else { 0x10 }
    } else if d == 0x5 {
        if r == 0 { 0xF0 } else if r == 1 { 0x80 } else if r == 2 { 0xF0 } else if r == 3 { 0x10 } else { 0xF0 }
    } else if d == 0x6 {
        if r == 0 { 0xF0 } else if r == 1 { 0x80 } else if r == 2 { 0xF0 } else if r == 3 { 0x90 } else { 0xF0 }
    } else if d == 0x7 {
        if r == 0 { 0xF0 } else if r == 1 { 0x10 } else if r == 2 { 0x20 } else if r == 3 { 0x40 } else { 0x40 }
    } else if d == 0x8 {
        if r == 0 { 0xF0 } else if r == 1 { 0x90 } else if r == 2 { 0xF0 } else if r == 3 { 0x90 } else { 0xF0 }
    } else if d == 0x9 {
        if r == 0 { 0xF0 } else if r == 1 { 0x90 } else if r == 2 { 0xF0 } else if r == 3 { 0x10 } else { 0xF0 }
    } else if d == 0xA {
        if r == 0 { 0xF0 } else if r == 1 { 0x90 } else if r == 2 { 0xF0 } else if r == 3 { 0x90 } else { 0x90 }
    } else if d == 0xB {
        if r == 0 { 0xE0 } else if r == 1 { 0x90 } else if r == 2 { 0xE0 } else if r == 3 { 0x10 } else { 0xE0 }
    } else if d == 0xC {
        if r == 0 { 0xF0 } else if r == 1 { 0x80 } else if r == 2 { 0x80 } else if r == 3 { 0x80 } else { 0xF0 }
    } else if d == 0xD {
        if r == 0 { 0xE0 } else if r == 1 { 0x90 } else if r == 2 { 0x90 } else if r == 3 { 0x90 } else { 0xE0 }
    } else if d == 0xE {
        if r == 0 { 0xF0 } else if r == 1 { 0x80 } else if r == 2 { 0xF0 } else if r == 3 { 0x80 } else { 0xF0 }
    } else {
        if r == 0 { 0xF0 } else if r == 1 { 0x80 } else if r == 2 { 0xF0 } else if r == 3 { 0x80 } else { 0x80 }
    }
}

/// Write the 5-byte font sprite for digit `digit` at `address`.
fn load_sprite_at(memory: &mut Vec<u8>, address: usize, digit: usize)
    requires
        old(memory).len() == MEMORY_SIZE,
        address + 5 <= MEMORY_SIZE,
        digit < 16,
    ensures
        final(memory).len() == MEMORY_SIZE,
        forall|k: int| 0 <= k < 5 ==> final(memory)@[address + k] == spec_font(digit as int, k),
        forall|a: int|
            0 <= a < MEMORY_SIZE && !(address <= a < address + 5) ==> final(memory)@[a] == old(
                memory,
            )@[a],
{
    let mut r: usize = 0;
    while r < 5
        invariant
            r <= 5,
            memory.len() == MEMORY_SIZE,
            address + 5 <= MEMORY_SIZE,
            digit < 16,
            forall|k: int| 0 <= k < r ==> memory@[address + k] == spec_font(digit as int, k),
            forall|a: int|
                0 <= a < MEMORY_SIZE && !(address <= a < address + r) ==> memory@[a] == old(
                    memory,
                )@[a],
        decreases 5 - r,
    {
        memory[address + r] = font_byte(digit, r);
        r = r + 1;
    }
}

/// Write the whole 16-digit font into the low 80 bytes of memory.
fn load_default_sprites(memory: &mut Vec<u8>)
    requires
        old(memory).len() == MEMORY_SIZE,
    ensures
        final(memory).len() == MEMORY_SIZE,
        forall|a: int| 0 <= a < 80 ==> final(memory)@[a] == spec_font(a / 5, a % 5),
        forall|a: int| 80 <= a < MEMORY_SIZE ==> final(memory)@[a] == old(memory)@[a],
{
    let mut digit: usize = 0;
    while digit < 16
        invariant
            digit <= 16,
            memory.len() == MEMORY_SIZE,
            forall|a: int| 0 <= a < 5 * digit ==> memory@[a] == spec_font(a / 5, a % 5),
            forall|a: int| 5 * digit <= a < MEMORY_SIZE ==> memory@[a] == old(memory)@[a],
        decreases 16 - digit,
    {
        load_sprite_at(memory, 5 * digit, digit);
        assert forall|a: int| 0 <= a < 5 * (digit + 1) implies memory@[a] == spec_font(
            a / 5,
            a % 5,
        ) by {
            if 5 * digit <= a {
                assert(a / 5 == digit && a % 5 == a - 5 * digit) by (nonlinear_arith)
                    requires
                        5 * digit <= a < 5 * digit + 5,
                ;
            }
        }
        digit = digit + 1;
    }
}

/// The machine state as `build_chip8` establishes it: font in low memory,
/// everything else zeroed, program counter at the program start.
pub open spec fn spec_initial_state() -> Chip8View {
    Chip8View {
        memory: Seq::new(
            MEMORY_SIZE as nat,
            |a: int| if a < 80 { spec_font(a / 5, a % 5) } else { 0u8 },
        ),
        vn: Seq::new(REGISTER_COUNT as nat, |k: int| 0u8),
        dt: 0,
        st: 0,
        i: 0,
        display: blank_display(),
        keyboard: Seq::new(KEYBOARD_SIZE as nat, |k: int| false),
        key: NO_KEY,
        pc: START_PRG as u16,
        sp: 0,
        stack: Seq::new(STACK_SIZE as nat, |k: int| 0u16),
        cycle: 0,
    }
}

/// Create a machine in its power-on state: zeroed memory with the font
/// sprites loaded at address 0, cleared display and registers, program
/// counter at 0x200.
pub fn build_chip8() -> (device: Chip8)
    ensures
        device@.wf(),
        device@ == spec_initial_state(),
{
    let mut memory = filled_vec(MEMORY_SIZE, 0u8);
    load_default_sprites(&mut memory);
    let device = Chip8 {
        memory,
        vn: filled_vec(REGISTER_COUNT, 0u8),
        dt: 0,
        st: 0,
        i: 0,
        display: build_chip8_display(),
        keyboard: filled_vec(KEYBOARD_SIZE, false),
        key: NO_KEY,
        pc: START_PRG as u16,
        sp: 0,
        stack: filled_vec(STACK_SIZE, 0u16),
        cycle: 0,
    };
    assert(device@.memory =~= spec_initial_state().memory);
    assert(device@ =~= spec_initial_state());
    device
}

/// The machine state after a successful program load.
pub open spec fn spec_load_program(s: Chip8View, data: Seq<u8>) -> Chip8View {
    Chip8View {
        memory: Seq::new(
            MEMORY_SIZE as nat,
            |a: int|
                if START_PRG <= a < START_PRG + data.len() {
                    data[a - START_PRG]
                } else {
                    s.memory[a]
                },
        ),
        ..s
    }
}

/// Load a program image into memory starting at 0x200.
///
/// A program that would run past the last memory address is rejected
/// whole: the load reports failure and memory keeps its prior contents.
pub fn load_program(device: &mut Chip8, program: &Vec<u8>) -> (loaded: bool)
    requires
        old(device)@.wf(),
    ensures
        final(device)@.wf(),
        loaded == (program@.len() <= MEMORY_SIZE - START_PRG),
        loaded ==> final(device)@ == spec_load_program(old(device)@, program@),
        !loaded ==> final(device)@ == old(device)@,
{
    if program.len() <= MEMORY_SIZE - START_PRG {
        copy_slice_into(&mut device.memory, START_PRG, program, 0, program.len());
        assert(device@.memory =~= spec_load_program(old(device)@, program@).memory);
        assert(device@ =~= spec_load_program(old(device)@, program@));
        true
    } else {
        false
    }
}

/// Record a host key event: key `k` is now down or up, and a press also
/// latches `k` as the most recent key for the key-wait instruction.
pub fn set_key(device: &mut Chip8, k: usize, pressed: bool)
    requires
        old(device)@.wf(),
        k < KEYBOARD_SIZE,
    ensures
        final(device)@.wf(),
        final(device)@ == (Chip8View {
            keyboard: old(device)@.keyboard.update(k as int, pressed),
            key: if pressed {
                k
            } else {
                old(device)@.key
            },
            ..old(device)@
        }),
{
    device.keyboard[k] = pressed;
    if pressed {
        device.key = k;
    }
}

/// Is key `k` currently held down?
pub fn is_key_down(device: &Chip8, k: usize) -> (down: bool)
    requires
        device@.wf(),
        k < KEYBOARD_SIZE,
    ensures
        down == device@.keyboard[k as int],
{
    device.keyboard[k]
}

/// The most recently pressed key, if one has been latched since the last
/// poll.
pub fn latched_key(device: &Chip8) -> (latched: Option<u8>)
    ensures
        device@.key < KEYBOARD_SIZE ==> latched == Some(device@.key as u8),
        device@.key >= KEYBOARD_SIZE ==> latched is None,
{
    if device.key < KEYBOARD_SIZE {
        Some(device.key as u8)
    } else {
        None
    }
}

/// Should the host emit a tone? The audio layer polls this once per
/// frame: the tone plays exactly while the sound timer is nonzero.
pub fn sound_active(device: &Chip8) -> (on: bool)
    ensures
        on == (device@.st > 0),
{
    device.st > 0
}

/// Forget the latched key; the host loop calls this once per poll frame.
pub fn clear_key_latch(device: &mut Chip8)
    requires
        old(device)@.wf(),
    ensures
        final(device)@.wf(),
        final(device)@ == (Chip8View { key: NO_KEY, ..old(device)@ }),
{
    device.key = NO_KEY;
}

/// Timer bookkeeping after one executed instruction: count the cycle, and
/// once `CYCLES_PER_TICK` cycles have accumulated, reset the count and
/// decrement each nonzero timer.
pub open spec fn spec_tick(s: Chip8View) -> Chip8View {
    if s.cycle >= CYCLES_PER_TICK {
        Chip8View {
            cycle: 1,
            dt: if s.dt > 0 { (s.dt - 1) as u8 } else { 0 },
            st: if s.st > 0 { (s.st - 1) as u8 } else { 0 },
            ..s
        }
    } else {
        Chip8View { cycle: (s.cycle + 1) as u16, ..s }
    }
}

/// Can an instruction word be fetched: the program counter and its
/// successor must both address memory.
pub open spec fn spec_fetch_ok(s: Chip8View) -> bool {
    s.pc + 1 < MEMORY_SIZE
}

/// The 16-bit instruction word at the program counter, big-endian.
pub open spec fn spec_fetch(s: Chip8View) -> u16 {
    ((s.memory[s.pc as int] as u16) << 8u16) | (s.memory[s.pc as int + 1] as u16)
}

/// Run one emulated cycle: fetch the instruction word at the program
/// counter, execute it (which advances the program counter), then do the
/// timer bookkeeping that decouples the 540 Hz instruction rate from the
/// 60 Hz timer decay.
///
/// Succeeds exactly when the fetch stays in memory and the instruction
/// itself can complete; on a fatal error the state is untouched and the
/// error reports the offending program counter and instruction word.
pub fn step(device: &mut Chip8) -> (r: Result<(), Chip8Error>)
    requires
        old(device)@.wf(),
    ensures
        final(device)@.wf(),
        r is Ok <==> (spec_fetch_ok(old(device)@) && spec_exec_ok(
            old(device)@,
            spec_fetch(old(device)@),
        )),
        r is Ok ==> exists|rb: u8|
            final(device)@ == spec_tick(
                spec_exec(old(device)@, spec_fetch(old(device)@), rb),
            ),
        r is Err ==> final(device)@ == old(device)@,
        r matches Err(e) ==> e == (Chip8Error {
            pc: old(device).pc,
            ins: if spec_fetch_ok(old(device)@) {
                spec_fetch(old(device)@)
            } else {
                0
            },
            kind: if spec_fetch_ok(old(device)@) {
                spec_exec_err_kind(old(device)@, spec_fetch(old(device)@))
            } else {
                Chip8ErrorKind::FetchOutOfBounds
            },
        }),
{
    if device.pc as usize + 1 >= MEMORY_SIZE {
        return Err(Chip8Error { pc: device.pc, ins: 0, kind: Chip8ErrorKind::FetchOutOfBounds });
    }
    let at = device.pc as usize;
    let hi = device.memory[at];
    let lo = device.memory[at + 1];
    let ins: u16 = ((hi as u16) << 8u16) | (lo as u16);
    match exec(ins, device) {
        Ok(()) => {},
        Err(e) => {
            return Err(e);
        },
    }
    let ghost mid = device@;
    let ghost rb = choose|rb: u8| mid == spec_exec(old(device)@, ins, rb);
    if device.cycle >= CYCLES_PER_TICK {
        device.cycle = 0;
        if device.dt > 0 {
            device.dt = device.dt - 1;
        }
        if device.st > 0 {
            device.st = device.st - 1;
        }
    }
    device.cycle = device.cycle + 1;
    proof {
        assert(device@ =~= spec_tick(mid));
        assert(device@ == spec_tick(spec_exec(old(device)@, ins, rb)));
    }
    Ok(())
}

/// Timer decay never underflows: one cycle of bookkeeping lowers each
/// timer by at most one and a timer at zero stays at zero; it touches
/// nothing but the timers and the cycle count.
pub proof fn lemma_timers_never_underflow(s: Chip8View)
    ensures
        spec_tick(s).dt <= s.dt,
        spec_tick(s).st <= s.st,
        s.dt > 0 ==> spec_tick(s).dt + 1 >= s.dt,
        s.st > 0 ==> spec_tick(s).st + 1 >= s.st,
        s.dt == 0 ==> spec_tick(s).dt == 0,
        s.st == 0 ==> spec_tick(s).st == 0,
        spec_tick(s).memory == s.memory,
        spec_tick(s).vn == s.vn,
        spec_tick(s).i == s.i,
        spec_tick(s).display == s.display,
        spec_tick(s).keyboard == s.keyboard,
        spec_tick(s).key == s.key,
        spec_tick(s).pc == s.pc,
        spec_tick(s).sp == s.sp,
        spec_tick(s).stack == s.stack,
{
}

} // verus!
