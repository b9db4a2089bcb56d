//! The CPU core: register and memory state, the fetch-decode-execute
//! cycle, the timer pair, and the keypress-blocking interrupt latch.
//!
//! All state lives in [`Processor`]; the core itself mutates it only in
//! [`Processor::load`] and the cycle entry points. The mathematical meaning
//! of one cycle is the function [`spec_cycle`] on the abstract state
//! [`CpuView`]; the executable code is proved to compute exactly that
//! function.

use vstd::prelude::*;

use rand::Rng;

use crate::decode::{decode, spec_decode, Instr};

verus! {

/// A fatal condition that stops execution: the machine state is returned
/// to the caller intact, but no further progress is possible at this
/// instruction.
#[derive(Clone, Copy, Debug, PartialEq, Eq, Structural)]
pub enum CpuError {
    /// A push onto the full 16-entry call stack.
    StackOverflow,
    /// A fetch, read or write addressed outside the 4096-byte memory.
    MemoryOutOfBounds,
    /// A key-skip instruction selected a keypad line of 16 or above.
    KeyOutOfRange,
}

/// The abstract machine state: every field of [`Processor`], with
/// sequences in place of vectors.
#[verifier::ext_equal]
pub struct CpuView {
    /// The 4096 memory bytes.
    pub ram: Seq<u8>,
    /// Bytes copied by the most recent `load`.
    pub program_size: usize,
    /// The 2048 framebuffer pixels, row-major, 64 per row.
    pub vram: Seq<bool>,
    /// The program counter.
    pub pc: u16,
    /// The 16-bit index register.
    pub reg_index: u16,
    /// The most recently fetched instruction word.
    pub opcode: u16,
    /// The 16 general-purpose byte registers.
    pub reg: Seq<u8>,
    /// The 16 call-stack slots.
    pub stack: Seq<u16>,
    /// How many stack slots are in use.
    pub stack_ptr: u8,
    /// Whether the machine is blocked waiting for a keypress.
    pub keypad_irq: bool,
    /// The register that receives the awaited key.
    pub keypad_irq_dest: u8,
    /// The delay timer byte.
    pub delay_timer: u8,
    /// The sound timer byte.
    pub sound_timer: u8,
    /// The configured debug level.
    pub debug: usize,
    /// Whether the single-step pause (debug level 3) is armed.
    pub breakpoint: bool,
}

impl CpuView {
    /// Structural well-formedness: fixed lengths, the stack pointer within
    /// capacity, the interrupt destination a register index, and the
    /// program counter and every stored return address small enough that
    /// advancing by two never overflows 16 bits.
    pub open spec fn wf(self) -> bool {
        &&& self.ram.len() == 4096
        &&& self.vram.len() == 2048
        &&& self.reg.len() == 16
        &&& self.stack.len() == 16
        &&& self.stack_ptr <= 16
        &&& self.keypad_irq_dest < 16
        &&& self.pc <= 4350
        &&& forall|i: int| 0 <= i < 16 ==> self.stack[i] <= 4094
    }
}

/// The CPU: 4096 bytes of memory, 16 byte registers, an index register,
/// a program counter, a 16-entry call stack, a 64x32 framebuffer, two
/// countdown timers, and the keypress interrupt latch.
pub struct Processor {
    /// The 4096 memory bytes; addresses 0-79 hold the font table after `load`.
    pub ram: Vec<u8>,
    /// Bytes copied by the most recent `load`.
    pub program_size: usize,
    /// The framebuffer: 2048 pixels, row-major, 64 per row.
    pub vram: Vec<bool>,
    /// The program counter.
    pub pc: u16,
    /// The 16-bit index register.
    pub reg_index: u16,
    /// The most recently fetched instruction word.
    pub opcode: u16,
    /// The 16 general-purpose byte registers; register 15 doubles as the flag.
    pub reg: Vec<u8>,
    /// The 16 call-stack slots; only those below `stack_ptr` are live.
    pub stack: Vec<u16>,
    /// How many stack slots are in use, between 0 and 16.
    pub stack_ptr: u8,
    /// Whether the machine is blocked waiting for a keypress.
    pub keypad_irq: bool,
    /// The register that receives the awaited key.
    pub keypad_irq_dest: u8,
    /// The delay timer byte, decremented once per executing cycle.
    pub delay_timer: u8,
    /// The sound timer byte, decremented once per executing cycle.
    pub sound_timer: u8,
    /// The configured debug level, 0 through 3.
    pub debug: usize,
    /// Whether the single-step pause (debug level 3) is armed.
    pub breakpoint: bool,
}

impl View for Processor {
    type V = CpuView;

    open spec fn view(&self) -> CpuView {
        CpuView {
            ram: self.ram@,
            program_size: self.program_size,
            vram: self.vram@,
            pc: self.pc,
            reg_index: self.reg_index,
            opcode: self.opcode,
            reg: self.reg@,
            stack: self.stack@,
            stack_ptr: self.stack_ptr,
            keypad_irq: self.keypad_irq,
            keypad_irq_dest: self.keypad_irq_dest,
            delay_timer: self.delay_timer,
            sound_timer: self.sound_timer,
            debug: self.debug,
            breakpoint: self.breakpoint,
        }
    }
}

/// The state of a freshly constructed CPU: everything zeroed, the screen
/// clear, the single-step pause armed.
pub open spec fn initial_view() -> CpuView {
    CpuView {
        ram: Seq::new(4096, |i: int| 0u8),
        program_size: 0,
        vram: Seq::new(2048, |i: int| false),
        pc: 0,
        reg_index: 0,
        opcode: 0,
        reg: Seq::new(16, |i: int| 0u8),
        stack: Seq::new(16, |i: int| 0u16),
        stack_ptr: 0,
        keypad_irq: false,
        keypad_irq_dest: 0,
        delay_timer: 0,
        sound_timer: 0,
        debug: 0,
        breakpoint: true,
    }
}

/// The built-in font table: 16 sprites of 5 bytes each, one per
/// hexadecimal digit, installed at addresses 0-79 by `load`.
pub open spec fn font_seq() -> Seq<u8> {
    seq![
        0xF0, 0x90, 0x90, 0x90, 0xF0,
        0x20, 0x60, 0x20, 0x20, 0x70,
        0xF0, 0x10, 0xF0, 0x80, 0xF0,
        0xF0, 0x10, 0xF0, 0x10, 0xF0,
        0x90, 0x90, 0xF0, 0x10, 0x10,
        0xF0, 0x80, 0xF0, 0x10, 0xF0,
        0xF0, 0x80, 0xF0, 0x90, 0xF0,
        0xF0, 0x10, 0x20, 0x40, 0x40,
        0xF0, 0x90, 0xF0, 0x90, 0xF0,
        0xF0, 0x90, 0xF0, 0x10, 0xF0,
        0xF0, 0x90, 0xF0, 0x90, 0x90,
        0xE0, 0x90, 0xE0, 0x90, 0xE0,
        0xF0, 0x80, 0x80, 0x80, 0xF0,
        0xE0, 0x90, 0x90, 0x90, 0xE0,
        0xF0, 0x80, 0xF0, 0x80, 0xF0,
        0xF0, 0x80, 0xF0, 0x80, 0x80,
    ]
}

/// The font table as a vector, for writing into memory.
fn font_set() -> (v: Vec<u8>)
    ensures
        v@ == font_seq(),
{
    let v: Vec<u8> = vec![
        0xF0, 0x90, 0x90, 0x90, 0xF0,
        0x20, 0x60, 0x20, 0x20, 0x70,
        0xF0, 0x10, 0xF0, 0x80, 0xF0,
        0xF0, 0x10, 0xF0, 0x10, 0xF0,
        0x90, 0x90, 0xF0, 0x10, 0x10,
        0xF0, 0x80, 0xF0, 0x10, 0xF0,
        0xF0, 0x80, 0xF0, 0x90, 0xF0,
        0xF0, 0x10, 0x20, 0x40, 0x40,
        0xF0, 0x90, 0xF0, 0x90, 0xF0,
        0xF0, 0x90, 0xF0, 0x10, 0xF0,
        0xF0, 0x90, 0xF0, 0x90, 0x90,
        0xE0, 0x90, 0xE0, 0x90, 0xE0,
        0xF0, 0x80, 0x80, 0x80, 0xF0,
        0xE0, 0x90, 0x90, 0x90, 0xE0,
        0xF0, 0x80, 0xF0, 0x80, 0xF0,
        0xF0, 0x80, 0xF0, 0x80, 0x80,
    ];
    proof {
        assert(v@ =~= font_seq());
    }
    v
}

/// A vector of `n` zero bytes.
fn zero_bytes(n: usize) -> (v: Vec<u8>)
    ensures
        v@ == Seq::new(n as nat, |i: int| 0u8),
{
    let mut v: Vec<u8> = Vec::new();
    let mut i: usize = 0;
    while i < n
        invariant
            i <= n,
            v@.len() == i,
            forall|j: int| 0 <= j < i ==> v@[j] == 0u8,
        decreases n - i,
    {
        v.push(0u8);
        i += 1;
    }
    proof {
        assert(v@ =~= Seq::new(n as nat, |i: int| 0u8));
    }
    v
}

/// A vector of `n` zero words.
fn zero_words(n: usize) -> (v: Vec<u16>)
    ensures
        v@ == Seq::new(n as nat, |i: int| 0u16),
{
    let mut v: Vec<u16> = Vec::new();
    let mut i: usize = 0;
    while i < n
        invariant
            i <= n,
            v@.len() == i,
            forall|j: int| 0 <= j < i ==> v@[j] == 0u16,
        decreases n - i,
    {
        v.push(0u16);
        i += 1;
    }
    proof {
        assert(v@ =~= Seq::new(n as nat, |i: int| 0u16));
    }
    v
}

/// A vector of `n` unset pixels.
fn clear_pixels(n: usize) -> (v: Vec<bool>)
    ensures
        v@ == Seq::new(n as nat, |i: int| false),
{
    let mut v: Vec<bool> = Vec::new();
    let mut i: usize = 0;
    while i < n
        invariant
            i <= n,
            v@.len() == i,
            forall|j: int| 0 <= j < i ==> v@[j] == false,
        decreases n - i,
    {
        v.push(false);
        i += 1;
    }
    proof {
        assert(v@ =~= Seq::new(n as nat, |i: int| false));
    }
    v
}

/// Both timers decremented by one, saturating at zero: a timer that is
/// already zero stays zero and never wraps.
pub open spec fn tick_timers(s: CpuView) -> CpuView {
    CpuView {
        delay_timer: if s.delay_timer > 0 { (s.delay_timer - 1) as u8 } else { 0u8 },
        sound_timer: if s.sound_timer > 0 { (s.sound_timer - 1) as u8 } else { 0u8 },
        ..s
    }
}

/// The big-endian 16-bit word at address `a`.
pub open spec fn word_at(ram: Seq<u8>, a: int) -> u16 {
    (ram[a] * 256 + ram[a + 1]) as u16
}

/// The memory contents after a load: the font table at addresses 0-79,
/// `size` program bytes from `start`, and the old contents elsewhere.
/// The font is written after the program, so it wins where they overlap.
pub open spec fn load_ram(old_ram: Seq<u8>, program: Seq<u8>, size: int, start: int) -> Seq<u8> {
    Seq::new(4096, |a: int|
        if 0 <= a < 80 {
            font_seq()[a]
        } else if start <= a < start + size {
            program[a - start]
        } else {
            old_ram[a]
        })
}

/// The lowest pressed keypad line at or above `i`, or 16 when none is
/// pressed there. Scanning ascends so that, with several keys down, the
/// lowest-indexed one wins deterministically.
pub open spec fn first_pressed_from(keypad: Seq<bool>, i: int) -> int
    decreases 16 - i,
{
    if i < 0 || i >= 16 {
        16
    } else if keypad[i] {
        i
    } else {
        first_pressed_from(keypad, i + 1)
    }
}

/// Whether the sprite byte `b` covers column offset `c` (0 is the
/// leftmost, highest bit).
pub open spec fn sprite_bit(b: u8, c: int) -> bool {
    (b & (0x80u8 >> (c as u8))) != 0
}

/// Whether pixel row `r`, column `c` lies under an `n`-row sprite whose
/// top-left corner is at `(x0, y0)`: inside the sprite's 8-column,
/// `n`-row box, and not clipped away at the bottom or right screen edge.
pub open spec fn in_draw_region(x0: int, y0: int, n: int, r: int, c: int) -> bool {
    y0 <= r < y0 + n && r < 32 && x0 <= c < x0 + 8 && c < 64
}

/// The framebuffer after XOR-drawing the sprite at memory address `i`
/// onto corner `(x0, y0)`: covered pixels flip where the sprite bit is
/// set, all others are untouched. Rows and columns past the screen edge
/// are clipped, never wrapped.
pub open spec fn spec_draw(vram: Seq<bool>, ram: Seq<u8>, i: int, x0: int, y0: int, n: int) -> Seq<bool> {
    Seq::new(2048, |p: int| {
        let r = p / 64;
        let c = p % 64;
        if in_draw_region(x0, y0, n, r, c) {
            vram[p] != sprite_bit(ram[i + (r - y0)], c - x0)
        } else {
            vram[p]
        }
    })
}

/// Whether the draw collides: some visible sprite bit lands on a pixel
/// that is already set (and so flips it off).
pub open spec fn spec_collision(vram: Seq<bool>, ram: Seq<u8>, i: int, x0: int, y0: int, n: int) -> bool {
    exists|r: int, c: int| #[trigger] in_draw_region(x0, y0, n, r, c)
        && vram[r * 64 + c] && sprite_bit(ram[i + (r - y0)], c - x0)
}

/// The framebuffer in the middle of a draw: rows before `r_done` are
/// fully drawn, row `r_done` is drawn for columns before `c_done`, and
/// everything else still holds its old pixel.
pub open spec fn draw_partial(
    vram: Seq<bool>, ram: Seq<u8>, i: int, x0: int, y0: int, n: int, r_done: int, c_done: int,
) -> Seq<bool> {
    Seq::new(2048, |p: int| {
        let r = p / 64;
        let c = p % 64;
        if in_draw_region(x0, y0, n, r, c) && (r < r_done || (r == r_done && c < c_done)) {
            vram[p] != sprite_bit(ram[i + (r - y0)], c - x0)
        } else {
            vram[p]
        }
    })
}

/// Collision restricted to the part of the sprite drawn so far, in the
/// same sense as [`draw_partial`].
pub open spec fn collision_partial(
    vram: Seq<bool>, ram: Seq<u8>, i: int, x0: int, y0: int, n: int, r_done: int, c_done: int,
) -> bool {
    exists|r: int, c: int| #[trigger] in_draw_region(x0, y0, n, r, c)
        && (r < r_done || (r == r_done && c < c_done))
        && vram[r * 64 + c] && sprite_bit(ram[i + (r - y0)], c - x0)
}

/// The state with the program counter advanced past one instruction.
pub open spec fn adv2(s: CpuView) -> CpuView {
    CpuView { pc: (s.pc + 2) as u16, ..s }
}

/// A successfully executed instruction: the single-step pause is re-armed
/// and no error is reported.
pub open spec fn done(s: CpuView) -> (CpuView, Option<CpuError>) {
    (CpuView { breakpoint: true, ..s }, None)
}

/// The meaning of one decoded instruction, executed on the post-fetch
/// state `s`: timers already ticked, the opcode latched, the program
/// counter still at the instruction. `keypad` is the 16 key lines for
/// this tick and `random` the byte drawn for the random instruction.
///
/// A fatal error leaves the state exactly as fetched and reports which
/// error; every successful instruction re-arms the single-step pause and,
/// unless it redirected the program counter itself, advances it by two.
pub open spec fn spec_exec(s: CpuView, instr: Instr, keypad: Seq<bool>, random: u8) -> (CpuView, Option<CpuError>) {
    match instr {
        Instr::ClearScreen => done(adv2(CpuView { vram: Seq::new(2048, |p: int| false), ..s })),
        Instr::Return => {
            if s.stack_ptr > 0 {
                // The popped slot is zeroed so that debug dumps show only
                // live return addresses; the pop itself redirects the
                // program counter, so there is no advance.
                done(CpuView {
                    pc: s.stack[s.stack_ptr - 1],
                    stack: s.stack.update(s.stack_ptr - 1, 0u16),
                    stack_ptr: (s.stack_ptr - 1) as u8,
                    ..s
                })
            } else {
                // Returning with an empty stack is a non-fatal fault:
                // the instruction is skipped and execution continues.
                done(adv2(s))
            }
        },
        Instr::Sys(_) => done(adv2(s)),
        Instr::Jump(nnn) => done(CpuView { pc: nnn, ..s }),
        Instr::Call(nnn) => {
            if s.stack_ptr >= 16 {
                (s, Some(CpuError::StackOverflow))
            } else {
                done(CpuView {
                    stack: s.stack.update(s.stack_ptr as int, s.pc),
                    stack_ptr: (s.stack_ptr + 1) as u8,
                    pc: nnn,
                    ..s
                })
            }
        },
        Instr::SkipEqImm(x, nn) => {
            if s.reg[x as int] == nn { done(adv2(adv2(s))) } else { done(adv2(s)) }
        },
        Instr::SkipNeImm(x, nn) => {
            if s.reg[x as int] != nn { done(adv2(adv2(s))) } else { done(adv2(s)) }
        },
        Instr::SkipEqReg(x, y) => {
            if s.reg[x as int] == s.reg[y as int] { done(adv2(adv2(s))) } else { done(adv2(s)) }
        },
        Instr::SetImm(x, nn) => done(adv2(CpuView { reg: s.reg.update(x as int, nn), ..s })),
        Instr::AddImm(x, nn) => {
            let sum = ((s.reg[x as int] + nn) % 256) as u8;
            done(adv2(CpuView { reg: s.reg.update(x as int, sum), ..s }))
        },
        Instr::SetReg(x, y) => done(adv2(CpuView { reg: s.reg.update(x as int, s.reg[y as int]), ..s })),
        Instr::Or(x, y) => {
            let v = s.reg[x as int] | s.reg[y as int];
            done(adv2(CpuView { reg: s.reg.update(x as int, v), ..s }))
        },
        Instr::And(x, y) => {
            let v = s.reg[x as int] & s.reg[y as int];
            done(adv2(CpuView { reg: s.reg.update(x as int, v), ..s }))
        },
        Instr::Xor(x, y) => {
            let v = s.reg[x as int] ^ s.reg[y as int];
            done(adv2(CpuView { reg: s.reg.update(x as int, v), ..s }))
        },
        Instr::AddReg(x, y) => {
            let a = s.reg[x as int];
            let b = s.reg[y as int];
            let carry: u8 = if a + b > 255 { 1u8 } else { 0u8 };
            let sum = ((a + b) % 256) as u8;
            done(adv2(CpuView { reg: s.reg.update(15, carry).update(x as int, sum), ..s }))
        },
        Instr::Sub(x, y) => {
            let a = s.reg[x as int];
            let b = s.reg[y as int];
            let no_borrow: u8 = if a >= b { 1u8 } else { 0u8 };
            let diff = ((a - b + 256) % 256) as u8;
            done(adv2(CpuView { reg: s.reg.update(15, no_borrow).update(x as int, diff), ..s }))
        },
        Instr::ShiftRight(x) => {
            // The flag takes the old low bit first; the shift then reads
            // the register again, so a shift of the flag register itself
            // shifts the freshly written bit.
            let r1 = s.reg.update(15, s.reg[x as int] & 1u8);
            done(adv2(CpuView { reg: r1.update(x as int, r1[x as int] >> 1u8), ..s }))
        },
        Instr::SubReverse(x, y) => {
            let a = s.reg[x as int];
            let b = s.reg[y as int];
            let no_borrow: u8 = if b >= a { 1u8 } else { 0u8 };
            let diff = ((b - a + 256) % 256) as u8;
            done(adv2(CpuView { reg: s.reg.update(15, no_borrow).update(x as int, diff), ..s }))
        },
        Instr::ShiftLeft(x) => {
            let r1 = s.reg.update(15, s.reg[x as int] >> 7u8);
            done(adv2(CpuView { reg: r1.update(x as int, r1[x as int] << 1u8), ..s }))
        },
        Instr::SkipNeReg(x, y) => {
            if s.reg[x as int] != s.reg[y as int] { done(adv2(adv2(s))) } else { done(adv2(s)) }
        },
        Instr::SetIndex(nnn) => done(adv2(CpuView { reg_index: nnn, ..s })),
        Instr::JumpPlus(nnn) => done(CpuView { pc: (s.reg[0] + nnn) as u16, ..s }),
        Instr::Random(x, nn) => done(adv2(CpuView { reg: s.reg.update(x as int, random & nn), ..s })),
        Instr::Draw(x, y, n) => {
            let x0 = s.reg[x as int] as int % 64;
            let y0 = s.reg[y as int] as int % 32;
            let rows = if n <= 32 - y0 { n as int } else { 32 - y0 };
            if rows > 0 && s.reg_index + rows > 4096 {
                (s, Some(CpuError::MemoryOutOfBounds))
            } else {
                let coll: u8 = if spec_collision(s.vram, s.ram, s.reg_index as int, x0, y0, n as int) {
                    1u8
                } else {
                    0u8
                };
                done(adv2(CpuView {
                    vram: spec_draw(s.vram, s.ram, s.reg_index as int, x0, y0, n as int),
                    reg: s.reg.update(15, coll),
                    ..s
                }))
            }
        },
        Instr::SkipKeyPressed(x) => {
            let key = s.reg[x as int];
            if key >= 16 {
                (s, Some(CpuError::KeyOutOfRange))
            } else if keypad[key as int] {
                done(adv2(adv2(s)))
            } else {
                done(adv2(s))
            }
        },
        Instr::SkipKeyNotPressed(x) => {
            let key = s.reg[x as int];
            if key >= 16 {
                (s, Some(CpuError::KeyOutOfRange))
            } else if !keypad[key as int] {
                done(adv2(adv2(s)))
            } else {
                done(adv2(s))
            }
        },
        Instr::ReadDelay(x) => done(adv2(CpuView { reg: s.reg.update(x as int, s.delay_timer), ..s })),
        Instr::WaitKey(x) => done(adv2(CpuView { keypad_irq: true, keypad_irq_dest: x, ..s })),
        Instr::SetDelay(x) => done(adv2(CpuView { delay_timer: s.reg[x as int], ..s })),
        Instr::SetSound(x) => done(adv2(CpuView { sound_timer: s.reg[x as int], ..s })),
        Instr::AddIndex(x) => {
            let sum = ((s.reg_index + s.reg[x as int]) % 0x10000) as u16;
            done(adv2(CpuView { reg_index: sum, ..s }))
        },
        Instr::SetFontIndex(x) => done(adv2(CpuView { reg_index: (s.reg[x as int] * 5) as u16, ..s })),
        Instr::StoreBcd(x) => {
            if s.reg_index + 2 > 4095 {
                (s, Some(CpuError::MemoryOutOfBounds))
            } else {
                let v = s.reg[x as int];
                let i = s.reg_index as int;
                done(adv2(CpuView {
                    ram: s.ram
                        .update(i, (v / 100) as u8)
                        .update(i + 1, ((v % 100) / 10) as u8)
                        .update(i + 2, (v % 10) as u8),
                    ..s
                }))
            }
        },
        Instr::StoreRegs(x) => {
            if s.reg_index + x > 4095 {
                (s, Some(CpuError::MemoryOutOfBounds))
            } else {
                let i = s.reg_index as int;
                done(adv2(CpuView {
                    ram: Seq::new(4096, |a: int|
                        if i <= a <= i + x { s.reg[a - i] } else { s.ram[a] }),
                    ..s
                }))
            }
        },
        Instr::LoadRegs(x) => {
            if s.reg_index + x > 4095 {
                (s, Some(CpuError::MemoryOutOfBounds))
            } else {
                let i = s.reg_index as int;
                done(adv2(CpuView {
                    reg: Seq::new(16, |r: int|
                        if 0 <= r <= x { s.ram[i + r] } else { s.reg[r] }),
                    ..s
                }))
            }
        },
        Instr::Unknown(_) => done(adv2(s)),
    }
}

/// The meaning of one call to `cycle`: the whole transition rule.
///
/// A machine blocked on a keypress captures the lowest pressed key into
/// its destination register (or stays blocked) and otherwise changes
/// nothing. A machine paused for single-stepping un-pauses on any key and
/// otherwise changes nothing. Only an unblocked machine ticks its timers,
/// fetches the word at the program counter (failing fatally past the end
/// of memory), latches it as the current opcode, and executes it.
pub open spec fn spec_cycle(pre: CpuView, keypad: Seq<bool>, random: u8) -> (CpuView, Option<CpuError>) {
    if pre.keypad_irq {
        let k = first_pressed_from(keypad, 0);
        if k < 16 {
            (CpuView {
                reg: pre.reg.update(pre.keypad_irq_dest as int, k as u8),
                keypad_irq: false,
                ..pre
            }, None)
        } else {
            (pre, None)
        }
    } else if pre.debug == 3 && pre.breakpoint {
        if first_pressed_from(keypad, 0) < 16 {
            (CpuView { breakpoint: false, ..pre }, None)
        } else {
            (pre, None)
        }
    } else {
        let t = tick_timers(pre);
        if t.pc > 4094 {
            (t, Some(CpuError::MemoryOutOfBounds))
        } else {
            let word = word_at(t.ram, t.pc as int);
            let f = CpuView { opcode: word, ..t };
            spec_exec(f, spec_decode(word), keypad, random)
        }
    }
}

/// Whether one `cycle` call from state `pre` under `keypad`, drawing the
/// random byte `rb`, ends in state `post` with outcome `r`: on success
/// `r` carries the new framebuffer, on a fatal error the error that
/// `spec_cycle` reports.
pub open spec fn cycle_rel(
    pre: CpuView, keypad: Seq<bool>, rb: u8, post: CpuView, r: Result<Seq<bool>, CpuError>,
) -> bool {
    let (p2, err) = spec_cycle(pre, keypad, rb);
    post == p2 && match r {
        Ok(fb) => err is None && fb == p2.vram,
        Err(e) => err == Some(e),
    }
}

/// The outcome of a cycle as a mathematical value: the framebuffer
/// snapshot as a sequence on success, or the fatal error.
pub open spec fn snapshot_of(r: Result<Vec<bool>, CpuError>) -> Result<Seq<bool>, CpuError> {
    match r {
        Ok(fb) => Ok(fb@),
        Err(e) => Err(e),
    }
}

/// Scan the keypad lines in ascending order: the lowest pressed line,
/// or 16 when none is pressed.
fn first_pressed(keypad: &[bool; 16]) -> (r: usize)
    ensures
        r == first_pressed_from(keypad@, 0),
        r <= 16,
{
    let mut k: usize = 0;
    while k < 16 && !keypad[k]
        invariant
            0 <= k <= 16,
            first_pressed_from(keypad@, 0) == first_pressed_from(keypad@, k as int),
        decreases 16 - k,
    {
        k += 1;
    }
    proof {
        if k < 16 {
            assert(first_pressed_from(keypad@, k as int) == k);
        }
    }
    k
}

/// Relies on rand::thread_rng and rand::Rng::gen: one byte drawn from
/// the thread-local uniform generator. Nothing is promised of the value;
/// what the machine does with it holds for every byte.
#[verifier::external_body]
fn random_byte() -> u8 {
    rand::thread_rng().gen::<u8>()
}

/// A copy of the framebuffer vector, handed to the caller as the
/// snapshot for this cycle.
fn clone_vram(v: &Vec<bool>) -> (r: Vec<bool>)
    ensures
        r@ == v@,
{
    let mut r: Vec<bool> = Vec::new();
    let mut i: usize = 0;
    while i < v.len()
        invariant
            i <= v@.len(),
            r@.len() == i,
            forall|j: int| 0 <= j < i ==> r@[j] == v@[j],
        decreases v@.len() - i,
    {
        r.push(v[i]);
        i += 1;
    }
    proof {
        assert(r@ =~= v@);
    }
    r
}

/// Two column-prefix bounds that cut the draw region the same way cut
/// out the same collisions.
proof fn lemma_collision_shift(
    vram: Seq<bool>, ram: Seq<u8>, i: int, x0: int, y0: int, n: int,
    rd1: int, cd1: int, rd2: int, cd2: int,
)
    requires
        forall|r: int, c: int| #[trigger] in_draw_region(x0, y0, n, r, c)
            ==> ((r < rd1 || (r == rd1 && c < cd1)) <==> (r < rd2 || (r == rd2 && c < cd2))),
    ensures
        collision_partial(vram, ram, i, x0, y0, n, rd1, cd1)
            == collision_partial(vram, ram, i, x0, y0, n, rd2, cd2),
{
    if collision_partial(vram, ram, i, x0, y0, n, rd1, cd1) {
        let (r, c) = choose|r: int, c: int| #[trigger] in_draw_region(x0, y0, n, r, c)
            && (r < rd1 || (r == rd1 && c < cd1))
            && vram[r * 64 + c] && sprite_bit(ram[i + (r - y0)], c - x0);
        assert(in_draw_region(x0, y0, n, r, c)
            && (r < rd2 || (r == rd2 && c < cd2))
            && vram[r * 64 + c] && sprite_bit(ram[i + (r - y0)], c - x0));
    }
    if collision_partial(vram, ram, i, x0, y0, n, rd2, cd2) {
        let (r, c) = choose|r: int, c: int| #[trigger] in_draw_region(x0, y0, n, r, c)
            && (r < rd2 || (r == rd2 && c < cd2))
            && vram[r * 64 + c] && sprite_bit(ram[i + (r - y0)], c - x0);
        assert(in_draw_region(x0, y0, n, r, c)
            && (r < rd1 || (r == rd1 && c < cd1))
            && vram[r * 64 + c] && sprite_bit(ram[i + (r - y0)], c - x0));
    }
}

/// A prefix that already covers the whole draw region sees exactly the
/// collisions of the full draw.
proof fn lemma_collision_full(
    vram: Seq<bool>, ram: Seq<u8>, i: int, x0: int, y0: int, n: int, rd: int, cd: int,
)
    requires
        forall|r: int, c: int| #[trigger] in_draw_region(x0, y0, n, r, c)
            ==> (r < rd || (r == rd && c < cd)),
    ensures
        collision_partial(vram, ram, i, x0, y0, n, rd, cd)
            == spec_collision(vram, ram, i, x0, y0, n),
{
    if collision_partial(vram, ram, i, x0, y0, n, rd, cd) {
        let (r, c) = choose|r: int, c: int| #[trigger] in_draw_region(x0, y0, n, r, c)
            && (r < rd || (r == rd && c < cd))
            && vram[r * 64 + c] && sprite_bit(ram[i + (r - y0)], c - x0);
        assert(in_draw_region(x0, y0, n, r, c)
            && vram[r * 64 + c] && sprite_bit(ram[i + (r - y0)], c - x0));
    }
    if spec_collision(vram, ram, i, x0, y0, n) {
        let (r, c) = choose|r: int, c: int| #[trigger] in_draw_region(x0, y0, n, r, c)
            && vram[r * 64 + c] && sprite_bit(ram[i + (r - y0)], c - x0);
        assert(in_draw_region(x0, y0, n, r, c)
            && (r < rd || (r == rd && c < cd))
            && vram[r * 64 + c] && sprite_bit(ram[i + (r - y0)], c - x0));
    }
}

/// Drawing one more pixel of row `rd` either finds the first collision
/// there or leaves the flag's justification unchanged.
proof fn lemma_collision_col_step(
    vram: Seq<bool>, ram: Seq<u8>, i: int, x0: int, y0: int, n: int, rd: int, cd: int,
)
    requires
        in_draw_region(x0, y0, n, rd, cd),
    ensures
        collision_partial(vram, ram, i, x0, y0, n, rd, cd + 1)
            == (collision_partial(vram, ram, i, x0, y0, n, rd, cd)
                || (vram[rd * 64 + cd] && sprite_bit(ram[i + (rd - y0)], cd - x0))),
{
    if collision_partial(vram, ram, i, x0, y0, n, rd, cd + 1) {
        let (r, c) = choose|r: int, c: int| #[trigger] in_draw_region(x0, y0, n, r, c)
            && (r < rd || (r == rd && c < cd + 1))
            && vram[r * 64 + c] && sprite_bit(ram[i + (r - y0)], c - x0);
        if r < rd || (r == rd && c < cd) {
            assert(collision_partial(vram, ram, i, x0, y0, n, rd, cd));
        } else {
            assert(r == rd && c == cd);
        }
    }
    if collision_partial(vram, ram, i, x0, y0, n, rd, cd) {
        let (r, c) = choose|r: int, c: int| #[trigger] in_draw_region(x0, y0, n, r, c)
            && (r < rd || (r == rd && c < cd))
            && vram[r * 64 + c] && sprite_bit(ram[i + (r - y0)], c - x0);
        assert(in_draw_region(x0, y0, n, r, c)
            && (r < rd || (r == rd && c < cd + 1))
            && vram[r * 64 + c] && sprite_bit(ram[i + (r - y0)], c - x0));
    }
    if vram[rd * 64 + cd] && sprite_bit(ram[i + (rd - y0)], cd - x0) {
        assert(in_draw_region(x0, y0, n, rd, cd)
            && (rd < rd || (rd == rd && cd < cd + 1))
            && vram[rd * 64 + cd] && sprite_bit(ram[i + (rd - y0)], cd - x0));
    }
}

impl Processor {
    /// Well-formedness of the concrete state; established by `new` and
    /// preserved by every operation.
    pub open spec fn wf(&self) -> bool {
        self@.wf()
    }

    /// Store registers 0 through `x` inclusive into memory starting at
    /// the index register. Fails fatally, changing nothing, if the last
    /// written address would lie outside memory.
    #[verifier::loop_isolation(false)]
    fn store_regs(&mut self, x: u8) -> (r: Result<(), CpuError>)
        requires
            old(self).wf(),
            x < 16,
        ensures
            final(self).wf(),
            ({
                let s = old(self)@;
                if s.reg_index + x > 4095 {
                    r == Err::<(), CpuError>(CpuError::MemoryOutOfBounds) && final(self)@ == s
                } else {
                    r is Ok && final(self)@ == (CpuView {
                        ram: Seq::new(4096, |a: int|
                            if s.reg_index <= a <= s.reg_index + x {
                                s.reg[a - s.reg_index]
                            } else {
                                s.ram[a]
                            }),
                        ..s
                    })
                }
            }),
    {
        let ghost s = old(self)@;
        if self.reg_index as usize + x as usize > 4095 {
            return Err(CpuError::MemoryOutOfBounds);
        }
        let i0 = self.reg_index as usize;
        let range = x as usize + 1;
        let mut j: usize = 0;
        while j < range
            invariant
                j <= range,
                self@ == (CpuView { ram: self.ram@, ..s }),
                self.ram@.len() == 4096,
                forall|a: int| i0 <= a < i0 + j ==> self.ram@[a] == s.reg[a - i0],
                forall|a: int| 0 <= a < 4096 && !(i0 <= a < i0 + j) ==> self.ram@[a] == s.ram[a],
            decreases range - j,
        {
            self.ram[i0 + j] = self.reg[j];
            j += 1;
        }
        proof {
            assert(self.ram@ =~= Seq::new(4096, |a: int|
                if s.reg_index <= a <= s.reg_index + x {
                    s.reg[a - s.reg_index]
                } else {
                    s.ram[a]
                }));
            assert(self@ =~= (CpuView {
                ram: Seq::new(4096, |a: int|
                    if s.reg_index <= a <= s.reg_index + x {
                        s.reg[a - s.reg_index]
                    } else {
                        s.ram[a]
                    }),
                ..s
            }));
        }
        Ok(())
    }

    /// Load registers 0 through `x` inclusive from memory starting at
    /// the index register. Fails fatally, changing nothing, if the last
    /// read address would lie outside memory.
    #[verifier::loop_isolation(false)]
    fn load_regs(&mut self, x: u8) -> (r: Result<(), CpuError>)
        requires
            old(self).wf(),
            x < 16,
        ensures
            final(self).wf(),
            ({
                let s = old(self)@;
                if s.reg_index + x > 4095 {
                    r == Err::<(), CpuError>(CpuError::MemoryOutOfBounds) && final(self)@ == s
                } else {
                    r is Ok && final(self)@ == (CpuView {
                        reg: Seq::new(16, |q: int|
                            if 0 <= q <= x {
                                s.ram[s.reg_index + q]
                            } else {
                                s.reg[q]
                            }),
                        ..s
                    })
                }
            }),
    {
        let ghost s = old(self)@;
        if self.reg_index as usize + x as usize > 4095 {
            return Err(CpuError::MemoryOutOfBounds);
        }
        let i0 = self.reg_index as usize;
        let range = x as usize + 1;
        let mut j: usize = 0;
        while j < range
            invariant
                j <= range,
                self@ == (CpuView { reg: self.reg@, ..s }),
                self.reg@.len() == 16,
                forall|q: int| 0 <= q < j ==> self.reg@[q] == s.ram[i0 + q],
                forall|q: int| j <= q < 16 ==> self.reg@[q] == s.reg[q],
            decreases range - j,
        {
            self.reg[j] = self.ram[i0 + j];
            j += 1;
        }
        proof {
            assert(self.reg@ =~= Seq::new(16, |q: int|
                if 0 <= q <= x {
                    s.ram[s.reg_index + q]
                } else {
                    s.reg[q]
                }));
            assert(self@ =~= (CpuView {
                reg: Seq::new(16, |q: int|
                    if 0 <= q <= x {
                        s.ram[s.reg_index + q]
                    } else {
                        s.reg[q]
                    }),
                ..s
            }));
        }
        Ok(())
    }

    /// XOR-draw the `n`-row sprite at the index register onto the corner
    /// selected by registers `x` and `y`. The starting position wraps
    /// around the screen; the sprite body is clipped at the right and
    /// bottom edges, never wrapped. The flag register becomes 1 exactly
    /// when some visible sprite bit lands on a pixel that was set (and so
    /// flips it off), else 0. Fails fatally, changing nothing, if a
    /// sprite row to be drawn lies outside memory.
    #[verifier::loop_isolation(false)]
    #[verifier::rlimit(60)]
    fn exec_draw(&mut self, x: u8, y: u8, n: u8) -> (r: Result<(), CpuError>)
        requires
            old(self).wf(),
            x < 16,
            y < 16,
            n < 16,
        ensures
            final(self).wf(),
            ({
                let s = old(self)@;
                let x0 = s.reg[x as int] as int % 64;
                let y0 = s.reg[y as int] as int % 32;
                let rows = if n <= 32 - y0 { n as int } else { 32 - y0 };
                if rows > 0 && s.reg_index + rows > 4096 {
                    r == Err::<(), CpuError>(CpuError::MemoryOutOfBounds) && final(self)@ == s
                } else {
                    r is Ok && final(self)@ == (CpuView {
                        vram: spec_draw(s.vram, s.ram, s.reg_index as int, x0, y0, n as int),
                        reg: s.reg.update(15,
                            if spec_collision(s.vram, s.ram, s.reg_index as int, x0, y0, n as int) {
                                1u8
                            } else {
                                0u8
                            }),
                        ..s
                    })
                }
            }),
    {
        let ghost s = old(self)@;
        let vx = self.reg[x as usize];
        let vy = self.reg[y as usize];
        let x0 = (vx % 64) as usize;
        let y0 = (vy % 32) as usize;
        let nrows: usize = if (n as usize) <= 32 - y0 { n as usize } else { 32 - y0 };
        let i0 = self.reg_index as usize;
        if nrows > 0 && i0 + nrows > 4096 {
            return Err(CpuError::MemoryOutOfBounds);
        }
        let ghost x0s = x0 as int;
        let ghost y0s = y0 as int;
        let ghost i0s = s.reg_index as int;
        let ghost ns = n as int;
        self.reg[15] = 0;
        let mut row: usize = 0;
        while row < nrows
            invariant
                row <= nrows,
                self@ == (CpuView { vram: self.vram@, reg: self.reg@, ..s }),
                self.vram@ == draw_partial(s.vram, s.ram, i0s, x0s, y0s, ns, y0s + row, x0s),
                self.reg@ == s.reg.update(15,
                    if collision_partial(s.vram, s.ram, i0s, x0s, y0s, ns, y0s + row, x0s) {
                        1u8
                    } else {
                        0u8
                    }),
            decreases nrows - row,
        {
            let sprite = self.ram[i0 + row];
            let yi = y0 + row;
            let ghost yis = yi as int;
            let ncols: usize = if 8 <= 64 - x0 { 8 } else { 64 - x0 };
            let mut col: usize = 0;
            proof {
                assert(self.vram@ =~= draw_partial(s.vram, s.ram, i0s, x0s, y0s, ns, yis, x0s + 0));
            }
            while col < ncols
                invariant
                    col <= ncols,
                    self@ == (CpuView { vram: self.vram@, reg: self.reg@, ..s }),
                    self.vram@ == draw_partial(s.vram, s.ram, i0s, x0s, y0s, ns, yis, x0s + col),
                    self.reg@ == s.reg.update(15,
                        if collision_partial(s.vram, s.ram, i0s, x0s, y0s, ns, yis, x0s + col) {
                            1u8
                        } else {
                            0u8
                        }),
                decreases ncols - col,
            {
                let xi = x0 + col;
                let p = yi * 64 + xi;
                let ghost xis = xi as int;
                let ghost ps = p as int;
                proof {
                    assert(ps == 64 * yis + xis);
                    assert(ps / 64 == yis && ps % 64 == xis) by (nonlinear_arith)
                        requires
                            ps == 64 * yis + xis,
                            0 <= xis < 64,
                            0 <= yis,
                    ;
                    assert(in_draw_region(x0s, y0s, ns, yis, xis));
                }
                let prev = self.vram[p];
                let bit = (sprite & (0x80u8 >> (col as u8))) != 0;
                proof {
                    assert(prev == s.vram[ps]);
                    assert(bit == sprite_bit(s.ram[i0s + (yis - y0s)], xis - x0s));
                }
                self.vram[p] = prev != bit;
                if prev && bit {
                    self.reg[15] = 1;
                }
                proof {
                    lemma_collision_col_step(s.vram, s.ram, i0s, x0s, y0s, ns, yis, xis);
                    assert forall|q: int| 0 <= q < 2048 implies
                        self.vram@[q] == draw_partial(s.vram, s.ram, i0s, x0s, y0s, ns, yis, x0s + col + 1)[q]
                    by {
                        let qr = q / 64;
                        let qc = q % 64;
                        if q != ps && qr == yis && qc == xis {
                            assert(q == 64 * qr + qc);
                            assert(q == ps);
                        }
                    }
                    assert(self.vram@ =~= draw_partial(s.vram, s.ram, i0s, x0s, y0s, ns, yis, x0s + col + 1));
                }
                col += 1;
            }
            proof {
                lemma_collision_shift(
                    s.vram, s.ram, i0s, x0s, y0s, ns, yis, x0s + ncols, yis + 1, x0s);
                assert(self.vram@ =~= draw_partial(s.vram, s.ram, i0s, x0s, y0s, ns, yis + 1, x0s));
            }
            row += 1;
        }
        proof {
            lemma_collision_full(s.vram, s.ram, i0s, x0s, y0s, ns, y0s + nrows, x0s);
            assert(self.vram@ =~= spec_draw(s.vram, s.ram, i0s, x0s, y0s, ns));
            assert(self@ =~= (CpuView {
                vram: spec_draw(s.vram, s.ram, i0s, x0s, y0s, ns),
                reg: s.reg.update(15,
                    if spec_collision(s.vram, s.ram, i0s, x0s, y0s, ns) { 1u8 } else { 0u8 }),
                ..s
            }));
        }
        Ok(())
    }

    /// A freshly constructed CPU: all memory, registers and the screen
    /// zeroed, no program loaded, the single-step pause armed.
    pub fn new() -> (p: Processor)
        ensures
            p.wf(),
            p@ == initial_view(),
    {
        let p = Processor {
            ram: zero_bytes(4096),
            program_size: 0,
            vram: clear_pixels(2048),
            pc: 0,
            reg_index: 0,
            opcode: 0,
            reg: zero_bytes(16),
            stack: zero_words(16),
            stack_ptr: 0,
            keypad_irq: false,
            keypad_irq_dest: 0,
            delay_timer: 0,
            sound_timer: 0,
            debug: 0,
            breakpoint: true,
        };
        proof {
            assert(p@ =~= initial_view());
        }
        p
    }

    /// Copy `program_size` bytes of `program` into memory at
    /// `program_start`, install the font table at addresses 0-79, and
    /// set the program counter to `program_start`.
    ///
    /// The caller must ensure the program fits: at most 3584 bytes, and
    /// not extending past the 4096-byte memory.
    pub fn load(&mut self, program: &Vec<u8>, program_size: usize, program_start: usize)
        requires
            old(self).wf(),
            program_size <= program@.len(),
            program_size <= 3584,
            program_start + program_size <= 4096,
        ensures
            final(self).wf(),
            final(self)@ == (CpuView {
                ram: load_ram(old(self)@.ram, program@, program_size as int, program_start as int),
                program_size: program_size,
                pc: program_start as u16,
                ..old(self)@
            }),
    {
        let mut i: usize = 0;
        while i < program_size
            invariant
                i <= program_size,
                program_size <= program@.len(),
                program_start + program_size <= 4096,
                self.ram@.len() == 4096,
                forall|a: int| program_start <= a < program_start + i
                    ==> self.ram@[a] == program@[a - program_start],
                forall|a: int| 0 <= a < 4096
                    && !(program_start <= a < program_start + i)
                    ==> self.ram@[a] == old(self)@.ram[a],
                self.program_size == old(self).program_size,
                self.vram == old(self).vram,
                self.pc == old(self).pc,
                self.reg_index == old(self).reg_index,
                self.opcode == old(self).opcode,
                self.reg == old(self).reg,
                self.stack == old(self).stack,
                self.stack_ptr == old(self).stack_ptr,
                self.keypad_irq == old(self).keypad_irq,
                self.keypad_irq_dest == old(self).keypad_irq_dest,
                self.delay_timer == old(self).delay_timer,
                self.sound_timer == old(self).sound_timer,
                self.debug == old(self).debug,
                self.breakpoint == old(self).breakpoint,
            decreases program_size - i,
        {
            self.ram[program_start + i] = program[i];
            i += 1;
        }
        let font = font_set();
        let mut f: usize = 0;
        while f < 80
            invariant
                f <= 80,
                font@ == font_seq(),
                self.ram@.len() == 4096,
                forall|a: int| 0 <= a < f ==> self.ram@[a] == font_seq()[a],
                forall|a: int| f <= a < 4096
                    && (program_start <= a < program_start + program_size)
                    ==> self.ram@[a] == program@[a - program_start],
                forall|a: int| f <= a < 4096
                    && !(program_start <= a < program_start + program_size)
                    ==> self.ram@[a] == old(self)@.ram[a],
                self.program_size == old(self).program_size,
                self.vram == old(self).vram,
                self.pc == old(self).pc,
                self.reg_index == old(self).reg_index,
                self.opcode == old(self).opcode,
                self.reg == old(self).reg,
                self.stack == old(self).stack,
                self.stack_ptr == old(self).stack_ptr,
                self.keypad_irq == old(self).keypad_irq,
                self.keypad_irq_dest == old(self).keypad_irq_dest,
                self.delay_timer == old(self).delay_timer,
                self.sound_timer == old(self).sound_timer,
                self.debug == old(self).debug,
                self.breakpoint == old(self).breakpoint,
            decreases 80 - f,
        {
            self.ram[f] = font[f];
            f += 1;
        }
        self.program_size = program_size;
        self.pc = program_start as u16;
        proof {
            assert(self@.ram =~= load_ram(
                old(self)@.ram, program@, program_size as int, program_start as int));
            assert(self@ =~= (CpuView {
                ram: load_ram(old(self)@.ram, program@, program_size as int, program_start as int),
                program_size: program_size,
                pc: program_start as u16,
                ..old(self)@
            }));
        }
    }

    /// The big-endian instruction word at address `pc`: the byte there,
    /// then the byte after it.
    pub fn read_opcode(&self, pc: u16) -> (r: u16)
        requires
            self.wf(),
            pc + 1 < 4096,
        ensures
            r == word_at(self@.ram, pc as int),
    {
        (self.ram[pc as usize] as u16) * 256 + (self.ram[pc as usize + 1] as u16)
    }

    /// Set the debug level: 0 normal, 1 and 2 tracing (observed by the
    /// host, not by the core), 3 single-step pause before every instruction.
    pub fn set_debug(&mut self, debug: usize)
        ensures
            final(self)@ == (CpuView { debug: debug, ..old(self)@ }),
    {
        self.debug = debug;
        proof {
            assert(self@ =~= (CpuView { debug: debug, ..old(self)@ }));
        }
    }

    /// One machine tick with the random byte supplied by the caller:
    /// exactly the transition [`spec_cycle`] describes, deterministic in
    /// its arguments. On success the returned vector is the framebuffer
    /// snapshot after the tick; a fatal error reports why and leaves the
    /// state as it was at the failing access.
    #[verifier::rlimit(90)]
    pub fn step(&mut self, keypad: [bool; 16], random: u8) -> (r: Result<Vec<bool>, CpuError>)
        requires
            old(self).wf(),
        ensures
            final(self).wf(),
            cycle_rel(old(self)@, keypad@, random, final(self)@, snapshot_of(r)),
    {
        let ghost pre = old(self)@;

        // A machine blocked on a keypress only scans the keypad: the
        // lowest pressed line is captured into the destination register
        // and unblocks the machine; nothing else changes this call.
        if self.keypad_irq {
            let k = first_pressed(&keypad);
            if k < 16 {
                let dest = self.keypad_irq_dest as usize;
                self.reg[dest] = k as u8;
                self.keypad_irq = false;
            }
            let fb = clone_vram(&self.vram);
            proof {
                assert(self@ =~= spec_cycle(pre, keypad@, random).0);
            }
            return Ok(fb);
        }

        // A machine paused for single-stepping un-pauses on any pressed
        // key and otherwise changes nothing; either way this call does
        // not execute an instruction.
        if self.debug == 3 && self.breakpoint {
            let k = first_pressed(&keypad);
            if k < 16 {
                self.breakpoint = false;
            }
            let fb = clone_vram(&self.vram);
            proof {
                assert(self@ =~= spec_cycle(pre, keypad@, random).0);
            }
            return Ok(fb);
        }

        self.cycle_timers();

        if self.pc > 4094 {
            proof {
                assert(self@ =~= spec_cycle(pre, keypad@, random).0);
            }
            return Err(CpuError::MemoryOutOfBounds);
        }

        let word = self.read_opcode(self.pc);
        self.opcode = word;
        let instr = decode(word);
        let ghost f = self@;
        proof {
            assert(f =~= (CpuView { opcode: word, ..tick_timers(pre) }));
            assert(spec_cycle(pre, keypad@, random)
                == spec_exec(f, spec_decode(word), keypad@, random));
        }

        let mut pc_advance = true;
        match instr {
            Instr::ClearScreen => {
                self.vram = clear_pixels(2048);
            },
            Instr::Return => {
                if self.stack_ptr > 0 {
                    let sp = self.stack_ptr as usize;
                    self.pc = self.stack[sp - 1];
                    // Zeroed so that debug dumps show only live entries.
                    self.stack[sp - 1] = 0;
                    self.stack_ptr = self.stack_ptr - 1;
                    pc_advance = false;
                }
                // An empty stack is a non-fatal fault: the instruction
                // is skipped and execution continues.
            },
            Instr::Sys(_) => {
                // Legacy machine-code call: a no-op.
            },
            Instr::Jump(nnn) => {
                self.pc = nnn;
                pc_advance = false;
            },
            Instr::Call(nnn) => {
                if self.stack_ptr >= 16 {
                    proof {
                        assert(self@ =~= f);
                    }
                    return Err(CpuError::StackOverflow);
                }
                self.stack[self.stack_ptr as usize] = self.pc;
                self.stack_ptr = self.stack_ptr + 1;
                self.pc = nnn;
                pc_advance = false;
            },
            Instr::SkipEqImm(x, nn) => {
                if self.reg[x as usize] == nn {
                    self.pc = self.pc + 2;
                }
            },
            Instr::SkipNeImm(x, nn) => {
                if self.reg[x as usize] != nn {
                    self.pc = self.pc + 2;
                }
            },
            Instr::SkipEqReg(x, y) => {
                if self.reg[x as usize] == self.reg[y as usize] {
                    self.pc = self.pc + 2;
                }
            },
            Instr::SetImm(x, nn) => {
                self.reg[x as usize] = nn;
            },
            Instr::AddImm(x, nn) => {
                let sum: u16 = self.reg[x as usize] as u16 + nn as u16;
                self.reg[x as usize] = (sum % 256) as u8;
            },
            Instr::SetReg(x, y) => {
                self.reg[x as usize] = self.reg[y as usize];
            },
            Instr::Or(x, y) => {
                self.reg[x as usize] = self.reg[x as usize] | self.reg[y as usize];
            },
            Instr::And(x, y) => {
                self.reg[x as usize] = self.reg[x as usize] & self.reg[y as usize];
            },
            Instr::Xor(x, y) => {
                self.reg[x as usize] = self.reg[x as usize] ^ self.reg[y as usize];
            },
            Instr::AddReg(x, y) => {
                let sum: u16 = self.reg[x as usize] as u16 + self.reg[y as usize] as u16;
                let carry: u8 = if sum > 255 { 1 } else { 0 };
                self.reg[15] = carry;
                self.reg[x as usize] = (sum % 256) as u8;
            },
            Instr::Sub(x, y) => {
                let a = self.reg[x as usize];
                let b = self.reg[y as usize];
                let no_borrow: u8 = if a >= b { 1 } else { 0 };
                self.reg[15] = no_borrow;
                self.reg[x as usize] = ((a as u16 + 256 - b as u16) % 256) as u8;
            },
            Instr::ShiftRight(x) => {
                self.reg[15] = self.reg[x as usize] & 1u8;
                self.reg[x as usize] = self.reg[x as usize] >> 1u8;
            },
            Instr::SubReverse(x, y) => {
                let a = self.reg[x as usize];
                let b = self.reg[y as usize];
                let no_borrow: u8 = if b >= a { 1 } else { 0 };
                self.reg[15] = no_borrow;
                self.reg[x as usize] = ((b as u16 + 256 - a as u16) % 256) as u8;
            },
            Instr::ShiftLeft(x) => {
                self.reg[15] = self.reg[x as usize] >> 7u8;
                self.reg[x as usize] = self.reg[x as usize] << 1u8;
            },
            Instr::SkipNeReg(x, y) => {
                if self.reg[x as usize] != self.reg[y as usize] {
                    self.pc = self.pc + 2;
                }
            },
            Instr::SetIndex(nnn) => {
                self.reg_index = nnn;
            },
            Instr::JumpPlus(nnn) => {
                self.pc = self.reg[0] as u16 + nnn;
                pc_advance = false;
            },
            Instr::Random(x, nn) => {
                self.reg[x as usize] = random & nn;
            },
            Instr::Draw(x, y, n) => {
                match self.exec_draw(x, y, n) {
                    Ok(()) => {},
                    Err(e) => {
                        return Err(e);
                    },
                }
            },
            Instr::SkipKeyPressed(x) => {
                let key = self.reg[x as usize];
                if key >= 16 {
                    proof {
                        assert(self@ =~= f);
                    }
                    return Err(CpuError::KeyOutOfRange);
                }
                if keypad[key as usize] {
                    self.pc = self.pc + 2;
                }
            },
            Instr::SkipKeyNotPressed(x) => {
                let key = self.reg[x as usize];
                if key >= 16 {
                    proof {
                        assert(self@ =~= f);
                    }
                    return Err(CpuError::KeyOutOfRange);
                }
                if !keypad[key as usize] {
                    self.pc = self.pc + 2;
                }
            },
            Instr::ReadDelay(x) => {
                self.reg[x as usize] = self.delay_timer;
            },
            Instr::WaitKey(x) => {
                self.keypad_irq = true;
                self.keypad_irq_dest = x;
            },
            Instr::SetDelay(x) => {
                self.delay_timer = self.reg[x as usize];
            },
            Instr::SetSound(x) => {
                self.sound_timer = self.reg[x as usize];
            },
            Instr::AddIndex(x) => {
                let sum: u32 = self.reg_index as u32 + self.reg[x as usize] as u32;
                self.reg_index = (sum % 0x10000) as u16;
            },
            Instr::SetFontIndex(x) => {
                // Each font sprite is five bytes, starting at address 0.
                self.reg_index = self.reg[x as usize] as u16 * 5;
            },
            Instr::StoreBcd(x) => {
                if self.reg_index > 4093 {
                    proof {
                        assert(self@ =~= f);
                    }
                    return Err(CpuError::MemoryOutOfBounds);
                }
                let i0 = self.reg_index as usize;
                let v = self.reg[x as usize];
                self.ram[i0] = v / 100;
                self.ram[i0 + 1] = (v % 100) / 10;
                self.ram[i0 + 2] = v % 10;
            },
            Instr::StoreRegs(x) => {
                match self.store_regs(x) {
                    Ok(()) => {},
                    Err(e) => {
                        return Err(e);
                    },
                }
            },
            Instr::LoadRegs(x) => {
                match self.load_regs(x) {
                    Ok(()) => {},
                    Err(e) => {
                        return Err(e);
                    },
                }
            },
            Instr::Unknown(_) => {
                // An unmatched nibble pattern is skipped, non-fatally.
            },
        }
        if pc_advance {
            self.pc = self.pc + 2;
        }
        self.breakpoint = true;
        let fb = clone_vram(&self.vram);
        proof {
            let (post, err) = spec_exec(f, instr, keypad@, random);
            assert(err is None);
            assert(self@ =~= post);
        }
        Ok(fb)
    }

    /// One machine tick, drawing the random byte from the generator.
    /// The outcome is exactly [`spec_cycle`] for some byte: everything
    /// except the random instruction's register value is determined by
    /// the prior state and the keypad.
    pub fn cycle(&mut self, keypad: [bool; 16]) -> (r: Result<Vec<bool>, CpuError>)
        requires
            old(self).wf(),
        ensures
            final(self).wf(),
            exists|rb: u8| #[trigger] cycle_rel(old(self)@, keypad@, rb, final(self)@, snapshot_of(r)),
    {
        let rb = random_byte();
        let r = self.step(keypad, rb);
        proof {
            assert(cycle_rel(old(self)@, keypad@, rb, self@, snapshot_of(r)));
        }
        r
    }

    /// Decrement both timers by one tick, saturating at zero: a timer
    /// that is already zero is left at zero.
    pub fn cycle_timers(&mut self)
        ensures
            final(self)@ == tick_timers(old(self)@),
    {
        if self.delay_timer > 0 {
            self.delay_timer = self.delay_timer - 1;
        }
        if self.sound_timer > 0 {
            self.sound_timer = self.sound_timer - 1;
        }
        proof {
            assert(self@ =~= tick_timers(old(self)@));
        }
    }
}

} // verus!
