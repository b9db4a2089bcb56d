//! General properties of the instruction semantics, stated over the
//! abstract state and proved from the same spec functions that the
//! executable contracts use.

use vstd::prelude::*;

use crate::decode::Instr;
use crate::processor::{
    first_pressed_from, in_draw_region, spec_collision, spec_cycle, spec_draw, spec_exec,
    sprite_bit, CpuError, CpuView,
};

verus! {

/// Setting register `r` to `v` and then copying register `r` onto itself
/// leaves the register holding `v`, whatever the rest of the state.
pub proof fn lemma_set_then_copy_identity(
    s: CpuView, r: u8, v: u8, keypad: Seq<bool>, random: u8,
)
    requires
        s.wf(),
        r < 16,
    ensures
        ({
            let (s1, e1) = spec_exec(s, Instr::SetImm(r, v), keypad, random);
            let (s2, e2) = spec_exec(s1, Instr::SetReg(r, r), keypad, random);
            e1 is None && e2 is None && s2.reg[r as int] == v
        }),
{
}

/// A call to `nnn` pushes the program counter of the call instruction
/// and jumps; the matching return restores that program counter and the
/// stack pointer, and leaves registers, memory, the screen and every
/// live stack slot below the pair untouched. The two requirements --
/// a well-formed state and a free stack slot -- make matched pairs
/// composable up to the full depth of 16.
pub proof fn lemma_call_return_round_trip(
    s: CpuView, nnn: u16, keypad: Seq<bool>, random: u8,
)
    requires
        s.wf(),
        s.stack_ptr < 16,
        nnn < 0x1000,
    ensures
        ({
            let (s1, e1) = spec_exec(s, Instr::Call(nnn), keypad, random);
            let (s2, e2) = spec_exec(s1, Instr::Return, keypad, random);
            &&& e1 is None && e2 is None
            &&& s1.pc == nnn
            &&& s1.stack_ptr == s.stack_ptr + 1
            &&& s1.stack[s.stack_ptr as int] == s.pc
            &&& s2.pc == s.pc
            &&& s2.stack_ptr == s.stack_ptr
            &&& s2.reg == s.reg
            &&& s2.ram == s.ram
            &&& s2.vram == s.vram
            &&& forall|i: int| 0 <= i < s.stack_ptr ==> s2.stack[i] == s.stack[i]
        }),
{
}

/// A call with all 16 stack slots in use fails fatally with a stack
/// overflow and corrupts nothing: the state, stack memory included, is
/// exactly as before.
pub proof fn lemma_call_overflow(s: CpuView, nnn: u16, keypad: Seq<bool>, random: u8)
    requires
        s.stack_ptr == 16,
    ensures
        spec_exec(s, Instr::Call(nnn), keypad, random) == (s, Some(CpuError::StackOverflow)),
{
}

/// Drawing clips instead of wrapping: every pixel outside the sprite's
/// clipped box keeps its value. The box never reaches column 64 or row
/// 32, so a sprite that would extend past the right or bottom edge loses
/// those pixels instead of painting the opposite side.
pub proof fn lemma_draw_clips(
    vram: Seq<bool>, ram: Seq<u8>, i: int, x0: int, y0: int, n: int, p: int,
)
    requires
        vram.len() == 2048,
        0 <= p < 2048,
        !in_draw_region(x0, y0, n, p / 64, p % 64),
    ensures
        spec_draw(vram, ram, i, x0, y0, n)[p] == vram[p],
{
}

/// Drawing the same sprite twice at the same position restores every
/// pixel, and the second draw reports a collision exactly when the
/// sprite has a visible set bit over a pixel that was clear before the
/// first draw (the pixel the first draw turned on).
pub proof fn lemma_draw_twice(
    vram: Seq<bool>, ram: Seq<u8>, i: int, x0: int, y0: int, n: int,
)
    requires
        vram.len() == 2048,
        0 <= x0 < 64,
        0 <= y0 < 32,
        0 <= n,
    ensures
        spec_draw(spec_draw(vram, ram, i, x0, y0, n), ram, i, x0, y0, n) =~= vram,
        spec_collision(spec_draw(vram, ram, i, x0, y0, n), ram, i, x0, y0, n)
            == exists|r: int, c: int| #[trigger] in_draw_region(x0, y0, n, r, c)
                && !vram[r * 64 + c] && sprite_bit(ram[i + (r - y0)], c - x0),
{
    let once = spec_draw(vram, ram, i, x0, y0, n);
    assert forall|p: int| 0 <= p < 2048 implies
        spec_draw(once, ram, i, x0, y0, n)[p] == vram[p]
    by {
    }
    if spec_collision(once, ram, i, x0, y0, n) {
        let (r, c) = choose|r: int, c: int| #[trigger] in_draw_region(x0, y0, n, r, c)
            && once[r * 64 + c] && sprite_bit(ram[i + (r - y0)], c - x0);
        let p = r * 64 + c;
        assert(0 <= p < 2048 && p / 64 == r && p % 64 == c) by (nonlinear_arith)
            requires
                p == r * 64 + c,
                0 <= r < 32,
                0 <= c < 64,
        ;
        assert(once[p] == (vram[p] != sprite_bit(ram[i + (r - y0)], c - x0)));
        assert(!vram[p]);
    }
    if exists|r: int, c: int| #[trigger] in_draw_region(x0, y0, n, r, c)
        && !vram[r * 64 + c] && sprite_bit(ram[i + (r - y0)], c - x0) {
        let (r, c) = choose|r: int, c: int| #[trigger] in_draw_region(x0, y0, n, r, c)
            && !vram[r * 64 + c] && sprite_bit(ram[i + (r - y0)], c - x0);
        let p = r * 64 + c;
        assert(0 <= p < 2048 && p / 64 == r && p % 64 == c) by (nonlinear_arith)
            requires
                p == r * 64 + c,
                0 <= r < 32,
                0 <= c < 64,
        ;
        assert(once[p] && sprite_bit(ram[i + (r - y0)], c - x0));
        assert(spec_collision(once, ram, i, x0, y0, n));
    }
}

/// Storing registers 0 through `x` at the index register and then
/// loading registers 0 through `x` from the same address -- whatever the
/// register file holds in between -- reproduces the stored values.
pub proof fn lemma_store_load_round_trip(
    s: CpuView, mid_reg: Seq<u8>, x: u8, keypad: Seq<bool>, random: u8,
)
    requires
        s.wf(),
        x < 16,
        mid_reg.len() == 16,
        s.reg_index + x <= 4095,
    ensures
        ({
            let (s1, e1) = spec_exec(s, Instr::StoreRegs(x), keypad, random);
            let mid = CpuView { reg: mid_reg, ..s1 };
            let (s2, e2) = spec_exec(mid, Instr::LoadRegs(x), keypad, random);
            &&& e1 is None && e2 is None
            &&& forall|q: int| 0 <= q <= x ==> s2.reg[q] == s.reg[q]
        }),
{
}

/// What the lowest-pressed-key scan returns: the first pressed line at
/// or above `i`, with everything below it unpressed, or 16 when no line
/// from `i` up is pressed.
pub proof fn lemma_first_pressed_from(keypad: Seq<bool>, i: int)
    requires
        0 <= i <= 16,
    ensures
        ({
            let k = first_pressed_from(keypad, i);
            &&& i <= k <= 16
            &&& (k < 16 ==> keypad[k])
            &&& forall|j: int| i <= j < k ==> !keypad[j]
        }),
    decreases 16 - i,
{
    if i < 16 && !keypad[i] {
        lemma_first_pressed_from(keypad, i + 1);
    }
}

/// A machine blocked on a keypress: a cycle with no key pressed changes
/// nothing at all; a cycle with keys pressed stores the lowest pressed
/// line into the destination register and unblocks the machine, leaving
/// the framebuffer and every other part of the state unchanged.
pub proof fn lemma_wait_for_key(pre: CpuView, keypad: Seq<bool>, random: u8)
    requires
        pre.wf(),
        pre.keypad_irq,
    ensures
        ({
            let (post, err) = spec_cycle(pre, keypad, random);
            &&& err is None
            &&& post.vram == pre.vram
            &&& post.ram == pre.ram
            &&& post.pc == pre.pc
            &&& ((forall|k: int| 0 <= k < 16 ==> !keypad[k]) ==> post == pre)
            &&& ((exists|k: int| 0 <= k < 16 && keypad[k]) ==> {
                let k = first_pressed_from(keypad, 0);
                &&& 0 <= k < 16
                &&& keypad[k]
                &&& forall|j: int| 0 <= j < k ==> !keypad[j]
                &&& post.reg == pre.reg.update(pre.keypad_irq_dest as int, k as u8)
                &&& !post.keypad_irq
            })
        }),
{
    lemma_first_pressed_from(keypad, 0);
    let k = first_pressed_from(keypad, 0);
    if exists|j: int| 0 <= j < 16 && keypad[j] {
        let w = choose|j: int| 0 <= j < 16 && keypad[j];
        assert(k < 16);
    }
}

} // verus!
