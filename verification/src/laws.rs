use vstd::prelude::*;

use crate::cpu::{
    bit_of, col_off, cycle_beep, cycle_post, draw_collision, draw_fb, fb_index, fetch_word,
    lemma_offset_round, op_8xy4, op_8xy5, op_8xy7, op_fx55, op_fx65, row_off, spec_decode,
    tick_timer, EmuView, OpCode,
};
use vstd::arithmetic::div_mod::{
    lemma_fundamental_div_mod_converse, lemma_mod_multiples_vanish, lemma_mod_pos_bound,
    lemma_small_mod,
};

verus! {

/// What a sum or difference of two bytes, shifted into `[0, 512)`,
/// wraps to modulo 256.
proof fn lemma_wrap256(c: int)
    requires
        0 <= c < 512,
    ensures
        c % 256 == if c < 256 {
            c
        } else {
            c - 256
        },
{
    if c < 256 {
        lemma_small_mod(c as nat, 256);
    } else {
        lemma_mod_multiples_vanish(1, c - 256, 256);
        lemma_small_mod((c - 256) as nat, 256);
        assert(256 * 1 + (c - 256) == c);
    }
}

/// Law: the clear-screen opcode leaves every framebuffer cell 0,
/// whatever the framebuffer held before.
pub proof fn lemma_clear_screen_blanks(v: EmuView, rnd: u8)
    requires
        v.wf(),
        v.pc <= 4094,
        fetch_word(v) == 0x00E0,
    ensures
        forall|p: int| 0 <= p < 2048 ==> cycle_post(v, rnd).fb[p] == 0,
{
}

/// Law: the add and the two subtract opcodes set `VF` exactly
/// according to true overflow or borrow of the operand values, and
/// leave the wrapped result in `Vx`, for every pair of register
/// values. Stated for `x` other than the flag register itself, which
/// those opcodes overwrite with the result.
pub proof fn lemma_arithmetic_flags(v: EmuView, x: int, y: int)
    requires
        v.wf(),
        0 <= x < 15,
        0 <= y < 16,
    ensures
        op_8xy4(v, x, y).regs[15] == (if v.regs[x] + v.regs[y] > 255 {
            1u8
        } else {
            0u8
        }),
        op_8xy4(v, x, y).regs[x] == (if v.regs[x] + v.regs[y] > 255 {
            (v.regs[x] + v.regs[y] - 256) as u8
        } else {
            (v.regs[x] + v.regs[y]) as u8
        }),
        op_8xy5(v, x, y).regs[15] == (if v.regs[x] < v.regs[y] {
            0u8
        } else {
            1u8
        }),
        op_8xy5(v, x, y).regs[x] == (if v.regs[x] >= v.regs[y] {
            (v.regs[x] - v.regs[y]) as u8
        } else {
            (v.regs[x] - v.regs[y] + 256) as u8
        }),
        op_8xy7(v, x, y).regs[15] == (if v.regs[y] < v.regs[x] {
            0u8
        } else {
            1u8
        }),
        op_8xy7(v, x, y).regs[x] == (if v.regs[y] >= v.regs[x] {
            (v.regs[y] - v.regs[x]) as u8
        } else {
            (v.regs[y] - v.regs[x] + 256) as u8
        }),
{
    let a = v.regs[x] as int;
    let b = v.regs[y] as int;
    lemma_wrap256(a + b);
    lemma_wrap256(a + 256 - b);
    lemma_wrap256(b + 256 - a);
}

/// Law: XOR-drawing the same sprite twice at the same spot, with
/// nothing drawn in between, restores the framebuffer; and the second
/// draw reports a collision exactly when the first draw turned some
/// pixel on.
pub proof fn lemma_draw_twice_restores(fb: Seq<u8>, sprite: Seq<u8>, vx: u8, vy: u8)
    requires
        fb.len() == 2048,
        forall|p: int| 0 <= p < 2048 ==> fb[p] <= 1,
        sprite.len() <= 15,
    ensures
        draw_fb(draw_fb(fb, sprite, vx, vy), sprite, vx, vy) == fb,
        draw_collision(draw_fb(fb, sprite, vx, vy), sprite, vx, vy) == (exists|j: int, i: int|
            0 <= j < sprite.len() && 0 <= i < 8 && #[trigger] bit_of(sprite[j], i as u8)
                && fb[fb_index((vx + i) % 64, (vy + j) % 32)] == 0),
{
    let fb1 = draw_fb(fb, sprite, vx, vy);
    assert forall|p: int| 0 <= p < 2048 implies #[trigger] draw_fb(fb1, sprite, vx, vy)[p]
        == fb[p] by {
        assert(fb1[p] <= 1);
    }
    assert(draw_fb(fb1, sprite, vx, vy) =~= fb);
    assert forall|j: int, i: int|
        0 <= j < sprite.len() && 0 <= i < 8 && #[trigger] bit_of(sprite[j], i as u8) implies 0
        <= fb_index((vx + i) % 64, (vy + j) % 32) < 2048 && fb1[fb_index(
        (vx + i) % 64,
        (vy + j) % 32,
    )] == 1 - fb[fb_index((vx + i) % 64, (vy + j) % 32)] by {
        lemma_mod_pos_bound(vx + i, 64);
        lemma_mod_pos_bound(vy + j, 32);
        let xq = (vx + i) % 64;
        let yq = (vy + j) % 32;
        let cell = fb_index(xq, yq);
        lemma_fundamental_div_mod_converse(cell, 64, yq, xq);
        lemma_offset_round(vx, i, 64);
        lemma_offset_round(vy, j, 32);
        assert(col_off(vx, cell % 64) == i);
        assert(row_off(vy, cell / 64) == j);
        assert(fb[cell] <= 1);
    }
    if draw_collision(fb1, sprite, vx, vy) {
        let (jj, ii) = choose|jj: int, ii: int|
            0 <= jj < sprite.len() && 0 <= ii < 8 && #[trigger] bit_of(sprite[jj], ii as u8)
                && fb1[fb_index((vx + ii) % 64, (vy + jj) % 32)] == 1;
        assert(fb[fb_index((vx + ii) % 64, (vy + jj) % 32)] == 0);
    }
    if exists|j: int, i: int|
        0 <= j < sprite.len() && 0 <= i < 8 && #[trigger] bit_of(sprite[j], i as u8) && fb[fb_index(
        (vx + i) % 64,
        (vy + j) % 32,
    )] == 0 {
        let (jj, ii) = choose|jj: int, ii: int|
            0 <= jj < sprite.len() && 0 <= ii < 8 && #[trigger] bit_of(sprite[jj], ii as u8)
                && fb[fb_index((vx + ii) % 64, (vy + jj) % 32)] == 0;
        assert(fb1[fb_index((vx + ii) % 64, (vy + jj) % 32)] == 1);
        assert(draw_collision(fb1, sprite, vx, vy));
    }
}

/// Law: dumping `V0..=Vx` to memory and loading them back through the
/// same index register and count leaves every register unchanged.
pub proof fn lemma_dump_load_round_trip(v: EmuView, x: int)
    requires
        v.wf(),
        0 <= x < 16,
        v.index + x < 4096,
    ensures
        op_fx65(op_fx55(v, x), x).regs == v.regs,
{
    assert(op_fx65(op_fx55(v, x), x).regs =~= v.regs);
}

/// True of the one opcode pattern that writes the sound timer.
pub open spec fn writes_sound_timer(op: OpCode) -> bool {
    op.first == 0xF && op.third == 1 && op.fourth == 8
}

/// Law: under any opcode that does not write the sound timer, a cycle
/// beeps exactly when the sound timer stood at 1 before the cycle, and
/// the timer counts down toward zero, clamping there.
pub proof fn lemma_sound_timer_beep(v: EmuView, rnd: u8)
    requires
        v.wf(),
        v.pc <= 4094,
        !writes_sound_timer(spec_decode(fetch_word(v))),
    ensures
        cycle_beep(v, rnd) == (v.sound == 1),
        cycle_post(v, rnd).sound == tick_timer(v.sound),
{
}

/// Law: a subroutine call followed immediately by a return brings the
/// program counter back to exactly the instruction after the call, and
/// restores the stack pointer.
pub proof fn lemma_call_return_round_trip(v: EmuView, rnd1: u8, rnd2: u8)
    requires
        v.wf(),
        v.pc <= 4094,
        spec_decode(fetch_word(v)).first == 2,
        v.sp < 16,
        cycle_post(v, rnd1).pc <= 4094,
        fetch_word(cycle_post(v, rnd1)) == 0x00EE,
    ensures
        cycle_post(cycle_post(v, rnd1), rnd2).pc == v.pc + 4,
        cycle_post(cycle_post(v, rnd1), rnd2).sp == v.sp,
{
}

} // verus!
