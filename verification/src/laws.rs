//! The general properties of the machine, each proved over the same
//! spec functions that the executable operations are verified against.
use crate::cycle::{
    alu_spec, draw_row_spec, draw_rows_spec, fetch_spec, first_pressed_from, load_regs_spec,
    ok_out, sprite_bit, step_spec, store_regs_spec,
};
use crate::decode::{decode_spec, AluOp, Instr};
use crate::machine::MachineView;
use vstd::prelude::*;

verus! {

/// The flag conventions of the arithmetic and shift operations: ADD
/// reports the carry, SUB and SUBN report 1 exactly when no borrow
/// occurred, and the shifts report the bit shifted out, alongside the
/// arithmetic meaning of each result.
pub proof fn lemma_alu_flag_convention(op: AluOp, a: u8, b: u8)
    ensures
        op is Add ==> ({
            let o = alu_spec(op, a, b);
            o.sets_vf && o.val == (a + b) % 256 && (o.vf == 1 <==> a + b > 255) && (o.vf == 0
                <==> a + b <= 255)
        }),
        op is Sub ==> ({
            let o = alu_spec(op, a, b);
            o.sets_vf && o.val == (a - b + 256) % 256 && (o.vf == 1 <==> a >= b) && (o.vf == 0
                <==> a < b)
        }),
        op is SubN ==> ({
            let o = alu_spec(op, a, b);
            o.sets_vf && o.val == (b - a + 256) % 256 && (o.vf == 1 <==> b >= a) && (o.vf == 0
                <==> b < a)
        }),
        op is Shr ==> ({
            let o = alu_spec(op, a, b);
            o.sets_vf && o.val == a / 2 && o.vf == a % 2
        }),
        op is Shl ==> ({
            let o = alu_spec(op, a, b);
            o.sets_vf && o.val == (a * 2) % 256 && o.vf == a / 128
        }),
{
    assert(a >> 1 == a / 2) by (bit_vector);
    assert(a & 1 == a % 2) by (bit_vector);
    assert(a << 1 == (a * 2) % 256) by (bit_vector);
    assert(a >> 7 == a / 128) by (bit_vector);
}

/// While the machine is suspended awaiting a key and no key is pressed,
/// a cycle changes nothing at all: the wait is idempotent until the
/// keypad changes.
pub proof fn lemma_wait_unchanged(m: MachineView, r: u8)
    requires
        m.waiting is Some,
        first_pressed_from(m.keys, 0) is None,
    ensures
        step_spec(m, r) == ok_out(m),
{
}

/// Executing `Fx0A` with no key pressed suspends the machine and changes
/// nothing else; in particular the program counter stays on the waiting
/// instruction.
pub proof fn lemma_wait_key_suspends(m: MachineView, r: u8, x: u8)
    requires
        m.waiting is None,
        m.pc <= 4094,
        decode_spec(fetch_spec(m)) == (Instr::WaitKey { x }),
        first_pressed_from(m.keys, 0) is None,
    ensures
        step_spec(m, r) == ok_out(MachineView { waiting: Some(x), ..m }),
{
}

/// Once a key is pressed, a suspended machine completes the wait exactly
/// once: the smallest pressed index goes to the remembered register, the
/// program counter advances by two, and the machine runs again.
pub proof fn lemma_wait_completes(m: MachineView, r: u8, x: u8, k: u8)
    requires
        m.waiting == Some(x),
        first_pressed_from(m.keys, 0) == Some(k),
    ensures
        step_spec(m, r) == ok_out(
            MachineView { v: m.v.update(x as int, k), pc: (m.pc + 2) as u16, waiting: None, ..m },
        ),
{
}

/// A cycle never moves the timers unless the fetched instruction is one
/// of the two explicit timer writes. Together with `tick_timers`, which
/// moves each timer down by exactly one, this makes the timer rate
/// independent of how many instructions run between ticks.
pub proof fn lemma_step_preserves_timers(m: MachineView, r: u8)
    requires
        (m.waiting is None && m.pc <= 4094) ==> !(decode_spec(fetch_spec(m)) is SetDelay) && !(
        decode_spec(fetch_spec(m)) is SetSound),
    ensures
        step_spec(m, r).m.delay == m.delay,
        step_spec(m, r).m.sound == m.sound,
{
}

/// A cycle that reports an error condition leaves the machine exactly
/// as it was.
pub proof fn lemma_error_leaves_state(m: MachineView, r: u8)
    ensures
        step_spec(m, r).err is Some ==> step_spec(m, r).m == m,
{
}

/// Storing V0 through Vx at I, arbitrarily overwriting the registers,
/// then loading V0 through Vx back from the same address restores the
/// original register values exactly.
pub proof fn lemma_store_load_roundtrip(mem: Seq<u8>, v: Seq<u8>, w: Seq<u8>, i: int, x: int)
    requires
        mem.len() == 4096,
        v.len() == 16,
        w.len() == 16,
        0 <= x < 16,
        0 <= i,
        i + x <= 4095,
    ensures
        forall|j: int|
            0 <= j <= x ==> load_regs_spec(store_regs_spec(mem, v, i, x), w, i, x)[j] == v[j],
{
}

proof fn lemma_draw_row_tail_zero(disp: Seq<u8>, byte: u8, x0: int, py: int, col: int, coll: bool)
    requires
        forall|c: int| col <= c < 8 ==> sprite_bit(byte, c) == 0,
    ensures
        draw_row_spec(disp, byte, x0, py, col, coll) == (disp, coll),
    decreases 8 - col,
{
    if 0 <= col < 8 {
        lemma_draw_row_tail_zero(disp, byte, x0, py, col + 1, coll);
    }
}

proof fn lemma_bits_0x80()
    by (bit_vector)
    ensures
        forall|s: u8| s <= 6 ==> #[trigger] ((0x80u8 >> s) & 1) == 0,
        (0x80u8 >> 7u8) & 1 == 1,
{
}

proof fn lemma_bits_0xc0()
    by (bit_vector)
    ensures
        forall|s: u8| s <= 5 ==> #[trigger] ((0xC0u8 >> s) & 1) == 0,
        (0xC0u8 >> 6u8) & 1 == 1,
        (0xC0u8 >> 7u8) & 1 == 1,
{
}

/// Drawing a one-row sprite with a single set bit at a pixel that is
/// off turns it on without a collision; drawing the same sprite at the
/// same coordinates again turns the pixel back off and reports the
/// collision.
pub proof fn lemma_draw_twice_collision(disp: Seq<u8>, mem: Seq<u8>, i: int, x0: int, y0: int)
    requires
        disp.len() == 2048,
        0 <= i < 4096,
        mem[i] == 0x80,
        0 <= x0 < 64,
        0 <= y0 < 32,
        disp[y0 * 64 + x0] == 0,
    ensures
        ({
            let first = draw_rows_spec(disp, mem, i, x0, y0, 1, 0, false);
            let second = draw_rows_spec(first.0, mem, i, x0, y0, 1, 0, false);
            first.0[y0 * 64 + x0] == 1 && first.1 == false && second.0[y0 * 64 + x0] == 0
                && second.1 == true
        }),
{
    lemma_bits_0x80();
    let p = y0 * 64 + x0;
    assert(sprite_bit(0x80u8, 0) == 1);
    assert forall|c: int| 1 <= c < 8 implies sprite_bit(0x80u8, c) == 0 by {
        let s = (7 - c) as u8;
        assert(s <= 6);
        assert((0x80u8 >> s) & 1 == 0);
    }
    assert((x0 + 0) % 64 == x0);
    assert((y0 + 0) % 32 == y0);
    let d1 = disp.update(p, 1u8);
    lemma_draw_row_tail_zero(d1, 0x80u8, x0, y0, 1, false);
    assert(draw_row_spec(disp, 0x80u8, x0, y0, 0, false) == (d1, false));
    assert(draw_rows_spec(d1, mem, i, x0, y0, 1, 1, false) == (d1, false));
    assert(draw_rows_spec(disp, mem, i, x0, y0, 1, 0, false) == (d1, false));
    let d2 = d1.update(p, 0u8);
    lemma_draw_row_tail_zero(d2, 0x80u8, x0, y0, 1, true);
    assert(draw_row_spec(d1, 0x80u8, x0, y0, 0, false) == (d2, true));
    assert(draw_rows_spec(d2, mem, i, x0, y0, 1, 1, true) == (d2, true));
    assert(draw_rows_spec(d1, mem, i, x0, y0, 1, 0, false) == (d2, true));
}

/// A one-row sprite with its two leftmost bits set, drawn at the last
/// column, writes its first column at x = 63 and wraps its second column
/// to x = 0, flipping exactly those two pixels of the chosen row.
pub proof fn lemma_draw_wraparound(disp: Seq<u8>, mem: Seq<u8>, i: int, y0: int)
    requires
        disp.len() == 2048,
        0 <= i < 4096,
        mem[i] == 0xC0,
        0 <= y0 < 32,
    ensures
        ({
            let out = draw_rows_spec(disp, mem, i, 63, y0, 1, 0, false);
            out.0[y0 * 64 + 63] == (if disp[y0 * 64 + 63] == 1 { 0u8 } else { 1u8 })
                && out.0[y0 * 64] == (if disp[y0 * 64] == 1 { 0u8 } else { 1u8 }) && out.1 == (
            disp[y0 * 64 + 63] == 1 || disp[y0 * 64] == 1) && (forall|q: int|
                0 <= q < 2048 && q != y0 * 64 + 63 && q != y0 * 64 ==> out.0[q] == disp[q])
        }),
{
    lemma_bits_0xc0();
    let p0 = y0 * 64 + 63;
    let p1 = y0 * 64;
    assert(sprite_bit(0xC0u8, 0) == 1);
    assert(sprite_bit(0xC0u8, 1) == 1);
    assert forall|c: int| 2 <= c < 8 implies sprite_bit(0xC0u8, c) == 0 by {
        let s = (7 - c) as u8;
        assert(s <= 5);
        assert((0xC0u8 >> s) & 1 == 0);
    }
    assert((63 + 0) % 64 == 63);
    assert((63 + 1) % 64 == 0);
    assert((y0 + 0) % 32 == y0);
    let hit0 = disp[p0] == 1;
    let d0 = disp.update(p0, if hit0 { 0u8 } else { 1u8 });
    let hit1 = d0[p1] == 1;
    let d1 = d0.update(p1, if hit1 { 0u8 } else { 1u8 });
    lemma_draw_row_tail_zero(d1, 0xC0u8, 63, y0, 2, hit0 || hit1);
    assert(draw_row_spec(d0, 0xC0u8, 63, y0, 1, hit0) == (d1, hit0 || hit1));
    assert(draw_row_spec(disp, 0xC0u8, 63, y0, 0, false) == (d1, hit0 || hit1));
    assert(draw_rows_spec(d1, mem, i, 63, y0, 1, 1, hit0 || hit1) == (d1, hit0 || hit1));
    assert(draw_rows_spec(disp, mem, i, 63, y0, 1, 0, false) == (d1, hit0 || hit1));
    assert(d0[p1] == disp[p1]);
}

} // verus!
