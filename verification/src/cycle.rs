//! The fetch/decode/execute cycle. `step_spec` is the mathematical model
//! of one cycle: given a machine state and the byte the random source
//! would hand out, it yields the next state and the error condition, if
//! any. The executable `step` is proved to realise this model.
use crate::decode::{decode, decode_spec, AluOp, Instr};
use crate::machine::{Chippy, MachineView, Mode, StepError};
use crate::rng::random_byte;
use vstd::prelude::*;

verus! {

/// The outcome of one cycle: the next state, and the error reported, if
/// any. On an error the state is the one the cycle started from.
#[verifier::ext_equal]
pub ghost struct StepOut {
    pub m: MachineView,
    pub err: Option<StepError>,
}

/// A completed cycle without an error condition.
pub open spec fn ok_out(m: MachineView) -> StepOut {
    StepOut { m, err: None }
}

/// A cycle that reports an error and leaves the state as it was.
pub open spec fn err_out(m: MachineView, e: StepError) -> StepOut {
    StepOut { m, err: Some(e) }
}

/// The error half of a step result.
pub open spec fn err_of(r: Result<(), StepError>) -> Option<StepError> {
    match r {
        Ok(_) => None,
        Err(e) => Some(e),
    }
}

/// Advance the program counter past the instruction just executed, or
/// past the skipped one as well.
pub open spec fn bump_pc(m: MachineView, amt: u16) -> MachineView {
    MachineView { pc: (m.pc + amt) as u16, ..m }
}

/// Addition with 8-bit wraparound.
pub open spec fn wrap_add8(a: u8, b: u8) -> u8 {
    if a + b > 255 {
        (a + b - 256) as u8
    } else {
        (a + b) as u8
    }
}

/// Subtraction with 8-bit wraparound.
pub open spec fn wrap_sub8(a: u8, b: u8) -> u8 {
    if a - b < 0 {
        (a - b + 256) as u8
    } else {
        (a - b) as u8
    }
}

/// Addition with 16-bit wraparound.
pub open spec fn wrap_add16(a: u16, b: u16) -> u16 {
    if a + b > 65535 {
        (a + b - 65536) as u16
    } else {
        (a + b) as u16
    }
}

/// What a register-register operation computes from Vx and Vy: the value
/// written to Vx, the flag, and whether the flag is written at all. When
/// the flag is written it is written after the value, so for x = F the
/// flag is what remains in VF.
#[verifier::ext_equal]
pub ghost struct AluOut {
    pub val: u8,
    pub vf: u8,
    pub sets_vf: bool,
}

/// The register-register operations. The flag conventions: ADD carries,
/// SUB and SUBN report 1 exactly when no borrow occurred, the shifts
/// report the bit shifted out.
pub open spec fn alu_spec(op: AluOp, a: u8, b: u8) -> AluOut {
    match op {
        AluOp::Mov => AluOut { val: b, vf: 0, sets_vf: false },
        AluOp::Or => AluOut { val: a | b, vf: 0, sets_vf: false },
        AluOp::And => AluOut { val: a & b, vf: 0, sets_vf: false },
        AluOp::Xor => AluOut { val: a ^ b, vf: 0, sets_vf: false },
        AluOp::Add => AluOut {
            val: wrap_add8(a, b),
            vf: if a + b > 255 { 1 } else { 0 },
            sets_vf: true,
        },
        AluOp::Sub => AluOut {
            val: wrap_sub8(a, b),
            vf: if a >= b { 1 } else { 0 },
            sets_vf: true,
        },
        AluOp::Shr => AluOut { val: a >> 1, vf: a & 1, sets_vf: true },
        AluOp::SubN => AluOut {
            val: wrap_sub8(b, a),
            vf: if b >= a { 1 } else { 0 },
            sets_vf: true,
        },
        AluOp::Shl => AluOut { val: a << 1, vf: a >> 7, sets_vf: true },
    }
}

/// The smallest pressed key index at or above `k`, scanning upward.
pub open spec fn first_pressed_from(keys: Seq<bool>, k: int) -> Option<u8>
    decreases 16 - k,
{
    if k < 0 || k >= 16 {
        None
    } else if keys[k] {
        Some(k as u8)
    } else {
        first_pressed_from(keys, k + 1)
    }
}

/// Memory after storing V0 through Vx at address `i`.
pub open spec fn store_regs_spec(mem: Seq<u8>, v: Seq<u8>, i: int, x: int) -> Seq<u8> {
    Seq::new(
        mem.len(),
        |p: int|
            if i <= p <= i + x {
                v[p - i]
            } else {
                mem[p]
            },
    )
}

/// Registers after loading V0 through Vx from address `i`.
pub open spec fn load_regs_spec(mem: Seq<u8>, v: Seq<u8>, i: int, x: int) -> Seq<u8> {
    Seq::new(
        v.len(),
        |j: int|
            if 0 <= j <= x {
                mem[i + j]
            } else {
                v[j]
            },
    )
}

/// Bit `col` of a sprite row, counting the leftmost drawn bit as 0.
pub open spec fn sprite_bit(byte: u8, col: int) -> u8 {
    (byte >> ((7 - col) as u8)) & 1
}

/// Draw the bits of one sprite row from `col` onward onto display row
/// `py`, starting column `x0`, wrapping columns modulo 64; XOR semantics,
/// accumulating the collision flag.
pub open spec fn draw_row_spec(
    disp: Seq<u8>,
    byte: u8,
    x0: int,
    py: int,
    col: int,
    coll: bool,
) -> (Seq<u8>, bool)
    decreases 8 - col,
{
    if col < 0 || col >= 8 {
        (disp, coll)
    } else {
        let p = py * 64 + (x0 + col) % 64;
        if sprite_bit(byte, col) == 1 {
            let hit = disp[p] == 1;
            let d = disp.update(p, if hit { 0u8 } else { 1u8 });
            draw_row_spec(d, byte, x0, py, col + 1, coll || hit)
        } else {
            draw_row_spec(disp, byte, x0, py, col + 1, coll)
        }
    }
}

/// Draw sprite rows `row` onward: row `r` comes from memory at `i + r`
/// and lands on display row `(y0 + r) % 32`.
pub open spec fn draw_rows_spec(
    disp: Seq<u8>,
    mem: Seq<u8>,
    i: int,
    x0: int,
    y0: int,
    n: int,
    row: int,
    coll: bool,
) -> (Seq<u8>, bool)
    decreases n - row,
{
    if row < 0 || row >= n {
        (disp, coll)
    } else {
        let out = draw_row_spec(disp, mem[i + row], x0, (y0 + row) % 32, 0, coll);
        draw_rows_spec(out.0, mem, i, x0, y0, n, row + 1, out.1)
    }
}

/// The `Dxyn` instruction: origin (Vx mod 64, Vy mod 32), VF reset and
/// then set exactly when a pixel was turned off; reading a sprite row
/// past address 4095 is an error that changes nothing.
pub open spec fn draw_step_spec(m: MachineView, x: u8, y: u8, n: u8) -> StepOut {
    if n > 0 && m.i + n > 4096 {
        err_out(m, StepError::MemoryOutOfRange)
    } else {
        let x0 = (m.v[x as int] % 64) as int;
        let y0 = (m.v[y as int] % 32) as int;
        let out = draw_rows_spec(m.disp, m.mem, m.i as int, x0, y0, n as int, 0, false);
        ok_out(
            bump_pc(
                MachineView {
                    disp: out.0,
                    v: m.v.update(15, if out.1 { 1u8 } else { 0u8 }),
                    ..m
                },
                2,
            ),
        )
    }
}

/// The `Fx33` instruction: the decimal digits of Vx stored at I, I+1,
/// I+2; an address past 4095 is an error that changes nothing.
pub open spec fn bcd_step_spec(m: MachineView, x: u8) -> StepOut {
    if m.i + 2 > 4095 {
        err_out(m, StepError::MemoryOutOfRange)
    } else {
        let vx = m.v[x as int];
        ok_out(
            bump_pc(
                MachineView {
                    mem: m.mem.update(m.i as int, vx / 100).update(
                        m.i as int + 1,
                        (vx / 10) % 10,
                    ).update(m.i as int + 2, vx % 10),
                    ..m
                },
                2,
            ),
        )
    }
}

/// The `Fx55` instruction: V0 through Vx stored at I onward.
pub open spec fn store_regs_step_spec(m: MachineView, x: u8) -> StepOut {
    if m.i + x > 4095 {
        err_out(m, StepError::MemoryOutOfRange)
    } else {
        ok_out(
            bump_pc(
                MachineView { mem: store_regs_spec(m.mem, m.v, m.i as int, x as int), ..m },
                2,
            ),
        )
    }
}

/// The `Fx65` instruction: V0 through Vx loaded from I onward.
pub open spec fn load_regs_step_spec(m: MachineView, x: u8) -> StepOut {
    if m.i + x > 4095 {
        err_out(m, StepError::MemoryOutOfRange)
    } else {
        ok_out(
            bump_pc(
                MachineView { v: load_regs_spec(m.mem, m.v, m.i as int, x as int), ..m },
                2,
            ),
        )
    }
}

/// The `Fx0A` instruction executed while running: if a key is already
/// pressed its smallest index goes to Vx at once; otherwise the machine
/// suspends with the program counter still on this instruction.
pub open spec fn wait_key_step_spec(m: MachineView, x: u8) -> StepOut {
    match first_pressed_from(m.keys, 0) {
        Some(k) => ok_out(bump_pc(MachineView { v: m.v.update(x as int, k), ..m }, 2)),
        None => ok_out(MachineView { waiting: Some(x), ..m }),
    }
}

/// A suspended cycle: nothing happens until a key is pressed; then its
/// smallest index goes to the remembered register, the program counter
/// moves past the waiting instruction, and the machine runs again.
pub open spec fn wait_step_spec(m: MachineView, x: u8) -> StepOut {
    match first_pressed_from(m.keys, 0) {
        Some(k) => ok_out(
            MachineView {
                v: m.v.update(x as int, k),
                pc: (m.pc + 2) as u16,
                waiting: None,
                ..m
            },
        ),
        None => ok_out(m),
    }
}

/// The instruction word fetched big-endian at the program counter.
pub open spec fn fetch_spec(m: MachineView) -> u16 {
    ((m.mem[m.pc as int] as u16) << 8) | (m.mem[m.pc as int + 1] as u16)
}

/// One decoded instruction executed on a running machine; `r` is the
/// byte the random source hands to `Cxkk`.
pub open spec fn exec_spec(m: MachineView, op: u16, r: u8) -> StepOut {
    match decode_spec(op) {
        Instr::ClearScreen => ok_out(
            bump_pc(MachineView { disp: Seq::new(2048, |p: int| 0u8), ..m }, 2),
        ),
        Instr::Return => if m.sp == 0 {
            err_out(m, StepError::StackUnderflow)
        } else {
            ok_out(MachineView { sp: m.sp - 1, pc: m.stack[m.sp - 1], ..m })
        },
        Instr::SysIgnored => ok_out(bump_pc(m, 2)),
        Instr::Jump { nnn } => ok_out(MachineView { pc: nnn, ..m }),
        Instr::Call { nnn } => if m.sp == 16 {
            err_out(m, StepError::StackOverflow)
        } else {
            ok_out(
                MachineView {
                    stack: m.stack.update(m.sp, (m.pc + 2) as u16),
                    sp: m.sp + 1,
                    pc: nnn,
                    ..m
                },
            )
        },
        Instr::SkipEqImm { x, kk } => ok_out(
            bump_pc(m, if m.v[x as int] == kk { 4 } else { 2 }),
        ),
        Instr::SkipNeImm { x, kk } => ok_out(
            bump_pc(m, if m.v[x as int] != kk { 4 } else { 2 }),
        ),
        Instr::SkipEqReg { x, y } => ok_out(
            bump_pc(m, if m.v[x as int] == m.v[y as int] { 4 } else { 2 }),
        ),
        Instr::LoadImm { x, kk } => ok_out(
            bump_pc(MachineView { v: m.v.update(x as int, kk), ..m }, 2),
        ),
        Instr::AddImm { x, kk } => ok_out(
            bump_pc(MachineView { v: m.v.update(x as int, wrap_add8(m.v[x as int], kk)), ..m }, 2),
        ),
        Instr::Alu { x, y, op } => {
            let out = alu_spec(op, m.v[x as int], m.v[y as int]);
            let v1 = m.v.update(x as int, out.val);
            let v2 = if out.sets_vf {
                v1.update(15, out.vf)
            } else {
                v1
            };
            ok_out(bump_pc(MachineView { v: v2, ..m }, 2))
        },
        Instr::SkipNeReg { x, y } => ok_out(
            bump_pc(m, if m.v[x as int] != m.v[y as int] { 4 } else { 2 }),
        ),
        Instr::LoadIndex { nnn } => ok_out(bump_pc(MachineView { i: nnn, ..m }, 2)),
        Instr::JumpPlusV0 { nnn } => ok_out(
            MachineView { pc: (nnn + m.v[0]) as u16, ..m },
        ),
        Instr::Random { x, kk } => ok_out(
            bump_pc(MachineView { v: m.v.update(x as int, r & kk), ..m }, 2),
        ),
        Instr::Draw { x, y, n } => draw_step_spec(m, x, y, n),
        Instr::SkipKeyPressed { x } => ok_out(
            bump_pc(m, if m.keys[(m.v[x as int] & 0xF) as int] { 4 } else { 2 }),
        ),
        Instr::SkipKeyNotPressed { x } => ok_out(
            bump_pc(m, if !m.keys[(m.v[x as int] & 0xF) as int] { 4 } else { 2 }),
        ),
        Instr::ReadDelay { x } => ok_out(
            bump_pc(MachineView { v: m.v.update(x as int, m.delay), ..m }, 2),
        ),
        Instr::WaitKey { x } => wait_key_step_spec(m, x),
        Instr::SetDelay { x } => ok_out(bump_pc(MachineView { delay: m.v[x as int], ..m }, 2)),
        Instr::SetSound { x } => ok_out(bump_pc(MachineView { sound: m.v[x as int], ..m }, 2)),
        Instr::AddIndex { x } => ok_out(
            bump_pc(MachineView { i: wrap_add16(m.i, m.v[x as int] as u16), ..m }, 2),
        ),
        Instr::LoadGlyph { x } => ok_out(
            bump_pc(MachineView { i: (m.v[x as int] * 5) as u16, ..m }, 2),
        ),
        Instr::StoreBcd { x } => bcd_step_spec(m, x),
        Instr::StoreRegs { x } => store_regs_step_spec(m, x),
        Instr::LoadRegs { x } => load_regs_step_spec(m, x),
        Instr::Unknown => ok_out(bump_pc(m, 2)),
    }
}

/// One whole cycle. A suspended machine only watches the keypad; a
/// running one fetches at the program counter — an error if the word
/// would cross address 4095 — then decodes and executes.
pub open spec fn step_spec(m: MachineView, r: u8) -> StepOut {
    match m.waiting {
        Some(x) => wait_step_spec(m, x),
        None => if m.pc > 4094 {
            err_out(m, StepError::MemoryOutOfRange)
        } else {
            exec_spec(m, fetch_spec(m), r)
        },
    }
}

/// The machine stepped from `pre` to `post` reporting `e`: the outcome
/// of `step_spec` for some byte from the random source.
pub open spec fn steps_to(pre: MachineView, post: MachineView, e: Option<StepError>) -> bool {
    exists|r: u8| #[trigger] step_spec(pre, r) == (StepOut { m: post, err: e })
}

impl Chippy {
    fn first_pressed_key(&self) -> (r: Option<u8>)
        requires
            self.wf(),
        ensures
            r == first_pressed_from(self@.keys, 0),
            r is Some ==> r.unwrap() < 16,
    {
        let mut k: usize = 0;
        while k < 16
            invariant
                self.wf(),
                k <= 16,
                first_pressed_from(self@.keys, 0) == first_pressed_from(self@.keys, k as int),
            decreases 16 - k,
        {
            if self.keypad[k] {
                return Some(k as u8);
            }
            k += 1;
        }
        None
    }

    fn clear_display(&mut self)
        requires
            old(self).wf(),
        ensures
            final(self).wf(),
            final(self)@ == (MachineView { disp: Seq::new(2048, |p: int| 0u8), ..old(self)@ }),
    {
        let mut p: usize = 0;
        while p < 2048
            invariant
                p <= 2048,
                self@ == (MachineView { disp: self.display@, ..old(self)@ }),
                self.display@.len() == 2048,
                forall|q: int| 0 <= q < p ==> self.display@[q] == 0u8,
            decreases 2048 - p,
        {
            self.display.set(p, 0);
            p += 1;
        }
        proof {
            assert(self.display@ =~= Seq::new(2048, |q: int| 0u8));
            assert(self@ =~= (MachineView { disp: Seq::new(2048, |q: int| 0u8), ..old(self)@ }));
        }
    }

    fn do_bcd(&mut self, x: u8) -> (res: Result<(), StepError>)
        requires
            old(self).wf(),
            old(self)@.waiting is None,
            x < 16,
            old(self).pc <= 4094,
        ensures
            final(self).wf(),
            ({
                let out = bcd_step_spec(old(self)@, x);
                final(self)@ == out.m && err_of(res) == out.err
            }),
    {
        if self.i > 4093 {
            return Err(StepError::MemoryOutOfRange);
        }
        let vx = self.v[x as usize];
        let base = self.i as usize;
        self.memory.set(base, vx / 100);
        self.memory.set(base + 1, (vx / 10) % 10);
        self.memory.set(base + 2, vx % 10);
        self.pc = self.pc + 2;
        Ok(())
    }

    fn do_store_regs(&mut self, x: u8) -> (res: Result<(), StepError>)
        requires
            old(self).wf(),
            old(self)@.waiting is None,
            x < 16,
            old(self).pc <= 4094,
        ensures
            final(self).wf(),
            ({
                let out = store_regs_step_spec(old(self)@, x);
                final(self)@ == out.m && err_of(res) == out.err
            }),
    {
        if (self.i as usize) + (x as usize) > 4095 {
            return Err(StepError::MemoryOutOfRange);
        }
        let base = self.i as usize;
        let mut j: usize = 0;
        while j <= x as usize
            invariant
                old(self).wf(),
                x < 16,
                j <= x as usize + 1,
                base == old(self)@.i,
                base + x <= 4095,
                self@ == (MachineView { mem: self.memory@, ..old(self)@ }),
                self.memory@.len() == 4096,
                forall|p: int| base <= p < base + j ==> self.memory@[p] == old(self)@.v[p - base],
                forall|p: int|
                    0 <= p < 4096 && !(base <= p < base + j) ==> self.memory@[p] == old(
                        self,
                    )@.mem[p],
            decreases x as usize + 1 - j,
        {
            self.memory.set(base + j, self.v[j]);
            j += 1;
        }
        self.pc = self.pc + 2;
        proof {
            assert(self.memory@ =~= store_regs_spec(
                old(self)@.mem,
                old(self)@.v,
                old(self)@.i as int,
                x as int,
            ));
        }
        Ok(())
    }

    fn do_load_regs(&mut self, x: u8) -> (res: Result<(), StepError>)
        requires
            old(self).wf(),
            old(self)@.waiting is None,
            x < 16,
            old(self).pc <= 4094,
        ensures
            final(self).wf(),
            ({
                let out = load_regs_step_spec(old(self)@, x);
                final(self)@ == out.m && err_of(res) == out.err
            }),
    {
        if (self.i as usize) + (x as usize) > 4095 {
            return Err(StepError::MemoryOutOfRange);
        }
        let base = self.i as usize;
        let mut j: usize = 0;
        while j <= x as usize
            invariant
                old(self).wf(),
                x < 16,
                j <= x as usize + 1,
                base == old(self)@.i,
                base + x <= 4095,
                self@ == (MachineView { v: self.v@, ..old(self)@ }),
                self.v@.len() == 16,
                forall|q: int| 0 <= q < j ==> self.v@[q] == old(self)@.mem[base + q],
                forall|q: int| j <= q < 16 ==> self.v@[q] == old(self)@.v[q],
            decreases x as usize + 1 - j,
        {
            let b = self.memory[base + j];
            self.v.set(j, b);
            j += 1;
        }
        self.pc = self.pc + 2;
        proof {
            assert(self.v@ =~= load_regs_spec(
                old(self)@.mem,
                old(self)@.v,
                old(self)@.i as int,
                x as int,
            ));
        }
        Ok(())
    }

    fn do_draw(&mut self, x: u8, y: u8, n: u8) -> (res: Result<(), StepError>)
        requires
            old(self).wf(),
            old(self)@.waiting is None,
            x < 16,
            y < 16,
            n < 16,
            old(self).pc <= 4094,
        ensures
            final(self).wf(),
            ({
                let out = draw_step_spec(old(self)@, x, y, n);
                final(self)@ == out.m && err_of(res) == out.err
            }),
    {
        if n > 0 && (self.i as usize) > 4096 - (n as usize) {
            return Err(StepError::MemoryOutOfRange);
        }
        let x0: usize = (self.v[x as usize] % 64) as usize;
        let y0: usize = (self.v[y as usize] % 32) as usize;
        let mut collided: bool = false;
        let mut row: usize = 0;
        while row < n as usize
            invariant
                old(self).wf(),
                x < 16,
                y < 16,
                n < 16,
                row <= n as usize,
                n > 0 ==> old(self)@.i + n <= 4096,
                x0 == old(self)@.v[x as int] % 64,
                y0 == old(self)@.v[y as int] % 32,
                self@ == (MachineView { disp: self.display@, ..old(self)@ }),
                self.display@.len() == 2048,
                forall|q: int| 0 <= q < 2048 ==> self.display@[q] == 0 || self.display@[q] == 1,
                draw_rows_spec(
                    self.display@,
                    old(self)@.mem,
                    old(self)@.i as int,
                    x0 as int,
                    y0 as int,
                    n as int,
                    row as int,
                    collided,
                ) == draw_rows_spec(
                    old(self)@.disp,
                    old(self)@.mem,
                    old(self)@.i as int,
                    x0 as int,
                    y0 as int,
                    n as int,
                    0,
                    false,
                ),
            decreases n as usize - row,
        {
            let byte = self.memory[(self.i as usize) + row];
            let py: usize = (y0 + row) % 32;
            let ghost d_row = self.display@;
            let ghost c_row = collided;
            let mut col: usize = 0;
            while col < 8
                invariant
                    col <= 8,
                    x0 < 64,
                    py < 32,
                    self@ == (MachineView { disp: self.display@, ..old(self)@ }),
                    self.display@.len() == 2048,
                    forall|q: int|
                        0 <= q < 2048 ==> self.display@[q] == 0 || self.display@[q] == 1,
                    draw_row_spec(
                        self.display@,
                        byte,
                        x0 as int,
                        py as int,
                        col as int,
                        collided,
                    ) == draw_row_spec(d_row, byte, x0 as int, py as int, 0, c_row),
                decreases 8 - col,
            {
                let ghost d_prev = self.display@;
                let ghost c_prev = collided;
                let bit = (byte >> ((7 - col) as u8)) & 1;
                if bit == 1 {
                    let idx = py * 64 + (x0 + col) % 64;
                    let cur = self.display[idx];
                    if cur == 1 {
                        self.display.set(idx, 0);
                        collided = true;
                    } else {
                        self.display.set(idx, 1);
                    }
                }
                proof {
                    assert(sprite_bit(byte, col as int) == bit);
                    assert(draw_row_spec(d_prev, byte, x0 as int, py as int, col as int, c_prev)
                        == draw_row_spec(
                        self.display@,
                        byte,
                        x0 as int,
                        py as int,
                        col as int + 1,
                        collided,
                    ));
                }
                col += 1;
            }
            proof {
                assert(draw_rows_spec(
                    d_row,
                    old(self)@.mem,
                    old(self)@.i as int,
                    x0 as int,
                    y0 as int,
                    n as int,
                    row as int,
                    c_row,
                ) == draw_rows_spec(
                    self.display@,
                    old(self)@.mem,
                    old(self)@.i as int,
                    x0 as int,
                    y0 as int,
                    n as int,
                    row as int + 1,
                    collided,
                ));
            }
            row += 1;
        }
        self.v.set(15, if collided { 1 } else { 0 });
        self.pc = self.pc + 2;
        Ok(())
    }

    #[verifier::rlimit(60)]
    fn dispatch(&mut self, op: u16) -> (res: Result<(), StepError>)
        requires
            old(self).wf(),
            old(self)@.waiting is None,
            old(self).pc <= 4094,
        ensures
            final(self).wf(),
            exists|r: u8|
                #[trigger] exec_spec(old(self)@, op, r) == (StepOut {
                    m: final(self)@,
                    err: err_of(res),
                }),
    {
        let instr = decode(op);
        match instr {
            Instr::ClearScreen => {
                self.clear_display();
                self.pc = self.pc + 2;
                proof {
                    assert(exec_spec(old(self)@, op, 0) =~~= (StepOut { m: self@, err: None }));
                }
                Ok(())
            },
            Instr::Return => {
                if self.sp == 0 {
                    proof {
                        assert(exec_spec(old(self)@, op, 0) =~~= (StepOut {
                            m: self@,
                            err: Some(StepError::StackUnderflow),
                        }));
                    }
                    Err(StepError::StackUnderflow)
                } else {
                    self.sp = self.sp - 1;
                    self.pc = self.stack[self.sp];
                    proof {
                        assert(exec_spec(old(self)@, op, 0) =~~= (StepOut {
                            m: self@,
                            err: None,
                        }));
                    }
                    Ok(())
                }
            },
            Instr::SysIgnored => {
                self.pc = self.pc + 2;
                proof {
                    assert(exec_spec(old(self)@, op, 0) =~~= (StepOut { m: self@, err: None }));
                }
                Ok(())
            },
            Instr::Jump { nnn } => {
                self.pc = nnn;
                proof {
                    assert(exec_spec(old(self)@, op, 0) =~~= (StepOut { m: self@, err: None }));
                }
                Ok(())
            },
            Instr::Call { nnn } => {
                if self.sp == 16 {
                    proof {
                        assert(exec_spec(old(self)@, op, 0) =~~= (StepOut {
                            m: self@,
                            err: Some(StepError::StackOverflow),
                        }));
                    }
                    Err(StepError::StackOverflow)
                } else {
                    let ret = self.pc + 2;
                    self.stack.set(self.sp, ret);
                    self.sp = self.sp + 1;
                    self.pc = nnn;
                    proof {
                        assert(exec_spec(old(self)@, op, 0) =~~= (StepOut {
                            m: self@,
                            err: None,
                        }));
                    }
                    Ok(())
                }
            },
            Instr::SkipEqImm { x, kk } => {
                let amt: u16 = if self.v[x as usize] == kk {
                    4
                } else {
                    2
                };
                self.pc = self.pc + amt;
                proof {
                    assert(exec_spec(old(self)@, op, 0) =~~= (StepOut { m: self@, err: None }));
                }
                Ok(())
            },
            Instr::SkipNeImm { x, kk } => {
                let amt: u16 = if self.v[x as usize] != kk {
                    4
                } else {
                    2
                };
                self.pc = self.pc + amt;
                proof {
                    assert(exec_spec(old(self)@, op, 0) =~~= (StepOut { m: self@, err: None }));
                }
                Ok(())
            },
            Instr::SkipEqReg { x, y } => {
                let amt: u16 = if self.v[x as usize] == self.v[y as usize] {
                    4
                } else {
                    2
                };
                self.pc = self.pc + amt;
                proof {
                    assert(exec_spec(old(self)@, op, 0) =~~= (StepOut { m: self@, err: None }));
                }
                Ok(())
            },
            Instr::SkipNeReg { x, y } => {
                let amt: u16 = if self.v[x as usize] != self.v[y as usize] {
                    4
                } else {
                    2
                };
                self.pc = self.pc + amt;
                proof {
                    assert(exec_spec(old(self)@, op, 0) =~~= (StepOut { m: self@, err: None }));
                }
                Ok(())
            },
            Instr::LoadImm { x, kk } => {
                self.v.set(x as usize, kk);
                self.pc = self.pc + 2;
                proof {
                    assert(exec_spec(old(self)@, op, 0) =~~= (StepOut { m: self@, err: None }));
                }
                Ok(())
            },
            Instr::AddImm { x, kk } => {
                let a = self.v[x as usize];
                self.v.set(x as usize, a.wrapping_add(kk));
                self.pc = self.pc + 2;
                proof {
                    assert(exec_spec(old(self)@, op, 0) =~~= (StepOut { m: self@, err: None }));
                }
                Ok(())
            },
            Instr::Alu { x, y, op: aluop } => {
                let a = self.v[x as usize];
                let b = self.v[y as usize];
                match aluop {
                    AluOp::Mov => {
                        self.v.set(x as usize, b);
                    },
                    AluOp::Or => {
                        self.v.set(x as usize, a | b);
                    },
                    AluOp::And => {
                        self.v.set(x as usize, a & b);
                    },
                    AluOp::Xor => {
                        self.v.set(x as usize, a ^ b);
                    },
                    AluOp::Add => {
                        let sum: u16 = a as u16 + b as u16;
                        self.v.set(x as usize, a.wrapping_add(b));
                        self.v.set(
                            15,
                            if sum > 255 {
                                1
                            } else {
                                0
                            },
                        );
                    },
                    AluOp::Sub => {
                        self.v.set(x as usize, a.wrapping_sub(b));
                        self.v.set(
                            15,
                            if a >= b {
                                1
                            } else {
                                0
                            },
                        );
                    },
                    AluOp::Shr => {
                        self.v.set(x as usize, a >> 1);
                        self.v.set(15, a & 1);
                    },
                    AluOp::SubN => {
                        self.v.set(x as usize, b.wrapping_sub(a));
                        self.v.set(
                            15,
                            if b >= a {
                                1
                            } else {
                                0
                            },
                        );
                    },
                    AluOp::Shl => {
                        self.v.set(x as usize, a << 1);
                        self.v.set(15, a >> 7);
                    },
                }
                self.pc = self.pc + 2;
                proof {
                    assert(exec_spec(old(self)@, op, 0) =~~= (StepOut { m: self@, err: None }));
                }
                Ok(())
            },
            Instr::LoadIndex { nnn } => {
                self.i = nnn;
                self.pc = self.pc + 2;
                proof {
                    assert(exec_spec(old(self)@, op, 0) =~~= (StepOut { m: self@, err: None }));
                }
                Ok(())
            },
            Instr::JumpPlusV0 { nnn } => {
                self.pc = nnn + (self.v[0] as u16);
                proof {
                    assert(exec_spec(old(self)@, op, 0) =~~= (StepOut { m: self@, err: None }));
                }
                Ok(())
            },
            Instr::Random { x, kk } => {
                let rb = random_byte();
                self.v.set(x as usize, rb & kk);
                self.pc = self.pc + 2;
                proof {
                    assert(exec_spec(old(self)@, op, rb) =~~= (StepOut { m: self@, err: None }));
                }
                Ok(())
            },
            Instr::Draw { x, y, n } => {
                let res = self.do_draw(x, y, n);
                proof {
                    assert(exec_spec(old(self)@, op, 0) =~~= (StepOut {
                        m: self@,
                        err: err_of(res),
                    }));
                }
                res
            },
            Instr::SkipKeyPressed { x } => {
                let vx = self.v[x as usize];
                proof {
                    assert(vx & 0xF < 16) by (bit_vector);
                }
                let amt: u16 = if self.keypad[(vx & 0xF) as usize] {
                    4
                } else {
                    2
                };
                self.pc = self.pc + amt;
                proof {
                    assert(exec_spec(old(self)@, op, 0) =~~= (StepOut { m: self@, err: None }));
                }
                Ok(())
            },
            Instr::SkipKeyNotPressed { x } => {
                let vx = self.v[x as usize];
                proof {
                    assert(vx & 0xF < 16) by (bit_vector);
                }
                let amt: u16 = if !self.keypad[(vx & 0xF) as usize] {
                    4
                } else {
                    2
                };
                self.pc = self.pc + amt;
                proof {
                    assert(exec_spec(old(self)@, op, 0) =~~= (StepOut { m: self@, err: None }));
                }
                Ok(())
            },
            Instr::ReadDelay { x } => {
                let t = self.delay_timer;
                self.v.set(x as usize, t);
                self.pc = self.pc + 2;
                proof {
                    assert(exec_spec(old(self)@, op, 0) =~~= (StepOut { m: self@, err: None }));
                }
                Ok(())
            },
            Instr::WaitKey { x } => {
                let pressed = self.first_pressed_key();
                match pressed {
                    Some(k) => {
                        self.v.set(x as usize, k);
                        self.pc = self.pc + 2;
                    },
                    None => {
                        self.mode = Mode::AwaitingKey { target: x };
                    },
                }
                proof {
                    assert(exec_spec(old(self)@, op, 0) =~~= (StepOut { m: self@, err: None }));
                }
                Ok(())
            },
            Instr::SetDelay { x } => {
                self.delay_timer = self.v[x as usize];
                self.pc = self.pc + 2;
                proof {
                    assert(exec_spec(old(self)@, op, 0) =~~= (StepOut { m: self@, err: None }));
                }
                Ok(())
            },
            Instr::SetSound { x } => {
                self.sound_timer = self.v[x as usize];
                self.pc = self.pc + 2;
                proof {
                    assert(exec_spec(old(self)@, op, 0) =~~= (StepOut { m: self@, err: None }));
                }
                Ok(())
            },
            Instr::AddIndex { x } => {
                let vx = self.v[x as usize];
                self.i = self.i.wrapping_add(vx as u16);
                self.pc = self.pc + 2;
                proof {
                    assert(exec_spec(old(self)@, op, 0) =~~= (StepOut { m: self@, err: None }));
                }
                Ok(())
            },
            Instr::LoadGlyph { x } => {
                self.i = (self.v[x as usize] as u16) * 5;
                self.pc = self.pc + 2;
                proof {
                    assert(exec_spec(old(self)@, op, 0) =~~= (StepOut { m: self@, err: None }));
                }
                Ok(())
            },
            Instr::StoreBcd { x } => {
                let res = self.do_bcd(x);
                proof {
                    assert(exec_spec(old(self)@, op, 0) =~~= (StepOut {
                        m: self@,
                        err: err_of(res),
                    }));
                }
                res
            },
            Instr::StoreRegs { x } => {
                let res = self.do_store_regs(x);
                proof {
                    assert(exec_spec(old(self)@, op, 0) =~~= (StepOut {
                        m: self@,
                        err: err_of(res),
                    }));
                }
                res
            },
            Instr::LoadRegs { x } => {
                let res = self.do_load_regs(x);
                proof {
                    assert(exec_spec(old(self)@, op, 0) =~~= (StepOut {
                        m: self@,
                        err: err_of(res),
                    }));
                }
                res
            },
            Instr::Unknown => {
                self.pc = self.pc + 2;
                proof {
                    assert(exec_spec(old(self)@, op, 0) =~~= (StepOut { m: self@, err: None }));
                }
                Ok(())
            },
        }
    }

    /// One fetch/decode/execute cycle, or — on a machine suspended by
    /// `Fx0A` — one scan of the keypad. The outcome is exactly
    /// `step_spec` of the starting state for some byte of the random
    /// source; the timers are never touched.
    pub fn step(&mut self) -> (res: Result<(), StepError>)
        requires
            old(self).wf(),
        ensures
            final(self).wf(),
            steps_to(old(self)@, final(self)@, err_of(res)),
    {
        match self.mode {
            Mode::AwaitingKey { target } => {
                let pressed = self.first_pressed_key();
                match pressed {
                    Some(k) => {
                        self.v.set(target as usize, k);
                        self.pc = self.pc + 2;
                        self.mode = Mode::Running;
                    },
                    None => {},
                }
                proof {
                    assert(step_spec(old(self)@, 0) =~~= (StepOut { m: self@, err: None }));
                }
                Ok(())
            },
            Mode::Running => {
                if self.pc > 4094 {
                    proof {
                        assert(step_spec(old(self)@, 0) =~~= (StepOut {
                            m: self@,
                            err: Some(StepError::MemoryOutOfRange),
                        }));
                    }
                    return Err(StepError::MemoryOutOfRange);
                }
                let hi = self.memory[self.pc as usize];
                let lo = self.memory[(self.pc + 1) as usize];
                let op: u16 = ((hi as u16) << 8) | (lo as u16);
                let res = self.dispatch(op);
                proof {
                    assert(op == fetch_spec(old(self)@));
                    let r = choose|r: u8|
                        #[trigger] exec_spec(old(self)@, op, r) == (StepOut {
                            m: self@,
                            err: err_of(res),
                        });
                    assert(step_spec(old(self)@, r) == (StepOut { m: self@, err: err_of(res) }));
                }
                res
            },
        }
    }
}

} // verus!
