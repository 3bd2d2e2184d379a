use vstd::prelude::*;
use crate::consts::{FLAG_REGISTER, NUM_KEYS, NUM_REGISTERS, PROGRAM_START, RAM_SIZE, STACK_SIZE};
use crate::keyboard::{key_held, Keyboard};
use crate::memory::{ram_index, Memory};
use vstd::arithmetic::div_mod::{lemma_fundamental_div_mod, lemma_fundamental_div_mod_converse, lemma_mod_multiples_vanish, lemma_small_mod};

verus! {

/// Register file, program counter, index register, call stack and timers.
pub struct Processor {
    pub reg: Vec<u8>,
    pub sp: u16,
    pub pc: u16,
    pub i_reg: u16,
    pub stack: Vec<u16>,
    pub dt: u8,
    pub st: u8,
}

/// Why an instruction was refused. A refused instruction changes nothing.
#[derive(Debug, Clone, Copy, PartialEq, Eq, Structural)]
pub enum Fault {
    /// The word encodes no instruction of the set.
    UnknownInstruction,
    /// A call with all 16 stack entries in use.
    StackOverflow,
    /// A return with an empty call stack.
    StackUnderflow,
    /// A multi-byte store or load that would run past the end of memory.
    AddressOutOfRange,
}

/// Address `a` advanced by `k` bytes in the 16-bit address space.
pub open spec fn addr_plus(a: u16, k: int) -> u16 {
    ((a + k) % 0x10000) as u16
}

/// Whether a register-versus-literal skip (op 3: equal, op 4: not equal) is taken.
pub open spec fn skip_nn_taken(op: u16, vx: u8, nn: u8) -> bool {
    if op == 3 { vx == nn } else { vx != nn }
}

/// Whether a register-versus-register skip (op 5: equal, op 9: not equal) is taken.
pub open spec fn skip_xy_taken(op: u16, vx: u8, vy: u8) -> bool {
    if op == 5 { vx == vy } else { vx != vy }
}

/// The sub-selectors of the register arithmetic family.
pub open spec fn is_alu_selector(n: u8) -> bool {
    n <= 7 || n == 0xE
}

/// The registers after register arithmetic `n` on registers `x` and `y`.
///
/// Where a flag is produced it is written after the result, so with `x` equal
/// to the flag register the flag is what remains. Shifts act on register `x`.
pub open spec fn alu_regs(regs: Seq<u8>, x: int, y: int, n: u8) -> Seq<u8> {
    let vx = regs[x];
    let vy = regs[y];
    let f = FLAG_REGISTER as int;
    if n == 0 {
        regs.update(x, vy)
    } else if n == 1 {
        regs.update(x, vx | vy)
    } else if n == 2 {
        regs.update(x, vx & vy)
    } else if n == 3 {
        regs.update(x, vx ^ vy)
    } else if n == 4 {
        regs.update(x, ((vx + vy) % 256) as u8).update(f, if vx + vy > 255 { 1u8 } else { 0u8 })
    } else if n == 5 {
        regs.update(x, ((vx - vy) % 256) as u8).update(f, if vx < vy { 1u8 } else { 0u8 })
    } else if n == 6 {
        regs.update(x, (vx / 2) as u8).update(f, (vx % 2) as u8)
    } else if n == 7 {
        regs.update(x, ((vy - vx) % 256) as u8).update(f, if vy < vx { 1u8 } else { 0u8 })
    } else {
        regs.update(x, ((vx * 2) % 256) as u8).update(f, (vx / 128) as u8)
    }
}

/// Whether `k` is the highest-numbered held key.
pub open spec fn highest_held(keys: Seq<bool>, k: int) -> bool {
    0 <= k < NUM_KEYS && keys[k] && forall|j: int| k < j < NUM_KEYS ==> !keys[j]
}

/// Memory after storing the decimal digits of `v` at `i`, `i + 1`, `i + 2`.
pub open spec fn digits_stored(ram: Seq<u8>, i: int, v: u8) -> Seq<u8> {
    ram.update(i, v / 100).update(i + 1, (v / 10) % 10).update(i + 2, v % 10)
}

/// Memory after storing registers `0..=x` from address `i` on.
pub open spec fn regs_dumped(ram: Seq<u8>, regs: Seq<u8>, i: int, x: int) -> Seq<u8> {
    Seq::new(ram.len(), |j: int| if i <= j <= i + x { regs[j - i] } else { ram[j] })
}

/// Registers after loading registers `0..=x` from address `i` on.
pub open spec fn regs_loaded(regs: Seq<u8>, ram: Seq<u8>, i: int, x: int) -> Seq<u8> {
    Seq::new(regs.len(), |j: int| if 0 <= j <= x { ram[i + j] } else { regs[j] })
}

/// The sub-selectors of the timer, index and memory family.
pub open spec fn is_timer_selector(nn: u8) -> bool {
    nn == 0x07 || nn == 0x0A || nn == 0x15 || nn == 0x18 || nn == 0x1E || nn == 0x29
        || nn == 0x33 || nn == 0x55 || nn == 0x65
}

/// Whether column `col` (0 the leftmost) of a sprite row is set: rows are
/// read most significant bit first.
pub open spec fn sprite_bit(row_byte: u8, col: int) -> bool {
    (row_byte >> ((7 - col) as u8)) & 1u8 == 1u8
}

/// The byte of sprite row `row`: memory at the index register `i` plus `row`.
pub open spec fn sprite_row(ram: Seq<u8>, i: u16, row: int) -> u8 {
    ram[ram_index(addr_plus(i, row))]
}

/// Whether a sprite of `n` rows at `(vx, vy)` covers cell `(cx, cy)`.
/// Coordinates wrap, so the cell lies at column `(cx - vx) mod 64` and row
/// `(cy - vy) mod 32` of the sprite.
pub open spec fn sprite_covers(ram: Seq<u8>, i: u16, vx: u8, vy: u8, n: u8, cx: int, cy: int) -> bool {
    let col = (cx - vx) % 64;
    let row = (cy - vy) % 32;
    col < 8 && row < n && sprite_bit(sprite_row(ram, i, row), col)
}

/// Whether the sprite covers a cell of `vram` that is already set.
pub open spec fn sprite_collides(ram: Seq<u8>, vram: Seq<bool>, i: u16, vx: u8, vy: u8, n: u8) -> bool {
    exists|cx: int, cy: int|
        0 <= cx < 64 && 0 <= cy < 32 && #[trigger] sprite_covers(ram, i, vx, vy, n, cx, cy) && vram[cx + 64 * cy]
}

/// Whether cell `(cx, cy)` is covered by a sprite bit drawn before row `r`,
/// column `k`.
spec fn drawn_before(ram: Seq<u8>, i: u16, vx: u8, vy: u8, n: u8, cx: int, cy: int, r: int, k: int) -> bool {
    sprite_covers(ram, i, vx, vy, n, cx, cy) && ((cy - vy) % 32 < r || ((cy - vy) % 32 == r && (cx - vx) % 64 < k))
}

/// Whether a cell drawn before row `r`, column `k` was already set.
spec fn collided_before(ram: Seq<u8>, vram: Seq<bool>, i: u16, vx: u8, vy: u8, n: u8, r: int, k: int) -> bool {
    exists|cx: int, cy: int|
        0 <= cx < 64 && 0 <= cy < 32 && #[trigger] drawn_before(ram, i, vx, vy, n, cx, cy, r, k) && vram[cx + 64 * cy]
}

/// Collisions so far agree wherever the cells drawn so far agree.
proof fn lemma_collided_same(ram: Seq<u8>, vram: Seq<bool>, i: u16, vx: u8, vy: u8, n: u8, r1: int, k1: int, r2: int, k2: int)
    requires
        forall|cx: int, cy: int| 0 <= cx < 64 && 0 <= cy < 32 ==>
            drawn_before(ram, i, vx, vy, n, cx, cy, r1, k1) == drawn_before(ram, i, vx, vy, n, cx, cy, r2, k2),
    ensures
        collided_before(ram, vram, i, vx, vy, n, r1, k1) == collided_before(ram, vram, i, vx, vy, n, r2, k2),
{
    if collided_before(ram, vram, i, vx, vy, n, r1, k1) {
        let (cx, cy) = choose|cx: int, cy: int|
            0 <= cx < 64 && 0 <= cy < 32 && #[trigger] drawn_before(ram, i, vx, vy, n, cx, cy, r1, k1) && vram[cx + 64 * cy];
        assert(drawn_before(ram, i, vx, vy, n, cx, cy, r2, k2));
    }
    if collided_before(ram, vram, i, vx, vy, n, r2, k2) {
        let (cx, cy) = choose|cx: int, cy: int|
            0 <= cx < 64 && 0 <= cy < 32 && #[trigger] drawn_before(ram, i, vx, vy, n, cx, cy, r2, k2) && vram[cx + 64 * cy];
        assert(drawn_before(ram, i, vx, vy, n, cx, cy, r1, k1));
    }
}

/// A cell `c` lies `k` steps past `v` around a ring of `m` exactly when it is `(v + k) mod m`.
proof fn lemma_wrap_offset(c: int, v: int, k: int, m: int)
    requires
        0 < m,
        0 <= c < m,
        0 <= k < m,
    ensures
        ((c - v) % m == k) <==> c == (v + k) % m,
{
    lemma_fundamental_div_mod(v + k, m);
    let q = (v + k) / m;
    assert(((v + k) % m - v) == m * (-q) + k) by (nonlinear_arith)
        requires
            v + k == m * q + (v + k) % m,
    ;
    lemma_mod_multiples_vanish(-q, k, m);
    lemma_small_mod(k as nat, m as nat);
    lemma_fundamental_div_mod(c - v, m);
    let p = (c - v) / m;
    if (c - v) % m == k {
        assert(v + k == m * (-p) + c) by (nonlinear_arith)
            requires
                c - v == m * p + k,
        ;
        lemma_mod_multiples_vanish(-p, c, m);
        lemma_small_mod(c as nat, m as nat);
    }
}

/// A cell's row-major index gives back its column and row.
proof fn lemma_cell(cx: int, cy: int)
    requires
        0 <= cx < 64,
        0 <= cy < 32,
    ensures
        0 <= cx + 64 * cy < 2048,
        (cx + 64 * cy) % 64 == cx,
        (cx + 64 * cy) / 64 == cy,
{
    lemma_fundamental_div_mod_converse(cx + 64 * cy, 64, cy, cx);
}

/// Relies on rand::random for u8: a byte drawn from the thread-local generator.
/// Nothing is known of its value.
#[verifier::external_body]
pub(crate) fn random_byte() -> (r: u8) {
    rand::random::<u8>()
}

impl Processor {
    /// Sixteen registers, sixteen stack slots, at most sixteen of them in use.
    pub open spec fn wf(&self) -> bool {
        self.reg@.len() == NUM_REGISTERS && self.stack@.len() == STACK_SIZE && self.sp <= STACK_SIZE
    }

    /// Everything but the registers is as in `o`.
    pub open spec fn same_but_regs(&self, o: &Processor) -> bool {
        self.sp == o.sp && self.pc == o.pc && self.i_reg == o.i_reg && self.stack@ == o.stack@
            && self.dt == o.dt && self.st == o.st
    }

    /// Everything but the program counter is as in `o`.
    pub open spec fn same_but_pc(&self, o: &Processor) -> bool {
        self.reg@ == o.reg@ && self.sp == o.sp && self.i_reg == o.i_reg && self.stack@ == o.stack@
            && self.dt == o.dt && self.st == o.st
    }

    /// Everything but the registers and the program counter is as in `o`.
    pub open spec fn same_but_regs_pc(&self, o: &Processor) -> bool {
        self.sp == o.sp && self.i_reg == o.i_reg && self.stack@ == o.stack@ && self.dt == o.dt && self.st == o.st
    }

    /// Everything is as in `o`.
    pub open spec fn same(&self, o: &Processor) -> bool {
        self.same_but_pc(o) && self.pc == o.pc
    }

    /// Zeroed registers, stack and timers, with the program counter at the
    /// program origin.
    pub fn new() -> (p: Self)
        ensures
            p.wf(),
            forall|i: int| 0 <= i < NUM_REGISTERS ==> p.reg@[i] == 0,
            forall|i: int| 0 <= i < STACK_SIZE ==> p.stack@[i] == 0,
            p.sp == 0,
            p.pc == PROGRAM_START,
            p.i_reg == 0,
            p.dt == 0,
            p.st == 0,
    {
        Processor {
            reg: vec![0u8; NUM_REGISTERS],
            sp: 0,
            pc: PROGRAM_START,
            i_reg: 0,
            stack: vec![0u16; STACK_SIZE],
            dt: 0,
            st: 0,
        }
    }

    /// Moves past one instruction.
    pub fn increment_pc(&mut self)
        ensures
            final(self).pc == addr_plus(old(self).pc, 2),
            final(self).same_but_pc(old(self)),
    {
        self.pc = self.pc.wrapping_add(2);
    }

    /// Moves past two instructions.
    pub fn skip_instruction(&mut self)
        ensures
            final(self).pc == addr_plus(old(self).pc, 4),
            final(self).same_but_pc(old(self)),
    {
        self.pc = self.pc.wrapping_add(4);
    }

    /// Returns from a subroutine: pops the call stack into the program counter.
    pub fn ret(&mut self) -> (r: Result<(), Fault>)
        requires
            old(self).wf(),
        ensures
            final(self).wf(),
            r is Err <==> old(self).sp == 0,
            r is Err ==> r == Err::<(), Fault>(Fault::StackUnderflow) && final(self).same(old(self)),
            r is Ok ==> final(self).sp == old(self).sp - 1
                && final(self).pc == old(self).stack@[old(self).sp - 1]
                && final(self).reg@ == old(self).reg@ && final(self).i_reg == old(self).i_reg
                && final(self).stack@ == old(self).stack@ && final(self).dt == old(self).dt
                && final(self).st == old(self).st,
    {
        if self.sp == 0 {
            return Err(Fault::StackUnderflow);
        }
        self.sp = self.sp - 1;
        self.pc = self.stack[self.sp as usize];
        Ok(())
    }

    /// Framebuffer and return family, selected by the low nibble `n`:
    /// 0 clears the framebuffer and toggles its changed signal, 0xE returns
    /// from a subroutine.
    pub fn display_op(&mut self, n: u8, mem: &mut Memory) -> (r: Result<(), Fault>)
        requires
            old(self).wf(),
            old(mem).wf(),
        ensures
            final(self).wf(),
            final(mem).wf(),
            n == 0 ==> r is Ok && final(self).same(old(self))
                && (forall|i: int| 0 <= i < final(mem).vram@.len() ==> !final(mem).vram@[i])
                && final(mem).vram_modified == !old(mem).vram_modified
                && final(mem).ram@ == old(mem).ram@
                && final(mem).audio_enabled == old(mem).audio_enabled,
            n == 0xE ==> *final(mem) == *old(mem) && (r is Err <==> old(self).sp == 0)
                && (r is Err ==> r == Err::<(), Fault>(Fault::StackUnderflow) && final(self).same(old(self)))
                && (r is Ok ==> final(self).sp == old(self).sp - 1
                    && final(self).pc == old(self).stack@[old(self).sp - 1]
                    && final(self).reg@ == old(self).reg@ && final(self).i_reg == old(self).i_reg
                    && final(self).stack@ == old(self).stack@
                    && final(self).dt == old(self).dt && final(self).st == old(self).st),
            n != 0 && n != 0xE ==> r == Err::<(), Fault>(Fault::UnknownInstruction)
                && final(self).same(old(self)) && *final(mem) == *old(mem),
    {
        if n == 0 {
            mem.clear_vram();
            mem.toggle_vram_mod();
            Ok(())
        } else if n == 0xE {
            self.ret()
        } else {
            Err(Fault::UnknownInstruction)
        }
    }

    /// Jumps to `addr`.
    pub fn jump_to_addr(&mut self, addr: u16)
        ensures
            final(self).pc == addr,
            final(self).same_but_pc(old(self)),
    {
        self.pc = addr;
    }

    /// Calls the subroutine at `addr`: pushes the program counter and jumps.
    /// With the stack full the call is refused.
    pub fn call(&mut self, addr: u16) -> (r: Result<(), Fault>)
        requires
            old(self).wf(),
        ensures
            final(self).wf(),
            r is Err <==> old(self).sp == STACK_SIZE,
            r is Err ==> r == Err::<(), Fault>(Fault::StackOverflow) && final(self).same(old(self)),
            r is Ok ==> final(self).sp == old(self).sp + 1
                && final(self).stack@ == old(self).stack@.update(old(self).sp as int, old(self).pc)
                && final(self).pc == addr
                && final(self).reg@ == old(self).reg@ && final(self).i_reg == old(self).i_reg
                && final(self).dt == old(self).dt && final(self).st == old(self).st,
    {
        if self.sp as usize == STACK_SIZE {
            return Err(Fault::StackOverflow);
        }
        self.stack.set(self.sp as usize, self.pc);
        self.sp = self.sp + 1;
        self.pc = addr;
        Ok(())
    }

    /// Skips the next instruction when register `x` equals `nn` (op 3) or
    /// differs from it (op 4); other ops are refused.
    pub fn skip_execution(&mut self, op: u16, x: u8, nn: u8) -> (r: Result<(), Fault>)
        requires
            old(self).wf(),
            x < NUM_REGISTERS,
        ensures
            final(self).wf(),
            final(self).same_but_pc(old(self)),
            r is Ok <==> op == 3 || op == 4,
            r is Err ==> r == Err::<(), Fault>(Fault::UnknownInstruction) && final(self).pc == old(self).pc,
            r is Ok ==> final(self).pc == if skip_nn_taken(op, old(self).reg@[x as int], nn) {
                addr_plus(old(self).pc, 2)
            } else {
                old(self).pc
            },
    {
        if op == 3 {
            if self.reg[x as usize] == nn {
                self.increment_pc();
            }
            Ok(())
        } else if op == 4 {
            if self.reg[x as usize] != nn {
                self.increment_pc();
            }
            Ok(())
        } else {
            Err(Fault::UnknownInstruction)
        }
    }

    /// Skips the next instruction when registers `x` and `y` are equal (op 5)
    /// or differ (op 9); other ops are refused.
    pub fn reg_check_skip_exec(&mut self, op: u16, x: u8, y: u8) -> (r: Result<(), Fault>)
        requires
            old(self).wf(),
            x < NUM_REGISTERS,
            y < NUM_REGISTERS,
        ensures
            final(self).wf(),
            final(self).same_but_pc(old(self)),
            r is Ok <==> op == 5 || op == 9,
            r is Err ==> r == Err::<(), Fault>(Fault::UnknownInstruction) && final(self).pc == old(self).pc,
            r is Ok ==> final(self).pc == if skip_xy_taken(op, old(self).reg@[x as int], old(self).reg@[y as int]) {
                addr_plus(old(self).pc, 2)
            } else {
                old(self).pc
            },
    {
        if op == 5 {
            if self.reg[x as usize] == self.reg[y as usize] {
                self.increment_pc();
            }
            Ok(())
        } else if op == 9 {
            if self.reg[x as usize] != self.reg[y as usize] {
                self.increment_pc();
            }
            Ok(())
        } else {
            Err(Fault::UnknownInstruction)
        }
    }

    /// Sets register `x` to `nn`.
    pub fn set_reg_nn(&mut self, x: u8, nn: u8)
        requires
            old(self).wf(),
            x < NUM_REGISTERS,
        ensures
            final(self).wf(),
            final(self).reg@ == old(self).reg@.update(x as int, nn),
            final(self).same_but_regs(old(self)),
    {
        self.reg.set(x as usize, nn);
    }

    /// Adds `nn` to register `x`, wrapping at 8 bits, with no flag.
    pub fn add_reg_nn(&mut self, x: u8, nn: u8)
        requires
            old(self).wf(),
            x < NUM_REGISTERS,
        ensures
            final(self).wf(),
            final(self).reg@ == old(self).reg@.update(x as int, ((old(self).reg@[x as int] + nn) % 256) as u8),
            final(self).same_but_regs(old(self)),
    {
        let v = self.reg[x as usize].wrapping_add(nn);
        self.reg.set(x as usize, v);
    }

    /// Register arithmetic `n` on registers `x` and `y`; an unknown `n` is refused.
    pub fn alu_op(&mut self, x: u8, y: u8, n: u8) -> (r: Result<(), Fault>)
        requires
            old(self).wf(),
            x < NUM_REGISTERS,
            y < NUM_REGISTERS,
        ensures
            final(self).wf(),
            final(self).same_but_regs(old(self)),
            r is Ok <==> is_alu_selector(n),
            r is Ok ==> final(self).reg@ == alu_regs(old(self).reg@, x as int, y as int, n),
            r is Err ==> r == Err::<(), Fault>(Fault::UnknownInstruction) && final(self).reg@ == old(self).reg@,
    {
        let vx = self.reg[x as usize];
        let vy = self.reg[y as usize];
        let f = FLAG_REGISTER;
        if n == 0 {
            self.reg.set(x as usize, vy);
        } else if n == 1 {
            self.reg.set(x as usize, vx | vy);
        } else if n == 2 {
            self.reg.set(x as usize, vx & vy);
        } else if n == 3 {
            self.reg.set(x as usize, vx ^ vy);
        } else if n == 4 {
            let sum: u16 = vx as u16 + vy as u16;
            self.reg.set(x as usize, vx.wrapping_add(vy));
            self.reg.set(f, if sum > 0xFF { 1 } else { 0 });
        } else if n == 5 {
            self.reg.set(x as usize, vx.wrapping_sub(vy));
            self.reg.set(f, if vx < vy { 1 } else { 0 });
        } else if n == 6 {
            self.reg.set(x as usize, vx / 2);
            self.reg.set(f, vx % 2);
        } else if n == 7 {
            self.reg.set(x as usize, vy.wrapping_sub(vx));
            self.reg.set(f, if vy < vx { 1 } else { 0 });
        } else if n == 0xE {
            self.reg.set(x as usize, ((vx as u16 * 2) % 256) as u8);
            self.reg.set(f, vx / 128);
        } else {
            return Err(Fault::UnknownInstruction);
        }
        Ok(())
    }

    /// Sets the index register to `addr`.
    pub fn set_i_to_addr(&mut self, addr: u16)
        ensures
            final(self).i_reg == addr,
            final(self).reg@ == old(self).reg@,
            final(self).sp == old(self).sp,
            final(self).pc == old(self).pc,
            final(self).stack@ == old(self).stack@,
            final(self).dt == old(self).dt,
            final(self).st == old(self).st,
    {
        self.i_reg = addr;
    }

    /// Jumps to `addr` plus register 0.
    pub fn jump_to_addr_plus_offset(&mut self, addr: u16)
        requires
            old(self).wf(),
        ensures
            final(self).pc == addr_plus(addr, old(self).reg@[0] as int),
            final(self).same_but_pc(old(self)),
    {
        self.pc = addr.wrapping_add(self.reg[0] as u16);
    }

    /// Sets register `x` to `byte & nn`.
    pub fn set_reg_masked(&mut self, x: u8, byte: u8, nn: u8)
        requires
            old(self).wf(),
            x < NUM_REGISTERS,
        ensures
            final(self).wf(),
            final(self).reg@ == old(self).reg@.update(x as int, byte & nn),
            final(self).same_but_regs(old(self)),
    {
        self.reg.set(x as usize, byte & nn);
    }

    /// Sets register `x` to a random byte masked by `nn`.
    pub fn set_reg_rand(&mut self, x: u8, nn: u8)
        requires
            old(self).wf(),
            x < NUM_REGISTERS,
        ensures
            final(self).wf(),
            final(self).same_but_regs(old(self)),
            exists|b: u8| final(self).reg@ == old(self).reg@.update(x as int, b & nn),
    {
        let b = random_byte();
        self.set_reg_masked(x, b, nn);
    }

    /// Draws the `n`-row sprite at the index register onto the framebuffer
    /// at the coordinates held in registers `x` and `y`, XOR-ing each covered
    /// cell; the flag register becomes 1 when a set cell was cleared, else 0.
    /// The framebuffer's changed signal is toggled once.
    pub fn draw_op(&mut self, x: u8, y: u8, n: u8, mem: &mut Memory)
        requires
            old(self).wf(),
            old(mem).wf(),
            x < NUM_REGISTERS,
            y < NUM_REGISTERS,
            n < 16,
        ensures
            final(self).wf(),
            final(mem).wf(),
            forall|cx: int, cy: int| 0 <= cx < 64 && 0 <= cy < 32 ==> #[trigger] final(mem).vram@[cx + 64 * cy]
                == (old(mem).vram@[cx + 64 * cy] != sprite_covers(old(mem).ram@, old(self).i_reg,
                    old(self).reg@[x as int], old(self).reg@[y as int], n, cx, cy)),
            final(self).reg@ == old(self).reg@.update(FLAG_REGISTER as int,
                if sprite_collides(old(mem).ram@, old(mem).vram@, old(self).i_reg,
                    old(self).reg@[x as int], old(self).reg@[y as int], n) { 1u8 } else { 0u8 }),
            final(self).same_but_regs(old(self)),
            final(mem).ram@ == old(mem).ram@,
            final(mem).vram_modified == !old(mem).vram_modified,
            final(mem).audio_enabled == old(mem).audio_enabled,
    {
        let vx = self.reg[x as usize];
        let vy = self.reg[y as usize];
        let i = self.i_reg;
        let ghost ram = old(mem).ram@;
        let ghost vram0 = old(mem).vram@;
        let mut toggle = false;
        let mut r: u8 = 0;
        while r < n
            invariant
                mem.wf(),
                old(mem).wf(),
                n < 16,
                r <= n,
                mem.ram@ == ram,
                mem.vram_modified == old(mem).vram_modified,
                mem.audio_enabled == old(mem).audio_enabled,
                forall|cx: int, cy: int| 0 <= cx < 64 && 0 <= cy < 32 ==> #[trigger] mem.vram@[cx + 64 * cy]
                    == (vram0[cx + 64 * cy] != drawn_before(ram, i, vx, vy, n, cx, cy, r as int, 0)),
                ram == old(mem).ram@,
                vram0 == old(mem).vram@,
                toggle == collided_before(ram, vram0, i, vx, vy, n, r as int, 0),
            decreases n - r,
        {
            let pixels = mem.read_ram(i.wrapping_add(r as u16));
            let mut k: u8 = 0;
            while k < 8
                invariant
                    mem.wf(),
                    old(mem).wf(),
                    n < 16,
                    r < n,
                    k <= 8,
                    pixels == sprite_row(ram, i, r as int),
                    mem.ram@ == ram,
                    mem.vram_modified == old(mem).vram_modified,
                    mem.audio_enabled == old(mem).audio_enabled,
                    forall|cx: int, cy: int| 0 <= cx < 64 && 0 <= cy < 32 ==> #[trigger] mem.vram@[cx + 64 * cy]
                        == (vram0[cx + 64 * cy] != drawn_before(ram, i, vx, vy, n, cx, cy, r as int, k as int)),
                    ram == old(mem).ram@,
                    vram0 == old(mem).vram@,
                    toggle == collided_before(ram, vram0, i, vx, vy, n, r as int, k as int),
                decreases 8 - k,
            {
                let tx: usize = (vx as usize + k as usize) % 64;
                let ty: usize = (vy as usize + r as usize) % 32;
                let bit = (pixels >> (7 - k)) & 1 == 1;
                let ghost toggle0 = toggle;
                proof {
                    assert(bit == sprite_bit(pixels, k as int));
                    lemma_cell(tx as int, ty as int);
                    assert forall|cx: int, cy: int| 0 <= cx < 64 && 0 <= cy < 32 implies
                        #[trigger] drawn_before(ram, i, vx, vy, n, cx, cy, r as int, k as int + 1)
                        == (drawn_before(ram, i, vx, vy, n, cx, cy, r as int, k as int)
                            || (bit && cx == tx && cy == ty))
                        && (cx + 64 * cy == tx + 64 * ty <==> cx == tx && cy == ty) by {
                        lemma_wrap_offset(cx, vx as int, k as int, 64);
                        lemma_wrap_offset(cy, vy as int, r as int, 32);
                        lemma_cell(cx, cy);
                    }
                    lemma_wrap_offset(tx as int, vx as int, k as int, 64);
                    lemma_wrap_offset(ty as int, vy as int, r as int, 32);
                    assert(!drawn_before(ram, i, vx, vy, n, tx as int, ty as int, r as int, k as int));
                }
                if bit {
                    let idx = tx + 64 * ty;
                    let cell = mem.vram[idx];
                    toggle = toggle || cell;
                    mem.vram.set(idx, !cell);
                }
                proof {
                    let kk = k as int;
                    let rr = r as int;
                    if bit {
                        assert(drawn_before(ram, i, vx, vy, n, tx as int, ty as int, rr, kk + 1));
                        if toggle0 {
                            let (cx, cy) = choose|cx: int, cy: int| 0 <= cx < 64 && 0 <= cy < 32
                                && #[trigger] drawn_before(ram, i, vx, vy, n, cx, cy, rr, kk) && vram0[cx + 64 * cy];
                            assert(drawn_before(ram, i, vx, vy, n, cx, cy, rr, kk + 1));
                        }
                        if collided_before(ram, vram0, i, vx, vy, n, rr, kk + 1) {
                            let (cx, cy) = choose|cx: int, cy: int| 0 <= cx < 64 && 0 <= cy < 32
                                && #[trigger] drawn_before(ram, i, vx, vy, n, cx, cy, rr, kk + 1) && vram0[cx + 64 * cy];
                            if !(cx == tx && cy == ty) {
                                assert(drawn_before(ram, i, vx, vy, n, cx, cy, rr, kk));
                            }
                        }
                    } else {
                        lemma_collided_same(ram, vram0, i, vx, vy, n, rr, kk, rr, kk + 1);
                    }
                }
                k = k + 1;
            }
            proof {
                assert forall|cx: int, cy: int| 0 <= cx < 64 && 0 <= cy < 32 implies
                    #[trigger] drawn_before(ram, i, vx, vy, n, cx, cy, r as int + 1, 0)
                    == drawn_before(ram, i, vx, vy, n, cx, cy, r as int, 8) by {}
                lemma_collided_same(ram, vram0, i, vx, vy, n, r as int + 1, 0, r as int, 8);
            }
            r = r + 1;
        }
        proof {
            assert forall|cx: int, cy: int| 0 <= cx < 64 && 0 <= cy < 32 implies
                #[trigger] drawn_before(ram, i, vx, vy, n, cx, cy, n as int, 0)
                == sprite_covers(ram, i, vx, vy, n, cx, cy) by {}
            if toggle {
                let (cx, cy) = choose|cx: int, cy: int| 0 <= cx < 64 && 0 <= cy < 32
                    && #[trigger] drawn_before(ram, i, vx, vy, n, cx, cy, n as int, 0) && vram0[cx + 64 * cy];
                assert(sprite_covers(ram, i, vx, vy, n, cx, cy));
            }
            if sprite_collides(ram, vram0, i, vx, vy, n) {
                let (cx, cy) = choose|cx: int, cy: int| 0 <= cx < 64 && 0 <= cy < 32
                    && #[trigger] sprite_covers(ram, i, vx, vy, n, cx, cy) && vram0[cx + 64 * cy];
                assert(drawn_before(ram, i, vx, vy, n, cx, cy, n as int, 0));
            }
        }
        self.reg.set(FLAG_REGISTER, if toggle { 1 } else { 0 });
        mem.toggle_vram_mod();
    }

    /// Skips the next instruction when the key numbered by register `x` is
    /// held (0x9E) or not held (0xA1); other selectors are refused.
    pub fn key_op(&mut self, x: u8, nn: u8, keys: &Keyboard) -> (r: Result<(), Fault>)
        requires
            old(self).wf(),
            keys.wf(),
            x < NUM_REGISTERS,
        ensures
            final(self).wf(),
            final(self).same_but_pc(old(self)),
            r is Ok <==> nn == 0x9E || nn == 0xA1,
            r is Err ==> r == Err::<(), Fault>(Fault::UnknownInstruction) && final(self).pc == old(self).pc,
            r is Ok ==> final(self).pc == if key_held(keys.keys@, old(self).reg@[x as int] as int) == (nn == 0x9E) {
                addr_plus(old(self).pc, 2)
            } else {
                old(self).pc
            },
    {
        if nn == 0x9E {
            if keys.is_key_pressed(self.reg[x as usize] as u16) {
                self.increment_pc();
            }
            Ok(())
        } else if nn == 0xA1 {
            if !keys.is_key_pressed(self.reg[x as usize] as u16) {
                self.increment_pc();
            }
            Ok(())
        } else {
            Err(Fault::UnknownInstruction)
        }
    }

    /// Timer, index-register and memory family, selected by `nn`:
    /// 0x07 reads the delay timer into register `x`; 0x0A waits for a key
    /// (with none held the program counter steps back so that the same
    /// instruction runs again, else the highest held key goes to register `x`);
    /// 0x15 and 0x18 set the delay and sound timers; 0x1E adds register `x` to
    /// the index register within 12 bits, flagging a carry past 0xFFF; 0x29
    /// points the index register at the glyph of register `x`; 0x33 stores the
    /// decimal digits of register `x`; 0x55 and 0x65 store and load registers
    /// `0..=x`. A store or load that would run past the end of memory is
    /// refused, as is any other selector.
    pub fn timer_op(&mut self, x: u8, nn: u8, mem: &mut Memory, keys: &Keyboard) -> (r: Result<(), Fault>)
        requires
            old(self).wf(),
            old(mem).wf(),
            keys.wf(),
            x < NUM_REGISTERS,
        ensures
            final(self).wf(),
            final(mem).wf(),
            !is_timer_selector(nn) ==> r == Err::<(), Fault>(Fault::UnknownInstruction),
            r is Err ==> final(self).same(old(self)) && *final(mem) == *old(mem),
            is_timer_selector(nn) && r is Err ==> r == Err::<(), Fault>(Fault::AddressOutOfRange),
            nn != 0x33 && nn != 0x55 ==> *final(mem) == *old(mem),
            nn != 0x0A ==> final(self).pc == old(self).pc,
            nn != 0x15 && nn != 0x18 ==> final(self).dt == old(self).dt && final(self).st == old(self).st,
            nn == 0x07 ==> r is Ok && final(self).reg@ == old(self).reg@.update(x as int, old(self).dt)
                && final(self).same_but_regs(old(self)),
            nn == 0x0A ==> r is Ok && final(self).same_but_regs_pc(old(self)) && (
                if exists|k: int| 0 <= k < NUM_KEYS && keys.keys@[k] {
                    final(self).pc == old(self).pc && exists|k: int| highest_held(keys.keys@, k)
                        && final(self).reg@ == old(self).reg@.update(x as int, k as u8)
                } else {
                    final(self).pc == addr_plus(old(self).pc, -2) && final(self).reg@ == old(self).reg@
                }),
            nn == 0x15 ==> r is Ok && final(self).dt == old(self).reg@[x as int] && final(self).st == old(self).st
                && final(self).reg@ == old(self).reg@ && final(self).i_reg == old(self).i_reg
                && final(self).sp == old(self).sp && final(self).stack@ == old(self).stack@,
            nn == 0x18 ==> r is Ok && final(self).st == old(self).reg@[x as int] && final(self).dt == old(self).dt
                && final(self).reg@ == old(self).reg@ && final(self).i_reg == old(self).i_reg
                && final(self).sp == old(self).sp && final(self).stack@ == old(self).stack@,
            nn == 0x1E ==> r is Ok
                && final(self).i_reg == (old(self).i_reg + old(self).reg@[x as int]) % 0x1000
                && final(self).reg@ == old(self).reg@.update(FLAG_REGISTER as int,
                    if old(self).i_reg + old(self).reg@[x as int] > 0xFFF { 1u8 } else { 0u8 })
                && final(self).sp == old(self).sp && final(self).stack@ == old(self).stack@,
            nn == 0x29 ==> r is Ok && final(self).i_reg == old(self).reg@[x as int] * 5
                && final(self).reg@ == old(self).reg@
                && final(self).sp == old(self).sp && final(self).stack@ == old(self).stack@,
            nn == 0x33 ==> (r is Ok <==> old(self).i_reg + 3 <= old(mem).ram@.len()),
            nn == 0x33 && r is Ok ==> final(self).same(old(self))
                && final(mem).ram@ == digits_stored(old(mem).ram@, old(self).i_reg as int, old(self).reg@[x as int])
                && final(mem).vram@ == old(mem).vram@ && final(mem).vram_modified == old(mem).vram_modified
                && final(mem).audio_enabled == old(mem).audio_enabled,
            nn == 0x55 ==> (r is Ok <==> old(self).i_reg + x + 1 <= old(mem).ram@.len()),
            nn == 0x55 && r is Ok ==> final(self).same(old(self))
                && final(mem).ram@ == regs_dumped(old(mem).ram@, old(self).reg@, old(self).i_reg as int, x as int)
                && final(mem).vram@ == old(mem).vram@ && final(mem).vram_modified == old(mem).vram_modified
                && final(mem).audio_enabled == old(mem).audio_enabled,
            nn == 0x65 ==> (r is Ok <==> old(self).i_reg + x + 1 <= old(mem).ram@.len()),
            nn == 0x65 && r is Ok ==> final(self).same_but_regs(old(self))
                && final(self).reg@ == regs_loaded(old(self).reg@, old(mem).ram@, old(self).i_reg as int, x as int),
    {
        let xi = x as usize;
        if nn == 0x07 {
            self.reg.set(xi, self.dt);
            Ok(())
        } else if nn == 0x0A {
            let mut pressed = false;
            let mut i: u8 = 0;
            let ghost mut held: int = 0;
            while i < 16
                invariant
                    self.wf(),
                    old(self).wf(),
                    keys.wf(),
                    xi < NUM_REGISTERS,
                    i <= 16,
                    self.same_but_regs(old(self)),
                    pressed <==> exists|k: int| 0 <= k < i && keys.keys@[k],
                    !pressed ==> self.reg@ == old(self).reg@,
                    pressed ==> 0 <= held < i && keys.keys@[held]
                        && (forall|j: int| held < j < i ==> !keys.keys@[j])
                        && self.reg@ == old(self).reg@.update(xi as int, held as u8),
                decreases 16 - i,
            {
                if keys.is_key_pressed(i as u16) {
                    self.reg.set(xi, i);
                    assert(self.reg@ =~= old(self).reg@.update(xi as int, i));
                    pressed = true;
                    proof { held = i as int; }
                }
                i = i + 1;
            }
            if !pressed {
                self.pc = self.pc.wrapping_sub(2);
            } else {
                assert(highest_held(keys.keys@, held));
            }
            Ok(())
        } else if nn == 0x15 {
            self.dt = self.reg[xi];
            Ok(())
        } else if nn == 0x18 {
            self.st = self.reg[xi];
            Ok(())
        } else if nn == 0x1E {
            let sum: u32 = self.i_reg as u32 + self.reg[xi] as u32;
            self.reg.set(FLAG_REGISTER, if sum > 0xFFF { 1 } else { 0 });
            self.i_reg = (sum % 0x1000) as u16;
            Ok(())
        } else if nn == 0x29 {
            self.i_reg = self.reg[xi] as u16 * 5;
            Ok(())
        } else if nn == 0x33 {
            if self.i_reg as usize + 3 > RAM_SIZE {
                return Err(Fault::AddressOutOfRange);
            }
            let v = self.reg[xi];
            let i = self.i_reg;
            mem.write_ram(i, v / 100);
            mem.write_ram(i + 1, (v / 10) % 10);
            mem.write_ram(i + 2, v % 10);
            Ok(())
        } else if nn == 0x55 {
            if self.i_reg as usize + xi + 1 > RAM_SIZE {
                return Err(Fault::AddressOutOfRange);
            }
            let i = self.i_reg;
            let mut j: u8 = 0;
            while j <= x
                invariant
                    self.wf(),
                    old(self).wf(),
                    mem.wf(),
                    old(mem).wf(),
                    x < NUM_REGISTERS,
                    i == old(self).i_reg,
                    i + x + 1 <= RAM_SIZE,
                    j <= x + 1,
                    self.same(old(self)),
                    forall|k: int| 0 <= k < RAM_SIZE ==> mem.ram@[k] == if i <= k < i + j {
                        self.reg@[k - i]
                    } else {
                        old(mem).ram@[k]
                    },
                    mem.vram@ == old(mem).vram@,
                    mem.vram_modified == old(mem).vram_modified,
                    mem.audio_enabled == old(mem).audio_enabled,
                decreases x + 1 - j,
            {
                mem.write_ram(i + j as u16, self.reg[j as usize]);
                j = j + 1;
            }
            assert(mem.ram@ =~= regs_dumped(old(mem).ram@, old(self).reg@, i as int, x as int));
            Ok(())
        } else if nn == 0x65 {
            if self.i_reg as usize + xi + 1 > RAM_SIZE {
                return Err(Fault::AddressOutOfRange);
            }
            let i = self.i_reg;
            let mut j: u8 = 0;
            while j <= x
                invariant
                    self.wf(),
                    old(self).wf(),
                    mem.wf(),
                    old(mem).wf(),
                    x < NUM_REGISTERS,
                    i == old(self).i_reg,
                    i + x + 1 <= RAM_SIZE,
                    j <= x + 1,
                    self.same_but_regs(old(self)),
                    *mem == *old(mem),
                    forall|k: int| 0 <= k < NUM_REGISTERS ==> self.reg@[k] == if k < j {
                        mem.ram@[i + k]
                    } else {
                        old(self).reg@[k]
                    },
                decreases x + 1 - j,
            {
                let b = mem.read_ram(i + j as u16);
                self.reg.set(j as usize, b);
                j = j + 1;
            }
            assert(self.reg@ =~= regs_loaded(old(self).reg@, old(mem).ram@, i as int, x as int));
            Ok(())
        } else {
            Err(Fault::UnknownInstruction)
        }
    }

    /// Decrements both timers by one, stopping at zero.
    pub fn decrement_timers(&mut self)
        ensures
            final(self).dt == if old(self).dt == 0 { 0 } else { (old(self).dt - 1) as u8 },
            final(self).st == if old(self).st == 0 { 0 } else { (old(self).st - 1) as u8 },
            final(self).reg@ == old(self).reg@,
            final(self).sp == old(self).sp,
            final(self).pc == old(self).pc,
            final(self).i_reg == old(self).i_reg,
            final(self).stack@ == old(self).stack@,
    {
        self.dt = self.dt.saturating_sub(1);
        self.st = self.st.saturating_sub(1);
    }
}

} // verus!
