use vstd::prelude::*;
use crate::consts::{fontset, FLAG_REGISTER, FONTSET_SIZE, NUM_KEYS, PROGRAM_START, RAM_SIZE};
use crate::cpu::{
    addr_plus, alu_regs, digits_stored, highest_held, is_alu_selector, is_timer_selector, random_byte,
    regs_dumped, regs_loaded, skip_nn_taken, skip_xy_taken, sprite_collides, sprite_covers, Fault, Processor,
};
use crate::keyboard::{key_held, Keyboard};
use crate::memory::{ram_index, LoadError, Memory};

verus! {

/// The machine: one memory, one processor and the keypad snapshot that
/// instructions read.
pub struct Vm {
    pub cpu: Processor,
    pub memory: Memory,
    pub keyboard: Keyboard,
}

/// A refused instruction: why, its word, and the program counter it ran with.
#[derive(Debug, Clone, Copy, PartialEq, Eq, Structural)]
pub struct Diagnostic {
    pub fault: Fault,
    pub word: u16,
    pub pc: u16,
}

/// The instruction family: the top four bits.
pub open spec fn op_of(w: u16) -> u16 {
    w / 0x1000
}

/// The first register operand: bits 8 to 11.
pub open spec fn x_of(w: u16) -> u8 {
    ((w / 0x100) % 16) as u8
}

/// The second register operand: bits 4 to 7.
pub open spec fn y_of(w: u16) -> u8 {
    ((w / 0x10) % 16) as u8
}

/// The low four bits.
pub open spec fn n_of(w: u16) -> u8 {
    (w % 16) as u8
}

/// The low byte.
pub open spec fn nn_of(w: u16) -> u8 {
    (w % 0x100) as u8
}

/// The low twelve bits: an address or a literal.
pub open spec fn nnn_of(w: u16) -> u16 {
    w % 0x1000
}

/// The big-endian word at `pc`.
pub open spec fn word_at(ram: Seq<u8>, pc: u16) -> u16 {
    (ram[ram_index(pc)] * 256 + ram[ram_index(addr_plus(pc, 1))]) as u16
}

/// Whether any key is held.
pub open spec fn any_held(keys: Seq<bool>) -> bool {
    exists|k: int| 0 <= k < NUM_KEYS && keys[k]
}

/// Why instruction `w` is refused on machine `v`, if it is.
pub open spec fn fault_of(v: Vm, w: u16) -> Option<Fault> {
    let op = op_of(w);
    let nn = nn_of(w);
    let i = v.cpu.i_reg as int;
    let len = v.memory.ram@.len();
    if op == 0 && n_of(w) == 0 {
        None
    } else if op == 0 && n_of(w) == 0xE {
        if v.cpu.sp == 0 { Some(Fault::StackUnderflow) } else { None }
    } else if op == 0 {
        Some(Fault::UnknownInstruction)
    } else if op == 2 {
        if v.cpu.sp == 16 { Some(Fault::StackOverflow) } else { None }
    } else if op == 8 {
        if is_alu_selector(n_of(w)) { None } else { Some(Fault::UnknownInstruction) }
    } else if op == 0xE {
        if nn == 0x9E || nn == 0xA1 { None } else { Some(Fault::UnknownInstruction) }
    } else if op == 0xF {
        if !is_timer_selector(nn) {
            Some(Fault::UnknownInstruction)
        } else if nn == 0x33 && i + 3 > len {
            Some(Fault::AddressOutOfRange)
        } else if (nn == 0x55 || nn == 0x65) && i + x_of(w) + 1 > len {
            Some(Fault::AddressOutOfRange)
        } else {
            None
        }
    } else {
        None
    }
}

/// Whether `w` belongs to a skip family: it moves past the next instruction
/// when its condition holds.
pub open spec fn is_skip(w: u16) -> bool {
    let op = op_of(w);
    op == 3 || op == 4 || op == 5 || op == 9 || op == 0xE
}

/// Whether skip instruction `w` finds its condition true on machine `v`.
pub open spec fn skip_taken(v: Vm, w: u16) -> bool {
    let op = op_of(w);
    let vx = v.cpu.reg@[x_of(w) as int];
    let vy = v.cpu.reg@[y_of(w) as int];
    if op == 3 || op == 4 {
        skip_nn_taken(op, vx, nn_of(w))
    } else if op == 5 || op == 9 {
        skip_xy_taken(op, vx, vy)
    } else {
        key_held(v.keyboard.keys@, vx as int) == (nn_of(w) == 0x9E)
    }
}

/// Whether `w` sets the program counter outright: a return, a jump, a call,
/// or a jump offset by register 0.
pub open spec fn is_transfer(w: u16) -> bool {
    let op = op_of(w);
    (op == 0 && n_of(w) == 0xE) || op == 1 || op == 2 || op == 0xB
}

/// Where transfer instruction `w` sends the program counter on machine `v`.
pub open spec fn transfer_target(v: Vm, w: u16) -> u16 {
    let op = op_of(w);
    if op == 0 {
        v.cpu.stack@[v.cpu.sp - 1]
    } else if op == 0xB {
        addr_plus(nnn_of(w), v.cpu.reg@[0] as int)
    } else {
        nnn_of(w)
    }
}

/// Whether `w` waits for a key.
pub open spec fn is_key_wait(w: u16) -> bool {
    op_of(w) == 0xF && nn_of(w) == 0x0A
}

/// The program counter after instruction `w` ran on machine `v` with the
/// program counter at `pc` (already past `w`), when it was not refused.
pub open spec fn next_pc(v: Vm, pc: u16, w: u16) -> u16 {
    if is_transfer(w) {
        transfer_target(v, w)
    } else if is_skip(w) && skip_taken(v, w) {
        addr_plus(pc, 2)
    } else if is_key_wait(w) && !any_held(v.keyboard.keys@) {
        addr_plus(pc, -2)
    } else {
        pc
    }
}

/// The registers after instruction `w` ran on machine `v`, with `byte` as
/// the random byte, when it was not refused.
pub open spec fn regs_after(v: Vm, w: u16, byte: u8) -> Seq<u8> {
    let op = op_of(w);
    let x = x_of(w) as int;
    let nn = nn_of(w);
    let regs = v.cpu.reg@;
    let keys = v.keyboard.keys@;
    let f = FLAG_REGISTER as int;
    if op == 6 {
        regs.update(x, nn)
    } else if op == 7 {
        regs.update(x, ((regs[x] + nn) % 256) as u8)
    } else if op == 8 {
        alu_regs(regs, x, y_of(w) as int, n_of(w))
    } else if op == 0xC {
        regs.update(x, byte & nn)
    } else if op == 0xD {
        regs.update(f, if sprite_collides(v.memory.ram@, v.memory.vram@, v.cpu.i_reg, regs[x],
            regs[y_of(w) as int], n_of(w)) { 1u8 } else { 0u8 })
    } else if op == 0xF && nn == 0x07 {
        regs.update(x, v.cpu.dt)
    } else if op == 0xF && nn == 0x0A && any_held(keys) {
        regs.update(x, (choose|k: int| highest_held(keys, k)) as u8)
    } else if op == 0xF && nn == 0x1E {
        regs.update(f, if v.cpu.i_reg + regs[x] > 0xFFF { 1u8 } else { 0u8 })
    } else if op == 0xF && nn == 0x65 {
        regs_loaded(regs, v.memory.ram@, v.cpu.i_reg as int, x)
    } else {
        regs
    }
}

/// The index register after instruction `w` ran on machine `v`, when it was
/// not refused.
pub open spec fn i_after(v: Vm, w: u16) -> u16 {
    let op = op_of(w);
    let nn = nn_of(w);
    let vx = v.cpu.reg@[x_of(w) as int];
    if op == 0xA {
        nnn_of(w)
    } else if op == 0xF && nn == 0x1E {
        ((v.cpu.i_reg + vx) % 0x1000) as u16
    } else if op == 0xF && nn == 0x29 {
        (vx * 5) as u16
    } else {
        v.cpu.i_reg
    }
}

/// The byte memory after instruction `w` ran on machine `v`, when it was not
/// refused.
pub open spec fn ram_after(v: Vm, w: u16) -> Seq<u8> {
    let op = op_of(w);
    let nn = nn_of(w);
    let x = x_of(w) as int;
    if op == 0xF && nn == 0x33 {
        digits_stored(v.memory.ram@, v.cpu.i_reg as int, v.cpu.reg@[x])
    } else if op == 0xF && nn == 0x55 {
        regs_dumped(v.memory.ram@, v.cpu.reg@, v.cpu.i_reg as int, x)
    } else {
        v.memory.ram@
    }
}

/// One instruction step: machine `v0`, whose program counter already stands
/// at `pc` past instruction `w`, became `v1` with result `r`, `byte` being
/// the random byte. A refused instruction leaves everything as it was, with
/// the program counter at `pc`; a clear or a draw toggles the framebuffer's
/// changed signal; the timers are only ever set, never counted down.
pub open spec fn executed(v0: Vm, v1: Vm, pc: u16, w: u16, byte: u8, r: Result<(), Diagnostic>) -> bool {
    let op = op_of(w);
    let nn = nn_of(w);
    let x = x_of(w) as int;
    let c0 = v0.cpu;
    let c1 = v1.cpu;
    let m0 = v0.memory;
    let m1 = v1.memory;
    &&& v1.wf()
    &&& v1.keyboard == v0.keyboard
    &&& r == match fault_of(v0, w) {
        Some(f) => Err(Diagnostic { fault: f, word: w, pc: pc }),
        None => Ok(()),
    }
    &&& r is Err ==> c1.same_but_pc(&c0) && c1.pc == pc && m1 == m0
    &&& r is Ok ==> {
        &&& c1.pc == next_pc(v0, pc, w)
        &&& c1.reg@ == regs_after(v0, w, byte)
        &&& c1.i_reg == i_after(v0, w)
        &&& c1.sp == if op == 2 { (c0.sp + 1) as u16 } else if op == 0 && n_of(w) == 0xE { (c0.sp - 1) as u16 } else { c0.sp }
        &&& c1.stack@ == if op == 2 { c0.stack@.update(c0.sp as int, pc) } else { c0.stack@ }
        &&& c1.dt == if op == 0xF && nn == 0x15 { c0.reg@[x] } else { c0.dt }
        &&& c1.st == if op == 0xF && nn == 0x18 { c0.reg@[x] } else { c0.st }
        &&& m1.ram@ == ram_after(v0, w)
        &&& m1.audio_enabled == m0.audio_enabled
        &&& m1.vram_modified == if (op == 0 && n_of(w) == 0) || op == 0xD { !m0.vram_modified } else { m0.vram_modified }
        &&& op == 0 && n_of(w) == 0 ==> forall|c: int| 0 <= c < m1.vram@.len() ==> !m1.vram@[c]
        &&& op == 0xD ==> forall|cx: int, cy: int| 0 <= cx < 64 && 0 <= cy < 32 ==> #[trigger] m1.vram@[cx + 64 * cy]
            == (m0.vram@[cx + 64 * cy] != sprite_covers(m0.ram@, c0.i_reg, c0.reg@[x], c0.reg@[y_of(w) as int], n_of(w), cx, cy))
        &&& !(op == 0 && n_of(w) == 0) && op != 0xD ==> m1.vram@ == m0.vram@
    }
}

/// A step depends on the program counter only through `pc`: a machine that
/// differs from `v0` in its program counter alone steps alike.
proof fn same_step(v: Vm, v0: Vm, v1: Vm, pc: u16, w: u16, byte: u8, r: Result<(), Diagnostic>)
    requires
        v0.cpu.same_but_pc(&v.cpu),
        v0.memory == v.memory,
        v0.keyboard == v.keyboard,
        executed(v0, v1, pc, w, byte, r),
    ensures
        executed(v, v1, pc, w, byte, r),
{
}

/// Fetching and running one instruction moves the program counter on by
/// exactly 2, but by 4 for a skip whose condition holds, and sets it outright
/// for a jump, call or return; a refused instruction also leaves it 2 on.
pub proof fn lemma_pc_progress(v0: Vm, v1: Vm, byte: u8, r: Result<(), Diagnostic>)
    requires
        v0.wf(),
        executed(v0, v1, addr_plus(v0.cpu.pc, 2), word_at(v0.memory.ram@, v0.cpu.pc), byte, r),
    ensures
        ({
            let p = v0.cpu.pc;
            let w = word_at(v0.memory.ram@, p);
            &&& r is Err ==> v1.cpu.pc == addr_plus(p, 2)
            &&& r is Ok && is_transfer(w) ==> v1.cpu.pc == transfer_target(v0, w)
            &&& r is Ok && is_skip(w) ==> v1.cpu.pc == if skip_taken(v0, w) { addr_plus(p, 4) } else { addr_plus(p, 2) }
            &&& r is Ok && !is_transfer(w) && !is_skip(w) && !(is_key_wait(w) && !any_held(v0.keyboard.keys@))
                ==> v1.cpu.pc == addr_plus(p, 2)
        }),
{
}

/// Storing registers `0..=x` at the index register and then loading them
/// back from there, with the same `x`, leaves the registers as they were;
/// the load is refused exactly where the store was.
pub proof fn lemma_dump_load_round_trip(
    v0: Vm, v1: Vm, v2: Vm, pc1: u16, pc2: u16, x: u8, b1: u8, b2: u8,
    r1: Result<(), Diagnostic>, r2: Result<(), Diagnostic>,
)
    requires
        v0.wf(),
        x < 16,
        executed(v0, v1, pc1, (0xF055 + x * 0x100) as u16, b1, r1),
        executed(v1, v2, pc2, (0xF065 + x * 0x100) as u16, b2, r2),
    ensures
        r2 is Ok <==> r1 is Ok,
        v1.cpu.i_reg == v0.cpu.i_reg,
        v2.cpu.reg@ == v0.cpu.reg@,
{
    let w1 = (0xF055 + x * 0x100) as u16;
    let w2 = (0xF065 + x * 0x100) as u16;
    assert(op_of(w1) == 0xF && nn_of(w1) == 0x55 && x_of(w1) == x);
    assert(op_of(w2) == 0xF && nn_of(w2) == 0x65 && x_of(w2) == x);
    assert(v2.cpu.reg@ =~= v0.cpu.reg@);
}

/// An instruction word that encodes no instruction changes no register,
/// no memory and no framebuffer cell, leaves the program counter where the
/// fetch put it, and is reported with its word and that program counter.
pub proof fn lemma_unknown_is_inert(v0: Vm, v1: Vm, pc: u16, w: u16, byte: u8, r: Result<(), Diagnostic>)
    requires
        v0.wf(),
        executed(v0, v1, pc, w, byte, r),
        fault_of(v0, w) == Some(Fault::UnknownInstruction),
    ensures
        r == Err::<(), Diagnostic>(Diagnostic { fault: Fault::UnknownInstruction, word: w, pc: pc }),
        v1.cpu.reg@ == v0.cpu.reg@,
        v1.cpu.pc == pc,
        v1.cpu.i_reg == v0.cpu.i_reg,
        v1.cpu.sp == v0.cpu.sp,
        v1.cpu.stack@ == v0.cpu.stack@,
        v1.cpu.dt == v0.cpu.dt,
        v1.cpu.st == v0.cpu.st,
        v1.memory == v0.memory,
{
}

impl Vm {
    /// Each part has its fixed sizes.
    pub open spec fn wf(&self) -> bool {
        self.cpu.wf() && self.memory.wf() && self.keyboard.wf()
    }

    /// A machine in its initial state: zeroed memory and registers, no key
    /// held, the program counter at the program origin.
    pub fn new() -> (v: Self)
        ensures
            v.wf(),
            v.cpu.pc == crate::consts::PROGRAM_START,
            v.cpu.sp == 0,
            v.cpu.i_reg == 0,
            forall|i: int| 0 <= i < v.cpu.reg@.len() ==> v.cpu.reg@[i] == 0,
            forall|i: int| 0 <= i < v.memory.ram@.len() ==> v.memory.ram@[i] == 0,
            forall|i: int| 0 <= i < v.memory.vram@.len() ==> !v.memory.vram@[i],
            forall|i: int| 0 <= i < v.keyboard.keys@.len() ==> !v.keyboard.keys@[i],
    {
        Vm { cpu: Processor::new(), memory: Memory::new(), keyboard: Keyboard::new() }
    }

    /// Reads the instruction word at the program counter and moves the
    /// program counter past it.
    pub fn fetch_instruction(&mut self) -> (w: u16)
        requires
            old(self).wf(),
        ensures
            final(self).wf(),
            w == word_at(old(self).memory.ram@, old(self).cpu.pc),
            final(self).cpu.pc == addr_plus(old(self).cpu.pc, 2),
            final(self).cpu.same_but_pc(&old(self).cpu),
            final(self).memory == old(self).memory,
            final(self).keyboard == old(self).keyboard,
    {
        let pc = self.cpu.pc;
        let high = self.memory.read_ram(pc) as u16;
        let low = self.memory.read_ram(pc.wrapping_add(1)) as u16;
        self.cpu.increment_pc();
        high * 256 + low
    }

    /// Splits an instruction word into `(nnn, nn, n, x, y)`.
    pub fn decode_instruction(&self, op: u16) -> (r: (u16, u8, u8, u8, u8))
        ensures
            r.0 == nnn_of(op),
            r.1 == nn_of(op),
            r.2 == n_of(op),
            r.3 == x_of(op),
            r.4 == y_of(op),
            r.2 < 16 && r.3 < 16 && r.4 < 16,
    {
        let nnn = op % 0x1000;
        let nn = (op % 0x100) as u8;
        let n = (op % 0x10) as u8;
        let x = ((op / 0x100) % 0x10) as u8;
        let y = ((op / 0x10) % 0x10) as u8;
        (nnn, nn, n, x, y)
    }

    /// Runs instruction `w`, with `byte` standing for the random byte that
    /// the random-mask instruction draws. The program counter must already
    /// stand past `w`. A refused instruction changes nothing and is reported
    /// with its word and the program counter.
    #[verifier::rlimit(50)]
    pub fn execute_with(&mut self, w: u16, byte: u8) -> (r: Result<(), Diagnostic>)
        requires
            old(self).wf(),
        ensures
            executed(*old(self), *final(self), old(self).cpu.pc, w, byte, r),
    {
        let (nnn, nn, n, x, y) = self.decode_instruction(w);
        let op = w / 0x1000;
        let pc = self.cpu.pc;
        let res = if op == 0 {
            self.cpu.display_op(n, &mut self.memory)
        } else if op == 1 {
            self.cpu.jump_to_addr(nnn);
            Ok(())
        } else if op == 2 {
            self.cpu.call(nnn)
        } else if op == 3 || op == 4 {
            self.cpu.skip_execution(op, x, nn)
        } else if op == 5 || op == 9 {
            self.cpu.reg_check_skip_exec(op, x, y)
        } else if op == 6 {
            self.cpu.set_reg_nn(x, nn);
            Ok(())
        } else if op == 7 {
            self.cpu.add_reg_nn(x, nn);
            Ok(())
        } else if op == 8 {
            self.cpu.alu_op(x, y, n)
        } else if op == 0xA {
            self.cpu.set_i_to_addr(nnn);
            Ok(())
        } else if op == 0xB {
            self.cpu.jump_to_addr_plus_offset(nnn);
            Ok(())
        } else if op == 0xC {
            self.cpu.set_reg_masked(x, byte, nn);
            Ok(())
        } else if op == 0xD {
            self.cpu.draw_op(x, y, n, &mut self.memory);
            Ok(())
        } else if op == 0xE {
            self.cpu.key_op(x, nn, &self.keyboard)
        } else {
            self.cpu.timer_op(x, nn, &mut self.memory, &self.keyboard)
        };
        proof {
            let keys = self.keyboard.keys@;
            if op == 0xF && nn == 0x0A && any_held(keys) {
                let k1 = choose|k: int| highest_held(keys, k);
                assert forall|k2: int| highest_held(keys, k2) implies k2 == k1 by {
                    if k2 < k1 {
                        assert(!keys[k1]);
                    } else if k1 < k2 {
                        assert(!keys[k2]);
                    }
                }
            }
        }
        let r = match res {
            Ok(()) => Ok(()),
            Err(fault) => Err(Diagnostic { fault, word: w, pc }),
        };
        r
    }

    /// Runs instruction `w` with a freshly drawn random byte; see
    /// `execute_with` for what each instruction does.
    pub fn execute(&mut self, w: u16) -> (r: Result<(), Diagnostic>)
        requires
            old(self).wf(),
        ensures
            exists|byte: u8| executed(*old(self), *final(self), old(self).cpu.pc, w, byte, r),
    {
        let byte = random_byte();
        self.execute_with(w, byte)
    }

    /// Loads the glyph table and then the program `rom` at the program origin.
    /// A program that does not fit is refused; the glyphs are loaded either way.
    pub fn load(&mut self, rom: &[u8]) -> (r: Result<(), LoadError>)
        requires
            old(self).wf(),
        ensures
            final(self).wf(),
            r is Err <==> rom@.len() > RAM_SIZE - PROGRAM_START,
            r is Ok ==> final(self).memory.ram@ == fontset()
                + old(self).memory.ram@.subrange(FONTSET_SIZE as int, PROGRAM_START as int) + rom@
                + old(self).memory.ram@.subrange(PROGRAM_START + rom@.len(), RAM_SIZE as int),
            r is Err ==> final(self).memory.ram@ == fontset()
                + old(self).memory.ram@.subrange(FONTSET_SIZE as int, RAM_SIZE as int),
            final(self).memory.vram@ == old(self).memory.vram@,
            final(self).memory.vram_modified == old(self).memory.vram_modified,
            final(self).memory.audio_enabled == old(self).memory.audio_enabled,
            final(self).cpu == old(self).cpu,
            final(self).keyboard == old(self).keyboard,
    {
        self.memory.load_fonts();
        let ghost fonted = self.memory.ram@;
        let r = self.memory.load_rom(rom);
        proof {
            if r is Ok {
                assert(self.memory.ram@ =~= fontset()
                    + old(self).memory.ram@.subrange(FONTSET_SIZE as int, PROGRAM_START as int) + rom@
                    + old(self).memory.ram@.subrange(PROGRAM_START + rom@.len(), RAM_SIZE as int));
            }
        }
        r
    }

    /// Fetches the instruction at the program counter, moves past it and runs
    /// it, with a freshly drawn random byte.
    pub fn tick(&mut self) -> (r: Result<(), Diagnostic>)
        requires
            old(self).wf(),
        ensures
            exists|byte: u8| executed(*old(self), *final(self), addr_plus(old(self).cpu.pc, 2),
                word_at(old(self).memory.ram@, old(self).cpu.pc), byte, r),
    {
        let w = self.fetch_instruction();
        let ghost fetched = *self;
        let r = self.execute(w);
        proof {
            let byte = choose|byte: u8| executed(fetched, *self, fetched.cpu.pc, w, byte, r);
            same_step(*old(self), fetched, *self, fetched.cpu.pc, w, byte, r);
        }
        r
    }
}

} // verus!
