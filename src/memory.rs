use vstd::prelude::*;
use crate::consts::{fontset, fontset_bytes, FONTSET_SIZE, PROGRAM_START, RAM_SIZE, VRAM_SIZE};

verus! {

/// Byte memory and the monochrome framebuffer.
///
/// `vram` holds the 64 x 32 cells row by row (cell `(x, y)` at `x + 64 * y`);
/// `vram_modified` is toggled by each clear and each draw.
pub struct Memory {
    pub vram: Vec<bool>,
    pub ram: Vec<u8>,
    pub vram_modified: bool,
    pub audio_enabled: bool,
}

/// Where an address lands in memory: addresses wrap around the memory size.
pub open spec fn ram_index(address: u16) -> int {
    address as int % RAM_SIZE as int
}

/// Why a program could not be loaded.
#[derive(Debug, Clone, Copy, PartialEq, Eq, Structural)]
pub enum LoadError {
    /// The program does not fit between the program origin and the end of memory.
    ProgramTooLarge,
}

impl Memory {
    /// The buffers have their fixed sizes.
    pub open spec fn wf(&self) -> bool {
        self.vram@.len() == VRAM_SIZE && self.ram@.len() == RAM_SIZE
    }

    /// Zeroed memory and an all-clear framebuffer.
    pub fn new() -> (m: Self)
        ensures
            m.wf(),
            forall|i: int| 0 <= i < RAM_SIZE ==> m.ram@[i] == 0,
            forall|i: int| 0 <= i < VRAM_SIZE ==> !m.vram@[i],
            !m.vram_modified,
            !m.audio_enabled,
    {
        Memory { vram: vec![false; VRAM_SIZE], ram: vec![0u8; RAM_SIZE], vram_modified: false, audio_enabled: false }
    }

    /// Copies the built-in glyph table to the start of memory.
    pub fn load_fonts(&mut self)
        requires
            old(self).wf(),
        ensures
            final(self).wf(),
            final(self).ram@ == fontset() + old(self).ram@.subrange(FONTSET_SIZE as int, RAM_SIZE as int),
            final(self).vram@ == old(self).vram@,
            final(self).vram_modified == old(self).vram_modified,
            final(self).audio_enabled == old(self).audio_enabled,
    {
        let font = fontset_bytes();
        let mut i: usize = 0;
        while i < FONTSET_SIZE
            invariant
                self.wf(),
                font@ == fontset(),
                i <= FONTSET_SIZE,
                forall|j: int| 0 <= j < i ==> self.ram@[j] == fontset()[j],
                forall|j: int| i <= j < RAM_SIZE ==> self.ram@[j] == old(self).ram@[j],
                self.vram@ == old(self).vram@,
                self.vram_modified == old(self).vram_modified,
                self.audio_enabled == old(self).audio_enabled,
            decreases FONTSET_SIZE - i,
        {
            self.ram.set(i, font[i]);
            i = i + 1;
        }
        assert(self.ram@ =~= fontset() + old(self).ram@.subrange(FONTSET_SIZE as int, RAM_SIZE as int));
    }

    /// Copies a program into memory at the program origin.
    ///
    /// A program longer than the space from the origin to the end of memory
    /// is refused and memory is left as it was.
    pub fn load_rom(&mut self, rom: &[u8]) -> (r: Result<(), LoadError>)
        requires
            old(self).wf(),
        ensures
            final(self).wf(),
            r is Err <==> rom@.len() > RAM_SIZE - PROGRAM_START,
            r is Err ==> *final(self) == *old(self),
            r is Ok ==> final(self).ram@ == old(self).ram@.subrange(0, PROGRAM_START as int) + rom@
                + old(self).ram@.subrange(PROGRAM_START + rom@.len(), RAM_SIZE as int),
            final(self).vram@ == old(self).vram@,
            final(self).vram_modified == old(self).vram_modified,
            final(self).audio_enabled == old(self).audio_enabled,
    {
        let offset = PROGRAM_START as usize;
        if rom.len() > RAM_SIZE - offset {
            return Err(LoadError::ProgramTooLarge);
        }
        let mut i: usize = 0;
        while i < rom.len()
            invariant
                self.wf(),
                offset == PROGRAM_START,
                rom@.len() <= RAM_SIZE - offset,
                i <= rom@.len(),
                forall|j: int| 0 <= j < offset ==> self.ram@[j] == old(self).ram@[j],
                forall|j: int| 0 <= j < i ==> self.ram@[offset + j] == rom@[j],
                forall|j: int| offset + i <= j < RAM_SIZE ==> self.ram@[j] == old(self).ram@[j],
                self.vram@ == old(self).vram@,
                self.vram_modified == old(self).vram_modified,
                self.audio_enabled == old(self).audio_enabled,
            decreases rom@.len() - i,
        {
            self.ram.set(offset + i, rom[i]);
            i = i + 1;
        }
        assert(self.ram@ =~= old(self).ram@.subrange(0, PROGRAM_START as int) + rom@
            + old(self).ram@.subrange(PROGRAM_START + rom@.len(), RAM_SIZE as int));
        Ok(())
    }

    /// The byte at `address`, which wraps around the memory size.
    pub fn read_ram(&self, address: u16) -> (r: u8)
        requires
            self.wf(),
        ensures
            r == self.ram@[ram_index(address)],
    {
        self.ram[address as usize % RAM_SIZE]
    }

    /// Stores `value` at `address`, which wraps around the memory size.
    pub fn write_ram(&mut self, address: u16, value: u8)
        requires
            old(self).wf(),
        ensures
            final(self).wf(),
            final(self).ram@ == old(self).ram@.update(ram_index(address), value),
            final(self).vram@ == old(self).vram@,
            final(self).vram_modified == old(self).vram_modified,
            final(self).audio_enabled == old(self).audio_enabled,
    {
        self.ram.set(address as usize % RAM_SIZE, value);
    }

    /// Flips the framebuffer-changed signal.
    pub fn toggle_vram_mod(&mut self)
        ensures
            final(self).vram_modified == !old(self).vram_modified,
            final(self).ram == old(self).ram,
            final(self).vram == old(self).vram,
            final(self).audio_enabled == old(self).audio_enabled,
    {
        self.vram_modified = !self.vram_modified;
    }

    /// Sets every framebuffer cell to clear.
    pub fn clear_vram(&mut self)
        requires
            old(self).wf(),
        ensures
            final(self).wf(),
            forall|i: int| 0 <= i < VRAM_SIZE ==> !final(self).vram@[i],
            final(self).ram == old(self).ram,
            final(self).vram_modified == old(self).vram_modified,
            final(self).audio_enabled == old(self).audio_enabled,
    {
        self.vram = vec![false; VRAM_SIZE];
    }

    /// Whether framebuffer cell `(x, y)` is set.
    pub fn pixel(&self, x: usize, y: usize) -> (r: bool)
        requires
            self.wf(),
            x < 64,
            y < 32,
        ensures
            r == self.vram@[x + 64 * y],
    {
        self.vram[x + 64 * y]
    }
}

} // verus!
