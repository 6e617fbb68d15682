//! A CHIP-8 virtual machine: a verified instruction interpreter over an
//! emulated memory, register file, monochrome framebuffer and hex keypad.

pub mod cpu;
pub mod peripherals;
mod rng;

pub use cpu::Cpu;
pub use cpu::Fault;
pub use cpu::MachineState;
pub use peripherals::Framebuffer;
pub use peripherals::Keypad;
pub use peripherals::Row;

use vstd::prelude::*;

verus! {

/// The whole machine: the interpreter core together with the
/// framebuffer it draws to and the keypad snapshot it reads. The
/// framebuffer and keypad are public so the host can render pixels and
/// write key states between cycles.
pub struct Chip8 {
    cpu: Cpu,
    pub framebuffer: Framebuffer,
    pub keypad: Keypad,
}

impl Chip8 {
    /// The interpreter core's mathematical state.
    pub closed spec fn machine(&self) -> cpu::MachineState {
        self.cpu@
    }

    /// The framebuffer rows.
    pub closed spec fn screen(&self) -> Seq<u64> {
        self.framebuffer@
    }

    /// The keypad flags.
    pub closed spec fn keys(&self) -> Seq<bool> {
        self.keypad@
    }

    /// A fresh machine with a blank screen, all keys up, and the
    /// pseudo-random source seeded from the operating system.
    pub fn new() -> (c: Chip8)
        ensures
            c.machine().wf(),
            c.machine().ram == cpu::initial_ram(),
            c.machine().v == Seq::new(16, |k: int| 0u8),
            c.machine().i == 0,
            c.machine().pc == cpu::ENTRY,
            c.machine().dt == 0,
            c.machine().st == 0,
            c.machine().stack == Seq::<u16>::empty(),
            forall|r: int| 0 <= r < 32 ==> c.screen()[r] == 0u64,
            forall|k: int| 0 <= k < 16 ==> !c.keys()[k],
    {
        Chip8 { cpu: Cpu::new(), framebuffer: Framebuffer::new(), keypad: Keypad::new() }
    }

    /// A fresh machine whose pseudo-random source is seeded explicitly,
    /// so runs are reproducible.
    pub fn new_seeded(seed: u64) -> (c: Chip8)
        ensures
            c.machine().wf(),
            c.machine().ram == cpu::initial_ram(),
            c.machine().v == Seq::new(16, |k: int| 0u8),
            c.machine().i == 0,
            c.machine().pc == cpu::ENTRY,
            c.machine().dt == 0,
            c.machine().st == 0,
            c.machine().stack == Seq::<u16>::empty(),
            forall|r: int| 0 <= r < 32 ==> c.screen()[r] == 0u64,
            forall|k: int| 0 <= k < 16 ==> !c.keys()[k],
    {
        Chip8 {
            cpu: Cpu::new_seeded(seed),
            framebuffer: Framebuffer::new(),
            keypad: Keypad::new(),
        }
    }

    /// Loads a ROM image, resetting the machine first; see
    /// `Cpu::load_rom`. The screen and keypad are left as they are.
    pub fn load_rom(&mut self, rom: &[u8]) -> (r: Result<(), Fault>)
        requires
            old(self).machine().wf(),
        ensures
            final(self).machine().wf(),
            final(self).screen() == old(self).screen(),
            final(self).keys() == old(self).keys(),
            rom@.len() > cpu::ROM_CAPACITY ==> r == Err::<(), Fault>(Fault::RomTooLarge {
                len: rom@.len() as usize,
            }) && final(self).machine() == old(self).machine(),
            rom@.len() <= cpu::ROM_CAPACITY ==> r == Ok::<(), Fault>(()) && final(self).machine()
                == (cpu::MachineState {
                ram: cpu::loaded_ram(old(self).machine().ram, rom@),
                v: Seq::new(16, |k: int| 0u8),
                i: 0,
                pc: cpu::ENTRY,
                dt: 0,
                st: 0,
                stack: Seq::<u16>::empty(),
            }),
    {
        self.cpu.load_rom(rom)
    }

    /// One interpreter cycle against the current keypad snapshot; see
    /// `Cpu::execute_cycle`.
    pub fn execute_cycle(&mut self) -> (r: Result<(), Fault>)
        requires
            old(self).machine().wf(),
        ensures
            final(self).machine().wf(),
            final(self).keys() == old(self).keys(),
            exists|rnd: u8|
                #[trigger] cpu::step_to(
                    old(self).machine(),
                    old(self).screen(),
                    old(self).keys(),
                    rnd,
                    final(self).machine(),
                    final(self).screen(),
                    r,
                ),
    {
        let ghost m_old = self.cpu@;
        let ghost fb_old = self.framebuffer@;
        let ghost keys_old = self.keypad@;
        let r = self.cpu.execute_cycle(&mut self.framebuffer, &mut self.keypad);
        proof {
            let w = choose|rnd: u8|
                cpu::step_to(m_old, fb_old, keys_old, rnd, self.cpu@, self.framebuffer@, r);
            assert(cpu::step_to(
                old(self).machine(),
                old(self).screen(),
                old(self).keys(),
                w,
                self.machine(),
                self.screen(),
                r,
            ));
        }
        r
    }

    /// One 60 Hz timer tick; see `Cpu::decrement_timers`.
    pub fn decrement_timers(&mut self)
        ensures
            final(self).machine() == (cpu::MachineState {
                dt: if old(self).machine().dt > 0 {
                    (old(self).machine().dt - 1) as u8
                } else {
                    0u8
                },
                st: if old(self).machine().st > 0 {
                    (old(self).machine().st - 1) as u8
                } else {
                    0u8
                },
                ..old(self).machine()
            }),
            final(self).screen() == old(self).screen(),
            final(self).keys() == old(self).keys(),
    {
        self.cpu.decrement_timers();
    }

    /// A copy of the framebuffer, for a renderer.
    pub fn framebuffer(&self) -> (fb: Framebuffer)
        ensures
            fb@ == self.screen(),
    {
        self.framebuffer
    }

    /// The value of general-purpose register `idx`.
    pub fn register(&self, idx: u8) -> (value: u8)
        requires
            idx < 16,
        ensures
            value == self.machine().v[idx as int],
    {
        self.cpu.register(idx)
    }

    /// The index register.
    pub fn index_register(&self) -> (value: u16)
        ensures
            value == self.machine().i,
    {
        self.cpu.index_register()
    }

    /// The program counter.
    pub fn program_counter(&self) -> (value: u16)
        ensures
            value == self.machine().pc,
    {
        self.cpu.program_counter()
    }

    /// The delay timer.
    pub fn delay_timer(&self) -> (value: u8)
        ensures
            value == self.machine().dt,
    {
        self.cpu.delay_timer()
    }

    /// The sound timer.
    pub fn sound_timer(&self) -> (value: u8)
        ensures
            value == self.machine().st,
    {
        self.cpu.sound_timer()
    }

    /// How many return addresses the call stack holds.
    pub fn stack_depth(&self) -> (depth: usize)
        ensures
            depth == self.machine().stack.len(),
    {
        self.cpu.stack_depth()
    }

    /// The byte in memory at `addr`.
    pub fn read_memory(&self, addr: u16) -> (byte: u8)
        requires
            addr < cpu::RAM_SIZE,
        ensures
            byte == self.machine().ram[addr as int],
    {
        self.cpu.read_memory(addr)
    }
}

} // verus!
