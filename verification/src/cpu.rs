//! The fetch-decode-execute engine: memory, register file, timers, call
//! stack and the interpreter for the machine's instruction set.

use vstd::prelude::*;

use crate::peripherals::{Framebuffer, Keypad};
use crate::peripherals::{draw_collides, draw_rows, first_pressed_from};
use crate::rng;

verus! {

/// Size of the address space in bytes.
pub const RAM_SIZE: usize = 4096;

/// Address of the program entry point; everything below it is reserved
/// for interpreter data (the font sprites).
pub const ENTRY: u16 = 0x200;

/// Bytes available to a loaded program: the address space above `ENTRY`.
pub const ROM_CAPACITY: usize = 3584;

/// Deepest allowed call nesting; one more call is a fault.
pub const STACK_LIMIT: usize = 16;

/// The font sprite data written at address 0 on machine creation:
/// 16 glyphs of 5 bytes each, for the hexadecimal digits 0 through F.
pub const FONT: [u8; 80] = [
    0xF0, 0x90, 0x90, 0x90, 0xF0,
    0x20, 0x60, 0x20, 0x20, 0x70,
    0xF0, 0x10, 0xF0, 0x80, 0xF0,
    0xF0, 0x10, 0xF0, 0x10, 0xF0,
    0x90, 0x90, 0xF0, 0x10, 0x10,
    0xF0, 0x80, 0xF0, 0x10, 0xF0,
    0xF0, 0x80, 0xF0, 0x90, 0xF0,
    0xF0, 0x10, 0x20, 0x40, 0x40,
    0xF0, 0x90, 0xF0, 0x90, 0xF0,
    0xF0, 0x90, 0xF0, 0x10, 0xF0,
    0xF0, 0x90, 0xF0, 0x90, 0x90,
    0xE0, 0x90, 0xE0, 0x90, 0xE0,
    0xF0, 0x80, 0x80, 0x80, 0xF0,
    0xE0, 0x90, 0x90, 0x90, 0xE0,
    0xF0, 0x80, 0xF0, 0x80, 0xF0,
    0xF0, 0x80, 0xF0, 0x80, 0x80,
];

/// A fatal condition raised by the interpreter, with enough context
/// (offending address, opcode, key or length) for diagnosis. On any
/// fault the machine and the framebuffer are left unchanged.
#[derive(Clone, Copy, Debug, PartialEq, Eq, Structural)]
pub enum Fault {
    /// The two bytes at `addr` match no instruction.
    UnrecognizedOpcode { addr: u16, opcode: u16 },
    /// A call at `addr` would nest deeper than `STACK_LIMIT`.
    StackOverflow { addr: u16 },
    /// A return at `addr` found the call stack empty.
    StackUnderflow { addr: u16 },
    /// An instruction fetch or a data access would touch memory at or
    /// beyond `RAM_SIZE`; `addr` is the lowest address of the access.
    MemoryOutOfBounds { addr: u16 },
    /// A key-state test named a key index outside the 16-key pad.
    KeyOutOfRange { key: u8 },
    /// A ROM image longer than `ROM_CAPACITY` was refused; nothing was
    /// loaded.
    RomTooLarge { len: usize },
}

/// The mathematical view of the machine: memory, the 16 registers, the
/// index register, the program counter, both timers and the call stack.
/// The pseudo-random source is opaque and has no view.
pub struct MachineState {
    pub ram: Seq<u8>,
    pub v: Seq<u8>,
    pub i: u16,
    pub pc: u16,
    pub dt: u8,
    pub st: u8,
    pub stack: Seq<u16>,
}

impl MachineState {
    /// Well-formedness: fixed memory and register file sizes, bounded
    /// call depth. Established by the constructors and preserved by
    /// every operation.
    pub open spec fn wf(self) -> bool {
        self.ram.len() == RAM_SIZE && self.v.len() == 16 && self.stack.len() <= STACK_LIMIT
    }
}

/// Memory as the machine starts: font data in the first 80 bytes, zero
/// everywhere else.
pub open spec fn initial_ram() -> Seq<u8> {
    Seq::new(RAM_SIZE as nat, |a: int| if a < 80 { FONT@[a] } else { 0u8 })
}

/// Memory after a ROM image is copied in at the entry point, with all
/// other bytes as they were.
pub open spec fn loaded_ram(ram: Seq<u8>, rom: Seq<u8>) -> Seq<u8> {
    Seq::new(RAM_SIZE as nat, |a: int|
        if ENTRY <= a < ENTRY + rom.len() { rom[a - ENTRY] } else { ram[a] })
}

/// What one interpreter cycle leaves behind: the machine, the
/// framebuffer rows, and the fault if the cycle raised one. A faulting
/// cycle changes nothing.
pub struct StepOutcome {
    pub m: MachineState,
    pub fb: Seq<u64>,
    pub fault: Option<Fault>,
}

/// A completed instruction.
pub open spec fn ok_step(m: MachineState, fb: Seq<u64>) -> StepOutcome {
    StepOutcome { m, fb, fault: None }
}

/// A faulted instruction: the machine and the framebuffer stay as they
/// were before the cycle.
pub open spec fn fault_step(m: MachineState, fb: Seq<u64>, f: Fault) -> StepOutcome {
    StepOutcome { m, fb, fault: Some(f) }
}

/// Memory after registers 0 through `x` are stored at address `i`.
pub open spec fn store_regs(ram: Seq<u8>, v: Seq<u8>, i: int, x: int) -> Seq<u8> {
    Seq::new(RAM_SIZE as nat, |a: int| if i <= a <= i + x { v[a - i] } else { ram[a] })
}

/// The register file after registers 0 through `x` are read back from
/// memory at address `i`.
pub open spec fn load_regs(v: Seq<u8>, ram: Seq<u8>, i: int, x: int) -> Seq<u8> {
    Seq::new(16, |r: int| if r <= x { ram[i + r] } else { v[r] })
}

/// The class-0 instructions: clear-screen, return, and the ignored
/// machine-code call.
pub open spec fn spec_class0(m: MachineState, fb: Seq<u64>, b1: u8, b2: u8) -> StepOutcome {
    let x2 = b1 & 0x0F;
    let n3 = b2 >> 4;
    let n4 = b2 & 0x0F;
    let m2 = MachineState { pc: (m.pc + 2) as u16, ..m };
    if x2 == 0 && n3 == 0xE && n4 == 0 {
        // clear-screen
        ok_step(m2, Seq::new(32, |r: int| 0u64))
    } else if x2 == 0 && n3 == 0xE && n4 == 0xE {
        // return
        if m.stack.len() == 0 {
            fault_step(m, fb, Fault::StackUnderflow { addr: m.pc })
        } else {
            ok_step(MachineState { pc: m.stack.last(), stack: m.stack.drop_last(), ..m2 }, fb)
        }
    } else {
        // machine-code call: ignored
        ok_step(m2, fb)
    }
}

/// The register-to-register operations (class 8): copy, bitwise
/// or/and/xor, add and both subtractions with their flag, and the two
/// single-register shifts.
pub open spec fn spec_class8(m: MachineState, fb: Seq<u64>, b1: u8, b2: u8) -> StepOutcome {
    let n4 = b2 & 0x0F;
    let x = (b1 & 0x0F) as int;
    let y = (b2 >> 4) as int;
    let opcode = ((b1 as u16) << 8) | (b2 as u16);
    let unrecognized = Fault::UnrecognizedOpcode { addr: m.pc, opcode };
    let m2 = MachineState { pc: (m.pc + 2) as u16, ..m };
    if n4 == 0 {
        ok_step(MachineState { v: m.v.update(x, m.v[y]), ..m2 }, fb)
    } else if n4 == 1 {
        ok_step(MachineState { v: m.v.update(x, m.v[x] | m.v[y]), ..m2 }, fb)
    } else if n4 == 2 {
        ok_step(MachineState { v: m.v.update(x, m.v[x] & m.v[y]), ..m2 }, fb)
    } else if n4 == 3 {
        ok_step(MachineState { v: m.v.update(x, m.v[x] ^ m.v[y]), ..m2 }, fb)
    } else if n4 == 4 {
        // add Vx, Vy: wraps; flag = 1 iff the sum overflows 8 bits
        let flag: u8 = if m.v[x] + m.v[y] > 255 { 1 } else { 0 };
        let v1 = m.v.update(0xF, flag);
        ok_step(
            MachineState { v: v1.update(x, ((m.v[x] + m.v[y]) % 256) as u8), ..m2 },
            fb,
        )
    } else if n4 == 5 {
        // sub Vx, Vy: wraps; flag = 1 iff no borrow (Vx >= Vy)
        let flag: u8 = if m.v[x] >= m.v[y] { 1 } else { 0 };
        let v1 = m.v.update(0xF, flag);
        ok_step(
            MachineState { v: v1.update(x, ((m.v[x] - m.v[y]) % 256) as u8), ..m2 },
            fb,
        )
    } else if n4 == 6 {
        // shr Vx: flag = pre-shift low bit; halve (Vx only)
        let v1 = m.v.update(0xF, (m.v[x] % 2) as u8);
        ok_step(MachineState { v: v1.update(x, (v1[x] / 2) as u8), ..m2 }, fb)
    } else if n4 == 7 {
        // subn Vx, Vy: Vx = Vy - Vx; flag = 1 iff no borrow (Vy >= Vx)
        let flag: u8 = if m.v[y] >= m.v[x] { 1 } else { 0 };
        let v1 = m.v.update(0xF, flag);
        ok_step(
            MachineState { v: v1.update(x, ((m.v[y] - m.v[x]) % 256) as u8), ..m2 },
            fb,
        )
    } else if n4 == 0xE {
        // shl Vx: flag = pre-shift high bit; double modulo 256 (Vx only)
        let v1 = m.v.update(0xF, (m.v[x] / 128) as u8);
        ok_step(MachineState { v: v1.update(x, ((v1[x] * 2) % 256) as u8), ..m2 }, fb)
    } else {
        fault_step(m, fb, unrecognized)
    }
}

/// The draw instruction: an `n`-byte sprite from memory at the index
/// register, drawn at (Vx, Vy); the flag register reports a collision.
/// A sprite extending past memory faults.
pub open spec fn spec_draw(m: MachineState, fb: Seq<u64>, b1: u8, b2: u8) -> StepOutcome {
    let x = (b1 & 0x0F) as int;
    let y = (b2 >> 4) as int;
    let m2 = MachineState { pc: (m.pc + 2) as u16, ..m };
    if m.i + (b2 & 0x0F) > RAM_SIZE {
        fault_step(m, fb, Fault::MemoryOutOfBounds { addr: m.i })
    } else {
        let sprite = m.ram.subrange(m.i as int, m.i + (b2 & 0x0F));
        let col = draw_collides(fb, m.v[x], m.v[y], sprite, (b2 & 0x0F) as int);
        ok_step(
            MachineState { v: m.v.update(0xF, if col { 1u8 } else { 0u8 }), ..m2 },
            draw_rows(fb, m.v[x], m.v[y], sprite, (b2 & 0x0F) as int),
        )
    }
}

/// The key-state skips (class E): skip when the key named by Vx is
/// down, or when it is up; a key index past the pad faults.
pub open spec fn spec_classe(m: MachineState, fb: Seq<u64>, keys: Seq<bool>, b1: u8, b2: u8) -> StepOutcome {
    let n3 = b2 >> 4;
    let n4 = b2 & 0x0F;
    let x = (b1 & 0x0F) as int;
    let opcode = ((b1 as u16) << 8) | (b2 as u16);
    let unrecognized = Fault::UnrecognizedOpcode { addr: m.pc, opcode };
    let m2 = MachineState { pc: (m.pc + 2) as u16, ..m };
    let m_skip = MachineState { pc: (m.pc + 4) as u16, ..m };
    if n3 == 9 && n4 == 0xE {
        // skip-if-key-down Vx
        if m.v[x] >= 16 {
            fault_step(m, fb, Fault::KeyOutOfRange { key: m.v[x] })
        } else {
            ok_step(if keys[m.v[x] as int] { m_skip } else { m2 }, fb)
        }
    } else if n3 == 0xA && n4 == 1 {
        // skip-if-key-up Vx
        if m.v[x] >= 16 {
            fault_step(m, fb, Fault::KeyOutOfRange { key: m.v[x] })
        } else {
            ok_step(if !keys[m.v[x] as int] { m_skip } else { m2 }, fb)
        }
    } else {
        fault_step(m, fb, unrecognized)
    }
}

/// The timer, key-wait, index-register and memory-block instructions
/// (class F).
pub open spec fn spec_classf(m: MachineState, fb: Seq<u64>, keys: Seq<bool>, b1: u8, b2: u8) -> StepOutcome {
    let n3 = b2 >> 4;
    let n4 = b2 & 0x0F;
    let x = (b1 & 0x0F) as int;
    let opcode = ((b1 as u16) << 8) | (b2 as u16);
    let unrecognized = Fault::UnrecognizedOpcode { addr: m.pc, opcode };
    let m2 = MachineState { pc: (m.pc + 2) as u16, ..m };
    if n3 == 0 && n4 == 7 {
        // load Vx, delay-timer
        ok_step(MachineState { v: m.v.update(x, m.dt), ..m2 }, fb)
    } else if n3 == 0 && n4 == 0xA {
        // wait-for-key Vx: with no key down the program counter is
        // rewound, so the same instruction is fetched next cycle
        match first_pressed_from(keys, 0) {
            Some(key) => ok_step(MachineState { v: m.v.update(x, key), ..m2 }, fb),
            None => ok_step(m, fb),
        }
    } else if n3 == 1 && n4 == 5 {
        ok_step(MachineState { dt: m.v[x], ..m2 }, fb)
    } else if n3 == 1 && n4 == 8 {
        ok_step(MachineState { st: m.v[x], ..m2 }, fb)
    } else if n3 == 1 && n4 == 0xE {
        // add I, Vx: 16-bit, wraps, no flag
        let s = m.i + m.v[x];
        ok_step(
            MachineState {
                i: if s > 0xFFFF { (s - 0x10000) as u16 } else { s as u16 },
                ..m2
            },
            fb,
        )
    } else if n3 == 2 && n4 == 9 {
        // load I, font(Vx)
        ok_step(MachineState { i: (5 * m.v[x]) as u16, ..m2 }, fb)
    } else if n3 == 3 && n4 == 3 {
        // store-BCD Vx
        if m.i + 2 >= RAM_SIZE {
            fault_step(m, fb, Fault::MemoryOutOfBounds { addr: m.i })
        } else {
            let ram1 = m.ram.update(m.i as int, (m.v[x] / 100) as u8).update(
                m.i + 1,
                ((m.v[x] / 10) % 10) as u8,
            ).update(m.i + 2, (m.v[x] % 10) as u8);
            ok_step(MachineState { ram: ram1, ..m2 }, fb)
        }
    } else if n3 == 5 && n4 == 5 {
        // store-registers Vx
        if m.i + x >= RAM_SIZE {
            fault_step(m, fb, Fault::MemoryOutOfBounds { addr: m.i })
        } else {
            ok_step(
                MachineState { ram: store_regs(m.ram, m.v, m.i as int, x), ..m2 },
                fb,
            )
        }
    } else if n3 == 6 && n4 == 5 {
        // load-registers Vx
        if m.i + x >= RAM_SIZE {
            fault_step(m, fb, Fault::MemoryOutOfBounds { addr: m.i })
        } else {
            ok_step(
                MachineState { v: load_regs(m.v, m.ram, m.i as int, x), ..m2 },
                fb,
            )
        }
    } else {
        fault_step(m, fb, unrecognized)
    }
}

/// The effect of the instruction `b1 b2` on the machine `m`, the
/// framebuffer `fb` and under the keypad snapshot `keys`; `rnd` is the
/// byte the machine's pseudo-random source yields if the instruction
/// draws one. This is the meaning of every opcode in the instruction
/// set; a bit pattern matching none of them faults.
pub open spec fn spec_execute(
    m: MachineState,
    fb: Seq<u64>,
    keys: Seq<bool>,
    rnd: u8,
    b1: u8,
    b2: u8,
) -> StepOutcome {
    let n1 = b1 >> 4;
    let n4 = b2 & 0x0F;
    let x = (b1 & 0x0F) as int;
    let y = (b2 >> 4) as int;
    let kk = b2;
    let nnn = (((b1 & 0x0F) as u16) << 8) | (b2 as u16);
    let opcode = ((b1 as u16) << 8) | (b2 as u16);
    let unrecognized = Fault::UnrecognizedOpcode { addr: m.pc, opcode };
    let m2 = MachineState { pc: (m.pc + 2) as u16, ..m };
    let m_skip = MachineState { pc: (m.pc + 4) as u16, ..m };
    if n1 == 0 {
        spec_class0(m, fb, b1, b2)
    } else if n1 == 1 {
        // jump nnn
        ok_step(MachineState { pc: nnn, ..m2 }, fb)
    } else if n1 == 2 {
        // call nnn
        if m.stack.len() >= STACK_LIMIT {
            fault_step(m, fb, Fault::StackOverflow { addr: m.pc })
        } else {
            ok_step(MachineState { pc: nnn, stack: m.stack.push((m.pc + 2) as u16), ..m2 }, fb)
        }
    } else if n1 == 3 {
        // skip-eq Vx, kk
        ok_step(if m.v[x] == kk { m_skip } else { m2 }, fb)
    } else if n1 == 4 {
        // skip-neq Vx, kk
        ok_step(if m.v[x] != kk { m_skip } else { m2 }, fb)
    } else if n1 == 5 {
        if n4 == 0 {
            // skip-eq Vx, Vy
            ok_step(if m.v[x] == m.v[y] { m_skip } else { m2 }, fb)
        } else {
            fault_step(m, fb, unrecognized)
        }
    } else if n1 == 6 {
        // load Vx, kk
        ok_step(MachineState { v: m.v.update(x, kk), ..m2 }, fb)
    } else if n1 == 7 {
        // add Vx, kk: wraps modulo 256, no flag
        ok_step(MachineState { v: m.v.update(x, ((m.v[x] + kk) % 256) as u8), ..m2 }, fb)
    } else if n1 == 8 {
        spec_class8(m, fb, b1, b2)
    } else if n1 == 9 {
        if n4 == 0 {
            // skip-neq Vx, Vy
            ok_step(if m.v[x] != m.v[y] { m_skip } else { m2 }, fb)
        } else {
            fault_step(m, fb, unrecognized)
        }
    } else if n1 == 0xA {
        // load I, nnn
        ok_step(MachineState { i: nnn, ..m2 }, fb)
    } else if n1 == 0xB {
        // jump V0 + nnn
        ok_step(MachineState { pc: (nnn + m.v[0]) as u16, ..m2 }, fb)
    } else if n1 == 0xC {
        // random Vx, kk
        ok_step(MachineState { v: m.v.update(x, rnd & kk), ..m2 }, fb)
    } else if n1 == 0xD {
        spec_draw(m, fb, b1, b2)
    } else if n1 == 0xE {
        spec_classe(m, fb, keys, b1, b2)
    } else if n1 == 0xF {
        spec_classf(m, fb, keys, b1, b2)
    } else {
        fault_step(m, fb, unrecognized)
    }
}

/// One full cycle on the machine `m`: fetch the two instruction bytes
/// at the program counter (big-endian), advance the counter by two,
/// then execute. A fetch that would read past memory faults.
pub open spec fn spec_cycle(
    m: MachineState,
    fb: Seq<u64>,
    keys: Seq<bool>,
    rnd: u8,
) -> StepOutcome {
    if m.pc + 1 >= RAM_SIZE {
        fault_step(m, fb, Fault::MemoryOutOfBounds { addr: m.pc })
    } else {
        spec_execute(m, fb, keys, rnd, m.ram[m.pc as int], m.ram[m.pc as int + 1])
    }
}

/// Whether a machine, a framebuffer and a returned result are exactly
/// what the outcome `out` prescribes.
pub open spec fn outcome_matches(
    out: StepOutcome,
    m_post: MachineState,
    fb_post: Seq<u64>,
    r: Result<(), Fault>,
) -> bool {
    m_post == out.m && fb_post == out.fb && r == (match out.fault {
        Some(f) => Err::<(), Fault>(f),
        None => Ok::<(), Fault>(()),
    })
}

/// Relates the machine and framebuffer before a cycle to those after
/// it, under the keypad snapshot `keys` and the random byte `rnd`: the
/// cycle behaved exactly as `spec_cycle` says, and returned the fault
/// if there was one.
pub open spec fn step_to(
    m: MachineState,
    fb: Seq<u64>,
    keys: Seq<bool>,
    rnd: u8,
    m_post: MachineState,
    fb_post: Seq<u64>,
    r: Result<(), Fault>,
) -> bool {
    let out = spec_cycle(m, fb, keys, rnd);
    m_post == out.m && fb_post == out.fb && r == (match out.fault {
        Some(f) => Err::<(), Fault>(f),
        None => Ok::<(), Fault>(()),
    })
}

/// The lowest-pressed-key search is sound and complete from any start
/// index.
proof fn lemma_first_pressed_sound(keys: Seq<bool>, s: int)
    requires
        0 <= s <= 16,
        keys.len() == 16,
    ensures
        first_pressed_from(keys, s) is None ==> (forall|j: int| s <= j < 16 ==> !keys[j]),
        first_pressed_from(keys, s) matches Some(k) ==> s <= k < 16 && keys[k as int] && (forall|
            j: int,
        | s <= j < k ==> !keys[j]),
    decreases 16 - s,
{
    if s < 16 && !keys[s] {
        lemma_first_pressed_sound(keys, s + 1);
    }
}

/// Only the random instruction consults the pseudo-random byte: for
/// every other instruction (and for every fault) a cycle's outcome is
/// the same whatever byte the source would have yielded, so the
/// interpreter is deterministic apart from that one instruction.
pub proof fn lemma_cycle_ignores_random_byte(
    m: MachineState,
    fb: Seq<u64>,
    keys: Seq<bool>,
    r1: u8,
    r2: u8,
)
    requires
        m.pc + 1 < RAM_SIZE ==> m.ram[m.pc as int] >> 4 != 0xC,
    ensures
        spec_cycle(m, fb, keys, r1) == spec_cycle(m, fb, keys, r2),
{
}

/// Arithmetic on the registers wraps modulo 256: the add-immediate
/// instruction leaves Vx + kk mod 256 in Vx, touches no other
/// register (in particular no flag), and advances the program counter.
pub proof fn lemma_add_immediate_wraps(m: MachineState, fb: Seq<u64>, keys: Seq<bool>, rnd: u8)
    requires
        m.wf(),
        m.pc + 1 < RAM_SIZE,
        m.ram[m.pc as int] >> 4 == 7,
    ensures
        ({
            let x = (m.ram[m.pc as int] & 0x0F) as int;
            let kk = m.ram[m.pc as int + 1];
            let out = spec_cycle(m, fb, keys, rnd);
            out.fault is None && out.fb == fb && out.m.pc == m.pc + 2 && out.m.v[x] == (m.v[x]
                + kk) % 256 && (forall|j: int| 0 <= j < 16 && j != x ==> out.m.v[j] == m.v[j])
        }),
{
    let b1 = m.ram[m.pc as int];
    assert(b1 & 0x0F < 16) by (bit_vector);
}

/// The add-register instruction wraps modulo 256 and sets the flag
/// register to 1 exactly when the unsigned sum exceeds 255 (stated for
/// destinations other than the flag register itself, which the result
/// would overwrite).
pub proof fn lemma_add_register_flag(m: MachineState, fb: Seq<u64>, keys: Seq<bool>, rnd: u8)
    requires
        m.wf(),
        m.pc + 1 < RAM_SIZE,
        m.ram[m.pc as int] >> 4 == 8,
        m.ram[m.pc as int + 1] & 0x0F == 4,
        m.ram[m.pc as int] & 0x0F != 0xF,
    ensures
        ({
            let x = (m.ram[m.pc as int] & 0x0F) as int;
            let y = (m.ram[m.pc as int + 1] >> 4) as int;
            let out = spec_cycle(m, fb, keys, rnd);
            out.fault is None && out.fb == fb && out.m.pc == m.pc + 2 && out.m.v[x] == (m.v[x]
                + m.v[y]) % 256 && out.m.v[0xF] == (if m.v[x] + m.v[y] > 255 {
                1u8
            } else {
                0u8
            })
        }),
{
    let b1 = m.ram[m.pc as int];
    let b2 = m.ram[m.pc as int + 1];
    assert(b1 & 0x0F < 16 && b2 >> 4 < 16) by (bit_vector);
}

/// The subtract-register instruction wraps modulo 256 and sets the
/// flag register to 1 exactly when no borrow occurs (Vx >= Vy), again
/// for destinations other than the flag register.
pub proof fn lemma_sub_register_flag(m: MachineState, fb: Seq<u64>, keys: Seq<bool>, rnd: u8)
    requires
        m.wf(),
        m.pc + 1 < RAM_SIZE,
        m.ram[m.pc as int] >> 4 == 8,
        m.ram[m.pc as int + 1] & 0x0F == 5,
        m.ram[m.pc as int] & 0x0F != 0xF,
    ensures
        ({
            let x = (m.ram[m.pc as int] & 0x0F) as int;
            let y = (m.ram[m.pc as int + 1] >> 4) as int;
            let out = spec_cycle(m, fb, keys, rnd);
            out.fault is None && out.fb == fb && out.m.pc == m.pc + 2 && out.m.v[x] == (m.v[x]
                - m.v[y]) % 256 && out.m.v[0xF] == (if m.v[x] >= m.v[y] {
                1u8
            } else {
                0u8
            })
        }),
{
    let b1 = m.ram[m.pc as int];
    let b2 = m.ram[m.pc as int + 1];
    assert(b1 & 0x0F < 16 && b2 >> 4 < 16) by (bit_vector);
}

/// A call pushes the address of the instruction that follows it, and
/// the matching return — executed from any later state in which the
/// stack is as the call left it — restores the program counter to
/// exactly that address and the stack to what it was before the call.
/// This holds at any nesting depth up to the bound.
pub proof fn lemma_call_then_return(
    m: MachineState,
    fb: Seq<u64>,
    keys: Seq<bool>,
    rnd: u8,
    m2: MachineState,
    fb2: Seq<u64>,
    keys2: Seq<bool>,
    rnd2: u8,
)
    requires
        m.wf(),
        m.pc + 1 < RAM_SIZE,
        m.ram[m.pc as int] >> 4 == 2,
        m.stack.len() < STACK_LIMIT,
        m2.wf(),
        m2.pc + 1 < RAM_SIZE,
        m2.ram[m2.pc as int] == 0x00,
        m2.ram[m2.pc as int + 1] == 0xEE,
        m2.stack == spec_cycle(m, fb, keys, rnd).m.stack,
    ensures
        spec_cycle(m, fb, keys, rnd).fault is None,
        spec_cycle(m, fb, keys, rnd).m.stack == m.stack.push((m.pc + 2) as u16),
        spec_cycle(m2, fb2, keys2, rnd2).fault is None,
        spec_cycle(m2, fb2, keys2, rnd2).m.pc == m.pc + 2,
        spec_cycle(m2, fb2, keys2, rnd2).m.stack == m.stack,
{
    assert(0x00u8 >> 4 == 0 && 0x00u8 & 0x0F == 0 && 0xEEu8 >> 4 == 0xE && 0xEEu8 & 0x0F == 0xE)
        by (bit_vector);
    assert(m.stack.push((m.pc + 2) as u16).drop_last() =~= m.stack);
}

/// The wait-for-key instruction: with no key pressed the cycle leaves
/// the whole machine unchanged (the program counter is rewound, so the
/// same instruction is fetched again); once a key is pressed, the
/// lowest-indexed pressed key lands in Vx and the program counter
/// advances normally.
pub proof fn lemma_wait_for_key(m: MachineState, fb: Seq<u64>, keys: Seq<bool>, rnd: u8)
    requires
        m.wf(),
        keys.len() == 16,
        m.pc + 1 < RAM_SIZE,
        m.ram[m.pc as int] >> 4 == 0xF,
        m.ram[m.pc as int + 1] >> 4 == 0,
        m.ram[m.pc as int + 1] & 0x0F == 0xA,
    ensures
        spec_cycle(m, fb, keys, rnd).fault is None,
        spec_cycle(m, fb, keys, rnd).fb == fb,
        (forall|j: int| 0 <= j < 16 ==> !keys[j]) ==> spec_cycle(m, fb, keys, rnd).m == m,
        ({
            let x = (m.ram[m.pc as int] & 0x0F) as int;
            let out = spec_cycle(m, fb, keys, rnd);
            match first_pressed_from(keys, 0) {
                None => out.m == m && (forall|j: int| 0 <= j < 16 ==> !keys[j]),
                Some(k) => out.m.v == m.v.update(x, k) && out.m.pc == m.pc + 2 && keys[k as int]
                    && (forall|j: int| 0 <= j < k ==> !keys[j]),
            }
        }),
{
    let b1 = m.ram[m.pc as int];
    assert(b1 & 0x0F < 16) by (bit_vector);
    lemma_first_pressed_sound(keys, 0);
}

/// Storing the binary-coded decimal of Vx writes its hundreds, tens
/// and ones digits to memory at I, I+1 and I+2.
pub proof fn lemma_store_bcd(m: MachineState, fb: Seq<u64>, keys: Seq<bool>, rnd: u8)
    requires
        m.wf(),
        m.pc + 1 < RAM_SIZE,
        m.ram[m.pc as int] >> 4 == 0xF,
        m.ram[m.pc as int + 1] >> 4 == 3,
        m.ram[m.pc as int + 1] & 0x0F == 3,
        m.i + 2 < RAM_SIZE,
    ensures
        ({
            let x = (m.ram[m.pc as int] & 0x0F) as int;
            let out = spec_cycle(m, fb, keys, rnd);
            out.fault is None && out.fb == fb && out.m.pc == m.pc + 2 && out.m.ram[m.i as int]
                == m.v[x] / 100 && out.m.ram[m.i + 1] == (m.v[x] / 10) % 10 && out.m.ram[m.i + 2]
                == m.v[x] % 10
        }),
{
    let b1 = m.ram[m.pc as int];
    assert(b1 & 0x0F < 16) by (bit_vector);
}

/// Immediately after a ROM load the program counter stands at the
/// entry point, so the first cycle executes the ROM's first
/// instruction, reading its two bytes in big-endian order.
pub proof fn lemma_first_cycle_after_load(
    m: MachineState,
    fb: Seq<u64>,
    keys: Seq<bool>,
    rnd: u8,
    ram0: Seq<u8>,
    rom: Seq<u8>,
)
    requires
        ram0.len() == RAM_SIZE,
        2 <= rom.len() <= ROM_CAPACITY,
        m.ram == loaded_ram(ram0, rom),
        m.pc == ENTRY,
    ensures
        spec_cycle(m, fb, keys, rnd) == spec_execute(m, fb, keys, rnd, rom[0], rom[1]),
{
    assert(m.ram[ENTRY as int] == rom[0]);
    assert(m.ram[ENTRY as int + 1] == rom[1]);
}

/// The machine: owned exclusively by the interpreter; the framebuffer
/// and keypad are passed in at each cycle.
pub struct Cpu {
    ram: [u8; RAM_SIZE],
    v: [u8; 16],
    i: u16,
    pc: u16,
    dt: u8,
    st: u8,
    rng: rand::rngs::StdRng,
    stack: Vec<u16>,
}

impl View for Cpu {
    type V = MachineState;

    closed spec fn view(&self) -> MachineState {
        MachineState {
            ram: self.ram@,
            v: self.v@,
            i: self.i,
            pc: self.pc,
            dt: self.dt,
            st: self.st,
            stack: self.stack@,
        }
    }
}

impl Cpu {
    /// A fresh machine: font data in low memory, all registers, timers
    /// and the call stack cleared, program counter at the entry point.
    /// The pseudo-random source is seeded from the operating system.
    pub fn new() -> (cpu: Cpu)
        ensures
            cpu@.wf(),
            cpu@.ram == initial_ram(),
            cpu@.v == Seq::new(16, |k: int| 0u8),
            cpu@.i == 0,
            cpu@.pc == ENTRY,
            cpu@.dt == 0,
            cpu@.st == 0,
            cpu@.stack == Seq::<u16>::empty(),
    {
        Cpu::with_rng(rng::rng_from_entropy())
    }

    /// A fresh machine whose pseudo-random source is seeded explicitly,
    /// so that runs are reproducible.
    pub fn new_seeded(seed: u64) -> (cpu: Cpu)
        ensures
            cpu@.wf(),
            cpu@.ram == initial_ram(),
            cpu@.v == Seq::new(16, |k: int| 0u8),
            cpu@.i == 0,
            cpu@.pc == ENTRY,
            cpu@.dt == 0,
            cpu@.st == 0,
            cpu@.stack == Seq::<u16>::empty(),
    {
        Cpu::with_rng(rng::rng_from_seed(seed))
    }

    fn with_rng(rng: rand::rngs::StdRng) -> (cpu: Cpu)
        ensures
            cpu@.wf(),
            cpu@.ram == initial_ram(),
            cpu@.v == Seq::new(16, |k: int| 0u8),
            cpu@.i == 0,
            cpu@.pc == ENTRY,
            cpu@.dt == 0,
            cpu@.st == 0,
            cpu@.stack == Seq::<u16>::empty(),
    {
        let mut ram: [u8; RAM_SIZE] = [0u8; RAM_SIZE];
        let mut k: usize = 0;
        while k < 80
            invariant
                k <= 80,
                forall|a: int| 0 <= a < k ==> ram@[a] == FONT@[a],
                forall|a: int| k <= a < RAM_SIZE ==> ram@[a] == 0u8,
            decreases 80 - k,
        {
            ram[k] = FONT[k];
            k = k + 1;
        }
        proof {
            assert(ram@ =~= initial_ram());
        }
        let cpu = Cpu {
            ram,
            v: [0u8; 16],
            i: 0,
            pc: ENTRY,
            dt: 0,
            st: 0,
            rng,
            stack: Vec::new(),
        };
        proof {
            assert(cpu@.v =~= Seq::new(16, |k: int| 0u8));
            assert(cpu@.stack =~= Seq::<u16>::empty());
        }
        cpu
    }

    /// One 60 Hz timer tick: each timer counts down by one, stopping
    /// at zero. Invoked by the host at a fixed rate, independently of
    /// instruction execution.
    pub fn decrement_timers(&mut self)
        ensures
            final(self)@ == (MachineState {
                dt: if old(self)@.dt > 0 { (old(self)@.dt - 1) as u8 } else { 0u8 },
                st: if old(self)@.st > 0 { (old(self)@.st - 1) as u8 } else { 0u8 },
                ..old(self)@
            }),
    {
        if self.dt > 0 {
            self.dt = self.dt - 1;
        }
        if self.st > 0 {
            self.st = self.st - 1;
        }
    }

    /// Loads a ROM image: resets the program counter to the entry
    /// point, clears registers, index register, timers and the call
    /// stack, then copies the image in at the entry point. A ROM longer
    /// than `ROM_CAPACITY` is refused and the machine left untouched.
    pub fn load_rom(&mut self, rom: &[u8]) -> (r: Result<(), Fault>)
        requires
            old(self)@.wf(),
        ensures
            rom@.len() > ROM_CAPACITY ==> r == Err::<(), Fault>(Fault::RomTooLarge {
                len: rom@.len() as usize,
            }) && final(self)@ == old(self)@,
            rom@.len() <= ROM_CAPACITY ==> r == Ok::<(), Fault>(()) && final(self)@ == (
            MachineState {
                ram: loaded_ram(old(self)@.ram, rom@),
                v: Seq::new(16, |k: int| 0u8),
                i: 0,
                pc: ENTRY,
                dt: 0,
                st: 0,
                stack: Seq::<u16>::empty(),
            }),
            final(self)@.wf(),
    {
        if rom.len() > ROM_CAPACITY {
            return Err(Fault::RomTooLarge { len: rom.len() });
        }
        self.pc = ENTRY;
        self.i = 0;
        self.v = [0u8; 16];
        self.dt = 0;
        self.st = 0;
        self.stack.clear();
        let mut k: usize = 0;
        while k < rom.len()
            invariant
                k <= rom@.len(),
                rom@.len() <= ROM_CAPACITY,
                self@.ram.len() == RAM_SIZE,
                forall|a: int| 0x200 <= a < 0x200 + k ==> self@.ram[a] == rom@[a - 0x200],
                forall|a: int|
                    0 <= a < RAM_SIZE && !(0x200 <= a < 0x200 + k) ==> self@.ram[a] == old(
                        self,
                    )@.ram[a],
                self@.v == Seq::new(16, |j: int| 0u8),
                self@.i == 0,
                self@.pc == ENTRY,
                self@.dt == 0,
                self@.st == 0,
                self@.stack == Seq::<u16>::empty(),
            decreases rom@.len() - k,
        {
            self.ram[0x200 + k] = rom[k];
            k = k + 1;
        }
        proof {
            assert(self@.ram =~= loaded_ram(old(self)@.ram, rom@));
        }
        Ok(())
    }

    /// The class-0 arms of the dispatch: clear-screen, return, ignored
    /// machine-code call.
    fn op_class0(&mut self, framebuffer: &mut Framebuffer, byte1: u8, byte2: u8) -> (r: Result<
        (),
        Fault,
    >)
        requires
            old(self)@.wf(),
            old(self)@.pc + 1 < RAM_SIZE,
            byte1 >> 4 == 0,
        ensures
            final(self)@.wf(),
            outcome_matches(
                spec_class0(old(self)@, old(framebuffer)@, byte1, byte2),
                final(self)@,
                final(framebuffer)@,
                r,
            ),
    {
        let pc2: u16 = self.pc + 2;
        match (byte1 & 0x0F, byte2 >> 4, byte2 & 0x0F) {
            (0, 0xE, 0) => {
                framebuffer.clear();
                self.pc = pc2;
                proof {
                    assert(framebuffer@ =~= Seq::new(32, |r: int| 0u64));
                }
                Ok(())
            },
            (0, 0xE, 0xE) => {
                match self.stack.pop() {
                    Some(addr) => {
                        self.pc = addr;
                        Ok(())
                    },
                    None => Err(Fault::StackUnderflow { addr: self.pc }),
                }
            },
            _ => {
                self.pc = pc2;
                Ok(())
            },
        }
    }

    /// The class-8 arms of the dispatch: the register-to-register
    /// operations.
    #[verifier::rlimit(100)]
    fn op_class8(&mut self, byte1: u8, byte2: u8, Ghost(fb): Ghost<Seq<u64>>) -> (r: Result<
        (),
        Fault,
    >)
        requires
            old(self)@.wf(),
            old(self)@.pc + 1 < RAM_SIZE,
            byte1 >> 4 == 8,
        ensures
            final(self)@.wf(),
            outcome_matches(spec_class8(old(self)@, fb, byte1, byte2), final(self)@, fb, r),
    {
        let pc2: u16 = self.pc + 2;
        proof {
            assert(byte1 & 0x0F < 16 && byte2 >> 4 < 16) by (bit_vector);
        }
        let x = (byte1 & 0x0F) as usize;
        let y = (byte2 >> 4) as usize;
        match byte2 & 0x0F {
            0 => {
                self.v[x] = self.v[y];
                self.pc = pc2;
                Ok(())
            },
            1 => {
                self.v[x] = self.v[x] | self.v[y];
                self.pc = pc2;
                Ok(())
            },
            2 => {
                self.v[x] = self.v[x] & self.v[y];
                self.pc = pc2;
                Ok(())
            },
            3 => {
                self.v[x] = self.v[x] ^ self.v[y];
                self.pc = pc2;
                Ok(())
            },
            4 => {
                let vx = self.v[x];
                let vy = self.v[y];
                let sum: u16 = vx as u16 + vy as u16;
                self.v[0xF] = if sum > 255 {
                    1
                } else {
                    0
                };
                self.v[x] = (sum % 256) as u8;
                self.pc = pc2;
                Ok(())
            },
            5 => {
                let vx = self.v[x];
                let vy = self.v[y];
                self.v[0xF] = if vx >= vy {
                    1
                } else {
                    0
                };
                self.v[x] = if vx >= vy {
                    vx - vy
                } else {
                    (vx as u16 + 256 - vy as u16) as u8
                };
                self.pc = pc2;
                Ok(())
            },
            6 => {
                let vx0 = self.v[x];
                self.v[0xF] = vx0 % 2;
                let vx1 = self.v[x];
                self.v[x] = vx1 / 2;
                self.pc = pc2;
                Ok(())
            },
            7 => {
                let vx = self.v[x];
                let vy = self.v[y];
                self.v[0xF] = if vy >= vx {
                    1
                } else {
                    0
                };
                self.v[x] = if vy >= vx {
                    vy - vx
                } else {
                    (vy as u16 + 256 - vx as u16) as u8
                };
                self.pc = pc2;
                Ok(())
            },
            0xE => {
                let vx0 = self.v[x];
                self.v[0xF] = vx0 / 128;
                let vx1 = self.v[x];
                self.v[x] = ((vx1 as u16 * 2) % 256) as u8;
                self.pc = pc2;
                Ok(())
            },
            _ => Err(
                Fault::UnrecognizedOpcode {
                    addr: self.pc,
                    opcode: ((byte1 as u16) << 8) | (byte2 as u16),
                },
            ),
        }
    }

    /// The draw arm of the dispatch: copies the sprite out of memory
    /// and XOR-draws it, reporting a collision in the flag register.
    fn op_draw(&mut self, framebuffer: &mut Framebuffer, byte1: u8, byte2: u8) -> (r: Result<
        (),
        Fault,
    >)
        requires
            old(self)@.wf(),
            old(self)@.pc + 1 < RAM_SIZE,
            byte1 >> 4 == 0xD,
        ensures
            final(self)@.wf(),
            outcome_matches(
                spec_draw(old(self)@, old(framebuffer)@, byte1, byte2),
                final(self)@,
                final(framebuffer)@,
                r,
            ),
    {
        let ghost m0 = self@;
        let pc2: u16 = self.pc + 2;
        proof {
            assert(byte1 & 0x0F < 16 && byte2 >> 4 < 16 && byte2 & 0x0F < 16) by (bit_vector);
        }
        let x = (byte1 & 0x0F) as usize;
        let y = (byte2 >> 4) as usize;
        let n_us = (byte2 & 0x0F) as usize;
        if self.i as usize + n_us > RAM_SIZE {
            return Err(Fault::MemoryOutOfBounds { addr: self.i });
        }
        let base = self.i as usize;
        let mut sprite: Vec<u8> = Vec::new();
        let mut k: usize = 0;
        while k < n_us
            invariant
                k <= n_us,
                base + n_us <= RAM_SIZE,
                self@ == m0,
                m0.ram.len() == RAM_SIZE,
                base == m0.i as int,
                sprite@.len() == k,
                forall|j: int| 0 <= j < k ==> sprite@[j] == m0.ram[base + j],
            decreases n_us - k,
        {
            sprite.push(self.ram[base + k]);
            k = k + 1;
        }
        proof {
            assert(sprite@ =~= m0.ram.subrange(m0.i as int, m0.i + (byte2 & 0x0F)));
        }
        let vx = self.v[x];
        let vy = self.v[y];
        let col = framebuffer.draw((vx, vy), sprite.as_slice());
        self.v[0xF] = if col {
            1
        } else {
            0
        };
        self.pc = pc2;
        Ok(())
    }

    /// The class-E arms of the dispatch: the key-state skips.
    fn op_classe(&mut self, keypad: &mut Keypad, byte1: u8, byte2: u8, Ghost(fb): Ghost<
        Seq<u64>,
    >) -> (r: Result<(), Fault>)
        requires
            old(self)@.wf(),
            old(self)@.pc + 1 < RAM_SIZE,
            byte1 >> 4 == 0xE,
        ensures
            final(self)@.wf(),
            *final(keypad) == *old(keypad),
            outcome_matches(
                spec_classe(old(self)@, fb, old(keypad)@, byte1, byte2),
                final(self)@,
                fb,
                r,
            ),
    {
        let pc2: u16 = self.pc + 2;
        proof {
            assert(byte1 & 0x0F < 16) by (bit_vector);
        }
        let x = (byte1 & 0x0F) as usize;
        match (byte2 >> 4, byte2 & 0x0F) {
            (9, 0xE) => {
                let vx = self.v[x];
                if vx >= 16 {
                    return Err(Fault::KeyOutOfRange { key: vx });
                }
                self.pc = if keypad.key(vx) {
                    pc2 + 2
                } else {
                    pc2
                };
                Ok(())
            },
            (0xA, 1) => {
                let vx = self.v[x];
                if vx >= 16 {
                    return Err(Fault::KeyOutOfRange { key: vx });
                }
                self.pc = if !keypad.key(vx) {
                    pc2 + 2
                } else {
                    pc2
                };
                Ok(())
            },
            _ => Err(
                Fault::UnrecognizedOpcode {
                    addr: self.pc,
                    opcode: ((byte1 as u16) << 8) | (byte2 as u16),
                },
            ),
        }
    }

    /// The class-F arms of the dispatch: timers, key-wait, index
    /// register and memory-block transfers.
    fn op_classf(&mut self, keypad: &mut Keypad, byte1: u8, byte2: u8, Ghost(fb): Ghost<
        Seq<u64>,
    >) -> (r: Result<(), Fault>)
        requires
            old(self)@.wf(),
            old(self)@.pc + 1 < RAM_SIZE,
            byte1 >> 4 == 0xF,
        ensures
            final(self)@.wf(),
            *final(keypad) == *old(keypad),
            outcome_matches(
                spec_classf(old(self)@, fb, old(keypad)@, byte1, byte2),
                final(self)@,
                fb,
                r,
            ),
    {
        let ghost m0 = self@;
        let pc2: u16 = self.pc + 2;
        proof {
            assert(byte1 & 0x0F < 16) by (bit_vector);
        }
        let x = (byte1 & 0x0F) as usize;
        match (byte2 >> 4, byte2 & 0x0F) {
            (0, 7) => {
                self.v[x] = self.dt;
                self.pc = pc2;
                Ok(())
            },
            (0, 0xA) => {
                match keypad.first_pressed_key() {
                    Some(key) => {
                        self.v[x] = key;
                        self.pc = pc2;
                    },
                    None => {},
                }
                Ok(())
            },
            (1, 5) => {
                self.dt = self.v[x];
                self.pc = pc2;
                Ok(())
            },
            (1, 8) => {
                self.st = self.v[x];
                self.pc = pc2;
                Ok(())
            },
            (1, 0xE) => {
                let s: u32 = self.i as u32 + self.v[x] as u32;
                self.i = if s > 0xFFFF {
                    (s - 0x10000) as u16
                } else {
                    s as u16
                };
                self.pc = pc2;
                Ok(())
            },
            (2, 9) => {
                self.i = 5 * (self.v[x] as u16);
                self.pc = pc2;
                Ok(())
            },
            (3, 3) => {
                if self.i as usize + 2 >= RAM_SIZE {
                    return Err(Fault::MemoryOutOfBounds { addr: self.i });
                }
                let vx = self.v[x];
                let base = self.i as usize;
                self.ram[base] = vx / 100;
                self.ram[base + 1] = (vx / 10) % 10;
                self.ram[base + 2] = vx % 10;
                self.pc = pc2;
                Ok(())
            },
            (5, 5) => {
                if self.i as usize + x >= RAM_SIZE {
                    return Err(Fault::MemoryOutOfBounds { addr: self.i });
                }
                let base = self.i as usize;
                let mut k: usize = 0;
                while k <= x
                    invariant
                        k <= x + 1,
                        x < 16,
                        base + x < RAM_SIZE,
                        base == m0.i as int,
                        self@.ram.len() == RAM_SIZE,
                        forall|a: int| base <= a < base + k ==> self@.ram[a] == m0.v[a - base],
                        forall|a: int|
                            0 <= a < RAM_SIZE && !(base <= a < base + k) ==> self@.ram[a]
                                == m0.ram[a],
                        self@.v == m0.v,
                        self@.i == m0.i,
                        self@.pc == m0.pc,
                        self@.dt == m0.dt,
                        self@.st == m0.st,
                        self@.stack == m0.stack,
                    decreases x + 1 - k,
                {
                    self.ram[base + k] = self.v[k];
                    k = k + 1;
                }
                self.pc = pc2;
                proof {
                    assert(self@.ram =~= store_regs(m0.ram, m0.v, m0.i as int, x as int));
                }
                Ok(())
            },
            (6, 5) => {
                if self.i as usize + x >= RAM_SIZE {
                    return Err(Fault::MemoryOutOfBounds { addr: self.i });
                }
                let base = self.i as usize;
                let mut k: usize = 0;
                while k <= x
                    invariant
                        k <= x + 1,
                        x < 16,
                        base + x < RAM_SIZE,
                        base == m0.i as int,
                        self@.v.len() == 16,
                        forall|r: int| 0 <= r < k ==> self@.v[r] == m0.ram[base + r],
                        forall|r: int| k <= r < 16 ==> self@.v[r] == m0.v[r],
                        self@.ram == m0.ram,
                        self@.i == m0.i,
                        self@.pc == m0.pc,
                        self@.dt == m0.dt,
                        self@.st == m0.st,
                        self@.stack == m0.stack,
                    decreases x + 1 - k,
                {
                    self.v[k] = self.ram[base + k];
                    k = k + 1;
                }
                self.pc = pc2;
                proof {
                    assert(self@.v =~= load_regs(m0.v, m0.ram, m0.i as int, x as int));
                }
                Ok(())
            },
            _ => Err(
                Fault::UnrecognizedOpcode {
                    addr: self.pc,
                    opcode: ((byte1 as u16) << 8) | (byte2 as u16),
                },
            ),
        }
    }

    /// One fetch-decode-execute cycle: reads the two bytes at the
    /// program counter (high byte first), advances the counter by two,
    /// and performs exactly one instruction's effect on the machine and
    /// the framebuffer, under the caller's keypad snapshot. The cycle
    /// behaves as `spec_cycle` says, for some byte the pseudo-random
    /// source yielded; on a fault nothing changes and the fault is
    /// returned.
    #[verifier::rlimit(100)]
    pub fn execute_cycle(&mut self, framebuffer: &mut Framebuffer, keypad: &mut Keypad) -> (r:
        Result<(), Fault>)
        requires
            old(self)@.wf(),
        ensures
            final(self)@.wf(),
            *final(keypad) == *old(keypad),
            exists|rnd: u8|
                #[trigger] step_to(
                    old(self)@,
                    old(framebuffer)@,
                    old(keypad)@,
                    rnd,
                    final(self)@,
                    final(framebuffer)@,
                    r,
                ),
    {
        let ghost m0 = self@;
        let ghost fb0 = framebuffer@;
        let ghost keys0 = keypad@;
        if self.pc as usize >= RAM_SIZE - 1 {
            let f = Fault::MemoryOutOfBounds { addr: self.pc };
            proof {
                assert(step_to(m0, fb0, keys0, 0u8, self@, framebuffer@, Err(f)));
            }
            return Err(f);
        }
        let byte1 = self.ram[self.pc as usize];
        let byte2 = self.ram[self.pc as usize + 1];
        proof {
            assert(byte1 & 0x0F < 16 && byte2 >> 4 < 16 && byte2 & 0x0F < 16) by (bit_vector);
        }
        let pc2: u16 = self.pc + 2;
        let x = (byte1 & 0x0F) as usize;
        let y = (byte2 >> 4) as usize;
        let kk = byte2;
        let nnn: u16 = (((byte1 & 0x0F) as u16) << 8) | (byte2 as u16);
        let opcode_word: u16 = ((byte1 as u16) << 8) | (byte2 as u16);
        match (byte1 >> 4, byte1 & 0x0F, byte2 >> 4, byte2 & 0x0F) {
            (0, _, _, _) => {
                let r = self.op_class0(framebuffer, byte1, byte2);
                proof {
                    assert(step_to(m0, fb0, keys0, 0u8, self@, framebuffer@, r));
                }
                r
            },
            (1, _, _, _) => {
                self.pc = nnn;
                proof {
                    assert(step_to(m0, fb0, keys0, 0u8, self@, framebuffer@, Ok(())));
                }
                Ok(())
            },
            (2, _, _, _) => {
                if self.stack.len() >= STACK_LIMIT {
                    let f = Fault::StackOverflow { addr: self.pc };
                    proof {
                        assert(step_to(m0, fb0, keys0, 0u8, self@, framebuffer@, Err(f)));
                    }
                    return Err(f);
                }
                self.stack.push(pc2);
                self.pc = nnn;
                proof {
                    assert(step_to(m0, fb0, keys0, 0u8, self@, framebuffer@, Ok(())));
                }
                Ok(())
            },
            (3, _, _, _) => {
                self.pc = if self.v[x] == kk {
                    pc2 + 2
                } else {
                    pc2
                };
                proof {
                    assert(step_to(m0, fb0, keys0, 0u8, self@, framebuffer@, Ok(())));
                }
                Ok(())
            },
            (4, _, _, _) => {
                self.pc = if self.v[x] != kk {
                    pc2 + 2
                } else {
                    pc2
                };
                proof {
                    assert(step_to(m0, fb0, keys0, 0u8, self@, framebuffer@, Ok(())));
                }
                Ok(())
            },
            (5, _, _, 0) => {
                self.pc = if self.v[x] == self.v[y] {
                    pc2 + 2
                } else {
                    pc2
                };
                proof {
                    assert(step_to(m0, fb0, keys0, 0u8, self@, framebuffer@, Ok(())));
                }
                Ok(())
            },
            (6, _, _, _) => {
                self.v[x] = kk;
                self.pc = pc2;
                proof {
                    assert(step_to(m0, fb0, keys0, 0u8, self@, framebuffer@, Ok(())));
                }
                Ok(())
            },
            (7, _, _, _) => {
                let sum: u16 = self.v[x] as u16 + kk as u16;
                self.v[x] = (sum % 256) as u8;
                self.pc = pc2;
                proof {
                    assert(step_to(m0, fb0, keys0, 0u8, self@, framebuffer@, Ok(())));
                }
                Ok(())
            },
            (8, _, _, _) => {
                let r = self.op_class8(byte1, byte2, Ghost(fb0));
                proof {
                    assert(step_to(m0, fb0, keys0, 0u8, self@, framebuffer@, r));
                }
                r
            },
            (9, _, _, 0) => {
                self.pc = if self.v[x] != self.v[y] {
                    pc2 + 2
                } else {
                    pc2
                };
                proof {
                    assert(step_to(m0, fb0, keys0, 0u8, self@, framebuffer@, Ok(())));
                }
                Ok(())
            },
            (0xA, _, _, _) => {
                self.i = nnn;
                self.pc = pc2;
                proof {
                    assert(step_to(m0, fb0, keys0, 0u8, self@, framebuffer@, Ok(())));
                }
                Ok(())
            },
            (0xB, _, _, _) => {
                proof {
                    assert(nnn <= 0x0FFF) by (bit_vector)
                        requires
                            nnn == (((byte1 & 0x0F) as u16) << 8) | (byte2 as u16),
                    ;
                }
                self.pc = nnn + self.v[0] as u16;
                proof {
                    assert(step_to(m0, fb0, keys0, 0u8, self@, framebuffer@, Ok(())));
                }
                Ok(())
            },
            (0xC, _, _, _) => {
                let b = rng::next_random_byte(&mut self.rng);
                self.v[x] = b & kk;
                self.pc = pc2;
                proof {
                    assert(step_to(m0, fb0, keys0, b, self@, framebuffer@, Ok(())));
                }
                Ok(())
            },
            (0xD, _, _, _) => {
                let r = self.op_draw(framebuffer, byte1, byte2);
                proof {
                    assert(step_to(m0, fb0, keys0, 0u8, self@, framebuffer@, r));
                }
                r
            },
            (0xE, _, _, _) => {
                let r = self.op_classe(keypad, byte1, byte2, Ghost(fb0));
                proof {
                    assert(step_to(m0, fb0, keys0, 0u8, self@, framebuffer@, r));
                }
                r
            },
            (0xF, _, _, _) => {
                let r = self.op_classf(keypad, byte1, byte2, Ghost(fb0));
                proof {
                    assert(step_to(m0, fb0, keys0, 0u8, self@, framebuffer@, r));
                }
                r
            },
            _ => {
                let f = Fault::UnrecognizedOpcode { addr: self.pc, opcode: opcode_word };
                proof {
                    assert(step_to(m0, fb0, keys0, 0u8, self@, framebuffer@, Err(f)));
                }
                Err(f)
            },
        }
    }

    /// The value of general-purpose register `idx`.
    pub fn register(&self, idx: u8) -> (value: u8)
        requires
            idx < 16,
        ensures
            value == self@.v[idx as int],
    {
        self.v[idx as usize]
    }

    /// The index register.
    pub fn index_register(&self) -> (value: u16)
        ensures
            value == self@.i,
    {
        self.i
    }

    /// The program counter: the address of the next instruction.
    pub fn program_counter(&self) -> (value: u16)
        ensures
            value == self@.pc,
    {
        self.pc
    }

    /// The delay timer.
    pub fn delay_timer(&self) -> (value: u8)
        ensures
            value == self@.dt,
    {
        self.dt
    }

    /// The sound timer.
    pub fn sound_timer(&self) -> (value: u8)
        ensures
            value == self@.st,
    {
        self.st
    }

    /// How many return addresses the call stack holds.
    pub fn stack_depth(&self) -> (depth: usize)
        ensures
            depth == self@.stack.len(),
    {
        self.stack.len()
    }

    /// The byte in memory at `addr`.
    pub fn read_memory(&self, addr: u16) -> (byte: u8)
        requires
            addr < RAM_SIZE,
        ensures
            byte == self@.ram[addr as int],
    {
        self.ram[addr as usize]
    }
}

} // verus!
