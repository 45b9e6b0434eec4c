//! The mathematical model of the machine: an abstract state, and the
//! transition that one fetched, decoded and executed instruction makes on it.
//! `Chip::step` is verified against `spec_step`.

use vstd::prelude::*;

use crate::opcodes::{spec_decode, OpCode};

use vstd::arithmetic::div_mod::{lemma_fundamental_div_mod, lemma_mod_bound};

verus! {

/// The number of addressable memory bytes.
pub const MEM_SIZE: usize = 4096;

/// The address at which ROM bytes are loaded and execution starts.
pub const ROM_BASE: usize = 0x200;

/// The largest ROM the memory map accepts.
pub const MAX_ROM_LEN: usize = 3583;

/// The framebuffer's width in pixels.
pub const SCREEN_W: usize = 64;

/// The framebuffer's height in pixels.
pub const SCREEN_H: usize = 32;

/// The number of framebuffer cells.
pub const SCREEN_CELLS: usize = 2048;

/// Why the interpreter refused to act. All of these are fatal: the machine
/// is left exactly as it was, and the host decides what to do.
#[derive(Clone, Copy, Debug, PartialEq, Eq, Structural)]
pub enum ChipError {
    /// The word at `pc` encodes no instruction of the set.
    UnknownOpcode { op: u16, pc: u16 },
    /// A return was executed with an empty call stack.
    StackUnderflow,
    /// An instruction would have moved the program counter, or fetched from,
    /// an address outside the 4096-byte space.
    PcOutOfRange { pc: u16 },
    /// An instruction would have read or written memory through the address
    /// register outside the 4096-byte space; `addr` is the first address past
    /// the limit that it needed.
    AddressOutOfRange { addr: u16 },
    /// A ROM of `len` bytes does not fit in memory above the reserved region.
    RomTooLarge { len: usize },
}

/// The abstract machine state.
#[verifier::ext_equal]
pub struct ChipView {
    /// The 4096-byte address space.
    pub mem: Seq<u8>,
    /// The sixteen general-purpose registers V0..VF.
    pub regs: Seq<u8>,
    /// The address register I.
    pub i: u16,
    /// The program counter.
    pub pc: u16,
    /// The call stack of return addresses, most recent last.
    pub stack: Seq<u16>,
    /// The delay timer.
    pub delay: u8,
    /// The sound timer; the tone is audible exactly while it is non-zero.
    pub sound: u8,
    /// The framebuffer, row-major: the pixel at column x of row y is at y*64+x.
    pub screen: Seq<bool>,
    /// `Some(x)` while the machine is suspended waiting for a key press to
    /// store into VX; `None` while it is ready to fetch.
    pub waiting: Option<u8>,
}

/// The structural invariant of the machine state.
pub open spec fn wf_view(v: ChipView) -> bool {
    &&& v.mem.len() == MEM_SIZE
    &&& v.regs.len() == 16
    &&& v.screen.len() == SCREEN_CELLS
    &&& v.i < MEM_SIZE
    &&& (match v.waiting {
        Some(x) => x < 16,
        None => true,
    })
}

/// The value `n` wrapped to a byte.
pub open spec fn wrap8(n: int) -> u8 {
    (n % 256) as u8
}

/// Byte addition, wrapping.
pub open spec fn add8(a: u8, b: u8) -> u8 {
    wrap8(a + b)
}

/// Byte subtraction, wrapping.
pub open spec fn sub8(a: u8, b: u8) -> u8 {
    wrap8(a - b + 256)
}

/// The carry flag of `a + b`: 1 exactly when the byte addition overflows.
pub open spec fn carry8(a: u8, b: u8) -> u8 {
    if a + b > 255 {
        1u8
    } else {
        0u8
    }
}

/// The borrow flag of `a - b`: 1 exactly when no borrow occurs, 0 on borrow.
pub open spec fn no_borrow8(a: u8, b: u8) -> u8 {
    if a >= b {
        1u8
    } else {
        0u8
    }
}

/// The least significant bit of `a`: what a right shift discards.
pub open spec fn lsb(a: u8) -> u8 {
    a % 2
}

/// `a` shifted right by one bit.
pub open spec fn shr1(a: u8) -> u8 {
    a / 2
}

/// The most significant bit of `a`: what a left shift discards.
pub open spec fn msb(a: u8) -> u8 {
    a / 128
}

/// `a` shifted left by one bit, truncated to a byte.
pub open spec fn shl1(a: u8) -> u8 {
    wrap8(2 * a)
}

/// The hundreds digit of `v`'s decimal representation.
pub open spec fn bcd_hundreds(v: u8) -> u8 {
    v / 100
}

/// The tens digit of `v`'s decimal representation.
pub open spec fn bcd_tens(v: u8) -> u8 {
    (v / 10) % 10
}

/// The ones digit of `v`'s decimal representation.
pub open spec fn bcd_ones(v: u8) -> u8 {
    v % 10
}

/// Whether the key selected by the low nibble of the register value `v` is
/// down on the 16-key pad `keys`.
pub open spec fn key_down(keys: Seq<bool>, v: u8) -> bool {
    keys[(v % 16) as int]
}

/// An all-off framebuffer.
pub open spec fn blank_screen() -> Seq<bool> {
    Seq::new(SCREEN_CELLS as nat, |p: int| false)
}

/// The flat framebuffer index of the pixel at column `x` of row `y`.
pub open spec fn pix_index(y: int, x: int) -> int {
    y * 64 + x
}

/// Whether bit `b` (0 is the leftmost pixel) of the sprite row byte is set.
pub open spec fn sprite_row_bit(byte: u8, b: int) -> bool {
    byte & (0x80u8 >> (b as u8)) != 0
}

/// Whether bit `b` of row `l` of the sprite at address `i` is set.
pub open spec fn sprite_pixel_on(mem: Seq<u8>, i: int, l: int, b: int) -> bool {
    sprite_row_bit(mem[i + l], b)
}

/// The flat framebuffer index that bit `b` of sprite row `l` lands on when
/// the sprite is drawn at (`vx`, `vy`); coordinates wrap at the edges.
pub open spec fn sprite_target(vx: int, vy: int, l: int, b: int) -> int {
    pix_index((vy + l) % 32, (vx + b) % 64)
}

/// Two distinct offsets below the modulus wrap to distinct residues: drawing
/// from one base never folds two nearby rows or columns onto each other.
pub proof fn lemma_wrap_distinct(base: int, s: int, t: int, m: int)
    requires
        0 < m,
        0 <= s < m,
        0 <= t < m,
        s != t,
    ensures
        (base + s) % m != (base + t) % m,
{
    lemma_fundamental_div_mod(base + s, m);
    lemma_fundamental_div_mod(base + t, m);
    lemma_mod_bound(base + s, m);
    lemma_mod_bound(base + t, m);
    let q1 = (base + s) / m;
    let q2 = (base + t) / m;
    let r1 = (base + s) % m;
    let r2 = (base + t) % m;
    assert(r1 != r2) by (nonlinear_arith)
        requires
            base + s == m * q1 + r1,
            base + t == m * q2 + r2,
            0 <= r1 < m,
            0 <= r2 < m,
            0 <= s < m,
            0 <= t < m,
            s != t,
    ;
}

/// Distinct bits of a sprite land on distinct framebuffer cells: a sprite is
/// at most 8 columns wide and 16 rows tall, so wrapping at 64 and 32 cannot
/// fold two of its pixels together.
pub proof fn lemma_sprite_target_distinct(vx: int, vy: int, l1: int, b1: int, l2: int, b2: int)
    requires
        0 <= l1 < 32,
        0 <= b1 < 8,
        0 <= l2 < 32,
        0 <= b2 < 8,
        !(l1 == l2 && b1 == b2),
    ensures
        sprite_target(vx, vy, l1, b1) != sprite_target(vx, vy, l2, b2),
{
    lemma_mod_bound(vy + l1, 32);
    lemma_mod_bound(vy + l2, 32);
    lemma_mod_bound(vx + b1, 64);
    lemma_mod_bound(vx + b2, 64);
    if l1 != l2 {
        lemma_wrap_distinct(vy, l1, l2, 32);
    } else {
        lemma_wrap_distinct(vx, b1, b2, 64);
    }
}

/// Every sprite bit lands inside the framebuffer.
pub proof fn lemma_sprite_target_in_range(vx: int, vy: int, l: int, b: int)
    ensures
        0 <= sprite_target(vx, vy, l, b) < SCREEN_CELLS,
{
    lemma_mod_bound(vy + l, 32);
    lemma_mod_bound(vx + b, 64);
}

/// Whether a set sprite bit lands on flat pixel `p`, among the sprite rows
/// strictly before `lines` together with the first `bits` bits of row
/// `lines`. The sprite starts at address `i`, is drawn at (`vx`, `vy`), and
/// coordinates wrap at the framebuffer edges.
pub open spec fn hits_before(
    mem: Seq<u8>,
    i: int,
    vx: int,
    vy: int,
    lines: int,
    bits: int,
    p: int,
) -> bool {
    exists|l: int, b: int|
        0 <= l && 0 <= b < 8 && (l < lines || (l == lines && b < bits))
            && #[trigger] sprite_pixel_on(mem, i, l, b) && p == sprite_target(vx, vy, l, b)
}

/// Whether a set sprite bit, among the same prefix of the sprite as in
/// [`hits_before`], lands on a pixel that is on in `screen`.
pub open spec fn collision_before(
    screen: Seq<bool>,
    mem: Seq<u8>,
    i: int,
    vx: int,
    vy: int,
    lines: int,
    bits: int,
) -> bool {
    exists|l: int, b: int|
        0 <= l && 0 <= b < 8 && (l < lines || (l == lines && b < bits))
            && #[trigger] sprite_pixel_on(mem, i, l, b) && screen[sprite_target(vx, vy, l, b)]
}

/// The framebuffer after XOR-compositing the 8-by-`n` sprite at address `i`
/// onto position (`vx`, `vy`).
pub open spec fn draw_screen(
    screen: Seq<bool>,
    mem: Seq<u8>,
    i: int,
    vx: int,
    vy: int,
    n: int,
) -> Seq<bool> {
    Seq::new(screen.len(), |p: int| screen[p] != hits_before(mem, i, vx, vy, n, 0, p))
}

/// The collision flag of the same draw: 1 exactly when some pixel went from
/// on to off.
pub open spec fn draw_vf(
    screen: Seq<bool>,
    mem: Seq<u8>,
    i: int,
    vx: int,
    vy: int,
    n: int,
) -> u8 {
    if collision_before(screen, mem, i, vx, vy, n, 0) {
        1u8
    } else {
        0u8
    }
}

/// Memory after the register file's prefix V0..=VX is written at `i`.
pub open spec fn dump_mem(mem: Seq<u8>, regs: Seq<u8>, i: int, x: int) -> Seq<u8> {
    Seq::new(mem.len(), |a: int| if i <= a <= i + x { regs[a - i] } else { mem[a] })
}

/// The register file after V0..=VX are read back from memory at `i`.
pub open spec fn load_regs(regs: Seq<u8>, mem: Seq<u8>, i: int, x: int) -> Seq<u8> {
    Seq::new(regs.len(), |r: int| if r <= x { mem[i + r] } else { regs[r] })
}

/// What one already-decoded instruction does to the machine state `v`, whose
/// program counter has already advanced past the instruction. `rnd` is the
/// random byte drawn by `CXNN`; `keys` is the pad state, one flag per key.
/// Instructions that set VF write the result register first and the flag
/// second, so on VF itself the flag wins.
pub open spec fn spec_exec_op(v: ChipView, ins: OpCode, rnd: u8, keys: Seq<bool>) -> Result<
    ChipView,
    ChipError,
> {
    match ins {
        OpCode::_00E0 => Ok(ChipView { screen: blank_screen(), ..v }),
        OpCode::_00EE => if v.stack.len() == 0 {
            Err(ChipError::StackUnderflow)
        } else {
            Ok(ChipView { pc: v.stack.last(), stack: v.stack.drop_last(), ..v })
        },
        OpCode::_1NNN(nnn) => Ok(ChipView { pc: nnn, ..v }),
        OpCode::_2NNN(nnn) => Ok(ChipView { stack: v.stack.push(v.pc), pc: nnn, ..v }),
        OpCode::_3XNN(x, nn) => Ok(
            ChipView {
                pc: if v.regs[x as int] == nn {
                    (v.pc + 2) as u16
                } else {
                    v.pc
                },
                ..v
            },
        ),
        OpCode::_4XNN(x, nn) => Ok(
            ChipView {
                pc: if v.regs[x as int] != nn {
                    (v.pc + 2) as u16
                } else {
                    v.pc
                },
                ..v
            },
        ),
        OpCode::_5XY0(x, y) => Ok(
            ChipView {
                pc: if v.regs[x as int] == v.regs[y as int] {
                    (v.pc + 2) as u16
                } else {
                    v.pc
                },
                ..v
            },
        ),
        OpCode::_6XNN(x, nn) => Ok(ChipView { regs: v.regs.update(x as int, nn), ..v }),
        OpCode::_7XNN(x, nn) => Ok(
            ChipView { regs: v.regs.update(x as int, add8(v.regs[x as int], nn)), ..v },
        ),
        OpCode::_8XY0(x, y) => Ok(ChipView { regs: v.regs.update(x as int, v.regs[y as int]), ..v }),
        OpCode::_8XY1(x, y) => Ok(
            ChipView { regs: v.regs.update(x as int, v.regs[x as int] | v.regs[y as int]), ..v },
        ),
        OpCode::_8XY2(x, y) => Ok(
            ChipView { regs: v.regs.update(x as int, v.regs[x as int] & v.regs[y as int]), ..v },
        ),
        OpCode::_8XY3(x, y) => Ok(
            ChipView { regs: v.regs.update(x as int, v.regs[x as int] ^ v.regs[y as int]), ..v },
        ),
        OpCode::_8XY4(x, y) => Ok(
            ChipView {
                regs: v.regs.update(x as int, add8(v.regs[x as int], v.regs[y as int])).update(
                    15,
                    carry8(v.regs[x as int], v.regs[y as int]),
                ),
                ..v
            },
        ),
        OpCode::_8XY5(x, y) => Ok(
            ChipView {
                regs: v.regs.update(x as int, sub8(v.regs[x as int], v.regs[y as int])).update(
                    15,
                    no_borrow8(v.regs[x as int], v.regs[y as int]),
                ),
                ..v
            },
        ),
        OpCode::_8XY6(x) => Ok(
            ChipView {
                regs: v.regs.update(x as int, shr1(v.regs[x as int])).update(
                    15,
                    lsb(v.regs[x as int]),
                ),
                ..v
            },
        ),
        OpCode::_8XY7(x, y) => Ok(
            ChipView {
                regs: v.regs.update(x as int, sub8(v.regs[y as int], v.regs[x as int])).update(
                    15,
                    no_borrow8(v.regs[y as int], v.regs[x as int]),
                ),
                ..v
            },
        ),
        OpCode::_8XYE(x) => Ok(
            ChipView {
                regs: v.regs.update(x as int, shl1(v.regs[x as int])).update(
                    15,
                    msb(v.regs[x as int]),
                ),
                ..v
            },
        ),
        OpCode::_9XY0(x, y) => Ok(
            ChipView {
                pc: if v.regs[x as int] != v.regs[y as int] {
                    (v.pc + 2) as u16
                } else {
                    v.pc
                },
                ..v
            },
        ),
        OpCode::_ANNN(nnn) => Ok(ChipView { i: nnn, ..v }),
        OpCode::_BNNN(nnn) => {
            let target = v.regs[0] + nnn;
            if target >= MEM_SIZE {
                Err(ChipError::PcOutOfRange { pc: target as u16 })
            } else {
                Ok(ChipView { pc: target as u16, ..v })
            }
        },
        OpCode::_CXNN(x, nn) => Ok(ChipView { regs: v.regs.update(x as int, nn & rnd), ..v }),
        OpCode::_DXYN(x, y, n) => {
            if v.i + n > MEM_SIZE {
                Err(ChipError::AddressOutOfRange { addr: (v.i + n) as u16 })
            } else {
                let vx = v.regs[x as int] as int;
                let vy = v.regs[y as int] as int;
                Ok(
                    ChipView {
                        screen: draw_screen(v.screen, v.mem, v.i as int, vx, vy, n as int),
                        regs: v.regs.update(
                            15,
                            draw_vf(v.screen, v.mem, v.i as int, vx, vy, n as int),
                        ),
                        ..v
                    },
                )
            }
        },
        OpCode::_EX9E(x) => Ok(
            ChipView {
                pc: if key_down(keys, v.regs[x as int]) {
                    (v.pc + 2) as u16
                } else {
                    v.pc
                },
                ..v
            },
        ),
        OpCode::_EXA1(x) => Ok(
            ChipView {
                pc: if !key_down(keys, v.regs[x as int]) {
                    (v.pc + 2) as u16
                } else {
                    v.pc
                },
                ..v
            },
        ),
        OpCode::_FX07(x) => Ok(ChipView { regs: v.regs.update(x as int, v.delay), ..v }),
        OpCode::_FX0A(x) => Ok(ChipView { waiting: Some(x), ..v }),
        OpCode::_FX15(x) => Ok(ChipView { delay: v.regs[x as int], ..v }),
        OpCode::_FX18(x) => Ok(ChipView { sound: v.regs[x as int], ..v }),
        OpCode::_FX1E(x) => {
            let sum = v.i + v.regs[x as int];
            if sum >= MEM_SIZE {
                Err(ChipError::AddressOutOfRange { addr: sum as u16 })
            } else {
                Ok(ChipView { i: sum as u16, ..v })
            }
        },
        OpCode::_FX29(x) => Ok(ChipView { i: (5 * v.regs[x as int]) as u16, ..v }),
        OpCode::_FX33(x) => {
            if v.i + 3 > MEM_SIZE {
                Err(ChipError::AddressOutOfRange { addr: (v.i + 3) as u16 })
            } else {
                let vx = v.regs[x as int];
                Ok(
                    ChipView {
                        mem: v.mem.update(v.i as int, bcd_hundreds(vx)).update(
                            v.i + 1,
                            bcd_tens(vx),
                        ).update(v.i + 2, bcd_ones(vx)),
                        ..v
                    },
                )
            }
        },
        OpCode::_FX55(x) => {
            if v.i + x + 1 > MEM_SIZE {
                Err(ChipError::AddressOutOfRange { addr: (v.i + x + 1) as u16 })
            } else {
                Ok(ChipView { mem: dump_mem(v.mem, v.regs, v.i as int, x as int), ..v })
            }
        },
        OpCode::_FX65(x) => {
            if v.i + x + 1 > MEM_SIZE {
                Err(ChipError::AddressOutOfRange { addr: (v.i + x + 1) as u16 })
            } else {
                Ok(ChipView { regs: load_regs(v.regs, v.mem, v.i as int, x as int), ..v })
            }
        },
    }
}

/// The opcode word fetched at `v.pc`: two bytes, big-endian.
pub open spec fn fetched_op(v: ChipView) -> u16 {
    (v.mem[v.pc as int] * 256 + v.mem[v.pc as int + 1]) as u16
}

/// One whole step of the machine: no-op while suspended for a key, otherwise
/// fetch, decode and execute the instruction at `pc`. On an error the machine
/// does not move.
pub open spec fn spec_step(v: ChipView, keys: Seq<bool>, rnd: u8) -> Result<ChipView, ChipError> {
    if v.waiting is Some {
        Ok(v)
    } else if v.pc + 1 >= MEM_SIZE {
        Err(ChipError::PcOutOfRange { pc: v.pc })
    } else {
        let op = fetched_op(v);
        match spec_decode(op) {
            None => Err(ChipError::UnknownOpcode { op, pc: v.pc }),
            Some(ins) => spec_exec_op(ChipView { pc: (v.pc + 2) as u16, ..v }, ins, rnd, keys),
        }
    }
}

/// How one call of `Chip::exec_ins` relates the machine before (`pre`) and
/// after (`post`) to its result `r`, for the already-decoded instruction
/// `ins`: success makes exactly the move that `spec_exec_op` describes, an
/// error reports that move's error and leaves the machine as it was.
pub open spec fn ins_matches(
    pre: ChipView,
    post: ChipView,
    ins: OpCode,
    rnd: u8,
    keys: Seq<bool>,
    r: Result<(), ChipError>,
) -> bool {
    match r {
        Ok(()) => spec_exec_op(pre, ins, rnd, keys) == Ok::<ChipView, ChipError>(post),
        Err(e) => spec_exec_op(pre, ins, rnd, keys) == Err::<ChipView, ChipError>(e) && post == pre,
    }
}

/// How one call of `Chip::step` relates the machine before (`pre`) and after
/// (`post`) to its result `r`: on success the machine made the step that
/// `spec_step` describes, on an error it reports the step's error and stands
/// still.
pub open spec fn step_matches(
    pre: ChipView,
    post: ChipView,
    keys: Seq<bool>,
    rnd: u8,
    r: Result<(), ChipError>,
) -> bool {
    match r {
        Ok(()) => spec_step(pre, keys, rnd) == Ok::<ChipView, ChipError>(post),
        Err(e) => spec_step(pre, keys, rnd) == Err::<ChipView, ChipError>(e) && post == pre,
    }
}

/// A timer value one 60 Hz tick later: decremented toward zero, never below.
pub open spec fn dec_timer(t: u8) -> u8 {
    if t > 0 {
        (t - 1) as u8
    } else {
        0u8
    }
}

/// Memory after the ROM bytes are loaded verbatim at the ROM base address.
pub open spec fn loaded_mem(mem: Seq<u8>, rom: Seq<u8>) -> Seq<u8> {
    Seq::new(
        mem.len(),
        |a: int|
            if ROM_BASE <= a < ROM_BASE + rom.len() {
                rom[a - ROM_BASE]
            } else {
                mem[a]
            },
    )
}

/// The sixteen built-in 5-byte glyphs for the hex digits 0..F, in order.
pub open spec fn spec_font() -> Seq<u8> {
    seq![
        0xF0u8, 0x90, 0x90, 0x90, 0xF0,
        0x20, 0x60, 0x20, 0x20, 0x70,
        0xF0, 0x10, 0xF0, 0x80, 0xF0,
        0xF0, 0x10, 0xF0, 0x10, 0xF0,
        0x90, 0x90, 0xF0, 0x10, 0x10,
        0xF0, 0x80, 0xF0, 0x10, 0xF0,
        0xF0, 0x80, 0xF0, 0x90, 0xF0,
        0xF0, 0x10, 0x20, 0x40, 0x40,
        0xF0, 0x90, 0xF0, 0x90, 0xF0,
        0xF0, 0x90, 0xF0, 0x10, 0xF0,
        0xF0, 0x90, 0xF0, 0x90, 0x90,
        0xE0, 0x90, 0xE0, 0x90, 0xE0,
        0xF0, 0x80, 0x80, 0x80, 0xF0,
        0xE0, 0x90, 0x90, 0x90, 0xE0,
        0xF0, 0x80, 0xF0, 0x80, 0xF0,
        0xF0, 0x80, 0xF0, 0x80, 0x80,
    ]
}

/// Memory as construction leaves it: the font at address 0, zero elsewhere.
pub open spec fn init_mem() -> Seq<u8> {
    Seq::new(MEM_SIZE as nat, |a: int| if a < 80 { spec_font()[a] } else { 0u8 })
}

/// The machine state as construction leaves it.
pub open spec fn init_view() -> ChipView {
    ChipView {
        mem: init_mem(),
        regs: Seq::new(16, |r: int| 0u8),
        i: 0u16,
        pc: 0x200u16,
        stack: Seq::<u16>::empty(),
        delay: 0u8,
        sound: 0u8,
        screen: blank_screen(),
        waiting: None,
    }
}

} // verus!
