//! The machine itself: its state, its construction, ROM loading, the timer
//! tick, the key-press event, the framebuffer and register views, and the
//! fetch-decode-execute step.

use vstd::prelude::*;

use rand::Rng;

use crate::opcodes::{decode, ins_wf, OpCode};
use crate::semantics::{
    bcd_hundreds, bcd_ones, bcd_tens, blank_screen, collision_before, dec_timer, draw_screen,
    draw_vf, dump_mem, fetched_op, hits_before, init_view, ins_matches,
    lemma_sprite_target_distinct, lemma_sprite_target_in_range, load_regs, loaded_mem, spec_font,
    sprite_pixel_on, sprite_target, step_matches, wf_view, ChipError, ChipView, MAX_ROM_LEN,
    MEM_SIZE, ROM_BASE, SCREEN_CELLS, SCREEN_H, SCREEN_W,
};

verus! {

/// Draws one byte from the host's random number generator.
///
/// Relies on `rand::thread_rng` and `rand::Rng::gen`; nothing is assumed of
/// the value, so every caller is verified for every byte that may come back.
#[verifier::external_body]
fn random_byte() -> u8 {
    rand::thread_rng().gen()
}

/// A CHIP-8 machine. Its abstract state is the [`ChipView`] given by `@`;
/// every operation's contract is stated over that view.
pub struct Chip {
    memory: Vec<u8>,
    registers: Vec<u8>,
    address_register: u16,
    program_counter: u16,
    stack: Vec<u16>,
    sound_timer: u8,
    delay_timer: u8,
    screen: Vec<bool>,
    waiting_for_key: Option<u8>,
}

impl View for Chip {
    type V = ChipView;

    closed spec fn view(&self) -> ChipView {
        ChipView {
            mem: self.memory@,
            regs: self.registers@,
            i: self.address_register,
            pc: self.program_counter,
            stack: self.stack@,
            delay: self.delay_timer,
            sound: self.sound_timer,
            screen: self.screen@,
            waiting: self.waiting_for_key,
        }
    }
}

impl Chip {
    /// The machine's structural invariant; every public operation preserves it.
    pub open spec fn wf(&self) -> bool {
        wf_view(self@)
    }

    /// Build a machine in its start state: memory zeroed except for the
    /// built-in font at address 0, registers and timers zero, an empty call
    /// stack, a blank screen, and the program counter at the ROM base.
    pub fn new() -> (c: Chip)
        ensures
            c.wf(),
            c@ == init_view(),
    {
        let font: Vec<u8> = vec![
            0xF0u8, 0x90, 0x90, 0x90, 0xF0,
            0x20, 0x60, 0x20, 0x20, 0x70,
            0xF0, 0x10, 0xF0, 0x80, 0xF0,
            0xF0, 0x10, 0xF0, 0x10, 0xF0,
            0x90, 0x90, 0xF0, 0x10, 0x10,
            0xF0, 0x80, 0xF0, 0x10, 0xF0,
            0xF0, 0x80, 0xF0, 0x90, 0xF0,
            0xF0, 0x10, 0x20, 0x40, 0x40,
            0xF0, 0x90, 0xF0, 0x90, 0xF0,
            0xF0, 0x90, 0xF0, 0x10, 0xF0,
            0xF0, 0x90, 0xF0, 0x90, 0x90,
            0xE0, 0x90, 0xE0, 0x90, 0xE0,
            0xF0, 0x80, 0x80, 0x80, 0xF0,
            0xE0, 0x90, 0x90, 0x90, 0xE0,
            0xF0, 0x80, 0xF0, 0x80, 0xF0,
            0xF0, 0x80, 0xF0, 0x80, 0x80,
        ];
        proof {
            assert(font@ =~= spec_font());
        }
        let mut memory: Vec<u8> = vec![0u8; MEM_SIZE];
        let mut j: usize = 0;
        while j < 80
            invariant
                font@ == spec_font(),
                memory@.len() == MEM_SIZE,
                j <= 80,
                forall|a: int| 0 <= a < j ==> memory@[a] == spec_font()[a],
                forall|a: int| j <= a < MEM_SIZE ==> memory@[a] == 0u8,
            decreases 80 - j,
        {
            memory[j] = font[j];
            j += 1;
        }
        let registers: Vec<u8> = vec![0u8; 16];
        let screen: Vec<bool> = vec![false; SCREEN_CELLS];
        let c = Chip {
            memory,
            registers,
            address_register: 0,
            program_counter: 0x200,
            stack: Vec::new(),
            sound_timer: 0,
            delay_timer: 0,
            screen,
            waiting_for_key: None,
        };
        proof {
            assert(c@.mem =~= init_view().mem);
            assert(c@.regs =~= init_view().regs);
            assert(c@.screen =~= init_view().screen);
            assert(c@.stack =~= init_view().stack);
            assert(c@ =~= init_view());
        }
        c
    }

    /// Load a ROM into memory at the ROM base, verbatim and exactly once,
    /// before execution begins. A ROM that does not fit above the reserved
    /// region is rejected whole: the machine is left untouched.
    pub fn load_rom(&mut self, rom: &Vec<u8>) -> (r: Result<(), ChipError>)
        requires
            old(self).wf(),
        ensures
            final(self).wf(),
            (match r {
                Ok(()) => rom@.len() <= MAX_ROM_LEN && final(self)@ == (ChipView {
                    mem: loaded_mem(old(self)@.mem, rom@),
                    ..old(self)@
                }),
                Err(e) => e == (ChipError::RomTooLarge { len: rom@.len() as usize })
                    && rom@.len() > MAX_ROM_LEN && final(self)@ == old(self)@,
            }),
    {
        if rom.len() > MAX_ROM_LEN {
            return Err(ChipError::RomTooLarge { len: rom.len() });
        }
        let mut k: usize = 0;
        while k < rom.len()
            invariant
                self.wf(),
                rom@.len() <= MAX_ROM_LEN,
                k <= rom@.len(),
                self@ == (ChipView { mem: self@.mem, ..old(self)@ }),
                self@.mem.len() == MEM_SIZE,
                forall|a: int|
                    ROM_BASE <= a < ROM_BASE + k ==> self@.mem[a] == rom@[a - ROM_BASE],
                forall|a: int|
                    0 <= a < MEM_SIZE && !(ROM_BASE <= a < ROM_BASE + k) ==> self@.mem[a]
                        == old(self)@.mem[a],
            decreases rom@.len() - k,
        {
            self.memory[ROM_BASE + k] = rom[k];
            k += 1;
        }
        proof {
            assert(self@.mem =~= loaded_mem(old(self)@.mem, rom@));
        }
        Ok(())
    }

    /// Advance the two timers by one 60 Hz tick: each decrements toward zero
    /// and never below; nothing else moves.
    pub fn tick(&mut self)
        requires
            old(self).wf(),
        ensures
            final(self).wf(),
            final(self)@ == (ChipView {
                delay: dec_timer(old(self)@.delay),
                sound: dec_timer(old(self)@.sound),
                ..old(self)@
            }),
    {
        if self.delay_timer > 0 {
            self.delay_timer = self.delay_timer - 1;
        }
        if self.sound_timer > 0 {
            self.sound_timer = self.sound_timer - 1;
        }
    }

    /// Whether the tone should be audible now: exactly while the sound timer
    /// is non-zero.
    pub fn tone_active(&self) -> (r: bool)
        ensures
            r == (self@.sound != 0),
    {
        self.sound_timer != 0
    }

    /// Whether the machine is suspended waiting for a key press; while it is,
    /// `step` does nothing and `press_key` resumes it.
    pub fn is_waiting_for_key(&self) -> (r: bool)
        ensures
            r == (self@.waiting is Some),
    {
        self.waiting_for_key.is_some()
    }

    /// Hand the machine a key-press event for key index `key`. If it is
    /// suspended waiting for one, the key lands in the register the wait
    /// named and the machine becomes ready to fetch again; otherwise the
    /// event is not the machine's business and nothing moves.
    pub fn press_key(&mut self, key: u8)
        requires
            old(self).wf(),
            key < 16,
        ensures
            final(self).wf(),
            (match old(self)@.waiting {
                Some(x) => final(self)@ == (ChipView {
                    regs: old(self)@.regs.update(x as int, key),
                    waiting: None,
                    ..old(self)@
                }),
                None => final(self)@ == old(self)@,
            }),
    {
        match self.waiting_for_key {
            Some(x) => {
                self.registers[x as usize] = key;
                self.waiting_for_key = None;
            },
            None => {},
        }
    }

    /// Draw the 8-by-`n` sprite stored at the address register to position
    /// (VX, VY), XOR-compositing it onto the framebuffer with wrap-around at
    /// the edges; VF records whether any pixel was turned off. If a sprite
    /// row would be read from outside memory, nothing moves.
    fn op_draw(&mut self, x: u8, y: u8, n: u8) -> (r: Result<(), ChipError>)
        requires
            old(self).wf(),
            x < 16,
            y < 16,
            n < 16,
        ensures
            final(self).wf(),
            (match r {
                Ok(()) => old(self)@.i + n <= MEM_SIZE && final(self)@ == (ChipView {
                    screen: draw_screen(
                        old(self)@.screen,
                        old(self)@.mem,
                        old(self)@.i as int,
                        old(self)@.regs[x as int] as int,
                        old(self)@.regs[y as int] as int,
                        n as int,
                    ),
                    regs: old(self)@.regs.update(
                        15,
                        draw_vf(
                            old(self)@.screen,
                            old(self)@.mem,
                            old(self)@.i as int,
                            old(self)@.regs[x as int] as int,
                            old(self)@.regs[y as int] as int,
                            n as int,
                        ),
                    ),
                    ..old(self)@
                }),
                Err(e) => old(self)@.i + n > MEM_SIZE && e == (ChipError::AddressOutOfRange {
                    addr: (old(self)@.i + n) as u16,
                }) && final(self)@ == old(self)@,
            }),
    {
        if (self.address_register as usize) + (n as usize) > MEM_SIZE {
            return Err(ChipError::AddressOutOfRange { addr: self.address_register + (n as u16) });
        }
        let vx = self.registers[x as usize];
        let vy = self.registers[y as usize];
        let i = self.address_register;
        let ghost s0 = old(self)@.screen;
        let ghost m0 = old(self)@.mem;
        let ghost i0 = old(self)@.i as int;
        let ghost vx0 = vx as int;
        let ghost vy0 = vy as int;
        let mut vf: u8 = 0;
        let mut l: u8 = 0;
        while l < n
            invariant
                self.wf(),
                l <= n,
                n < 16,
                i == old(self)@.i,
                i0 == i as int,
                i as int + n <= MEM_SIZE,
                m0 == old(self)@.mem,
                s0 == old(self)@.screen,
                vx0 == vx as int,
                vy0 == vy as int,
                vf == 0 || vf == 1,
                self@ == (ChipView { screen: self@.screen, ..old(self)@ }),
                self@.screen.len() == SCREEN_CELLS,
                forall|p: int|
                    0 <= p < SCREEN_CELLS ==> self@.screen[p] == (s0[p] != hits_before(
                        m0,
                        i0,
                        vx0,
                        vy0,
                        l as int,
                        0,
                        p,
                    )),
                (vf == 1) == collision_before(s0, m0, i0, vx0, vy0, l as int, 0),
            decreases n - l,
        {
            let byte = self.memory[(i as usize) + (l as usize)];
            let mut b: u8 = 0;
            while b < 8
                invariant
                    self.wf(),
                    b <= 8,
                    l < n,
                    n < 16,
                    i0 == i as int,
                    i as int + n <= MEM_SIZE,
                    m0 == old(self)@.mem,
                    s0 == old(self)@.screen,
                    vx0 == vx as int,
                    vy0 == vy as int,
                    byte == m0[i0 + l as int],
                    vf == 0 || vf == 1,
                    self@ == (ChipView { screen: self@.screen, ..old(self)@ }),
                    self@.screen.len() == SCREEN_CELLS,
                    forall|p: int|
                        0 <= p < SCREEN_CELLS ==> self@.screen[p] == (s0[p] != hits_before(
                            m0,
                            i0,
                            vx0,
                            vy0,
                            l as int,
                            b as int,
                            p,
                        )),
                    (vf == 1) == collision_before(s0, m0, i0, vx0, vy0, l as int, b as int),
                decreases 8 - b,
            {
                let mask: u8 = 0x80u8 >> b;
                if byte & mask != 0 {
                    let px = ((vx as usize) + (b as usize)) % 64;
                    let py = ((vy as usize) + (l as usize)) % 32;
                    let p = py * 64 + px;
                    proof {
                        assert(sprite_pixel_on(m0, i0, l as int, b as int));
                        lemma_sprite_target_in_range(vx0, vy0, l as int, b as int);
                        assert(p as int == sprite_target(vx0, vy0, l as int, b as int));
                        assert(!hits_before(m0, i0, vx0, vy0, l as int, b as int, p as int)) by {
                            if hits_before(m0, i0, vx0, vy0, l as int, b as int, p as int) {
                                let (l2, b2) = choose|l2: int, b2: int|
                                    0 <= l2 && 0 <= b2 < 8 && (l2 < l as int || (l2 == l as int
                                        && b2 < b as int)) && #[trigger] sprite_pixel_on(
                                        m0,
                                        i0,
                                        l2,
                                        b2,
                                    ) && p as int == sprite_target(vx0, vy0, l2, b2);
                                lemma_sprite_target_distinct(
                                    vx0,
                                    vy0,
                                    l2,
                                    b2,
                                    l as int,
                                    b as int,
                                );
                            }
                        };
                    }
                    let cur = self.screen[p];
                    if cur {
                        vf = 1;
                    }
                    self.screen[p] = !cur;
                    proof {
                        let li = l as int;
                        let bi = b as int;
                        let q = p as int;
                        assert(cur == s0[q]);
                        assert forall|pp: int| 0 <= pp < SCREEN_CELLS && pp != q implies
                            hits_before(m0, i0, vx0, vy0, li, bi + 1, pp) == hits_before(
                            m0,
                            i0,
                            vx0,
                            vy0,
                            li,
                            bi,
                            pp,
                        ) by {
                            if hits_before(m0, i0, vx0, vy0, li, bi + 1, pp) {
                                let (l2, b2) = choose|l2: int, b2: int|
                                    0 <= l2 && 0 <= b2 < 8 && (l2 < li || (l2 == li && b2 < bi
                                        + 1)) && #[trigger] sprite_pixel_on(m0, i0, l2, b2)
                                        && pp == sprite_target(vx0, vy0, l2, b2);
                                assert(!(l2 == li && b2 == bi));
                                assert(hits_before(m0, i0, vx0, vy0, li, bi, pp));
                            }
                        };
                        assert(hits_before(m0, i0, vx0, vy0, li, bi + 1, q)) by {
                            assert(sprite_pixel_on(m0, i0, li, bi) && q == sprite_target(
                                vx0,
                                vy0,
                                li,
                                bi,
                            ));
                        };
                        assert((vf == 1) == collision_before(s0, m0, i0, vx0, vy0, li, bi + 1))
                            by {
                            if collision_before(s0, m0, i0, vx0, vy0, li, bi + 1) {
                                let (l2, b2) = choose|l2: int, b2: int|
                                    0 <= l2 && 0 <= b2 < 8 && (l2 < li || (l2 == li && b2 < bi
                                        + 1)) && #[trigger] sprite_pixel_on(m0, i0, l2, b2)
                                        && s0[sprite_target(vx0, vy0, l2, b2)];
                                if !(l2 == li && b2 == bi) {
                                    assert(collision_before(s0, m0, i0, vx0, vy0, li, bi));
                                }
                            }
                            if collision_before(s0, m0, i0, vx0, vy0, li, bi) {
                                let (l2, b2) = choose|l2: int, b2: int|
                                    0 <= l2 && 0 <= b2 < 8 && (l2 < li || (l2 == li && b2 < bi))
                                        && #[trigger] sprite_pixel_on(m0, i0, l2, b2)
                                        && s0[sprite_target(vx0, vy0, l2, b2)];
                                assert(collision_before(s0, m0, i0, vx0, vy0, li, bi + 1));
                            }
                            if s0[q] {
                                assert(collision_before(s0, m0, i0, vx0, vy0, li, bi + 1));
                            }
                        };
                    }
                } else {
                    proof {
                        let li = l as int;
                        let bi = b as int;
                        assert(!sprite_pixel_on(m0, i0, li, bi));
                        assert forall|pp: int| 0 <= pp < SCREEN_CELLS implies hits_before(
                            m0,
                            i0,
                            vx0,
                            vy0,
                            li,
                            bi + 1,
                            pp,
                        ) == hits_before(m0, i0, vx0, vy0, li, bi, pp) by {
                            if hits_before(m0, i0, vx0, vy0, li, bi + 1, pp) {
                                let (l2, b2) = choose|l2: int, b2: int|
                                    0 <= l2 && 0 <= b2 < 8 && (l2 < li || (l2 == li && b2 < bi
                                        + 1)) && #[trigger] sprite_pixel_on(m0, i0, l2, b2)
                                        && pp == sprite_target(vx0, vy0, l2, b2);
                                assert(!(l2 == li && b2 == bi));
                                assert(hits_before(m0, i0, vx0, vy0, li, bi, pp));
                            }
                        };
                        assert(collision_before(s0, m0, i0, vx0, vy0, li, bi + 1)
                            == collision_before(s0, m0, i0, vx0, vy0, li, bi)) by {
                            if collision_before(s0, m0, i0, vx0, vy0, li, bi + 1) {
                                let (l2, b2) = choose|l2: int, b2: int|
                                    0 <= l2 && 0 <= b2 < 8 && (l2 < li || (l2 == li && b2 < bi
                                        + 1)) && #[trigger] sprite_pixel_on(m0, i0, l2, b2)
                                        && s0[sprite_target(vx0, vy0, l2, b2)];
                                assert(!(l2 == li && b2 == bi));
                                assert(collision_before(s0, m0, i0, vx0, vy0, li, bi));
                            }
                            if collision_before(s0, m0, i0, vx0, vy0, li, bi) {
                                assert(collision_before(s0, m0, i0, vx0, vy0, li, bi + 1));
                            }
                        };
                    }
                }
                b += 1;
            }
            proof {
                let li = l as int;
                assert forall|pp: int| 0 <= pp < SCREEN_CELLS implies hits_before(
                    m0,
                    i0,
                    vx0,
                    vy0,
                    li + 1,
                    0,
                    pp,
                ) == hits_before(m0, i0, vx0, vy0, li, 8, pp) by {
                    if hits_before(m0, i0, vx0, vy0, li + 1, 0, pp) {
                        let (l2, b2) = choose|l2: int, b2: int|
                            0 <= l2 && 0 <= b2 < 8 && (l2 < li + 1 || (l2 == li + 1 && b2 < 0))
                                && #[trigger] sprite_pixel_on(m0, i0, l2, b2) && pp
                                == sprite_target(vx0, vy0, l2, b2);
                        assert(hits_before(m0, i0, vx0, vy0, li, 8, pp));
                    }
                    if hits_before(m0, i0, vx0, vy0, li, 8, pp) {
                        let (l2, b2) = choose|l2: int, b2: int|
                            0 <= l2 && 0 <= b2 < 8 && (l2 < li || (l2 == li && b2 < 8))
                                && #[trigger] sprite_pixel_on(m0, i0, l2, b2) && pp
                                == sprite_target(vx0, vy0, l2, b2);
                        assert(hits_before(m0, i0, vx0, vy0, li + 1, 0, pp));
                    }
                };
                assert(collision_before(s0, m0, i0, vx0, vy0, li + 1, 0) == collision_before(
                    s0,
                    m0,
                    i0,
                    vx0,
                    vy0,
                    li,
                    8,
                )) by {
                    if collision_before(s0, m0, i0, vx0, vy0, li + 1, 0) {
                        let (l2, b2) = choose|l2: int, b2: int|
                            0 <= l2 && 0 <= b2 < 8 && (l2 < li + 1 || (l2 == li + 1 && b2 < 0))
                                && #[trigger] sprite_pixel_on(m0, i0, l2, b2)
                                && s0[sprite_target(vx0, vy0, l2, b2)];
                        assert(collision_before(s0, m0, i0, vx0, vy0, li, 8));
                    }
                    if collision_before(s0, m0, i0, vx0, vy0, li, 8) {
                        let (l2, b2) = choose|l2: int, b2: int|
                            0 <= l2 && 0 <= b2 < 8 && (l2 < li || (l2 == li && b2 < 8))
                                && #[trigger] sprite_pixel_on(m0, i0, l2, b2)
                                && s0[sprite_target(vx0, vy0, l2, b2)];
                        assert(collision_before(s0, m0, i0, vx0, vy0, li + 1, 0));
                    }
                };
            }
            l += 1;
        }
        self.registers[15] = vf;
        proof {
            assert(self@.screen =~= draw_screen(s0, m0, i0, vx0, vy0, n as int));
            assert(vf == draw_vf(s0, m0, i0, vx0, vy0, n as int));
        }
        Ok(())
    }

    /// Set every framebuffer cell to off.
    fn op_clear(&mut self)
        requires
            old(self).wf(),
        ensures
            final(self).wf(),
            final(self)@ == (ChipView { screen: blank_screen(), ..old(self)@ }),
    {
        self.screen = vec![false; SCREEN_CELLS];
        proof {
            assert(self@.screen =~= blank_screen());
        }
    }

    /// Write the three decimal digits of VX to memory at I, I+1, I+2, most
    /// significant first. If the three cells are not all inside memory,
    /// nothing moves.
    fn op_bcd(&mut self, x: u8) -> (r: Result<(), ChipError>)
        requires
            old(self).wf(),
            x < 16,
        ensures
            final(self).wf(),
            (match r {
                Ok(()) => old(self)@.i + 3 <= MEM_SIZE && final(self)@ == (ChipView {
                    mem: old(self)@.mem.update(
                        old(self)@.i as int,
                        bcd_hundreds(old(self)@.regs[x as int]),
                    ).update(old(self)@.i + 1, bcd_tens(old(self)@.regs[x as int])).update(
                        old(self)@.i + 2,
                        bcd_ones(old(self)@.regs[x as int]),
                    ),
                    ..old(self)@
                }),
                Err(e) => old(self)@.i + 3 > MEM_SIZE && e == (ChipError::AddressOutOfRange {
                    addr: (old(self)@.i + 3) as u16,
                }) && final(self)@ == old(self)@,
            }),
    {
        if (self.address_register as usize) + 3 > MEM_SIZE {
            return Err(ChipError::AddressOutOfRange { addr: self.address_register + 3 });
        }
        let v = self.registers[x as usize];
        let base = self.address_register as usize;
        self.memory[base] = v / 100;
        self.memory[base + 1] = (v / 10) % 10;
        self.memory[base + 2] = v % 10;
        Ok(())
    }

    /// Write registers V0..=VX to memory starting at I; I itself is
    /// unchanged. If the cells are not all inside memory, nothing moves.
    fn op_reg_dump(&mut self, x: u8) -> (r: Result<(), ChipError>)
        requires
            old(self).wf(),
            x < 16,
        ensures
            final(self).wf(),
            (match r {
                Ok(()) => old(self)@.i + x + 1 <= MEM_SIZE && final(self)@ == (ChipView {
                    mem: dump_mem(old(self)@.mem, old(self)@.regs, old(self)@.i as int, x as int),
                    ..old(self)@
                }),
                Err(e) => old(self)@.i + x + 1 > MEM_SIZE && e == (ChipError::AddressOutOfRange {
                    addr: (old(self)@.i + x + 1) as u16,
                }) && final(self)@ == old(self)@,
            }),
    {
        if (self.address_register as usize) + (x as usize) + 1 > MEM_SIZE {
            return Err(
                ChipError::AddressOutOfRange { addr: self.address_register + (x as u16) + 1 },
            );
        }
        let base = self.address_register as usize;
        let mut k: usize = 0;
        while k <= x as usize
            invariant
                self.wf(),
                x < 16,
                k <= x as usize + 1,
                base == old(self)@.i as int,
                base + x + 1 <= MEM_SIZE,
                self@ == (ChipView { mem: self@.mem, ..old(self)@ }),
                self@.mem.len() == MEM_SIZE,
                forall|a: int| base <= a < base + k ==> self@.mem[a] == old(self)@.regs[a - base],
                forall|a: int|
                    0 <= a < MEM_SIZE && !(base <= a < base + k) ==> self@.mem[a]
                        == old(self)@.mem[a],
            decreases x as usize + 1 - k,
        {
            self.memory[base + k] = self.registers[k];
            k += 1;
        }
        proof {
            assert(self@.mem =~= dump_mem(old(self)@.mem, old(self)@.regs, base as int, x as int));
        }
        Ok(())
    }

    /// Read registers V0..=VX back from memory starting at I; I itself is
    /// unchanged. If the cells are not all inside memory, nothing moves.
    fn op_reg_load(&mut self, x: u8) -> (r: Result<(), ChipError>)
        requires
            old(self).wf(),
            x < 16,
        ensures
            final(self).wf(),
            (match r {
                Ok(()) => old(self)@.i + x + 1 <= MEM_SIZE && final(self)@ == (ChipView {
                    regs: load_regs(old(self)@.regs, old(self)@.mem, old(self)@.i as int, x as int),
                    ..old(self)@
                }),
                Err(e) => old(self)@.i + x + 1 > MEM_SIZE && e == (ChipError::AddressOutOfRange {
                    addr: (old(self)@.i + x + 1) as u16,
                }) && final(self)@ == old(self)@,
            }),
    {
        if (self.address_register as usize) + (x as usize) + 1 > MEM_SIZE {
            return Err(
                ChipError::AddressOutOfRange { addr: self.address_register + (x as u16) + 1 },
            );
        }
        let base = self.address_register as usize;
        let mut k: usize = 0;
        while k <= x as usize
            invariant
                self.wf(),
                x < 16,
                k <= x as usize + 1,
                base == old(self)@.i as int,
                base + x + 1 <= MEM_SIZE,
                self@ == (ChipView { regs: self@.regs, ..old(self)@ }),
                self@.regs.len() == 16,
                forall|rr: int| 0 <= rr < k ==> self@.regs[rr] == old(self)@.mem[base + rr],
                forall|rr: int| k <= rr < 16 ==> self@.regs[rr] == old(self)@.regs[rr],
            decreases x as usize + 1 - k,
        {
            self.registers[k] = self.memory[base + k];
            k += 1;
        }
        proof {
            assert(self@.regs =~= load_regs(old(self)@.regs, old(self)@.mem, base as int, x as int));
        }
        Ok(())
    }

    /// Execute one already-decoded instruction against the machine state,
    /// whose program counter has already advanced past it. The contract says
    /// the machine makes exactly the move `spec_exec_op` describes, for some
    /// value of the random byte; on an error nothing moves.
    fn exec_ins(&mut self, ins: OpCode, keys: &[bool; 16]) -> (r: Result<(), ChipError>)
        requires
            old(self).wf(),
            ins_wf(ins),
            old(self)@.pc <= 0x1000,
        ensures
            final(self).wf(),
            exists|rnd: u8| #[trigger] ins_matches(old(self)@, final(self)@, ins, rnd, keys@, r),
    {
        match ins {
            OpCode::_00E0 => {
                self.op_clear();
                proof {
                    assert(ins_matches(old(self)@, self@, ins, 0u8, keys@, Ok::<(), ChipError>(())));
                }
                Ok(())
            },
            OpCode::_00EE => {
                match self.stack.pop() {
                    Some(addr) => {
                        self.program_counter = addr;
                        proof {
                            assert(ins_matches(
                                old(self)@,
                                self@,
                                ins,
                                0u8,
                                keys@,
                                Ok::<(), ChipError>(()),
                            ));
                        }
                        Ok(())
                    },
                    None => {
                        let e = ChipError::StackUnderflow;
                        proof {
                            assert(ins_matches(
                                old(self)@,
                                self@,
                                ins,
                                0u8,
                                keys@,
                                Err::<(), ChipError>(e),
                            ));
                        }
                        Err(e)
                    },
                }
            },
            OpCode::_1NNN(nnn) => {
                self.program_counter = nnn;
                proof {
                    assert(ins_matches(old(self)@, self@, ins, 0u8, keys@, Ok::<(), ChipError>(())));
                }
                Ok(())
            },
            OpCode::_2NNN(nnn) => {
                self.stack.push(self.program_counter);
                self.program_counter = nnn;
                proof {
                    assert(ins_matches(old(self)@, self@, ins, 0u8, keys@, Ok::<(), ChipError>(())));
                }
                Ok(())
            },
            OpCode::_3XNN(x, nn) => {
                if self.registers[x as usize] == nn {
                    self.program_counter = self.program_counter + 2;
                }
                proof {
                    assert(ins_matches(old(self)@, self@, ins, 0u8, keys@, Ok::<(), ChipError>(())));
                }
                Ok(())
            },
            OpCode::_4XNN(x, nn) => {
                if self.registers[x as usize] != nn {
                    self.program_counter = self.program_counter + 2;
                }
                proof {
                    assert(ins_matches(old(self)@, self@, ins, 0u8, keys@, Ok::<(), ChipError>(())));
                }
                Ok(())
            },
            OpCode::_5XY0(x, y) => {
                if self.registers[x as usize] == self.registers[y as usize] {
                    self.program_counter = self.program_counter + 2;
                }
                proof {
                    assert(ins_matches(old(self)@, self@, ins, 0u8, keys@, Ok::<(), ChipError>(())));
                }
                Ok(())
            },
            OpCode::_6XNN(x, nn) => {
                self.registers[x as usize] = nn;
                proof {
                    assert(ins_matches(old(self)@, self@, ins, 0u8, keys@, Ok::<(), ChipError>(())));
                }
                Ok(())
            },
            OpCode::_7XNN(x, nn) => {
                let vx = self.registers[x as usize];
                let sum = (vx as u16) + (nn as u16);
                self.registers[x as usize] = (sum % 256) as u8;
                proof {
                    assert(ins_matches(old(self)@, self@, ins, 0u8, keys@, Ok::<(), ChipError>(())));
                }
                Ok(())
            },
            OpCode::_8XY0(x, y) => {
                self.registers[x as usize] = self.registers[y as usize];
                proof {
                    assert(ins_matches(old(self)@, self@, ins, 0u8, keys@, Ok::<(), ChipError>(())));
                }
                Ok(())
            },
            OpCode::_8XY1(x, y) => {
                self.registers[x as usize] = self.registers[x as usize] | self.registers[y as usize];
                proof {
                    assert(ins_matches(old(self)@, self@, ins, 0u8, keys@, Ok::<(), ChipError>(())));
                }
                Ok(())
            },
            OpCode::_8XY2(x, y) => {
                self.registers[x as usize] = self.registers[x as usize] & self.registers[y as usize];
                proof {
                    assert(ins_matches(old(self)@, self@, ins, 0u8, keys@, Ok::<(), ChipError>(())));
                }
                Ok(())
            },
            OpCode::_8XY3(x, y) => {
                self.registers[x as usize] = self.registers[x as usize] ^ self.registers[y as usize];
                proof {
                    assert(ins_matches(old(self)@, self@, ins, 0u8, keys@, Ok::<(), ChipError>(())));
                }
                Ok(())
            },
            OpCode::_8XY4(x, y) => {
                let a = self.registers[x as usize];
                let b = self.registers[y as usize];
                let sum = (a as u16) + (b as u16);
                self.registers[x as usize] = (sum % 256) as u8;
                self.registers[15] = if sum > 255 {
                    1
                } else {
                    0
                };
                proof {
                    assert(ins_matches(old(self)@, self@, ins, 0u8, keys@, Ok::<(), ChipError>(())));
                }
                Ok(())
            },
            OpCode::_8XY5(x, y) => {
                let a = self.registers[x as usize];
                let b = self.registers[y as usize];
                let diff = ((a as u16) + 256 - (b as u16)) % 256;
                self.registers[x as usize] = diff as u8;
                self.registers[15] = if a >= b {
                    1
                } else {
                    0
                };
                proof {
                    assert(ins_matches(old(self)@, self@, ins, 0u8, keys@, Ok::<(), ChipError>(())));
                }
                Ok(())
            },
            OpCode::_8XY6(x) => {
                let vx = self.registers[x as usize];
                self.registers[x as usize] = vx / 2;
                self.registers[15] = vx % 2;
                proof {
                    assert(ins_matches(old(self)@, self@, ins, 0u8, keys@, Ok::<(), ChipError>(())));
                }
                Ok(())
            },
            OpCode::_8XY7(x, y) => {
                let a = self.registers[x as usize];
                let b = self.registers[y as usize];
                let diff = ((b as u16) + 256 - (a as u16)) % 256;
                self.registers[x as usize] = diff as u8;
                self.registers[15] = if b >= a {
                    1
                } else {
                    0
                };
                proof {
                    assert(ins_matches(old(self)@, self@, ins, 0u8, keys@, Ok::<(), ChipError>(())));
                }
                Ok(())
            },
            OpCode::_8XYE(x) => {
                let vx = self.registers[x as usize];
                self.registers[x as usize] = (((vx as u16) * 2) % 256) as u8;
                self.registers[15] = vx / 128;
                proof {
                    assert(ins_matches(old(self)@, self@, ins, 0u8, keys@, Ok::<(), ChipError>(())));
                }
                Ok(())
            },
            OpCode::_9XY0(x, y) => {
                if self.registers[x as usize] != self.registers[y as usize] {
                    self.program_counter = self.program_counter + 2;
                }
                proof {
                    assert(ins_matches(old(self)@, self@, ins, 0u8, keys@, Ok::<(), ChipError>(())));
                }
                Ok(())
            },
            OpCode::_ANNN(nnn) => {
                self.address_register = nnn;
                proof {
                    assert(ins_matches(old(self)@, self@, ins, 0u8, keys@, Ok::<(), ChipError>(())));
                }
                Ok(())
            },
            OpCode::_BNNN(nnn) => {
                let target = (self.registers[0] as u16) + nnn;
                if (target as usize) >= MEM_SIZE {
                    let e = ChipError::PcOutOfRange { pc: target };
                    proof {
                        assert(ins_matches(
                            old(self)@,
                            self@,
                            ins,
                            0u8,
                            keys@,
                            Err::<(), ChipError>(e),
                        ));
                    }
                    Err(e)
                } else {
                    self.program_counter = target;
                    proof {
                        assert(ins_matches(
                            old(self)@,
                            self@,
                            ins,
                            0u8,
                            keys@,
                            Ok::<(), ChipError>(()),
                        ));
                    }
                    Ok(())
                }
            },
            OpCode::_CXNN(x, nn) => {
                let rb = random_byte();
                self.registers[x as usize] = nn & rb;
                proof {
                    assert(ins_matches(old(self)@, self@, ins, rb, keys@, Ok::<(), ChipError>(())));
                }
                Ok(())
            },
            OpCode::_DXYN(x, y, n) => {
                let res = self.op_draw(x, y, n);
                match res {
                    Ok(()) => {
                        proof {
                            assert(ins_matches(
                                old(self)@,
                                self@,
                                ins,
                                0u8,
                                keys@,
                                Ok::<(), ChipError>(()),
                            ));
                        }
                        Ok(())
                    },
                    Err(e) => {
                        proof {
                            assert(ins_matches(
                                old(self)@,
                                self@,
                                ins,
                                0u8,
                                keys@,
                                Err::<(), ChipError>(e),
                            ));
                        }
                        Err(e)
                    },
                }
            },
            OpCode::_EX9E(x) => {
                let key = (self.registers[x as usize] % 16) as usize;
                if keys[key] {
                    self.program_counter = self.program_counter + 2;
                }
                proof {
                    assert(ins_matches(old(self)@, self@, ins, 0u8, keys@, Ok::<(), ChipError>(())));
                }
                Ok(())
            },
            OpCode::_EXA1(x) => {
                let key = (self.registers[x as usize] % 16) as usize;
                if !keys[key] {
                    self.program_counter = self.program_counter + 2;
                }
                proof {
                    assert(ins_matches(old(self)@, self@, ins, 0u8, keys@, Ok::<(), ChipError>(())));
                }
                Ok(())
            },
            OpCode::_FX07(x) => {
                self.registers[x as usize] = self.delay_timer;
                proof {
                    assert(ins_matches(old(self)@, self@, ins, 0u8, keys@, Ok::<(), ChipError>(())));
                }
                Ok(())
            },
            OpCode::_FX0A(x) => {
                self.waiting_for_key = Some(x);
                proof {
                    assert(ins_matches(old(self)@, self@, ins, 0u8, keys@, Ok::<(), ChipError>(())));
                }
                Ok(())
            },
            OpCode::_FX15(x) => {
                self.delay_timer = self.registers[x as usize];
                proof {
                    assert(ins_matches(old(self)@, self@, ins, 0u8, keys@, Ok::<(), ChipError>(())));
                }
                Ok(())
            },
            OpCode::_FX18(x) => {
                self.sound_timer = self.registers[x as usize];
                proof {
                    assert(ins_matches(old(self)@, self@, ins, 0u8, keys@, Ok::<(), ChipError>(())));
                }
                Ok(())
            },
            OpCode::_FX1E(x) => {
                let sum = self.address_register + (self.registers[x as usize] as u16);
                if (sum as usize) >= MEM_SIZE {
                    let e = ChipError::AddressOutOfRange { addr: sum };
                    proof {
                        assert(ins_matches(
                            old(self)@,
                            self@,
                            ins,
                            0u8,
                            keys@,
                            Err::<(), ChipError>(e),
                        ));
                    }
                    Err(e)
                } else {
                    self.address_register = sum;
                    proof {
                        assert(ins_matches(
                            old(self)@,
                            self@,
                            ins,
                            0u8,
                            keys@,
                            Ok::<(), ChipError>(()),
                        ));
                    }
                    Ok(())
                }
            },
            OpCode::_FX29(x) => {
                self.address_register = 5 * (self.registers[x as usize] as u16);
                proof {
                    assert(ins_matches(old(self)@, self@, ins, 0u8, keys@, Ok::<(), ChipError>(())));
                }
                Ok(())
            },
            OpCode::_FX33(x) => {
                let res = self.op_bcd(x);
                proof {
                    assert(ins_matches(old(self)@, self@, ins, 0u8, keys@, res));
                }
                res
            },
            OpCode::_FX55(x) => {
                let res = self.op_reg_dump(x);
                proof {
                    assert(ins_matches(old(self)@, self@, ins, 0u8, keys@, res));
                }
                res
            },
            OpCode::_FX65(x) => {
                let res = self.op_reg_load(x);
                proof {
                    assert(ins_matches(old(self)@, self@, ins, 0u8, keys@, res));
                }
                res
            },
        }
    }

    /// Execute one whole machine step: while the machine is suspended
    /// waiting for a key it does nothing; otherwise it fetches the two-byte
    /// opcode at the program counter, decodes it, advances the program
    /// counter, and executes it against the state, reading the key pad
    /// `keys`. On any error the machine is left exactly as it was and the
    /// error says what went wrong; the contract ties the whole step to
    /// `spec_step`, for some value of the random byte.
    pub fn step(&mut self, keys: &[bool; 16]) -> (r: Result<(), ChipError>)
        requires
            old(self).wf(),
        ensures
            final(self).wf(),
            exists|rnd: u8| #[trigger] step_matches(old(self)@, final(self)@, keys@, rnd, r),
    {
        if self.waiting_for_key.is_some() {
            proof {
                assert(step_matches(old(self)@, self@, keys@, 0u8, Ok::<(), ChipError>(())));
            }
            return Ok(());
        }
        let pc = self.program_counter;
        if pc >= 0xFFF {
            let e = ChipError::PcOutOfRange { pc };
            proof {
                assert(step_matches(old(self)@, self@, keys@, 0u8, Err::<(), ChipError>(e)));
            }
            return Err(e);
        }
        let hi = self.memory[pc as usize];
        let lo = self.memory[(pc as usize) + 1];
        let op: u16 = (hi as u16) * 256 + (lo as u16);
        proof {
            assert(op == fetched_op(old(self)@));
        }
        match decode(op) {
            None => {
                let e = ChipError::UnknownOpcode { op, pc };
                proof {
                    assert(step_matches(old(self)@, self@, keys@, 0u8, Err::<(), ChipError>(e)));
                }
                Err(e)
            },
            Some(ins) => {
                self.program_counter = pc + 2;
                let ghost mid = self@;
                let res = self.exec_ins(ins, keys);
                let ghost after = self@;
                match res {
                    Ok(()) => {
                        proof {
                            let rnd = choose|rnd: u8|
                                #[trigger] ins_matches(mid, after, ins, rnd, keys@, res);
                            assert(ins_matches(mid, after, ins, rnd, keys@, res));
                            assert(step_matches(
                                old(self)@,
                                self@,
                                keys@,
                                rnd,
                                Ok::<(), ChipError>(()),
                            ));
                        }
                        Ok(())
                    },
                    Err(e) => {
                        self.program_counter = pc;
                        proof {
                            let rnd = choose|rnd: u8|
                                #[trigger] ins_matches(mid, after, ins, rnd, keys@, res);
                            assert(ins_matches(mid, after, ins, rnd, keys@, res));
                            assert(self@ == old(self)@);
                            assert(step_matches(
                                old(self)@,
                                self@,
                                keys@,
                                rnd,
                                Err::<(), ChipError>(e),
                            ));
                        }
                        Err(e)
                    },
                }
            },
        }
    }

    /// The state of the pixel at column `x` of row `y`.
    pub fn pixel(&self, x: usize, y: usize) -> (r: bool)
        requires
            self.wf(),
            x < SCREEN_W,
            y < SCREEN_H,
        ensures
            r == self@.screen[y * 64 + x],
    {
        self.screen[y * 64 + x]
    }

    /// The byte in memory at `addr`.
    pub fn mem_byte(&self, addr: u16) -> (r: u8)
        requires
            self.wf(),
            addr < MEM_SIZE,
        ensures
            r == self@.mem[addr as int],
    {
        self.memory[addr as usize]
    }

    /// The value of register VX.
    pub fn register(&self, x: u8) -> (r: u8)
        requires
            self.wf(),
            x < 16,
        ensures
            r == self@.regs[x as int],
    {
        self.registers[x as usize]
    }

    /// The address register I.
    pub fn address_register(&self) -> (r: u16)
        ensures
            r == self@.i,
    {
        self.address_register
    }

    /// The program counter.
    pub fn program_counter(&self) -> (r: u16)
        ensures
            r == self@.pc,
    {
        self.program_counter
    }

    /// How many return addresses the call stack holds.
    pub fn stack_depth(&self) -> (r: usize)
        ensures
            r == self@.stack.len(),
    {
        self.stack.len()
    }

    /// The delay timer's value.
    pub fn delay_timer(&self) -> (r: u8)
        ensures
            r == self@.delay,
    {
        self.delay_timer
    }

    /// The sound timer's value.
    pub fn sound_timer(&self) -> (r: u8)
        ensures
            r == self@.sound,
    {
        self.sound_timer
    }
}

} // verus!
