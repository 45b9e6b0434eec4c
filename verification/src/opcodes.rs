//! The instruction decoder: splits a 16-bit opcode word into its addressing
//! fields and classifies it as one of the closed set of CHIP-8 instructions.

use vstd::prelude::*;

verus! {

/// One decoded CHIP-8 instruction. Variant names spell the instruction's
/// encoding: `N` nibbles are literal fields, `X`/`Y` select registers.
#[derive(Clone, Copy, Debug, PartialEq, Eq, Structural)]
pub enum OpCode {
    /// `00E0`: clear the screen. The class-0 dispatch goes by the low
    /// nibble, so any `0NN0` word clears.
    _00E0,
    /// `00EE`: return from a subroutine. As with clearing, any `0NNE` word
    /// returns.
    _00EE,
    /// `1NNN`: jump to address NNN.
    _1NNN(u16),
    /// `2NNN`: call the subroutine at NNN.
    _2NNN(u16),
    /// `3XNN`: skip the next instruction if VX equals NN.
    _3XNN(u8, u8),
    /// `4XNN`: skip the next instruction if VX does not equal NN.
    _4XNN(u8, u8),
    /// `5XY0`: skip the next instruction if VX equals VY.
    _5XY0(u8, u8),
    /// `6XNN`: set VX to NN.
    _6XNN(u8, u8),
    /// `7XNN`: add NN to VX, wrapping; the carry flag is not changed.
    _7XNN(u8, u8),
    /// `8XY0`: set VX to VY.
    _8XY0(u8, u8),
    /// `8XY1`: set VX to VX | VY.
    _8XY1(u8, u8),
    /// `8XY2`: set VX to VX & VY.
    _8XY2(u8, u8),
    /// `8XY3`: set VX to VX ^ VY.
    _8XY3(u8, u8),
    /// `8XY4`: add VY to VX; VF becomes 1 on carry, else 0.
    _8XY4(u8, u8),
    /// `8XY5`: subtract VY from VX; VF becomes 0 on borrow, else 1.
    _8XY5(u8, u8),
    /// `8XY6`: VF becomes the least significant bit of VX; VX is shifted right by 1.
    _8XY6(u8),
    /// `8XY7`: set VX to VY - VX; VF becomes 0 on borrow, else 1.
    _8XY7(u8, u8),
    /// `8XYE`: VF becomes the most significant bit of VX; VX is shifted left by 1.
    _8XYE(u8),
    /// `9XY0`: skip the next instruction if VX does not equal VY.
    _9XY0(u8, u8),
    /// `ANNN`: set the address register I to NNN.
    _ANNN(u16),
    /// `BNNN`: jump to V0 + NNN.
    _BNNN(u16),
    /// `CXNN`: set VX to NN & a random byte.
    _CXNN(u8, u8),
    /// `DXYN`: draw the 8-by-N sprite at address I to position (VX, VY);
    /// VF becomes 1 if a pixel was turned off, else 0.
    _DXYN(u8, u8, u8),
    /// `EX9E`: skip the next instruction if the key named by VX is pressed.
    _EX9E(u8),
    /// `EXA1`: skip the next instruction if the key named by VX is not pressed.
    _EXA1(u8),
    /// `FX07`: set VX to the delay timer.
    _FX07(u8),
    /// `FX0A`: wait for a key press, then store the key's index in VX.
    _FX0A(u8),
    /// `FX15`: set the delay timer to VX.
    _FX15(u8),
    /// `FX18`: set the sound timer to VX.
    _FX18(u8),
    /// `FX1E`: add VX to the address register I; VF is not affected.
    _FX1E(u8),
    /// `FX29`: set I to the address of the built-in glyph for VX.
    _FX29(u8),
    /// `FX33`: write the three decimal digits of VX to memory at I, I+1, I+2.
    _FX33(u8),
    /// `FX55`: write registers V0..=VX to memory starting at I; I is unchanged.
    _FX55(u8),
    /// `FX65`: read registers V0..=VX from memory starting at I; I is unchanged.
    _FX65(u8),
}

/// The opcode's class: its top nibble.
pub open spec fn op_class(op: u16) -> u16 {
    op / 0x1000
}

/// The first register index: the opcode's second nibble.
pub open spec fn op_x(op: u16) -> u8 {
    ((op / 0x100) % 0x10) as u8
}

/// The second register index: the opcode's third nibble.
pub open spec fn op_y(op: u16) -> u8 {
    ((op / 0x10) % 0x10) as u8
}

/// The 4-bit immediate: the opcode's fourth nibble.
pub open spec fn op_n(op: u16) -> u8 {
    (op % 0x10) as u8
}

/// The 8-bit immediate: the opcode's low byte.
pub open spec fn op_nn(op: u16) -> u8 {
    (op % 0x100) as u8
}

/// The 12-bit address immediate: the opcode's low three nibbles.
pub open spec fn op_nnn(op: u16) -> u16 {
    op % 0x1000
}

/// Which instruction, if any, the 16-bit word `op` encodes. Any word whose
/// class or sub-class is not part of the instruction set decodes to `None`.
pub open spec fn spec_decode(op: u16) -> Option<OpCode> {
    let x = op_x(op);
    let y = op_y(op);
    let n = op_n(op);
    let nn = op_nn(op);
    let nnn = op_nnn(op);
    {
        match op_class(op) {
            0x0 => match n {
                0x0 => Some(OpCode::_00E0),
                0xE => Some(OpCode::_00EE),
                _ => None,
            },
            0x1 => Some(OpCode::_1NNN(nnn)),
            0x2 => Some(OpCode::_2NNN(nnn)),
            0x3 => Some(OpCode::_3XNN(x, nn)),
            0x4 => Some(OpCode::_4XNN(x, nn)),
            0x5 => if n == 0 { Some(OpCode::_5XY0(x, y)) } else { None },
            0x6 => Some(OpCode::_6XNN(x, nn)),
            0x7 => Some(OpCode::_7XNN(x, nn)),
            0x8 => match n {
                0x0 => Some(OpCode::_8XY0(x, y)),
                0x1 => Some(OpCode::_8XY1(x, y)),
                0x2 => Some(OpCode::_8XY2(x, y)),
                0x3 => Some(OpCode::_8XY3(x, y)),
                0x4 => Some(OpCode::_8XY4(x, y)),
                0x5 => Some(OpCode::_8XY5(x, y)),
                0x6 => Some(OpCode::_8XY6(x)),
                0x7 => Some(OpCode::_8XY7(x, y)),
                0xE => Some(OpCode::_8XYE(x)),
                _ => None,
            },
            0x9 => if n == 0 { Some(OpCode::_9XY0(x, y)) } else { None },
            0xA => Some(OpCode::_ANNN(nnn)),
            0xB => Some(OpCode::_BNNN(nnn)),
            0xC => Some(OpCode::_CXNN(x, nn)),
            0xD => Some(OpCode::_DXYN(x, y, n)),
            0xE => match nn {
                0x9E => Some(OpCode::_EX9E(x)),
                0xA1 => Some(OpCode::_EXA1(x)),
                _ => None,
            },
            0xF => match nn {
                0x07 => Some(OpCode::_FX07(x)),
                0x0A => Some(OpCode::_FX0A(x)),
                0x15 => Some(OpCode::_FX15(x)),
                0x18 => Some(OpCode::_FX18(x)),
                0x1E => Some(OpCode::_FX1E(x)),
                0x29 => Some(OpCode::_FX29(x)),
                0x33 => Some(OpCode::_FX33(x)),
                0x55 => Some(OpCode::_FX55(x)),
                0x65 => Some(OpCode::_FX65(x)),
                _ => None,
            },
            _ => None,
        }
    }
}

/// Every register index carried by a decoded instruction is a nibble, every
/// address a 12-bit value; the decoder only hands out instructions for which
/// this holds.
pub open spec fn ins_wf(ins: OpCode) -> bool {
    match ins {
        OpCode::_00E0 => true,
        OpCode::_00EE => true,
        OpCode::_1NNN(nnn) => nnn < 0x1000,
        OpCode::_2NNN(nnn) => nnn < 0x1000,
        OpCode::_3XNN(x, _nn) => x < 16,
        OpCode::_4XNN(x, _nn) => x < 16,
        OpCode::_5XY0(x, y) => x < 16 && y < 16,
        OpCode::_6XNN(x, _nn) => x < 16,
        OpCode::_7XNN(x, _nn) => x < 16,
        OpCode::_8XY0(x, y) => x < 16 && y < 16,
        OpCode::_8XY1(x, y) => x < 16 && y < 16,
        OpCode::_8XY2(x, y) => x < 16 && y < 16,
        OpCode::_8XY3(x, y) => x < 16 && y < 16,
        OpCode::_8XY4(x, y) => x < 16 && y < 16,
        OpCode::_8XY5(x, y) => x < 16 && y < 16,
        OpCode::_8XY6(x) => x < 16,
        OpCode::_8XY7(x, y) => x < 16 && y < 16,
        OpCode::_8XYE(x) => x < 16,
        OpCode::_9XY0(x, y) => x < 16 && y < 16,
        OpCode::_ANNN(nnn) => nnn < 0x1000,
        OpCode::_BNNN(nnn) => nnn < 0x1000,
        OpCode::_CXNN(x, _nn) => x < 16,
        OpCode::_DXYN(x, y, n) => x < 16 && y < 16 && n < 16,
        OpCode::_EX9E(x) => x < 16,
        OpCode::_EXA1(x) => x < 16,
        OpCode::_FX07(x) => x < 16,
        OpCode::_FX0A(x) => x < 16,
        OpCode::_FX15(x) => x < 16,
        OpCode::_FX18(x) => x < 16,
        OpCode::_FX1E(x) => x < 16,
        OpCode::_FX29(x) => x < 16,
        OpCode::_FX33(x) => x < 16,
        OpCode::_FX55(x) => x < 16,
        OpCode::_FX65(x) => x < 16,
    }
}

/// Decode the 16-bit word `op`; `None` is a fatal decode error for the caller.
pub fn decode(op: u16) -> (r: Option<OpCode>)
    ensures
        r == spec_decode(op),
        (match r {
            Some(ins) => ins_wf(ins),
            None => true,
        }),
{
    let x = ((op / 0x100) % 0x10) as u8;
    let y = ((op / 0x10) % 0x10) as u8;
    let n = (op % 0x10) as u8;
    let nn = (op % 0x100) as u8;
    let nnn = op % 0x1000;
    {
        match op / 0x1000 {
            0x0 => match n {
                0x0 => Some(OpCode::_00E0),
                0xE => Some(OpCode::_00EE),
                _ => None,
            },
            0x1 => Some(OpCode::_1NNN(nnn)),
            0x2 => Some(OpCode::_2NNN(nnn)),
            0x3 => Some(OpCode::_3XNN(x, nn)),
            0x4 => Some(OpCode::_4XNN(x, nn)),
            0x5 => if n == 0 { Some(OpCode::_5XY0(x, y)) } else { None },
            0x6 => Some(OpCode::_6XNN(x, nn)),
            0x7 => Some(OpCode::_7XNN(x, nn)),
            0x8 => match n {
                0x0 => Some(OpCode::_8XY0(x, y)),
                0x1 => Some(OpCode::_8XY1(x, y)),
                0x2 => Some(OpCode::_8XY2(x, y)),
                0x3 => Some(OpCode::_8XY3(x, y)),
                0x4 => Some(OpCode::_8XY4(x, y)),
                0x5 => Some(OpCode::_8XY5(x, y)),
                0x6 => Some(OpCode::_8XY6(x)),
                0x7 => Some(OpCode::_8XY7(x, y)),
                0xE => Some(OpCode::_8XYE(x)),
                _ => None,
            },
            0x9 => if n == 0 { Some(OpCode::_9XY0(x, y)) } else { None },
            0xA => Some(OpCode::_ANNN(nnn)),
            0xB => Some(OpCode::_BNNN(nnn)),
            0xC => Some(OpCode::_CXNN(x, nn)),
            0xD => Some(OpCode::_DXYN(x, y, n)),
            0xE => match nn {
                0x9E => Some(OpCode::_EX9E(x)),
                0xA1 => Some(OpCode::_EXA1(x)),
                _ => None,
            },
            0xF => match nn {
                0x07 => Some(OpCode::_FX07(x)),
                0x0A => Some(OpCode::_FX0A(x)),
                0x15 => Some(OpCode::_FX15(x)),
                0x18 => Some(OpCode::_FX18(x)),
                0x1E => Some(OpCode::_FX1E(x)),
                0x29 => Some(OpCode::_FX29(x)),
                0x33 => Some(OpCode::_FX33(x)),
                0x55 => Some(OpCode::_FX55(x)),
                0x65 => Some(OpCode::_FX65(x)),
                _ => None,
            },
            _ => None,
        }
    }
}

} // verus!
