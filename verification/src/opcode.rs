//! The instruction catalog: the `OpCode` type, the nibble fields of a 16-bit
//! instruction word, and the (total, deterministic) decode table.

use vstd::prelude::*;

verus! {

/// Errors that stop the interpreter. None of them is recoverable: an unknown
/// bit pattern would desynchronize the program counter, an underflowing
/// return means a malformed program, and an oversized image cannot be loaded.
#[derive(Clone, Copy, Debug, PartialEq, Eq, Structural)]
pub enum VmError {
    /// Decoding met a bit pattern outside the catalog; holds the word.
    UnknownOpcode(u16),
    /// Return from a subroutine with an empty call stack.
    StackUnderflow,
    /// A program image that does not fit below the memory ceiling.
    LoadTooLarge,
}

/// One decoded operation. The `u8` fields named by convention `x` and `y`
/// are register numbers (always below 16 when produced by `decode`), `nn` is
/// an 8-bit immediate, and the `u16` fields hold a 12-bit address `nnn`.
#[derive(Clone, Copy, Debug, PartialEq, Eq, Structural)]
pub enum OpCode {
    // Assign
    SetXtoY(u8, u8), // 8XY0

    // BCD
    SaveBCDConversionToMemory(u8), // FX33

    // BitOp
    BitwiseOr(u8, u8), // 8XY1
    BitwiseAnd(u8, u8), // 8XY2
    BitwiseXor(u8, u8), // 8XY3
    ShiftRight(u8, u8), // 8XY6
    ShiftLeft(u8, u8), // 8XYE

    // Cond
    SkipIfMemoryEqual(u8, u8), // 3XNN
    SkipIfMemoryNotEqual(u8, u8), // 4XNN
    SkipIfRegisterEqual(u8, u8), // 5XY0
    SkipIfRegisterNotEqual(u8, u8), // 9XY0

    // Const
    SetRegister(u8, u8), // 6XNN
    AddRegister(u8, u8), // 7XNN

    // Display
    ClearScreen, // 00E0
    Draw(u8, u8, u8), // DXYN

    // Flow
    Jump(u16), // 1NNN
    ExitSubroutine, // 00EE
    EnterSubroutine(u16), // 2NNN
    JumpWithOffset(u16), // BNNN

    // KeyOp
    SkipIfKeyPressed(u8), // EX9E
    SkipIfKeyNotPressed(u8), // EXA1
    GetKeyBlocking(u8), // FX0A

    // Math
    AddYtoX(u8, u8), // 8XY4
    SubtractYfromX(u8, u8), // 8XY5
    SubtractXfromY(u8, u8), // 8XY7

    // Memory
    SetIndexRegister(u16), // ANNN
    AddXToIndexRegister(u8), // FX1E
    SetIndexToFontCharacter(u8), // FX29
    StoreMemory(u8), // FX55
    LoadMemory(u8), // FX65

    // Rand
    Random(u8, u8), // CXNN

    // Sound
    SetSoundTimerValue(u8), // FX18

    // Timer
    GetDelayTimerValue(u8), // FX07
    SetDelayTimerValue(u8), // FX15
}

/// Bits 8-11 of the word: the first register operand.
pub open spec fn nib_x(op: u16) -> u8 {
    ((op >> 8) & 0xF) as u8
}

/// Bits 4-7 of the word: the second register operand.
pub open spec fn nib_y(op: u16) -> u8 {
    ((op >> 4) & 0xF) as u8
}

/// Bits 0-3 of the word: a 4-bit immediate.
pub open spec fn nib_n(op: u16) -> u8 {
    (op & 0xF) as u8
}

/// Bits 0-7 of the word: an 8-bit immediate.
pub open spec fn imm_nn(op: u16) -> u8 {
    (op & 0xFF) as u8
}

/// Bits 0-11 of the word: a 12-bit address.
pub open spec fn addr_nnn(op: u16) -> u16 {
    op & 0xFFF
}

/// The decode table: `Some` exactly on the words of the catalog, and then
/// the operation with its operands cut out of the nibble fields.
pub open spec fn spec_decode(op: u16) -> Option<OpCode> {
    let hi = op & 0xF000;
    if hi == 0x0000 {
        if op == 0x00E0 {
            Some(OpCode::ClearScreen)
        } else if op == 0x00EE {
            Some(OpCode::ExitSubroutine)
        } else {
            None
        }
    } else if hi == 0x1000 {
        Some(OpCode::Jump(addr_nnn(op)))
    } else if hi == 0x2000 {
        Some(OpCode::EnterSubroutine(addr_nnn(op)))
    } else if hi == 0x3000 {
        Some(OpCode::SkipIfMemoryEqual(nib_x(op), imm_nn(op)))
    } else if hi == 0x4000 {
        Some(OpCode::SkipIfMemoryNotEqual(nib_x(op), imm_nn(op)))
    } else if hi == 0x5000 {
        Some(OpCode::SkipIfRegisterEqual(nib_x(op), nib_y(op)))
    } else if hi == 0x6000 {
        Some(OpCode::SetRegister(nib_x(op), imm_nn(op)))
    } else if hi == 0x7000 {
        Some(OpCode::AddRegister(nib_x(op), imm_nn(op)))
    } else if hi == 0x8000 {
        let lo = op & 0xF;
        if lo == 0x0 {
            Some(OpCode::SetXtoY(nib_x(op), nib_y(op)))
        } else if lo == 0x1 {
            Some(OpCode::BitwiseOr(nib_x(op), nib_y(op)))
        } else if lo == 0x2 {
            Some(OpCode::BitwiseAnd(nib_x(op), nib_y(op)))
        } else if lo == 0x3 {
            Some(OpCode::BitwiseXor(nib_x(op), nib_y(op)))
        } else if lo == 0x4 {
            Some(OpCode::AddYtoX(nib_x(op), nib_y(op)))
        } else if lo == 0x5 {
            Some(OpCode::SubtractYfromX(nib_x(op), nib_y(op)))
        } else if lo == 0x6 {
            Some(OpCode::ShiftRight(nib_x(op), nib_y(op)))
        } else if lo == 0x7 {
            Some(OpCode::SubtractXfromY(nib_x(op), nib_y(op)))
        } else if lo == 0xE {
            Some(OpCode::ShiftLeft(nib_x(op), nib_y(op)))
        } else {
            None
        }
    } else if hi == 0x9000 {
        Some(OpCode::SkipIfRegisterNotEqual(nib_x(op), nib_y(op)))
    } else if hi == 0xA000 {
        Some(OpCode::SetIndexRegister(addr_nnn(op)))
    } else if hi == 0xB000 {
        Some(OpCode::JumpWithOffset(addr_nnn(op)))
    } else if hi == 0xC000 {
        Some(OpCode::Random(nib_x(op), imm_nn(op)))
    } else if hi == 0xD000 {
        Some(OpCode::Draw(nib_x(op), nib_y(op), nib_n(op)))
    } else if hi == 0xE000 {
        let lo = op & 0xFF;
        if lo == 0x9E {
            Some(OpCode::SkipIfKeyPressed(nib_x(op)))
        } else if lo == 0xA1 {
            Some(OpCode::SkipIfKeyNotPressed(nib_x(op)))
        } else {
            None
        }
    } else {
        let lo = op & 0xFF;
        if lo == 0x18 {
            Some(OpCode::SetSoundTimerValue(nib_x(op)))
        } else if lo == 0x07 {
            Some(OpCode::GetDelayTimerValue(nib_x(op)))
        } else if lo == 0x15 {
            Some(OpCode::SetDelayTimerValue(nib_x(op)))
        } else if lo == 0x33 {
            Some(OpCode::SaveBCDConversionToMemory(nib_x(op)))
        } else if lo == 0x55 {
            Some(OpCode::StoreMemory(nib_x(op)))
        } else if lo == 0x65 {
            Some(OpCode::LoadMemory(nib_x(op)))
        } else if lo == 0x1E {
            Some(OpCode::AddXToIndexRegister(nib_x(op)))
        } else if lo == 0x29 {
            Some(OpCode::SetIndexToFontCharacter(nib_x(op)))
        } else if lo == 0x0A {
            Some(OpCode::GetKeyBlocking(nib_x(op)))
        } else {
            None
        }
    }
}

/// Every register operand of the operation is a register number, below 16.
/// Decoded operations satisfy this by construction (register operands are
/// nibbles); the executor requires it.
pub open spec fn op_wf(op: OpCode) -> bool {
    match op {
        OpCode::SetXtoY(x, y) => x < 16 && y < 16,
        OpCode::SaveBCDConversionToMemory(x) => x < 16,
        OpCode::BitwiseOr(x, y) => x < 16 && y < 16,
        OpCode::BitwiseAnd(x, y) => x < 16 && y < 16,
        OpCode::BitwiseXor(x, y) => x < 16 && y < 16,
        OpCode::ShiftRight(x, y) => x < 16 && y < 16,
        OpCode::ShiftLeft(x, y) => x < 16 && y < 16,
        OpCode::SkipIfMemoryEqual(x, _nn) => x < 16,
        OpCode::SkipIfMemoryNotEqual(x, _nn) => x < 16,
        OpCode::SkipIfRegisterEqual(x, y) => x < 16 && y < 16,
        OpCode::SkipIfRegisterNotEqual(x, y) => x < 16 && y < 16,
        OpCode::SetRegister(x, _nn) => x < 16,
        OpCode::AddRegister(x, _nn) => x < 16,
        OpCode::ClearScreen => true,
        OpCode::Draw(x, y, _n) => x < 16 && y < 16,
        OpCode::Jump(_nnn) => true,
        OpCode::ExitSubroutine => true,
        OpCode::EnterSubroutine(_nnn) => true,
        OpCode::JumpWithOffset(_nnn) => true,
        OpCode::SkipIfKeyPressed(x) => x < 16,
        OpCode::SkipIfKeyNotPressed(x) => x < 16,
        OpCode::GetKeyBlocking(x) => x < 16,
        OpCode::AddYtoX(x, y) => x < 16 && y < 16,
        OpCode::SubtractYfromX(x, y) => x < 16 && y < 16,
        OpCode::SubtractXfromY(x, y) => x < 16 && y < 16,
        OpCode::SetIndexRegister(_nnn) => true,
        OpCode::AddXToIndexRegister(x) => x < 16,
        OpCode::SetIndexToFontCharacter(x) => x < 16,
        OpCode::StoreMemory(x) => x < 16,
        OpCode::LoadMemory(x) => x < 16,
        OpCode::Random(x, _nn) => x < 16,
        OpCode::SetSoundTimerValue(x) => x < 16,
        OpCode::GetDelayTimerValue(x) => x < 16,
        OpCode::SetDelayTimerValue(x) => x < 16,
    }
}

/// Decoding only ever produces well-formed operations: every register
/// operand is a nibble of the word.
pub proof fn lemma_decode_wf(op: u16)
    ensures
        spec_decode(op) matches Some(o) ==> op_wf(o),
{
    assert(((op >> 8) & 0xF) < 16) by (bit_vector);
    assert(((op >> 4) & 0xF) < 16) by (bit_vector);
}

} // verus!
