use vstd::prelude::*;

verus! {

/// A decoded instruction. Field `x` and `y` name general registers by index,
/// `kk` is the 8-bit immediate, `n` the low nibble, and the `u16` payloads are
/// the 12-bit address field (except for `UnknownOpcode`, which keeps the whole
/// word).
#[derive(Debug, Clone, Copy, PartialEq, Eq, Structural)]
pub enum Opcode {
    Sys(u16),
    Jump(u16),
    Call(u16),
    SkipIfEqualAtX { x: u8, kk: u8 },
    SkipIfNotEqualAtX { x: u8, kk: u8 },
    LoadValueToRegister { x: u8, kk: u8 },
    AddToValueInRegister { x: u8, kk: u8 },
    SkipIfBothValuesEqual { x: u8, y: u8 },
    SkipIfBothValuesNotEqual { x: u8, y: u8 },
    LoadYIntoX { x: u8, y: u8 },
    BitwiseOrXY { x: u8, y: u8 },
    BitwiseAndXY { x: u8, y: u8 },
    BitwiseXorXY { x: u8, y: u8 },
    AddXY { x: u8, y: u8 },
    SubYfromX { x: u8, y: u8 },
    SubXfromY { x: u8, y: u8 },
    ShiftRight { x: u8, y: u8 },
    ShiftLeft { x: u8, y: u8 },
    Ret,
    SetIRegister(u16),
    JumpPlusV0(u16),
    RandomNumberToRegisterX { x: u8, kk: u8 },
    LoadDelayTimerToVx { x: u8 },
    SetDelayTimer { x: u8 },
    SetSoundTimer { x: u8 },
    AddVxToIRegister { x: u8 },
    LoadVxAsDecimalIntoMemoryAtIRegister { x: u8 },
    LoadRegistersV0ToVxIntoMemoryAtI { x: u8 },
    FillRegistersV0ToVxFromMmoryAtI { x: u8 },
    WaitForKeyPressAndStoreVx { x: u8 },
    SkipIfKeyAtVxPressed { x: u8 },
    SkipIfKeyAtVxNotPressed { x: u8 },
    Draw { x: u8, y: u8, n: u8 },
    ClearScreen,
    SetICorrespondingFontAddressFromVx { x: u8 },
    UnknownOpcode(u16),
}

/// The decode table as a function of the four nibbles of the word: the
/// definition that `Opcode::decode` is proved against and that the machine's
/// step relation is stated over.
pub open spec fn decode_op(opcode: u16) -> Opcode {
    let c = ((opcode & 0xF000) >> 12) as u8;
    let x = ((opcode & 0x0F00) >> 8) as u8;
    let y = ((opcode & 0x00F0) >> 4) as u8;
    let d = (opcode & 0x000F) as u8;
    let nnn = opcode & 0x0FFF;
    let kk = (opcode & 0x00FF) as u8;
    if c == 0x0 && x == 0x0 && y == 0xE && d == 0x0 {
        Opcode::ClearScreen
    } else if c == 0x0 && x == 0x0 && y == 0xE && d == 0xE {
        Opcode::Ret
    } else if c == 0x0 {
        Opcode::Sys(nnn)
    } else if c == 0x1 {
        Opcode::Jump(nnn)
    } else if c == 0x2 {
        Opcode::Call(nnn)
    } else if c == 0x3 {
        Opcode::SkipIfEqualAtX { x, kk }
    } else if c == 0x4 {
        Opcode::SkipIfNotEqualAtX { x, kk }
    } else if c == 0x5 && d == 0x0 {
        Opcode::SkipIfBothValuesEqual { x, y }
    } else if c == 0x6 {
        Opcode::LoadValueToRegister { x, kk }
    } else if c == 0x7 {
        Opcode::AddToValueInRegister { x, kk }
    } else if c == 0x8 && d == 0x0 {
        Opcode::LoadYIntoX { x, y }
    } else if c == 0x8 && d == 0x1 {
        Opcode::BitwiseOrXY { x, y }
    } else if c == 0x8 && d == 0x2 {
        Opcode::BitwiseAndXY { x, y }
    } else if c == 0x8 && d == 0x3 {
        Opcode::BitwiseXorXY { x, y }
    } else if c == 0x8 && d == 0x4 {
        Opcode::AddXY { x, y }
    } else if c == 0x8 && d == 0x5 {
        Opcode::SubYfromX { x, y }
    } else if c == 0x8 && d == 0x6 {
        Opcode::ShiftRight { x, y }
    } else if c == 0x8 && d == 0x7 {
        Opcode::SubXfromY { x, y }
    } else if c == 0x8 && d == 0xE {
        Opcode::ShiftLeft { x, y }
    } else if c == 0x9 && d == 0x0 {
        Opcode::SkipIfBothValuesNotEqual { x, y }
    } else if c == 0xA {
        Opcode::SetIRegister(nnn)
    } else if c == 0xB {
        Opcode::JumpPlusV0(nnn)
    } else if c == 0xC {
        Opcode::RandomNumberToRegisterX { x, kk }
    } else if c == 0xD {
        Opcode::Draw { x, y, n: d }
    } else if c == 0xE && y == 0x9 && d == 0xE {
        Opcode::SkipIfKeyAtVxPressed { x }
    } else if c == 0xE && y == 0xA && d == 0x1 {
        Opcode::SkipIfKeyAtVxNotPressed { x }
    } else if c == 0xF && y == 0x0 && d == 0x7 {
        Opcode::LoadDelayTimerToVx { x }
    } else if c == 0xF && y == 0x0 && d == 0xA {
        Opcode::WaitForKeyPressAndStoreVx { x }
    } else if c == 0xF && y == 0x1 && d == 0x5 {
        Opcode::SetDelayTimer { x }
    } else if c == 0xF && y == 0x1 && d == 0x8 {
        Opcode::SetSoundTimer { x }
    } else if c == 0xF && y == 0x1 && d == 0xE {
        Opcode::AddVxToIRegister { x }
    } else if c == 0xF && y == 0x2 && d == 0x9 {
        Opcode::SetICorrespondingFontAddressFromVx { x }
    } else if c == 0xF && y == 0x3 && d == 0x3 {
        Opcode::LoadVxAsDecimalIntoMemoryAtIRegister { x }
    } else if c == 0xF && y == 0x5 && d == 0x5 {
        Opcode::LoadRegistersV0ToVxIntoMemoryAtI { x }
    } else if c == 0xF && y == 0x6 && d == 0x5 {
        Opcode::FillRegistersV0ToVxFromMmoryAtI { x }
    } else {
        Opcode::UnknownOpcode(opcode)
    }
}

/// Every register index produced by the decoder is a nibble, and every address
/// field is 12 bits wide.
pub proof fn lemma_decode_operand_ranges(opcode: u16)
    ensures
        match decode_op(opcode) {
            Opcode::Sys(nnn) => nnn < 0x1000,
            Opcode::Jump(nnn) => nnn < 0x1000,
            Opcode::Call(nnn) => nnn < 0x1000,
            Opcode::SkipIfEqualAtX { x, kk } => x < 16,
            Opcode::SkipIfNotEqualAtX { x, kk } => x < 16,
            Opcode::LoadValueToRegister { x, kk } => x < 16,
            Opcode::AddToValueInRegister { x, kk } => x < 16,
            Opcode::SkipIfBothValuesEqual { x, y } => x < 16 && y < 16,
            Opcode::SkipIfBothValuesNotEqual { x, y } => x < 16 && y < 16,
            Opcode::LoadYIntoX { x, y } => x < 16 && y < 16,
            Opcode::BitwiseOrXY { x, y } => x < 16 && y < 16,
            Opcode::BitwiseAndXY { x, y } => x < 16 && y < 16,
            Opcode::BitwiseXorXY { x, y } => x < 16 && y < 16,
            Opcode::AddXY { x, y } => x < 16 && y < 16,
            Opcode::SubYfromX { x, y } => x < 16 && y < 16,
            Opcode::SubXfromY { x, y } => x < 16 && y < 16,
            Opcode::ShiftRight { x, y } => x < 16 && y < 16,
            Opcode::ShiftLeft { x, y } => x < 16 && y < 16,
            Opcode::Ret => true,
            Opcode::SetIRegister(nnn) => nnn < 0x1000,
            Opcode::JumpPlusV0(nnn) => nnn < 0x1000,
            Opcode::RandomNumberToRegisterX { x, kk } => x < 16,
            Opcode::LoadDelayTimerToVx { x } => x < 16,
            Opcode::SetDelayTimer { x } => x < 16,
            Opcode::SetSoundTimer { x } => x < 16,
            Opcode::AddVxToIRegister { x } => x < 16,
            Opcode::LoadVxAsDecimalIntoMemoryAtIRegister { x } => x < 16,
            Opcode::LoadRegistersV0ToVxIntoMemoryAtI { x } => x < 16,
            Opcode::FillRegistersV0ToVxFromMmoryAtI { x } => x < 16,
            Opcode::WaitForKeyPressAndStoreVx { x } => x < 16,
            Opcode::SkipIfKeyAtVxPressed { x } => x < 16,
            Opcode::SkipIfKeyAtVxNotPressed { x } => x < 16,
            Opcode::Draw { x, y, n } => x < 16 && y < 16 && n < 16,
            Opcode::ClearScreen => true,
            Opcode::SetICorrespondingFontAddressFromVx { x } => x < 16,
            Opcode::UnknownOpcode(w) => true,
        },
{
    assert((((opcode & 0x0F00) >> 8) as u8) < 16) by (bit_vector);
    assert((((opcode & 0x00F0) >> 4) as u8) < 16) by (bit_vector);
    assert(((opcode & 0x000F) as u8) < 16) by (bit_vector);
    assert((opcode & 0x0FFF) < 0x1000) by (bit_vector);
}

impl Opcode {
    /// Decode one 16-bit instruction word. Total: every word maps to exactly
    /// one variant, with `UnknownOpcode` as the fallback.
    pub fn decode(opcode: u16) -> (r: Opcode)
        ensures
            r == decode_op(opcode),
    {
        let c = ((opcode & 0xF000) >> 12) as u8;
        let x = ((opcode & 0x0F00) >> 8) as u8;
        let y = ((opcode & 0x00F0) >> 4) as u8;
        let d = (opcode & 0x000F) as u8;
        let nnn = opcode & 0x0FFF;
        let kk = (opcode & 0x00FF) as u8;

        match (c, x, y, d) {
            (0x0, 0x0, 0xE, 0x0) => Opcode::ClearScreen,
            (0x0, 0x0, 0xE, 0xE) => Opcode::Ret,
            (0x0, _, _, _) => Opcode::Sys(nnn),
            (0x1, _, _, _) => Opcode::Jump(nnn),
            (0x2, _, _, _) => Opcode::Call(nnn),
            (0x3, _, _, _) => Opcode::SkipIfEqualAtX { x, kk },
            (0x4, _, _, _) => Opcode::SkipIfNotEqualAtX { x, kk },
            (0x5, _, _, 0x0) => Opcode::SkipIfBothValuesEqual { x, y },
            (0x6, _, _, _) => Opcode::LoadValueToRegister { x, kk },
            (0x7, _, _, _) => Opcode::AddToValueInRegister { x, kk },
            (0x8, _, _, 0x0) => Opcode::LoadYIntoX { x, y },
            (0x8, _, _, 0x1) => Opcode::BitwiseOrXY { x, y },
            (0x8, _, _, 0x2) => Opcode::BitwiseAndXY { x, y },
            (0x8, _, _, 0x3) => Opcode::BitwiseXorXY { x, y },
            (0x8, _, _, 0x4) => Opcode::AddXY { x, y },
            (0x8, _, _, 0x5) => Opcode::SubYfromX { x, y },
            (0x8, _, _, 0x6) => Opcode::ShiftRight { x, y },
            (0x8, _, _, 0x7) => Opcode::SubXfromY { x, y },
            (0x8, _, _, 0xE) => Opcode::ShiftLeft { x, y },
            (0x9, _, _, 0x0) => Opcode::SkipIfBothValuesNotEqual { x, y },
            (0xA, _, _, _) => Opcode::SetIRegister(nnn),
            (0xB, _, _, _) => Opcode::JumpPlusV0(nnn),
            (0xC, _, _, _) => Opcode::RandomNumberToRegisterX { x, kk },
            (0xD, _, _, _) => Opcode::Draw { x, y, n: d },
            (0xE, _, 0x9, 0xE) => Opcode::SkipIfKeyAtVxPressed { x },
            (0xE, _, 0xA, 0x1) => Opcode::SkipIfKeyAtVxNotPressed { x },
            (0xF, _, 0x0, 0x7) => Opcode::LoadDelayTimerToVx { x },
            (0xF, _, 0x0, 0xA) => Opcode::WaitForKeyPressAndStoreVx { x },
            (0xF, _, 0x1, 0x5) => Opcode::SetDelayTimer { x },
            (0xF, _, 0x1, 0x8) => Opcode::SetSoundTimer { x },
            (0xF, _, 0x1, 0xE) => Opcode::AddVxToIRegister { x },
            (0xF, _, 0x2, 0x9) => Opcode::SetICorrespondingFontAddressFromVx { x },
            (0xF, _, 0x3, 0x3) => Opcode::LoadVxAsDecimalIntoMemoryAtIRegister { x },
            (0xF, _, 0x5, 0x5) => Opcode::LoadRegistersV0ToVxIntoMemoryAtI { x },
            (0xF, _, 0x6, 0x5) => Opcode::FillRegistersV0ToVxFromMmoryAtI { x },
            _ => Opcode::UnknownOpcode(opcode),
        }
    }
}

} // verus!
