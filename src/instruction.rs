use vstd::prelude::*;

verus! {

/// One decoded instruction. Register operands are indices `0..16`,
/// addresses are 12-bit values and `n` of a draw is a sprite height `0..16`.
#[derive(Debug, Clone, Copy, PartialEq, Eq, Structural)]
pub enum Instruction {
    Cls,
    Ret,
    Jp(u16),
    Call(u16),
    SeByte(u8, u8),
    SneByte(u8, u8),
    SeReg(u8, u8),
    LdByte(u8, u8),
    AddByte(u8, u8),
    LdReg(u8, u8),
    Or(u8, u8),
    And(u8, u8),
    Xor(u8, u8),
    AddReg(u8, u8),
    Sub(u8, u8),
    Shr(u8),
    Subn(u8, u8),
    Shl(u8),
    SneReg(u8, u8),
    LdI(u16),
    JpV0(u16),
    Rnd(u8, u8),
    Drw(u8, u8, u8),
    Skp(u8),
    Sknp(u8),
    LdVxDt(u8),
    LdKey(u8),
    LdDtVx(u8),
    LdStVx(u8),
    AddI(u8),
    LdFont(u8),
    LdBcd(u8),
    StoreRegs(u8),
    LoadRegs(u8),
}

impl Instruction {
    /// Operands are in range: registers below 16, addresses below 4096,
    /// sprite heights below 16.
    pub open spec fn wf(self) -> bool {
        match self {
            Instruction::Jp(a) | Instruction::Call(a) | Instruction::LdI(a) | Instruction::JpV0(
                a,
            ) => a < 4096,
            Instruction::SeByte(x, _) | Instruction::SneByte(x, _) | Instruction::LdByte(x, _)
            | Instruction::AddByte(x, _) | Instruction::Rnd(x, _) => x < 16,
            Instruction::SeReg(x, y) | Instruction::LdReg(x, y) | Instruction::Or(x, y)
            | Instruction::And(x, y) | Instruction::Xor(x, y) | Instruction::AddReg(x, y)
            | Instruction::Sub(x, y) | Instruction::Subn(x, y) | Instruction::SneReg(x, y) => x
                < 16 && y < 16,
            Instruction::Drw(x, y, n) => x < 16 && y < 16 && n < 16,
            Instruction::Shr(x) | Instruction::Shl(x) | Instruction::Skp(x) | Instruction::Sknp(x)
            | Instruction::LdVxDt(x) | Instruction::LdKey(x) | Instruction::LdDtVx(x)
            | Instruction::LdStVx(x) | Instruction::AddI(x) | Instruction::LdFont(x)
            | Instruction::LdBcd(x) | Instruction::StoreRegs(x) | Instruction::LoadRegs(x) => x
                < 16,
            Instruction::Cls | Instruction::Ret => true,
        }
    }
}

/// The opcode table: the instruction that a 16-bit word stands for, split into
/// its nibbles `m x y n`, its low byte `kk` and its low twelve bits `nnn`;
/// `None` for a word that matches no entry.
pub open spec fn decode_spec(op: u16) -> Option<Instruction> {
    let m = op / 4096;
    let x = ((op / 256) % 16) as u8;
    let y = ((op / 16) % 16) as u8;
    let n = op % 16;
    let kk = (op % 256) as u8;
    let nnn = op % 4096;
    if op == 0x00E0 {
        Some(Instruction::Cls)
    } else if op == 0x00EE {
        Some(Instruction::Ret)
    } else if m == 1 {
        Some(Instruction::Jp(nnn))
    } else if m == 2 {
        Some(Instruction::Call(nnn))
    } else if m == 3 {
        Some(Instruction::SeByte(x, kk))
    } else if m == 4 {
        Some(Instruction::SneByte(x, kk))
    } else if m == 5 && n == 0 {
        Some(Instruction::SeReg(x, y))
    } else if m == 6 {
        Some(Instruction::LdByte(x, kk))
    } else if m == 7 {
        Some(Instruction::AddByte(x, kk))
    } else if m == 8 && n == 0 {
        Some(Instruction::LdReg(x, y))
    } else if m == 8 && n == 1 {
        Some(Instruction::Or(x, y))
    } else if m == 8 && n == 2 {
        Some(Instruction::And(x, y))
    } else if m == 8 && n == 3 {
        Some(Instruction::Xor(x, y))
    } else if m == 8 && n == 4 {
        Some(Instruction::AddReg(x, y))
    } else if m == 8 && n == 5 {
        Some(Instruction::Sub(x, y))
    } else if m == 8 && n == 6 {
        Some(Instruction::Shr(x))
    } else if m == 8 && n == 7 {
        Some(Instruction::Subn(x, y))
    } else if m == 8 && n == 0xE {
        Some(Instruction::Shl(x))
    } else if m == 9 && n == 0 {
        Some(Instruction::SneReg(x, y))
    } else if m == 0xA {
        Some(Instruction::LdI(nnn))
    } else if m == 0xB {
        Some(Instruction::JpV0(nnn))
    } else if m == 0xC {
        Some(Instruction::Rnd(x, kk))
    } else if m == 0xD {
        Some(Instruction::Drw(x, y, n as u8))
    } else if m == 0xE && kk == 0x9E {
        Some(Instruction::Skp(x))
    } else if m == 0xE && kk == 0xA1 {
        Some(Instruction::Sknp(x))
    } else if m == 0xF && kk == 0x07 {
        Some(Instruction::LdVxDt(x))
    } else if m == 0xF && kk == 0x0A {
        Some(Instruction::LdKey(x))
    } else if m == 0xF && kk == 0x15 {
        Some(Instruction::LdDtVx(x))
    } else if m == 0xF && kk == 0x18 {
        Some(Instruction::LdStVx(x))
    } else if m == 0xF && kk == 0x1E {
        Some(Instruction::AddI(x))
    } else if m == 0xF && kk == 0x29 {
        Some(Instruction::LdFont(x))
    } else if m == 0xF && kk == 0x33 {
        Some(Instruction::LdBcd(x))
    } else if m == 0xF && kk == 0x55 {
        Some(Instruction::StoreRegs(x))
    } else if m == 0xF && kk == 0x65 {
        Some(Instruction::LoadRegs(x))
    } else {
        None
    }
}

/// Decodes a 16-bit instruction word by the opcode table.
pub fn decode(op: u16) -> (r: Option<Instruction>)
    ensures
        r == decode_spec(op),
        r matches Some(ins) ==> ins.wf(),
{
    let m: u16 = op / 4096;
    let x: u8 = ((op / 256) % 16) as u8;
    let y: u8 = ((op / 16) % 16) as u8;
    let n: u16 = op % 16;
    let kk: u8 = (op % 256) as u8;
    let nnn: u16 = op % 4096;
    if op == 0x00E0 {
        Some(Instruction::Cls)
    } else if op == 0x00EE {
        Some(Instruction::Ret)
    } else if m == 1 {
        Some(Instruction::Jp(nnn))
    } else if m == 2 {
        Some(Instruction::Call(nnn))
    } else if m == 3 {
        Some(Instruction::SeByte(x, kk))
    } else if m == 4 {
        Some(Instruction::SneByte(x, kk))
    } else if m == 5 && n == 0 {
        Some(Instruction::SeReg(x, y))
    } else if m == 6 {
        Some(Instruction::LdByte(x, kk))
    } else if m == 7 {
        Some(Instruction::AddByte(x, kk))
    } else if m == 8 && n == 0 {
        Some(Instruction::LdReg(x, y))
    } else if m == 8 && n == 1 {
        Some(Instruction::Or(x, y))
    } else if m == 8 && n == 2 {
        Some(Instruction::And(x, y))
    } else if m == 8 && n == 3 {
        Some(Instruction::Xor(x, y))
    } else if m == 8 && n == 4 {
        Some(Instruction::AddReg(x, y))
    } else if m == 8 && n == 5 {
        Some(Instruction::Sub(x, y))
    } else if m == 8 && n == 6 {
        Some(Instruction::Shr(x))
    } else if m == 8 && n == 7 {
        Some(Instruction::Subn(x, y))
    } else if m == 8 && n == 0xE {
        Some(Instruction::Shl(x))
    } else if m == 9 && n == 0 {
        Some(Instruction::SneReg(x, y))
    } else if m == 0xA {
        Some(Instruction::LdI(nnn))
    } else if m == 0xB {
        Some(Instruction::JpV0(nnn))
    } else if m == 0xC {
        Some(Instruction::Rnd(x, kk))
    } else if m == 0xD {
        Some(Instruction::Drw(x, y, n as u8))
    } else if m == 0xE && kk == 0x9E {
        Some(Instruction::Skp(x))
    } else if m == 0xE && kk == 0xA1 {
        Some(Instruction::Sknp(x))
    } else if m == 0xF && kk == 0x07 {
        Some(Instruction::LdVxDt(x))
    } else if m == 0xF && kk == 0x0A {
        Some(Instruction::LdKey(x))
    } else if m == 0xF && kk == 0x15 {
        Some(Instruction::LdDtVx(x))
    } else if m == 0xF && kk == 0x18 {
        Some(Instruction::LdStVx(x))
    } else if m == 0xF && kk == 0x1E {
        Some(Instruction::AddI(x))
    } else if m == 0xF && kk == 0x29 {
        Some(Instruction::LdFont(x))
    } else if m == 0xF && kk == 0x33 {
        Some(Instruction::LdBcd(x))
    } else if m == 0xF && kk == 0x55 {
        Some(Instruction::StoreRegs(x))
    } else if m == 0xF && kk == 0x65 {
        Some(Instruction::LoadRegs(x))
    } else {
        None
    }
}

} // verus!
