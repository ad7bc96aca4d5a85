//! Instruction decode: a 16-bit opcode becomes a tagged variant carrying its
//! extracted operand fields, so that decode and execute are independently
//! specified and tested.
use vstd::prelude::*;

verus! {

/// One decoded instruction form. Field order within a variant follows the
/// opcode's own field order: register `x`, then register `y` or an immediate
/// byte `nn`, then a nibble `n`; 12-bit addresses are carried as `u16`.
/// Opcode patterns outside the table decode to `Unknown`, which executes as
/// a no-op.
#[derive(Clone, Copy, Debug, PartialEq, Eq, Structural)]
pub enum Instruction {
    /// `00E0`: clear the framebuffer.
    ClearScreen,
    /// `00EE`: return from a subroutine.
    Return,
    /// `1NNN`: unconditional jump.
    Jump(u16),
    /// `2NNN`: call a subroutine.
    Call(u16),
    /// `3XNN`: skip the next instruction if `V[x] == nn`.
    SkipEqImm(u8, u8),
    /// `4XNN`: skip the next instruction if `V[x] != nn`.
    SkipNeImm(u8, u8),
    /// `5XY0`: skip the next instruction if `V[x] == V[y]`.
    SkipEqReg(u8, u8),
    /// `6XNN`: `V[x] := nn`.
    SetImm(u8, u8),
    /// `7XNN`: `V[x] := V[x] + nn`, wrapping, no flag.
    AddImm(u8, u8),
    /// `8XY0`: `V[x] := V[y]`.
    CopyReg(u8, u8),
    /// `8XY1`: `V[x] := V[x] | V[y]`.
    OrReg(u8, u8),
    /// `8XY2`: `V[x] := V[x] & V[y]`.
    AndReg(u8, u8),
    /// `8XY3`: `V[x] := V[x] ^ V[y]`.
    XorReg(u8, u8),
    /// `8XY4`: `V[x] := V[x] + V[y]`, carry into `V[0xF]`.
    AddReg(u8, u8),
    /// `8XY5`: `V[x] := V[x] - V[y]`, borrow flag into `V[0xF]`.
    SubReg(u8, u8),
    /// `8XY6`: `V[x] := V[x] >> 1`, shifted-out bit into `V[0xF]`.
    ShiftRight(u8),
    /// `8XY7`: `V[x] := V[y] - V[x]`, borrow flag into `V[0xF]`.
    SubFrom(u8, u8),
    /// `8XYE`: `V[x] := V[x] << 1`, shifted-out bit into `V[0xF]`.
    ShiftLeft(u8),
    /// `ANNN`: `I := nnn`.
    SetIndex(u16),
    /// `BNNN`: `pc := nnn + V[0]`.
    JumpOffset(u16),
    /// `CXNN`: `V[x] := nn & random byte`.
    Rand(u8, u8),
    /// `DXYN`: draw an `n`-row sprite at `(V[x] mod 64, V[y] mod 32)`.
    Draw(u8, u8, u8),
    /// `EX9E`: skip the next instruction if key `V[x] & 0xF` is held.
    SkipKeyDown(u8),
    /// `EXA1`: skip the next instruction if key `V[x] & 0xF` is not held.
    SkipKeyUp(u8),
    /// `FX07`: `V[x] :=` delay timer.
    ReadDelay(u8),
    /// `FX0A`: block until a key is held, then store its index in `V[x]`.
    WaitKey(u8),
    /// `FX15`: delay timer `:= V[x]`.
    SetDelay(u8),
    /// `FX18`: sound timer `:= V[x]`.
    SetSound(u8),
    /// `FX1E`: `I := I + V[x]`, wrapping, no flag.
    AddIndex(u8),
    /// `FX29`: `I :=` the font glyph address for digit `V[x] & 0xF`.
    FontChar(u8),
    /// `FX33`: store the three decimal digits of `V[x]` at `I`, `I+1`, `I+2`.
    StoreDigits(u8),
    /// `FX55`: store `V[0]..=V[x]` into memory at `I`.
    StoreRegs(u8),
    /// `FX65`: load `V[0]..=V[x]` from memory at `I`.
    LoadRegs(u8),
    /// Any pattern outside the instruction table: executes as a no-op.
    Unknown,
}

/// The meaning of a raw opcode: dispatch on the top nibble, then on the low
/// nibble or byte for families that share a top nibble.
pub open spec fn spec_decode(op: u16) -> Instruction {
    let x = ((op >> 8u16) & 0xF) as u8;
    let y = ((op >> 4u16) & 0xF) as u8;
    let n = (op & 0xF) as u8;
    let nn = (op & 0xFF) as u8;
    let addr = op & 0xFFF;
    if op == 0x00E0 {
        Instruction::ClearScreen
    } else if op == 0x00EE {
        Instruction::Return
    } else if op & 0xF000 == 0x1000 {
        Instruction::Jump(addr)
    } else if op & 0xF000 == 0x2000 {
        Instruction::Call(addr)
    } else if op & 0xF000 == 0x3000 {
        Instruction::SkipEqImm(x, nn)
    } else if op & 0xF000 == 0x4000 {
        Instruction::SkipNeImm(x, nn)
    } else if op & 0xF00F == 0x5000 {
        Instruction::SkipEqReg(x, y)
    } else if op & 0xF000 == 0x6000 {
        Instruction::SetImm(x, nn)
    } else if op & 0xF000 == 0x7000 {
        Instruction::AddImm(x, nn)
    } else if op & 0xF00F == 0x8000 {
        Instruction::CopyReg(x, y)
    } else if op & 0xF00F == 0x8001 {
        Instruction::OrReg(x, y)
    } else if op & 0xF00F == 0x8002 {
        Instruction::AndReg(x, y)
    } else if op & 0xF00F == 0x8003 {
        Instruction::XorReg(x, y)
    } else if op & 0xF00F == 0x8004 {
        Instruction::AddReg(x, y)
    } else if op & 0xF00F == 0x8005 {
        Instruction::SubReg(x, y)
    } else if op & 0xF00F == 0x8006 {
        Instruction::ShiftRight(x)
    } else if op & 0xF00F == 0x8007 {
        Instruction::SubFrom(x, y)
    } else if op & 0xF00F == 0x800E {
        Instruction::ShiftLeft(x)
    } else if op & 0xF000 == 0xA000 {
        Instruction::SetIndex(addr)
    } else if op & 0xF000 == 0xB000 {
        Instruction::JumpOffset(addr)
    } else if op & 0xF000 == 0xC000 {
        Instruction::Rand(x, nn)
    } else if op & 0xF000 == 0xD000 {
        Instruction::Draw(x, y, n)
    } else if op & 0xF0FF == 0xE09E {
        Instruction::SkipKeyDown(x)
    } else if op & 0xF0FF == 0xE0A1 {
        Instruction::SkipKeyUp(x)
    } else if op & 0xF0FF == 0xF007 {
        Instruction::ReadDelay(x)
    } else if op & 0xF0FF == 0xF00A {
        Instruction::WaitKey(x)
    } else if op & 0xF0FF == 0xF015 {
        Instruction::SetDelay(x)
    } else if op & 0xF0FF == 0xF018 {
        Instruction::SetSound(x)
    } else if op & 0xF0FF == 0xF01E {
        Instruction::AddIndex(x)
    } else if op & 0xF0FF == 0xF029 {
        Instruction::FontChar(x)
    } else if op & 0xF0FF == 0xF033 {
        Instruction::StoreDigits(x)
    } else if op & 0xF0FF == 0xF055 {
        Instruction::StoreRegs(x)
    } else if op & 0xF0FF == 0xF065 {
        Instruction::LoadRegs(x)
    } else {
        Instruction::Unknown
    }
}

/// Every operand field a decoded instruction carries lies in its opcode
/// field's range: register indices and nibbles below 16, addresses below
/// 0x1000. Decoding establishes this for every opcode.
pub open spec fn wf_instr(instr: Instruction) -> bool {
    match instr {
        Instruction::ClearScreen => true,
        Instruction::Return => true,
        Instruction::Jump(a) => a < 0x1000,
        Instruction::Call(a) => a < 0x1000,
        Instruction::SkipEqImm(x, _nn) => x < 16,
        Instruction::SkipNeImm(x, _nn) => x < 16,
        Instruction::SkipEqReg(x, y) => x < 16 && y < 16,
        Instruction::SetImm(x, _nn) => x < 16,
        Instruction::AddImm(x, _nn) => x < 16,
        Instruction::CopyReg(x, y) => x < 16 && y < 16,
        Instruction::OrReg(x, y) => x < 16 && y < 16,
        Instruction::AndReg(x, y) => x < 16 && y < 16,
        Instruction::XorReg(x, y) => x < 16 && y < 16,
        Instruction::AddReg(x, y) => x < 16 && y < 16,
        Instruction::SubReg(x, y) => x < 16 && y < 16,
        Instruction::ShiftRight(x) => x < 16,
        Instruction::SubFrom(x, y) => x < 16 && y < 16,
        Instruction::ShiftLeft(x) => x < 16,
        Instruction::SetIndex(a) => a < 0x1000,
        Instruction::JumpOffset(a) => a < 0x1000,
        Instruction::Rand(x, _nn) => x < 16,
        Instruction::Draw(x, y, n) => x < 16 && y < 16 && n < 16,
        Instruction::SkipKeyDown(x) => x < 16,
        Instruction::SkipKeyUp(x) => x < 16,
        Instruction::ReadDelay(x) => x < 16,
        Instruction::WaitKey(x) => x < 16,
        Instruction::SetDelay(x) => x < 16,
        Instruction::SetSound(x) => x < 16,
        Instruction::AddIndex(x) => x < 16,
        Instruction::FontChar(x) => x < 16,
        Instruction::StoreDigits(x) => x < 16,
        Instruction::StoreRegs(x) => x < 16,
        Instruction::LoadRegs(x) => x < 16,
        Instruction::Unknown => true,
    }
}

/// Each operand field is a masked slice of the opcode, so it lies in that
/// field's range whatever the opcode was.
pub proof fn lemma_decode_wf(op: u16)
    ensures
        wf_instr(spec_decode(op)),
{
    assert(((op >> 8u16) & 0xF) < 16) by (bit_vector);
    assert(((op >> 4u16) & 0xF) < 16) by (bit_vector);
    assert((op & 0xF) < 16) by (bit_vector);
    assert((op & 0xFFF) < 0x1000) by (bit_vector);
}

/// Decode a raw opcode into its instruction form.
pub fn decode(op: u16) -> (instr: Instruction)
    ensures
        instr == spec_decode(op),
        wf_instr(instr),
{
    proof {
        lemma_decode_wf(op);
    }
    let x = ((op >> 8u16) & 0xF) as u8;
    let y = ((op >> 4u16) & 0xF) as u8;
    let n = (op & 0xF) as u8;
    let nn = (op & 0xFF) as u8;
    let addr = op & 0xFFF;
    if op == 0x00E0 {
        Instruction::ClearScreen
    } else if op == 0x00EE {
        Instruction::Return
    } else if op & 0xF000 == 0x1000 {
        Instruction::Jump(addr)
    } else if op & 0xF000 == 0x2000 {
        Instruction::Call(addr)
    } else if op & 0xF000 == 0x3000 {
        Instruction::SkipEqImm(x, nn)
    } else if op & 0xF000 == 0x4000 {
        Instruction::SkipNeImm(x, nn)
    } else if op & 0xF00F == 0x5000 {
        Instruction::SkipEqReg(x, y)
    } else if op & 0xF000 == 0x6000 {
        Instruction::SetImm(x, nn)
    } else if op & 0xF000 == 0x7000 {
        Instruction::AddImm(x, nn)
    } else if op & 0xF00F == 0x8000 {
        Instruction::CopyReg(x, y)
    } else if op & 0xF00F == 0x8001 {
        Instruction::OrReg(x, y)
    } else if op & 0xF00F == 0x8002 {
        Instruction::AndReg(x, y)
    } else if op & 0xF00F == 0x8003 {
        Instruction::XorReg(x, y)
    } else if op & 0xF00F == 0x8004 {
        Instruction::AddReg(x, y)
    } else if op & 0xF00F == 0x8005 {
        Instruction::SubReg(x, y)
    } else if op & 0xF00F == 0x8006 {
        Instruction::ShiftRight(x)
    } else if op & 0xF00F == 0x8007 {
        Instruction::SubFrom(x, y)
    } else if op & 0xF00F == 0x800E {
        Instruction::ShiftLeft(x)
    } else if op & 0xF000 == 0xA000 {
        Instruction::SetIndex(addr)
    } else if op & 0xF000 == 0xB000 {
        Instruction::JumpOffset(addr)
    } else if op & 0xF000 == 0xC000 {
        Instruction::Rand(x, nn)
    } else if op & 0xF000 == 0xD000 {
        Instruction::Draw(x, y, n)
    } else if op & 0xF0FF == 0xE09E {
        Instruction::SkipKeyDown(x)
    } else if op & 0xF0FF == 0xE0A1 {
        Instruction::SkipKeyUp(x)
    } else if op & 0xF0FF == 0xF007 {
        Instruction::ReadDelay(x)
    } else if op & 0xF0FF == 0xF00A {
        Instruction::WaitKey(x)
    } else if op & 0xF0FF == 0xF015 {
        Instruction::SetDelay(x)
    } else if op & 0xF0FF == 0xF018 {
        Instruction::SetSound(x)
    } else if op & 0xF0FF == 0xF01E {
        Instruction::AddIndex(x)
    } else if op & 0xF0FF == 0xF029 {
        Instruction::FontChar(x)
    } else if op & 0xF0FF == 0xF033 {
        Instruction::StoreDigits(x)
    } else if op & 0xF0FF == 0xF055 {
        Instruction::StoreRegs(x)
    } else if op & 0xF0FF == 0xF065 {
        Instruction::LoadRegs(x)
    } else {
        Instruction::Unknown
    }
}

} // verus!
