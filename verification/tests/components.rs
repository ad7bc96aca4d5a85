use chip8::Fault;
use chip8::Stack;
use chip8::Timers;
use chip8::decode;
use chip8::Instruction;

#[test]
fn stack_starts_empty_and_pops_in_lifo_order() {
    let mut s = Stack::default();
    assert_eq!(s.len(), 0);
    s.push(0x111).unwrap();
    s.push(0x222).unwrap();
    s.push(0x333).unwrap();
    assert_eq!(s.len(), 3);
    assert_eq!(s.pop(), Ok(0x333));
    assert_eq!(s.pop(), Ok(0x222));
    assert_eq!(s.pop(), Ok(0x111));
    assert_eq!(s.len(), 0);
}

#[test]
fn stack_overflows_on_seventeenth_push() {
    let mut s = Stack::default();
    for k in 0..16u16 {
        assert_eq!(s.push(0x200 + k), Ok(()));
    }
    assert_eq!(s.len(), 16);
    assert_eq!(s.push(0xBEE), Err(Fault::StackOverflow));
    assert_eq!(s.len(), 16);
    assert_eq!(s.pop(), Ok(0x20F));
}

#[test]
fn stack_underflows_when_empty() {
    let mut s = Stack::default();
    assert_eq!(s.pop(), Err(Fault::StackUnderflow));
    s.push(7).unwrap();
    s.pop().unwrap();
    assert_eq!(s.pop(), Err(Fault::StackUnderflow));
}

#[test]
fn timers_decrement_independently_and_saturate() {
    let mut t = Timers::default();
    assert_eq!(t.dt_register, 0);
    assert_eq!(t.st_register, 0);
    t.dt_register = 2;
    t.st_register = 1;
    t.decrement_timers();
    assert_eq!(t.dt_register, 1);
    assert_eq!(t.st_register, 0);
    t.decrement_timers();
    assert_eq!(t.dt_register, 0);
    assert_eq!(t.st_register, 0);
    t.decrement_timers();
    assert_eq!(t.dt_register, 0);
    assert_eq!(t.st_register, 0);
}

#[test]
fn decode_extracts_operand_fields() {
    assert_eq!(decode(0x00E0), Instruction::ClearScreen);
    assert_eq!(decode(0x00EE), Instruction::Return);
    assert_eq!(decode(0x1ABC), Instruction::Jump(0xABC));
    assert_eq!(decode(0x2123), Instruction::Call(0x123));
    assert_eq!(decode(0x3A42), Instruction::SkipEqImm(0xA, 0x42));
    assert_eq!(decode(0x4B17), Instruction::SkipNeImm(0xB, 0x17));
    assert_eq!(decode(0x5AB0), Instruction::SkipEqReg(0xA, 0xB));
    assert_eq!(decode(0x6C99), Instruction::SetImm(0xC, 0x99));
    assert_eq!(decode(0x7D01), Instruction::AddImm(0xD, 0x01));
    assert_eq!(decode(0x8AB0), Instruction::CopyReg(0xA, 0xB));
    assert_eq!(decode(0x8AB1), Instruction::OrReg(0xA, 0xB));
    assert_eq!(decode(0x8AB2), Instruction::AndReg(0xA, 0xB));
    assert_eq!(decode(0x8AB3), Instruction::XorReg(0xA, 0xB));
    assert_eq!(decode(0x8AB4), Instruction::AddReg(0xA, 0xB));
    assert_eq!(decode(0x8AB5), Instruction::SubReg(0xA, 0xB));
    assert_eq!(decode(0x8AB6), Instruction::ShiftRight(0xA));
    assert_eq!(decode(0x8AB7), Instruction::SubFrom(0xA, 0xB));
    assert_eq!(decode(0x8ABE), Instruction::ShiftLeft(0xA));
    assert_eq!(decode(0xA321), Instruction::SetIndex(0x321));
    assert_eq!(decode(0xB321), Instruction::JumpOffset(0x321));
    assert_eq!(decode(0xCA7F), Instruction::Rand(0xA, 0x7F));
    assert_eq!(decode(0xDAB5), Instruction::Draw(0xA, 0xB, 5));
    assert_eq!(decode(0xEA9E), Instruction::SkipKeyDown(0xA));
    assert_eq!(decode(0xEAA1), Instruction::SkipKeyUp(0xA));
    assert_eq!(decode(0xFA07), Instruction::ReadDelay(0xA));
    assert_eq!(decode(0xFA0A), Instruction::WaitKey(0xA));
    assert_eq!(decode(0xFA15), Instruction::SetDelay(0xA));
    assert_eq!(decode(0xFA18), Instruction::SetSound(0xA));
    assert_eq!(decode(0xFA1E), Instruction::AddIndex(0xA));
    assert_eq!(decode(0xFA29), Instruction::FontChar(0xA));
    assert_eq!(decode(0xFA33), Instruction::StoreDigits(0xA));
    assert_eq!(decode(0xFA55), Instruction::StoreRegs(0xA));
    assert_eq!(decode(0xFA65), Instruction::LoadRegs(0xA));
}

#[test]
fn decode_rejects_near_miss_patterns() {
    assert_eq!(decode(0x0000), Instruction::Unknown);
    assert_eq!(decode(0x00E1), Instruction::Unknown);
    assert_eq!(decode(0x5AB1), Instruction::Unknown);
    assert_eq!(decode(0x8AB8), Instruction::Unknown);
    assert_eq!(decode(0x8ABF), Instruction::Unknown);
    assert_eq!(decode(0x9AB0), Instruction::Unknown);
    assert_eq!(decode(0xEA9F), Instruction::Unknown);
    assert_eq!(decode(0xFA16), Instruction::Unknown);
    assert_eq!(decode(0xFAFF), Instruction::Unknown);
}
