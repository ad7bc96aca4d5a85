use chip8::Chip8;
use chip8::Fault;

#[test]
fn set_imm_sets_register_for_every_x() {
    for x in 0u16..16 {
        let mut c = Chip8::default();
        let r = c.execute_opcode(0x6000 | (x << 8) | 0x5A);
        assert_eq!(r, Ok(()));
        assert_eq!(c.reg(x as u8), 0x5A);
    }
}

#[test]
fn add_imm_wraps_without_touching_flag() {
    let mut c = Chip8::default();
    assert_eq!(c.execute_opcode(0x6F07), Ok(())); // V[F] = 7, a sentinel
    assert_eq!(c.execute_opcode(0x6AFF), Ok(())); // V[A] = 0xFF
    assert_eq!(c.execute_opcode(0x7A02), Ok(())); // V[A] += 2
    assert_eq!(c.reg(0xA), 0x01);
    assert_eq!(c.reg(0xF), 0x07);
}

#[test]
fn add_reg_carry_set_and_cleared() {
    let mut c = Chip8::default();
    c.execute_opcode(0x6AFF).unwrap();
    c.execute_opcode(0x6B01).unwrap();
    c.execute_opcode(0x8AB4).unwrap();
    assert_eq!(c.reg(0xA), 0x00);
    assert_eq!(c.reg(0xF), 1);
    c.execute_opcode(0x6A01).unwrap();
    c.execute_opcode(0x6B01).unwrap();
    c.execute_opcode(0x8AB4).unwrap();
    assert_eq!(c.reg(0xA), 0x02);
    assert_eq!(c.reg(0xF), 0);
}

#[test]
fn sub_reg_borrow() {
    let mut c = Chip8::default();
    c.execute_opcode(0x6A01).unwrap();
    c.execute_opcode(0x6B02).unwrap();
    c.execute_opcode(0x8AB5).unwrap();
    assert_eq!(c.reg(0xA), 0xFF);
    assert_eq!(c.reg(0xF), 0);
}

#[test]
fn sub_reg_no_borrow() {
    let mut c = Chip8::default();
    c.execute_opcode(0x6A05).unwrap();
    c.execute_opcode(0x6B03).unwrap();
    c.execute_opcode(0x8AB5).unwrap();
    assert_eq!(c.reg(0xA), 0x02);
    assert_eq!(c.reg(0xF), 1);
}

#[test]
fn sub_from_both_directions() {
    let mut c = Chip8::default();
    c.execute_opcode(0x6A03).unwrap();
    c.execute_opcode(0x6B0A).unwrap();
    c.execute_opcode(0x8AB7).unwrap(); // V[A] = V[B] - V[A]
    assert_eq!(c.reg(0xA), 0x07);
    assert_eq!(c.reg(0xF), 1);
    c.execute_opcode(0x6A0A).unwrap();
    c.execute_opcode(0x6B03).unwrap();
    c.execute_opcode(0x8AB7).unwrap();
    assert_eq!(c.reg(0xA), 0xF9);
    assert_eq!(c.reg(0xF), 0);
}

#[test]
fn copy_or_and_xor() {
    let mut c = Chip8::default();
    c.execute_opcode(0x6A0F).unwrap();
    c.execute_opcode(0x6B35).unwrap();
    c.execute_opcode(0x8CB0).unwrap(); // V[C] = V[B]
    assert_eq!(c.reg(0xC), 0x35);
    c.execute_opcode(0x8AB1).unwrap(); // V[A] |= V[B]
    assert_eq!(c.reg(0xA), 0x3F);
    c.execute_opcode(0x8AB2).unwrap(); // V[A] &= V[B]
    assert_eq!(c.reg(0xA), 0x35);
    c.execute_opcode(0x8AB3).unwrap(); // V[A] ^= V[B]
    assert_eq!(c.reg(0xA), 0x00);
}

#[test]
fn shift_right_stores_lsb() {
    let mut c = Chip8::default();
    c.execute_opcode(0x6A0B).unwrap(); // 0b1011
    c.execute_opcode(0x8A06).unwrap();
    assert_eq!(c.reg(0xA), 0x05);
    assert_eq!(c.reg(0xF), 1);
    c.execute_opcode(0x6A04).unwrap();
    c.execute_opcode(0x8A06).unwrap();
    assert_eq!(c.reg(0xA), 0x02);
    assert_eq!(c.reg(0xF), 0);
}

#[test]
fn shift_left_stores_msb() {
    let mut c = Chip8::default();
    c.execute_opcode(0x6A81).unwrap();
    c.execute_opcode(0x8A0E).unwrap();
    assert_eq!(c.reg(0xA), 0x02);
    assert_eq!(c.reg(0xF), 1);
    c.execute_opcode(0x6A41).unwrap();
    c.execute_opcode(0x8A0E).unwrap();
    assert_eq!(c.reg(0xA), 0x82);
    assert_eq!(c.reg(0xF), 0);
}

#[test]
fn skips_compare_register_and_immediate() {
    let mut c = Chip8::default();
    let pc0 = c.pc();
    c.execute_opcode(0x6A05).unwrap();
    c.execute_opcode(0x3A05).unwrap(); // equal: skip
    assert_eq!(c.pc(), pc0 + 2);
    c.execute_opcode(0x3A06).unwrap(); // not equal: no skip
    assert_eq!(c.pc(), pc0 + 2);
    c.execute_opcode(0x4A06).unwrap(); // not equal: skip
    assert_eq!(c.pc(), pc0 + 4);
    c.execute_opcode(0x4A05).unwrap(); // equal: no skip
    assert_eq!(c.pc(), pc0 + 4);
    c.execute_opcode(0x6B05).unwrap();
    c.execute_opcode(0x5AB0).unwrap(); // registers equal: skip
    assert_eq!(c.pc(), pc0 + 6);
    c.execute_opcode(0x6B06).unwrap();
    c.execute_opcode(0x5AB0).unwrap(); // registers differ: no skip
    assert_eq!(c.pc(), pc0 + 6);
}

#[test]
fn jump_and_jump_offset() {
    let mut c = Chip8::default();
    c.execute_opcode(0x1234).unwrap();
    assert_eq!(c.pc(), 0x234);
    c.execute_opcode(0x6042).unwrap(); // V[0] = 0x42
    c.execute_opcode(0xB111).unwrap();
    assert_eq!(c.pc(), 0x153);
}

#[test]
fn set_index_and_add_index() {
    let mut c = Chip8::default();
    c.execute_opcode(0xA123).unwrap();
    assert_eq!(c.index_register(), 0x123);
    c.execute_opcode(0x6A05).unwrap();
    c.execute_opcode(0xFA1E).unwrap();
    assert_eq!(c.index_register(), 0x128);
}

#[test]
fn font_char_points_into_font_region() {
    let mut c = Chip8::default();
    c.execute_opcode(0x6A07).unwrap();
    c.execute_opcode(0xFA29).unwrap();
    assert_eq!(c.index_register(), 0x073);
    // Only the low nibble of the register picks the glyph.
    c.execute_opcode(0x6A17).unwrap();
    c.execute_opcode(0xFA29).unwrap();
    assert_eq!(c.index_register(), 0x073);
    c.execute_opcode(0x6A00).unwrap();
    c.execute_opcode(0xFA29).unwrap();
    assert_eq!(c.index_register(), 0x050);
    c.execute_opcode(0x6A0F).unwrap();
    c.execute_opcode(0xFA29).unwrap();
    assert_eq!(c.index_register(), 0x09B);
}

#[test]
fn store_digits_decomposes_decimal() {
    let mut c = Chip8::default();
    c.execute_opcode(0x6A9C).unwrap(); // 156
    c.execute_opcode(0xA300).unwrap();
    c.execute_opcode(0xFA33).unwrap();
    assert_eq!(c.read_memory(0x300), 1);
    assert_eq!(c.read_memory(0x301), 5);
    assert_eq!(c.read_memory(0x302), 6);
}

#[test]
fn store_digits_small_value() {
    let mut c = Chip8::default();
    c.execute_opcode(0x6A07).unwrap();
    c.execute_opcode(0xA300).unwrap();
    c.execute_opcode(0xFA33).unwrap();
    assert_eq!(c.read_memory(0x300), 0);
    assert_eq!(c.read_memory(0x301), 0);
    assert_eq!(c.read_memory(0x302), 7);
}

#[test]
fn store_and_load_registers_round_trip() {
    let mut c = Chip8::default();
    c.execute_opcode(0x6011).unwrap();
    c.execute_opcode(0x6122).unwrap();
    c.execute_opcode(0x6233).unwrap();
    c.execute_opcode(0x6344).unwrap();
    c.execute_opcode(0xA400).unwrap();
    c.execute_opcode(0xF355).unwrap(); // store V[0]..=V[3]
    assert_eq!(c.read_memory(0x400), 0x11);
    assert_eq!(c.read_memory(0x401), 0x22);
    assert_eq!(c.read_memory(0x402), 0x33);
    assert_eq!(c.read_memory(0x403), 0x44);
    c.execute_opcode(0x6000).unwrap();
    c.execute_opcode(0x6100).unwrap();
    c.execute_opcode(0x6200).unwrap();
    c.execute_opcode(0x6300).unwrap();
    c.execute_opcode(0xF365).unwrap(); // load V[0]..=V[3]
    assert_eq!(c.reg(0), 0x11);
    assert_eq!(c.reg(1), 0x22);
    assert_eq!(c.reg(2), 0x33);
    assert_eq!(c.reg(3), 0x44);
}

#[test]
fn store_registers_only_up_to_x() {
    let mut c = Chip8::default();
    c.execute_opcode(0x60AA).unwrap();
    c.execute_opcode(0x61BB).unwrap();
    c.execute_opcode(0xA400).unwrap();
    c.execute_opcode(0xF055).unwrap(); // store V[0] only
    assert_eq!(c.read_memory(0x400), 0xAA);
    assert_eq!(c.read_memory(0x401), 0x00);
}

#[test]
fn rand_masked_by_zero_is_zero() {
    // Whatever byte the generator hands back, a zero mask must clear it.
    for _ in 0..8 {
        let mut c = Chip8::default();
        c.execute_opcode(0x6AFF).unwrap();
        c.execute_opcode(0xCA00).unwrap();
        assert_eq!(c.reg(0xA), 0x00);
    }
}

#[test]
fn rand_stays_within_mask() {
    for _ in 0..8 {
        let mut c = Chip8::default();
        c.execute_opcode(0xCA0F).unwrap();
        assert_eq!(c.reg(0xA) & 0xF0, 0);
    }
}

#[test]
fn timers_set_and_read() {
    let mut c = Chip8::default();
    c.execute_opcode(0x6A30).unwrap();
    c.execute_opcode(0xFA15).unwrap();
    assert_eq!(c.delay_timer(), 0x30);
    c.execute_opcode(0x6B02).unwrap();
    c.execute_opcode(0xFB18).unwrap();
    assert_eq!(c.sound_timer(), 0x02);
    c.execute_opcode(0x6C00).unwrap();
    c.execute_opcode(0xFC07).unwrap(); // V[C] = delay timer
    assert_eq!(c.reg(0xC), 0x30);
}

#[test]
fn skip_on_key_held_and_not_held() {
    let mut c = Chip8::default();
    let mut keys = [false; 16];
    keys[5] = true;
    c.update_keys(keys);
    c.execute_opcode(0x6A05).unwrap();
    let pc0 = c.pc();
    c.execute_opcode(0xEA9E).unwrap(); // key 5 held: skip
    assert_eq!(c.pc(), pc0 + 2);
    c.execute_opcode(0xEAA1).unwrap(); // key 5 held: no skip
    assert_eq!(c.pc(), pc0 + 2);
    c.execute_opcode(0x6A06).unwrap();
    c.execute_opcode(0xEA9E).unwrap(); // key 6 up: no skip
    assert_eq!(c.pc(), pc0 + 2);
    c.execute_opcode(0xEAA1).unwrap(); // key 6 up: skip
    assert_eq!(c.pc(), pc0 + 4);
    // Only the low nibble of the register picks the key.
    c.execute_opcode(0x6A15).unwrap();
    c.execute_opcode(0xEA9E).unwrap();
    assert_eq!(c.pc(), pc0 + 6);
}

#[test]
fn unknown_opcodes_are_no_ops() {
    for op in [0x0123u16, 0x5A21, 0x8AB8, 0x9AB0, 0xE0FF, 0xF0FF] {
        let mut c = Chip8::default();
        c.execute_opcode(0x6A05).unwrap();
        let pc0 = c.pc();
        let i0 = c.index_register();
        assert_eq!(c.execute_opcode(op), Ok(()));
        assert_eq!(c.pc(), pc0);
        assert_eq!(c.index_register(), i0);
        assert_eq!(c.reg(0xA), 0x05);
        assert_eq!(c.stack_depth(), 0);
    }
}

#[test]
fn call_overflow_is_fault_and_underflow_is_fault() {
    let mut c = Chip8::default();
    for _ in 0..16 {
        assert_eq!(c.execute_opcode(0x2300), Ok(()));
    }
    assert_eq!(c.stack_depth(), 16);
    assert_eq!(c.execute_opcode(0x2300), Err(Fault::StackOverflow));
    assert_eq!(c.stack_depth(), 16);
    for _ in 0..16 {
        assert_eq!(c.execute_opcode(0x00EE), Ok(()));
    }
    assert_eq!(c.stack_depth(), 0);
    assert_eq!(c.execute_opcode(0x00EE), Err(Fault::StackUnderflow));
}

#[test]
fn call_then_return_restores_pc() {
    let mut c = Chip8::default();
    assert_eq!(c.pc(), 0x200);
    c.execute_opcode(0x2400).unwrap();
    assert_eq!(c.pc(), 0x400);
    assert_eq!(c.stack_depth(), 1);
    c.execute_opcode(0x00EE).unwrap();
    assert_eq!(c.pc(), 0x200);
    assert_eq!(c.stack_depth(), 0);
}
