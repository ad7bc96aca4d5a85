use chip8::Chip8;
use chip8::Display;

#[test]
fn draw_blits_sprite_rows() {
    let mut c = Chip8::default();
    c.load_rom(&[0xFF, 0x81]);
    c.execute_opcode(0xA200).unwrap(); // I -> sprite bytes
    c.execute_opcode(0xD012).unwrap(); // draw at (V[0], V[1]) = (0, 0), 2 rows
    for x in 0..8 {
        assert!(c.pixel(x, 0));
    }
    assert!(!c.pixel(8, 0));
    assert!(c.pixel(0, 1));
    assert!(!c.pixel(1, 1));
    assert!(!c.pixel(6, 1));
    assert!(c.pixel(7, 1));
    assert_eq!(c.reg(0xF), 0);
}

#[test]
fn draw_twice_restores_framebuffer_and_flags_collision() {
    let mut c = Chip8::default();
    c.load_rom(&[0xFF, 0x81]);
    c.execute_opcode(0xA200).unwrap();
    c.execute_opcode(0xD012).unwrap();
    assert_eq!(c.reg(0xF), 0);
    c.execute_opcode(0xD012).unwrap();
    assert_eq!(c.reg(0xF), 1);
    for y in 0..32 {
        for x in 0..64 {
            assert!(!c.pixel(x, y));
        }
    }
}

#[test]
fn draw_partial_overlap_xors() {
    let mut c = Chip8::default();
    c.load_rom(&[0xF0]);
    c.execute_opcode(0xA200).unwrap();
    c.execute_opcode(0xD011).unwrap(); // pixels 0..4 of row 0
    c.execute_opcode(0x6002).unwrap(); // V[0] = 2
    c.execute_opcode(0xD011).unwrap(); // pixels 2..6: 2,3 cleared; 4,5 lit
    assert_eq!(c.reg(0xF), 1);
    assert!(c.pixel(0, 0));
    assert!(c.pixel(1, 0));
    assert!(!c.pixel(2, 0));
    assert!(!c.pixel(3, 0));
    assert!(c.pixel(4, 0));
    assert!(c.pixel(5, 0));
    assert!(!c.pixel(6, 0));
}

#[test]
fn draw_coordinates_wrap_modulo_grid() {
    let mut c = Chip8::default();
    c.load_rom(&[0x80]);
    c.execute_opcode(0xA200).unwrap();
    c.execute_opcode(0x6040).unwrap(); // V[0] = 64 -> column 0
    c.execute_opcode(0x6120).unwrap(); // V[1] = 32 -> row 0
    c.execute_opcode(0xD011).unwrap();
    assert!(c.pixel(0, 0));
    assert_eq!(c.reg(0xF), 0);
}

#[test]
fn draw_clips_at_right_and_bottom_edges() {
    let mut c = Chip8::default();
    c.load_rom(&[0xFF, 0xFF, 0xFF]);
    c.execute_opcode(0xA200).unwrap();
    c.execute_opcode(0x603C).unwrap(); // V[0] = 60
    c.execute_opcode(0x611F).unwrap(); // V[1] = 31
    c.execute_opcode(0xD013).unwrap(); // 3 rows, but only row 31 fits
    for x in 60..64 {
        assert!(c.pixel(x, 31));
    }
    // No wraparound onto the left column or the top row.
    for x in 0..4 {
        assert!(!c.pixel(x, 31));
        assert!(!c.pixel(x, 0));
    }
    for y in 0..31 {
        for x in 56..64 {
            assert!(!c.pixel(x, y));
        }
    }
    assert_eq!(c.reg(0xF), 0);
}

#[test]
fn clear_screen_darkens_every_pixel() {
    let mut c = Chip8::default();
    c.load_rom(&[0xFF, 0xFF]);
    c.execute_opcode(0xA200).unwrap();
    c.execute_opcode(0xD012).unwrap();
    assert!(c.pixel(0, 0));
    c.execute_opcode(0x00E0).unwrap();
    for y in 0..32 {
        for x in 0..64 {
            assert!(!c.pixel(x, y));
        }
    }
}

#[test]
fn draw_reads_font_glyph_through_index() {
    let mut c = Chip8::default();
    c.execute_opcode(0x6A00).unwrap();
    c.execute_opcode(0xFA29).unwrap(); // I -> glyph 0 (0xF0 0x90 0x90 0x90 0xF0)
    c.execute_opcode(0xD015).unwrap();
    assert!(c.pixel(0, 0));
    assert!(c.pixel(3, 0));
    assert!(!c.pixel(1, 1));
    assert!(c.pixel(0, 2));
    assert!(c.pixel(3, 2));
    assert!(c.pixel(0, 4));
}

#[test]
fn render_buffer_matches_pixels() {
    let mut c = Chip8::default();
    c.load_rom(&[0xC0]);
    c.execute_opcode(0xA200).unwrap();
    c.execute_opcode(0xD011).unwrap(); // pixels (0,0) and (1,0) lit
    let buffer = c.display().render();
    assert_eq!(buffer.len(), 64 * 32);
    assert_eq!(buffer[0], 0xFFFFFFFF);
    assert_eq!(buffer[1], 0xFFFFFFFF);
    assert_eq!(buffer[2], 0x00000000);
    assert_eq!(buffer[64], 0x00000000);
}

#[test]
fn display_default_and_clear() {
    let mut d = Display::default();
    let buffer = d.render();
    assert_eq!(buffer.len(), 2048);
    assert!(buffer.iter().all(|&w| w == 0));
    assert!(!d.pixel(0, 0));
    d.clear();
    assert!(!d.pixel(63, 31));
}
