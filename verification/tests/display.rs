use chip8_core::chip8::Chip;

fn boot(program: &[u8]) -> Chip {
    let mut c = Chip::initialize();
    c.load_program(program).unwrap();
    c
}

fn steps(c: &mut Chip, n: usize) {
    for _ in 0..n {
        c.emulate_cycle().unwrap();
    }
}

fn lit_cells(c: &Chip) -> usize {
    let mut lit = 0;
    for row in 0..32 {
        for col in 0..64 {
            if c.pixel(col, row) == 1 {
                lit += 1;
            }
        }
    }
    lit
}

#[test]
fn draw_glyph_zero_lights_its_pixels() {
    // I := 0 (the glyph for digit 0), drawn 5 rows tall at (0, 0).
    let mut c = boot(&[0xA0, 0x00, 0x60, 0x00, 0x61, 0x00, 0xD0, 0x15]);
    steps(&mut c, 4);
    // Top row of the glyph is 0xF0: four lit pixels.
    assert_eq!(c.pixel(0, 0), 1);
    assert_eq!(c.pixel(1, 0), 1);
    assert_eq!(c.pixel(2, 0), 1);
    assert_eq!(c.pixel(3, 0), 1);
    assert_eq!(c.pixel(4, 0), 0);
    // Second row is 0x90: only the outermost of the four columns.
    assert_eq!(c.pixel(0, 1), 1);
    assert_eq!(c.pixel(1, 1), 0);
    assert_eq!(c.pixel(2, 1), 0);
    assert_eq!(c.pixel(3, 1), 1);
    assert!(c.draw_flag());
    assert_eq!(c.reg(0xF), 0);
}

#[test]
fn clear_screen_darkens_everything_and_flags_redraw() {
    let mut c = boot(&[0xA0, 0x00, 0x60, 0x00, 0x61, 0x00, 0xD0, 0x15, 0x00, 0xE0]);
    steps(&mut c, 4);
    assert!(lit_cells(&c) > 0);
    c.clear_draw_flag();
    steps(&mut c, 1);
    assert_eq!(lit_cells(&c), 0);
    assert!(c.draw_flag());
}

#[test]
fn drawing_twice_restores_the_framebuffer() {
    let mut c = boot(&[0xA0, 0x00, 0x60, 0x05, 0x61, 0x03, 0xD0, 0x15, 0xD0, 0x15]);
    steps(&mut c, 4);
    assert_eq!(c.pixel(5, 3), 1);
    assert_eq!(c.reg(0xF), 0);
    steps(&mut c, 1);
    assert_eq!(lit_cells(&c), 0);
    // Every pixel the second draw cleared was lit: a collision.
    assert_eq!(c.reg(0xF), 1);
}

#[test]
fn sprite_wraps_around_the_right_edge() {
    let mut c = boot(&[0xA0, 0x00, 0x60, 0x3E, 0x61, 0x00, 0xD0, 0x11]);
    steps(&mut c, 4);
    assert_eq!(c.pixel(62, 0), 1);
    assert_eq!(c.pixel(63, 0), 1);
    assert_eq!(c.pixel(0, 0), 1);
    assert_eq!(c.pixel(1, 0), 1);
    assert_eq!(c.pixel(2, 0), 0);
}

#[test]
fn sprite_wraps_around_the_bottom_edge() {
    let mut c = boot(&[0xA0, 0x00, 0x60, 0x00, 0x61, 0x1E, 0xD0, 0x15]);
    steps(&mut c, 4);
    assert_eq!(c.pixel(0, 30), 1);
    assert_eq!(c.pixel(0, 31), 1);
    assert_eq!(c.pixel(0, 0), 1);
    assert_eq!(c.pixel(0, 1), 1);
    assert_eq!(c.pixel(0, 2), 1);
    assert_eq!(c.pixel(0, 3), 0);
}

#[test]
fn render_frame_maps_pixels_to_rgba() {
    let mut c = boot(&[0xA0, 0x00, 0x60, 0x00, 0x61, 0x00, 0xD0, 0x11]);
    steps(&mut c, 4);
    let frame = c.render_frame();
    assert_eq!(frame.len(), 4 * 64 * 32);
    // Pixel (0, 0) is lit: opaque white.
    assert_eq!(&frame[0..4], &[255, 255, 255, 255]);
    // Pixel (5, 0) is dark: opaque black.
    assert_eq!(&frame[20..24], &[0, 0, 0, 255]);
}
