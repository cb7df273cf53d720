use xphoto::glyph::{glyph_5x7, marked_canvas, Canvas};

#[test]
fn glyphs_are_case_blind() {
    assert_eq!(glyph_5x7('a'), glyph_5x7('A'));
    assert_eq!(glyph_5x7('A'), [0b01110, 0b10001, 0b10001, 0b11111, 0b10001, 0b10001, 0b10001]);
    assert_eq!(glyph_5x7('_'), [0, 0, 0, 0, 0, 0, 0b11111]);
}

#[test]
fn unknown_characters_draw_a_question_mark() {
    let q = [0b11111, 0b00001, 0b00110, 0b00100, 0b00100, 0b00000, 0b00100];
    assert_eq!(glyph_5x7('?'), q);
    assert_eq!(glyph_5x7('z'), q);
    assert_eq!(glyph_5x7('公'), q);
}

#[test]
fn blocks_are_clipped_to_the_canvas() {
    let mut c = Canvas::filled(4, 3, (0, 0, 0));
    c.fill_block(2, 1, 5, (9, 9, 9));
    for y in 0..3 {
        for x in 0..4 {
            let want = if x >= 2 && y >= 1 { (9, 9, 9) } else { (0, 0, 0) };
            assert_eq!(c.rows[y][x], want);
        }
    }
}

#[test]
fn marker_text_is_drawn_in_blocks() {
    let mut c = Canvas::filled(12, 8, (255, 255, 255));
    c.draw_marker("I-", 0, 0, 1, (1, 1, 1));
    // 'I' top row is full
    for x in 0..5 {
        assert_eq!(c.rows[0][x], (1, 1, 1));
    }
    assert_eq!(c.rows[1][0], (255, 255, 255));
    assert_eq!(c.rows[1][2], (1, 1, 1));
    // '-' starts six columns on, its bar on row 3
    assert_eq!(c.rows[3][6], (1, 1, 1));
    assert_eq!(c.rows[3][10], (1, 1, 1));
    assert_eq!(c.rows[2][6], (255, 255, 255));
    assert_eq!(c.rows[3][5], (255, 255, 255));
}

#[test]
fn generated_photo_picture() {
    let c = marked_canvas("IMG");
    assert_eq!(c.width, 1280);
    assert_eq!(c.height, 720);
    assert_eq!(c.rows[80][40], (10, 10, 10));
    assert_eq!(c.rows[85][69], (10, 10, 10));
    assert_eq!(c.rows[86][40], (255, 255, 255));
    assert_eq!(c.rows[0][0], (255, 255, 255));
}
