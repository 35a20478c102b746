use waemom::console::{draw, Console};
use waemom::graphics::{
    clear_screen, draw_char, draw_char_scaled, draw_rect, draw_text, draw_text_scaled, fill_circle, fill_rect, fill_round_rect,
    init, put_pixel, screen_height, screen_width, Color, Fb, Font,
};
use waemom::image::{draw_image, parse_ppm_p3, Image};
use waemom::mouse::{draw_cursor, on_irq, Mouse};
use waemom::ui::icons::{icon_files, icon_notes, Icons};

const RED: Color = Color(200, 10, 20);

fn screen(w: usize, h: usize, bytes: usize) -> Fb {
    init(w, h, w * bytes + 4, bytes, vec![0; h * (w * bytes + 4)]).unwrap()
}

fn pixel(fb: &Fb, x: usize, y: usize) -> (u8, u8, u8) {
    let i = y * fb.stride + x * (fb.bpp / 8);
    (fb.buf[i + 2], fb.buf[i + 1], fb.buf[i])
}

fn painted(fb: &Fb, c: Color) -> Vec<(usize, usize)> {
    let mut out = Vec::new();
    for y in 0..fb.height {
        for x in 0..fb.width {
            if pixel(fb, x, y) == (c.0, c.1, c.2) {
                out.push((x, y));
            }
        }
    }
    out
}

fn font() -> Font {
    let mut glyphs = vec![[0u8; 8]; 128];
    glyphs['A' as usize] = [0b0000_0001, 0b0000_0010, 0, 0, 0, 0, 0, 0b1000_0000];
    glyphs['B' as usize] = [0xff; 8];
    Font { glyphs }
}

#[test]
fn the_frame_buffer_must_hold_its_rows() {
    assert!(init(4, 3, 16, 4, vec![0; 48]).is_some());
    assert!(init(4, 3, 16, 4, vec![0; 47]).is_none());
    assert!(init(4, 3, 15, 4, vec![0; 48]).is_none());
    assert!(init(4, 3, 12, 3, vec![0; 36]).is_some());
    assert!(init(4, 3, 16, 2, vec![0; 48]).is_none());
    assert!(init(usize::MAX, 2, 16, 4, vec![0; 48]).is_none());
    assert!(init(0, usize::MAX, 2, 4, vec![]).is_none());
    let fb = init(4, 3, 20, 4, vec![0; 60]).unwrap();
    assert_eq!((fb.width, fb.height, fb.stride, fb.bpp), (4, 3, 20, 32));
    assert_eq!(fb.idx(3, 2), 52);
    assert_eq!(screen_width(&Some(fb)), 4);
    assert_eq!(screen_width(&None), 0);
    assert_eq!(screen_height(&None), 0);
    assert_eq!(screen_height(&init(4, 3, 12, 3, vec![0; 36])), 3);
}

#[test]
fn a_pixel_is_stored_blue_first() {
    let mut fb = screen(4, 3, 4);
    put_pixel(&mut fb, 1, 2, Color::rgb(1, 2, 3));
    let i = fb.idx(1, 2);
    assert_eq!(&fb.buf[i..i + 4], &[3, 2, 1, 0xff]);
    assert_eq!(fb.buf.iter().filter(|&&b| b != 0).count(), 4);
    put_pixel(&mut fb, 4, 0, RED);
    put_pixel(&mut fb, 0, 3, RED);
    put_pixel(&mut fb, usize::MAX, usize::MAX, RED);
    assert_eq!(fb.buf.iter().filter(|&&b| b != 0).count(), 4);
    let mut narrow = screen(4, 3, 3);
    put_pixel(&mut narrow, 3, 0, Color::rgb(1, 2, 3));
    assert_eq!(&narrow.buf[9..13], &[3, 2, 1, 0]);
}

#[test]
fn a_rectangle_is_filled_within_the_screen() {
    let mut fb = screen(6, 5, 4);
    fill_rect(&mut fb, 4, 3, 10, 10, RED);
    assert_eq!(painted(&fb, RED), vec![(4, 3), (5, 3), (4, 4), (5, 4)]);
    fill_rect(&mut fb, 6, 0, 3, 3, RED);
    fill_rect(&mut fb, 0, 5, 3, 3, RED);
    fill_rect(&mut fb, 1, 1, 0, 3, RED);
    fill_rect(&mut fb, usize::MAX, usize::MAX, usize::MAX, usize::MAX, RED);
    assert_eq!(painted(&fb, RED).len(), 4);
    fill_rect(&mut fb, 1, 1, 2, 1, Color::white());
    assert_eq!(painted(&fb, Color(255, 255, 255)), vec![(1, 1), (2, 1)]);
    clear_screen(&mut fb, Color::green());
    assert_eq!(painted(&fb, Color(77, 198, 94)).len(), 30);
}

#[test]
fn an_outline_has_four_sides() {
    let mut fb = screen(8, 8, 3);
    draw_rect(&mut fb, 1, 2, 4, 3, RED);
    assert_eq!(
        painted(&fb, RED),
        vec![(1, 2), (2, 2), (3, 2), (4, 2), (1, 3), (4, 3), (1, 4), (2, 4), (3, 4), (4, 4)]
    );
    let mut edge = screen(4, 4, 4);
    draw_rect(&mut edge, 2, 2, 5, 5, RED);
    assert_eq!(painted(&edge, RED), vec![(2, 2), (3, 2), (2, 3)]);
    let mut none = screen(4, 4, 4);
    draw_rect(&mut none, 1, 1, 0, 0, RED);
    assert!(painted(&none, RED).is_empty());
}

#[test]
fn a_disc_holds_the_points_within_its_radius() {
    let mut fb = screen(7, 7, 4);
    fill_circle(&mut fb, 3, 3, 1, RED);
    assert_eq!(painted(&fb, RED), vec![(3, 2), (2, 3), (3, 3), (4, 3), (3, 4)]);
    fill_circle(&mut fb, 3, 3, 2, Color::white());
    assert_eq!(painted(&fb, Color(255, 255, 255)).len(), 13);
    let mut corner = screen(4, 4, 4);
    fill_circle(&mut corner, 0, 0, 1, RED);
    assert_eq!(painted(&corner, RED), vec![(0, 0), (1, 0), (0, 1)]);
    fill_circle(&mut corner, 2, 2, -1, Color::white());
    fill_circle(&mut corner, -5, -5, 3, Color::white());
    fill_circle(&mut corner, isize::MAX, isize::MIN, 2, Color::white());
    assert!(painted(&corner, Color(255, 255, 255)).is_empty());
    fill_circle(&mut corner, 3, 3, 0, Color::white());
    assert_eq!(painted(&corner, Color(255, 255, 255)), vec![(3, 3)]);
}

#[test]
fn a_rounded_rectangle_leaves_its_corners_round() {
    let mut fb = screen(12, 10, 4);
    fill_round_rect(&mut fb, 1, 1, 9, 7, 2, RED);
    let on = painted(&fb, RED);
    assert!(on.contains(&(3, 1)) && on.contains(&(7, 1)));
    assert!(on.contains(&(1, 3)) && on.contains(&(9, 5)));
    assert!(!on.contains(&(1, 1)));
    assert!(on.contains(&(2, 2)));
    assert!(on.contains(&(5, 4)));
    assert!(on.contains(&(10, 3)));
    assert!(!on.contains(&(0, 3)));
    let mut plain = screen(6, 6, 4);
    fill_round_rect(&mut plain, 1, 1, 3, 2, 0, RED);
    assert_eq!(painted(&plain, RED), vec![(1, 1), (2, 1), (3, 1), (4, 1), (1, 2), (2, 2), (3, 2), (1, 3), (4, 3)]);
}

#[test]
fn a_character_paints_the_set_bits_of_its_glyph() {
    let mut fb = screen(16, 16, 4);
    draw_char(&mut fb, &font(), 2, 3, 'A', RED, None);
    assert_eq!(painted(&fb, RED), vec![(2, 3), (3, 4), (9, 10)]);
    draw_char(&mut fb, &font(), 2, 3, '\u{100}', Color::white(), Some(Color::white()));
    assert!(painted(&fb, Color(255, 255, 255)).is_empty());
    let mut bg = screen(16, 16, 4);
    draw_char(&mut bg, &font(), 0, 0, 'A', RED, Some(Color::white()));
    assert_eq!(painted(&bg, RED).len(), 3);
    assert_eq!(painted(&bg, Color(255, 255, 255)).len(), 61);
    let mut big = screen(32, 32, 4);
    draw_char_scaled(&mut big, &font(), 1, 1, 'A', RED, None, 3);
    let on = painted(&big, RED);
    assert_eq!(on.len(), 27);
    assert!(on.contains(&(1, 1)) && on.contains(&(3, 3)) && on.contains(&(4, 4)) && on.contains(&(24, 24)));
    let mut one = screen(16, 16, 4);
    draw_char_scaled(&mut one, &font(), 2, 3, 'A', RED, None, 0);
    assert_eq!(painted(&one, RED), vec![(2, 3), (3, 4), (9, 10)]);
}

#[test]
fn a_text_moves_right_and_starts_lines_at_the_left() {
    let mut fb = screen(40, 30, 4);
    draw_text(&mut fb, &font(), 5, 2, "AA\nA", RED, None);
    assert_eq!(
        painted(&fb, RED),
        vec![(5, 2), (13, 2), (6, 3), (14, 3), (12, 9), (20, 9), (0, 10), (1, 11), (7, 17)]
    );
    let mut big = screen(64, 64, 4);
    draw_text_scaled(&mut big, &font(), 0, 0, "AA\nA", RED, None, 2);
    let on = painted(&big, RED);
    assert_eq!(on.len(), 36);
    assert!(on.contains(&(16, 0)) && on.contains(&(0, 16)) && on.contains(&(14, 30)));
    let mut same = screen(40, 30, 4);
    draw_text_scaled(&mut same, &font(), 5, 2, "AA\nA", RED, None, 1);
    assert_eq!(same.buf, fb.buf);
}

#[test]
fn a_picture_is_read_from_text() {
    let img = parse_ppm_p3(b"P3\n2 1\n255\n255 0 0   0 128 255\n").unwrap();
    assert_eq!((img.width, img.height), (2, 1));
    assert_eq!(img.data, vec![255, 0, 0, 0, 128, 255]);
    let scaled = parse_ppm_p3(b"P3 1 2 15 15 0 7 1 2 3 ignored words").unwrap();
    assert_eq!(scaled.data, vec![255, 0, 119, 17, 34, 51]);
    let wide = parse_ppm_p3(b"P3 1 1 10 20 +5 1000").unwrap();
    assert_eq!(wide.data, vec![(20 * 255 / 10 % 256) as u8, 127, (1000 * 255 / 10 % 256) as u8]);
    assert_eq!(parse_ppm_p3(b"P3 0 5 1").unwrap().data, Vec::<u8>::new());
    for bad in [
        &b"P6 1 1 255 1 2 3"[..],
        b"P3 1 1 0 1 2 3",
        b"P3 1 1 255 1 2",
        b"P3 1 1 255 1 2 x",
        b"P3 1 -1 255 1 2 3",
        b"P3 1 1",
        b"",
        b"P3 1 1 255 1 2 \xff",
        b"P3 18446744073709551616 1 255",
        b"P3 4294967296 4294967296 255",
    ] {
        assert!(parse_ppm_p3(bad).is_none());
    }
}

#[test]
fn a_picture_is_painted_row_by_row() {
    let img = Image { width: 2, height: 2, data: vec![1, 2, 3, 4, 5, 6, 7, 8, 9, 10, 11, 12] };
    let mut fb = screen(4, 4, 4);
    draw_image(&mut fb, 1, 2, &img);
    assert_eq!(pixel(&fb, 1, 2), (1, 2, 3));
    assert_eq!(pixel(&fb, 2, 2), (4, 5, 6));
    assert_eq!(pixel(&fb, 1, 3), (7, 8, 9));
    assert_eq!(pixel(&fb, 2, 3), (10, 11, 12));
    assert_eq!(pixel(&fb, 0, 0), (0, 0, 0));
    draw_image(&mut fb, 3, 3, &img);
    assert_eq!(pixel(&fb, 3, 3), (1, 2, 3));
    let broken = Image { width: 2, height: 2, data: vec![9; 11] };
    let before = fb.buf.clone();
    draw_image(&mut fb, 0, 0, &broken);
    assert_eq!(fb.buf, before);
    assert_eq!(img.duplicate().data, img.data);
}

#[test]
fn an_icon_is_parsed_once() {
    let mut icons = Icons::new();
    assert!(icon_notes(&mut icons, b"garbage").is_none());
    assert!(icons.notes.is_none());
    let first = icon_notes(&mut icons, b"P3 1 1 255 9 8 7").unwrap();
    assert_eq!(first.data, vec![9, 8, 7]);
    let again = icon_notes(&mut icons, b"P3 1 1 255 1 1 1").unwrap();
    assert_eq!(again.data, vec![9, 8, 7]);
    assert!(icons.files.is_none());
    assert_eq!(icon_files(&mut icons, b"P3 1 1 1 1 0 1").unwrap().data, vec![255, 0, 255]);
}

#[test]
fn the_pointer_follows_the_packets_of_the_mouse() {
    let mut m = Mouse::new();
    assert_eq!(m.position(), (100, 100));
    on_irq(&mut m, 0x08);
    on_irq(&mut m, 5);
    assert_eq!(m.position(), (100, 100));
    on_irq(&mut m, 0xfd);
    assert_eq!(m.position(), (105, 103));
    for b in [0, 0x80, 0x7f] {
        on_irq(&mut m, b);
    }
    assert_eq!(m.position(), (0, 0));
    let mut fb = screen(8, 8, 4);
    on_irq(&mut m, 0);
    on_irq(&mut m, 5);
    on_irq(&mut m, 0xfa);
    assert_eq!(m.position(), (5, 6));
    draw_cursor(&mut fb, &m);
    assert_eq!(painted(&fb, Color(255, 255, 255)), vec![(5, 6), (6, 6), (7, 6), (5, 7), (6, 7), (7, 7)]);
    assert_eq!(
        waemom::mouse::init(0x45),
        vec![(0x64, 0xA8), (0x64, 0x60), (0x60, 0x47), (0x64, 0xD4), (0x60, 0xF6), (0x64, 0xD4), (0x60, 0xF4)]
    );
}

#[test]
fn the_console_is_painted_along_the_lower_edge() {
    let mut fb = screen(40, 200, 4);
    let mut c = Console::new();
    waemom::console::println(&mut c, "B");
    draw(&mut fb, &font(), &c);
    assert_eq!(pixel(&fb, 5, 100), (16, 16, 16));
    assert_eq!(pixel(&fb, 0, 60), (85, 85, 90));
    assert_eq!(pixel(&fb, 39, 199), (85, 85, 90));
    assert_eq!(pixel(&fb, 5, 59), (0, 0, 0));
    assert_eq!(pixel(&fb, 8, 68), (255, 255, 255));
    assert_eq!(pixel(&fb, 15, 75), (255, 255, 255));
    assert_eq!(pixel(&fb, 16, 68), (16, 16, 16));
}
