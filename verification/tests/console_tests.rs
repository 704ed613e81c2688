use rood::framebuffer::{
    glyph_index, pixel_bytes, DrawOp, Framebuffer, PixelFormat, BLACK, WHITE, YELLOW,
};
use rood::interrupts::{
    eoi_master, eoi_slave, general_protection_report, init_pic, page_fault_report, pic1_cmd, pic1_data, pic2_cmd,
    pic2_data, print_exception, print_hex_u64, tick, uptime_secs,
};

fn console(w: usize, h: usize) -> Framebuffer {
    Framebuffer::new(w, h, w, 4, PixelFormat::Bgr)
}

fn glyph(col: usize, row: usize, ch: u8) -> DrawOp {
    DrawOp::Glyph { col, row, ch, color: WHITE }
}

#[test]
fn geometry() {
    let fb = console(640, 480);
    assert_eq!(fb.cols(), 80);
    assert_eq!(fb.rows(), 60);
    assert_eq!(fb.cursor(), (0, 0));
    assert_eq!(fb.pixel_offset(0, 0), Some(0));
    assert_eq!(fb.pixel_offset(3, 2), Some(2 * 640 * 4 + 3 * 4));
    assert_eq!(fb.pixel_offset(640, 0), None);
    assert_eq!(fb.pixel_offset(0, 480), None);
    let span = fb.scroll_span();
    assert_eq!(span.source, 8 * 2560);
    assert_eq!(span.count, 59 * 8 * 2560);
    assert_eq!(span.blank_from, 59 * 8);
}

#[test]
fn printing_moves_the_cursor_and_wraps() {
    let mut fb = console(24, 16);
    assert_eq!(fb.print_byte(b'a', WHITE), vec![glyph(0, 0, b'a')]);
    assert_eq!(fb.cursor(), (1, 0));
    let ops = fb.print_str(b"bc", WHITE);
    assert_eq!(ops, vec![glyph(1, 0, b'b'), glyph(2, 0, b'c')]);
    assert_eq!(fb.cursor(), (0, 1));
    assert_eq!(fb.print_byte(b'\n', WHITE), vec![DrawOp::Scroll]);
    assert_eq!(fb.cursor(), (0, 1));
    let mut tall = console(24, 32);
    assert!(tall.print_byte(b'\n', WHITE).is_empty());
    assert_eq!(tall.cursor(), (0, 1));
}

#[test]
fn printing_below_the_last_row_scrolls() {
    let mut fb = console(24, 16);
    fb.print_str(b"\n", WHITE);
    let ops = fb.print_str(b"xyz", YELLOW);
    assert_eq!(
        ops,
        vec![
            DrawOp::Glyph { col: 0, row: 1, ch: b'x', color: YELLOW },
            DrawOp::Glyph { col: 1, row: 1, ch: b'y', color: YELLOW },
            DrawOp::Glyph { col: 2, row: 1, ch: b'z', color: YELLOW },
            DrawOp::Scroll,
        ]
    );
    assert_eq!(fb.cursor(), (0, 1));
    assert_eq!(fb.print_byte(b'\n', WHITE), vec![DrawOp::Scroll]);
    assert_eq!(fb.cursor(), (0, 1));
}

#[test]
fn backspace_stays_on_the_row() {
    let mut fb = console(24, 16);
    assert_eq!(fb.backspace(), None);
    fb.print_str(b"ab", WHITE);
    assert_eq!(fb.backspace(), Some(DrawOp::Glyph { col: 1, row: 0, ch: b' ', color: BLACK }));
    assert_eq!(fb.cursor(), (1, 0));
    fb.print_str(b"\n", WHITE);
    assert_eq!(fb.backspace(), None);
    assert_eq!(fb.clear(), DrawOp::Clear);
    assert_eq!(fb.cursor(), (0, 0));
}

#[test]
fn pixels_and_glyphs() {
    assert_eq!(pixel_bytes(PixelFormat::Bgr, (1, 2, 3)), [3, 2, 1]);
    assert_eq!(pixel_bytes(PixelFormat::Rgb, (1, 2, 3)), [1, 2, 3]);
    assert_eq!(pixel_bytes(PixelFormat::Other, (1, 2, 3)), [1, 2, 3]);
    assert_eq!(glyph_index(b' '), 0);
    assert_eq!(glyph_index(b'A'), 33);
    assert_eq!(glyph_index(127), 95);
    assert_eq!(glyph_index(128), 0);
    assert_eq!(glyph_index(b'\n'), 0);
}

#[test]
fn pic_programming() {
    assert_eq!(
        init_pic(),
        vec![
            (0x20, 0x11),
            (0xA0, 0x11),
            (0x21, 32),
            (0xA1, 40),
            (0x21, 4),
            (0xA1, 2),
            (0x21, 1),
            (0xA1, 1),
            (0x21, 0xFC),
            (0xA1, 0xFF)
        ]
    );
    assert_eq!(eoi_master(), vec![(0x20, 0x20)]);
    assert_eq!(eoi_slave(), vec![(0xA0, 0x20), (0x20, 0x20)]);
    assert_eq!(pic1_cmd().port(), 0x20);
    assert_eq!(pic1_data().port(), 0x21);
    assert_eq!(pic2_cmd().port(), 0xA0);
    assert_eq!(pic2_data().port(), 0xA1);
}

#[test]
fn timer_ticks() {
    assert_eq!(uptime_secs(0), 0);
    assert_eq!(uptime_secs(18), 0);
    assert_eq!(uptime_secs(19), 1);
    assert_eq!(uptime_secs(1000), 54);
    assert_eq!(uptime_secs(3640), 200);
    assert_eq!(uptime_secs(u64::MAX), ((u64::MAX as u128) * 10 / 182) as u64);
    assert_eq!(tick(41), 42);
}

#[test]
fn hex_and_exception_reports() {
    let digits: Vec<u8> = print_hex_u64(0x0123_4567_89AB_CDEF).iter().map(|(b, _)| *b).collect();
    assert_eq!(digits, b"0123456789ABCDEF".to_vec());
    assert!(print_hex_u64(0).iter().all(|(b, c)| *b == b'0' && *c == YELLOW));
    let out = print_exception(b"Divide Error (#DE)", 0x10, 0x8, 0);
    let t: Vec<u8> = out.iter().map(|(b, _)| *b).collect();
    assert_eq!(
        String::from_utf8(t).unwrap(),
        "\n[EXCEPTION] Divide Error (#DE)\nIP:  0x0000000000000010\nCS:  0x0000000000000008\nSS:  0x0000000000000000\n"
    );
    let t: Vec<u8> = general_protection_report(1, 2, 3, 0xFF).iter().map(|(b, _)| *b).collect();
    assert!(String::from_utf8(t).unwrap().ends_with("Error: 0x00000000000000FF\n"));
    let t: Vec<u8> = page_fault_report(1, 2, 3, 0xDEAD, 2).iter().map(|(b, _)| *b).collect();
    let s = String::from_utf8(t).unwrap();
    assert!(s.starts_with("\n[EXCEPTION] Page Fault (#PF)\n"));
    assert!(s.ends_with("Addr: 0x000000000000DEAD\nCode: 0x0000000000000002\n"));
}

#[test]
fn readiness() {
    assert!(console(640, 480).ready());
    assert!(!console(640, 7).ready());
    assert!(!Framebuffer::new(0, 0, 0, 0, PixelFormat::Rgb).ready());
    assert!(!Framebuffer::new(usize::MAX, 16, 1, 1, PixelFormat::Rgb).ready());
    assert!(Framebuffer::new(4, 16, 4, 3, PixelFormat::Rgb).ready());
}
