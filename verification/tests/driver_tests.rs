use zita_os::cell::Character;
use zita_os::output_driver::Output;
use zita_os::screen::Buffer;
use zita_os::visuals::Color;
use zita_os::visuals::Visuals;

/// The packed cell for `payload` under the default attribute 0x0F.
fn default_cell(payload: u8) -> u16 {
    (0x0fu16 << 8) | payload as u16
}

#[test]
fn color_codes_follow_the_hardware_table() {
    let table: [(Color, u8); 16] = [
        (Color::Black, 0),
        (Color::Blue, 1),
        (Color::Green, 2),
        (Color::Cyan, 3),
        (Color::Red, 4),
        (Color::Magenta, 5),
        (Color::Brown, 6),
        (Color::LightGray, 7),
        (Color::DarkGray, 8),
        (Color::LightBlue, 9),
        (Color::LightGreen, 10),
        (Color::LightCyan, 11),
        (Color::LightRed, 12),
        (Color::Pink, 13),
        (Color::Yellow, 14),
        (Color::White, 15),
    ];
    for (color, code) in table {
        assert_eq!(color.code(), code);
        assert_eq!(Color::from_code(code), color);
    }
    assert_eq!(Color::from_code(200), Color::White);
}

#[test]
fn visuals_encode_into_one_byte() {
    assert_eq!(Visuals::default().get_color_code(), 0x0f);
    // blink bit 5, background nibble from bit 4, foreground low nibble
    let v = Visuals::new(Color::Yellow, Color::Blue, true);
    assert_eq!(v.get_color_code(), (1 << 5) | (1 << 4) | 14);
    let w = Visuals::default_with(Color::Blue, false);
    assert_eq!(w.get_color_code(), (1 << 4) | 15);
}

#[test]
fn visuals_round_trip_recovers_the_triple() {
    // backgrounds whose code keeps bit 1 clear round-trip exactly
    let backgrounds = [
        Color::Black,
        Color::Blue,
        Color::Red,
        Color::Magenta,
        Color::DarkGray,
        Color::LightBlue,
        Color::LightRed,
        Color::Pink,
    ];
    for bg in backgrounds {
        for blink in [false, true] {
            let v = Visuals::new(Color::Green, bg, blink);
            let back = Visuals::from_code(v.get_color_code());
            assert_eq!(back, v);
        }
    }
}

#[test]
fn blink_flag_shares_a_bit_with_some_backgrounds() {
    // a green background sets the same byte bit as the blink flag, so
    // the encoding cannot keep both apart and decoding reads blinking
    let green_bg = Visuals::new(Color::White, Color::Green, false);
    let blink_black = Visuals::new(Color::White, Color::Black, true);
    assert_eq!(green_bg.get_color_code(), blink_black.get_color_code());
    assert_eq!(Visuals::from_code(green_bg.get_color_code()), blink_black);
}

#[test]
fn character_packs_attribute_over_payload() {
    let c = Character::new(b'A', Visuals::default());
    assert_eq!(c.code(), 0x0f41);
    let blue = Visuals::new(Color::White, Color::Blue, false);
    assert_eq!(Character::new(b'A', blue).code(), (0x1fu16 << 8) | 0x41);
    assert_eq!(Character::empty(Visuals::default()).code(), 0x0f00);
}

#[test]
fn buffer_cells_hold_what_was_written() {
    let mut b = Buffer::new();
    assert_eq!(b.read_cell(0, 0), 0x0f00);
    assert_eq!(b.read_cell(24, 79), 0x0f00);
    b.write_cell(3, 4, 0x1234);
    assert_eq!(b.read_cell(3, 4), 0x1234);
    assert_eq!(b.read_cell(3, 5), 0x0f00);
}

#[test]
fn fresh_driver_starts_at_the_origin() {
    let out = Output::new();
    assert_eq!(out.cursor_row(), 0);
    assert_eq!(out.cursor_column(), 0);
    assert_eq!(out.visuals(), Visuals::default());
    assert_eq!(out.cell_at(0, 0), 0x0f00);
    assert_eq!(out.cell_at(24, 79), 0x0f00);
}

#[test]
fn short_print_moves_the_cursor_and_writes_the_row() {
    let mut out = Output::new();
    out.print("Hello");
    assert_eq!(out.cursor_row(), 0);
    assert_eq!(out.cursor_column(), 5);
    for (i, b) in b"Hello".iter().enumerate() {
        let cell = out.cell_at(0, i);
        assert_eq!((cell & 0xff) as u8, *b);
        assert_eq!((cell >> 8) as u8, 0x0f);
    }
    // the rest of the grid is untouched
    assert_eq!(out.cell_at(0, 5), 0x0f00);
    assert_eq!(out.cell_at(1, 0), 0x0f00);
}

#[test]
fn hello_reads_back_decoded() {
    let mut out = Output::new();
    out.print("Hello");
    let expected = ['H', 'e', 'l', 'l', 'o'];
    for (i, ch) in expected.iter().enumerate() {
        let cell = out.cell_at(0, i);
        assert_eq!((cell & 0xff) as u8 as char, *ch);
        assert_eq!(Visuals::from_code((cell >> 8) as u8), Visuals::default());
    }
}

#[test]
fn eighty_printables_wrap_exactly_once() {
    let mut out = Output::new();
    let line = [b'x'; 80];
    out.print_bytes(&line);
    assert_eq!(out.cursor_row(), 1);
    assert_eq!(out.cursor_column(), 0);
    for col in 0..80 {
        assert_eq!(out.cell_at(0, col), default_cell(b'x'));
    }
    assert_eq!(out.cell_at(1, 0), 0x0f00);
}

#[test]
fn newline_wraps_the_line() {
    let mut out = Output::new();
    out.print("ab\ncd");
    assert_eq!(out.cursor_row(), 1);
    assert_eq!(out.cursor_column(), 2);
    assert_eq!(out.cell_at(0, 0), default_cell(b'a'));
    assert_eq!(out.cell_at(0, 1), default_cell(b'b'));
    assert_eq!(out.cell_at(1, 0), default_cell(b'c'));
    assert_eq!(out.cell_at(1, 1), default_cell(b'd'));
}

#[test]
fn print_line_ends_with_a_wrap() {
    let mut out = Output::new();
    out.print_line("hi");
    assert_eq!(out.cursor_row(), 1);
    assert_eq!(out.cursor_column(), 0);
    assert_eq!(out.cell_at(0, 0), default_cell(b'h'));
    assert_eq!(out.cell_at(0, 1), default_cell(b'i'));
}

#[test]
fn wrap_on_the_last_row_scrolls() {
    let mut out = Output::new();
    out.print("TOP");
    for _ in 0..24 {
        out.print("\n");
    }
    assert_eq!(out.cursor_row(), 24);
    assert_eq!(out.cursor_column(), 0);
    out.print("BOTTOM");
    out.print("\n");
    // the old top row is gone, every row moved up, the last row is blank
    assert_eq!(out.cursor_row(), 24);
    assert_eq!(out.cursor_column(), 0);
    assert_eq!(out.cell_at(0, 0), 0x0f00);
    for (i, b) in b"BOTTOM".iter().enumerate() {
        assert_eq!(out.cell_at(23, i), default_cell(*b));
    }
    for col in 0..80 {
        assert_eq!(out.cell_at(24, col), 0x0f00);
    }
}

#[test]
fn filling_the_last_row_scrolls_too() {
    let mut out = Output::new();
    for _ in 0..24 {
        out.print("\n");
    }
    let line = [b'y'; 80];
    out.print_bytes(&line);
    assert_eq!(out.cursor_row(), 24);
    assert_eq!(out.cursor_column(), 0);
    for col in 0..80 {
        assert_eq!(out.cell_at(23, col), default_cell(b'y'));
        assert_eq!(out.cell_at(24, col), 0x0f00);
    }
}

#[test]
fn clear_blanks_the_grid_and_keeps_the_cursor() {
    let mut out = Output::new();
    out.print("some text\nmore");
    let blue = Visuals::new(Color::White, Color::Blue, false);
    out.change_visuals(blue);
    out.clear();
    // cursor stays where printing left it: clearing does not reset it
    assert_eq!(out.cursor_row(), 1);
    assert_eq!(out.cursor_column(), 4);
    for row in 0..25 {
        for col in 0..80 {
            assert_eq!(out.cell_at(row, col), 0x1f00);
        }
    }
}

#[test]
fn unprintable_bytes_render_as_fe() {
    let mut out = Output::new();
    out.print_bytes(&[0x01, 0xff, 0x1f, 0x7f]);
    for col in 0..4 {
        assert_eq!(out.cell_at(0, col), default_cell(0xfe));
    }
    assert_eq!(out.cursor_column(), 4);
}

#[test]
fn changed_visuals_touch_only_later_writes() {
    let mut out = Output::new();
    out.print("A");
    let loud = Visuals::new(Color::Yellow, Color::Blue, true);
    out.change_visuals(loud);
    out.print("B");
    assert_eq!(out.cell_at(0, 0), default_cell(b'A'));
    let second = out.cell_at(0, 1);
    assert_eq!((second & 0xff) as u8, b'B');
    assert_eq!((second >> 8) as u8, loud.get_color_code());
}

#[test]
fn locked_prints_do_not_interleave() {
    // the synchronized handle serializes access: two independent calls
    // leave their bytes contiguous in buffer order
    let handle: spin::Mutex<Output> = spin::Mutex::new(Output::new());
    {
        let mut guard = handle.lock();
        guard.print("AAA");
    }
    {
        let mut guard = handle.lock();
        guard.print("BBB");
    }
    let guard = handle.lock();
    for col in 0..3 {
        assert_eq!(guard.cell_at(0, col), default_cell(b'A'));
    }
    for col in 3..6 {
        assert_eq!(guard.cell_at(0, col), default_cell(b'B'));
    }
    assert_eq!(guard.cursor_column(), 6);
}

struct Probe;

impl zita_os::Testable for Probe {
    fn run(&self) {}
}

#[test]
fn testable_trait_is_usable_by_a_harness() {
    let checks: [&dyn zita_os::Testable; 1] = [&Probe];
    for check in checks {
        check.run();
    }
}
