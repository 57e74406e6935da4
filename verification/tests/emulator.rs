use zellij::cell::{Attrs, Cell, Color, Pen};
use zellij::emulator::{ChangedLine, CursorShape, Emulator, SCROLLBACK_LINES};
use zellij::grid::Grid;
use zellij::parser::{Event, Parser, Phase, REPLACEMENT};

fn fed(rows: u16, cols: u16, bytes: &[u8]) -> Emulator {
    let mut e = Emulator::new(rows, cols);
    e.feed(bytes);
    e
}

fn text(line: &[Cell]) -> String {
    line.iter().map(|c| c.ch).collect::<String>().trim_end().to_string()
}

fn row(e: &Emulator, r: usize) -> String {
    text(&e.lines.lines[r])
}

fn screen(e: &Emulator) -> Vec<String> {
    (0..e.rows() as usize).map(|r| row(e, r)).collect()
}

fn plain() -> Attrs {
    Attrs {
        bold: false,
        dim: false,
        italic: false,
        underline: false,
        blink: false,
        reverse: false,
        hidden: false,
        strike: false,
    }
}

#[test]
fn a_fresh_emulator_is_blank() {
    let e = Emulator::new(3, 4);
    assert_eq!(e.rows(), 3);
    assert_eq!(e.cols(), 4);
    assert_eq!(screen(&e), vec!["", "", ""]);
    assert_eq!(e.lines.lines[2][3], Cell::blank());
    assert_eq!((e.cursor.row, e.cursor.col), (0, 0));
    assert!(e.cursor.visible);
    assert_eq!(e.cursor.shape, CursorShape::Block);
    assert!(e.modes.wrap && !e.modes.insert && !e.modes.origin);
    assert_eq!((e.top, e.bottom), (0, 2));
    assert_eq!(e.limit, SCROLLBACK_LINES);
    assert_eq!(SCROLLBACK_LINES, 10000);
    assert_eq!(e.scrollback.len(), 0);
    assert!(!e.alternate);
    assert_eq!(e.parser.dropped, 0);
}

#[test]
fn printing_moves_the_cursor() {
    let e = fed(3, 10, b"hello");
    assert_eq!(row(&e, 0), "hello");
    assert_eq!((e.cursor.row, e.cursor.col), (0, 5));
}

#[test]
fn printing_wraps_at_the_last_column() {
    let e = fed(3, 5, b"abcdefg");
    assert_eq!(screen(&e), vec!["abcde", "fg", ""]);
    assert_eq!((e.cursor.row, e.cursor.col), (1, 2));
}

#[test]
fn the_wrap_waits_for_the_next_character() {
    let e = fed(3, 5, b"abcde");
    assert_eq!((e.cursor.row, e.cursor.col), (0, 4));
    assert!(e.wrap_pending);
    let e = fed(3, 5, b"abcde\r\nx");
    assert_eq!(screen(&e), vec!["abcde", "x", ""]);
}

#[test]
fn without_wrap_the_last_column_is_overwritten() {
    let e = fed(3, 5, b"\x1b[?7labcdefg");
    assert_eq!(screen(&e), vec!["abcdg", "", ""]);
    assert!(!e.modes.wrap);
    let e = fed(3, 5, b"\x1b[?7l\x1b[?7habcdefg");
    assert_eq!(screen(&e), vec!["abcde", "fg", ""]);
}

#[test]
fn line_feed_scrolls_at_the_bottom() {
    let e = fed(2, 5, b"1\r\n2\r\n3");
    assert_eq!(screen(&e), vec!["2", "3"]);
    assert_eq!(e.scrollback.len(), 1);
    assert_eq!(text(&e.scrollback.lines[0]), "1");
    assert_eq!((e.cursor.row, e.cursor.col), (1, 1));
}

#[test]
fn line_feed_keeps_the_column() {
    let e = fed(3, 5, b"ab\ncd\x0be");
    assert_eq!(screen(&e), vec!["ab", "  cd", "    e"]);
    let e = fed(3, 9, b"ab\x0ccd");
    assert_eq!(screen(&e), vec!["ab", "  cd", ""]);
}

#[test]
fn scrollback_drops_the_oldest_line_at_its_limit() {
    let mut e = Emulator::new(1, 3);
    e.limit = 2;
    e.feed(b"a\r\nb\r\nc\r\nd");
    assert_eq!(screen(&e), vec!["d"]);
    assert_eq!(e.scrollback.len(), 2);
    assert_eq!(text(&e.scrollback.lines[0]), "b");
    assert_eq!(text(&e.scrollback.lines[1]), "c");
    let mut e = Emulator::new(1, 3);
    e.limit = 0;
    e.feed(b"a\r\nb");
    assert_eq!(e.scrollback.len(), 0);
}

#[test]
fn carriage_return_backspace_and_tab() {
    let e = fed(2, 20, b"abc\rX");
    assert_eq!(row(&e, 0), "Xbc");
    let e = fed(2, 20, b"abc\x08\x08X");
    assert_eq!(row(&e, 0), "aXc");
    let e = fed(2, 20, b"\x08a");
    assert_eq!(row(&e, 0), "a");
    let e = fed(2, 20, b"a\tb\tc");
    assert_eq!(row(&e, 0), "a       b       c");
    let e = fed(2, 20, b"\t\t\t\tz");
    assert_eq!((e.cursor.row, e.cursor.col), (0, 19));
    assert_eq!(e.lines.lines[0][19].ch, 'z');
}

#[test]
fn the_bell_rings_until_the_next_frame() {
    let mut e = fed(2, 5, b"a\x07");
    assert!(e.rang());
    e.render_changed_lines();
    assert!(!e.rang());
}

#[test]
fn cursor_position() {
    let e = fed(5, 10, b"\x1b[2;3HX");
    assert_eq!(e.lines.lines[1][2].ch, 'X');
    let e = fed(5, 10, b"\x1b[4;1fY");
    assert_eq!(e.lines.lines[3][0].ch, 'Y');
    let e = fed(5, 10, b"abc\x1b[HZ");
    assert_eq!(row(&e, 0), "Zbc");
    let e = fed(5, 10, b"\x1b[99;99H");
    assert_eq!((e.cursor.row, e.cursor.col), (4, 9));
    let e = fed(5, 10, b"\x1b[;5H");
    assert_eq!((e.cursor.row, e.cursor.col), (0, 4));
}

#[test]
fn cursor_movement_stops_at_the_edges() {
    let e = fed(5, 10, b"\x1b[3;4H\x1b[A");
    assert_eq!((e.cursor.row, e.cursor.col), (1, 3));
    let e = fed(5, 10, b"\x1b[3;4H\x1b[2B");
    assert_eq!((e.cursor.row, e.cursor.col), (4, 3));
    let e = fed(5, 10, b"\x1b[3;4H\x1b[3C");
    assert_eq!((e.cursor.row, e.cursor.col), (2, 6));
    let e = fed(5, 10, b"\x1b[3;4H\x1b[0D");
    assert_eq!((e.cursor.row, e.cursor.col), (2, 2));
    let e = fed(5, 10, b"\x1b[3;4H\x1b[99A\x1b[99D");
    assert_eq!((e.cursor.row, e.cursor.col), (0, 0));
    let e = fed(5, 10, b"\x1b[3;4H\x1b[9999B\x1b[9999C");
    assert_eq!((e.cursor.row, e.cursor.col), (4, 9));
}

#[test]
fn erase_in_display() {
    let full = b"aaaaa\r\nbbbbb\r\nccccc\x1b[2;3H";
    let mut bytes = full.to_vec();
    bytes.extend_from_slice(b"\x1b[J");
    assert_eq!(screen(&fed(3, 5, &bytes)), vec!["aaaaa", "bb", ""]);
    let mut bytes = full.to_vec();
    bytes.extend_from_slice(b"\x1b[1J");
    assert_eq!(screen(&fed(3, 5, &bytes)), vec!["", "   bb", "ccccc"]);
    let mut bytes = full.to_vec();
    bytes.extend_from_slice(b"\x1b[2J");
    let e = fed(3, 5, &bytes);
    assert_eq!(screen(&e), vec!["", "", ""]);
    assert_eq!((e.cursor.row, e.cursor.col), (1, 2));
}

#[test]
fn erase_with_the_scrollback() {
    let e = fed(1, 5, b"a\r\nb\x1b[2J");
    assert_eq!(e.scrollback.len(), 1);
    let e = fed(1, 5, b"a\r\nb\x1b[3J");
    assert_eq!(e.scrollback.len(), 0);
    assert_eq!(screen(&e), vec![""]);
    let e = fed(1, 5, b"ab\x1b[4J");
    assert_eq!(screen(&e), vec!["ab"]);
    assert_eq!(e.parser.dropped, 1);
}

#[test]
fn erase_in_line() {
    assert_eq!(row(&fed(2, 5, b"abcde\x1b[1;3H\x1b[K"), 0), "ab");
    assert_eq!(row(&fed(2, 5, b"abcde\x1b[1;3H\x1b[0K"), 0), "ab");
    assert_eq!(row(&fed(2, 5, b"abcde\x1b[1;3H\x1b[1K"), 0), "   de");
    assert_eq!(row(&fed(2, 5, b"abcde\x1b[1;3H\x1b[2K"), 0), "");
    let e = fed(2, 5, b"abcde\x1b[1;3H\x1b[3K");
    assert_eq!(row(&e, 0), "abcde");
    assert_eq!(e.parser.dropped, 1);
}

#[test]
fn graphic_rendition() {
    let e = fed(1, 10, b"\x1b[1;31;44mA\x1b[0mB\x1b[mC");
    let a = e.lines.lines[0][0];
    assert_eq!(a.ch, 'A');
    assert_eq!(a.fg, Color::Indexed(1));
    assert_eq!(a.bg, Color::Indexed(4));
    assert_eq!(a.attrs, Attrs { bold: true, ..plain() });
    assert_eq!(e.lines.lines[0][1], Cell { ch: 'B', fg: Color::Default, bg: Color::Default, attrs: plain() });
    assert_eq!(e.lines.lines[0][2].attrs, plain());
}

#[test]
fn graphic_rendition_attributes() {
    let e = fed(1, 10, b"\x1b[2;3;4;5;7;8;9mA\x1b[22;23;24;25;27;28;29mB");
    assert_eq!(
        e.lines.lines[0][0].attrs,
        Attrs {
            bold: false,
            dim: true,
            italic: true,
            underline: true,
            blink: true,
            reverse: true,
            hidden: true,
            strike: true,
        }
    );
    assert_eq!(e.lines.lines[0][1].attrs, plain());
}

#[test]
fn graphic_rendition_colours() {
    let e = fed(1, 10, b"\x1b[38;5;200mA\x1b[48;2;1;2;300mB\x1b[39;49mC\x1b[97;100mD");
    assert_eq!(e.lines.lines[0][0].fg, Color::Indexed(200));
    assert_eq!(e.lines.lines[0][1].bg, Color::Rgb(1, 2, 255));
    assert_eq!(e.lines.lines[0][1].fg, Color::Indexed(200));
    assert_eq!(e.lines.lines[0][2].fg, Color::Default);
    assert_eq!(e.lines.lines[0][2].bg, Color::Default);
    assert_eq!(e.lines.lines[0][3].fg, Color::Indexed(15));
    assert_eq!(e.lines.lines[0][3].bg, Color::Indexed(8));
    let e = fed(1, 10, b"\x1b[38;5mA\x1b[1mB");
    assert_eq!(e.lines.lines[0][0].fg, Color::Default);
    assert!(e.lines.lines[0][1].attrs.bold);
    assert_eq!(e.pen, Pen { fg: Color::Default, bg: Color::Default, attrs: Attrs { bold: true, ..plain() } });
}

#[test]
fn scroll_region() {
    let e = fed(4, 5, b"a\r\nb\r\nc\r\nd\x1b[2;3r");
    assert_eq!((e.top, e.bottom), (1, 2));
    assert_eq!((e.cursor.row, e.cursor.col), (0, 0));
    let e = fed(4, 5, b"a\r\nb\r\nc\r\nd\x1b[2;3r\x1b[3;1H\nx");
    assert_eq!(screen(&e), vec!["a", "c", "x", "d"]);
    assert_eq!(e.scrollback.len(), 0);
    let e = fed(4, 5, b"\x1b[3;2r");
    assert_eq!((e.top, e.bottom), (0, 3));
    let e = fed(4, 5, b"\x1b[2;9r");
    assert_eq!((e.top, e.bottom), (0, 3));
    let e = fed(4, 5, b"\x1b[2r");
    assert_eq!((e.top, e.bottom), (1, 3));
}

#[test]
fn origin_mode_counts_from_the_region() {
    let e = fed(5, 5, b"\x1b[2;4r\x1b[?6h");
    assert_eq!((e.cursor.row, e.cursor.col), (1, 0));
    let e = fed(5, 5, b"\x1b[2;4r\x1b[?6h\x1b[2;2HX");
    assert_eq!(e.lines.lines[2][1].ch, 'X');
    let e = fed(5, 5, b"\x1b[2;4r\x1b[?6h\x1b[9;1H");
    assert_eq!(e.cursor.row, 3);
    let e = fed(5, 5, b"\x1b[2;4r\x1b[?6h\x1b[?6l");
    assert_eq!((e.cursor.row, e.cursor.col), (0, 0));
}

#[test]
fn reverse_index_scrolls_down_at_the_top() {
    let e = fed(3, 5, b"a\r\nb\x1b[H\x1bMx");
    assert_eq!(screen(&e), vec!["x", "a", "b"]);
    let e = fed(3, 5, b"a\r\nb\x1bMx");
    assert_eq!(screen(&e), vec!["ax", "b", ""]);
}

#[test]
fn index_and_next_line() {
    let e = fed(3, 5, b"ab\x1bDc\x1bEd");
    assert_eq!(screen(&e), vec!["ab", "  c", "d"]);
}

#[test]
fn save_and_restore_the_cursor() {
    let e = fed(3, 5, b"\x1b[2;3H\x1b[1m\x1b7\x1b[H\x1b[0m\x1b8X");
    assert_eq!(e.lines.lines[1][2].ch, 'X');
    assert!(e.lines.lines[1][2].attrs.bold);
    let e = fed(3, 5, b"\x1b[2;3H\x1b[s\x1b[H\x1b[uX");
    assert_eq!(e.lines.lines[1][2].ch, 'X');
}

#[test]
fn modes() {
    let e = fed(3, 5, b"\x1b[?25l");
    assert!(!e.cursor.visible);
    let e = fed(3, 5, b"\x1b[?25l\x1b[?25h");
    assert!(e.cursor.visible);
    let e = fed(3, 5, b"\x1b[?1h");
    assert!(e.modes.cursor_keys);
    let e = fed(3, 5, b"\x1b[?1000h");
    assert!(e.modes.mouse);
    let e = fed(3, 5, b"\x1b=");
    assert!(e.modes.keypad);
    let e = fed(3, 5, b"\x1b=\x1b>");
    assert!(!e.modes.keypad);
    let e = fed(3, 5, b"\x1b[?1;25;7l\x1b[?1h");
    assert!(e.modes.cursor_keys && !e.cursor.visible && !e.modes.wrap);
}

#[test]
fn insert_mode_pushes_the_line_right() {
    let e = fed(2, 5, b"abcde\r\x1b[4hXY");
    assert_eq!(row(&e, 0), "XYabc");
    let e = fed(2, 5, b"abcde\r\x1b[4h\x1b[4lXY");
    assert_eq!(row(&e, 0), "XYcde");
}

#[test]
fn alternate_screen() {
    let mut e = fed(2, 5, b"main\x1b[?1049h");
    assert!(e.alternate);
    assert_eq!(screen(&e), vec!["", ""]);
    e.feed(b"\x1b[Halt\r\n1\r\n2");
    assert_eq!(screen(&e), vec!["1", "2"]);
    assert_eq!(e.scrollback.len(), 0);
    e.feed(b"\x1b[?1049l");
    assert!(!e.alternate);
    assert_eq!(screen(&e), vec!["main", ""]);
    assert_eq!((e.cursor.row, e.cursor.col), (0, 4));
    for code in ["47", "1047"] {
        let mut e = fed(2, 5, b"m");
        e.feed(format!("\x1b[?{}h", code).as_bytes());
        assert!(e.alternate);
        e.feed(format!("\x1b[?{}l", code).as_bytes());
        assert!(!e.alternate);
        assert_eq!(row(&e, 0), "m");
    }
}

#[test]
fn reset() {
    let e = fed(2, 5, b"ab\x1b[1m\x1b[?7l\x1b[2;2H\x1b]0;t\x07\x1bc");
    assert_eq!(screen(&e), vec!["", ""]);
    assert_eq!((e.cursor.row, e.cursor.col), (0, 0));
    assert!(e.modes.wrap);
    assert_eq!(e.pen.attrs, plain());
    assert_eq!(e.title, b"t".to_vec());
}

#[test]
fn title() {
    assert_eq!(fed(2, 5, b"\x1b]0;hello\x07").title, b"hello".to_vec());
    assert_eq!(fed(2, 5, b"\x1b]2;hi there\x1b\\").title, b"hi there".to_vec());
    assert_eq!(fed(2, 5, b"\x1b]0;\x07").title, Vec::<u8>::new());
    let e = fed(2, 5, b"\x1b]0;a\x07\x1b]1;icon\x07x");
    assert_eq!(e.title, b"a".to_vec());
    assert_eq!(e.parser.dropped, 1);
    assert_eq!(row(&e, 0), "x");
    let e = fed(2, 5, b"\x1b]0;ab\x18cd");
    assert_eq!(e.title, Vec::<u8>::new());
    assert_eq!(row(&e, 0), "cd");
    assert_eq!(e.parser.dropped, 1);
}

#[test]
fn unknown_sequences_are_dropped_and_counted() {
    let e = fed(2, 5, b"a\x1b[5Zb\x1bqc\x1b[?9999hd\x1b[?5Ze\x1b[ 1qf");
    assert_eq!(row(&e, 0), "abcde");
    assert_eq!(row(&e, 1), "f");
    assert_eq!(e.parser.dropped, 5);
    let e = fed(2, 5, b"\x1b[9h\x1b[4;9l");
    assert_eq!(e.parser.dropped, 2);
}

#[test]
fn an_escape_inside_a_sequence_starts_over() {
    let e = fed(2, 5, b"\x1b[1\x1b[2;2HX");
    assert_eq!(e.lines.lines[1][1].ch, 'X');
    assert_eq!(e.parser.dropped, 1);
    let e = fed(2, 5, b"\x1b[1\x18X");
    assert_eq!(row(&e, 0), "X");
    assert_eq!(e.parser.dropped, 1);
}

#[test]
fn utf8_text() {
    let e = fed(1, 10, "aé€😀z".as_bytes());
    let chars: Vec<char> = e.lines.lines[0].iter().map(|c| c.ch).collect();
    assert_eq!(&chars[..5], &['a', 'é', '€', '😀', 'z']);
    assert_eq!(e.parser.dropped, 0);
    assert_eq!(e.cursor.col, 5);
}

#[test]
fn utf8_cut_into_chunks() {
    let bytes = "€😀".as_bytes();
    let mut e = Emulator::new(1, 10);
    for b in bytes {
        e.feed(&[*b]);
    }
    assert_eq!(e.lines.lines[0][0].ch, '€');
    assert_eq!(e.lines.lines[0][1].ch, '😀');
}

#[test]
fn bytes_that_are_no_utf8() {
    let e = fed(1, 10, &[0xc3, 0x41]);
    assert_eq!(row(&e, 0), "A");
    assert_eq!(e.parser.dropped, 1);
    let e = fed(1, 10, &[0x80, b'x']);
    assert_eq!(e.lines.lines[0][0].ch, REPLACEMENT);
    assert_eq!(e.lines.lines[0][1].ch, 'x');
    let e = fed(1, 10, &[0xe0, 0x80, 0x80]);
    assert_eq!(e.lines.lines[0][0].ch, REPLACEMENT);
    let e = fed(1, 10, &[0xed, 0xa0, 0x80]);
    assert_eq!(e.lines.lines[0][0].ch, REPLACEMENT);
    let e = fed(1, 10, &[0xf4, 0x90, 0x80, 0x80]);
    assert_eq!(e.lines.lines[0][0].ch, REPLACEMENT);
    let e = fed(1, 10, &[0xff, 0xc0, 0xf5]);
    assert_eq!(row(&e, 0), "\u{fffd}\u{fffd}\u{fffd}");
    assert_eq!(REPLACEMENT, '\u{fffd}');
}

#[test]
fn resize_keeps_what_fits() {
    let mut e = fed(2, 5, b"abcde\r\nfgh\x1b[2;5H");
    e.resize(3, 3);
    assert_eq!(screen(&e), vec!["abc", "fgh", ""]);
    assert_eq!((e.rows(), e.cols()), (3, 3));
    assert_eq!((e.cursor.row, e.cursor.col), (1, 2));
    assert_eq!((e.top, e.bottom), (0, 2));
    e.resize(1, 6);
    assert_eq!(screen(&e), vec!["abc"]);
    assert_eq!((e.cursor.row, e.cursor.col), (0, 2));
    e.resize(0, 0);
    assert_eq!(screen(&e), Vec::<String>::new());
    e.feed(b"xyz\r\n\x1b[2J\x1b[5;5H");
    assert_eq!((e.cursor.row, e.cursor.col), (0, 0));
    e.resize(1, 2);
    assert_eq!(screen(&e), vec![""]);
}

#[test]
fn resize_to_the_same_size_changes_nothing() {
    let mut e = fed(4, 5, b"ab\x1b[2;3r\x1b[3;3H");
    e.render_changed_lines();
    e.feed(b"x");
    e.resize(4, 5);
    assert_eq!((e.top, e.bottom), (1, 2));
    assert_eq!(e.render_changed_lines().len(), 1);
}

#[test]
fn a_frame_holds_the_lines_that_changed() {
    let mut e = fed(3, 3, b"a\r\n\r\nc");
    let frame = e.render_changed_lines();
    assert_eq!(frame.len(), 2);
    assert_eq!(frame[0].row, 0);
    assert_eq!(text(&frame[0].cells), "a");
    assert_eq!(frame[0].cells.len(), 3);
    assert_eq!(frame[1].row, 2);
    assert_eq!(text(&frame[1].cells), "c");
    assert_eq!(e.render_changed_lines(), Vec::<ChangedLine>::new());
    e.feed(b"\x1b[2;1Hb");
    let frame = e.render_changed_lines();
    assert_eq!(frame.len(), 1);
    assert_eq!(frame[0].row, 1);
    e.feed(b"\x1b[2;1Hb\x1b[1;1Ha");
    assert_eq!(e.render_changed_lines().len(), 0);
}

#[test]
fn chunks_give_the_same_frame_as_the_whole() {
    let stream = "ab\x1b[1;31mc\r\n\x1b[2Jd€\x1b]0;t\x07\x1b[5;5Hzzzzzzzzzzz\x1b[?1049hq".as_bytes();
    for cut in [1usize, 2, 3, 5, 7, stream.len()] {
        let mut whole = Emulator::new(4, 6);
        whole.feed(stream);
        let mut parts = Emulator::new(4, 6);
        for chunk in stream.chunks(cut) {
            parts.feed(chunk);
        }
        assert_eq!(parts.lines.lines, whole.lines.lines);
        assert_eq!(parts.other.lines, whole.other.lines);
        assert_eq!(parts.scrollback.lines, whole.scrollback.lines);
        assert_eq!(parts.cursor, whole.cursor);
        assert_eq!(parts.title, whole.title);
        assert_eq!(parts.render_changed_lines(), whole.render_changed_lines());
    }
}

#[test]
fn an_emulator_without_cells_takes_bytes() {
    let mut e = Emulator::new(0, 5);
    e.feed(b"abc\r\n\x1b[2J\x1b[K\x1b[5;5H\x1b[A\x1bM\x1b[?1049h\x1b]0;t\x07\t\x08");
    assert_eq!(e.title, b"t".to_vec());
    assert_eq!(e.render_changed_lines().len(), 0);
    let mut e = Emulator::new(5, 0);
    e.feed(b"abc\r\n\x1b[2J\x1b[K\x1b[5;5H\x1b[B\x1bD");
    assert_eq!(e.render_changed_lines().len(), 0);
}

#[test]
fn parser_events() {
    let mut p = Parser::new();
    assert_eq!(p.advance(b'a'), Event::Print('a'));
    assert_eq!(p.advance(0x0d), Event::Control(0x0d));
    assert_eq!(p.advance(0x7f), Event::Control(0x7f));
    assert_eq!(p.advance(0x1b), Event::Nothing);
    assert_eq!(p.phase, Phase::Escape);
    assert_eq!(p.advance(b'M'), Event::Escape(b'M'));
    assert_eq!(p.phase, Phase::Ground);
    for b in b"\x1b[12;;345" {
        assert_eq!(p.advance(*b), Event::Nothing);
    }
    assert_eq!(p.phase, Phase::Csi);
    assert_eq!(p.advance(b'H'), Event::Csi(b'H'));
    assert_eq!(p.params, vec![12, 0, 345]);
    assert_eq!((p.param(0), p.param(1), p.param(2), p.param(3)), (12, 0, 345, 0));
    assert!(!p.private);
    for b in b"\x1b[?25" {
        p.advance(*b);
    }
    assert_eq!(p.advance(b'l'), Event::Csi(b'l'));
    assert!(p.private);
    assert_eq!(p.params, vec![25]);
    for b in b"\x1b]0;x" {
        assert_eq!(p.advance(*b), Event::Nothing);
    }
    assert_eq!(p.phase, Phase::Osc);
    assert_eq!(p.advance(0x07), Event::Osc);
    assert_eq!(p.text, b"0;x".to_vec());
    assert_eq!(p.dropped, 0);
}

#[test]
fn parser_limits() {
    let mut p = Parser::new();
    for b in b"\x1b[123456789" {
        p.advance(*b);
    }
    assert_eq!(p.params, vec![9999]);
    let mut p = Parser::new();
    p.advance(0x1b);
    p.advance(b'[');
    for _ in 0..40 {
        p.advance(b'7');
        p.advance(b';');
    }
    assert_eq!(p.advance(b'm'), Event::Csi(b'm'));
    assert_eq!(p.params.len(), 16);
    assert_eq!(p.params[15], 7);
    let mut p = Parser::new();
    p.advance(0x1b);
    p.advance(b']');
    for _ in 0..2000 {
        p.advance(b'x');
    }
    assert_eq!(p.advance(0x07), Event::Osc);
    assert_eq!(p.text.len(), 1024);
}

#[test]
fn grid_operations() {
    let mut g = Grid::new(3, 4);
    assert_eq!(g.len(), 3);
    let x = Cell::draw('x', Pen::reset());
    g.put(1, 2, x);
    assert_eq!(g.get(1, 2), x);
    assert_eq!(g.get(1, 1), Cell::blank());
    g.fill(0, 1, 3, x);
    assert_eq!(text(&g.lines[0]), " xx");
    g.insert(0, 0, Cell::draw('y', Pen::reset()));
    assert_eq!(text(&g.lines[0]), "y xx");
    let gone = g.scroll_up(0, 1, 4);
    assert_eq!(text(&gone), "y xx");
    assert_eq!(text(&g.lines[0]), "  x");
    assert_eq!(text(&g.lines[1]), "");
    g.scroll_down(0, 2, 4);
    assert_eq!(text(&g.lines[0]), "");
    assert_eq!(text(&g.lines[1]), "  x");
    let copy = g.copy();
    assert_eq!(copy.lines, g.lines);
    let small = g.fit(2, 3);
    assert_eq!(small.lines.len(), 2);
    assert_eq!(text(&small.lines[1]), "  x");
    g.clear(0, 3, 4);
    assert_eq!(g.lines, Grid::new(3, 4).lines);
}
