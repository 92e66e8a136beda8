use ssh_t::terminal::ScreenBuffer;

/// Feeds decoded terminal actions into a screen buffer.
struct Feed<'a>(&'a mut ScreenBuffer);

impl vte::Perform for Feed<'_> {
    fn print(&mut self, c: char) {
        self.0.print(c);
    }

    fn execute(&mut self, byte: u8) {
        self.0.execute(byte);
    }

    fn csi_dispatch(&mut self, params: &vte::Params, _intermediates: &[u8], _ignore: bool, action: char) {
        let values: Vec<u16> = params.iter().map(|p| p.first().copied().unwrap_or(0)).collect();
        self.0.csi_dispatch(&values, action);
    }
}

struct TermScreen {
    parser: vte::Parser,
    buffer: ScreenBuffer,
}

impl TermScreen {
    fn new(max_lines: usize) -> Self {
        TermScreen { parser: vte::Parser::new(), buffer: ScreenBuffer::new(max_lines) }
    }

    fn process(&mut self, data: &[u8]) {
        let mut feed = Feed(&mut self.buffer);
        self.parser.advance(&mut feed, data);
    }

    fn get_visible_lines(&self, height: usize) -> Vec<String> {
        self.buffer.get_visible_lines(height)
    }
}

#[test]
fn keeps_parser_state_across_chunks() {
    let mut screen = TermScreen::new(10);
    screen.process(b"\x1b[2");
    screen.process(b"Kabc");

    assert_eq!(screen.get_visible_lines(1), vec!["abc".to_string()]);
}

#[test]
fn redraws_line_after_carriage_return_and_clear() {
    let mut screen = TermScreen::new(10);
    screen.process(b"prompt> \r");
    screen.process(b"\x1b[2Kprompt> ls");

    assert_eq!(screen.get_visible_lines(1), vec!["prompt> ls".to_string()]);
}

#[test]
fn preserves_current_input_on_same_line() {
    let mut screen = TermScreen::new(10);
    screen.process(b"user@host:~$ ");
    screen.process(b"ls");

    assert_eq!(screen.get_visible_lines(1), vec!["user@host:~$ ls".to_string()]);
}

#[test]
fn supports_delete_char_from_cursor() {
    let mut screen = TermScreen::new(10);
    screen.process(b"abcd");
    screen.process(b"\x1b[2D");
    screen.process(b"\x1b[P");

    assert_eq!(screen.get_visible_lines(1), vec!["abd".to_string()]);
}

#[test]
fn supports_insert_char_in_middle() {
    let mut screen = TermScreen::new(10);
    screen.process(b"abc");
    screen.process(b"\x1b[2D");
    screen.process(b"\x1b[@");
    screen.process(b"X");

    assert_eq!(screen.get_visible_lines(1), vec!["aXbc".to_string()]);
}

#[test]
fn keeps_cjk_input_visible() {
    let mut screen = TermScreen::new(10);
    screen.process("中文命令".as_bytes());

    assert_eq!(screen.get_visible_lines(1), vec!["中文命令".to_string()]);
}

#[test]
fn insert_then_delete_restores_line() {
    let mut screen = TermScreen::new(10);
    screen.process(b"hello");
    screen.process(b"\x1b[3D");
    screen.process(b"\x1b[2@");
    screen.process(b"\x1b[2P");
    assert_eq!(screen.get_visible_lines(1), vec!["hello".to_string()]);
}

#[test]
fn scrollback_keeps_at_most_max_lines() {
    let mut screen = TermScreen::new(3);
    screen.process(b"a\nb\nc\nd\ne");
    assert_eq!(screen.buffer.line_count(), 3);
    assert_eq!(
        screen.get_visible_lines(5),
        vec!["c".to_string(), "d".to_string(), "e".to_string()]
    );
    assert_eq!(screen.buffer.cursor_row(), 2);
}

#[test]
fn tab_moves_to_next_stop_and_backspace_deletes() {
    let mut screen = TermScreen::new(10);
    screen.process(b"ab\tc");
    assert_eq!(screen.get_visible_lines(1), vec!["ab  c".to_string()]);
    screen.process(b"\x08");
    assert_eq!(screen.get_visible_lines(1), vec!["ab  ".to_string()]);
}

#[test]
fn erase_modes_and_clear() {
    let mut screen = TermScreen::new(10);
    screen.process(b"abcdef\x1b[3G\x1b[K");
    assert_eq!(screen.get_visible_lines(1), vec!["ab".to_string()]);
    screen.process(b"\x1b[1K");
    assert_eq!(screen.get_visible_lines(1), vec!["  ".to_string()]);
    screen.process(b"x\ny\x1b[2J");
    assert_eq!(screen.buffer.line_count(), 1);
    assert_eq!(screen.get_visible_lines(3), vec!["".to_string()]);
}

#[test]
fn cursor_position_and_erase_chars() {
    let mut screen = TermScreen::new(10);
    screen.process(b"\x1b[2;3Hz");
    assert_eq!(screen.get_visible_lines(2), vec!["".to_string(), "  z".to_string()]);
    screen.process(b"\x1b[1;1H12345\x1b[1;2H\x1b[2X");
    assert_eq!(screen.get_visible_lines(2), vec!["1  45".to_string(), "  z".to_string()]);
}

fn retained_bytes(screen: &TermScreen) -> usize {
    screen.get_visible_lines(usize::MAX).iter().map(|l| l.len()).sum()
}

#[test]
fn one_long_line_is_cut_to_the_text_budget() {
    let mut screen = TermScreen::new(5000);
    let data = vec![b'x'; 102401];
    screen.process(&data);

    assert_eq!(retained_bytes(&screen), 100 * 1024);
    assert_eq!(screen.get_visible_lines(1), vec!["x".repeat(102400)]);
    assert!(screen.buffer.is_well_formed());
}

#[test]
fn multibyte_text_is_counted_in_utf8_bytes() {
    let mut screen = TermScreen::new(5000);
    let data = "é".repeat(60000);
    screen.process(data.as_bytes());

    assert_eq!(retained_bytes(&screen), 100 * 1024);
    assert_eq!(screen.get_visible_lines(1), vec!["é".repeat(51200)]);
}

#[test]
fn text_over_budget_drops_the_oldest_lines() {
    let mut screen = TermScreen::new(5000);
    let line = "y".repeat(1000);
    for _ in 0..150 {
        screen.process(line.as_bytes());
        screen.process(b"\r\n");
    }
    screen.process(b"last");

    let lines = screen.get_visible_lines(usize::MAX);
    assert!(retained_bytes(&screen) <= 100 * 1024);
    assert_eq!(lines.len(), 103);
    assert_eq!(lines[lines.len() - 1], "last");
    assert_eq!(lines[0], line);
    assert_eq!(screen.buffer.cursor_row(), 102);
    assert!(screen.buffer.is_well_formed());
}

#[test]
fn any_output_keeps_the_retained_text_within_100_kib() {
    let mut screen = TermScreen::new(5000);
    let mut data = Vec::new();
    for i in 0..10000u32 {
        data.extend_from_slice(format!("line {} ünïcødé\x1b[K\r\n", i).as_bytes());
    }
    screen.process(&data);

    assert!(retained_bytes(&screen) <= 100 * 1024);
    assert!(screen.buffer.line_count() <= 5000);
    assert!(screen.buffer.is_well_formed());
}
