//! Keyboard and mouse input as the application sees it, and the bytes a key
//! sends to a remote terminal.

use vstd::prelude::*;
use crate::text::{string_push, utf8_bytes};

verus! {

/// A key.
#[derive(Debug, Clone, Copy, PartialEq, Eq, Structural)]
pub enum KeyCode {
    Backspace,
    Enter,
    Left,
    Right,
    Up,
    Down,
    Home,
    End,
    PageUp,
    PageDown,
    Tab,
    BackTab,
    Delete,
    Insert,
    F(u8),
    Char(char),
    Esc,
    /// Any other key.
    Other,
}

/// The modifier keys held with a key.
#[derive(Debug, Clone, Copy, PartialEq, Eq, Structural)]
pub struct KeyModifiers {
    pub shift: bool,
    pub control: bool,
    pub alt: bool,
    pub super_key: bool,
    pub hyper: bool,
    pub meta: bool,
}

impl KeyModifiers {
    /// No modifier.
    pub fn none() -> (r: KeyModifiers)
        ensures
            no_modifiers(r),
    {
        KeyModifiers { shift: false, control: false, alt: false, super_key: false, hyper: false, meta: false }
    }

    /// Shift alone.
    pub fn shift() -> (r: KeyModifiers)
        ensures
            shift_only(r),
    {
        KeyModifiers { shift: true, control: false, alt: false, super_key: false, hyper: false, meta: false }
    }

    /// Control alone.
    pub fn control() -> (r: KeyModifiers)
        ensures
            control_only(r),
    {
        KeyModifiers { shift: false, control: true, alt: false, super_key: false, hyper: false, meta: false }
    }

    /// Alt alone.
    pub fn alt() -> (r: KeyModifiers)
        ensures
            r.alt && !r.shift && !r.control && !r.super_key && !r.hyper && !r.meta,
    {
        KeyModifiers { shift: false, control: false, alt: true, super_key: false, hyper: false, meta: false }
    }
}

/// Whether no modifier is held.
pub open spec fn no_modifiers(m: KeyModifiers) -> bool {
    !m.shift && !m.control && !m.alt && !m.super_key && !m.hyper && !m.meta
}

/// Whether exactly the control key is held.
pub open spec fn control_only(m: KeyModifiers) -> bool {
    !m.shift && m.control && !m.alt && !m.super_key && !m.hyper && !m.meta
}

/// Whether exactly the shift key is held.
pub open spec fn shift_only(m: KeyModifiers) -> bool {
    m.shift && !m.control && !m.alt && !m.super_key && !m.hyper && !m.meta
}

/// Whether no modifier is held.
pub fn is_plain(m: KeyModifiers) -> (r: bool)
    ensures
        r == no_modifiers(m),
{
    !m.shift && !m.control && !m.alt && !m.super_key && !m.hyper && !m.meta
}

/// Whether exactly the control key is held.
pub fn is_control_only(m: KeyModifiers) -> (r: bool)
    ensures
        r == control_only(m),
{
    !m.shift && m.control && !m.alt && !m.super_key && !m.hyper && !m.meta
}

/// Whether exactly the shift key is held.
pub fn is_shift_only(m: KeyModifiers) -> (r: bool)
    ensures
        r == shift_only(m),
{
    m.shift && !m.control && !m.alt && !m.super_key && !m.hyper && !m.meta
}

/// A key press.
#[derive(Debug, Clone, Copy, PartialEq, Eq, Structural)]
pub struct KeyEvent {
    pub code: KeyCode,
    pub modifiers: KeyModifiers,
}

impl KeyEvent {
    /// The key `code` pressed with `modifiers`.
    pub fn new(code: KeyCode, modifiers: KeyModifiers) -> (r: Self)
        ensures
            r.code == code,
            r.modifiers == modifiers,
    {
        KeyEvent { code, modifiers }
    }
}

/// What the mouse did.
#[derive(Debug, Clone, Copy, PartialEq, Eq, Structural)]
pub enum MouseEventKind {
    /// The left button went down.
    LeftDown,
    ScrollUp,
    ScrollDown,
    /// Anything else.
    Other,
}

/// A mouse event at a cell of the screen.
#[derive(Debug, Clone, Copy, PartialEq, Eq, Structural)]
pub struct MouseEvent {
    pub kind: MouseEventKind,
    pub column: u16,
    pub row: u16,
}

/// `c` in lower case when it is an ASCII letter (`char::to_ascii_lowercase`).
pub open spec fn ascii_lower(c: char) -> char {
    if 'A' <= c <= 'Z' { ((c as u32) + 32) as char } else { c }
}

/// Lowercases an ASCII letter.
pub fn to_ascii_lower(c: char) -> (r: char)
    ensures
        r == ascii_lower(c),
{
    if 'A' <= c && c <= 'Z' {
        let v: u32 = (c as u32) + 32;
        let r = char_from_ascii(v);
        r
    } else {
        c
    }
}

/// The character with an ASCII code.
fn char_from_ascii(v: u32) -> (r: char)
    requires
        v < 128,
    ensures
        r == v as char,
{
    (v as u8) as char
}

/// The UTF-8 bytes of `c`.
pub open spec fn char_bytes(c: char) -> Seq<u8> {
    vstd::utf8::encode_utf8(seq![c])
}

/// The escape sequence of a function key in an xterm terminal (empty for
/// keys beyond F12).
pub open spec fn function_key_sequence(n: u8) -> Seq<char> {
    if n == 1 { "\x1bOP"@ } else if n == 2 { "\x1bOQ"@ } else if n == 3 { "\x1bOR"@ } else if n == 4 { "\x1bOS"@ }
    else if n == 5 { "\x1b[15~"@ } else if n == 6 { "\x1b[17~"@ } else if n == 7 { "\x1b[18~"@ }
    else if n == 8 { "\x1b[19~"@ } else if n == 9 { "\x1b[20~"@ } else if n == 10 { "\x1b[21~"@ }
    else if n == 11 { "\x1b[23~"@ } else if n == 12 { "\x1b[24~"@ } else { Seq::empty() }
}

/// The bytes a key sends to a remote xterm-compatible shell, if any.
pub open spec fn key_bytes(key: KeyEvent) -> Option<Seq<u8>> {
    match key.code {
        KeyCode::Esc => Some(seq![0x1bu8]),
        KeyCode::Enter => Some(seq![0x0du8]),
        KeyCode::Backspace => Some(seq![0x7fu8]),
        KeyCode::Delete => Some(vstd::utf8::encode_utf8("\x1b[3~"@)),
        KeyCode::Left => Some(vstd::utf8::encode_utf8("\x1b[D"@)),
        KeyCode::Right => Some(vstd::utf8::encode_utf8("\x1b[C"@)),
        KeyCode::Up => Some(vstd::utf8::encode_utf8("\x1b[A"@)),
        KeyCode::Down => Some(vstd::utf8::encode_utf8("\x1b[B"@)),
        KeyCode::Home => Some(vstd::utf8::encode_utf8("\x1b[H"@)),
        KeyCode::End => Some(vstd::utf8::encode_utf8("\x1b[F"@)),
        KeyCode::PageUp => Some(vstd::utf8::encode_utf8("\x1b[5~"@)),
        KeyCode::PageDown => Some(vstd::utf8::encode_utf8("\x1b[6~"@)),
        KeyCode::Tab => Some(seq![0x09u8]),
        KeyCode::BackTab => Some(vstd::utf8::encode_utf8("\x1b[Z"@)),
        KeyCode::Char(c) => if key.modifiers.alt {
            Some(seq![0x1bu8] + char_bytes(c))
        } else if control_only(key.modifiers) {
            Some(seq![((c as u32) % 32) as u8])
        } else {
            Some(char_bytes(c))
        },
        KeyCode::F(n) => if 1 <= n <= 12 { Some(vstd::utf8::encode_utf8(function_key_sequence(n))) } else { None },
        _ => None,
    }
}

/// The xterm sequence `ESC [` followed by `tail`.
pub open spec fn csi_bytes(tail: Seq<u8>) -> Seq<u8> {
    seq![0x1bu8, 0x5bu8] + tail
}

proof fn lemma_ascii_literal(s: Seq<char>)
    requires
        forall|i: int| 0 <= i < s.len() ==> (#[trigger] s[i] as u32) < 0x80,
    ensures
        vstd::utf8::encode_utf8(s) == Seq::new(s.len(), |i: int| (s[i] as u32) as u8),
    decreases s.len(),
{
    if s.len() > 0 {
        lemma_ascii_literal(s.drop_first());
        let v = s[0] as u32;
        assert(v < 0x80);
        assert((v & 0x7F) as u8 == v as u8) by (bit_vector)
            requires
                v < 0x80,
        ;
        assert(vstd::utf8::encode_scalar(v) == seq![v as u8]);
        assert(vstd::utf8::encode_utf8(s) =~= Seq::new(s.len(), |i: int| (s[i] as u32) as u8));
    } else {
        assert(vstd::utf8::encode_utf8(s) =~= Seq::new(s.len(), |i: int| (s[i] as u32) as u8));
    }
}

/// The special keys send their xterm sequences, whatever modifiers are
/// held: the arrows `ESC [ A` (up), `B` (down), `C` (right) and `D`
/// (left), Home `ESC [ H`, End `ESC [ F`, Delete `ESC [ 3 ~`, Page Up and
/// Page Down `ESC [ 5 ~` and `ESC [ 6 ~`, Shift-Tab `ESC [ Z`; Escape,
/// Enter, Backspace and Tab send the single bytes 0x1b, 0x0d, 0x7f and 0x09.
pub proof fn special_keys_send_xterm_sequences(m: KeyModifiers)
    ensures
        key_bytes(KeyEvent { code: KeyCode::Up, modifiers: m }) == Some(csi_bytes(seq![0x41u8])),
        key_bytes(KeyEvent { code: KeyCode::Down, modifiers: m }) == Some(csi_bytes(seq![0x42u8])),
        key_bytes(KeyEvent { code: KeyCode::Right, modifiers: m }) == Some(csi_bytes(seq![0x43u8])),
        key_bytes(KeyEvent { code: KeyCode::Left, modifiers: m }) == Some(csi_bytes(seq![0x44u8])),
        key_bytes(KeyEvent { code: KeyCode::Home, modifiers: m }) == Some(csi_bytes(seq![0x48u8])),
        key_bytes(KeyEvent { code: KeyCode::End, modifiers: m }) == Some(csi_bytes(seq![0x46u8])),
        key_bytes(KeyEvent { code: KeyCode::Delete, modifiers: m }) == Some(csi_bytes(seq![0x33u8, 0x7eu8])),
        key_bytes(KeyEvent { code: KeyCode::PageUp, modifiers: m }) == Some(csi_bytes(seq![0x35u8, 0x7eu8])),
        key_bytes(KeyEvent { code: KeyCode::PageDown, modifiers: m }) == Some(csi_bytes(seq![0x36u8, 0x7eu8])),
        key_bytes(KeyEvent { code: KeyCode::BackTab, modifiers: m }) == Some(csi_bytes(seq![0x5au8])),
        key_bytes(KeyEvent { code: KeyCode::Esc, modifiers: m }) == Some(seq![0x1bu8]),
        key_bytes(KeyEvent { code: KeyCode::Enter, modifiers: m }) == Some(seq![0x0du8]),
        key_bytes(KeyEvent { code: KeyCode::Backspace, modifiers: m }) == Some(seq![0x7fu8]),
        key_bytes(KeyEvent { code: KeyCode::Tab, modifiers: m }) == Some(seq![0x09u8]),
{
    reveal_strlit("\x1b[A");
    reveal_strlit("\x1b[B");
    reveal_strlit("\x1b[C");
    reveal_strlit("\x1b[D");
    reveal_strlit("\x1b[H");
    reveal_strlit("\x1b[F");
    reveal_strlit("\x1b[3~");
    reveal_strlit("\x1b[5~");
    reveal_strlit("\x1b[6~");
    reveal_strlit("\x1b[Z");
    lemma_ascii_literal("\x1b[A"@);
    lemma_ascii_literal("\x1b[B"@);
    lemma_ascii_literal("\x1b[C"@);
    lemma_ascii_literal("\x1b[D"@);
    lemma_ascii_literal("\x1b[H"@);
    lemma_ascii_literal("\x1b[F"@);
    lemma_ascii_literal("\x1b[3~"@);
    lemma_ascii_literal("\x1b[5~"@);
    lemma_ascii_literal("\x1b[6~"@);
    lemma_ascii_literal("\x1b[Z"@);
    assert(vstd::utf8::encode_utf8("\x1b[A"@) =~= csi_bytes(seq![0x41u8]));
    assert(vstd::utf8::encode_utf8("\x1b[B"@) =~= csi_bytes(seq![0x42u8]));
    assert(vstd::utf8::encode_utf8("\x1b[C"@) =~= csi_bytes(seq![0x43u8]));
    assert(vstd::utf8::encode_utf8("\x1b[D"@) =~= csi_bytes(seq![0x44u8]));
    assert(vstd::utf8::encode_utf8("\x1b[H"@) =~= csi_bytes(seq![0x48u8]));
    assert(vstd::utf8::encode_utf8("\x1b[F"@) =~= csi_bytes(seq![0x46u8]));
    assert(vstd::utf8::encode_utf8("\x1b[3~"@) =~= csi_bytes(seq![0x33u8, 0x7eu8]));
    assert(vstd::utf8::encode_utf8("\x1b[5~"@) =~= csi_bytes(seq![0x35u8, 0x7eu8]));
    assert(vstd::utf8::encode_utf8("\x1b[6~"@) =~= csi_bytes(seq![0x36u8, 0x7eu8]));
    assert(vstd::utf8::encode_utf8("\x1b[Z"@) =~= csi_bytes(seq![0x5au8]));
}

/// A character key sends its text: an ASCII character alone its own byte;
/// with Alt, the escape byte followed by what the key sends without Alt and
/// Ctrl; with Ctrl alone, a letter its control code (Ctrl+A and Ctrl+a send
/// 1, up to Ctrl+Z sending 26).
pub proof fn char_keys_send_text(c: char, m: KeyModifiers)
    ensures
        !m.alt && !control_only(m) && (c as u32) < 0x80
            ==> key_bytes(KeyEvent { code: KeyCode::Char(c), modifiers: m }) == Some(seq![(c as u32) as u8]),
        m.alt ==> key_bytes(KeyEvent { code: KeyCode::Char(c), modifiers: m }) == Some(
            seq![0x1bu8] + key_bytes(KeyEvent {
                code: KeyCode::Char(c),
                modifiers: KeyModifiers { alt: false, control: false, ..m },
            }).unwrap(),
        ),
        control_only(m) && 'a' <= c <= 'z'
            ==> key_bytes(KeyEvent { code: KeyCode::Char(c), modifiers: m }) == Some(seq![((c as u32) - 0x60) as u8]),
        control_only(m) && 'A' <= c <= 'Z'
            ==> key_bytes(KeyEvent { code: KeyCode::Char(c), modifiers: m }) == Some(seq![((c as u32) - 0x40) as u8]),
{
    if (c as u32) < 0x80 {
        lemma_ascii_literal(seq![c]);
        assert(vstd::utf8::encode_utf8(seq![c]) =~= seq![(c as u32) as u8]);
    }
}

/// The function keys send their xterm sequences, whatever modifiers are
/// held: F1 to F4 `ESC O P` to `ESC O S`, F5 to F12 `ESC [ 15 ~`, `17`,
/// `18`, `19`, `20`, `21`, `23` and `24 ~`; other function keys send nothing.
pub proof fn function_keys_send_xterm_sequences(m: KeyModifiers, n: u8)
    ensures
        key_bytes(KeyEvent { code: KeyCode::F(1), modifiers: m }) == Some(seq![0x1bu8, 0x4fu8, 0x50u8]),
        key_bytes(KeyEvent { code: KeyCode::F(2), modifiers: m }) == Some(seq![0x1bu8, 0x4fu8, 0x51u8]),
        key_bytes(KeyEvent { code: KeyCode::F(3), modifiers: m }) == Some(seq![0x1bu8, 0x4fu8, 0x52u8]),
        key_bytes(KeyEvent { code: KeyCode::F(4), modifiers: m }) == Some(seq![0x1bu8, 0x4fu8, 0x53u8]),
        key_bytes(KeyEvent { code: KeyCode::F(5), modifiers: m }) == Some(seq![0x1bu8, 0x5bu8, 0x31u8, 0x35u8, 0x7eu8]),
        key_bytes(KeyEvent { code: KeyCode::F(6), modifiers: m }) == Some(seq![0x1bu8, 0x5bu8, 0x31u8, 0x37u8, 0x7eu8]),
        key_bytes(KeyEvent { code: KeyCode::F(7), modifiers: m }) == Some(seq![0x1bu8, 0x5bu8, 0x31u8, 0x38u8, 0x7eu8]),
        key_bytes(KeyEvent { code: KeyCode::F(8), modifiers: m }) == Some(seq![0x1bu8, 0x5bu8, 0x31u8, 0x39u8, 0x7eu8]),
        key_bytes(KeyEvent { code: KeyCode::F(9), modifiers: m }) == Some(seq![0x1bu8, 0x5bu8, 0x32u8, 0x30u8, 0x7eu8]),
        key_bytes(KeyEvent { code: KeyCode::F(10), modifiers: m }) == Some(seq![0x1bu8, 0x5bu8, 0x32u8, 0x31u8, 0x7eu8]),
        key_bytes(KeyEvent { code: KeyCode::F(11), modifiers: m }) == Some(seq![0x1bu8, 0x5bu8, 0x32u8, 0x33u8, 0x7eu8]),
        key_bytes(KeyEvent { code: KeyCode::F(12), modifiers: m }) == Some(seq![0x1bu8, 0x5bu8, 0x32u8, 0x34u8, 0x7eu8]),
        (n == 0 || n > 12) ==> key_bytes(KeyEvent { code: KeyCode::F(n), modifiers: m }) is None,
{
    reveal_strlit("\x1bOP");
    lemma_ascii_literal("\x1bOP"@);
    assert(vstd::utf8::encode_utf8("\x1bOP"@) =~= seq![0x1bu8, 0x4fu8, 0x50u8]);
    reveal_strlit("\x1bOQ");
    lemma_ascii_literal("\x1bOQ"@);
    assert(vstd::utf8::encode_utf8("\x1bOQ"@) =~= seq![0x1bu8, 0x4fu8, 0x51u8]);
    reveal_strlit("\x1bOR");
    lemma_ascii_literal("\x1bOR"@);
    assert(vstd::utf8::encode_utf8("\x1bOR"@) =~= seq![0x1bu8, 0x4fu8, 0x52u8]);
    reveal_strlit("\x1bOS");
    lemma_ascii_literal("\x1bOS"@);
    assert(vstd::utf8::encode_utf8("\x1bOS"@) =~= seq![0x1bu8, 0x4fu8, 0x53u8]);
    reveal_strlit("\x1b[15~");
    lemma_ascii_literal("\x1b[15~"@);
    assert(vstd::utf8::encode_utf8("\x1b[15~"@) =~= seq![0x1bu8, 0x5bu8, 0x31u8, 0x35u8, 0x7eu8]);
    reveal_strlit("\x1b[17~");
    lemma_ascii_literal("\x1b[17~"@);
    assert(vstd::utf8::encode_utf8("\x1b[17~"@) =~= seq![0x1bu8, 0x5bu8, 0x31u8, 0x37u8, 0x7eu8]);
    reveal_strlit("\x1b[18~");
    lemma_ascii_literal("\x1b[18~"@);
    assert(vstd::utf8::encode_utf8("\x1b[18~"@) =~= seq![0x1bu8, 0x5bu8, 0x31u8, 0x38u8, 0x7eu8]);
    reveal_strlit("\x1b[19~");
    lemma_ascii_literal("\x1b[19~"@);
    assert(vstd::utf8::encode_utf8("\x1b[19~"@) =~= seq![0x1bu8, 0x5bu8, 0x31u8, 0x39u8, 0x7eu8]);
    reveal_strlit("\x1b[20~");
    lemma_ascii_literal("\x1b[20~"@);
    assert(vstd::utf8::encode_utf8("\x1b[20~"@) =~= seq![0x1bu8, 0x5bu8, 0x32u8, 0x30u8, 0x7eu8]);
    reveal_strlit("\x1b[21~");
    lemma_ascii_literal("\x1b[21~"@);
    assert(vstd::utf8::encode_utf8("\x1b[21~"@) =~= seq![0x1bu8, 0x5bu8, 0x32u8, 0x31u8, 0x7eu8]);
    reveal_strlit("\x1b[23~");
    lemma_ascii_literal("\x1b[23~"@);
    assert(vstd::utf8::encode_utf8("\x1b[23~"@) =~= seq![0x1bu8, 0x5bu8, 0x32u8, 0x33u8, 0x7eu8]);
    reveal_strlit("\x1b[24~");
    lemma_ascii_literal("\x1b[24~"@);
    assert(vstd::utf8::encode_utf8("\x1b[24~"@) =~= seq![0x1bu8, 0x5bu8, 0x32u8, 0x34u8, 0x7eu8]);
}

fn literal_bytes(s: &str) -> (r: Vec<u8>)
    ensures
        r@ == vstd::utf8::encode_utf8(s@),
{
    utf8_bytes(s)
}

/// The bytes a key sends to a remote shell: control characters and xterm
/// escape sequences for special keys, ESC before Alt-chords, control codes
/// for Ctrl-letters and UTF-8 for characters.
pub fn terminal_key_bytes(key: KeyEvent) -> (r: Option<Vec<u8>>)
    ensures
        match r {
            Some(v) => key_bytes(key) == Some(v@),
            None => key_bytes(key) is None,
        },
{
    match key.code {
        KeyCode::Esc => Some(vec![0x1bu8]),
        KeyCode::Enter => Some(vec![0x0du8]),
        KeyCode::Backspace => Some(vec![0x7fu8]),
        KeyCode::Delete => Some(literal_bytes("\x1b[3~")),
        KeyCode::Left => Some(literal_bytes("\x1b[D")),
        KeyCode::Right => Some(literal_bytes("\x1b[C")),
        KeyCode::Up => Some(literal_bytes("\x1b[A")),
        KeyCode::Down => Some(literal_bytes("\x1b[B")),
        KeyCode::Home => Some(literal_bytes("\x1b[H")),
        KeyCode::End => Some(literal_bytes("\x1b[F")),
        KeyCode::PageUp => Some(literal_bytes("\x1b[5~")),
        KeyCode::PageDown => Some(literal_bytes("\x1b[6~")),
        KeyCode::Tab => Some(vec![0x09u8]),
        KeyCode::BackTab => Some(literal_bytes("\x1b[Z")),
        KeyCode::Char(c) => {
            let mut s = String::new();
            string_push(&mut s, c);
            let cb = utf8_bytes(s.as_str());
            if key.modifiers.alt {
                let mut data = vec![0x1bu8];
                let mut i: usize = 0;
                while i < cb.len()
                    invariant
                        i <= cb@.len(),
                        data@ =~= seq![0x1bu8] + cb@.subrange(0, i as int),
                    decreases cb.len() - i,
                {
                    data.push(cb[i]);
                    i = i + 1;
                }
                assert(cb@.subrange(0, cb@.len() as int) =~= cb@);
                Some(data)
            } else if is_control_only(key.modifiers) {
                Some(vec![((c as u32) % 32) as u8])
            } else {
                Some(cb)
            }
        },
        KeyCode::F(n) => {
            let seq = if n == 1 { "\x1bOP" } else if n == 2 { "\x1bOQ" } else if n == 3 { "\x1bOR" }
                else if n == 4 { "\x1bOS" } else if n == 5 { "\x1b[15~" } else if n == 6 { "\x1b[17~" }
                else if n == 7 { "\x1b[18~" } else if n == 8 { "\x1b[19~" } else if n == 9 { "\x1b[20~" }
                else if n == 10 { "\x1b[21~" } else if n == 11 { "\x1b[23~" } else if n == 12 { "\x1b[24~" }
                else { "" };
            if 1 <= n && n <= 12 {
                Some(literal_bytes(seq))
            } else {
                None
            }
        },
        _ => None,
    }
}

} // verus!
