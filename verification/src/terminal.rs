//! The terminal screen model: a bounded list of character lines with a
//! cursor, edited by printable characters, C0 controls and CSI sequences.
//! The scrollback is bounded twice: by a number of lines, and by 100 KiB of
//! text (UTF-8), beyond which the oldest lines are dropped.
//!
//! Byte-level escape decoding is done by the runtime's ANSI parser; this
//! module receives the decoded actions (`print`, `execute`, `csi_dispatch`).

use vstd::prelude::*;
use crate::text::string_from_chars;

verus! {

/// The abstract state of a [`ScreenBuffer`].
pub struct ScreenState {
    pub lines: Seq<Seq<char>>,
    pub max_lines: nat,
    pub row: nat,
    pub col: nat,
}

/// `a - b`, or 0 when `b > a`.
pub open spec fn sat_sub(a: nat, b: nat) -> nat {
    if a >= b { (a - b) as nat } else { 0 }
}

/// A state the buffer can be in. With a positive line limit there is always at
/// least one line, never more than the limit, and the cursor row is a line.
/// With a zero limit there is at most one line and the cursor row is 0.
pub open spec fn screen_wf(s: ScreenState) -> bool {
    &&& s.max_lines >= 1 ==> 1 <= s.lines.len() <= s.max_lines && s.row < s.lines.len()
    &&& s.max_lines == 0 ==> s.lines.len() <= 1 && s.row == 0
}

/// As [`screen_wf`], except that the cursor row may lie past the last line.
pub open spec fn screen_rows_free(s: ScreenState) -> bool {
    &&& s.max_lines >= 1 ==> 1 <= s.lines.len() <= s.max_lines
    &&& s.max_lines == 0 ==> s.lines.len() <= 1
}

/// `line` extended with spaces to at least `width` characters.
pub open spec fn padded(line: Seq<char>, width: nat) -> Seq<char> {
    if line.len() < width {
        line + Seq::new((width - line.len()) as nat, |_i: int| ' ')
    } else {
        line
    }
}

/// `line` padded to `to`, with the cells `from..to` set to spaces.
pub open spec fn blanked(line: Seq<char>, from: nat, to: nat) -> Seq<char> {
    let p = padded(line, to);
    Seq::new(p.len(), |i: int| if from <= i < to { ' ' } else { p[i] })
}

/// `line` padded to `col`, with `c` written at `col`.
pub open spec fn put_char(line: Seq<char>, col: nat, c: char) -> Seq<char> {
    let p = padded(line, col);
    if col < p.len() {
        p.update(col as int, c)
    } else {
        p.push(c)
    }
}

/// The lines after adding empty lines until the cursor row is a line.
pub open spec fn grown(s: ScreenState) -> Seq<Seq<char>> {
    if s.row >= s.lines.len() {
        s.lines + Seq::new((s.row + 1 - s.lines.len()) as nat, |_i: int| Seq::<char>::empty())
    } else {
        s.lines
    }
}

/// How many of `len` lines are over the limit `max`.
pub open spec fn excess(len: nat, max: nat) -> nat {
    if len > max { (len - max) as nat } else { 0 }
}

/// The state after making the cursor row a line and dropping the oldest
/// lines beyond the limit (the cursor row moves up with them).
pub open spec fn with_cursor_line(s: ScreenState) -> ScreenState {
    let g = grown(s);
    let k = excess(g.len(), s.max_lines);
    ScreenState {
        lines: g.subrange(k as int, g.len() as int),
        max_lines: s.max_lines,
        row: sat_sub(s.row, k),
        col: s.col,
    }
}

/// The state after replacing the cursor line of `with_cursor_line(s)` by
/// `f` of it and moving the cursor to column `col`.
pub open spec fn edit_line(s: ScreenState, new_line: Seq<char>, col: nat) -> ScreenState {
    let e = with_cursor_line(s);
    ScreenState {
        lines: e.lines.update(e.row as int, new_line),
        max_lines: e.max_lines,
        row: e.row,
        col,
    }
}

/// The cursor line once it exists.
pub open spec fn cursor_line(s: ScreenState) -> Seq<char> {
    let e = with_cursor_line(s);
    e.lines[e.row as int]
}

/// A cleared screen: one empty line, cursor at the origin.
pub open spec fn cleared(s: ScreenState) -> ScreenState {
    ScreenState { lines: seq![Seq::<char>::empty()], max_lines: s.max_lines, row: 0, col: 0 }
}

/// Printing `c`: written at the cursor, which advances one column.
pub open spec fn after_print(s: ScreenState, c: char) -> ScreenState {
    edit_line(s, put_char(cursor_line(s), s.col, c), s.col + 1)
}

/// The next tab stop (every 4 columns) after `col`.
pub open spec fn next_tab_stop(col: nat) -> nat {
    ((col / 4 + 1) * 4) as nat
}

/// Line feed: cursor to column 0 of the next line.
pub open spec fn after_line_feed(s: ScreenState) -> ScreenState {
    with_cursor_line(ScreenState { lines: s.lines, max_lines: s.max_lines, row: s.row + 1, col: 0 })
}

/// Tab: the cells up to the next tab stop become spaces and the cursor moves there.
pub open spec fn after_tab(s: ScreenState) -> ScreenState {
    let next = next_tab_stop(s.col);
    edit_line(s, blanked(cursor_line(s), s.col, next), next)
}

/// Backspace: at column 0 nothing; else the cursor moves left and the
/// character under it, if any, is removed.
pub open spec fn after_backspace(s: ScreenState) -> ScreenState {
    if s.col == 0 {
        s
    } else {
        let t = ScreenState { lines: s.lines, max_lines: s.max_lines, row: s.row, col: (s.col - 1) as nat };
        let line = cursor_line(t);
        if t.col < line.len() {
            edit_line(t, line.remove(t.col as int), t.col)
        } else {
            with_cursor_line(t)
        }
    }
}

/// The effect of a C0 control byte.
pub open spec fn after_execute(s: ScreenState, byte: u8) -> ScreenState {
    if byte == 0x0A {
        after_line_feed(s)
    } else if byte == 0x0D {
        ScreenState { col: 0, ..s }
    } else if byte == 0x09 {
        after_tab(s)
    } else if byte == 0x08 {
        after_backspace(s)
    } else {
        s
    }
}

/// Whether a control byte touches the cursor line (and so needs a line to exist).
pub open spec fn execute_needs_line(s: ScreenState, byte: u8) -> bool {
    byte == 0x09 || (byte == 0x08 && s.col > 0)
}

/// The first CSI parameter, 0 when absent.
pub open spec fn first_param(params: Seq<u16>) -> nat {
    if params.len() > 0 { params[0] as nat } else { 0 }
}

/// A CSI parameter at `i`, `default` when absent.
pub open spec fn param_or(params: Seq<u16>, i: int, default: nat) -> nat {
    if 0 <= i < params.len() { params[i] as nat } else { default }
}

/// A count parameter: the first parameter, at least 1.
pub open spec fn count_param(params: Seq<u16>) -> nat {
    if first_param(params) >= 1 { first_param(params) } else { 1 }
}

/// `line` with `count` spaces inserted at `col` (after padding to `col`).
pub open spec fn inserted_spaces(line: Seq<char>, col: nat, count: nat) -> Seq<char> {
    let p = padded(line, col);
    p.subrange(0, col as int) + Seq::new(count, |_i: int| ' ') + p.subrange(col as int, p.len() as int)
}

/// `line` with up to `count` characters removed from `col`.
pub open spec fn deleted_chars(line: Seq<char>, col: nat, count: nat) -> Seq<char> {
    if col >= line.len() || count == 0 {
        line
    } else {
        let end = if col + count <= line.len() { col + count } else { line.len() };
        line.subrange(0, col as int) + line.subrange(end as int, line.len() as int)
    }
}

/// Erase in line: mode 0 from the cursor to the end, 1 from the start to the
/// cursor, 2 the whole line (cursor to column 0).
pub open spec fn after_erase_in_line(s: ScreenState, mode: nat) -> ScreenState {
    let line = cursor_line(s);
    if mode == 0 {
        edit_line(s, if s.col < line.len() { line.subrange(0, s.col as int) } else { line }, s.col)
    } else if mode == 1 {
        let end: nat = if s.col <= line.len() { s.col } else { line.len() };
        edit_line(s, Seq::new(line.len(), |i: int| if i < end { ' ' } else { line[i] }), s.col)
    } else if mode == 2 {
        edit_line(s, Seq::<char>::empty(), 0)
    } else {
        with_cursor_line(s)
    }
}

/// The effect of a CSI sequence with final character `action`, where
/// `params[i]` is the leading value of the i-th parameter.
pub open spec fn after_csi(s: ScreenState, params: Seq<u16>, action: char) -> ScreenState {
    let first = first_param(params);
    let amount = count_param(params);
    if action == 'A' {
        ScreenState { row: sat_sub(s.row, amount), ..s }
    } else if action == 'B' {
        with_cursor_line(ScreenState { row: s.row + amount, ..s })
    } else if action == 'C' {
        ScreenState { col: s.col + amount, ..s }
    } else if action == 'D' {
        ScreenState { col: sat_sub(s.col, amount), ..s }
    } else if action == 'G' {
        ScreenState { col: sat_sub(first, 1), ..s }
    } else if action == 'H' || action == 'f' {
        with_cursor_line(
            ScreenState {
                row: sat_sub(param_or(params, 0, 1), 1),
                col: sat_sub(param_or(params, 1, 1), 1),
                ..s
            },
        )
    } else if action == 'J' {
        if first == 2 || first == 3 { cleared(s) } else { s }
    } else if action == 'K' {
        after_erase_in_line(s, first)
    } else if action == '@' {
        edit_line(s, inserted_spaces(cursor_line(s), s.col, amount), s.col)
    } else if action == 'P' {
        edit_line(s, deleted_chars(cursor_line(s), s.col, amount), s.col)
    } else if action == 'X' {
        edit_line(s, blanked(cursor_line(s), s.col, s.col + amount), s.col)
    } else {
        s
    }
}

/// Whether a CSI action touches the cursor line (and so needs a line to exist).
pub open spec fn csi_needs_line(action: char) -> bool {
    action == 'K' || action == '@' || action == 'P' || action == 'X'
}

/// Whether a CSI action keeps the cursor within machine integers.
pub open spec fn csi_in_range(s: ScreenState, params: Seq<u16>, action: char) -> bool {
    &&& action == 'B' ==> s.row + count_param(params) <= usize::MAX
    &&& action == 'C' ==> s.col + count_param(params) <= usize::MAX
    &&& action == 'X' ==> s.col + count_param(params) <= usize::MAX
}

/// The last `height` lines (all of them when there are fewer).
pub open spec fn visible_lines(s: ScreenState, height: nat) -> Seq<Seq<char>> {
    if s.lines.len() <= height {
        s.lines
    } else {
        s.lines.subrange(s.lines.len() - height, s.lines.len() as int)
    }
}

/// The most text, in bytes of UTF-8, the screen keeps: 100 KiB.
pub open spec fn text_budget() -> nat {
    102400
}

/// The UTF-8 size of a line.
pub open spec fn line_bytes(l: Seq<char>) -> nat {
    vstd::utf8::encode_utf8(l).len()
}

/// The UTF-8 size of all lines.
pub open spec fn text_bytes(lines: Seq<Seq<char>>) -> nat
    decreases lines.len(),
{
    if lines.len() == 0 {
        0
    } else {
        line_bytes(lines[0]) + text_bytes(lines.drop_first())
    }
}

/// Whether the screen's text fits in the budget.
pub open spec fn within_budget(s: ScreenState) -> bool {
    text_bytes(s.lines) <= text_budget()
}

/// The longest start of `l` that fits in the budget.
pub open spec fn cut_to_budget(l: Seq<char>) -> Seq<char>
    decreases l.len(),
{
    if l.len() == 0 || line_bytes(l) <= text_budget() {
        l
    } else {
        cut_to_budget(l.drop_last())
    }
}

/// `s` brought within the text budget: the oldest lines are dropped first
/// (the cursor row moves up with them), and a single remaining line is cut
/// to its longest start that fits.
pub open spec fn fit(s: ScreenState) -> ScreenState
    decreases s.lines.len(),
{
    if text_bytes(s.lines) <= text_budget() {
        s
    } else if s.lines.len() > 1 {
        fit(ScreenState { lines: s.lines.drop_first(), max_lines: s.max_lines, row: sat_sub(s.row, 1), col: s.col })
    } else {
        ScreenState { lines: s.lines.update(0, cut_to_budget(s.lines[0])), ..s }
    }
}

proof fn lemma_line_bytes_concat(a: Seq<char>, b: Seq<char>)
    ensures
        line_bytes(a + b) == line_bytes(a) + line_bytes(b),
    decreases a.len(),
{
    if a.len() > 0 {
        assert((a + b).drop_first() =~= a.drop_first() + b);
        assert((a + b)[0] == a[0]);
        lemma_line_bytes_concat(a.drop_first(), b);
    } else {
        assert(a + b =~= b);
    }
}

proof fn lemma_line_bytes_one(c: char)
    ensures
        line_bytes(seq![c]) == vstd::utf8::encode_scalar(c as u32).len(),
        1 <= line_bytes(seq![c]) <= 4,
{
    assert(seq![c].drop_first() =~= Seq::<char>::empty());
    assert(vstd::utf8::encode_utf8(Seq::<char>::empty()).len() == 0);
    assert(vstd::utf8::encode_utf8(seq![c]) == vstd::utf8::encode_scalar(seq![c][0] as u32)
        + vstd::utf8::encode_utf8(seq![c].drop_first()));
}

proof fn lemma_line_bytes_push(l: Seq<char>, c: char)
    ensures
        line_bytes(l.push(c)) == line_bytes(l) + line_bytes(seq![c]),
{
    assert(l.push(c) =~= l + seq![c]);
    lemma_line_bytes_concat(l, seq![c]);
}

proof fn lemma_empty_bytes()
    ensures
        line_bytes(Seq::<char>::empty()) == 0,
        text_bytes(seq![Seq::<char>::empty()]) == 0,
{
    let one = seq![Seq::<char>::empty()];
    assert(one.drop_first() =~= Seq::<Seq<char>>::empty());
    assert(text_bytes(Seq::<Seq<char>>::empty()) == 0);
    assert(vstd::utf8::encode_utf8(Seq::<char>::empty()).len() == 0);
    assert(text_bytes(one) == line_bytes(one[0]) + text_bytes(one.drop_first()));
}

proof fn lemma_text_bytes_update(lines: Seq<Seq<char>>, i: int, x: Seq<char>)
    requires
        0 <= i < lines.len(),
    ensures
        text_bytes(lines.update(i, x)) + line_bytes(lines[i]) == text_bytes(lines) + line_bytes(x),
        line_bytes(lines[i]) <= text_bytes(lines),
    decreases i,
{
    if i > 0 {
        assert(lines.update(i, x).drop_first() =~= lines.drop_first().update(i - 1, x));
        lemma_text_bytes_update(lines.drop_first(), i - 1, x);
    } else {
        assert(lines.update(0, x).drop_first() =~= lines.drop_first());
    }
}

proof fn lemma_text_bytes_concat(a: Seq<Seq<char>>, b: Seq<Seq<char>>)
    ensures
        text_bytes(a + b) == text_bytes(a) + text_bytes(b),
    decreases a.len(),
{
    if a.len() > 0 {
        assert((a + b).drop_first() =~= a.drop_first() + b);
        assert((a + b)[0] == a[0]);
        lemma_text_bytes_concat(a.drop_first(), b);
    } else {
        assert(a + b =~= b);
    }
}

proof fn lemma_text_bytes_push(lines: Seq<Seq<char>>, x: Seq<char>)
    ensures
        text_bytes(lines.push(x)) == text_bytes(lines) + line_bytes(x),
{
    let one = seq![x];
    assert(one.drop_first() =~= Seq::<Seq<char>>::empty());
    assert(text_bytes(one) == line_bytes(one[0]) + text_bytes(one.drop_first()));
    assert(lines.push(x) =~= lines + one);
    lemma_text_bytes_concat(lines, one);
}

proof fn lemma_text_bytes_push_empty(lines: Seq<Seq<char>>)
    ensures
        text_bytes(lines.push(Seq::<char>::empty())) == text_bytes(lines),
{
    lemma_empty_bytes();
    lemma_text_bytes_push(lines, Seq::<char>::empty());
}

proof fn lemma_text_bytes_prefix(lines: Seq<Seq<char>>, i: int)
    requires
        0 <= i <= lines.len(),
    ensures
        text_bytes(lines.take(i)) <= text_bytes(lines),
{
    assert(lines =~= lines.take(i) + lines.skip(i));
    lemma_text_bytes_concat(lines.take(i), lines.skip(i));
}

proof fn lemma_spaces_bytes(n: nat)
    ensures
        line_bytes(Seq::new(n, |_i: int| ' ')) == n,
    decreases n,
{
    if n > 0 {
        let shorter = Seq::new((n - 1) as nat, |_i: int| ' ');
        assert(Seq::new(n, |_i: int| ' ') =~= shorter.push(' '));
        lemma_spaces_bytes((n - 1) as nat);
        lemma_line_bytes_push(shorter, ' ');
        lemma_line_bytes_one(' ');
    } else {
        assert(Seq::new(n, |_i: int| ' ') =~= Seq::<char>::empty());
        lemma_empty_bytes();
    }
}

proof fn lemma_line_bytes_update(l: Seq<char>, i: int, c: char)
    requires
        0 <= i < l.len(),
    ensures
        line_bytes(l.update(i, c)) + line_bytes(seq![l[i]]) == line_bytes(l) + line_bytes(seq![c]),
        line_bytes(seq![l[i]]) <= line_bytes(l),
{
    let front = l.take(i);
    let back = l.skip(i + 1);
    assert(l =~= front + seq![l[i]] + back);
    assert(l.update(i, c) =~= front + seq![c] + back);
    lemma_line_bytes_concat(front, seq![l[i]]);
    lemma_line_bytes_concat(front + seq![l[i]], back);
    lemma_line_bytes_concat(front, seq![c]);
    lemma_line_bytes_concat(front + seq![c], back);
}

/// How the size of a line changes when a character is written into it.
proof fn lemma_put_char_bytes(l: Seq<char>, col: nat, c: char)
    ensures
        line_bytes(put_char(l, col, c)) + (if col < l.len() { line_bytes(seq![l[col as int]]) } else { 0 })
            == line_bytes(l) + (if col > l.len() { col - l.len() } else { 0 }) + line_bytes(seq![c]),
        col < l.len() ==> line_bytes(seq![l[col as int]]) <= line_bytes(l),
{
    let p = padded(l, col);
    if l.len() < col {
        let fill = Seq::new((col - l.len()) as nat, |_i: int| ' ');
        lemma_spaces_bytes((col - l.len()) as nat);
        lemma_line_bytes_concat(l, fill);
        lemma_line_bytes_push(p, c);
    } else if col < l.len() {
        lemma_line_bytes_update(l, col as int, c);
    } else {
        lemma_line_bytes_push(p, c);
    }
}

proof fn lemma_line_bytes_pop(l: Seq<char>)
    requires
        l.len() > 0,
    ensures
        line_bytes(l) == line_bytes(l.drop_last()) + line_bytes(seq![l.last()]),
{
    assert(l =~= l.drop_last().push(l.last()));
    lemma_line_bytes_push(l.drop_last(), l.last());
}

/// Every character takes one to four bytes.
fn char_len(c: char) -> (r: usize)
    ensures
        r == line_bytes(seq![c]),
        1 <= r <= 4,
{
    proof {
        lemma_line_bytes_one(c);
    }
    let v = c as u32;
    if v <= 0x7F {
        1
    } else if v <= 0x7FF {
        2
    } else if v <= 0xFFFF {
        3
    } else {
        4
    }
}

/// The UTF-8 size of a line.
fn bytes_of(l: &Vec<char>) -> (r: u128)
    ensures
        r == line_bytes(l@),
        r <= 4 * l@.len(),
        r <= 4 * (usize::MAX as nat),
{
    let mut acc: u128 = 0;
    let mut i: usize = 0;
    proof {
        assert(l@.take(0) =~= Seq::<char>::empty());
        lemma_empty_bytes();
    }
    while i < l.len()
        invariant
            i <= l@.len(),
            acc == line_bytes(l@.take(i as int)),
            acc <= 4 * i,
        decreases l.len() - i,
    {
        let n = char_len(l[i]);
        proof {
            assert(l@.take(i + 1) =~= l@.take(i as int).push(l@[i as int]));
            lemma_line_bytes_push(l@.take(i as int), l@[i as int]);
        }
        acc = acc + n as u128;
        i = i + 1;
    }
    assert(l@.take(l@.len() as int) =~= l@);
    acc
}

/// Deleting as many characters at a column as were just inserted there
/// gives back the line (padded to the column): CSI `P` undoes CSI `@`.
pub proof fn delete_undoes_insert(line: Seq<char>, col: nat, count: nat)
    ensures
        deleted_chars(inserted_spaces(line, col, count), col, count) == padded(line, col),
{
    let p = padded(line, col);
    let ins = inserted_spaces(line, col, count);
    assert(p.len() >= col);
    assert(ins.len() == p.len() + count);
    if count > 0 {
        assert(ins.subrange(0, col as int) =~= p.subrange(0, col as int));
        assert(ins.subrange((col + count) as int, ins.len() as int) =~= p.subrange(col as int, p.len() as int));
        assert(p.subrange(0, col as int) + p.subrange(col as int, p.len() as int) =~= p);
    } else {
        assert(ins =~= p);
    }
}

proof fn lemma_cursor_line_exists(s: ScreenState)
    requires
        s.max_lines >= 1,
    ensures
        with_cursor_line(s).row < with_cursor_line(s).lines.len() <= s.max_lines,
        with_cursor_line(s).max_lines == s.max_lines,
{
    let g = grown(s);
    assert(g.len() >= s.row + 1);
}

proof fn lemma_line_exists_stable(s: ScreenState)
    requires
        s.row < s.lines.len() <= s.max_lines,
    ensures
        with_cursor_line(s) == s,
{
    assert(grown(s) == s.lines);
    assert(s.lines.subrange(0, s.lines.len() as int) =~= s.lines);
}

proof fn lemma_inserted_spaces_bytes(line: Seq<char>, col: nat, count: nat)
    ensures
        line_bytes(inserted_spaces(line, col, count)) == line_bytes(padded(line, col)) + count,
{
    let p = padded(line, col);
    let front = p.subrange(0, col as int);
    let back = p.subrange(col as int, p.len() as int);
    let fill = Seq::new(count, |_i: int| ' ');
    assert(p =~= front + back);
    lemma_line_bytes_concat(front, back);
    lemma_line_bytes_concat(front, fill);
    lemma_line_bytes_concat(front + fill, back);
    lemma_spaces_bytes(count);
}

/// On the screen, inserting `n` blanks at the cursor and then deleting `n`
/// characters there (CSI `n @`, then CSI `n P`) leaves the cursor line as it
/// was, padded to the cursor column, whenever the insertion keeps the text
/// within its budget.
pub proof fn screen_delete_undoes_insert(s: ScreenState, params: Seq<u16>)
    requires
        s.max_lines >= 1,
        within_budget(after_csi(s, params, '@')),
    ensures
        after_op(after_op(s, ScreenOp::Csi(params, '@')), ScreenOp::Csi(params, 'P'))
            == edit_line(s, padded(cursor_line(s), s.col), s.col),
{
    let n = count_param(params);
    let t = after_csi(s, params, '@');
    lemma_cursor_line_exists(s);
    let e = with_cursor_line(s);
    assert(t == edit_line(s, inserted_spaces(cursor_line(s), s.col, n), s.col));
    assert(fit(t) == t);
    lemma_line_exists_stable(t);
    assert(cursor_line(t) == inserted_spaces(cursor_line(s), s.col, n));
    delete_undoes_insert(cursor_line(s), s.col, n);
    let r = edit_line(s, padded(cursor_line(s), s.col), s.col);
    assert(after_csi(t, params, 'P').lines =~= r.lines);
    assert(r.lines =~= t.lines.update(e.row as int, padded(cursor_line(s), s.col)));
    lemma_text_bytes_update(t.lines, e.row as int, padded(cursor_line(s), s.col));
    lemma_inserted_spaces_bytes(cursor_line(s), s.col, n);
    assert(fit(r) == r);
}

/// One operation on the screen, as the byte decoder hands them over, or a
/// clear.
pub enum ScreenOp {
    Print(char),
    Execute(u8),
    Csi(Seq<u16>, char),
    Clear,
}

/// The state after one operation: what [`ScreenBuffer::print`],
/// [`ScreenBuffer::execute`], [`ScreenBuffer::csi_dispatch`] and
/// [`ScreenBuffer::clear`] leave.
pub open spec fn after_op(s: ScreenState, op: ScreenOp) -> ScreenState {
    match op {
        ScreenOp::Print(c) => fit(after_print(s, c)),
        ScreenOp::Execute(byte) => fit(after_execute(s, byte)),
        ScreenOp::Csi(params, action) => fit(after_csi(s, params, action)),
        ScreenOp::Clear => cleared(s),
    }
}

/// The state after a run of operations, in order.
pub open spec fn after_ops(s: ScreenState, ops: Seq<ScreenOp>) -> ScreenState
    decreases ops.len(),
{
    if ops.len() == 0 {
        s
    } else {
        after_ops(after_op(s, ops[0]), ops.drop_first())
    }
}

/// CSI cursor movement, as the buffer does it on a well-formed screen: with
/// `n` the first parameter (1 when absent or 0), `A` moves up `n` rows and
/// `D` left `n` columns (stopping at 0), `C` moves right `n` columns, `B`
/// down `n` rows when that row exists, `G` goes to the column the first
/// parameter names and `H` to the row and column the two parameters name
/// (counted from 1; 1 when absent or 0) when that row exists. Nothing else
/// changes. Moving right `n` and then left `n` comes back.
pub proof fn csi_moves_the_cursor(s: ScreenState, params: Seq<u16>)
    requires
        s.max_lines >= 1,
        screen_wf(s),
        within_budget(s),
    ensures
        ({
            let n: nat = if params.len() > 0 && params[0] > 0 { params[0] as nat } else { 1 };
            let c0: nat = if params.len() > 0 && params[0] > 0 { (params[0] - 1) as nat } else { 0 };
            let c1: nat = if params.len() > 1 && params[1] > 0 { (params[1] - 1) as nat } else { 0 };
            &&& after_op(s, ScreenOp::Csi(params, 'A'))
                == ScreenState { row: if s.row >= n { (s.row - n) as nat } else { 0 }, ..s }
            &&& s.row + n < s.lines.len() ==> after_op(s, ScreenOp::Csi(params, 'B'))
                == ScreenState { row: s.row + n, ..s }
            &&& after_op(s, ScreenOp::Csi(params, 'C')) == ScreenState { col: s.col + n, ..s }
            &&& after_op(s, ScreenOp::Csi(params, 'D'))
                == ScreenState { col: if s.col >= n { (s.col - n) as nat } else { 0 }, ..s }
            &&& after_op(s, ScreenOp::Csi(params, 'G')) == ScreenState { col: c0, ..s }
            &&& c0 < s.lines.len() ==> after_op(s, ScreenOp::Csi(params, 'H'))
                == ScreenState { row: c0, col: c1, ..s }
        }),
        after_op(after_op(s, ScreenOp::Csi(params, 'C')), ScreenOp::Csi(params, 'D')) == s,
{
    let n = count_param(params);
    let c0 = sat_sub(param_or(params, 0, 1), 1);
    let c1 = sat_sub(param_or(params, 1, 1), 1);
    if s.row + n < s.lines.len() {
        lemma_line_exists_stable(ScreenState { row: s.row + n, ..s });
    }
    if c0 < s.lines.len() {
        lemma_line_exists_stable(ScreenState { row: c0, col: c1, ..s });
    }
}

/// Printing writes the character into the cursor line at the cursor column
/// (padding the line with spaces up to it) and moves the cursor one column
/// right; every other line and every other character stays, whenever the
/// text stays within its budget.
pub proof fn print_writes_at_the_cursor(s: ScreenState, c: char)
    requires
        s.max_lines >= 1,
        screen_wf(s),
        within_budget(after_print(s, c)),
    ensures
        ({
            let r = after_op(s, ScreenOp::Print(c));
            let l = s.lines[s.row as int];
            let m = r.lines[s.row as int];
            &&& r.row == s.row && r.col == s.col + 1 && r.max_lines == s.max_lines
            &&& r.lines.len() == s.lines.len()
            &&& forall|j: int| 0 <= j < s.lines.len() && j != s.row ==> #[trigger] r.lines[j] == s.lines[j]
            &&& m.len() == (if s.col < l.len() { l.len() } else { s.col + 1 })
            &&& m[s.col as int] == c
            &&& forall|i: int| 0 <= i < l.len() && i != s.col ==> #[trigger] m[i] == l[i]
            &&& forall|i: int| l.len() <= i < s.col ==> #[trigger] m[i] == ' '
        }),
{
    lemma_line_exists_stable(s);
    let l = s.lines[s.row as int];
    let p = padded(l, s.col);
    assert(forall|i: int| 0 <= i < l.len() ==> #[trigger] p[i] == l[i]);
    assert(forall|i: int| l.len() <= i < s.col ==> #[trigger] p[i] == ' ');
}

/// The control bytes, as the buffer applies them to a well-formed screen:
/// carriage return goes to column 0; line feed goes to column 0 of the next
/// line, adding an empty line below the last one and then, at the line
/// limit, dropping the oldest line (the cursor stays on the new line);
/// backspace moves one column left and removes the character there; tab
/// blanks the cells up to the next multiple of 4 and moves there; other
/// bytes change nothing. Tab and backspace are stated where the text stays
/// within its budget.
pub proof fn control_bytes_move_and_edit(s: ScreenState)
    requires
        s.max_lines >= 1,
        screen_wf(s),
        within_budget(s),
    ensures
        after_op(s, ScreenOp::Execute(0x0D)) == (ScreenState { col: 0, ..s }),
        s.row + 1 < s.lines.len() ==> after_op(s, ScreenOp::Execute(0x0A)) == (ScreenState { row: s.row + 1, col: 0, ..s }),
        s.row + 1 == s.lines.len() && s.lines.len() < s.max_lines ==> after_op(s, ScreenOp::Execute(0x0A))
            == (ScreenState { lines: s.lines.push(Seq::empty()), row: s.row + 1, col: 0, ..s }),
        s.row + 1 == s.lines.len() && s.lines.len() == s.max_lines ==> after_op(s, ScreenOp::Execute(0x0A))
            == (ScreenState { lines: s.lines.drop_first().push(Seq::empty()), col: 0, ..s }),
        forall|byte: u8| byte != 0x0A && byte != 0x0D && byte != 0x09 && byte != 0x08
            ==> #[trigger] after_op(s, ScreenOp::Execute(byte)) == s,
        s.col > 0 && within_budget(after_execute(s, 0x08)) ==> ({
            let r = after_op(s, ScreenOp::Execute(0x08));
            let l = s.lines[s.row as int];
            let m = r.lines[s.row as int];
            let k = s.col - 1;
            &&& r.row == s.row && r.col == k && r.lines.len() == s.lines.len()
            &&& forall|j: int| 0 <= j < s.lines.len() && j != s.row ==> #[trigger] r.lines[j] == s.lines[j]
            &&& k < l.len() ==> m.len() == l.len() - 1
            &&& k >= l.len() ==> m == l
            &&& forall|i: int| 0 <= i < m.len() ==> #[trigger] m[i] == (if i < k { l[i] } else { l[i + 1] })
        }),
        within_budget(after_execute(s, 0x09)) ==> ({
            let r = after_op(s, ScreenOp::Execute(0x09));
            let l = s.lines[s.row as int];
            let m = r.lines[s.row as int];
            let next = (s.col / 4 + 1) * 4;
            &&& r.row == s.row && r.col == next && r.lines.len() == s.lines.len()
            &&& forall|j: int| 0 <= j < s.lines.len() && j != s.row ==> #[trigger] r.lines[j] == s.lines[j]
            &&& m.len() == (if l.len() < next { next } else { l.len() })
            &&& forall|i: int| 0 <= i < m.len() ==> #[trigger] m[i] == (if s.col <= i < next || i >= l.len() { ' ' } else { l[i] })
        }),
{
    lemma_line_exists_stable(s);
    lemma_text_bytes_push_empty(s.lines);
    if s.row + 1 < s.lines.len() {
        lemma_line_exists_stable(ScreenState { row: s.row + 1, col: 0, ..s });
    } else {
        let t = ScreenState { lines: s.lines, max_lines: s.max_lines, row: s.row + 1, col: 0 };
        let g = grown(t);
        assert(g =~= s.lines.push(Seq::empty()));
        if s.lines.len() == s.max_lines {
            assert(g.subrange(1, g.len() as int) =~= s.lines.drop_first().push(Seq::empty()));
            assert(s.lines =~= seq![s.lines[0]] + s.lines.drop_first());
            lemma_text_bytes_concat(seq![s.lines[0]], s.lines.drop_first());
            lemma_text_bytes_push_empty(s.lines.drop_first());
        } else {
            assert(g.subrange(0, g.len() as int) =~= g);
        }
    }
    if s.col > 0 {
        let t = ScreenState { lines: s.lines, max_lines: s.max_lines, row: s.row, col: (s.col - 1) as nat };
        lemma_line_exists_stable(t);
    }
    let l = s.lines[s.row as int];
    let next = next_tab_stop(s.col);
    let p = padded(l, next);
    assert(forall|i: int| 0 <= i < l.len() ==> #[trigger] p[i] == l[i]);
    assert(forall|i: int| l.len() <= i < next ==> #[trigger] p[i] == ' ');
}

/// CSI edits of the cursor line, as the buffer applies them to a well-formed
/// screen where the text stays within its budget, with `n` the first
/// parameter (1 when absent or 0) and `l` the cursor line: `K` with mode 0
/// keeps the characters before the cursor, with mode 1 blanks those up to
/// the cursor, with mode 2 empties the line and goes to column 0; `@`
/// inserts `n` blanks at the cursor, `P` deletes up to `n` characters there,
/// `X` blanks `n` cells from it; `J` with 2 or 3 clears the screen. The
/// cursor stays (but for `K` 2) and every other line stays.
pub proof fn csi_edits_the_cursor_line(s: ScreenState, params: Seq<u16>, action: char)
    requires
        s.max_lines >= 1,
        screen_wf(s),
        within_budget(after_csi(s, params, action)),
        action == 'K' || action == '@' || action == 'P' || action == 'X',
    ensures
        ({
            let r = after_op(s, ScreenOp::Csi(params, action));
            let first: nat = if params.len() > 0 { params[0] as nat } else { 0 };
            let n: nat = if first > 0 { first } else { 1 };
            let l = s.lines[s.row as int];
            let m = r.lines[s.row as int];
            &&& r.row == s.row && r.lines.len() == s.lines.len() && r.max_lines == s.max_lines
            &&& r.col == (if action == 'K' && first == 2 { 0 } else { s.col })
            &&& forall|j: int| 0 <= j < s.lines.len() && j != s.row ==> #[trigger] r.lines[j] == s.lines[j]
            &&& action == 'K' && first == 0 ==> m == (if s.col < l.len() { l.take(s.col as int) } else { l })
            &&& action == 'K' && first == 1 ==> m.len() == l.len()
                && forall|i: int| 0 <= i < l.len() ==> #[trigger] m[i] == (if i < s.col { ' ' } else { l[i] })
            &&& action == 'K' && first == 2 ==> m.len() == 0
            &&& action == 'K' && first > 2 ==> m == l
            &&& action == '@' && s.col <= l.len() ==> m.len() == l.len() + n
                && forall|i: int| 0 <= i < m.len() ==> #[trigger] m[i]
                    == (if i < s.col { l[i] } else if i < s.col + n { ' ' } else { l[i - n] })
            &&& action == 'P' && s.col < l.len() ==> m.len() == (if s.col + n <= l.len() { l.len() - n } else { s.col as int })
                && forall|i: int| 0 <= i < m.len() ==> #[trigger] m[i] == (if i < s.col { l[i] } else { l[i + n] })
            &&& action == 'P' && s.col >= l.len() ==> m == l
            &&& action == 'X' ==> m.len() == (if l.len() < s.col + n { s.col + n } else { l.len() })
                && forall|i: int| 0 <= i < m.len() ==> #[trigger] m[i]
                    == (if s.col <= i < s.col + n || i >= l.len() { ' ' } else { l[i] })
        }),
{
    lemma_line_exists_stable(s);
    let l = s.lines[s.row as int];
    let n = count_param(params);
    let p = padded(l, s.col);
    assert(forall|i: int| 0 <= i < l.len() ==> #[trigger] p[i] == l[i]);
    let q = padded(l, s.col + n);
    assert(forall|i: int| 0 <= i < l.len() ==> #[trigger] q[i] == l[i]);
    assert(forall|i: int| l.len() <= i < s.col + n ==> #[trigger] q[i] == ' ');
    if s.col <= l.len() {
        assert(p =~= l);
    }
}

/// Erase in display with parameter 2 or 3 clears the screen: one empty line,
/// the cursor at the origin.
pub proof fn csi_clears_the_screen(s: ScreenState, params: Seq<u16>)
    requires
        params.len() > 0 && (params[0] == 2 || params[0] == 3),
    ensures
        after_op(s, ScreenOp::Csi(params, 'J'))
            == (ScreenState { lines: seq![Seq::<char>::empty()], max_lines: s.max_lines, row: 0, col: 0 }),
{
    lemma_empty_bytes();
}

proof fn lemma_cut_fits(l: Seq<char>)
    ensures
        line_bytes(cut_to_budget(l)) <= text_budget(),
    decreases l.len(),
{
    if l.len() == 0 {
        lemma_empty_bytes();
    } else if line_bytes(l) > text_budget() {
        lemma_cut_fits(l.drop_last());
    }
}

proof fn lemma_fit_bounded(s: ScreenState)
    requires
        screen_wf(s),
    ensures
        screen_wf(fit(s)),
        within_budget(fit(s)),
        fit(s).max_lines == s.max_lines,
    decreases s.lines.len(),
{
    if text_bytes(s.lines) <= text_budget() {
    } else if s.lines.len() > 1 {
        let t = ScreenState { lines: s.lines.drop_first(), max_lines: s.max_lines, row: sat_sub(s.row, 1), col: s.col };
        lemma_fit_bounded(t);
    } else {
        let x = cut_to_budget(s.lines[0]);
        let u = s.lines.update(0, x);
        lemma_cut_fits(s.lines[0]);
        assert(u.drop_first() =~= Seq::<Seq<char>>::empty());
        assert(text_bytes(u) == line_bytes(u[0]) + text_bytes(u.drop_first()));
    }
}

proof fn lemma_op_keeps_shape(s: ScreenState, op: ScreenOp)
    requires
        s.max_lines >= 1,
        screen_wf(s),
    ensures
        screen_wf(after_op(s, op)),
        within_budget(after_op(s, op)),
        after_op(s, op).max_lines == s.max_lines,
{
    match op {
        ScreenOp::Print(c) => {
            lemma_cursor_line_exists(s);
            lemma_fit_bounded(after_print(s, c));
        },
        ScreenOp::Execute(byte) => {
            lemma_cursor_line_exists(s);
            lemma_cursor_line_exists(ScreenState { lines: s.lines, max_lines: s.max_lines, row: s.row + 1, col: 0 });
            if s.col > 0 {
                lemma_cursor_line_exists(ScreenState { lines: s.lines, max_lines: s.max_lines, row: s.row, col: (s.col - 1) as nat });
            }
            lemma_fit_bounded(after_execute(s, byte));
        },
        ScreenOp::Csi(params, action) => {
            let amount = count_param(params);
            lemma_cursor_line_exists(s);
            lemma_cursor_line_exists(ScreenState { row: s.row + amount, ..s });
            lemma_cursor_line_exists(ScreenState {
                row: sat_sub(param_or(params, 0, 1), 1),
                col: sat_sub(param_or(params, 1, 1), 1),
                ..s
            });
            lemma_fit_bounded(after_csi(s, params, action));
        },
        ScreenOp::Clear => {
            lemma_empty_bytes();
        },
    }
}

/// Whatever run of operations the screen goes through, it keeps its shape
/// (between one line and its limit, the cursor on a line) and its text
/// within the 100 KiB budget.
pub proof fn runs_stay_within_bounds(s: ScreenState, ops: Seq<ScreenOp>)
    requires
        s.max_lines >= 1,
        screen_wf(s),
        within_budget(s),
    ensures
        screen_wf(after_ops(s, ops)),
        within_budget(after_ops(s, ops)),
        after_ops(s, ops).max_lines == s.max_lines,
        1 <= after_ops(s, ops).lines.len() <= s.max_lines,
    decreases ops.len(),
{
    if ops.len() > 0 {
        lemma_op_keeps_shape(s, ops[0]);
        runs_stay_within_bounds(after_op(s, ops[0]), ops.drop_first());
    }
}

/// A bounded scrollback of character lines with a cursor.
#[derive(Debug)]
pub struct ScreenBuffer {
    lines: Vec<Vec<char>>,
    max_lines: usize,
    cursor_row: usize,
    cursor_col: usize,
    bytes: u128,
}

impl View for ScreenBuffer {
    type V = ScreenState;

    closed spec fn view(&self) -> ScreenState {
        ScreenState {
            lines: Seq::new(self.lines.len() as nat, |i: int| self.lines[i]@),
            max_lines: self.max_lines as nat,
            row: self.cursor_row as nat,
            col: self.cursor_col as nat,
        }
    }
}

impl ScreenBuffer {
    /// The well-formedness of the buffer: [`screen_wf`], the text within
    /// its budget, and the running byte count right.
    pub open spec fn wf(&self) -> bool {
        &&& screen_wf(self@)
        &&& within_budget(self@)
        &&& self.counted()
    }

    /// The running byte count equals the UTF-8 size of the lines.
    pub closed spec fn counted(&self) -> bool {
        self.bytes == text_bytes(self@.lines)
    }

    /// An empty screen keeping at most `max_lines` lines.
    pub fn new(max_lines: usize) -> (r: Self)
        ensures
            r@ == (ScreenState { lines: seq![Seq::<char>::empty()], max_lines: max_lines as nat, row: 0, col: 0 }),
            r.wf(),
    {
        let mut lines: Vec<Vec<char>> = Vec::new();
        lines.push(Vec::new());
        let r = ScreenBuffer { lines, max_lines, cursor_row: 0, cursor_col: 0, bytes: 0 };
        assert(r@.lines =~= seq![Seq::<char>::empty()]);
        proof {
            lemma_empty_bytes();
        }
        r
    }

    /// Whether the buffer is well formed (it always is: every operation
    /// keeps it so).
    pub fn is_well_formed(&self) -> (r: bool)
        ensures
            r == self.wf(),
    {
        let n = self.lines.len();
        let shape = if self.max_lines >= 1 {
            1 <= n && n <= self.max_lines && self.cursor_row < n
        } else {
            n <= 1 && self.cursor_row == 0
        };
        if !shape {
            return false;
        }
        let mut acc: u128 = 0;
        let mut i: usize = 0;
        proof {
            assert(self@.lines.take(0) =~= Seq::<Seq<char>>::empty());
        }
        while i < n
            invariant
                n == self.lines.len(),
                i <= n,
                acc == text_bytes(self@.lines.take(i as int)),
                acc <= 102400,
            decreases n - i,
        {
            let b = bytes_of(&self.lines[i]);
            proof {
                assert(self@.lines.take(i + 1) =~= self@.lines.take(i as int).push(self@.lines[i as int]));
                lemma_text_bytes_push(self@.lines.take(i as int), self@.lines[i as int]);
            }
            if b > 102400 - acc {
                proof {
                    lemma_text_bytes_prefix(self@.lines, i + 1);
                }
                return false;
            }
            acc = acc + b;
            i = i + 1;
        }
        assert(self@.lines.take(n as int) =~= self@.lines);
        acc == self.bytes
    }

    /// The line limit.
    pub fn max_lines(&self) -> (r: usize)
        ensures
            r == self@.max_lines,
    {
        self.max_lines
    }

    /// The cursor row.
    pub fn cursor_row(&self) -> (r: usize)
        ensures
            r == self@.row,
    {
        self.cursor_row
    }

    /// The cursor column.
    pub fn cursor_col(&self) -> (r: usize)
        ensures
            r == self@.col,
    {
        self.cursor_col
    }

    /// The number of lines held.
    pub fn line_count(&self) -> (r: usize)
        ensures
            r == self@.lines.len(),
    {
        self.lines.len()
    }

    /// The last `height` lines as strings (all of them when there are fewer).
    pub fn get_visible_lines(&self, height: usize) -> (r: Vec<String>)
        ensures
            r@.len() == visible_lines(self@, height as nat).len(),
            forall|i: int| 0 <= i < r@.len() ==> #[trigger] r@[i]@ == visible_lines(self@, height as nat)[i],
    {
        let total = self.lines.len();
        let start: usize = if total <= height { 0 } else { total - height };
        let mut out: Vec<String> = Vec::new();
        let mut i = start;
        while i < total
            invariant
                start <= i <= total,
                total == self.lines.len(),
                start == (if total <= height { 0 } else { total - height }),
                out@.len() == i - start,
                forall|j: int| 0 <= j < out@.len() ==> #[trigger] out@[j]@ == self.lines[start + j]@,
            decreases total - i,
        {
            let s = string_from_chars(self.lines[i].as_slice());
            out.push(s);
            i = i + 1;
        }
        out
    }

    /// Back to one empty line with the cursor at the origin.
    pub fn clear(&mut self)
        ensures
            final(self)@ == cleared(old(self)@),
            final(self).wf(),
    {
        self.lines.clear();
        self.lines.push(Vec::new());
        self.cursor_row = 0;
        self.cursor_col = 0;
        self.bytes = 0;
        assert(self@.lines =~= seq![Seq::<char>::empty()]);
        proof {
            lemma_empty_bytes();
        }
    }

    /// Makes the cursor line exist and takes it out, leaving an empty line in its place.
    fn take_cursor_line(&mut self) -> (line: Vec<char>)
        requires
            screen_rows_free(old(self)@),
            old(self)@.max_lines >= 1,
            old(self).counted(),
        ensures
            line@ == cursor_line(old(self)@),
            final(self)@ == edit_line(old(self)@, Seq::<char>::empty(), old(self)@.col),
            final(self).cursor_row < final(self).lines.len(),
            screen_wf(final(self)@),
            final(self).bytes == text_bytes(final(self)@.lines.update(final(self)@.row as int, line@)),
            final(self).bytes <= old(self).bytes,
    {
        self.ensure_cursor_line();
        let row = self.cursor_row;
        let ghost before = self@;
        let mut line: Vec<char> = Vec::new();
        self.lines.set_and_swap(row, &mut line);
        assert(self@.lines =~= before.lines.update(row as int, Seq::<char>::empty()));
        assert(self@.lines.update(row as int, line@) =~= before.lines);
        line
    }

    /// Puts `line` back as the cursor line and moves the cursor to column
    /// `col`. The line taken out was `taken`; the edit that made `line` of it
    /// removed `removed` bytes and added `added`.
    fn put_cursor_line(&mut self, line: Vec<char>, col: usize, removed: u128, added: u128, Ghost(taken): Ghost<Seq<char>>)
        requires
            old(self).cursor_row < old(self).lines.len(),
            old(self).bytes == text_bytes(old(self)@.lines.update(old(self)@.row as int, taken)),
            old(self).bytes <= text_budget(),
            removed <= line_bytes(taken),
            line_bytes(taken) + added == line_bytes(line@) + removed,
            added <= 0xffff_ffff_ffff_ffff_ffff_ffff,
        ensures
            final(self)@ == (ScreenState {
                lines: old(self)@.lines.update(old(self)@.row as int, line@),
                max_lines: old(self)@.max_lines,
                row: old(self)@.row,
                col: col as nat,
            }),
            final(self).counted(),
    {
        let row = self.cursor_row;
        let ghost before = self@;
        let ghost with_taken = before.lines.update(row as int, taken);
        proof {
            lemma_text_bytes_update(with_taken, row as int, line@);
            assert(with_taken.update(row as int, line@) =~= before.lines.update(row as int, line@));
        }
        self.lines.set(row, line);
        self.cursor_col = col;
        self.bytes = self.bytes - removed;
        self.bytes = self.bytes + added;
        assert(self@.lines =~= before.lines.update(row as int, line@));
    }

    /// Writes a printable character at the cursor and advances the cursor,
    /// then brings the text within its budget ([`fit`]).
    pub fn print(&mut self, c: char)
        requires
            old(self).wf(),
            old(self)@.max_lines >= 1,
            old(self)@.col < usize::MAX,
        ensures
            final(self)@ == fit(after_print(old(self)@, c)),
            final(self).wf(),
    {
        let ghost s0 = self@;
        let col = self.cursor_col;
        let mut line = self.take_cursor_line();
        let ghost taken = line@;
        let len = line.len();
        let removed: u128 = if col < len { char_len(line[col]) as u128 } else { 0 };
        let pad: u128 = if col > len { (col - len) as u128 } else { 0 };
        let added: u128 = pad + char_len(c) as u128;
        proof {
            lemma_put_char_bytes(taken, col as nat, c);
            lemma_line_bytes_one(c);
        }
        put_char_at(&mut line, col, c);
        self.put_cursor_line(line, col + 1, removed, added, Ghost(taken));
        assert(self@.lines =~= with_cursor_line(s0).lines.update(
            with_cursor_line(s0).row as int,
            put_char(cursor_line(s0), s0.col, c),
        ));
        assert(self@ == after_print(s0, c));
        self.fit_budget();
    }

    /// Applies a C0 control byte: line feed, carriage return, tab or backspace
    /// (other bytes are ignored), then brings the text within its budget.
    pub fn execute(&mut self, byte: u8)
        requires
            old(self).wf(),
            execute_needs_line(old(self)@, byte) ==> old(self)@.max_lines >= 1,
            byte == 0x09 ==> next_tab_stop(old(self)@.col) <= usize::MAX,
        ensures
            final(self)@ == fit(after_execute(old(self)@, byte)),
            final(self).wf(),
    {
        let ghost s0 = self@;
        if byte == 0x0A {
            self.cursor_row = self.cursor_row + 1;
            self.cursor_col = 0;
            self.ensure_cursor_line();
        } else if byte == 0x0D {
            self.cursor_col = 0;
        } else if byte == 0x09 {
            let ghost s0 = self@;
            let col = self.cursor_col;
            let next = (col / 4 + 1) * 4;
            let mut line = self.take_cursor_line();
            let ghost taken = line@;
            let old_b = bytes_of(&line);
            blank_cells(&mut line, col, next);
            let new_b = bytes_of(&line);
            self.put_cursor_line(line, next, old_b, new_b, Ghost(taken));
            assert(self@.lines =~= with_cursor_line(s0).lines.update(
                with_cursor_line(s0).row as int,
                blanked(cursor_line(s0), s0.col, next_tab_stop(s0.col)),
            ));
        } else if byte == 0x08 {
            if self.cursor_col > 0 {
                self.cursor_col = self.cursor_col - 1;
                let col = self.cursor_col;
                let ghost t = self@;
                let mut line = self.take_cursor_line();
                let ghost taken = line@;
                let old_b = bytes_of(&line);
                if col < line.len() {
                    line.remove(col);
                }
                let new_b = bytes_of(&line);
                self.put_cursor_line(line, col, old_b, new_b, Ghost(taken));
                proof {
                    if (col as nat) < cursor_line(t).len() {
                        assert(self@.lines =~= with_cursor_line(t).lines.update(
                            with_cursor_line(t).row as int,
                            cursor_line(t).remove(col as int),
                        ));
                    } else {
                        assert(self@.lines =~= with_cursor_line(t).lines);
                    }
                }
            }
        }
        assert(self@ == after_execute(s0, byte));
        self.fit_budget();
    }

    /// Applies a CSI sequence with final character `action`; `params[i]` is
    /// the leading value of the i-th parameter. Cursor movement (`A` `B` `C`
    /// `D` `G` `H` `f`), erase in display (`J`) and in line (`K`), insert
    /// (`@`), delete (`P`) and erase (`X`) of characters are applied; other
    /// actions are ignored. The text is then brought within its budget.
    pub fn csi_dispatch(&mut self, params: &[u16], action: char)
        requires
            old(self).wf(),
            csi_needs_line(action) ==> old(self)@.max_lines >= 1,
            csi_in_range(old(self)@, params@, action),
        ensures
            final(self)@ == fit(after_csi(old(self)@, params@, action)),
            final(self).wf(),
    {
        let ghost s0 = self@;
        let first: usize = if params.len() > 0 { params[0] as usize } else { 0 };
        let amount: usize = if first >= 1 { first } else { 1 };
        if action == 'A' {
            self.cursor_row = if self.cursor_row >= amount { self.cursor_row - amount } else { 0 };
        } else if action == 'B' {
            self.cursor_row = self.cursor_row + amount;
            self.ensure_cursor_line();
        } else if action == 'C' {
            self.cursor_col = self.cursor_col + amount;
        } else if action == 'D' {
            self.cursor_col = if self.cursor_col >= amount { self.cursor_col - amount } else { 0 };
        } else if action == 'G' {
            self.cursor_col = if first >= 1 { first - 1 } else { 0 };
        } else if action == 'H' || action == 'f' {
            let row: usize = if params.len() > 0 { params[0] as usize } else { 1 };
            let col: usize = if params.len() > 1 { params[1] as usize } else { 1 };
            self.cursor_row = if row >= 1 { row - 1 } else { 0 };
            self.cursor_col = if col >= 1 { col - 1 } else { 0 };
            self.ensure_cursor_line();
        } else if action == 'J' {
            if first == 2 || first == 3 {
                self.clear();
            }
        } else if action == 'K' {
            let col = self.cursor_col;
            let mut line = self.take_cursor_line();
            let ghost taken = line@;
            let old_b = bytes_of(&line);
            let ghost l0 = line@;
            if first == 0 {
                if col < line.len() {
                    line.truncate(col);
                }
                let new_b = bytes_of(&line);
                self.put_cursor_line(line, col, old_b, new_b, Ghost(taken));
            } else if first == 1 {
                let end = if col <= line.len() { col } else { line.len() };
                let mut i: usize = 0;
                while i < end
                    invariant
                        i <= end,
                        end <= line@.len(),
                        line@.len() == l0.len(),
                        forall|j: int| 0 <= j < l0.len() ==> #[trigger] line@[j] == (if j < i { ' ' } else { l0[j] }),
                    decreases end - i,
                {
                    line.set(i, ' ');
                    i = i + 1;
                }
                let new_b = bytes_of(&line);
                self.put_cursor_line(line, col, old_b, new_b, Ghost(taken));
            } else if first == 2 {
                line.clear();
                let new_b = bytes_of(&line);
                self.put_cursor_line(line, 0, old_b, new_b, Ghost(taken));
            } else {
                let new_b = bytes_of(&line);
                self.put_cursor_line(line, col, old_b, new_b, Ghost(taken));
            }
            proof {
                let e = with_cursor_line(s0);
                assert(self@.lines =~= e.lines.update(e.row as int, self@.lines[e.row as int]));
                if first == 0 {
                    if (col as nat) < l0.len() {
                        assert(self@.lines[e.row as int] =~= l0.subrange(0, col as int));
                    }
                } else if first == 1 {
                    let end: nat = if s0.col <= l0.len() { s0.col } else { l0.len() };
                    assert(self@.lines[e.row as int] =~= Seq::new(l0.len(), |i: int| if i < end { ' ' } else { l0[i] }));
                } else if first == 2 {
                    assert(self@.lines[e.row as int] =~= Seq::<char>::empty());
                } else {
                    assert(self@.lines =~= e.lines);
                }
            }
        } else if action == '@' {
            let col = self.cursor_col;
            let mut line = self.take_cursor_line();
            let ghost taken = line@;
            let old_b = bytes_of(&line);
            insert_spaces_at(&mut line, col, amount);
            let new_b = bytes_of(&line);
            self.put_cursor_line(line, col, old_b, new_b, Ghost(taken));
            assert(self@.lines =~= with_cursor_line(s0).lines.update(
                with_cursor_line(s0).row as int,
                inserted_spaces(cursor_line(s0), s0.col, amount as nat),
            ));
        } else if action == 'P' {
            let col = self.cursor_col;
            let mut line = self.take_cursor_line();
            let ghost taken = line@;
            let old_b = bytes_of(&line);
            delete_cells(&mut line, col, amount);
            let new_b = bytes_of(&line);
            self.put_cursor_line(line, col, old_b, new_b, Ghost(taken));
            assert(self@.lines =~= with_cursor_line(s0).lines.update(
                with_cursor_line(s0).row as int,
                deleted_chars(cursor_line(s0), s0.col, amount as nat),
            ));
        } else if action == 'X' {
            let col = self.cursor_col;
            let mut line = self.take_cursor_line();
            let ghost taken = line@;
            let old_b = bytes_of(&line);
            blank_cells(&mut line, col, col + amount);
            let new_b = bytes_of(&line);
            self.put_cursor_line(line, col, old_b, new_b, Ghost(taken));
            assert(self@.lines =~= with_cursor_line(s0).lines.update(
                with_cursor_line(s0).row as int,
                blanked(cursor_line(s0), s0.col, s0.col + amount as nat),
            ));
        }
        assert(self@ == after_csi(s0, params@, action));
        self.fit_budget();
    }

    /// Brings the text within its budget: drops the oldest lines while there
    /// are more than one (the cursor row moves up with them), then cuts a
    /// single remaining line from the end.
    fn fit_budget(&mut self)
        requires
            screen_wf(old(self)@),
            old(self).counted(),
        ensures
            final(self)@ == fit(old(self)@),
            final(self).wf(),
    {
        let ghost s0 = self@;
        while self.bytes > 102400 && self.lines.len() > 1
            invariant
                screen_wf(self@),
                self.counted(),
                fit(self@) == fit(s0),
            decreases self.lines.len(),
        {
            let ghost before = self@;
            let first = bytes_of(&self.lines[0]);
            self.lines.remove(0);
            self.bytes = self.bytes - first;
            self.cursor_row = if self.cursor_row > 0 { self.cursor_row - 1 } else { 0 };
            assert(self@.lines =~= before.lines.drop_first());
            assert(self@ == (ScreenState {
                lines: before.lines.drop_first(),
                max_lines: before.max_lines,
                row: sat_sub(before.row, 1),
                col: before.col,
            }));
        }
        if self.bytes > 102400 {
            let ghost before = self@;
            let ghost l0 = before.lines[0];
            let mut line: Vec<char> = Vec::new();
            self.lines.set_and_swap(0, &mut line);
            proof {
                assert(before.lines.drop_first() =~= Seq::<Seq<char>>::empty());
                assert(text_bytes(before.lines.drop_first()) == 0);
                assert(text_bytes(before.lines) == line_bytes(before.lines[0]) + text_bytes(before.lines.drop_first()));
            }
            let mut b: u128 = self.bytes;
            while b > 102400
                invariant
                    b == line_bytes(line@),
                    cut_to_budget(line@) == cut_to_budget(l0),
                decreases line@.len(),
            {
                proof {
                    if line@.len() == 0 {
                        lemma_empty_bytes();
                    }
                    lemma_line_bytes_pop(line@);
                    lemma_line_bytes_one(line@.last());
                }
                let ghost lb = line@;
                let c = line.pop().unwrap();
                let n = char_len(c);
                b = b - n as u128;
                assert(line@ == lb.drop_last());
            }
            let ghost cut = line@;
            self.lines.set(0, line);
            self.bytes = b;
            proof {
                assert(self@.lines =~= before.lines.update(0, cut));
                assert(self@.lines.drop_first() =~= Seq::<Seq<char>>::empty());
                assert(text_bytes(self@.lines) == line_bytes(self@.lines[0]) + text_bytes(self@.lines.drop_first()));
            }
        }
    }

    /// Adds lines until the cursor row exists, then drops the oldest lines
    /// beyond the limit.
    fn ensure_cursor_line(&mut self)
        requires
            screen_rows_free(old(self)@),
            old(self).counted(),
        ensures
            final(self)@ == with_cursor_line(old(self)@),
            screen_wf(final(self)@),
            final(self).counted(),
            final(self).bytes <= old(self).bytes,
    {
        let ghost s0 = self@;
        let ghost g = grown(s0);
        while self.cursor_row >= self.lines.len()
            invariant
                self.cursor_row == s0.row,
                self.max_lines == s0.max_lines,
                self.cursor_col == s0.col,
                self.bytes == text_bytes(self@.lines),
                self.bytes == old(self).bytes,
                s0.lines.len() <= self.lines.len(),
                self.lines.len() <= s0.row + 1 || self.lines.len() == s0.lines.len(),
                self@.lines =~= s0.lines + Seq::new((self.lines.len() - s0.lines.len()) as nat, |_i: int| Seq::<char>::empty()),
            decreases self.cursor_row + 1 - self.lines.len(),
        {
            let ghost before = self@.lines;
            let empty: Vec<char> = Vec::new();
            self.lines.push(empty);
            assert(self@.lines =~= before.push(Seq::<char>::empty()));
            proof {
                lemma_text_bytes_push_empty(before);
            }
            assert(self@.lines =~= s0.lines + Seq::new((self.lines.len() - s0.lines.len()) as nat, |_i: int| Seq::<char>::empty()));
        }
        assert(self@.lines =~= g);
        let ghost k = excess(g.len(), s0.max_lines);
        let ghost mut j: nat = 0;
        while self.lines.len() > self.max_lines
            invariant
                self.max_lines == s0.max_lines,
                self.cursor_col == s0.col,
                self.bytes == text_bytes(self@.lines),
                self.bytes <= old(self).bytes,
                g.len() == j + self.lines.len(),
                j <= k,
                k == excess(g.len(), s0.max_lines),
                self@.lines =~= g.subrange(j as int, g.len() as int),
                self.cursor_row == sat_sub(s0.row, j),
            decreases self.lines.len(),
        {
            let ghost before = self@.lines;
            let first = bytes_of(&self.lines[0]);
            self.lines.remove(0);
            assert(self@.lines =~= before.subrange(1, before.len() as int));
            assert(before.drop_first() =~= before.subrange(1, before.len() as int));
            self.bytes = self.bytes - first;
            self.cursor_row = if self.cursor_row > 0 { self.cursor_row - 1 } else { 0 };
            proof {
                j = j + 1;
            }
            assert(self@.lines =~= g.subrange(j as int, g.len() as int));
        }
    }
}


/// Pads `line` with spaces to at least `width` characters.
fn pad_line(line: &mut Vec<char>, width: usize)
    ensures
        final(line)@ == padded(old(line)@, width as nat),
{
    let ghost l0 = line@;
    while line.len() < width
        invariant
            l0.len() <= line@.len(),
            line@.len() <= width || line@.len() == l0.len(),
            line@ =~= l0 + Seq::new((line@.len() - l0.len()) as nat, |_i: int| ' '),
        decreases width - line.len(),
    {
        line.push(' ');
        assert(line@ =~= l0 + Seq::new((line@.len() - l0.len()) as nat, |_i: int| ' '));
    }
    assert(line@ =~= padded(l0, width as nat));
}

/// Writes `c` at `col`, padding first.
fn put_char_at(line: &mut Vec<char>, col: usize, c: char)
    ensures
        final(line)@ == put_char(old(line)@, col as nat, c),
{
    pad_line(line, col);
    if col < line.len() {
        line.set(col, c);
    } else {
        line.push(c);
    }
}

/// Pads to `to` and sets the cells `from..to` to spaces.
fn blank_cells(line: &mut Vec<char>, from: usize, to: usize)
    ensures
        final(line)@ == blanked(old(line)@, from as nat, to as nat),
{
    let ghost l0 = line@;
    pad_line(line, to);
    let ghost p = line@;
    let mut i = from;
    while i < to
        invariant
            from <= i,
            from <= to ==> i <= to,
            from > to ==> i == from,
            p == padded(l0, to as nat),
            line@.len() == p.len(),
            p.len() >= to,
            forall|j: int| 0 <= j < p.len() ==> #[trigger] line@[j] == (if from <= j < i { ' ' } else { p[j] }),
        decreases to - i,
    {
        line.set(i, ' ');
        i = i + 1;
    }
    assert(line@ =~= blanked(l0, from as nat, to as nat));
}

/// Inserts `count` spaces at `col`, padding first.
fn insert_spaces_at(line: &mut Vec<char>, col: usize, count: usize)
    ensures
        final(line)@ == inserted_spaces(old(line)@, col as nat, count as nat),
{
    let ghost l0 = line@;
    pad_line(line, col);
    let ghost p = line@;
    let mut tail = line.split_off(col);
    let mut k: usize = 0;
    while k < count
        invariant
            k <= count,
            line@ =~= p.subrange(0, col as int) + Seq::new(k as nat, |_i: int| ' '),
        decreases count - k,
    {
        line.push(' ');
        k = k + 1;
        assert(line@ =~= p.subrange(0, col as int) + Seq::new(k as nat, |_i: int| ' '));
    }
    line.append(&mut tail);
    assert(line@ =~= inserted_spaces(l0, col as nat, count as nat));
}

/// Removes up to `count` characters starting at `col`.
fn delete_cells(line: &mut Vec<char>, col: usize, count: usize)
    ensures
        final(line)@ == deleted_chars(old(line)@, col as nat, count as nat),
{
    let ghost l0 = line@;
    if col >= line.len() || count == 0 {
        return;
    }
    let end = if count <= line.len() - col { col + count } else { line.len() };
    let mut tail = line.split_off(end);
    line.truncate(col);
    line.append(&mut tail);
    assert(line@ =~= deleted_chars(l0, col as nat, count as nat));
}

} // verus!
