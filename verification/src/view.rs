//! What the screen shows: the text of the tab bar, the key-hint bar, the
//! status bar, the host list rows and the dialogs, each piece with the tone
//! it is drawn in. The runtime turns tones into colours and draws.

use vstd::prelude::*;
use crate::app::{App, Panel, Session};
use crate::config::{AuthMethod, HostConfig};
use crate::sftp::FileEntry;
use crate::text::{decimal, decimal_string, string_push, utf8_bytes};

verus! {

/// How a piece of text is drawn.
#[derive(Debug, Clone, Copy, PartialEq, Eq, Structural)]
pub enum Tone {
    /// The application's name.
    AppName,
    /// Unremarkable text.
    Plain,
    /// Dimmed text: separators, hints, groups.
    Muted,
    /// The tab of the session shown.
    ActiveTab,
    /// A connected session's tab, or a connected marker.
    Live,
    /// A session tab without connection.
    IdleTab,
    /// The tab of the panel shown.
    ActivePanelTab,
    /// Another panel's tab.
    PanelTab,
    /// The name of a bar or a field in focus.
    Heading,
    /// A key to press.
    Key,
    /// A key that matters in the current state.
    StrongKey,
    /// A key that leaves or quits.
    DangerKey,
    /// Emphasised text.
    Bold,
    /// Dialog text.
    Accent,
    /// A name in a dialog.
    Highlight,
    /// An error message.
    Error,
    /// The button that confirms.
    ConfirmButton,
    /// The button that cancels.
    CancelButton,
    /// The value of the field in focus.
    Bright,
    /// The value of another field.
    Dim,
    /// The status bar while the shown session is connected.
    StatusLive,
    /// The status bar otherwise.
    StatusIdle,
}

/// A piece of text and its tone.
#[derive(Debug)]
pub struct Segment {
    pub text: String,
    pub tone: Tone,
}

/// The text and tone of each segment.
pub open spec fn segs(v: Seq<Segment>) -> Seq<(Seq<char>, Tone)> {
    v.map_values(|s: Segment| (s.text@, s.tone))
}

/// The text and tone of each segment of each line.
pub open spec fn seg_lines(v: Seq<Vec<Segment>>) -> Seq<Seq<(Seq<char>, Tone)>> {
    v.map_values(|l: Vec<Segment>| segs(l@))
}

fn push_seg(v: &mut Vec<Segment>, text: String, tone: Tone)
    ensures
        segs(final(v)@) == segs(old(v)@).push((text@, tone)),
{
    let ghost t = text@;
    v.push(Segment { text, tone });
    assert(segs(v@) =~= segs(old(v)@).push((t, tone)));
}

fn push_lit(v: &mut Vec<Segment>, text: &str, tone: Tone)
    ensures
        segs(final(v)@) == segs(old(v)@).push((text@, tone)),
{
    push_seg(v, String::from_str(text), tone);
}

fn push_line(v: &mut Vec<Vec<Segment>>, line: Vec<Segment>)
    ensures
        seg_lines(final(v)@) == seg_lines(old(v)@).push(segs(line@)),
{
    let ghost l = segs(line@);
    v.push(line);
    assert(seg_lines(v@) =~= seg_lines(old(v)@).push(l));
}

/// `s` followed by spaces up to `width` characters (`{:<width}`).
pub open spec fn pad_right(s: Seq<char>, width: nat) -> Seq<char> {
    if s.len() < width { s + Seq::new((width - s.len()) as nat, |_i: int| ' ') } else { s }
}

/// `s` after spaces up to `width` characters (`{:>width}`).
pub open spec fn pad_left(s: Seq<char>, width: nat) -> Seq<char> {
    if s.len() < width { Seq::new((width - s.len()) as nat, |_i: int| ' ') + s } else { s }
}

fn pad_right_string(s: &str, width: usize) -> (r: String)
    ensures
        r@ == pad_right(s@, width as nat),
{
    let mut r = String::from_str(s);
    let n = s.unicode_len();
    if n < width {
        let mut k: usize = n;
        while k < width
            invariant
                n <= k <= width,
                n == s@.len(),
                r@ == s@ + Seq::new((k - n) as nat, |_i: int| ' '),
            decreases width - k,
        {
            string_push(&mut r, ' ');
            k = k + 1;
            assert(r@ =~= s@ + Seq::new((k - n) as nat, |_i: int| ' '));
        }
    }
    r
}

fn pad_left_string(s: &str, width: usize) -> (r: String)
    ensures
        r@ == pad_left(s@, width as nat),
{
    let n = s.unicode_len();
    let mut r = String::new();
    if n < width {
        let mut k: usize = n;
        while k < width
            invariant
                n <= k <= width,
                n == s@.len(),
                r@ == Seq::new((k - n) as nat, |_i: int| ' '),
            decreases width - k,
        {
            string_push(&mut r, ' ');
            k = k + 1;
            assert(r@ =~= Seq::new((k - n) as nat, |_i: int| ' '));
        }
    }
    r.append(s);
    r
}

/// `n` copies of `c`.
pub open spec fn repeated(c: char, n: nat) -> Seq<char> {
    Seq::new(n, |_i: int| c)
}

fn repeat_char(c: char, n: usize) -> (r: String)
    ensures
        r@ == repeated(c, n as nat),
{
    let mut r = String::new();
    let mut k: usize = 0;
    while k < n
        invariant
            k <= n,
            r@ == repeated(c, k as nat),
        decreases n - k,
    {
        string_push(&mut r, c);
        k = k + 1;
        assert(r@ =~= repeated(c, k as nat));
    }
    r
}

/// The status bar: the status message with a space on each side, live while
/// the shown session is connected.
pub open spec fn status_segment(status: Seq<char>, live: bool) -> (Seq<char>, Tone) {
    (" "@ + status + " "@, if live { Tone::StatusLive } else { Tone::StatusIdle })
}

/// The status bar of `app`.
pub fn status_bar(app: &App) -> (r: Segment)
    ensures
        (r.text@, r.tone) == status_segment(app.status_msg@, crate::app::session_at(app.sessions@, app.active_session) matches Some(s) && s.connected),
{
    let live = app.has_active_connection();
    let mut text = String::from_str(" ");
    text.append(app.status_msg.as_str());
    text.append(" ");
    Segment { text, tone: if live { Tone::StatusLive } else { Tone::StatusIdle } }
}

/// The tab of session `s`, drawn as shown when `active`.
pub open spec fn session_tab(s: Session, active: bool) -> (Seq<char>, Tone) {
    (
        session_label(s),
        if active { Tone::ActiveTab } else if s.connected { Tone::Live } else { Tone::IdleTab },
    )
}

/// The label of session `s`'s tab: a connection mark and the name, in spaces.
pub open spec fn session_label(s: Session) -> Seq<char> {
    " "@ + (if s.connected { "\u{25cf}"@ } else { "\u{25cb}"@ }) + " "@ + s.name@ + " "@
}

/// The label of session `s`'s tab.
pub(crate) fn session_label_string(s: &Session) -> (r: String)
    ensures
        r@ == session_label(*s),
{
    let mut label = String::from_str(" ");
    label.append(if s.connected { "\u{25cf}" } else { "\u{25cb}" });
    label.append(" ");
    label.append(s.name.as_str());
    label.append(" ");
    label
}

/// The number of terminal columns `t` takes when drawn, as the drawing
/// library measures a span (Unicode display widths).
pub uninterp spec fn display_columns(t: Seq<char>) -> nat;

/// The columns `t` takes when drawn, from `ratatui`'s `Span::width` (the
/// Unicode display width of the text). The contract claims only that the
/// result is [`display_columns`] of `t`: the same text always measures the
/// same.
#[verifier::external_body]
pub(crate) fn display_width(t: &str) -> (r: usize)
    ensures
        r == display_columns(t@),
{
    ratatui::text::Span::raw(t).width()
}

/// The session tabs of `a`.
pub open spec fn session_tabs(a: App) -> Seq<(Seq<char>, Tone)> {
    Seq::new(
        a.sessions@.len(),
        |i: int| session_tab(a.sessions@[i], i == a.active_session && a.panel == Panel::Terminal),
    )
}

/// The tab of panel `p` while `shown` is shown.
pub open spec fn panel_tab(label: Seq<char>, p: Panel, shown: Panel) -> (Seq<char>, Tone) {
    (label, if p == shown { Tone::ActivePanelTab } else { Tone::PanelTab })
}

/// The tab bar: the application's name, the session tabs between
/// separators, and the panel tabs.
pub open spec fn tab_bar_segments(a: App) -> Seq<(Seq<char>, Tone)> {
    seq![(" ssh-t "@, Tone::AppName), ("\u{2502}"@, Tone::Muted)]
        + (if a.sessions@.len() > 0 { session_tabs(a).push(("\u{2502}"@, Tone::Muted)) } else { Seq::empty() })
        + seq![
            panel_tab(" Alt-H Hosts "@, Panel::HostList, a.panel),
            panel_tab(" Alt-T Term "@, Panel::Terminal, a.panel),
            panel_tab(" Alt-S SFTP "@, Panel::Sftp, a.panel),
        ]
}

fn panel_tab_segment(v: &mut Vec<Segment>, label: &str, p: Panel, shown: Panel)
    ensures
        segs(final(v)@) == segs(old(v)@).push(panel_tab(label@, p, shown)),
{
    push_lit(v, label, if p == shown { Tone::ActivePanelTab } else { Tone::PanelTab });
}

/// The tab bar of `app`.
pub fn tab_bar(app: &App) -> (r: Vec<Segment>)
    ensures
        segs(r@) == tab_bar_segments(*app),
{
    let mut v: Vec<Segment> = Vec::new();
    push_lit(&mut v, " ssh-t ", Tone::AppName);
    push_lit(&mut v, "\u{2502}", Tone::Muted);
    let ghost head = segs(v@);
    if app.sessions.len() > 0 {
        let mut i: usize = 0;
        while i < app.sessions.len()
            invariant
                i <= app.sessions@.len(),
                segs(v@) == head + session_tabs(*app).subrange(0, i as int),
            decreases app.sessions.len() - i,
        {
            let s = &app.sessions[i];
            let active = i == app.active_session && app.panel == Panel::Terminal;
            let label = session_label_string(s);
            let tone = if active { Tone::ActiveTab } else if s.connected { Tone::Live } else { Tone::IdleTab };
            push_seg(&mut v, label, tone);
            assert(session_tabs(*app).subrange(0, i + 1) =~= session_tabs(*app).subrange(0, i as int).push(
                session_tab(app.sessions@[i as int], active),
            ));
            i = i + 1;
        }
        assert(session_tabs(*app).subrange(0, i as int) =~= session_tabs(*app));
        push_lit(&mut v, "\u{2502}", Tone::Muted);
    }
    panel_tab_segment(&mut v, " Alt-H Hosts ", Panel::HostList, app.panel);
    panel_tab_segment(&mut v, " Alt-T Term ", Panel::Terminal, app.panel);
    panel_tab_segment(&mut v, " Alt-S SFTP ", Panel::Sftp, app.panel);
    assert(segs(v@) =~= tab_bar_segments(*app));
    v
}

/// The key hints of the host list; the session keys appear while there are
/// sessions.
pub open spec fn host_list_hints(filter: Seq<char>, has_sessions: bool) -> Seq<(Seq<char>, Tone)> {
    seq![
        (" Filter"@, Tone::Heading),
        (if filter.len() == 0 { Seq::empty() } else { " "@ + filter }, Tone::Plain),
        ("_"@, Tone::Plain),
        ("  "@, Tone::Muted),
        ("Enter"@, Tone::Key),
        (":Connect "@, Tone::Plain),
        ("a"@, Tone::Key),
        (":Add "@, Tone::Plain),
        ("e"@, Tone::Key),
        (":Edit "@, Tone::Plain),
        ("d"@, Tone::Key),
        (":Del "@, Tone::Plain),
    ] + (if has_sessions {
        seq![("Tab"@, Tone::StrongKey), (":Terminal "@, Tone::Plain), ("Alt-\u{2190}/\u{2192}"@, Tone::StrongKey), (":Tabs "@, Tone::Plain)]
    } else {
        Seq::empty()
    }) + seq![
        ("Alt-H/T/S"@, Tone::Key),
        (":Panels "@, Tone::Plain),
        ("?"@, Tone::Key),
        (":Help "@, Tone::Plain),
        ("q"@, Tone::DangerKey),
        (":Quit"@, Tone::Plain),
    ]
}

/// The key hints of the terminal panel for session `s`, the `pos`-th (from
/// 0) of `count` sessions; the position shows with two or more sessions.
pub open spec fn terminal_hints(s: Session, pos: nat, count: nat) -> Seq<(Seq<char>, Tone)> {
    seq![
        (" "@ + s.name@ + " "@, Tone::StrongKey),
        (" "@, Tone::Plain),
        ("Alt-W"@, Tone::DangerKey),
        (":Close "@, Tone::Plain),
        ("Alt-\u{2190}/\u{2192}"@, Tone::Key),
        (":Tabs "@, Tone::Plain),
        ("Alt-H/T/S"@, Tone::Key),
        (":Panels "@, Tone::Plain),
        if count > 1 {
            ("["@ + decimal(pos + 1) + "/"@ + decimal(count) + "]"@, Tone::Muted)
        } else {
            (Seq::empty(), Tone::Plain)
        },
    ]
}

/// The key hints of the SFTP panel.
pub open spec fn sftp_hints() -> Seq<(Seq<char>, Tone)> {
    seq![
        (" SFTP"@, Tone::Heading),
        ("  "@, Tone::Plain),
        ("j/k"@, Tone::Key),
        (":Nav "@, Tone::Plain),
        ("Enter"@, Tone::Key),
        (":Open "@, Tone::Plain),
        ("Backspace"@, Tone::Key),
        (":Up "@, Tone::Plain),
        ("r"@, Tone::Key),
        (":Refresh "@, Tone::Plain),
        ("d"@, Tone::Key),
        (":Download "@, Tone::Plain),
        ("Alt-H/T/S"@, Tone::Key),
        (":Panels "@, Tone::Plain),
        ("Alt-\u{2190}/\u{2192}"@, Tone::Key),
        (":Tabs "@, Tone::Plain),
        ("Esc"@, Tone::DangerKey),
        (":Back"@, Tone::Plain),
    ]
}

/// The key hints of the help panel.
pub open spec fn help_hints() -> Seq<(Seq<char>, Tone)> {
    seq![(" Help"@, Tone::Heading), ("  "@, Tone::Plain), ("Esc/?"@, Tone::Key), (":Back"@, Tone::Plain)]
}

/// The key-hint bar of `a`.
pub open spec fn input_bar_segments(a: App) -> Seq<(Seq<char>, Tone)> {
    match a.panel {
        Panel::HostList => host_list_hints(a.host_filter@, a.sessions@.len() > 0),
        Panel::Terminal => match crate::app::session_at(a.sessions@, a.active_session) {
            Some(s) => terminal_hints(s, a.active_session as nat, a.sessions@.len()),
            None => seq![(" No active session "@, Tone::Muted)],
        },
        Panel::Sftp => sftp_hints(),
        Panel::Help => help_hints(),
    }
}

fn push_hint(v: &mut Vec<Segment>, key: &str, tone: Tone, what: &str)
    ensures
        segs(final(v)@) == segs(old(v)@).push((key@, tone)).push((what@, Tone::Plain)),
{
    push_lit(v, key, tone);
    push_lit(v, what, Tone::Plain);
}

/// The key-hint bar of `app`.
pub fn input_bar(app: &App) -> (r: Vec<Segment>)
    ensures
        segs(r@) == input_bar_segments(*app),
{
    let mut v: Vec<Segment> = Vec::new();
    match app.panel {
        Panel::HostList => {
            push_lit(&mut v, " Filter", Tone::Heading);
            let filter = if app.host_filter.unicode_len() == 0 {
                String::new()
            } else {
                let mut f = String::from_str(" ");
                f.append(app.host_filter.as_str());
                f
            };
            push_seg(&mut v, filter, Tone::Plain);
            push_lit(&mut v, "_", Tone::Plain);
            push_lit(&mut v, "  ", Tone::Muted);
            push_hint(&mut v, "Enter", Tone::Key, ":Connect ");
            push_hint(&mut v, "a", Tone::Key, ":Add ");
            push_hint(&mut v, "e", Tone::Key, ":Edit ");
            push_hint(&mut v, "d", Tone::Key, ":Del ");
            if app.sessions.len() > 0 {
                push_hint(&mut v, "Tab", Tone::StrongKey, ":Terminal ");
                push_hint(&mut v, "Alt-\u{2190}/\u{2192}", Tone::StrongKey, ":Tabs ");
            }
            push_hint(&mut v, "Alt-H/T/S", Tone::Key, ":Panels ");
            push_hint(&mut v, "?", Tone::Key, ":Help ");
            push_hint(&mut v, "q", Tone::DangerKey, ":Quit");
        },
        Panel::Terminal => {
            if app.active_session < app.sessions.len() {
                let s = &app.sessions[app.active_session];
                let mut info = String::from_str(" ");
                info.append(s.name.as_str());
                info.append(" ");
                push_seg(&mut v, info, Tone::StrongKey);
                push_lit(&mut v, " ", Tone::Plain);
                push_hint(&mut v, "Alt-W", Tone::DangerKey, ":Close ");
                push_hint(&mut v, "Alt-\u{2190}/\u{2192}", Tone::Key, ":Tabs ");
                push_hint(&mut v, "Alt-H/T/S", Tone::Key, ":Panels ");
                if app.sessions.len() > 1 {
                    let mut pos = String::from_str("[");
                    let shown = decimal_string((app.active_session + 1) as u64);
                    pos.append(shown.as_str());
                    pos.append("/");
                    let count = decimal_string(app.sessions.len() as u64);
                    pos.append(count.as_str());
                    pos.append("]");
                    push_seg(&mut v, pos, Tone::Muted);
                } else {
                    push_seg(&mut v, String::new(), Tone::Plain);
                }
            } else {
                push_lit(&mut v, " No active session ", Tone::Muted);
            }
        },
        Panel::Sftp => {
            push_lit(&mut v, " SFTP", Tone::Heading);
            push_lit(&mut v, "  ", Tone::Plain);
            push_hint(&mut v, "j/k", Tone::Key, ":Nav ");
            push_hint(&mut v, "Enter", Tone::Key, ":Open ");
            push_hint(&mut v, "Backspace", Tone::Key, ":Up ");
            push_hint(&mut v, "r", Tone::Key, ":Refresh ");
            push_hint(&mut v, "d", Tone::Key, ":Download ");
            push_hint(&mut v, "Alt-H/T/S", Tone::Key, ":Panels ");
            push_hint(&mut v, "Alt-\u{2190}/\u{2192}", Tone::Key, ":Tabs ");
            push_hint(&mut v, "Esc", Tone::DangerKey, ":Back");
        },
        Panel::Help => {
            push_lit(&mut v, " Help", Tone::Heading);
            push_lit(&mut v, "  ", Tone::Plain);
            push_hint(&mut v, "Esc/?", Tone::Key, ":Back");
        },
    }
    assert(segs(v@) =~= input_bar_segments(*app));
    v
}

/// The letter that marks an authentication method in the host list.
pub open spec fn auth_icon(a: AuthMethod) -> Seq<char> {
    match a {
        AuthMethod::Password => "P"@,
        AuthMethod::Key { .. } => "K"@,
        AuthMethod::Agent => "A"@,
    }
}

/// Whether a connected session runs on the host and port of `h`.
pub open spec fn host_live(sessions: Seq<Session>, h: HostConfig) -> bool {
    exists|i: int|
        0 <= i < sessions.len() && (#[trigger] sessions[i]).connected && sessions[i].host_config.host@ == h.host@
            && sessions[i].host_config.port == h.port
}

/// `user@host:port` of `h`.
pub open spec fn host_address(h: HostConfig) -> Seq<char> {
    h.user@ + "@"@ + h.host@ + ":"@ + decimal(h.port as nat)
}

/// A row of the host list: the authentication letter, the name padded to 20
/// columns, the address, a marker when connected and the group when set.
pub open spec fn host_row_segments(sessions: Seq<Session>, h: HostConfig) -> Seq<(Seq<char>, Tone)> {
    seq![
        ("["@ + auth_icon(h.auth) + "] "@, Tone::Heading),
        (pad_right(h.name@, 20), Tone::Bold),
        (" "@ + host_address(h), Tone::Plain),
        if host_live(sessions, h) { (" \u{25cf}"@, Tone::Live) } else { (Seq::empty(), Tone::Plain) },
        if h.group@.len() > 0 { (" ["@ + h.group@ + "]"@, Tone::Muted) } else { (Seq::empty(), Tone::Plain) },
    ]
}

fn address_string(h: &HostConfig) -> (r: String)
    ensures
        r@ == host_address(*h),
{
    let mut r = h.user.clone();
    r.append("@");
    r.append(h.host.as_str());
    r.append(":");
    let port = decimal_string(h.port as u64);
    r.append(port.as_str());
    r
}

/// The row of `host` in the host list of `app`.
pub fn host_row(app: &App, host: &HostConfig) -> (r: Vec<Segment>)
    ensures
        segs(r@) == host_row_segments(app.sessions@, *host),
{
    let mut v: Vec<Segment> = Vec::new();
    let icon = match host.auth {
        AuthMethod::Password => "P",
        AuthMethod::Key { .. } => "K",
        AuthMethod::Agent => "A",
    };
    let mut tag = String::from_str("[");
    tag.append(icon);
    tag.append("] ");
    push_seg(&mut v, tag, Tone::Heading);
    push_seg(&mut v, pad_right_string(host.name.as_str(), 20), Tone::Bold);
    let mut addr = String::from_str(" ");
    let a = address_string(host);
    addr.append(a.as_str());
    push_seg(&mut v, addr, Tone::Plain);
    let mut live = false;
    let mut i: usize = 0;
    while i < app.sessions.len()
        invariant
            i <= app.sessions@.len(),
            live == exists|j: int|
                0 <= j < i && (#[trigger] app.sessions@[j]).connected && app.sessions@[j].host_config.host@ == host.host@
                    && app.sessions@[j].host_config.port == host.port,
        decreases app.sessions.len() - i,
    {
        let s = &app.sessions[i];
        if s.connected && s.host_config.host == host.host && s.host_config.port == host.port {
            live = true;
        }
        i = i + 1;
    }
    if live {
        push_lit(&mut v, " \u{25cf}", Tone::Live);
    } else {
        push_seg(&mut v, String::new(), Tone::Plain);
    }
    if host.group.unicode_len() > 0 {
        let mut g = String::from_str(" [");
        g.append(host.group.as_str());
        g.append("]");
        push_seg(&mut v, g, Tone::Muted);
    } else {
        push_seg(&mut v, String::new(), Tone::Plain);
    }
    assert(segs(v@) =~= host_row_segments(app.sessions@, *host));
    v
}

/// The title of the host list: the number of sessions when there are any.
pub open spec fn host_list_title_text(sessions: nat) -> Seq<char> {
    if sessions > 0 {
        " Hosts ("@ + decimal(sessions) + " session"@ + (if sessions > 1 { "s"@ } else { Seq::empty() }) + ") "@
    } else {
        " Hosts "@
    }
}

/// The title of the host list of `app`.
pub fn host_list_title(app: &App) -> (r: String)
    ensures
        r@ == host_list_title_text(app.sessions@.len()),
{
    let n = app.sessions.len();
    if n > 0 {
        let mut t = String::from_str(" Hosts (");
        let count = decimal_string(n as u64);
        t.append(count.as_str());
        t.append(" session");
        if n > 1 {
            t.append("s");
        }
        t.append(") ");
        assert(n > 1 || t@ =~= host_list_title_text(n as nat));
        t
    } else {
        String::from_str(" Hosts ")
    }
}

/// An optional error message as dialog lines: one red line, or none.
pub open spec fn error_lines(error: Option<Seq<char>>) -> Seq<Seq<(Seq<char>, Tone)>> {
    match error {
        Some(e) => seq![seq![(" "@ + e, Tone::Error)]],
        None => Seq::empty(),
    }
}

/// The password prompt: the host, an error if any, the password as one star
/// per byte, and the two buttons.
pub open spec fn password_lines(h: HostConfig, password: Seq<char>, error: Option<Seq<char>>) -> Seq<Seq<(Seq<char>, Tone)>> {
    seq![
        seq![(" Connect to "@, Tone::Accent), (h.name@, Tone::Highlight)],
        seq![(" "@, Tone::Muted), (host_address(h), Tone::Plain)],
    ] + error_lines(error) + seq![
        seq![(" Password: "@, Tone::Key), (repeated('*', vstd::utf8::encode_utf8(password).len()), Tone::Plain), ("_"@, Tone::Plain)],
        Seq::empty(),
        seq![(" Enter "@, Tone::ConfirmButton), (" connect  "@, Tone::Plain), (" Esc "@, Tone::CancelButton), (" cancel"@, Tone::Plain)],
    ]
}

fn push_error_line(lines: &mut Vec<Vec<Segment>>, error: &Option<String>)
    ensures
        seg_lines(final(lines)@) == seg_lines(old(lines)@) + error_lines(crate::app::opt_str(*error)),
{
    match error {
        Some(e) => {
            let mut l: Vec<Segment> = Vec::new();
            let mut t = String::from_str(" ");
            t.append(e.as_str());
            push_seg(&mut l, t, Tone::Error);
            assert(segs(l@) =~= seq![(" "@ + e@, Tone::Error)]);
            push_line(lines, l);
            assert(seg_lines(lines@) =~= seg_lines(old(lines)@) + error_lines(crate::app::opt_str(*error)));
        },
        None => {
            assert(seg_lines(lines@) =~= seg_lines(old(lines)@) + error_lines(None));
        },
    }
}

/// The lines of the password prompt for `host`.
pub fn password_dialog_lines(host: &HostConfig, password: &str, error: &Option<String>) -> (r: Vec<Vec<Segment>>)
    ensures
        seg_lines(r@) == password_lines(*host, password@, crate::app::opt_str(*error)),
{
    let mut lines: Vec<Vec<Segment>> = Vec::new();
    let mut l1: Vec<Segment> = Vec::new();
    push_lit(&mut l1, " Connect to ", Tone::Accent);
    push_seg(&mut l1, host.name.clone(), Tone::Highlight);
    push_line(&mut lines, l1);
    let mut l2: Vec<Segment> = Vec::new();
    push_lit(&mut l2, " ", Tone::Muted);
    push_seg(&mut l2, address_string(host), Tone::Plain);
    push_line(&mut lines, l2);
    push_error_line(&mut lines, error);
    let mut l3: Vec<Segment> = Vec::new();
    push_lit(&mut l3, " Password: ", Tone::Key);
    let bytes = utf8_bytes(password);
    push_seg(&mut l3, repeat_char('*', bytes.len()), Tone::Plain);
    push_lit(&mut l3, "_", Tone::Plain);
    push_line(&mut lines, l3);
    let empty: Vec<Segment> = Vec::new();
    assert(segs(empty@) =~= Seq::<(Seq<char>, Tone)>::empty());
    push_line(&mut lines, empty);
    let mut l4: Vec<Segment> = Vec::new();
    push_lit(&mut l4, " Enter ", Tone::ConfirmButton);
    push_lit(&mut l4, " connect  ", Tone::Plain);
    push_lit(&mut l4, " Esc ", Tone::CancelButton);
    push_lit(&mut l4, " cancel", Tone::Plain);
    push_line(&mut lines, l4);
    assert(seg_lines(lines@) =~~= password_lines(*host, password@, crate::app::opt_str(*error)));
    lines
}

/// The waiting dialog while connecting to `name`.
pub open spec fn connecting_lines(name: Seq<char>) -> Seq<Seq<(Seq<char>, Tone)>> {
    seq![
        Seq::empty(),
        seq![(" Connecting to "@, Tone::Accent), (name, Tone::Highlight), (" ..."@, Tone::Accent)],
        seq![(" Press Esc to cancel"@, Tone::Muted)],
    ]
}

/// The lines of the waiting dialog.
pub fn connecting_dialog_lines(host_name: &str) -> (r: Vec<Vec<Segment>>)
    ensures
        seg_lines(r@) == connecting_lines(host_name@),
{
    let mut lines: Vec<Vec<Segment>> = Vec::new();
    let empty: Vec<Segment> = Vec::new();
    assert(segs(empty@) =~= Seq::<(Seq<char>, Tone)>::empty());
    push_line(&mut lines, empty);
    let mut l1: Vec<Segment> = Vec::new();
    push_lit(&mut l1, " Connecting to ", Tone::Accent);
    push_lit(&mut l1, host_name, Tone::Highlight);
    push_lit(&mut l1, " ...", Tone::Accent);
    push_line(&mut lines, l1);
    let mut l2: Vec<Segment> = Vec::new();
    push_lit(&mut l2, " Press Esc to cancel", Tone::Muted);
    push_line(&mut lines, l2);
    assert(seg_lines(lines@) =~~= connecting_lines(host_name@));
    lines
}

/// How the authentication field reads.
pub open spec fn auth_label(a: AuthMethod) -> Seq<char> {
    match a {
        AuthMethod::Password => "Password"@,
        AuthMethod::Key { key_path } => "Key: "@ + (if key_path@.len() == 0 { "(empty)"@ } else { key_path@ }),
        AuthMethod::Agent => "Agent"@,
    }
}

/// A line of the host form: the field's number right-aligned in two
/// columns, its label in eight, and its value, with a cursor when in focus.
pub open spec fn field_line(label: Seq<char>, value: Seq<char>, active: bool, idx: nat) -> Seq<(Seq<char>, Tone)> {
    seq![
        (" "@ + pad_left(decimal(idx), 2) + ". "@, Tone::Muted),
        (pad_right(label, 8), if active { Tone::Heading } else { Tone::Muted }),
        (value + (if active { "_"@ } else { Seq::empty() }), if active { Tone::Bright } else { Tone::Dim }),
    ]
}

/// The title of the host form.
pub open spec fn host_form_title(edit: Option<usize>) -> Seq<char> {
    if edit is Some { " Edit Host "@ } else { " Add Host "@ }
}

/// The lines of the host form with these contents.
pub open spec fn host_form_lines(
    name: Seq<char>,
    host: Seq<char>,
    port: Seq<char>,
    user: Seq<char>,
    auth: AuthMethod,
    group: Seq<char>,
    field: usize,
    error: Option<Seq<char>>,
) -> Seq<Seq<(Seq<char>, Tone)>> {
    seq![
        Seq::empty(),
        field_line("Name"@, name, field == 0, 0),
        field_line("Host"@, host, field == 1, 1),
        field_line("Port"@, port, field == 2, 2),
        field_line("User"@, user, field == 3, 3),
        field_line("Auth"@, auth_label(auth), field == 4, 4),
        field_line("Group"@, group, field == 5, 5),
    ] + (if error is Some { error_lines(error) } else { seq![Seq::empty()] }) + seq![
        seq![
            (" Tab"@, Tone::Key),
            (":next "@, Tone::Plain),
            ("Space"@, Tone::Key),
            (":toggle auth "@, Tone::Plain),
            ("Enter"@, Tone::Key),
            (":save "@, Tone::Plain),
            ("Esc"@, Tone::DangerKey),
            (":cancel"@, Tone::Plain),
        ],
    ]
}

fn field_segments(label: &str, value: &str, active: bool, idx: usize) -> (r: Vec<Segment>)
    requires
        idx < 10,
    ensures
        segs(r@) == field_line(label@, value@, active, idx as nat),
{
    let mut v: Vec<Segment> = Vec::new();
    let mut num = String::from_str(" ");
    let d = decimal_string(idx as u64);
    let padded = pad_left_string(d.as_str(), 2);
    num.append(padded.as_str());
    num.append(". ");
    push_seg(&mut v, num, Tone::Muted);
    push_seg(&mut v, pad_right_string(label, 8), if active { Tone::Heading } else { Tone::Muted });
    let mut val = String::from_str(value);
    if active {
        val.append("_");
    }
    push_seg(&mut v, val, if active { Tone::Bright } else { Tone::Dim });
    assert(active || val@ =~= value@ + Seq::<char>::empty());
    v
}

fn auth_label_string(auth: &AuthMethod) -> (r: String)
    ensures
        r@ == auth_label(*auth),
{
    match auth {
        AuthMethod::Password => String::from_str("Password"),
        AuthMethod::Key { key_path } => {
            let mut r = String::from_str("Key: ");
            if key_path.unicode_len() == 0 {
                r.append("(empty)");
            } else {
                r.append(key_path.as_str());
            }
            r
        },
        AuthMethod::Agent => String::from_str("Agent"),
    }
}

/// The title and lines of the host form.
pub fn host_form_dialog(
    edit_index: Option<usize>,
    name: &str,
    host: &str,
    port: &str,
    user: &str,
    auth: &AuthMethod,
    group: &str,
    field: usize,
    error: &Option<String>,
) -> (r: (String, Vec<Vec<Segment>>))
    ensures
        r.0@ == host_form_title(edit_index),
        seg_lines(r.1@) == host_form_lines(name@, host@, port@, user@, *auth, group@, field, crate::app::opt_str(*error)),
{
    let title = match edit_index {
        Some(_) => String::from_str(" Edit Host "),
        None => String::from_str(" Add Host "),
    };
    let mut lines: Vec<Vec<Segment>> = Vec::new();
    let empty: Vec<Segment> = Vec::new();
    assert(segs(empty@) =~= Seq::<(Seq<char>, Tone)>::empty());
    push_line(&mut lines, empty);
    push_line(&mut lines, field_segments("Name", name, field == 0, 0));
    push_line(&mut lines, field_segments("Host", host, field == 1, 1));
    push_line(&mut lines, field_segments("Port", port, field == 2, 2));
    push_line(&mut lines, field_segments("User", user, field == 3, 3));
    let label = auth_label_string(auth);
    push_line(&mut lines, field_segments("Auth", label.as_str(), field == 4, 4));
    push_line(&mut lines, field_segments("Group", group, field == 5, 5));
    if error.is_some() {
        push_error_line(&mut lines, error);
    } else {
        let blank: Vec<Segment> = Vec::new();
        assert(segs(blank@) =~= Seq::<(Seq<char>, Tone)>::empty());
        push_line(&mut lines, blank);
    }
    let mut hints: Vec<Segment> = Vec::new();
    push_lit(&mut hints, " Tab", Tone::Key);
    push_lit(&mut hints, ":next ", Tone::Plain);
    push_lit(&mut hints, "Space", Tone::Key);
    push_lit(&mut hints, ":toggle auth ", Tone::Plain);
    push_lit(&mut hints, "Enter", Tone::Key);
    push_lit(&mut hints, ":save ", Tone::Plain);
    push_lit(&mut hints, "Esc", Tone::DangerKey);
    push_lit(&mut hints, ":cancel", Tone::Plain);
    push_line(&mut lines, hints);
    assert(seg_lines(lines@) =~~= host_form_lines(name@, host@, port@, user@, *auth, group@, field, crate::app::opt_str(*error)));
    (title, lines)
}

/// The cells of a row of the SFTP table: a `D` or `F` mark, the name, the
/// size of a file (none for a directory, shown as `-`) and the modification
/// time or `-`.
pub struct SftpRow {
    pub mark: String,
    pub name: String,
    pub size: Option<u64>,
    pub modified: String,
}

/// The row of `e` in the SFTP table.
pub open spec fn sftp_row_view(e: FileEntry) -> (Seq<char>, Seq<char>, Option<u64>, Seq<char>) {
    (
        if e.is_dir { "D"@ } else { "F"@ },
        e.name@,
        if e.is_dir { None } else { Some(e.size) },
        match e.modified {
            Some(m) => m@,
            None => "-"@,
        },
    )
}

/// The cells of the row of `entry`.
pub fn sftp_row(entry: &FileEntry) -> (r: SftpRow)
    ensures
        (r.mark@, r.name@, r.size, r.modified@) == sftp_row_view(*entry),
{
    SftpRow {
        mark: String::from_str(if entry.is_dir { "D" } else { "F" }),
        name: entry.name.clone(),
        size: if entry.is_dir { None } else { Some(entry.size) },
        modified: match &entry.modified {
            Some(m) => m.clone(),
            None => String::from_str("-"),
        },
    }
}

/// The title of the SFTP table for the directory `dir`.
pub open spec fn sftp_title_text(dir: Seq<char>) -> Seq<char> {
    " SFTP - "@ + dir + " "@
}

/// The title of the SFTP table of `session`.
pub fn sftp_title(session: &Session) -> (r: String)
    ensures
        r@ == sftp_title_text(session.sftp_remote_dir@),
{
    let mut t = String::from_str(" SFTP - ");
    t.append(session.sftp_remote_dir.as_str());
    t.append(" ");
    t
}

/// The column where segment `k` of a bar starts: after the columns of the
/// segments before it.
pub open spec fn segment_start(segs: Seq<(Seq<char>, Tone)>, k: int) -> int
    decreases k,
{
    if k <= 0 {
        0
    } else {
        segment_start(segs, k - 1) + crate::app::layout::width_of(segs[k - 1].0)
    }
}

proof fn lemma_session_starts(a: App, i: int)
    requires
        0 <= i <= a.sessions@.len(),
    ensures
        segment_start(tab_bar_segments(a), i + 2) == crate::app::layout::title_width()
            + crate::app::layout::tabs_span(a.sessions@, i),
    decreases i,
{
    reveal_strlit(" ssh-t ");
    reveal_strlit("\u{2502}");
    let segs = tab_bar_segments(a);
    if i == 0 {
        assert(segs[0].0 == " ssh-t "@);
        assert(segs[1].0 == "\u{2502}"@);
        assert(segment_start(segs, 0) == 0);
        assert(segment_start(segs, 1) == crate::app::layout::width_of(" ssh-t "@));
        assert(segment_start(segs, 2) == segment_start(segs, 1) + crate::app::layout::width_of("\u{2502}"@));
    } else {
        lemma_session_starts(a, i - 1);
        let active = i - 1 == a.active_session && a.panel == Panel::Terminal;
        assert(segs[i + 1] == session_tab(a.sessions@[i - 1], active));
    }
}

/// Whether the `k`-th panel tab lies where the tab bar draws its label, the
/// `k`-th of the bar's last three segments.
pub open spec fn panel_tab_follows(a: App, k: int) -> bool {
    let n = a.sessions@.len() as int;
    let segs = tab_bar_segments(a);
    let j = segs.len() - 3 + k;
    let t = crate::app::layout::tab_at(a.sessions@, n + k);
    &&& t.0 as int == segment_start(segs, j)
    &&& t.1 as int == crate::app::layout::width_of(segs[j].0)
    &&& segs[j].0 == crate::app::layout::panel_label(k)
}

/// The clickable tabs lie where the tab bar draws them: the tab of session
/// `i` is the bar's segment `i + 2` and the panel tabs are its last three
/// segments; each tab starts at the column where its segment starts and is
/// as wide as its segment's text.
pub proof fn tab_layout_follows_tab_bar(a: App)
    requires
        crate::app::layout::tabs_fit(a.sessions@),
    ensures
        forall|i: int| 0 <= i < a.sessions@.len() ==> {
            let t = #[trigger] crate::app::layout::tab_at(a.sessions@, i);
            let seg = tab_bar_segments(a)[i + 2];
            &&& t.0 as int == segment_start(tab_bar_segments(a), i + 2)
            &&& t.1 as int == crate::app::layout::width_of(seg.0)
            &&& t.2 == crate::app::layout::TabAction::Session(i as usize)
        },
        panel_tab_follows(a, 0),
        panel_tab_follows(a, 1),
        panel_tab_follows(a, 2),
{
    reveal_strlit(" Alt-H Hosts ");
    reveal_strlit(" Alt-T Term ");
    reveal_strlit(" Alt-S SFTP ");
    reveal_strlit("\u{2502}");
    let segs = tab_bar_segments(a);
    let n = a.sessions@.len() as int;
    crate::app::layout::lemma_tab_bounds(a.sessions@);
    assert forall|i: int| 0 <= i < n implies {
        let t = #[trigger] crate::app::layout::tab_at(a.sessions@, i);
        let seg = tab_bar_segments(a)[i + 2];
        &&& t.0 as int == segment_start(tab_bar_segments(a), i + 2)
        &&& t.1 as int == crate::app::layout::width_of(seg.0)
        &&& t.2 == crate::app::layout::TabAction::Session(i as usize)
    } by {
        lemma_session_starts(a, i);
        crate::app::layout::lemma_session_tab_fits(a.sessions@, i);
        let active = i == a.active_session && a.panel == Panel::Terminal;
        assert(segs[i + 2] == session_tab(a.sessions@[i], active));
    }
    lemma_session_starts(a, n);
    let p = if n > 0 { n + 3 } else { n + 2 };
    assert(segs.len() == p + 3);
    if n > 0 {
        assert(segs[n + 2].0 == "\u{2502}"@);
    }
    assert(segment_start(segs, p) == crate::app::layout::panel_tabs_start(a.sessions@));
    assert(segs[p].0 == crate::app::layout::panel_label(0));
    assert(segs[p + 1].0 == crate::app::layout::panel_label(1));
    assert(segs[p + 2].0 == crate::app::layout::panel_label(2));
    assert(segment_start(segs, p + 1) == segment_start(segs, p) + crate::app::layout::width_of(segs[p].0));
    assert(segment_start(segs, p + 2) == segment_start(segs, p + 1) + crate::app::layout::width_of(segs[p + 1].0));
}

} // verus!
