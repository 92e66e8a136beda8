//! The tab bar's layout, mouse handling and terminal size.

use vstd::prelude::*;
use crate::app::{ids_fresh, App, Dialog, Effect, Panel, Session, activation_outcome, panel_switched, session_at, with_sftp_selection};
use crate::app::input::{moved_down, moved_up, shown_hosts};
use crate::keys::{MouseEvent, MouseEventKind};
use crate::view::{display_columns, display_width, session_label, session_label_string};

verus! {

/// What clicking a tab does.
#[derive(Debug, Clone, Copy, PartialEq, Eq, Structural)]
pub enum TabAction {
    Session(usize),
    Panel(Panel),
}

/// The clickable tabs of the tab bar: start column, width and action of each.
#[derive(Debug)]
pub struct TabLayout {
    pub tabs: Vec<(u16, u16, TabAction)>,
}

/// The columns `t` takes on screen.
pub open spec fn width_of(t: Seq<char>) -> int {
    display_columns(t) as int
}

/// The columns before the first session tab: the application's name and a
/// separator.
pub open spec fn title_width() -> int {
    width_of(" ssh-t "@) + width_of("\u{2502}"@)
}

/// The total width of the first `n` session tabs.
pub open spec fn tabs_span(sessions: Seq<Session>, n: int) -> int
    decreases n,
{
    if n <= 0 || n > sessions.len() {
        0
    } else {
        tabs_span(sessions, n - 1) + width_of(session_label(sessions[n - 1]))
    }
}

/// The label of the `k`-th panel tab (Hosts, Term, SFTP).
pub open spec fn panel_label(k: int) -> Seq<char> {
    if k == 0 { " Alt-H Hosts "@ } else if k == 1 { " Alt-T Term "@ } else { " Alt-S SFTP "@ }
}

/// The column where the panel tabs start: after the title, the session tabs
/// and, when there are sessions, another separator.
pub open spec fn panel_tabs_start(sessions: Seq<Session>) -> int {
    title_width() + tabs_span(sessions, sessions.len() as int)
        + if sessions.len() > 0 { width_of("\u{2502}"@) } else { 0int }
}

/// The column where the tab bar ends.
pub open spec fn tabs_end(sessions: Seq<Session>) -> int {
    panel_tabs_start(sessions) + width_of(panel_label(0)) + width_of(panel_label(1)) + width_of(panel_label(2))
}

/// Whether the whole tab bar fits in 16-bit columns.
pub open spec fn tabs_fit(sessions: Seq<Session>) -> bool {
    tabs_end(sessions) <= u16::MAX
}

/// The tab at position `i` of the tab bar for `sessions`: its start column,
/// its width in columns, and what clicking it does.
pub open spec fn tab_at(sessions: Seq<Session>, i: int) -> (u16, u16, TabAction) {
    let n = sessions.len() as int;
    let start = panel_tabs_start(sessions);
    if i < n {
        (
            (title_width() + tabs_span(sessions, i)) as u16,
            width_of(session_label(sessions[i])) as u16,
            TabAction::Session(i as usize),
        )
    } else if i == n {
        (start as u16, width_of(panel_label(0)) as u16, TabAction::Panel(Panel::HostList))
    } else if i == n + 1 {
        ((start + width_of(panel_label(0))) as u16, width_of(panel_label(1)) as u16, TabAction::Panel(Panel::Terminal))
    } else {
        (
            (start + width_of(panel_label(0)) + width_of(panel_label(1))) as u16,
            width_of(panel_label(2)) as u16,
            TabAction::Panel(Panel::Sftp),
        )
    }
}

/// Whether the tab `t` covers column `col`.
pub open spec fn covers(t: (u16, u16, TabAction), col: u16) -> bool {
    t.0 <= col < t.0 + t.1
}

/// The first tab covering column `col`.
pub open spec fn clicked_tab(tabs: Seq<(u16, u16, TabAction)>, col: u16) -> Option<TabAction>
    decreases tabs.len(),
{
    if tabs.len() == 0 {
        None
    } else if covers(tabs[0], col) {
        Some(tabs[0].2)
    } else {
        clicked_tab(tabs.drop_first(), col)
    }
}

/// `b` is `a` after a click on the tab bar at column `col`.
pub open spec fn tab_click_outcome(a: App, col: u16, b: App, effects: Seq<Effect>) -> bool {
    match clicked_tab(Seq::new((a.sessions@.len() + 3) as nat, |i: int| tab_at(a.sessions@, i)), col) {
        None => b == a && effects.len() == 0,
        Some(TabAction::Session(i)) => activation_outcome(a, i, b, effects),
        Some(TabAction::Panel(p)) => panel_switched(a, p, b, effects),
    }
}

/// `b` is `a` after a mouse event. With a dialog open the mouse does
/// nothing. A left click on the first row clicks the tab bar; on the host
/// list or SFTP table it selects the clicked row; the wheel moves the
/// selection.
pub open spec fn mouse_outcome(a: App, m: MouseEvent, b: App, effects: Seq<Effect>) -> bool {
    let none = effects.len() == 0;
    let row = m.row as int;
    if !(a.dialog is Closed) {
        b == a && none
    } else if m.kind == MouseEventKind::LeftDown {
        if m.row == 0 {
            tab_click_outcome(a, m.column, b, effects)
        } else if a.panel == Panel::HostList {
            &&& none
            &&& if host_list_first_row() <= row < host_list_first_row() + shown_hosts(a).len() {
                b == App { host_selected: Some((row - host_list_first_row()) as usize), ..a }
            } else {
                b == a
            }
        } else if a.panel == Panel::Sftp {
            &&& none
            &&& match session_at(a.sessions@, a.active_session) {
                Some(s) => if sftp_first_row() <= row < sftp_first_row() + s.sftp_entries@.len() {
                    with_sftp_selection(a, Some((row - sftp_first_row()) as usize), b)
                } else {
                    b == a
                },
                None => b == a,
            }
        } else {
            b == a && none
        }
    } else if m.kind == MouseEventKind::ScrollUp || m.kind == MouseEventKind::ScrollDown {
        let up = m.kind == MouseEventKind::ScrollUp;
        &&& none
        &&& if a.panel == Panel::HostList {
            b == App {
                host_selected: if up { moved_up(a.host_selected) } else { moved_down(a.host_selected, shown_hosts(a).len()) },
                ..a
            }
        } else if a.panel == Panel::Sftp {
            match session_at(a.sessions@, a.active_session) {
                Some(s) => with_sftp_selection(
                    a,
                    if up { moved_up(s.sftp_selected) } else { moved_down(s.sftp_selected, s.sftp_entries@.len()) },
                    b,
                ),
                None => b == a,
            }
        } else {
            b == a
        }
    } else {
        b == a && none
    }
}

/// The screen row of the first host in the host list: below the tab bar
/// and the list's top border.
pub open spec fn host_list_first_row() -> int {
    2
}

/// The screen row of the first entry of the SFTP table: below the tab bar,
/// the table's top border, its header row and the blank row under the
/// header.
pub open spec fn sftp_first_row() -> int {
    4
}

/// The terminal size handed to remote shells for a screen of `cols` x
/// `rows`: the whole screen on a connected terminal panel, else less the
/// borders and bars.
pub open spec fn pty_size(a: App, cols: u16, rows: u16) -> (u16, u16) {
    if a.panel == Panel::Terminal && (session_at(a.sessions@, a.active_session) matches Some(s) && s.connected) {
        (cols, rows)
    } else {
        (if cols >= 2 { (cols - 2) as u16 } else { 0 }, if rows >= 4 { (rows - 4) as u16 } else { 0 })
    }
}

/// `b` is `a` after the screen became `cols` x `rows`: a changed size is
/// recorded and passed on to the active session when connected.
pub open spec fn resized(a: App, cols: u16, rows: u16, b: App, effects: Seq<Effect>) -> bool {
    let (pc, pr) = pty_size(a, cols, rows);
    if a.terminal_cols == pc && a.terminal_rows == pr {
        b == a && effects.len() == 0
    } else {
        &&& b == App { terminal_cols: pc, terminal_rows: pr, ..a }
        &&& match session_at(a.sessions@, a.active_session) {
            Some(s) => if s.connected {
                effects =~= seq![Effect::Resize { session_id: s.id, cols: pc, rows: pr }]
            } else {
                effects.len() == 0
            },
            None => effects.len() == 0,
        }
    }
}

proof fn lemma_tabs_span_step(sessions: Seq<Session>, i: int)
    requires
        0 <= i < sessions.len(),
    ensures
        tabs_span(sessions, i + 1) == tabs_span(sessions, i) + width_of(session_label(sessions[i])),
{
}

proof fn lemma_tabs_span_nonneg(sessions: Seq<Session>, i: int)
    requires
        0 <= i <= sessions.len(),
    ensures
        tabs_span(sessions, i) >= 0,
    decreases i,
{
    if i > 0 {
        lemma_tabs_span_nonneg(sessions, i - 1);
    }
}

proof fn lemma_tabs_span_mono(sessions: Seq<Session>, i: int, j: int)
    requires
        0 <= i <= j <= sessions.len(),
    ensures
        0 <= tabs_span(sessions, i) <= tabs_span(sessions, j),
    decreases j - i,
{
    lemma_tabs_span_nonneg(sessions, i);
    if i < j {
        lemma_tabs_span_mono(sessions, i, j - 1);
    }
}

/// Every tab ends within the tab bar.
proof fn lemma_tab_within(sessions: Seq<Session>, i: int)
    requires
        0 <= i < sessions.len() + 3,
    ensures
        0 <= title_width() + tabs_span(sessions, if i < sessions.len() { i } else { 0 }),
        i < sessions.len() ==> title_width() + tabs_span(sessions, i + 1) <= panel_tabs_start(sessions),
        panel_tabs_start(sessions) >= title_width(),
        tabs_end(sessions) >= panel_tabs_start(sessions),
{
    let n = sessions.len() as int;
    lemma_tabs_span_mono(sessions, 0, n);
    if i < n {
        lemma_tabs_span_mono(sessions, i, n);
        lemma_tabs_span_mono(sessions, i + 1, n);
    }
}

/// Within a tab bar that fits, the starts and widths of the tabs are exact
/// 16-bit columns.
pub(crate) proof fn lemma_tab_bounds(sessions: Seq<Session>)
    requires
        tabs_fit(sessions),
    ensures
        0 <= title_width() <= panel_tabs_start(sessions),
        panel_tabs_start(sessions) + width_of(panel_label(0)) + width_of(panel_label(1)) + width_of(panel_label(2))
            <= u16::MAX,
{
    lemma_tabs_span_mono(sessions, 0, sessions.len() as int);
}

/// Within a tab bar that fits, session tab `i` starts and ends within 16
/// bits.
pub(crate) proof fn lemma_session_tab_fits(sessions: Seq<Session>, i: int)
    requires
        tabs_fit(sessions),
        0 <= i < sessions.len(),
    ensures
        0 <= title_width() + tabs_span(sessions, i),
        title_width() + tabs_span(sessions, i) + width_of(session_label(sessions[i])) <= u16::MAX,
{
    lemma_tab_within(sessions, i);
    lemma_tabs_span_step(sessions, i);
    lemma_tabs_span_mono(sessions, 0, sessions.len() as int);
}

/// The widths of the title, the separator and the panel tabs.
fn fixed_widths() -> (r: (u64, u64, u64, u64, u64))
    ensures
        r.0 == width_of(" ssh-t "@),
        r.1 == width_of("\u{2502}"@),
        r.2 == width_of(panel_label(0)),
        r.3 == width_of(panel_label(1)),
        r.4 == width_of(panel_label(2)),
{
    (
        display_width(" ssh-t ") as u64,
        display_width("\u{2502}") as u64,
        display_width(" Alt-H Hosts ") as u64,
        display_width(" Alt-T Term ") as u64,
        display_width(" Alt-S SFTP ") as u64,
    )
}

impl App {
    /// Whether the tab bar of `self` fits in 16-bit columns, as the tab
    /// layout needs.
    pub fn tab_bar_fits(&self) -> (r: bool)
        ensures
            r == tabs_fit(self.sessions@),
    {
        let (title, sep, p0, p1, p2) = fixed_widths();
        if title > 65535 || sep > 65535 || p0 > 65535 || p1 > 65535 || p2 > 65535 {
            proof {
                lemma_tabs_span_mono(self.sessions@, 0, self.sessions@.len() as int);
            }
            return false;
        }
        let n = self.sessions.len();
        let mut col: u64 = title + sep;
        if col > 65535 {
            proof {
                lemma_tabs_span_mono(self.sessions@, 0, n as int);
            }
            return false;
        }
        let mut i: usize = 0;
        while i < n
            invariant
                n == self.sessions@.len(),
                i <= n,
                col as int == title_width() + tabs_span(self.sessions@, i as int),
                col <= 65535,
                sep as int == width_of("\u{2502}"@),
                p0 as int == width_of(panel_label(0)),
                p1 as int == width_of(panel_label(1)),
                p2 as int == width_of(panel_label(2)),
                p0 <= 65535 && p1 <= 65535 && p2 <= 65535 && sep <= 65535,
            decreases n - i,
        {
            let label = session_label_string(&self.sessions[i]);
            let w = display_width(label.as_str()) as u64;
            proof {
                lemma_tabs_span_step(self.sessions@, i as int);
            }
            if w > 65535 || col + w > 65535 {
                proof {
                    lemma_tabs_span_mono(self.sessions@, i as int + 1, n as int);
                }
                return false;
            }
            col = col + w;
            i = i + 1;
        }
        if n > 0 {
            col = col + sep;
        }
        col + p0 + p1 + p2 <= 65535
    }
}

impl App {
    /// The tab bar's clickable tabs, laid out as the tab bar is drawn: each
    /// tab starts where the text before it ends and is as wide as its label.
    pub fn compute_tab_layout(&self) -> (r: TabLayout)
        requires
            tabs_fit(self.sessions@),
        ensures
            r.tabs@ == Seq::new((self.sessions@.len() + 3) as nat, |i: int| tab_at(self.sessions@, i)),
    {
        let (title, sep, p0, p1, p2) = fixed_widths();
        let n = self.sessions.len();
        proof {
            lemma_tabs_span_mono(self.sessions@, 0, n as int);
        }
        let mut tabs: Vec<(u16, u16, TabAction)> = Vec::new();
        let mut col: u64 = title + sep;
        let mut i: usize = 0;
        while i < n
            invariant
                n == self.sessions@.len(),
                i <= n,
                tabs_fit(self.sessions@),
                col as int == title_width() + tabs_span(self.sessions@, i as int),
                tabs@ =~= Seq::new(i as nat, |k: int| tab_at(self.sessions@, k)),
            decreases n - i,
        {
            let label = session_label_string(&self.sessions[i]);
            let w = display_width(label.as_str()) as u64;
            proof {
                lemma_tabs_span_step(self.sessions@, i as int);
                lemma_tabs_span_mono(self.sessions@, i as int + 1, n as int);
                lemma_tabs_span_mono(self.sessions@, 0, i as int);
            }
            tabs.push((col as u16, w as u16, TabAction::Session(i)));
            col = col + w;
            i = i + 1;
        }
        if n > 0 {
            col = col + sep;
        }
        tabs.push((col as u16, p0 as u16, TabAction::Panel(Panel::HostList)));
        tabs.push(((col + p0) as u16, p1 as u16, TabAction::Panel(Panel::Terminal)));
        tabs.push(((col + p0 + p1) as u16, p2 as u16, TabAction::Panel(Panel::Sftp)));
        assert(tabs@ =~= Seq::new((self.sessions@.len() + 3) as nat, |i: int| tab_at(self.sessions@, i)));
        TabLayout { tabs }
    }

    /// A click on the tab bar at column `col`: a session tab activates its
    /// session, a panel tab shows its panel.
    fn handle_tab_click(&mut self, col: u16) -> (r: Vec<Effect>)
        requires
            tabs_fit(old(self).sessions@),
        ensures
            tab_click_outcome(*old(self), col, *final(self), r@),
            old(self).wf() ==> final(self).wf(),
    {
        let layout = self.compute_tab_layout();
        let ghost all = layout.tabs@;
        assert(all.subrange(0, all.len() as int) =~= all);
        let mut k: usize = 0;
        while k < layout.tabs.len()
            invariant
                k <= layout.tabs@.len(),
                layout.tabs@ == all,
                all == Seq::new((self.sessions@.len() + 3) as nat, |i: int| tab_at(self.sessions@, i)),
                tabs_fit(self.sessions@),
                *self == *old(self),
                clicked_tab(all, col) == clicked_tab(all.subrange(k as int, all.len() as int), col),
            decreases layout.tabs.len() - k,
        {
            let (start, width, action) = layout.tabs[k];
            proof {
                let rest = all.subrange(k as int, all.len() as int);
                assert(rest[0] == all[k as int]);
                assert(rest.drop_first() =~= all.subrange(k + 1, all.len() as int));
                assert(all[k as int] == tab_at(self.sessions@, k as int));
                lemma_tab_within(self.sessions@, k as int);
                if (k as int) < self.sessions@.len() {
                    lemma_tabs_span_step(self.sessions@, k as int);
                }
                assert(start as int + width as int <= u16::MAX);
            }
            if col >= start && col < start + width {
                match action {
                    TabAction::Session(idx) => {
                        return self.activate_session(idx);
                    },
                    TabAction::Panel(panel) => {
                        return self.switch_panel(panel);
                    },
                }
            }
            k = k + 1;
        }
        Vec::new()
    }

    /// A mouse event, checked: `None`, with nothing changed, for a click on
    /// a tab bar too wide for 16-bit columns, which cannot be laid out;
    /// otherwise what [`App::handle_mouse`] does.
    pub fn handle_mouse_event(&mut self, mouse: &MouseEvent) -> (r: Option<Vec<Effect>>)
        ensures
            r is None <==> (old(self).dialog is Closed && mouse.kind == MouseEventKind::LeftDown && mouse.row == 0
                && !tabs_fit(old(self).sessions@)),
            r is None ==> *final(self) == *old(self),
            r matches Some(e) ==> mouse_outcome(*old(self), *mouse, *final(self), e@),
            old(self).wf() ==> final(self).wf(),
            ids_fresh(*old(self)) ==> ids_fresh(*final(self)),
    {
        if !self.has_dialog() && mouse.kind == MouseEventKind::LeftDown && mouse.row == 0 && !self.tab_bar_fits() {
            return None;
        }
        Some(self.handle_mouse(mouse))
    }

    /// A mouse event.
    pub fn handle_mouse(&mut self, mouse: &MouseEvent) -> (r: Vec<Effect>)
        requires
            old(self).dialog is Closed && mouse.kind == MouseEventKind::LeftDown && mouse.row == 0
                ==> tabs_fit(old(self).sessions@),
        ensures
            mouse_outcome(*old(self), *mouse, *final(self), r@),
            old(self).wf() ==> final(self).wf(),
            ids_fresh(*old(self)) ==> ids_fresh(*final(self)),
    {
        if self.has_dialog() {
            return Vec::new();
        }
        let i = self.active_session;
        match mouse.kind {
            MouseEventKind::LeftDown => {
                if mouse.row == 0 {
                    return self.handle_tab_click(mouse.column);
                }
                let row = mouse.row as usize;
                if self.panel == Panel::HostList {
                    let n = self.filtered_hosts().len();
                    if 2 <= row && row - 2 < n {
                        self.host_selected = Some(row - 2);
                    }
                } else if self.panel == Panel::Sftp {
                    if i < self.sessions.len() {
                        if 4 <= row && row - 4 < self.sessions[i].sftp_entries.len() {
                            self.set_sftp_selection(i, Some(row - 4));
                        }
                    }
                }
                Vec::new()
            },
            MouseEventKind::ScrollUp => {
                if self.panel == Panel::HostList {
                    let j = match self.host_selected { Some(j) => j, None => 0 };
                    if j > 0 {
                        self.host_selected = Some(j - 1);
                    }
                } else if self.panel == Panel::Sftp {
                    if i < self.sessions.len() {
                        let sel = self.sessions[i].sftp_selected;
                        let j = match sel { Some(j) => j, None => 0 };
                        let next = if j > 0 { Some(j - 1) } else { sel };
                        self.set_sftp_selection(i, next);
                    }
                }
                Vec::new()
            },
            MouseEventKind::ScrollDown => {
                if self.panel == Panel::HostList {
                    let n = self.filtered_hosts().len();
                    let j = match self.host_selected { Some(j) => j, None => 0 };
                    let last = if n >= 1 { n - 1 } else { 0 };
                    if j < last {
                        self.host_selected = Some(j + 1);
                    }
                } else if self.panel == Panel::Sftp {
                    if i < self.sessions.len() {
                        let n = self.sessions[i].sftp_entries.len();
                        let sel = self.sessions[i].sftp_selected;
                        let j = match sel { Some(j) => j, None => 0 };
                        let last = if n >= 1 { n - 1 } else { 0 };
                        let next = if j < last { Some(j + 1) } else { sel };
                        self.set_sftp_selection(i, next);
                    }
                }
                Vec::new()
            },
            MouseEventKind::Other => Vec::new(),
        }
    }

    /// Records a new screen size and passes it on to the active session.
    pub fn update_terminal_size(&mut self, cols: u16, rows: u16) -> (r: Vec<Effect>)
        ensures
            resized(*old(self), cols, rows, *final(self), r@),
            old(self).wf() ==> final(self).wf(),
            ids_fresh(*old(self)) ==> ids_fresh(*final(self)),
    {
        let full = self.panel == Panel::Terminal && self.has_active_connection();
        let pc = if full { cols } else if cols >= 2 { cols - 2 } else { 0 };
        let pr = if full { rows } else if rows >= 4 { rows - 4 } else { 0 };
        let mut effects: Vec<Effect> = Vec::new();
        if self.terminal_cols != pc || self.terminal_rows != pr {
            self.terminal_cols = pc;
            self.terminal_rows = pr;
            if self.active_session < self.sessions.len() {
                if self.sessions[self.active_session].connected {
                    effects.push(Effect::Resize { session_id: self.sessions[self.active_session].id, cols: pc, rows: pr });
                }
            }
        }
        effects
    }
}

} // verus!
