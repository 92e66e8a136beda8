//! Key handling outside dialogs: application-wide shortcuts and the keys of
//! the host list, terminal, SFTP and help panels.

use vstd::prelude::*;
use crate::app::{ids_fresh, closed_active, panel_after_removal, 
    App, Dialog, Effect, Panel, SftpAction, activated, close_outcome, is_host_form, listing_started, next_switched,
    panel_switched, prev_switched, same_login, session_at, user_or, is_sftp_input, selected_entry, remote_dir_or,
    with_sftp_selection,
};
use crate::config::{AuthMethod, HostConfig};
use crate::keys::{
    KeyCode, KeyEvent, ascii_lower, control_only, is_control_only, is_plain, is_shift_only, key_bytes, no_modifiers,
    shift_only, terminal_key_bytes, to_ascii_lower,
};
use crate::sftp::{FileEntry, joined_remote, join_remote_path, parent_dir, parent_dir_of};
use crate::text::{
    concat, contains_str, decimal, decimal_string, joined_path, path_join, str_contains, string_pop, string_push,
};

verus! {

/// Whether a host matches the host-list filter: any host for an empty
/// filter, else one whose name, address or user contains it.
pub open spec fn host_matches(filter: Seq<char>) -> spec_fn(HostConfig) -> bool {
    |h: HostConfig| filter.len() == 0 || contains_str(h.name@, filter) || contains_str(h.host@, filter)
        || contains_str(h.user@, filter)
}

/// The hosts shown in the host list.
pub open spec fn shown_hosts(a: App) -> Seq<HostConfig> {
    a.config.hosts@.filter(host_matches(a.host_filter@))
}

/// `n - 1`, or 0 for 0.
pub open spec fn last_index(n: nat) -> nat {
    if n >= 1 { (n - 1) as nat } else { 0 }
}

/// The selection after moving down a list of `len` rows.
pub open spec fn moved_down(selected: Option<usize>, len: nat) -> Option<usize> {
    let i = match selected { Some(i) => i, None => 0usize };
    if i < last_index(len) { Some((i + 1) as usize) } else { selected }
}

/// The selection after moving up a list.
pub open spec fn moved_up(selected: Option<usize>) -> Option<usize> {
    let i = match selected { Some(i) => i, None => 0usize };
    if i > 0 { Some((i - 1) as usize) } else { selected }
}

/// Whether `key` is the shortcut that closes the active session (Alt-W).
pub open spec fn closes_session(key: KeyEvent) -> bool {
    key.modifiers.alt && (key.code matches KeyCode::Char(c) && ascii_lower(c) == 'w')
}

/// Whether `key` is a shortcut to the next session (Alt-N, Alt-], Alt-Right).
pub open spec fn goes_to_next_session(key: KeyEvent) -> bool {
    key.modifiers.alt && ((key.code matches KeyCode::Char(c) && (ascii_lower(c) == 'n' || ascii_lower(c) == ']'))
        || key.code == KeyCode::Right)
}

/// `b` is `a` after a key handled by the application shortcuts, reported by
/// `handled`. With a dialog open no key is a shortcut.
pub open spec fn global_key_outcome(a: App, key: KeyEvent, b: App, handled: bool, effects: Seq<Effect>) -> bool {
    let unhandled = !handled && b == a && effects.len() == 0;
    if !(a.dialog is Closed) {
        unhandled
    } else if key.modifiers.alt && (key.code is Char || key.code is Left || key.code is Right) {
        match key.code {
            KeyCode::Char(c) => {
                let l = ascii_lower(c);
                if l == 'h' {
                    handled && panel_switched(a, Panel::HostList, b, effects)
                } else if l == 't' {
                    handled && panel_switched(a, Panel::Terminal, b, effects)
                } else if l == 's' {
                    handled && panel_switched(a, Panel::Sftp, b, effects)
                } else if l == 'n' || l == ']' {
                    handled && next_switched(a, b, effects)
                } else if l == 'p' || l == '[' {
                    handled && prev_switched(a, b, effects)
                } else if l == 'w' {
                    handled && close_outcome(a, b, effects)
                } else {
                    unhandled
                }
            },
            KeyCode::Left => handled && prev_switched(a, b, effects),
            _ => handled && next_switched(a, b, effects),
        }
    } else if no_modifiers(key.modifiers) && key.code == KeyCode::F(1) {
        handled && panel_switched(a, Panel::HostList, b, effects)
    } else if no_modifiers(key.modifiers) && key.code == KeyCode::F(2) {
        handled && panel_switched(a, Panel::Terminal, b, effects)
    } else if no_modifiers(key.modifiers) && key.code == KeyCode::F(3) {
        handled && panel_switched(a, Panel::Sftp, b, effects)
    } else {
        unhandled
    }
}

/// `b` is `a` after a key of the terminal panel. Ctrl+Q alone ends the
/// active session (as closing it does) and shows the host list; any other
/// key's bytes go to the shell of a connected active session.
pub open spec fn terminal_key_outcome(a: App, key: KeyEvent, b: App, effects: Seq<Effect>) -> bool {
    if leaves_terminal(key) {
        &&& b.panel == Panel::HostList
        &&& match session_at(a.sessions@, a.active_session) {
            Some(_) => closed_active(a, App { panel: panel_after_removal(a.panel, b.sessions@.len()), ..b }, effects),
            None => b == App { panel: Panel::HostList, ..a } && effects.len() == 0,
        }
    } else {
        &&& b == a
        &&& match (session_at(a.sessions@, a.active_session), key_bytes(key)) {
            (Some(s), Some(bytes)) => if s.connected {
                effects.len() == 1 && (effects[0] matches Effect::SendInput { session_id, data }
                    && session_id == s.id && data@ == bytes)
            } else {
                effects.len() == 0
            },
            _ => effects.len() == 0,
        }
    }
}

/// Whether `key` is Ctrl+Q alone, which ends the active session and goes
/// back to the host list.
pub open spec fn leaves_terminal(key: KeyEvent) -> bool {
    control_only(key.modifiers) && key.code == KeyCode::Char('q')
}

/// `b` is `a` after a key of the help panel: Esc, `?` and `q` go back to
/// the host list.
pub open spec fn help_key_outcome(a: App, key: KeyEvent, b: App, effects: Seq<Effect>) -> bool {
    &&& effects.len() == 0
    &&& if key.code == KeyCode::Esc || key.code == KeyCode::Char('?') || key.code == KeyCode::Char('q') {
        b == App { panel: Panel::HostList, ..a }
    } else {
        b == a
    }
}

/// Whether `p` is where the `i`-th shown host (from 0) stands among all
/// hosts: a host that matches the filter, with `i` matching hosts before it.
pub open spec fn shown_at(a: App, i: int, p: int) -> bool {
    let pred = host_matches(a.host_filter@);
    &&& 0 <= p < a.config.hosts@.len()
    &&& pred(a.config.hosts@[p])
    &&& a.config.hosts@.take(p).filter(pred).len() == i
}

/// The host list shows exactly the hosts whose name, address or user
/// contains the filter text (every host for an empty filter), each taken
/// from the configured hosts.
pub proof fn shown_hosts_match_filter(a: App)
    ensures
        forall|k: int|
            0 <= k < a.config.hosts@.len() && (a.host_filter@.len() == 0
                || contains_str(a.config.hosts@[k].name@, a.host_filter@)
                || contains_str(a.config.hosts@[k].host@, a.host_filter@)
                || contains_str(a.config.hosts@[k].user@, a.host_filter@))
                ==> #[trigger] shown_hosts(a).contains(a.config.hosts@[k]),
        forall|i: int|
            0 <= i < shown_hosts(a).len() ==> {
                let h = #[trigger] shown_hosts(a)[i];
                &&& a.config.hosts@.contains(h)
                &&& (a.host_filter@.len() == 0 || contains_str(h.name@, a.host_filter@)
                    || contains_str(h.host@, a.host_filter@) || contains_str(h.user@, a.host_filter@))
            },
        a.host_filter@.len() == 0 ==> shown_hosts(a) == a.config.hosts@,
{
    let hosts = a.config.hosts@;
    let pred = host_matches(a.host_filter@);
    assert forall|k: int|
        0 <= k < hosts.len() && (a.host_filter@.len() == 0
            || contains_str(hosts[k].name@, a.host_filter@)
            || contains_str(hosts[k].host@, a.host_filter@)
            || contains_str(hosts[k].user@, a.host_filter@))
        implies #[trigger] shown_hosts(a).contains(hosts[k]) by {
        hosts.lemma_filter_contains(pred, k);
    }
    assert forall|i: int| 0 <= i < shown_hosts(a).len() implies {
        let h = #[trigger] shown_hosts(a)[i];
        &&& hosts.contains(h)
        &&& (a.host_filter@.len() == 0 || contains_str(h.name@, a.host_filter@)
            || contains_str(h.host@, a.host_filter@) || contains_str(h.user@, a.host_filter@))
    } by {
        hosts.lemma_filter_pred(pred, i);
        assert(hosts.filter(pred).contains(hosts.filter(pred)[i]));
        hosts.lemma_filter_contains_rev(pred, hosts.filter(pred)[i]);
    }
    if a.host_filter@.len() == 0 {
        lemma_filter_all(hosts, pred);
    }
}

proof fn lemma_filter_all<A>(s: Seq<A>, pred: spec_fn(A) -> bool)
    requires
        forall|x: A| #[trigger] pred(x),
    ensures
        s.filter(pred) == s,
    decreases s.len(),
{
    reveal(Seq::filter);
    if s.len() > 0 {
        lemma_filter_all(s.drop_last(), pred);
        assert(s.drop_last().push(s.last()) =~= s);
    } else {
        assert(s.filter(pred) =~= s);
    }
}

/// The `i`-th shown host is the host at its position among all hosts: the
/// keys that act on the highlighted host (`e`, `d`, Enter) act on the same
/// host.
pub proof fn shown_position_is_shown_host(a: App, i: int, p: int)
    requires
        shown_at(a, i, p),
    ensures
        i < shown_hosts(a).len(),
        shown_hosts(a)[i] == a.config.hosts@[p],
{
    let hosts = a.config.hosts@;
    let pred = host_matches(a.host_filter@);
    crate::text::lemma_filter_take_step(hosts, p, pred);
    let front = hosts.take(p + 1);
    let back = hosts.skip(p + 1);
    assert(hosts =~= front + back);
    Seq::filter_distributes_over_add(front, back, pred);
    assert(front.filter(pred) == hosts.take(p).filter(pred).push(hosts[p]));
    assert((front + back).filter(pred)[i] == front.filter(pred)[i]);
}

/// Whether a key is typed text: with no modifier, or with Shift alone.
pub open spec fn typed(key: KeyEvent) -> bool {
    no_modifiers(key.modifiers) || shift_only(key.modifiers)
}

/// The selection after the shown hosts became `n`: kept, moved onto the
/// last one, or none when no host is shown.
pub open spec fn clamped_selection(i: usize, n: nat) -> Option<usize> {
    if n == 0 {
        None
    } else if i >= n {
        Some((n - 1) as usize)
    } else {
        Some(i)
    }
}

/// `b` is `a` after a key of the host list. Typed (unmodified or shifted)
/// `q` quits, `?` opens help, `a` opens an empty host form, `e` the form for
/// the highlighted host, `d` deletes the highlighted host; Up and Down move
/// the highlight, Enter connects to the highlighted host, Tab shows the
/// terminal when there are sessions; other typed characters extend the
/// filter, Backspace shortens it and Esc clears it. The highlight indexes
/// the shown (filtered) hosts.
pub open spec fn host_list_key_outcome(a: App, key: KeyEvent, b: App, effects: Seq<Effect>) -> bool {
    let t = typed(key);
    let hosts = a.config.hosts@;
    let shown = shown_hosts(a);
    let none = effects.len() == 0;
    if t && key.code == KeyCode::Char('q') {
        b == App { running: false, ..a } && none
    } else if t && key.code == KeyCode::Char('?') {
        b == App { panel: Panel::Help, ..a } && none
    } else if t && key.code == KeyCode::Char('a') {
        &&& b == App { dialog: b.dialog, ..a }
        &&& is_host_form(b.dialog, None, Seq::empty(), Seq::empty(), "22"@, user_or(a.login_user, "root"@),
            AuthMethod::Password, Seq::empty(), 0, None)
        &&& none
    } else if t && key.code == KeyCode::Char('e') {
        &&& none
        &&& match a.host_selected {
            Some(i) => if i < shown.len() {
                exists|p: int| #![trigger hosts[p]] shown_at(a, i as int, p) && {
                    &&& b == App { dialog: b.dialog, ..a }
                    &&& is_host_form(b.dialog, Some(p as usize), hosts[p].name@, hosts[p].host@,
                        decimal(hosts[p].port as nat), hosts[p].user@, hosts[p].auth, hosts[p].group@, 0, None)
                }
            } else {
                b == a
            },
            None => b == a,
        }
    } else if t && key.code == KeyCode::Char('d') {
        match a.host_selected {
            Some(i) => if i < shown.len() {
                exists|p: int| #![trigger hosts[p]] shown_at(a, i as int, p) && {
                    &&& b == App { config: b.config, host_selected: b.host_selected, ..a }
                    &&& b.config == (crate::config::AppConfig { hosts: b.config.hosts, ..a.config })
                    &&& b.config.hosts@ == hosts.remove(p)
                    &&& b.host_selected == clamped_selection(i, shown_hosts(b).len())
                    &&& effects.len() == 1
                    &&& effects[0] matches Effect::SaveConfig { success_status }
                    &&& success_status@ == "Deleted: "@ + hosts[p].name@
                }
            } else {
                b == a && none
            },
            None => b == a && none,
        }
    } else if key.code == KeyCode::Down {
        b == App { host_selected: moved_down(a.host_selected, shown.len()), ..a } && none
    } else if key.code == KeyCode::Up {
        b == App { host_selected: moved_up(a.host_selected), ..a } && none
    } else if key.code == KeyCode::Enter {
        &&& b == a
        &&& match a.host_selected {
            Some(i) => if i < shown.len() {
                effects.len() == 1 && (effects[0] matches Effect::ProbeCredentials { host } && host@ == shown[i as int]@)
            } else {
                none
            },
            None => none,
        }
    } else if key.code == KeyCode::Backspace {
        &&& b == App { host_filter: b.host_filter, ..a }
        &&& b.host_filter@ == (if a.host_filter@.len() > 0 { a.host_filter@.drop_last() } else { a.host_filter@ })
        &&& none
    } else if key.code == KeyCode::Tab {
        &&& none
        &&& if a.sessions@.len() > 0 { b == App { panel: Panel::Terminal, ..a } } else { b == a }
    } else if t && key.code is Char {
        &&& b == App { host_filter: b.host_filter, ..a }
        &&& b.host_filter@ == a.host_filter@.push(key.code->Char_0)
        &&& none
    } else if key.code == KeyCode::Esc {
        b == App { host_filter: b.host_filter, ..a } && b.host_filter@.len() == 0 && none
    } else {
        b == a && none
    }
}

/// Whether the active session has a transfer running.
pub open spec fn transfer_busy(a: App) -> bool {
    session_at(a.sessions@, a.active_session) matches Some(s) && s.transfer_state is Some
}

/// `b` is `a` after opening the directory `name` inside the active
/// session's remote directory.
pub open spec fn entered_dir(a: App, name: Seq<char>, b: App, effects: Seq<Effect>) -> bool {
    match session_at(a.sessions@, a.active_session) {
        None => b == App { status_msg: b.status_msg, ..a } && b.status_msg@ == "SFTP not connected"@ && effects.len() == 0,
        Some(s) => listing_started(a, joined_remote(s.sftp_remote_dir@, name), b, effects),
    }
}

/// `b` is `a` after going up from the active session's remote directory.
pub open spec fn went_up(a: App, b: App, effects: Seq<Effect>) -> bool {
    match session_at(a.sessions@, a.active_session) {
        None => b == a && effects.len() == 0,
        Some(s) => match parent_dir_of(s.sftp_remote_dir@) {
            None => b == a && effects.len() == 0,
            Some(p) => listing_started(a, p, b, effects),
        },
    }
}

/// `b` is `a` with the SFTP input dialog opened as given.
pub open spec fn sftp_prompted(a: App, action: SftpAction, prompt: Seq<char>, value: Seq<char>, b: App) -> bool {
    b == App { dialog: b.dialog, ..a } && is_sftp_input(b.dialog, action, prompt, value, None)
}

/// `b` is `a` after a key of the SFTP panel. While a transfer runs keys are
/// ignored. Esc goes to the host list and `?` to help; Up/`k` and Down/`j`
/// move the selection, Enter opens the selected directory, Backspace goes
/// up, `r` reloads; `d` asks where to download the selected file, `u` which
/// file to upload, `m` the name of a new directory, `e` the new name of the
/// selected entry and `x` for confirmation to delete it.
pub open spec fn sftp_key_outcome(a: App, key: KeyEvent, b: App, effects: Seq<Effect>) -> bool {
    let none = effects.len() == 0;
    let entry = selected_entry(a);
    if transfer_busy(a) {
        b == a && none
    } else if key.code == KeyCode::Esc {
        b == App { panel: Panel::HostList, ..a } && none
    } else if key.code == KeyCode::Char('?') {
        b == App { panel: Panel::Help, ..a } && none
    } else if key.code == KeyCode::Down || key.code == KeyCode::Char('j') {
        &&& none
        &&& match session_at(a.sessions@, a.active_session) {
            Some(s) => with_sftp_selection(a, moved_down(s.sftp_selected, s.sftp_entries@.len()), b),
            None => b == a,
        }
    } else if key.code == KeyCode::Up || key.code == KeyCode::Char('k') {
        &&& none
        &&& match session_at(a.sessions@, a.active_session) {
            Some(s) => with_sftp_selection(a, moved_up(s.sftp_selected), b),
            None => b == a,
        }
    } else if key.code == KeyCode::Enter {
        match entry {
            Some(e) => if e.is_dir { entered_dir(a, e.name@, b, effects) } else { b == a && none },
            None => b == a && none,
        }
    } else if key.code == KeyCode::Backspace {
        went_up(a, b, effects)
    } else if key.code == KeyCode::Char('r') {
        listing_started(a, remote_dir_or(a, Seq::empty()), b, effects)
    } else if key.code == KeyCode::Char('d') {
        &&& none
        &&& match entry {
            Some(e) => if !e.is_dir {
                sftp_prompted(a, SftpAction::Download { remote_path: e.path }, "Download to local path"@,
                    joined_path(a.download_dir@, e.name@), b)
            } else {
                b == a
            },
            None => b == a,
        }
    } else if key.code == KeyCode::Char('u') {
        &&& none
        &&& b == App { dialog: b.dialog, ..a }
        &&& b.dialog matches Dialog::SftpInput { action, prompt, value, error }
        &&& action matches SftpAction::Upload { remote_dir }
        &&& remote_dir@ == remote_dir_or(a, seq!['/'])
        &&& prompt@ == "Upload local file path"@ && value@.len() == 0 && error is None
    } else if key.code == KeyCode::Char('m') {
        &&& none
        &&& b == App { dialog: b.dialog, ..a }
        &&& b.dialog matches Dialog::SftpInput { action, prompt, value, error }
        &&& action matches SftpAction::Mkdir { parent }
        &&& parent@ == remote_dir_or(a, seq!['/'])
        &&& prompt@ == "New remote directory name"@ && value@.len() == 0 && error is None
    } else if key.code == KeyCode::Char('e') {
        &&& none
        &&& match entry {
            Some(e) => sftp_prompted(a, SftpAction::Rename { old_path: e.path }, "Rename remote item to"@, e.name@, b),
            None => b == a,
        }
    } else if key.code == KeyCode::Char('x') {
        &&& none
        &&& match entry {
            Some(e) => sftp_prompted(a, SftpAction::Delete { path: e.path, is_dir: e.is_dir },
                "Type yes to delete selected item"@, Seq::empty(), b),
            None => b == a,
        }
    } else {
        b == a && none
    }
}

impl App {
    /// The hosts shown in the host list: all of them, or with a filter
    /// typed those whose name, address or user contains it.
    pub fn filtered_hosts(&self) -> (r: Vec<&HostConfig>)
        ensures
            r@.map_values(|h: &HostConfig| *h) == shown_hosts(*self),
    {
        let ghost pred = host_matches(self.host_filter@);
        let mut r: Vec<&HostConfig> = Vec::new();
        let mut i: usize = 0;
        let empty = self.host_filter.as_str().unicode_len() == 0;
        while i < self.config.hosts.len()
            invariant
                i <= self.config.hosts@.len(),
                pred == host_matches(self.host_filter@),
                empty == (self.host_filter@.len() == 0),
                r@.map_values(|h: &HostConfig| *h) == self.config.hosts@.take(i as int).filter(pred),
            decreases self.config.hosts.len() - i,
        {
            proof {
                crate::text::lemma_filter_take_step(self.config.hosts@, i as int, pred);
            }
            let h = &self.config.hosts[i];
            let f = self.host_filter.as_str();
            let keep = empty || str_contains(h.name.as_str(), f) || str_contains(h.host.as_str(), f)
                || str_contains(h.user.as_str(), f);
            if keep {
                let ghost before = r@;
                r.push(h);
                assert(r@.map_values(|h: &HostConfig| *h) =~= before.map_values(|h: &HostConfig| *h).push(
                    self.config.hosts@[i as int],
                ));
            }
            i = i + 1;
        }
        assert(self.config.hosts@.take(self.config.hosts@.len() as int) =~= self.config.hosts@);
        r
    }

    /// Where the `i`-th shown host (from 0) stands among all hosts.
    pub(crate) fn shown_position(&self, i: usize) -> (r: Option<usize>)
        ensures
            r matches Some(p) ==> shown_at(*self, i as int, p as int),
            r is None ==> i >= shown_hosts(*self).len(),
    {
        let ghost pred = host_matches(self.host_filter@);
        let f = self.host_filter.as_str();
        let empty = f.unicode_len() == 0;
        let mut count: usize = 0;
        let mut k: usize = 0;
        while k < self.config.hosts.len()
            invariant
                k <= self.config.hosts@.len(),
                pred == host_matches(self.host_filter@),
                f@ == self.host_filter@,
                empty == (self.host_filter@.len() == 0),
                count == self.config.hosts@.take(k as int).filter(pred).len(),
                count <= i,
            decreases self.config.hosts.len() - k,
        {
            proof {
                crate::text::lemma_filter_take_step(self.config.hosts@, k as int, pred);
            }
            let h = &self.config.hosts[k];
            let keep = empty || str_contains(h.name.as_str(), f) || str_contains(h.host.as_str(), f)
                || str_contains(h.user.as_str(), f);
            if keep {
                if count == i {
                    return Some(k);
                }
                count = count + 1;
            }
            k = k + 1;
        }
        assert(self.config.hosts@.take(k as int) =~= self.config.hosts@);
        None
    }

    /// Application-wide shortcuts, tried before the panel's own keys:
    /// Alt-H/T/S and F1/F2/F3 switch panels, Alt-N/] and Alt-Right go to the
    /// next session, Alt-P/[ and Alt-Left to the previous one, Alt-W closes
    /// the active session. Returns whether the key was one of them.
    pub fn handle_global_key(&mut self, key: &KeyEvent) -> (r: (bool, Vec<Effect>))
        requires
            old(self).dialog is Closed && closes_session(*key) ==> (old(self).sessions@.len() > 0
                ==> old(self).active_session < old(self).sessions@.len()),
            old(self).dialog is Closed && goes_to_next_session(*key) ==> (old(self).sessions@.len() > 1
                ==> old(self).active_session < usize::MAX),
        ensures
            old(self).wf() ==> final(self).wf(),
            global_key_outcome(*old(self), *key, *final(self), r.0, r.1@),
            ids_fresh(*old(self)) ==> ids_fresh(*final(self)),
    {
        if self.has_dialog() {
            return (false, Vec::new());
        }
        if key.modifiers.alt {
            match key.code {
                KeyCode::Char(c) => {
                    let l = to_ascii_lower(c);
                    if l == 'h' {
                        let e = self.switch_panel(Panel::HostList);
                        return (true, e);
                    } else if l == 't' {
                        let e = self.switch_panel(Panel::Terminal);
                        return (true, e);
                    } else if l == 's' {
                        let e = self.switch_panel(Panel::Sftp);
                        return (true, e);
                    } else if l == 'n' || l == ']' {
                        let e = self.next_session();
                        return (true, e);
                    } else if l == 'p' || l == '[' {
                        let e = self.prev_session();
                        return (true, e);
                    } else if l == 'w' {
                        let e = self.close_active_session();
                        return (true, e);
                    } else {
                        return (false, Vec::new());
                    }
                },
                KeyCode::Left => {
                    let e = self.prev_session();
                    return (true, e);
                },
                KeyCode::Right => {
                    let e = self.next_session();
                    return (true, e);
                },
                _ => {},
            }
        }
        if is_plain(key.modifiers) {
            match key.code {
                KeyCode::F(n) => {
                    if n == 1 {
                        let e = self.switch_panel(Panel::HostList);
                        return (true, e);
                    } else if n == 2 {
                        let e = self.switch_panel(Panel::Terminal);
                        return (true, e);
                    } else if n == 3 {
                        let e = self.switch_panel(Panel::Sftp);
                        return (true, e);
                    }
                },
                _ => {},
            }
        }
        (false, Vec::new())
    }

    /// A key of the terminal panel: Ctrl+Q leaves the session, other keys go
    /// to the active session's shell when it is connected.
    pub(crate) fn handle_terminal_key(&mut self, key: &KeyEvent) -> (r: Vec<Effect>)
        ensures
            terminal_key_outcome(*old(self), *key, *final(self), r@),
            old(self).wf() ==> final(self).wf(),
            ids_fresh(*old(self)) ==> ids_fresh(*final(self)),
    {
        if is_control_only(key.modifiers) && key.code == KeyCode::Char('q') {
            let effects = if self.active_session < self.sessions.len() {
                self.close_active_session()
            } else {
                Vec::new()
            };
            self.panel = Panel::HostList;
            return effects;
        }
        let mut effects: Vec<Effect> = Vec::new();
        if self.active_session < self.sessions.len() {
            if self.sessions[self.active_session].connected {
                match terminal_key_bytes(*key) {
                    Some(data) => {
                        effects.push(Effect::SendInput { session_id: self.sessions[self.active_session].id, data });
                    },
                    None => {},
                }
            }
        }
        effects
    }

    /// A key of the help panel.
    pub(crate) fn handle_help_key(&mut self, key: &KeyEvent) -> (r: Vec<Effect>)
        ensures
            help_key_outcome(*old(self), *key, *final(self), r@),
    {
        match key.code {
            KeyCode::Esc => {
                self.panel = Panel::HostList;
            },
            KeyCode::Char(c) => {
                if c == '?' || c == 'q' {
                    self.panel = Panel::HostList;
                }
            },
            _ => {},
        }
        Vec::new()
    }
}


impl App {
    /// A key of the host list.
    pub(crate) fn handle_host_list_key(&mut self, key: &KeyEvent) -> (r: Vec<Effect>)
        ensures
            host_list_key_outcome(*old(self), *key, *final(self), r@),
    {
        let typed = is_plain(key.modifiers) || is_shift_only(key.modifiers);
        let mut effects: Vec<Effect> = Vec::new();
        match key.code {
            KeyCode::Char(c) => {
                if typed && c == 'q' {
                    self.running = false;
                } else if typed && c == '?' {
                    self.panel = Panel::Help;
                } else if typed && c == 'a' {
                    let user = match &self.login_user {
                        Some(u) => u.clone(),
                        None => String::from_str("root"),
                    };
                    self.dialog = Dialog::HostForm {
                        edit_index: None,
                        name: String::new(),
                        host: String::new(),
                        port: String::from_str("22"),
                        user,
                        auth: AuthMethod::Password,
                        group: String::new(),
                        field: 0,
                        error: None,
                    };
                } else if typed && c == 'e' {
                    match self.host_selected {
                        Some(i) => {
                            match self.shown_position(i) {
                                Some(p) => {
                                    let h = &self.config.hosts[p];
                                    let form = Dialog::HostForm {
                                        edit_index: Some(p),
                                        name: h.name.clone(),
                                        host: h.host.clone(),
                                        port: decimal_string(h.port as u64),
                                        user: h.user.clone(),
                                        auth: h.auth.clone(),
                                        group: h.group.clone(),
                                        field: 0,
                                        error: None,
                                    };
                                    self.dialog = form;
                                    proof {
                                        shown_position_is_shown_host(*old(self), i as int, p as int);
                                    }
                                },
                                None => {},
                            }
                        },
                        None => {},
                    }
                } else if typed && c == 'd' {
                    match self.host_selected {
                        Some(i) => {
                            match self.shown_position(i) {
                                Some(p) => {
                                    let name = self.config.hosts[p].name.clone();
                                    self.config.hosts.remove(p);
                                    effects.push(Effect::SaveConfig { success_status: concat("Deleted: ", name.as_str()) });
                                    let n = self.filtered_hosts().len();
                                    if n == 0 {
                                        self.host_selected = None;
                                    } else if i >= n {
                                        self.host_selected = Some(n - 1);
                                    }
                                    proof {
                                        shown_position_is_shown_host(*old(self), i as int, p as int);
                                    }
                                },
                                None => {},
                            }
                        },
                        None => {},
                    }
                } else if typed {
                    string_push(&mut self.host_filter, c);
                }
            },
            KeyCode::Down => {
                let n = self.filtered_hosts().len();
                let i = match self.host_selected {
                    Some(i) => i,
                    None => 0,
                };
                let last = if n >= 1 { n - 1 } else { 0 };
                if i < last {
                    self.host_selected = Some(i + 1);
                }
            },
            KeyCode::Up => {
                let i = match self.host_selected {
                    Some(i) => i,
                    None => 0,
                };
                if i > 0 {
                    self.host_selected = Some(i - 1);
                }
            },
            KeyCode::Enter => {
                match self.host_selected {
                    Some(i) => {
                        let shown = self.filtered_hosts();
                        if i < shown.len() {
                            let host = shown[i].clone();
                            proof {
                                assert(shown@.map_values(|h: &HostConfig| *h)[i as int] == *shown@[i as int]);
                            }
                            effects.push(Effect::ProbeCredentials { host });
                        }
                    },
                    None => {},
                }
            },
            KeyCode::Backspace => {
                let _ = string_pop(&mut self.host_filter);
            },
            KeyCode::Tab => {
                if self.sessions.len() > 0 {
                    self.panel = Panel::Terminal;
                }
            },
            KeyCode::Esc => {
                self.host_filter = String::new();
            },
            _ => {},
        }
        proof {
            reveal_strlit("22");
            reveal_strlit("root");
        }
        effects
    }
}

impl App {
    /// The selected entry of the active session's listing.
    fn selected_sftp_entry(&self) -> (r: Option<FileEntry>)
        ensures
            r == selected_entry(*self),
    {
        if self.active_session < self.sessions.len() {
            let s = &self.sessions[self.active_session];
            match s.sftp_selected {
                Some(i) => {
                    if i < s.sftp_entries.len() {
                        Some(s.sftp_entries[i].clone())
                    } else {
                        None
                    }
                },
                None => None,
            }
        } else {
            None
        }
    }

    /// The active session's remote directory, `fallback` without a session.
    fn remote_dir_or(&self, fallback: &str) -> (r: String)
        ensures
            r@ == remote_dir_or(*self, fallback@),
    {
        if self.active_session < self.sessions.len() {
            self.sessions[self.active_session].sftp_remote_dir.clone()
        } else {
            String::from_str(fallback)
        }
    }

    /// Opens the directory `name` inside the active session's remote directory.
    fn navigate_sftp_dir(&mut self, name: &str) -> (r: Vec<Effect>)
        ensures
            entered_dir(*old(self), name@, *final(self), r@),
    {
        if self.active_session >= self.sessions.len() {
            self.status_msg = String::from_str("SFTP not connected");
            return Vec::new();
        }
        let new_path = join_remote_path(self.sessions[self.active_session].sftp_remote_dir.as_str(), name);
        self.list_sftp_dir(new_path)
    }

    /// Goes up from the active session's remote directory.
    fn navigate_sftp_up(&mut self) -> (r: Vec<Effect>)
        ensures
            went_up(*old(self), *final(self), r@),
    {
        if self.active_session >= self.sessions.len() {
            return Vec::new();
        }
        match parent_dir(self.sessions[self.active_session].sftp_remote_dir.as_str()) {
            Some(p) => self.list_sftp_dir(p),
            None => Vec::new(),
        }
    }

    /// Opens the SFTP input dialog.
    fn prompt_sftp(&mut self, action: SftpAction, prompt: &str, value: String)
        ensures
            sftp_prompted(*old(self), action, prompt@, value@, *final(self)),
    {
        self.dialog = Dialog::SftpInput { action, prompt: String::from_str(prompt), value, error: None };
    }

    /// A key of the SFTP panel.
    pub(crate) fn handle_sftp_key(&mut self, key: &KeyEvent) -> (r: Vec<Effect>)
        ensures
            sftp_key_outcome(*old(self), *key, *final(self), r@),
    {
        if self.active_session < self.sessions.len() {
            if self.sessions[self.active_session].transfer_state.is_some() {
                return Vec::new();
            }
        }
        let i = self.active_session;
        match key.code {
            KeyCode::Esc => {
                self.panel = Panel::HostList;
                Vec::new()
            },
            KeyCode::Down => {
                if i < self.sessions.len() {
                    let n = self.sessions[i].sftp_entries.len();
                    let sel = self.sessions[i].sftp_selected;
                    let j = match sel { Some(j) => j, None => 0 };
                    let last = if n >= 1 { n - 1 } else { 0 };
                    let next = if j < last { Some(j + 1) } else { sel };
                    self.set_sftp_selection(i, next);
                }
                Vec::new()
            },
            KeyCode::Up => {
                if i < self.sessions.len() {
                    let sel = self.sessions[i].sftp_selected;
                    let j = match sel { Some(j) => j, None => 0 };
                    let next = if j > 0 { Some(j - 1) } else { sel };
                    self.set_sftp_selection(i, next);
                }
                Vec::new()
            },
            KeyCode::Enter => {
                match self.selected_sftp_entry() {
                    Some(e) => {
                        if e.is_dir {
                            self.navigate_sftp_dir(e.name.as_str())
                        } else {
                            Vec::new()
                        }
                    },
                    None => Vec::new(),
                }
            },
            KeyCode::Backspace => self.navigate_sftp_up(),
            KeyCode::Char(c) => {
                if c == '?' {
                    self.panel = Panel::Help;
                    Vec::new()
                } else if c == 'j' {
                    if i < self.sessions.len() {
                        let n = self.sessions[i].sftp_entries.len();
                        let sel = self.sessions[i].sftp_selected;
                        let j = match sel { Some(j) => j, None => 0 };
                        let last = if n >= 1 { n - 1 } else { 0 };
                        let next = if j < last { Some(j + 1) } else { sel };
                        self.set_sftp_selection(i, next);
                    }
                    Vec::new()
                } else if c == 'k' {
                    if i < self.sessions.len() {
                        let sel = self.sessions[i].sftp_selected;
                        let j = match sel { Some(j) => j, None => 0 };
                        let next = if j > 0 { Some(j - 1) } else { sel };
                        self.set_sftp_selection(i, next);
                    }
                    Vec::new()
                } else if c == 'r' {
                    let path = self.remote_dir_or("");
                    self.list_sftp_dir(path)
                } else if c == 'd' {
                    match self.selected_sftp_entry() {
                        Some(e) => {
                            if !e.is_dir {
                                let value = path_join(self.download_dir.as_str(), e.name.as_str());
                                self.prompt_sftp(SftpAction::Download { remote_path: e.path }, "Download to local path", value);
                            }
                        },
                        None => {},
                    }
                    Vec::new()
                } else if c == 'u' {
                    let remote_dir = self.remote_dir_or("/");
                    self.prompt_sftp(SftpAction::Upload { remote_dir }, "Upload local file path", String::new());
                    proof {
                        reveal_strlit("/");
                        assert("/"@ =~= seq!['/']);
                    }
                    Vec::new()
                } else if c == 'm' {
                    let parent = self.remote_dir_or("/");
                    self.prompt_sftp(SftpAction::Mkdir { parent }, "New remote directory name", String::new());
                    proof {
                        reveal_strlit("/");
                        assert("/"@ =~= seq!['/']);
                    }
                    Vec::new()
                } else if c == 'e' {
                    match self.selected_sftp_entry() {
                        Some(e) => {
                            self.prompt_sftp(SftpAction::Rename { old_path: e.path }, "Rename remote item to", e.name);
                        },
                        None => {},
                    }
                    Vec::new()
                } else if c == 'x' {
                    match self.selected_sftp_entry() {
                        Some(e) => {
                            self.prompt_sftp(
                                SftpAction::Delete { path: e.path, is_dir: e.is_dir },
                                "Type yes to delete selected item",
                                String::new(),
                            );
                        },
                        None => {},
                    }
                    Vec::new()
                } else {
                    Vec::new()
                }
            },
            _ => Vec::new(),
        }
    }
}
} // verus!

verus! {

/// In the host list, a filter character typed (alone or with Shift) followed by Backspace leaves
/// the filter, and everything else, as it was.
pub proof fn filter_backspace_undoes_char(a: App, c: char, k1: KeyEvent, k2: KeyEvent, b: App, d: App, e1: Seq<Effect>, e2: Seq<Effect>)
    requires
        typed(k1),
        k1.code == KeyCode::Char(c),
        c != 'q' && c != '?' && c != 'a' && c != 'e' && c != 'd',
        k2.code == KeyCode::Backspace,
        host_list_key_outcome(a, k1, b, e1),
        host_list_key_outcome(b, k2, d, e2),
    ensures
        d == (App { host_filter: d.host_filter, ..a }),
        d.host_filter@ == a.host_filter@,
        e1.len() == 0 && e2.len() == 0,
{
    assert(a.host_filter@.push(c).drop_last() =~= a.host_filter@);
}

} // verus!
