//! The application state machine. Keys, mouse clicks and connection events
//! change the state; what needs the network, the keyring or the disk is
//! returned as [`Effect`]s for the runtime to carry out.

use vstd::prelude::*;
use crate::config::{AppConfig, AuthMethod, HostConfig, HostView};
use crate::sftp::{FileEntry, TransferState};
use crate::terminal::ScreenBuffer;
use crate::text::{concat, concat3};

pub mod input;
pub mod dialog;
pub mod layout;
pub mod events;


verus! {

/// The panel shown in the main area.
#[derive(Debug, Clone, Copy, PartialEq, Eq, Structural)]
pub enum Panel {
    HostList,
    Terminal,
    Sftp,
    Help,
}

/// A remote file operation typed into the SFTP input dialog.
#[derive(Debug)]
pub enum SftpAction {
    Download { remote_path: String },
    Upload { remote_dir: String },
    Mkdir { parent: String },
    Rename { old_path: String },
    Delete { path: String, is_dir: bool },
}

impl Clone for SftpAction {
    fn clone(&self) -> (r: Self)
        ensures
            r == *self,
    {
        match self {
            SftpAction::Download { remote_path } => SftpAction::Download { remote_path: remote_path.clone() },
            SftpAction::Upload { remote_dir } => SftpAction::Upload { remote_dir: remote_dir.clone() },
            SftpAction::Mkdir { parent } => SftpAction::Mkdir { parent: parent.clone() },
            SftpAction::Rename { old_path } => SftpAction::Rename { old_path: old_path.clone() },
            SftpAction::Delete { path, is_dir } => SftpAction::Delete { path: path.clone(), is_dir: *is_dir },
        }
    }
}

/// A modal dialog.
#[derive(Debug)]
pub enum Dialog {
    Closed,
    PasswordInput { host: HostConfig, password: String, error: Option<String> },
    Connecting { host_name: String },
    HostForm {
        edit_index: Option<usize>,
        name: String,
        host: String,
        port: String,
        user: String,
        auth: AuthMethod,
        group: String,
        field: usize,
        error: Option<String>,
    },
    SftpInput { action: SftpAction, prompt: String, value: String, error: Option<String> },
}

impl Default for Dialog {
    fn default() -> (r: Self)
        ensures
            r == Dialog::Closed,
    {
        Dialog::Closed
    }
}

/// A remote change carried out over SFTP.
#[derive(Debug)]
pub enum RemoteChange {
    Mkdir { path: String },
    Rename { old_path: String, new_path: String },
    RemoveDir { path: String },
    RemoveFile { path: String },
}

/// Work for the runtime: network, keyring and disk operations the state
/// machine asked for. `session_id` names the session concerned.
#[derive(Debug)]
pub enum Effect {
    /// Connect to `host` (with `password` when given) and open a shell of
    /// `cols` x `rows`; report back with session events.
    StartConnection { session_id: usize, host: HostConfig, password: Option<String>, cols: u16, rows: u16 },
    /// Store a password in the system keyring (a failure is only warned about).
    StorePassword { host: String, user: String, password: String },
    /// Save the configuration; report back with [`App::config_saved`].
    SaveConfig { success_status: String },
    /// Send bytes to the session's shell; a failure aborts the key handling.
    SendInput { session_id: usize, data: Vec<u8> },
    /// Resize the session's terminal (failures are ignored).
    Resize { session_id: usize, cols: u16, rows: u16 },
    /// Disconnect the session's connection in the background.
    Disconnect { session_id: usize },
    /// Release everything the runtime holds for the session.
    DropSession { session_id: usize },
    /// Check whether a password or key is at hand for `host`; report back
    /// with [`App::initiate_connection`].
    ProbeCredentials { host: HostConfig },
    /// List a remote directory on a separate connection; report back with
    /// [`App::poll_sftp_updates`].
    ListSftpDir { session_id: usize, host: HostConfig, password: Option<String>, path: String },
    /// Download a remote file on a separate connection; report back with
    /// transfer events through [`App::poll_sftp_updates`].
    Download { session_id: usize, host: HostConfig, password: Option<String>, remote_path: String, local_path: String },
    /// Upload a local file on a separate connection; report back with
    /// transfer events through [`App::poll_sftp_updates`].
    Upload { session_id: usize, host: HostConfig, password: Option<String>, local_path: String, remote_path: String },
    /// Change the remote file system on a separate connection; report back
    /// with [`App::poll_sftp_updates`].
    ChangeRemote {
        session_id: usize,
        host: HostConfig,
        password: Option<String>,
        change: RemoteChange,
        refresh_path: String,
        success_status: String,
    },
    /// Feed output bytes to the session's terminal emulator.
    FeedTerminal { session_id: usize, data: Vec<u8> },
}

/// The scrollback kept for each session's terminal.
pub open spec fn scrollback_lines() -> nat {
    5000
}

/// One SSH session (one per connection).
#[derive(Debug)]
pub struct Session {
    pub id: usize,
    pub name: String,
    pub host_config: HostConfig,
    pub auth_password: Option<String>,
    /// Whether the connection is established (the runtime holds its handle).
    pub connected: bool,
    pub term_screen: ScreenBuffer,
    pub sftp_entries: Vec<FileEntry>,
    pub sftp_remote_dir: String,
    /// The selected row of the SFTP table.
    pub sftp_selected: Option<usize>,
    pub transfer_state: Option<TransferState>,
}

impl Session {
    /// A new, not yet connected session for `host_config`.
    pub fn new(id: usize, host_config: HostConfig) -> (r: Self)
        ensures
            r.id == id,
            r.name@ == host_config.name@,
            r.host_config == host_config,
            r.auth_password is None,
            !r.connected,
            r.term_screen@ == (crate::terminal::ScreenState {
                lines: seq![Seq::<char>::empty()],
                max_lines: scrollback_lines(),
                row: 0,
                col: 0,
            }),
            r.term_screen.wf(),
            r.sftp_entries@.len() == 0,
            r.sftp_remote_dir@ == seq!['/'],
            r.sftp_selected is None,
            r.transfer_state is None,
    {
        let name = host_config.name.clone();
        let dir = String::from_str("/");
        proof {
            reveal_strlit("/");
        }
        Session {
            id,
            name,
            host_config,
            auth_password: None,
            connected: false,
            term_screen: ScreenBuffer::new(5000),
            sftp_entries: Vec::new(),
            sftp_remote_dir: dir,
            sftp_selected: None,
            transfer_state: None,
        }
    }
}

/// The application state.
#[derive(Debug)]
pub struct App {
    pub config: AppConfig,
    pub panel: Panel,
    pub running: bool,
    pub dialog: Dialog,
    /// The selected row of the host list.
    pub host_selected: Option<usize>,
    pub host_filter: String,
    pub terminal_cols: u16,
    pub terminal_rows: u16,
    pub sessions: Vec<Session>,
    pub active_session: usize,
    pub next_session_id: usize,
    pub status_msg: String,
    /// The login name of the local user, when the environment gives one.
    pub login_user: Option<String>,
    /// The local directory downloads go to by default.
    pub download_dir: String,
}

/// The welcome line of the status bar.
pub open spec fn welcome_status() -> Seq<char> {
    "Welcome to ssh-t | Enter: connect | ?: help"@
}

/// The hosts offered when the configuration has none: this machine, logged
/// in as `user`, and an example server.
pub open spec fn example_hosts(user: Seq<char>, hosts: Seq<HostConfig>) -> bool {
    &&& hosts.len() == 2
    &&& hosts[0]@ == (HostView {
        name: "localhost"@,
        host: "127.0.0.1"@,
        port: 22,
        user,
        auth: AuthMethod::Password,
        group: Seq::empty(),
        tags: Seq::empty(),
        jump_host: None,
        notes: "Local machine"@,
    })
    &&& hosts[1]@ == (HostView {
        name: "example-server"@,
        host: "example.com"@,
        port: 22,
        user: "user"@,
        auth: AuthMethod::Password,
        group: Seq::empty(),
        tags: Seq::empty(),
        jump_host: None,
        notes: "Example server"@,
    })
}

/// The user name given to new hosts: the login name, else `fallback`.
pub open spec fn user_or(login_user: Option<String>, fallback: Seq<char>) -> Seq<char> {
    match login_user {
        Some(u) => u@,
        None => fallback,
    }
}

fn string_or(login_user: &Option<String>, fallback: &str) -> (r: String)
    ensures
        r@ == user_or(*login_user, fallback@),
{
    match login_user {
        Some(u) => u.clone(),
        None => String::from_str(fallback),
    }
}

fn example_host(name: &str, host: &str, user: String, notes: &str) -> (r: HostConfig)
    ensures
        r@ == (HostView {
            name: name@,
            host: host@,
            port: 22,
            user: user@,
            auth: AuthMethod::Password,
            group: Seq::empty(),
            tags: Seq::empty(),
            jump_host: None,
            notes: notes@,
        }),
{
    let tags: Vec<String> = Vec::new();
    let r = HostConfig {
        name: String::from_str(name),
        host: String::from_str(host),
        port: 22,
        user,
        auth: AuthMethod::Password,
        group: String::new(),
        tags,
        jump_host: None,
        notes: String::from_str(notes),
    };
    assert(r.tags@.map_values(|t: String| t@) =~= Seq::<Seq<char>>::empty());
    r
}

/// Whether the active-session index is usable: inside the session list, or
/// 0 when there are no sessions.
pub open spec fn active_index_ok(sessions: Seq<Session>, active: usize) -> bool {
    if sessions.len() == 0 { active == 0 } else { active < sessions.len() }
}

/// The session at `i`, if there is one.
pub open spec fn session_at(sessions: Seq<Session>, i: usize) -> Option<Session> {
    if i < sessions.len() { Some(sessions[i as int]) } else { None }
}

/// The password and host a separate connection for session `s` uses.
pub open spec fn same_login(s: Session, host: HostConfig, password: Option<String>) -> bool {
    host@ == s.host_config@ && password == s.auth_password
}

/// Session ids tell sessions apart: each is below the next id to hand out,
/// and no two sessions share one.
pub open spec fn ids_fresh(a: App) -> bool {
    &&& forall|i: int| 0 <= i < a.sessions@.len() ==> (#[trigger] a.sessions@[i]).id < a.next_session_id
    &&& forall|i: int, j: int|
        0 <= i < j < a.sessions@.len() ==> (#[trigger] a.sessions@[i]).id != (#[trigger] a.sessions@[j]).id
}

/// A session added with the next id keeps the ids apart.
pub(crate) proof fn lemma_ids_push(a: App, b: App)
    requires
        ids_fresh(a),
        b.sessions@.len() == a.sessions@.len() + 1,
        b.sessions@.drop_last() == a.sessions@,
        b.sessions@.last().id == a.next_session_id,
        b.next_session_id == a.next_session_id + 1,
    ensures
        ids_fresh(b),
{
    let n = a.sessions@.len() as int;
    assert forall|i: int| 0 <= i < n implies b.sessions@[i] == a.sessions@[i] by {
        assert(b.sessions@.drop_last()[i] == b.sessions@[i]);
    }
    assert forall|i: int, j: int| 0 <= i < j < b.sessions@.len() implies (#[trigger] b.sessions@[i]).id
        != (#[trigger] b.sessions@[j]).id by {
        if j == n {
            assert(a.sessions@[i].id < a.next_session_id);
        } else {
            assert(a.sessions@[i].id != a.sessions@[j].id);
        }
    }
    assert forall|i: int| 0 <= i < b.sessions@.len() implies (#[trigger] b.sessions@[i]).id < b.next_session_id by {
        if i < n {
            assert(a.sessions@[i].id < a.next_session_id);
        }
    }
}

impl App {
    /// Whether the state is one the application can be in.
    pub open spec fn wf(&self) -> bool {
        active_index_ok(self.sessions@, self.active_session)
    }

    /// A fresh application state for `config`. When the configuration has no
    /// hosts, two example hosts are offered.
    pub fn new(config: AppConfig, login_user: Option<String>, download_dir: String) -> (r: Self)
        ensures
            config.hosts@.len() > 0 ==> r.config == config,
            config.hosts@.len() == 0 ==> example_hosts(user_or(login_user, "user"@), r.config.hosts@)
                && r.config.groups == config.groups && r.config.key_map == config.key_map,
            r.panel == Panel::HostList,
            r.running,
            r.dialog == Dialog::Closed,
            r.host_selected is None,
            r.host_filter@.len() == 0,
            r.terminal_cols == 80,
            r.terminal_rows == 24,
            r.sessions@.len() == 0,
            r.active_session == 0,
            r.next_session_id == 1,
            r.status_msg@ == welcome_status(),
            r.login_user == login_user,
            r.download_dir == download_dir,
            r.wf(),
            ids_fresh(r),
    {
        let mut config = config;
        if config.hosts.len() == 0 {
            let user = string_or(&login_user, "user");
            let mut hosts: Vec<HostConfig> = Vec::new();
            hosts.push(example_host("localhost", "127.0.0.1", user, "Local machine"));
            hosts.push(example_host("example-server", "example.com", String::from_str("user"), "Example server"));
            config.hosts = hosts;
        }
        App {
            config,
            panel: Panel::HostList,
            running: true,
            dialog: Dialog::Closed,
            host_selected: None,
            host_filter: String::new(),
            terminal_cols: 80,
            terminal_rows: 24,
            sessions: Vec::new(),
            active_session: 0,
            next_session_id: 1,
            status_msg: String::from_str("Welcome to ssh-t | Enter: connect | ?: help"),
            login_user,
            download_dir,
        }
    }

    /// Whether a dialog is open.
    pub fn has_dialog(&self) -> (r: bool)
        ensures
            r == !(self.dialog is Closed),
    {
        !matches!(self.dialog, Dialog::Closed)
    }

    /// The active session, if any.
    pub fn active_session(&self) -> (r: Option<&Session>)
        ensures
            match r {
                Some(s) => self.active_session < self.sessions@.len() && *s == self.sessions@[self.active_session as int],
                None => self.active_session >= self.sessions@.len(),
            },
    {
        if self.active_session < self.sessions.len() {
            Some(&self.sessions[self.active_session])
        } else {
            None
        }
    }

    /// The active session, if any, for changing it.
    pub fn active_session_mut(&mut self) -> (r: Option<&mut Session>)
        ensures
            match r {
                Some(s) => old(self).active_session < old(self).sessions@.len()
                    && *s == old(self).sessions@[old(self).active_session as int]
                    && *final(self) == (App { sessions: final(self).sessions, ..*old(self) })
                    && final(self).sessions@ == old(self).sessions@.update(old(self).active_session as int, *final(s)),
                None => old(self).active_session >= old(self).sessions@.len() && *final(self) == *old(self),
            },
    {
        let i = self.active_session;
        if i < self.sessions.len() {
            Some(&mut self.sessions[i])
        } else {
            None
        }
    }

    /// Whether the active session is connected.
    pub fn has_active_connection(&self) -> (r: bool)
        ensures
            r == (self.active_session < self.sessions@.len() && self.sessions@[self.active_session as int].connected),
    {
        self.active_session < self.sessions.len() && self.sessions[self.active_session].connected
    }

    /// Removes the session at `pos` and keeps the active index on a session:
    /// the same session when it stays, else the last one. Without sessions
    /// left, the terminal and SFTP panels give way to the host list.
    pub(crate) fn remove_session(&mut self, pos: usize) -> (r: Effect)
        requires
            pos < old(self).sessions@.len(),
        ensures
            *final(self) == (App {
                sessions: final(self).sessions,
                active_session: final(self).active_session,
                panel: final(self).panel,
                ..*old(self)
            }),
            final(self).sessions@ == old(self).sessions@.remove(pos as int),
            final(self).active_session == removed_active(old(self).active_session, pos, old(self).sessions@.len()),
            final(self).panel == panel_after_removal(old(self).panel, final(self).sessions@.len()),
            r == (Effect::DropSession { session_id: old(self).sessions@[pos as int].id }),
    {
        let id = self.sessions[pos].id;
        self.sessions.remove(pos);
        if self.sessions.len() == 0 {
            self.active_session = 0;
            if self.panel == Panel::Terminal || self.panel == Panel::Sftp {
                self.panel = Panel::HostList;
            }
        } else {
            if self.active_session >= self.sessions.len() {
                self.active_session = self.sessions.len() - 1;
            } else if pos < self.active_session {
                self.active_session = self.active_session - 1;
            }
        }
        Effect::DropSession { session_id: id }
    }

    /// Makes the session at `index` active and shows its terminal; its
    /// terminal is resized to the current size when connected. Nothing
    /// happens for an index past the sessions.
    pub(crate) fn activate_session(&mut self, index: usize) -> (r: Vec<Effect>)
        ensures
            activation_outcome(*old(self), index, *final(self), r@),
            old(self).wf() ==> final(self).wf(),
    {
        if index >= self.sessions.len() {
            return Vec::new();
        }
        self.active_session = index;
        self.panel = Panel::Terminal;
        self.status_msg = concat("Switched to: ", self.sessions[index].name.as_str());
        let mut effects: Vec<Effect> = Vec::new();
        if self.sessions[index].connected {
            effects.push(Effect::Resize {
                session_id: self.sessions[index].id,
                cols: self.terminal_cols,
                rows: self.terminal_rows,
            });
        }
        effects
    }

    /// Closes the active session: its connection is closed in the background
    /// and the session removed. Nothing happens without sessions.
    pub fn close_active_session(&mut self) -> (r: Vec<Effect>)
        requires
            old(self).sessions@.len() > 0 ==> old(self).active_session < old(self).sessions@.len(),
        ensures
            old(self).sessions@.len() > 0 || old(self).wf() ==> final(self).wf(),
            close_outcome(*old(self), *final(self), r@),
            ids_fresh(*old(self)) ==> ids_fresh(*final(self)),
    {
        if self.sessions.len() == 0 {
            return Vec::new();
        }
        let pos = self.active_session;
        let name = self.sessions[pos].name.clone();
        let mut effects: Vec<Effect> = Vec::new();
        if self.sessions[pos].connected {
            effects.push(Effect::Disconnect { session_id: self.sessions[pos].id });
        }
        let ghost before = effects@;
        let drop = self.remove_session(pos);
        effects.push(drop);
        self.status_msg = concat("Closed: ", name.as_str());
        assert(effects@ =~= before.push(Effect::DropSession { session_id: old(self).sessions@[pos as int].id }));
        assert(closed_active(*old(self), *self, effects@));
        effects
    }

    /// Switches to the next session, wrapping around (with two or more sessions).
    pub fn next_session(&mut self) -> (r: Vec<Effect>)
        requires
            old(self).sessions@.len() > 1 ==> old(self).active_session < usize::MAX,
        ensures
            old(self).wf() ==> final(self).wf(),
            next_switched(*old(self), *final(self), r@),
            ids_fresh(*old(self)) ==> ids_fresh(*final(self)),
    {
        if self.sessions.len() > 1 {
            let next = (self.active_session + 1) % self.sessions.len();
            self.activate_session(next)
        } else {
            Vec::new()
        }
    }

    /// Switches to the previous session, wrapping around (with two or more sessions).
    pub fn prev_session(&mut self) -> (r: Vec<Effect>)
        ensures
            old(self).wf() ==> final(self).wf(),
            prev_switched(*old(self), *final(self), r@),
            ids_fresh(*old(self)) ==> ids_fresh(*final(self)),
    {
        if self.sessions.len() > 1 {
            let prev = if self.active_session == 0 {
                self.sessions.len() - 1
            } else {
                self.active_session - 1
            };
            self.activate_session(prev)
        } else {
            Vec::new()
        }
    }

    /// Shows `panel`. Opening the SFTP panel on a session with no listing
    /// yet lists the root directory.
    pub fn switch_panel(&mut self, panel: Panel) -> (r: Vec<Effect>)
        ensures
            old(self).wf() ==> final(self).wf(),
            panel_switched(*old(self), panel, *final(self), r@),
            ids_fresh(*old(self)) ==> ids_fresh(*final(self)),
    {
        self.panel = panel;
        if panel == Panel::Sftp {
            if self.active_session < self.sessions.len() {
                if self.sessions[self.active_session].sftp_entries.len() == 0 {
                    let root = String::from_str("/");
                    proof {
                        reveal_strlit("/");
                        assert(root@ =~= root_dir());
                    }
                    return self.list_sftp_dir(root);
                }
            }
        }
        Vec::new()
    }

    /// Sets the SFTP selection of the session at `i`.
    fn set_sftp_selection(&mut self, i: usize, sel: Option<usize>)
        requires
            i == old(self).active_session,
            i < old(self).sessions@.len(),
        ensures
            with_sftp_selection(*old(self), sel, *final(self)),
    {
        let mut s = self.sessions.remove(i);
        s.sftp_selected = sel;
        self.sessions.insert(i, s);
        assert(self.sessions@ =~= old(self).sessions@.update(i as int, Session { sftp_selected: sel, ..old(self).sessions@[i as int] }));
    }

    /// Asks for a listing of `path` for the active session.
    pub(crate) fn list_sftp_dir(&mut self, path: String) -> (r: Vec<Effect>)
        ensures
            listing_started(*old(self), path@, *final(self), r@),
    {
        if self.active_session >= self.sessions.len() {
            self.status_msg = String::from_str("Not connected to SSH");
            return Vec::new();
        }
        let s = &self.sessions[self.active_session];
        let session_id = s.id;
        let host = s.host_config.clone();
        let password = s.auth_password.clone();
        self.status_msg = concat3("Loading ", path.as_str(), "...");
        let mut effects: Vec<Effect> = Vec::new();
        effects.push(Effect::ListSftpDir { session_id, host, password, path });
        effects
    }
}

/// The root directory's path.
pub open spec fn root_dir() -> Seq<char> {
    seq!['/']
}

/// The active index after removing the session at `pos` from `len` sessions.
pub open spec fn removed_active(active: usize, pos: usize, len: nat) -> usize {
    if len <= 1 {
        0
    } else if active >= len - 1 {
        (len - 2) as usize
    } else if pos < active {
        (active - 1) as usize
    } else {
        active
    }
}

/// The panel after a removal left `len` sessions.
pub open spec fn panel_after_removal(panel: Panel, len: nat) -> Panel {
    if len == 0 && (panel == Panel::Terminal || panel == Panel::Sftp) {
        Panel::HostList
    } else {
        panel
    }
}

/// `b` is `a` after activating the session at `index` (which exists), with
/// the effects `effects`.
pub open spec fn activated(a: App, index: usize, b: App, effects: Seq<Effect>) -> bool {
    &&& b == (App { active_session: index, panel: Panel::Terminal, status_msg: b.status_msg, ..a })
    &&& b.status_msg@ == "Switched to: "@ + a.sessions@[index as int].name@
    &&& if a.sessions@[index as int].connected {
        effects =~= seq![Effect::Resize { session_id: a.sessions@[index as int].id, cols: a.terminal_cols, rows: a.terminal_rows }]
    } else {
        effects.len() == 0
    }
}

/// `b` is `a` after closing its (existing) active session, with the effects
/// `effects`.
pub open spec fn closed_active(a: App, b: App, effects: Seq<Effect>) -> bool {
    let pos = a.active_session;
    let s = a.sessions@[pos as int];
    &&& b == (App { sessions: b.sessions, active_session: b.active_session, panel: b.panel, status_msg: b.status_msg, ..a })
    &&& b.sessions@ == a.sessions@.remove(pos as int)
    &&& b.active_session == removed_active(pos, pos, a.sessions@.len())
    &&& b.panel == panel_after_removal(a.panel, b.sessions@.len())
    &&& b.status_msg@ == "Closed: "@ + s.name@
    &&& effects =~= if s.connected {
        seq![Effect::Disconnect { session_id: s.id }, Effect::DropSession { session_id: s.id }]
    } else {
        seq![Effect::DropSession { session_id: s.id }]
    }
}

/// `b` is `a` after asking for a listing of `path` for the active session:
/// without one, only the status changes.
pub open spec fn listing_started(a: App, path: Seq<char>, b: App, effects: Seq<Effect>) -> bool {
    &&& b == (App { status_msg: b.status_msg, ..a })
    &&& match session_at(a.sessions@, a.active_session) {
        None => b.status_msg@ == "Not connected to SSH"@ && effects.len() == 0,
        Some(s) => {
            &&& b.status_msg@ == "Loading "@ + path + "..."@
            &&& effects.len() == 1
            &&& effects[0] matches Effect::ListSftpDir { session_id, host, password, path: p }
            &&& session_id == s.id && same_login(s, host, password) && p@ == path
        },
    }
}


/// `b` is `a` after showing `panel`.
pub open spec fn panel_switched(a: App, panel: Panel, b: App, effects: Seq<Effect>) -> bool {
    let mid = App { panel, ..a };
    if panel == Panel::Sftp && a.active_session < a.sessions@.len()
        && a.sessions@[a.active_session as int].sftp_entries@.len() == 0 {
        listing_started(mid, root_dir(), b, effects)
    } else {
        b == mid && effects.len() == 0
    }
}

/// `b` is `a` after switching to the next session.
pub open spec fn next_switched(a: App, b: App, effects: Seq<Effect>) -> bool {
    if a.sessions@.len() <= 1 {
        b == a && effects.len() == 0
    } else {
        activated(a, ((a.active_session + 1) % (a.sessions@.len() as int)) as usize, b, effects)
    }
}

/// `b` is `a` after switching to the previous session.
pub open spec fn prev_switched(a: App, b: App, effects: Seq<Effect>) -> bool {
    if a.sessions@.len() <= 1 {
        b == a && effects.len() == 0
    } else {
        let prev: usize = if a.active_session == 0 {
            (a.sessions@.len() - 1) as usize
        } else {
            (a.active_session - 1) as usize
        };
        if prev >= a.sessions@.len() {
            b == a && effects.len() == 0
        } else {
            activated(a, prev, b, effects)
        }
    }
}

/// Switching to the next session and then to the previous one comes back
/// to the session that was active, over the same sessions.
pub proof fn next_then_prev_returns(a: App, b: App, c: App, e1: Seq<Effect>, e2: Seq<Effect>)
    requires
        a.wf(),
        next_switched(a, b, e1),
        prev_switched(b, c, e2),
    ensures
        c.active_session == a.active_session,
        c.sessions == a.sessions,
{
    let n = a.sessions@.len() as int;
    assert(a.sessions.len() == n);
    if n > 1 {
        if a.active_session + 1 < n {
            vstd::arithmetic::div_mod::lemma_small_mod((a.active_session + 1) as nat, n as nat);
        } else {
            vstd::arithmetic::div_mod::lemma_mod_self_0(n);
        }
        assert(b.sessions == a.sessions);
        assert(b.active_session == (if a.active_session + 1 < n { a.active_session + 1 } else { 0 }));
        assert(c.sessions == b.sessions);
    }
}

/// Switching to the previous session and then to the next one comes back
/// to the session that was active, over the same sessions.
pub proof fn prev_then_next_returns(a: App, b: App, c: App, e1: Seq<Effect>, e2: Seq<Effect>)
    requires
        a.wf(),
        prev_switched(a, b, e1),
        next_switched(b, c, e2),
    ensures
        c.active_session == a.active_session,
        c.sessions == a.sessions,
{
    let n = a.sessions@.len() as int;
    assert(a.sessions.len() == n);
    if n > 1 {
        assert(b.sessions == a.sessions);
        assert(b.active_session == (if a.active_session == 0 { n - 1 } else { a.active_session - 1 }));
        if b.active_session + 1 < n {
            vstd::arithmetic::div_mod::lemma_small_mod((b.active_session + 1) as nat, n as nat);
        } else {
            vstd::arithmetic::div_mod::lemma_mod_self_0(n);
        }
        assert(c.sessions == b.sessions);
    }
}

/// `b` is `a` after closing the active session.
pub open spec fn close_outcome(a: App, b: App, effects: Seq<Effect>) -> bool {
    if a.sessions@.len() == 0 {
        b == a && effects.len() == 0
    } else {
        closed_active(a, b, effects)
    }
}

/// An optional string as an optional character sequence.
pub open spec fn opt_str(o: Option<String>) -> Option<Seq<char>> {
    match o {
        Some(s) => Some(s@),
        None => None,
    }
}

/// Whether `d` is the host form with these contents.
pub open spec fn is_host_form(
    d: Dialog,
    edit: Option<usize>,
    name: Seq<char>,
    host: Seq<char>,
    port: Seq<char>,
    user: Seq<char>,
    auth: AuthMethod,
    group: Seq<char>,
    field: usize,
    error: Option<Seq<char>>,
) -> bool {
    d matches Dialog::HostForm { edit_index, name: n, host: h, port: p, user: u, auth: au, group: g, field: f, error: e }
        && edit_index == edit && n@ == name && h@ == host && p@ == port && u@ == user && au == auth && g@ == group
        && f == field && opt_str(e) == error
}

/// Whether `d` is the SFTP input dialog with these contents.
pub open spec fn is_sftp_input(d: Dialog, action: SftpAction, prompt: Seq<char>, value: Seq<char>, error: Option<Seq<char>>) -> bool {
    d matches Dialog::SftpInput { action: a, prompt: p, value: v, error: e }
        && a == action && p@ == prompt && v@ == value && opt_str(e) == error
}

/// The selected entry of the active session's SFTP listing.
pub open spec fn selected_entry(a: App) -> Option<FileEntry> {
    match session_at(a.sessions@, a.active_session) {
        Some(s) => match s.sftp_selected {
            Some(i) => if i < s.sftp_entries@.len() { Some(s.sftp_entries@[i as int]) } else { None },
            None => None,
        },
        None => None,
    }
}

/// The active session's remote directory, `fallback` without a session.
pub open spec fn remote_dir_or(a: App, fallback: Seq<char>) -> Seq<char> {
    match session_at(a.sessions@, a.active_session) {
        Some(s) => s.sftp_remote_dir@,
        None => fallback,
    }
}

/// `b` is `a` with the active session's SFTP selection set to `sel`.
pub open spec fn with_sftp_selection(a: App, sel: Option<usize>, b: App) -> bool {
    let i = a.active_session as int;
    &&& b == App { sessions: b.sessions, ..a }
    &&& b.sessions@ == a.sessions@.update(i, Session { sftp_selected: sel, ..a.sessions@[i] })
}

/// `b` is `a` after activating the session at `index`, when there is one.
pub open spec fn activation_outcome(a: App, index: usize, b: App, effects: Seq<Effect>) -> bool {
    if index >= a.sessions@.len() {
        b == a && effects.len() == 0
    } else {
        activated(a, index, b, effects)
    }
}
} // verus!
