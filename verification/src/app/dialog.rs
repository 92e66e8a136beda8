//! Dialogs: the password prompt, the connecting notice, the host form and
//! the SFTP input, and the connections and remote operations they start.

use vstd::prelude::*;
use crate::app::{ids_fresh, 
    App, Dialog, Effect, Panel, RemoteChange, Session, SftpAction, is_host_form, is_sftp_input, opt_str,
    same_login, scrollback_lines, session_at,
};
use crate::config::{AppConfig, AuthMethod, HostConfig, HostView};
use crate::keys::{KeyCode, KeyEvent, is_plain, is_shift_only, no_modifiers, shift_only};
use crate::app::input::{help_key_outcome, host_list_key_outcome, sftp_key_outcome, terminal_key_outcome};
use crate::sftp::{join_remote_path, joined_remote, remote_parent, remote_parent_of};
use crate::terminal::ScreenState;
use crate::text::{
    clone_opt_string, concat, concat3, contains_str, file_name_of, is_blank, parse_u16, parse_u16_str,
    path_file_name, str_contains, string_pop, string_push, trim_string, trimmed,
};

verus! {

/// What the runtime found out about a host's credentials before connecting.
#[derive(Debug)]
pub enum CredentialProbe {
    /// The keyring holds this password for the host.
    StoredPassword(String),
    /// The keyring holds no password for the host.
    NoStoredPassword,
    /// The host's private key can be loaded without a passphrase.
    KeyReadable,
    /// The host's private key cannot be loaded without a passphrase.
    KeyUnreadable,
}

/// Whether connecting to `host` goes ahead with what the probe found; else
/// the password prompt opens.
pub open spec fn connects_directly(host: HostConfig, probe: CredentialProbe) -> bool {
    match host.auth {
        AuthMethod::Password => probe is StoredPassword,
        AuthMethod::Key { .. } => probe is KeyReadable,
        AuthMethod::Agent => true,
    }
}

/// Whether `key` confirms the open password prompt, which starts a
/// connection.
pub open spec fn confirms_password(a: App, key: KeyEvent) -> bool {
    a.dialog is PasswordInput && key.code == KeyCode::Enter
}

/// Whether `s` is a new session `id` for `host`, not yet connected.
pub open spec fn fresh_session(s: Session, id: usize, host: HostView, password: Option<String>) -> bool {
    &&& s.id == id
    &&& s.name@ == host.name
    &&& s.host_config@ == host
    &&& s.auth_password == password
    &&& !s.connected
    &&& s.term_screen@ == (ScreenState { lines: seq![Seq::<char>::empty()], max_lines: scrollback_lines(), row: 0, col: 0 })
    &&& s.term_screen.wf()
    &&& s.sftp_entries@.len() == 0
    &&& s.sftp_remote_dir@ == seq!['/']
    &&& s.sftp_selected is None
    &&& s.transfer_state is None
}

/// `b` is `a` after starting a connection to `host` in a new, active
/// session; `effects` asks the runtime to connect.
pub open spec fn connection_started(a: App, host: HostConfig, password: Option<String>, b: App, effects: Seq<Effect>) -> bool {
    let id = a.next_session_id;
    &&& b == App {
        dialog: b.dialog,
        status_msg: b.status_msg,
        sessions: b.sessions,
        active_session: b.active_session,
        next_session_id: b.next_session_id,
        ..a
    }
    &&& b.next_session_id == id + 1
    &&& b.dialog matches Dialog::Connecting { host_name }
    &&& host_name@ == host.name@
    &&& b.status_msg@ == "Connecting to "@ + host.name@ + "..."@
    &&& b.sessions@.len() == a.sessions@.len() + 1
    &&& b.sessions@.drop_last() == a.sessions@
    &&& fresh_session(b.sessions@.last(), id, host@, password)
    &&& b.active_session == a.sessions@.len()
    &&& effects.len() == 1
    &&& effects[0] == (Effect::StartConnection {
        session_id: id,
        host,
        password,
        cols: a.terminal_cols,
        rows: a.terminal_rows,
    })
}

/// `b` is `a` with the password prompt for `host` open.
pub open spec fn password_prompted(a: App, host: HostConfig, error: Option<Seq<char>>, b: App) -> bool {
    &&& b == App { dialog: b.dialog, ..a }
    &&& b.dialog matches Dialog::PasswordInput { host: h, password, error: e }
    &&& h == host && password@.len() == 0 && opt_str(e) == error
}

/// `b` is `a` after deciding how to connect to `host` given what the
/// runtime found: a stored password or a readable key connects at once,
/// otherwise the password prompt opens (asking for the key's passphrase for
/// key authentication); agent authentication always connects.
pub open spec fn connection_initiated(a: App, host: HostConfig, probe: CredentialProbe, b: App, effects: Seq<Effect>) -> bool {
    match host.auth {
        AuthMethod::Password => match probe {
            CredentialProbe::StoredPassword(p) => connection_started(a, host, Some(p), b, effects),
            _ => password_prompted(a, host, None, b) && effects.len() == 0,
        },
        AuthMethod::Key { .. } => match probe {
            CredentialProbe::KeyReadable => connection_started(a, host, None, b, effects),
            _ => password_prompted(a, host, Some("Enter key passphrase"@), b) && effects.len() == 0,
        },
        AuthMethod::Agent => connection_started(a, host, None, b, effects),
    }
}

/// The form field after Tab.
pub open spec fn next_field(field: usize) -> usize {
    if field >= 5 { 0 } else { (field + 1) as usize }
}

/// The form field after Shift-Tab.
pub open spec fn prev_field(field: usize) -> usize {
    if field == 0 { 5 } else { (field - 1) as usize }
}

/// Whether `auth` is the method after cycling from `from`.
pub open spec fn is_next_auth(from: AuthMethod, auth: AuthMethod) -> bool {
    match from {
        AuthMethod::Password => auth matches AuthMethod::Key { key_path } && key_path@.len() == 0,
        AuthMethod::Key { .. } => auth == AuthMethod::Agent,
        AuthMethod::Agent => auth == AuthMethod::Password,
    }
}

/// The host the form describes once saved.
pub open spec fn formed_host(h: HostView, name: Seq<char>, host: Seq<char>, port: u16, user: Seq<char>, auth: AuthMethod, group: Seq<char>) -> bool {
    h == HostView {
        name: trimmed(name),
        host: trimmed(host),
        port,
        user: trimmed(user),
        auth,
        group: trimmed(group),
        tags: Seq::empty(),
        jump_host: None,
        notes: Seq::empty(),
    }
}

/// The abstract value of a [`RemoteChange`].
pub enum ChangeView {
    Mkdir(Seq<char>),
    Rename(Seq<char>, Seq<char>),
    RemoveDir(Seq<char>),
    RemoveFile(Seq<char>),
}

/// The abstract value of a remote change.
pub open spec fn change_view(c: RemoteChange) -> ChangeView {
    match c {
        RemoteChange::Mkdir { path } => ChangeView::Mkdir(path@),
        RemoteChange::Rename { old_path, new_path } => ChangeView::Rename(old_path@, new_path@),
        RemoteChange::RemoveDir { path } => ChangeView::RemoveDir(path@),
        RemoteChange::RemoveFile { path } => ChangeView::RemoveFile(path@),
    }
}

/// `b` is `a` with the status set to `status`, without the active session
/// to `"Not connected to SSH"`.
pub open spec fn status_only(a: App, status: Seq<char>, b: App) -> bool {
    b == App { status_msg: b.status_msg, ..a } && b.status_msg@ == status
}

/// `b` is `a` after asking to download `remote` to `local` for the active session.
pub open spec fn download_started(a: App, remote: Seq<char>, local: Seq<char>, b: App, effects: Seq<Effect>) -> bool {
    match session_at(a.sessions@, a.active_session) {
        None => status_only(a, "Not connected to SSH"@, b) && effects.len() == 0,
        Some(s) => {
            &&& status_only(a, "Downloading "@ + remote + " to: "@ + local, b)
            &&& effects.len() == 1
            &&& effects[0] matches Effect::Download { session_id, host, password, remote_path, local_path }
            &&& session_id == s.id && same_login(s, host, password) && remote_path@ == remote && local_path@ == local
        },
    }
}

/// `b` is `a` after asking to upload `local` into `remote_dir` for the active session.
pub open spec fn upload_started(a: App, local: Seq<char>, remote_dir: Seq<char>, b: App, effects: Seq<Effect>) -> bool {
    match path_file_name(local) {
        None => status_only(a, "Upload failed: invalid local path"@, b) && effects.len() == 0,
        Some(n) => {
            let remote = joined_remote(remote_dir, n);
            match session_at(a.sessions@, a.active_session) {
                None => status_only(a, "Not connected to SSH"@, b) && effects.len() == 0,
                Some(s) => {
                    &&& status_only(a, "Uploading "@ + local + " to: "@ + remote, b)
                    &&& effects.len() == 1
                    &&& effects[0] matches Effect::Upload { session_id, host, password, local_path, remote_path }
                    &&& session_id == s.id && same_login(s, host, password) && local_path@ == local && remote_path@ == remote
                },
            }
        },
    }
}

/// `b` is `a` after asking for the remote change `change`, to be followed by
/// reloading `refresh` and the status `success`.
pub open spec fn change_started(
    a: App,
    refresh: Seq<char>,
    status: Seq<char>,
    change: ChangeView,
    success: Seq<char>,
    b: App,
    effects: Seq<Effect>,
) -> bool {
    match session_at(a.sessions@, a.active_session) {
        None => status_only(a, "Not connected to SSH"@, b) && effects.len() == 0,
        Some(s) => {
            &&& status_only(a, status, b)
            &&& effects.len() == 1
            &&& effects[0] matches Effect::ChangeRemote { session_id, host, password, change: c, refresh_path, success_status }
            &&& session_id == s.id && same_login(s, host, password) && change_view(c) == change
            &&& refresh_path@ == refresh && success_status@ == success
        },
    }
}

/// `b` is `a` with the SFTP input dialog reopened on `action` with `error`.
pub open spec fn sftp_input_refused(a: App, action: SftpAction, prompt: Seq<char>, value: Seq<char>, error: Seq<char>, b: App) -> bool {
    b == App { dialog: b.dialog, ..a } && is_sftp_input(b.dialog, action, prompt, value, Some(error))
}

/// `b` is `a` after confirming the SFTP input `value` for `action`. The
/// value is trimmed; a download or upload needs a path, a new directory or a
/// new name a single name without `/`, and deletion the word `yes`.
pub open spec fn sftp_action_run(a: App, action: SftpAction, value: Seq<char>, b: App, effects: Seq<Effect>) -> bool {
    let v = trimmed(value);
    let none = effects.len() == 0;
    let has_slash = contains_str(v, seq!['/']);
    match action {
        SftpAction::Download { remote_path } => if v.len() == 0 {
            sftp_input_refused(a, action, "Download to local path"@, v, "Local path cannot be empty"@, b) && none
        } else {
            download_started(a, remote_path@, v, b, effects)
        },
        SftpAction::Upload { remote_dir } => if v.len() == 0 {
            sftp_input_refused(a, action, "Upload local file path"@, v, "Local path cannot be empty"@, b) && none
        } else {
            upload_started(a, v, remote_dir@, b, effects)
        },
        SftpAction::Mkdir { parent } => if v.len() == 0 || has_slash {
            sftp_input_refused(a, action, "New remote directory name"@, v, "Enter a directory name, not a path"@, b) && none
        } else {
            let path = joined_remote(parent@, v);
            change_started(a, parent@, "Creating directory: "@ + path, ChangeView::Mkdir(path), "Directory created"@, b, effects)
        },
        SftpAction::Rename { old_path } => if v.len() == 0 || has_slash {
            sftp_input_refused(a, action, "Rename remote item to"@, v, "Enter a new name, not a path"@, b) && none
        } else {
            let parent = remote_parent_of(old_path@);
            let new_path = joined_remote(parent, v);
            change_started(a, parent, "Renaming to: "@ + new_path, ChangeView::Rename(old_path@, new_path),
                "Rename completed"@, b, effects)
        },
        SftpAction::Delete { path, is_dir } => if v != "yes"@ {
            sftp_input_refused(a, action, "Type yes to delete selected item"@, v, "Deletion requires typing yes"@, b) && none
        } else {
            let parent = remote_parent_of(path@);
            change_started(a, parent, "Deleting: "@ + path@,
                if is_dir { ChangeView::RemoveDir(path@) } else { ChangeView::RemoveFile(path@) },
                "Delete completed"@, b, effects)
        },
    }
}

/// `b` is `a` with the dialog closed and the status set to `status`.
pub open spec fn dialog_closed_with(a: App, status: Seq<char>, b: App) -> bool {
    b == App { dialog: Dialog::Closed, status_msg: b.status_msg, ..a } && b.status_msg@ == status
}

/// `b` is `a` with the host form showing these contents.
pub open spec fn host_form_shown(
    a: App,
    edit: Option<usize>,
    name: Seq<char>,
    host: Seq<char>,
    port: Seq<char>,
    user: Seq<char>,
    auth: AuthMethod,
    group: Seq<char>,
    field: usize,
    error: Option<Seq<char>>,
    b: App,
) -> bool {
    b == App { dialog: b.dialog, ..a } && is_host_form(b.dialog, edit, name, host, port, user, auth, group, field, error)
}

/// `s` with its last character removed, if it has one.
pub open spec fn popped(s: Seq<char>) -> Seq<char> {
    if s.len() > 0 { s.drop_last() } else { s }
}

/// `b` is `a` after saving the host form: the host is added, or replaces
/// the edited one when that still exists; the configuration is saved and
/// the form closed.
pub open spec fn host_form_saved(
    a: App,
    edit: Option<usize>,
    name: Seq<char>,
    host: Seq<char>,
    port: u16,
    user: Seq<char>,
    auth: AuthMethod,
    group: Seq<char>,
    b: App,
    effects: Seq<Effect>,
) -> bool {
    let hosts = a.config.hosts@;
    let now = b.config.hosts@;
    &&& b == App { dialog: Dialog::Closed, config: b.config, ..a }
    &&& b.config == (AppConfig { hosts: b.config.hosts, ..a.config })
    &&& match edit {
        Some(i) => if i < hosts.len() {
            now == hosts.update(i as int, now[i as int]) && formed_host(now[i as int]@, name, host, port, user, auth, group)
        } else {
            now == hosts
        },
        None => now.len() == hosts.len() + 1 && now.drop_last() == hosts
            && formed_host(now.last()@, name, host, port, user, auth, group),
    }
    &&& effects.len() == 1
    &&& effects[0] matches Effect::SaveConfig { success_status }
    &&& success_status@ == "Config saved"@
}

/// `b` is `a` after a key in the host form. Tab and Shift-Tab move between
/// the six fields, Enter checks and saves, Backspace and characters edit the
/// text fields, Space cycles the authentication field, Esc cancels.
pub open spec fn host_form_key_outcome(a: App, key: KeyEvent, b: App, effects: Seq<Effect>) -> bool {
    let none = effects.len() == 0;
    match a.dialog {
        Dialog::HostForm { edit_index, name, host, port, user, auth, group, field, error } => {
            let (n, h, p, u, g) = (name@, host@, port@, user@, group@);
            if key.code == KeyCode::Esc {
                b == App { dialog: Dialog::Closed, ..a } && none
            } else if key.code == KeyCode::Tab {
                host_form_shown(a, edit_index, n, h, p, u, auth, g, next_field(field), None, b) && none
            } else if key.code == KeyCode::BackTab {
                host_form_shown(a, edit_index, n, h, p, u, auth, g, prev_field(field), None, b) && none
            } else if key.code == KeyCode::Enter {
                if trimmed(n).len() == 0 {
                    host_form_shown(a, edit_index, n, h, p, u, auth, g, field, Some("Name cannot be empty"@), b) && none
                } else if trimmed(h).len() == 0 {
                    host_form_shown(a, edit_index, n, h, p, u, auth, g, field, Some("Host cannot be empty"@), b) && none
                } else if trimmed(u).len() == 0 {
                    host_form_shown(a, edit_index, n, h, p, u, auth, g, field, Some("User cannot be empty"@), b) && none
                } else {
                    match parse_u16(p) {
                        None => host_form_shown(a, edit_index, n, h, p, u, auth, g, field, Some("Invalid port number"@), b) && none,
                        Some(port_val) => host_form_saved(a, edit_index, n, h, port_val, u, auth, g, b, effects),
                    }
                }
            } else if key.code == KeyCode::Backspace {
                &&& none
                &&& host_form_shown(a, edit_index,
                    if field == 0 { popped(n) } else { n },
                    if field == 1 { popped(h) } else { h },
                    if field == 2 { popped(p) } else { p },
                    if field == 3 { popped(u) } else { u },
                    auth,
                    if field == 5 { popped(g) } else { g },
                    field, None, b)
            } else if key.code == KeyCode::Char(' ') && field == 4 {
                &&& none
                &&& b == App { dialog: b.dialog, ..a }
                &&& b.dialog matches Dialog::HostForm { edit_index: e2, name: n2, host: h2, port: p2, user: u2, auth: a2, group: g2, field: f2, error: r2 }
                &&& e2 == edit_index && n2 == name && h2 == host && p2 == port && u2 == user && g2 == group && f2 == field && r2 is None
                &&& is_next_auth(auth, a2)
            } else if key.code is Char {
                let c = key.code->Char_0;
                &&& none
                &&& host_form_shown(a, edit_index,
                    if field == 0 { n.push(c) } else { n },
                    if field == 1 { h.push(c) } else { h },
                    if field == 2 { p.push(c) } else { p },
                    if field == 3 { u.push(c) } else { u },
                    auth,
                    if field == 5 { g.push(c) } else { g },
                    field, None, b)
            } else {
                b == a && none
            }
        },
        _ => true,
    }
}

/// `b` is `a` after a key in the password prompt: Esc cancels, Enter stores
/// the password and connects, characters and Backspace edit it.
pub open spec fn password_key_outcome(a: App, key: KeyEvent, b: App, effects: Seq<Effect>) -> bool {
    match a.dialog {
        Dialog::PasswordInput { host, password, error } => {
            if key.code == KeyCode::Esc {
                dialog_closed_with(a, "Connection canceled"@, b) && effects.len() == 0
            } else if key.code == KeyCode::Enter {
                &&& effects.len() == 2
                &&& effects[0] matches Effect::StorePassword { host: eh, user: eu, password: ep }
                &&& eh@ == host.host@ && eu@ == host.user@ && ep@ == password@
                &&& connection_started(App { dialog: Dialog::Closed, ..a }, host, Some(password), b, effects.subrange(1, 2))
            } else if key.code is Char || key.code == KeyCode::Backspace {
                &&& effects.len() == 0
                &&& b == App { dialog: b.dialog, ..a }
                &&& b.dialog matches Dialog::PasswordInput { host: h2, password: p2, error: e2 }
                &&& h2 == host && e2 == error
                &&& p2@ == (if key.code == KeyCode::Backspace { popped(password@) } else { password@.push(key.code->Char_0) })
            } else {
                b == a && effects.len() == 0
            }
        },
        _ => true,
    }
}

/// `b` is `a` after a key in the SFTP input: Esc cancels, Enter carries the
/// operation out, Backspace and (unmodified or shifted) characters edit the
/// value.
pub open spec fn sftp_input_key_outcome(a: App, key: KeyEvent, b: App, effects: Seq<Effect>) -> bool {
    match a.dialog {
        Dialog::SftpInput { action, prompt, value, error } => {
            if key.code == KeyCode::Esc {
                dialog_closed_with(a, "SFTP operation canceled"@, b) && effects.len() == 0
            } else if key.code == KeyCode::Enter {
                sftp_action_run(App { dialog: Dialog::Closed, ..a }, action, value@, b, effects)
            } else if key.code == KeyCode::Backspace {
                &&& effects.len() == 0
                &&& b == App { dialog: b.dialog, ..a }
                &&& b.dialog matches Dialog::SftpInput { action: a2, prompt: p2, value: v2, error: e2 }
                &&& a2 == action && p2 == prompt && e2 == error && v2@ == popped(value@)
            } else if key.code is Char && (no_modifiers(key.modifiers) || shift_only(key.modifiers)) {
                &&& effects.len() == 0
                &&& b == App { dialog: b.dialog, ..a }
                &&& b.dialog matches Dialog::SftpInput { action: a2, prompt: p2, value: v2, error: e2 }
                &&& a2 == action && p2 == prompt && e2 is None && v2@ == value@.push(key.code->Char_0)
            } else {
                b == a && effects.len() == 0
            }
        },
        _ => true,
    }
}

/// `b` is `a` after a key while a dialog is open.
pub open spec fn dialog_key_outcome(a: App, key: KeyEvent, b: App, effects: Seq<Effect>) -> bool {
    match a.dialog {
        Dialog::Closed => b == a && effects.len() == 0,
        Dialog::PasswordInput { .. } => password_key_outcome(a, key, b, effects),
        Dialog::Connecting { .. } => if key.code == KeyCode::Esc {
            dialog_closed_with(a, "Connection canceled"@, b) && effects.len() == 0
        } else {
            b == a && effects.len() == 0
        },
        Dialog::HostForm { .. } => host_form_key_outcome(a, key, b, effects),
        Dialog::SftpInput { .. } => sftp_input_key_outcome(a, key, b, effects),
    }
}

impl App {
    /// Starts a connection to `host` in a new, active session.
    fn start_connection(&mut self, host: HostConfig, password: Option<String>) -> (r: Vec<Effect>)
        requires
            old(self).next_session_id < usize::MAX,
        ensures
            connection_started(*old(self), host, password, *final(self), r@),
            ids_fresh(*old(self)) ==> ids_fresh(*final(self)),
    {
        let host_name = host.name.clone();
        self.dialog = Dialog::Connecting { host_name };
        self.status_msg = concat3("Connecting to ", host.name.as_str(), "...");
        let session_id = self.next_session_id;
        self.next_session_id = self.next_session_id + 1;
        let mut session = Session::new(session_id, host.clone());
        session.auth_password = clone_opt_string(&password);
        let ghost before = self.sessions@;
        self.sessions.push(session);
        self.active_session = self.sessions.len() - 1;
        assert(self.sessions@.drop_last() =~= before);
        let cols = self.terminal_cols;
        let rows = self.terminal_rows;
        let mut effects: Vec<Effect> = Vec::new();
        effects.push(Effect::StartConnection { session_id, host, password, cols, rows });
        proof {
            if ids_fresh(*old(self)) {
                crate::app::lemma_ids_push(*old(self), *self);
            }
        }
        effects
    }

    /// Decides how to connect to `host` once the runtime has looked for its
    /// credentials (asked for with [`Effect::ProbeCredentials`]).
    pub fn initiate_connection(&mut self, host: HostConfig, probe: CredentialProbe) -> (r: Vec<Effect>)
        requires
            connects_directly(host, probe) ==> old(self).next_session_id < usize::MAX,
        ensures
            connection_initiated(*old(self), host, probe, *final(self), r@),
            old(self).wf() ==> final(self).wf(),
            ids_fresh(*old(self)) ==> ids_fresh(*final(self)),
    {
        match &host.auth {
            AuthMethod::Password => {
                match probe {
                    CredentialProbe::StoredPassword(p) => self.start_connection(host, Some(p)),
                    _ => {
                        self.dialog = Dialog::PasswordInput { host, password: String::new(), error: None };
                        Vec::new()
                    },
                }
            },
            AuthMethod::Key { .. } => {
                match probe {
                    CredentialProbe::KeyReadable => self.start_connection(host, None),
                    _ => {
                        self.dialog = Dialog::PasswordInput {
                            host,
                            password: String::new(),
                            error: Some(String::from_str("Enter key passphrase")),
                        };
                        Vec::new()
                    },
                }
            },
            AuthMethod::Agent => self.start_connection(host, None),
        }
    }

    /// Records the outcome of saving the configuration (asked for with
    /// [`Effect::SaveConfig`]): the status shows `success_status`, or why
    /// saving failed.
    pub fn config_saved(&mut self, result: Result<(), String>, success_status: String)
        ensures
            *final(self) == (App { status_msg: final(self).status_msg, ..*old(self) }),
            match result {
                Ok(()) => final(self).status_msg@ == success_status@,
                Err(e) => final(self).status_msg@ == "Save failed: "@ + e@,
            },
            ids_fresh(*old(self)) ==> ids_fresh(*final(self)),
    {
        match result {
            Ok(()) => {
                self.status_msg = success_status;
            },
            Err(e) => {
                self.status_msg = concat("Save failed: ", e.as_str());
            },
        }
    }
}


impl App {
    /// Asks to download `remote_path` to `local_path` for the active session.
    fn download_file(&mut self, remote_path: String, local_path: String) -> (r: Vec<Effect>)
        ensures
            download_started(*old(self), remote_path@, local_path@, *final(self), r@),
    {
        if self.active_session >= self.sessions.len() {
            self.status_msg = String::from_str("Not connected to SSH");
            return Vec::new();
        }
        let mut status = concat3("Downloading ", remote_path.as_str(), " to: ");
        status.append(local_path.as_str());
        self.status_msg = status;
        let s = &self.sessions[self.active_session];
        let mut effects: Vec<Effect> = Vec::new();
        effects.push(Effect::Download {
            session_id: s.id,
            host: s.host_config.clone(),
            password: clone_opt_string(&s.auth_password),
            remote_path,
            local_path,
        });
        effects
    }

    /// Asks to upload `local_path` into `remote_dir` for the active session.
    fn upload_file(&mut self, local_path: String, remote_dir: String) -> (r: Vec<Effect>)
        ensures
            upload_started(*old(self), local_path@, remote_dir@, *final(self), r@),
    {
        let name = match file_name_of(local_path.as_str()) {
            Some(n) => n,
            None => {
                self.status_msg = String::from_str("Upload failed: invalid local path");
                return Vec::new();
            },
        };
        let remote_path = join_remote_path(remote_dir.as_str(), name.as_str());
        if self.active_session >= self.sessions.len() {
            self.status_msg = String::from_str("Not connected to SSH");
            return Vec::new();
        }
        let mut status = concat3("Uploading ", local_path.as_str(), " to: ");
        status.append(remote_path.as_str());
        self.status_msg = status;
        let s = &self.sessions[self.active_session];
        let mut effects: Vec<Effect> = Vec::new();
        effects.push(Effect::Upload {
            session_id: s.id,
            host: s.host_config.clone(),
            password: clone_opt_string(&s.auth_password),
            local_path,
            remote_path,
        });
        effects
    }

    /// Asks for a remote change for the active session.
    fn run_sftp_change(&mut self, refresh_path: String, status: String, change: RemoteChange, success: String) -> (r: Vec<Effect>)
        ensures
            change_started(*old(self), refresh_path@, status@, change_view(change), success@, *final(self), r@),
    {
        if self.active_session >= self.sessions.len() {
            self.status_msg = String::from_str("Not connected to SSH");
            return Vec::new();
        }
        self.status_msg = status;
        let s = &self.sessions[self.active_session];
        let mut effects: Vec<Effect> = Vec::new();
        effects.push(Effect::ChangeRemote {
            session_id: s.id,
            host: s.host_config.clone(),
            password: clone_opt_string(&s.auth_password),
            change,
            refresh_path,
            success_status: success,
        });
        effects
    }

    /// Reopens the SFTP input dialog with an error.
    fn refuse_sftp_input(&mut self, action: SftpAction, prompt: &str, value: String, error: &str)
        ensures
            sftp_input_refused(*old(self), action, prompt@, value@, error@, *final(self)),
    {
        self.dialog = Dialog::SftpInput {
            action,
            prompt: String::from_str(prompt),
            value,
            error: Some(String::from_str(error)),
        };
    }

    /// Carries out a confirmed SFTP input.
    fn run_sftp_input_action(&mut self, action: SftpAction, value: String) -> (r: Vec<Effect>)
        ensures
            sftp_action_run(*old(self), action, value@, *final(self), r@),
    {
        let value = trim_string(value.as_str());
        let has_slash = str_contains(value.as_str(), "/");
        proof {
            reveal_strlit("/");
            assert("/"@ =~= seq!['/']);
        }
        let empty = value.as_str().unicode_len() == 0;
        match action.clone() {
            SftpAction::Download { remote_path } => {
                if empty {
                    self.refuse_sftp_input(action, "Download to local path", value, "Local path cannot be empty");
                    return Vec::new();
                }
                self.download_file(remote_path, value)
            },
            SftpAction::Upload { remote_dir } => {
                if empty {
                    self.refuse_sftp_input(action, "Upload local file path", value, "Local path cannot be empty");
                    return Vec::new();
                }
                self.upload_file(value, remote_dir)
            },
            SftpAction::Mkdir { parent } => {
                if empty || has_slash {
                    self.refuse_sftp_input(action, "New remote directory name", value, "Enter a directory name, not a path");
                    return Vec::new();
                }
                let remote_path = join_remote_path(parent.as_str(), value.as_str());
                let status = concat("Creating directory: ", remote_path.as_str());
                self.run_sftp_change(parent, status, RemoteChange::Mkdir { path: remote_path }, String::from_str("Directory created"))
            },
            SftpAction::Rename { old_path } => {
                if empty || has_slash {
                    self.refuse_sftp_input(action, "Rename remote item to", value, "Enter a new name, not a path");
                    return Vec::new();
                }
                let parent = remote_parent(old_path.as_str());
                let new_path = join_remote_path(parent.as_str(), value.as_str());
                let status = concat("Renaming to: ", new_path.as_str());
                self.run_sftp_change(parent, status, RemoteChange::Rename { old_path, new_path }, String::from_str("Rename completed"))
            },
            SftpAction::Delete { path, is_dir } => {
                let yes = String::from_str("yes");
                if !(value == yes) {
                    self.refuse_sftp_input(action, "Type yes to delete selected item", value, "Deletion requires typing yes");
                    return Vec::new();
                }
                let parent = remote_parent(path.as_str());
                let status = concat("Deleting: ", path.as_str());
                let change = if is_dir {
                    RemoteChange::RemoveDir { path }
                } else {
                    RemoteChange::RemoveFile { path }
                };
                self.run_sftp_change(parent, status, change, String::from_str("Delete completed"))
            },
        }
    }
}

/// A host built from the form's fields.
fn build_host(name: &String, host: &String, port: u16, user: &String, auth: AuthMethod, group: &String) -> (r: HostConfig)
    ensures
        formed_host(r@, name@, host@, port, user@, auth, group@),
{
    let tags: Vec<String> = Vec::new();
    let r = HostConfig {
        name: trim_string(name.as_str()),
        host: trim_string(host.as_str()),
        port,
        user: trim_string(user.as_str()),
        auth,
        group: trim_string(group.as_str()),
        tags,
        jump_host: None,
        notes: String::new(),
    };
    assert(r.tags@.map_values(|t: String| t@) =~= Seq::<Seq<char>>::empty());
    r
}

impl App {
    /// A key in the password prompt for `host` (the prompt already taken out).
    fn password_key(&mut self, key: &KeyEvent, host: HostConfig, password: String, error: Option<String>) -> (r: Vec<Effect>)
        requires
            old(self).dialog == Dialog::Closed,
            key.code == KeyCode::Enter ==> old(self).next_session_id < usize::MAX,
        ensures
            password_key_outcome(
                App { dialog: Dialog::PasswordInput { host, password, error }, ..*old(self) },
                *key,
                *final(self),
                r@,
            ),
            ids_fresh(*old(self)) ==> ids_fresh(*final(self)),
    {
        match key.code {
            KeyCode::Esc => {
                self.status_msg = String::from_str("Connection canceled");
                Vec::new()
            },
            KeyCode::Enter => {
                let pwd = password.clone();
                let mut effects: Vec<Effect> = Vec::new();
                effects.push(Effect::StorePassword {
                    host: host.host.clone(),
                    user: host.user.clone(),
                    password: pwd,
                });
                let mut rest = self.start_connection(host, Some(password));
                let ghost rv = rest@;
                effects.append(&mut rest);
                assert(effects@.subrange(1, 2) =~= rv);
                effects
            },
            KeyCode::Char(c) => {
                let mut p = password;
                string_push(&mut p, c);
                self.dialog = Dialog::PasswordInput { host, password: p, error };
                Vec::new()
            },
            KeyCode::Backspace => {
                let mut p = password;
                let _ = string_pop(&mut p);
                self.dialog = Dialog::PasswordInput { host, password: p, error };
                Vec::new()
            },
            _ => {
                self.dialog = Dialog::PasswordInput { host, password, error };
                Vec::new()
            },
        }
    }
}

/// `s` with its last character removed, if any.
fn pop_string(s: String) -> (r: String)
    ensures
        r@ == popped(s@),
{
    let mut s = s;
    let _ = string_pop(&mut s);
    s
}

/// `s` with `c` added when `yes`.
fn push_if(s: String, yes: bool, c: char) -> (r: String)
    ensures
        r@ == (if yes { s@.push(c) } else { s@ }),
{
    let mut s = s;
    if yes {
        string_push(&mut s, c);
    }
    s
}

/// `s` with its last character removed when `yes`.
fn pop_if(s: String, yes: bool) -> (r: String)
    ensures
        r@ == (if yes { popped(s@) } else { s@ }),
{
    if yes { pop_string(s) } else { s }
}

impl App {
    /// A key in the host form (the form already taken out).
    fn host_form_key(
        &mut self,
        key: &KeyEvent,
        edit_index: Option<usize>,
        name: String,
        host: String,
        port: String,
        user: String,
        auth: AuthMethod,
        group: String,
        field: usize,
        error: Option<String>,
    ) -> (r: Vec<Effect>)
        requires
            old(self).dialog == Dialog::Closed,
        ensures
            host_form_key_outcome(
                App { dialog: Dialog::HostForm { edit_index, name, host, port, user, auth, group, field, error }, ..*old(self) },
                *key,
                *final(self),
                r@,
            ),
    {
        match key.code {
            KeyCode::Esc => Vec::new(),
            KeyCode::Tab => {
                let next = if field >= 5 { 0 } else { field + 1 };
                self.dialog = Dialog::HostForm { edit_index, name, host, port, user, auth, group, field: next, error: None };
                Vec::new()
            },
            KeyCode::BackTab => {
                let prev = if field == 0 { 5 } else { field - 1 };
                self.dialog = Dialog::HostForm { edit_index, name, host, port, user, auth, group, field: prev, error: None };
                Vec::new()
            },
            KeyCode::Enter => {
                let problem = if is_blank(name.as_str()) {
                    Some("Name cannot be empty")
                } else if is_blank(host.as_str()) {
                    Some("Host cannot be empty")
                } else if is_blank(user.as_str()) {
                    Some("User cannot be empty")
                } else {
                    None
                };
                match problem {
                    Some(msg) => {
                        self.dialog = Dialog::HostForm {
                            edit_index, name, host, port, user, auth, group, field,
                            error: Some(String::from_str(msg)),
                        };
                        return Vec::new();
                    },
                    None => {},
                }
                let port_val = match parse_u16_str(port.as_str()) {
                    Some(p) => p,
                    None => {
                        self.dialog = Dialog::HostForm {
                            edit_index, name, host, port, user, auth, group, field,
                            error: Some(String::from_str("Invalid port number")),
                        };
                        return Vec::new();
                    },
                };
                let new_host = build_host(&name, &host, port_val, &user, auth, &group);
                match edit_index {
                    Some(idx) => {
                        if idx < self.config.hosts.len() {
                            self.config.hosts.set(idx, new_host);
                        }
                    },
                    None => {
                        let ghost before = self.config.hosts@;
                        self.config.hosts.push(new_host);
                        assert(self.config.hosts@.drop_last() =~= before);
                    },
                }
                let mut effects: Vec<Effect> = Vec::new();
                effects.push(Effect::SaveConfig { success_status: String::from_str("Config saved") });
                effects
            },
            KeyCode::Backspace => {
                let n = pop_if(name, field == 0);
                let h = pop_if(host, field == 1);
                let p = pop_if(port, field == 2);
                let u = pop_if(user, field == 3);
                let g = pop_if(group, field == 5);
                self.dialog = Dialog::HostForm { edit_index, name: n, host: h, port: p, user: u, auth, group: g, field, error: None };
                Vec::new()
            },
            KeyCode::Char(c) => {
                if field == 4 {
                    let new_auth = if c == ' ' {
                        match auth {
                            AuthMethod::Password => AuthMethod::Key { key_path: String::new() },
                            AuthMethod::Key { .. } => AuthMethod::Agent,
                            AuthMethod::Agent => AuthMethod::Password,
                        }
                    } else {
                        auth
                    };
                    self.dialog = Dialog::HostForm { edit_index, name, host, port, user, auth: new_auth, group, field, error: None };
                    return Vec::new();
                }
                let n = push_if(name, field == 0, c);
                let h = push_if(host, field == 1, c);
                let p = push_if(port, field == 2, c);
                let u = push_if(user, field == 3, c);
                let g = push_if(group, field == 5, c);
                self.dialog = Dialog::HostForm { edit_index, name: n, host: h, port: p, user: u, auth, group: g, field, error: None };
                Vec::new()
            },
            _ => {
                self.dialog = Dialog::HostForm { edit_index, name, host, port, user, auth, group, field, error };
                Vec::new()
            },
        }
    }

    /// A key in the SFTP input (the dialog already taken out).
    fn sftp_input_key(&mut self, key: &KeyEvent, action: SftpAction, prompt: String, value: String, error: Option<String>) -> (r: Vec<Effect>)
        requires
            old(self).dialog == Dialog::Closed,
        ensures
            sftp_input_key_outcome(
                App { dialog: Dialog::SftpInput { action, prompt, value, error }, ..*old(self) },
                *key,
                *final(self),
                r@,
            ),
    {
        match key.code {
            KeyCode::Esc => {
                self.status_msg = String::from_str("SFTP operation canceled");
                Vec::new()
            },
            KeyCode::Enter => self.run_sftp_input_action(action, value),
            KeyCode::Backspace => {
                let v = pop_string(value);
                self.dialog = Dialog::SftpInput { action, prompt, value: v, error };
                Vec::new()
            },
            KeyCode::Char(c) => {
                if is_plain(key.modifiers) || is_shift_only(key.modifiers) {
                    let v = push_if(value, true, c);
                    self.dialog = Dialog::SftpInput { action, prompt, value: v, error: None };
                } else {
                    self.dialog = Dialog::SftpInput { action, prompt, value, error };
                }
                Vec::new()
            },
            _ => {
                self.dialog = Dialog::SftpInput { action, prompt, value, error };
                Vec::new()
            },
        }
    }

    /// A key while a dialog is open.
    fn handle_dialog_key(&mut self, key: &KeyEvent) -> (r: Vec<Effect>)
        requires
            confirms_password(*old(self), *key) ==> old(self).next_session_id < usize::MAX,
        ensures
            dialog_key_outcome(*old(self), *key, *final(self), r@),
            ids_fresh(*old(self)) ==> ids_fresh(*final(self)),
    {
        let mut dialog = Dialog::Closed;
        std::mem::swap(&mut dialog, &mut self.dialog);
        match dialog {
            Dialog::Closed => Vec::new(),
            Dialog::PasswordInput { host, password, error } => self.password_key(key, host, password, error),
            Dialog::Connecting { host_name } => {
                if key.code == KeyCode::Esc {
                    self.status_msg = String::from_str("Connection canceled");
                } else {
                    self.dialog = Dialog::Connecting { host_name };
                }
                Vec::new()
            },
            Dialog::HostForm { edit_index, name, host, port, user, auth, group, field, error } => {
                self.host_form_key(key, edit_index, name, host, port, user, auth, group, field, error)
            },
            Dialog::SftpInput { action, prompt, value, error } => self.sftp_input_key(key, action, prompt, value, error),
        }
    }
}

/// `b` is `a` after a key that is not an application shortcut: an open
/// dialog takes it, else the shown panel.
pub open spec fn key_outcome(a: App, key: KeyEvent, b: App, effects: Seq<Effect>) -> bool {
    if !(a.dialog is Closed) {
        dialog_key_outcome(a, key, b, effects)
    } else {
        match a.panel {
            Panel::HostList => host_list_key_outcome(a, key, b, effects),
            Panel::Terminal => terminal_key_outcome(a, key, b, effects),
            Panel::Sftp => sftp_key_outcome(a, key, b, effects),
            Panel::Help => help_key_outcome(a, key, b, effects),
        }
    }
}

impl App {
    /// A key that is not an application shortcut.
    pub fn handle_key(&mut self, key: &KeyEvent) -> (r: Vec<Effect>)
        requires
            confirms_password(*old(self), *key) ==> old(self).next_session_id < usize::MAX,
        ensures
            key_outcome(*old(self), *key, *final(self), r@),
            old(self).wf() ==> final(self).wf(),
            ids_fresh(*old(self)) ==> ids_fresh(*final(self)),
    {
        if self.has_dialog() {
            return self.handle_dialog_key(key);
        }
        match self.panel {
            Panel::HostList => self.handle_host_list_key(key),
            Panel::Terminal => self.handle_terminal_key(key),
            Panel::Sftp => self.handle_sftp_key(key),
            Panel::Help => self.handle_help_key(key),
        }
    }
}
} // verus!

verus! {

/// Tab and Shift-Tab undo each other on the six host-form fields, and six
/// Tabs come back to the field they started from.
pub proof fn field_moves_undo(field: usize)
    requires
        field <= 5,
    ensures
        prev_field(next_field(field)) == field,
        next_field(prev_field(field)) == field,
        next_field(next_field(next_field(next_field(next_field(next_field(field)))))) == field,
{
}

/// Three presses of Space on the authentication field come back to the
/// method it started from (a key method comes back with an empty key path).
pub proof fn auth_cycle_returns(a0: AuthMethod, a1: AuthMethod, a2: AuthMethod, a3: AuthMethod)
    requires
        is_next_auth(a0, a1),
        is_next_auth(a1, a2),
        is_next_auth(a2, a3),
    ensures
        a0 is Key ==> (a3 matches AuthMethod::Key { key_path } && key_path@.len() == 0),
        !(a0 is Key) ==> a3 == a0,
{
}

/// In the password prompt, a typed character followed by Backspace leaves
/// the prompt as it was.
pub proof fn password_backspace_undoes_char(a: App, c: char, k1: KeyEvent, k2: KeyEvent, b: App, d: App, e1: Seq<Effect>, e2: Seq<Effect>)
    requires
        a.dialog is PasswordInput,
        k1.code == KeyCode::Char(c),
        k2.code == KeyCode::Backspace,
        password_key_outcome(a, k1, b, e1),
        password_key_outcome(b, k2, d, e2),
    ensures
        d == (App { dialog: d.dialog, ..a }),
        (d.dialog matches Dialog::PasswordInput { host, password, error }
            && a.dialog matches Dialog::PasswordInput { host: h0, password: p0, error: r0 }
            && host == h0 && password@ == p0@ && error == r0),
        e1.len() == 0 && e2.len() == 0,
{
    if let Dialog::PasswordInput { password, .. } = a.dialog {
        assert(password@.push(c).drop_last() =~= password@);
    }
}

/// In the host form, a character typed into a text field followed by
/// Backspace leaves every field as it was (and clears the error).
pub proof fn form_backspace_undoes_char(a: App, c: char, k1: KeyEvent, k2: KeyEvent, b: App, d: App, e1: Seq<Effect>, e2: Seq<Effect>)
    requires
        (a.dialog matches Dialog::HostForm { field, .. } && field != 4 && field <= 5),
        k1.code == KeyCode::Char(c),
        k2.code == KeyCode::Backspace,
        host_form_key_outcome(a, k1, b, e1),
        host_form_key_outcome(b, k2, d, e2),
    ensures
        (a.dialog matches Dialog::HostForm { edit_index, name, host, port, user, auth, group, field, .. }
            && host_form_shown(a, edit_index, name@, host@, port@, user@, auth, group@, field, None, d)),
        e1.len() == 0 && e2.len() == 0,
{
    if let Dialog::HostForm { name, host, port, user, group, .. } = a.dialog {
        assert(name@.push(c).drop_last() =~= name@);
        assert(host@.push(c).drop_last() =~= host@);
        assert(port@.push(c).drop_last() =~= port@);
        assert(user@.push(c).drop_last() =~= user@);
        assert(group@.push(c).drop_last() =~= group@);
    }
}

} // verus!
