use std::collections::HashMap;

use ssh_t::app::dialog::CredentialProbe;
use ssh_t::app::events::SftpOp;
use ssh_t::app::{App, Dialog, Effect, Panel, Session};
use ssh_t::config::{AppConfig, AuthMethod, HostConfig};
use ssh_t::keys::{KeyCode, KeyEvent, KeyModifiers, MouseEvent, MouseEventKind};
use ssh_t::sftp::{file_entry, TransferEvent};
use ssh_t::ssh::SshEvent;
use ssh_t::view::{self, Tone};

fn host(name: &str, addr: &str, auth: AuthMethod) -> HostConfig {
    HostConfig {
        name: name.to_string(),
        host: addr.to_string(),
        port: 22,
        user: "user".to_string(),
        auth,
        group: String::new(),
        tags: vec![],
        jump_host: None,
        notes: String::new(),
    }
}

fn app_with(hosts: Vec<HostConfig>) -> App {
    App::new(AppConfig { hosts, groups: vec![], key_map: HashMap::new() }, Some("alice".to_string()), "/dl".to_string())
}

fn key(code: KeyCode) -> KeyEvent {
    KeyEvent::new(code, KeyModifiers::none())
}

fn connected_session(id: usize, name: &str) -> Session {
    let mut s = Session::new(id, host(name, "10.0.0.9", AuthMethod::Password));
    s.connected = true;
    s
}

#[test]
fn empty_configuration_gets_example_hosts() {
    let app = app_with(vec![]);
    let names: Vec<&str> = app.config.hosts.iter().map(|h| h.name.as_str()).collect();
    assert_eq!(names, vec!["localhost", "example-server"]);
    assert_eq!(app.config.hosts[0].user, "alice");
    assert_eq!(app.config.hosts[1].user, "user");
    assert_eq!(app.panel, Panel::HostList);
    assert!(app.running);
    assert_eq!(app.status_msg, "Welcome to ssh-t | Enter: connect | ?: help");
}

#[test]
fn next_then_previous_session_comes_back() {
    let mut app = app_with(vec![host("a", "h", AuthMethod::Password)]);
    app.sessions.push(connected_session(1, "one"));
    app.sessions.push(Session::new(2, host("two", "h2", AuthMethod::Password)));
    app.sessions.push(Session::new(3, host("three", "h3", AuthMethod::Password)));
    for start in 0..3 {
        app.active_session = start;
        app.next_session();
        assert_eq!(app.active_session, (start + 1) % 3);
        app.prev_session();
        assert_eq!(app.active_session, start);
    }
    app.active_session = 2;
    let effects = app.next_session();
    assert_eq!(app.active_session, 0);
    assert_eq!(app.status_msg, "Switched to: one");
    assert!(matches!(effects.as_slice(), [Effect::Resize { session_id: 1, .. }]));
}

#[test]
fn closing_a_connected_session_disconnects_and_drops_it() {
    let mut app = app_with(vec![host("a", "h", AuthMethod::Password)]);
    app.sessions.push(connected_session(7, "seven"));
    app.panel = Panel::Terminal;
    let effects = app.close_active_session();
    assert!(matches!(
        effects.as_slice(),
        [Effect::Disconnect { session_id: 7 }, Effect::DropSession { session_id: 7 }]
    ));
    assert!(app.sessions.is_empty());
    assert_eq!(app.panel, Panel::HostList);
    assert_eq!(app.status_msg, "Closed: seven");
}

#[test]
fn host_filter_typing_and_backspace() {
    let mut app = app_with(vec![
        host("web", "10.0.0.1", AuthMethod::Password),
        host("db", "10.0.0.2", AuthMethod::Password),
    ]);
    app.handle_key(&key(KeyCode::Char('w')));
    assert_eq!(app.host_filter, "w");
    let shown: Vec<String> = app.filtered_hosts().iter().map(|h| h.name.clone()).collect();
    assert_eq!(shown, vec!["web".to_string()]);
    app.handle_key(&key(KeyCode::Backspace));
    assert_eq!(app.host_filter, "");
    assert_eq!(app.filtered_hosts().len(), 2);
    app.handle_key(&key(KeyCode::Char('x')));
    app.handle_key(&key(KeyCode::Esc));
    assert_eq!(app.host_filter, "");
}

#[test]
fn enter_on_a_host_probes_then_connects() {
    let mut app = app_with(vec![host("web", "10.0.0.1", AuthMethod::Password)]);
    app.host_selected = Some(0);
    let effects = app.handle_key(&key(KeyCode::Enter));
    let probed = match effects.into_iter().next() {
        Some(Effect::ProbeCredentials { host }) => host,
        other => panic!("expected a probe, got {other:?}"),
    };
    assert_eq!(probed.name, "web");
    let effects = app.initiate_connection(probed, CredentialProbe::StoredPassword("pw".to_string()));
    assert!(matches!(
        effects.as_slice(),
        [Effect::StartConnection { session_id: 1, password: Some(p), cols: 80, rows: 24, .. }] if p == "pw"
    ));
    assert_eq!(app.sessions.len(), 1);
    assert_eq!(app.next_session_id, 2);
    assert!(matches!(&app.dialog, Dialog::Connecting { host_name } if host_name == "web"));
    assert_eq!(app.status_msg, "Connecting to web...");
}

#[test]
fn missing_password_opens_the_prompt_and_backspace_undoes_typing() {
    let mut app = app_with(vec![host("web", "10.0.0.1", AuthMethod::Password)]);
    let h = app.config.hosts[0].clone();
    let effects = app.initiate_connection(h, CredentialProbe::NoStoredPassword);
    assert!(effects.is_empty());
    assert!(matches!(&app.dialog, Dialog::PasswordInput { password, error: None, .. } if password.is_empty()));
    app.handle_key(&key(KeyCode::Char('s')));
    app.handle_key(&key(KeyCode::Char('3')));
    app.handle_key(&key(KeyCode::Backspace));
    assert!(matches!(&app.dialog, Dialog::PasswordInput { password, .. } if password == "s"));
    let effects = app.handle_key(&key(KeyCode::Enter));
    assert!(matches!(
        effects.as_slice(),
        [Effect::StorePassword { password, .. }, Effect::StartConnection { password: Some(p), .. }]
            if password == "s" && p == "s"
    ));
}

#[test]
fn unreadable_key_asks_for_passphrase_and_esc_cancels() {
    let mut app = app_with(vec![host("k", "10.0.0.3", AuthMethod::Key { key_path: "/k".to_string() })]);
    let h = app.config.hosts[0].clone();
    app.initiate_connection(h, CredentialProbe::KeyUnreadable);
    assert!(matches!(&app.dialog, Dialog::PasswordInput { error: Some(e), .. } if e == "Enter key passphrase"));
    app.handle_key(&key(KeyCode::Esc));
    assert!(matches!(app.dialog, Dialog::Closed));
    assert_eq!(app.status_msg, "Connection canceled");
}

#[test]
fn host_form_checks_fields_and_saves() {
    let mut app = app_with(vec![host("a", "h", AuthMethod::Password)]);
    app.handle_key(&key(KeyCode::Char('a')));
    assert!(matches!(&app.dialog, Dialog::HostForm { field: 0, port, user, .. } if port == "22" && user == "alice"));
    app.handle_key(&key(KeyCode::Enter));
    assert!(matches!(&app.dialog, Dialog::HostForm { error: Some(e), .. } if e == "Name cannot be empty"));
    for c in "new".chars() {
        app.handle_key(&key(KeyCode::Char(c)));
    }
    app.handle_key(&key(KeyCode::Enter));
    assert!(matches!(&app.dialog, Dialog::HostForm { error: Some(e), .. } if e == "Host cannot be empty"));
    app.handle_key(&key(KeyCode::Tab));
    for c in "10.1.1.1".chars() {
        app.handle_key(&key(KeyCode::Char(c)));
    }
    app.handle_key(&key(KeyCode::Tab));
    app.handle_key(&key(KeyCode::Char('x')));
    app.handle_key(&key(KeyCode::Enter));
    assert!(matches!(&app.dialog, Dialog::HostForm { error: Some(e), field: 2, .. } if e == "Invalid port number"));
    app.handle_key(&key(KeyCode::Backspace));
    app.handle_key(&KeyEvent::new(KeyCode::BackTab, KeyModifiers::shift()));
    app.handle_key(&KeyEvent::new(KeyCode::Tab, KeyModifiers::none()));
    app.handle_key(&key(KeyCode::Tab));
    app.handle_key(&key(KeyCode::Tab));
    app.handle_key(&key(KeyCode::Char(' ')));
    assert!(matches!(&app.dialog, Dialog::HostForm { field: 4, auth: AuthMethod::Key { key_path }, .. } if key_path.is_empty()));
    app.handle_key(&key(KeyCode::Char(' ')));
    app.handle_key(&key(KeyCode::Char(' ')));
    assert!(matches!(&app.dialog, Dialog::HostForm { auth: AuthMethod::Password, .. }));
    let effects = app.handle_key(&key(KeyCode::Enter));
    assert!(matches!(app.dialog, Dialog::Closed));
    assert_eq!(app.config.hosts.len(), 2);
    assert_eq!(app.config.hosts[1].name, "new");
    assert_eq!(app.config.hosts[1].host, "10.1.1.1");
    assert_eq!(app.config.hosts[1].port, 22);
    assert!(matches!(effects.as_slice(), [Effect::SaveConfig { .. }]));
}

#[test]
fn saving_the_configuration_reports_failure() {
    let mut app = app_with(vec![host("a", "h", AuthMethod::Password)]);
    app.config_saved(Ok(()), "Saved".to_string());
    assert_eq!(app.status_msg, "Saved");
    app.config_saved(Err("disk full".to_string()), "Saved".to_string());
    assert_eq!(app.status_msg, "Save failed: disk full");
}

#[test]
fn session_events_update_the_state() {
    let mut app = app_with(vec![host("a", "h", AuthMethod::Password)]);
    app.sessions.push(Session::new(4, host("four", "h4", AuthMethod::Password)));
    app.manager_ready(4);
    assert!(app.sessions[0].connected);
    let effects = app.handle_ssh_event(SshEvent::Output { id: 4, data: b"hi".to_vec() });
    assert!(matches!(effects.as_slice(), [Effect::FeedTerminal { session_id: 4, data }] if data == b"hi"));
    app.handle_ssh_event(SshEvent::Connected { id: 4, name: "four".to_string() });
    assert_eq!(app.panel, Panel::Terminal);
    assert_eq!(app.status_msg, "Connected to four");
    let effects = app.handle_ssh_event(SshEvent::Disconnected { id: 4, reason: "EOF".to_string() });
    assert!(matches!(effects.as_slice(), [Effect::DropSession { session_id: 4 }]));
    assert!(app.sessions.is_empty());
    assert_eq!(app.panel, Panel::HostList);
    assert_eq!(app.status_msg, "Disconnected: EOF");
}

#[test]
fn error_while_connecting_returns_to_the_host_list() {
    let mut app = app_with(vec![host("a", "h", AuthMethod::Agent)]);
    let h = app.config.hosts[0].clone();
    app.initiate_connection(h, CredentialProbe::NoStoredPassword);
    assert!(matches!(app.dialog, Dialog::Connecting { .. }));
    let effects = app.handle_ssh_event(SshEvent::Error { id: 1, message: "refused".to_string() });
    assert!(matches!(effects.as_slice(), [Effect::DropSession { session_id: 1 }]));
    assert!(matches!(app.dialog, Dialog::Closed));
    assert_eq!(app.panel, Panel::HostList);
    assert_eq!(app.status_msg, "Error: refused");
}

#[test]
fn sftp_results_and_transfers() {
    let mut app = app_with(vec![host("a", "h", AuthMethod::Password)]);
    app.sessions.push(connected_session(1, "one"));
    app.panel = Panel::Sftp;
    let entries = vec![file_entry("/srv", "f.txt".to_string(), false, Some(4), None, None)];
    app.poll_sftp_updates(vec![SftpOp::Listed { path: "/srv".to_string(), entries }], vec![]);
    assert_eq!(app.sessions[0].sftp_remote_dir, "/srv");
    assert_eq!(app.sessions[0].sftp_selected, Some(0));
    assert_eq!(app.status_msg, "Loaded: /srv");
    app.poll_sftp_updates(
        vec![],
        vec![
            TransferEvent::Started { file: "up.bin".to_string(), total: 200, is_upload: true },
            TransferEvent::Progress { file: "up.bin".to_string(), transferred: 100, total: 200 },
        ],
    );
    assert_eq!(app.status_msg, "Transfer: 50% - up.bin");
    assert_eq!(app.sessions[0].transfer_state.as_ref().map(|t| t.transferred), Some(100));
    let effects = app.poll_sftp_updates(vec![], vec![TransferEvent::Completed { file: "up.bin".to_string() }]);
    assert!(app.sessions[0].transfer_state.is_none());
    assert!(matches!(effects.as_slice(), [Effect::ListSftpDir { session_id: 1, path, .. }] if path == "/srv"));
    assert_eq!(app.status_msg, "Loading /srv...");
    app.poll_sftp_updates(vec![SftpOp::Error("gone".to_string())], vec![]);
    assert_eq!(app.status_msg, "SFTP Error: gone");
}

#[test]
fn sftp_keys_enter_and_leave_directories() {
    let mut app = app_with(vec![host("a", "h", AuthMethod::Password)]);
    app.sessions.push(connected_session(1, "one"));
    app.panel = Panel::Sftp;
    let entries = vec![file_entry("/srv", "logs".to_string(), true, None, None, None)];
    app.poll_sftp_updates(vec![SftpOp::Listed { path: "/srv".to_string(), entries }], vec![]);
    let effects = app.handle_key(&key(KeyCode::Enter));
    assert!(matches!(effects.as_slice(), [Effect::ListSftpDir { path, .. }] if path == "/srv/logs"));
    app.poll_sftp_updates(vec![SftpOp::Listed { path: "/srv/logs".to_string(), entries: vec![] }], vec![]);
    assert_eq!(app.sessions[0].sftp_selected, None);
    let effects = app.handle_key(&key(KeyCode::Backspace));
    assert!(matches!(effects.as_slice(), [Effect::ListSftpDir { path, .. }] if path == "/srv"));
}

#[test]
fn terminal_keys_are_sent_to_the_shell() {
    let mut app = app_with(vec![host("a", "h", AuthMethod::Password)]);
    app.sessions.push(connected_session(3, "three"));
    app.panel = Panel::Terminal;
    let effects = app.handle_key(&KeyEvent::new(KeyCode::Char('c'), KeyModifiers::control()));
    assert!(matches!(effects.as_slice(), [Effect::SendInput { session_id: 3, data }] if data == &vec![3u8]));
    let effects = app.handle_key(&key(KeyCode::Up));
    assert!(matches!(effects.as_slice(), [Effect::SendInput { data, .. }] if data == b"\x1b[A"));
}

#[test]
fn clicking_tabs_and_rows() {
    let mut app = app_with(vec![host("a", "h", AuthMethod::Password), host("b", "h", AuthMethod::Password)]);
    assert!(app.tab_bar_fits());
    let layout = app.compute_tab_layout();
    assert_eq!(layout.tabs.len(), 3);
    assert_eq!((layout.tabs[0].0, layout.tabs[0].1), (8, 13));
    app.handle_mouse(&MouseEvent { kind: MouseEventKind::LeftDown, column: 25, row: 0 });
    assert_eq!(app.panel, Panel::Terminal);
    app.handle_mouse(&MouseEvent { kind: MouseEventKind::LeftDown, column: 10, row: 0 });
    assert_eq!(app.panel, Panel::HostList);
    app.handle_mouse(&MouseEvent { kind: MouseEventKind::LeftDown, column: 3, row: 3 });
    assert_eq!(app.host_selected, Some(1));
    app.handle_mouse(&MouseEvent { kind: MouseEventKind::LeftDown, column: 3, row: 2 });
    assert_eq!(app.host_selected, Some(0));
    app.handle_mouse(&MouseEvent { kind: MouseEventKind::LeftDown, column: 3, row: 1 });
    assert_eq!(app.host_selected, Some(0));
    app.handle_mouse(&MouseEvent { kind: MouseEventKind::ScrollDown, column: 3, row: 2 });
    assert_eq!(app.host_selected, Some(1));
    app.handle_mouse(&MouseEvent { kind: MouseEventKind::ScrollUp, column: 3, row: 2 });
    assert_eq!(app.host_selected, Some(0));
}

#[test]
fn resizing_passes_the_size_to_a_connected_terminal() {
    let mut app = app_with(vec![host("a", "h", AuthMethod::Password)]);
    let effects = app.update_terminal_size(100, 30);
    assert!(effects.is_empty());
    assert_eq!((app.terminal_cols, app.terminal_rows), (98, 26));
    app.sessions.push(connected_session(5, "five"));
    app.panel = Panel::Terminal;
    let effects = app.update_terminal_size(100, 30);
    assert!(matches!(effects.as_slice(), [Effect::Resize { session_id: 5, cols: 100, rows: 30 }]));
}

#[test]
fn screen_texts() {
    let mut app = app_with(vec![host("web", "10.0.0.1", AuthMethod::Key { key_path: String::new() })]);
    app.sessions.push(connected_session(1, "one"));
    app.sessions.push(Session::new(2, host("two", "10.0.0.2", AuthMethod::Password)));
    app.panel = Panel::Terminal;
    let tabs: Vec<(String, Tone)> = view::tab_bar(&app).into_iter().map(|s| (s.text, s.tone)).collect();
    assert_eq!(tabs[2], (" \u{25cf} one ".to_string(), Tone::ActiveTab));
    assert_eq!(tabs[3], (" \u{25cb} two ".to_string(), Tone::IdleTab));
    assert_eq!(tabs[6], (" Alt-T Term ".to_string(), Tone::ActivePanelTab));
    let hints: Vec<String> = view::input_bar(&app).into_iter().map(|s| s.text).collect();
    assert_eq!(hints.last().map(|s| s.as_str()), Some("[1/2]"));
    let row: Vec<String> = view::host_row(&app, &app.config.hosts[0]).into_iter().map(|s| s.text).collect();
    assert_eq!(row[0], "[K] ");
    assert_eq!(row[1], format!("{:<20}", "web"));
    assert_eq!(row[2], " user@10.0.0.1:22");
    assert_eq!(view::host_list_title(&app), " Hosts (2 sessions) ");
    let status = view::status_bar(&app);
    assert_eq!(status.tone, Tone::StatusLive);
    let pw = view::password_dialog_lines(&app.config.hosts[0], "p\u{e9}", &None);
    assert_eq!(pw[2][1].text, "***");
    let (title, form) = view::host_form_dialog(None, "n", "h", "22", "u", &AuthMethod::Agent, "", 4, &None);
    assert_eq!(title, " Add Host ");
    assert_eq!(form[5][0].text, "  4. ");
    assert_eq!(form[5][1].text, "Auth    ");
    assert_eq!(form[5][2].text, "Agent_");
}

fn sftp_app() -> App {
    let mut app = app_with(vec![host("a", "h", AuthMethod::Password)]);
    app.sessions.push(connected_session(1, "one"));
    app.panel = Panel::Sftp;
    let entries = vec![
        file_entry("/srv", "data".to_string(), true, None, None, None),
        file_entry("/srv", "f.txt".to_string(), false, Some(4), None, None),
    ];
    app.poll_sftp_updates(vec![SftpOp::Listed { path: "/srv".to_string(), entries }], vec![]);
    app
}

fn type_text(app: &mut App, text: &str) -> Vec<Effect> {
    for c in text.chars() {
        app.handle_key(&key(KeyCode::Char(c)));
    }
    app.handle_key(&key(KeyCode::Enter))
}

#[test]
fn uploads_go_to_the_file_name_in_the_remote_directory() {
    let mut app = sftp_app();
    app.handle_key(&key(KeyCode::Char('u')));
    assert!(matches!(&app.dialog, Dialog::SftpInput { prompt, .. } if prompt == "Upload local file path"));
    let effects = type_text(&mut app, "  /home/me/report.pdf ");
    assert!(matches!(
        effects.as_slice(),
        [Effect::Upload { session_id: 1, local_path, remote_path, .. }]
            if local_path == "/home/me/report.pdf" && remote_path == "/srv/report.pdf"
    ));
    assert_eq!(app.status_msg, "Uploading /home/me/report.pdf to: /srv/report.pdf");
    app.handle_key(&key(KeyCode::Char('u')));
    let effects = type_text(&mut app, "dir/");
    assert!(matches!(effects.as_slice(), [Effect::Upload { remote_path, .. }] if remote_path == "/srv/dir"));
}

#[test]
fn uploads_without_a_file_name_are_refused() {
    let mut app = sftp_app();
    app.handle_key(&key(KeyCode::Char('u')));
    let effects = type_text(&mut app, "/");
    assert!(effects.is_empty());
    assert_eq!(app.status_msg, "Upload failed: invalid local path");
    app.handle_key(&key(KeyCode::Char('u')));
    let effects = type_text(&mut app, "a/..");
    assert!(effects.is_empty());
    assert_eq!(app.status_msg, "Upload failed: invalid local path");
    app.handle_key(&key(KeyCode::Char('u')));
    let effects = type_text(&mut app, "   ");
    assert!(effects.is_empty());
    assert!(matches!(&app.dialog, Dialog::SftpInput { error: Some(e), .. } if e == "Local path cannot be empty"));
}

#[test]
fn remote_changes_check_their_input() {
    let mut app = sftp_app();
    app.handle_key(&key(KeyCode::Char('m')));
    let effects = type_text(&mut app, "a/b");
    assert!(effects.is_empty());
    assert!(matches!(&app.dialog, Dialog::SftpInput { error: Some(e), .. } if e == "Enter a directory name, not a path"));
    app.handle_key(&key(KeyCode::Esc));
    assert_eq!(app.status_msg, "SFTP operation canceled");
    app.handle_key(&key(KeyCode::Char('m')));
    let effects = type_text(&mut app, "new");
    assert!(matches!(
        effects.as_slice(),
        [Effect::ChangeRemote { refresh_path, success_status, .. }]
            if refresh_path == "/srv" && success_status == "Directory created"
    ));
    assert_eq!(app.status_msg, "Creating directory: /srv/new");
    app.handle_key(&key(KeyCode::Char('x')));
    let effects = type_text(&mut app, "no");
    assert!(effects.is_empty());
    assert!(matches!(&app.dialog, Dialog::SftpInput { error: Some(e), .. } if e == "Deletion requires typing yes"));
    app.handle_key(&key(KeyCode::Esc));
    app.handle_key(&key(KeyCode::Char('e')));
    let effects = type_text(&mut app, "2");
    assert!(matches!(effects.as_slice(), [Effect::ChangeRemote { .. }]));
    assert_eq!(app.status_msg, "Renaming to: /srv/data2");
}

#[test]
fn downloads_default_to_the_download_directory() {
    let mut app = sftp_app();
    app.handle_key(&key(KeyCode::Down));
    app.handle_key(&key(KeyCode::Char('d')));
    assert!(matches!(&app.dialog, Dialog::SftpInput { value, .. } if value == "/dl/f.txt"));
    let effects = app.handle_key(&key(KeyCode::Enter));
    assert!(matches!(
        effects.as_slice(),
        [Effect::Download { remote_path, local_path, .. }] if remote_path == "/srv/f.txt" && local_path == "/dl/f.txt"
    ));
    assert_eq!(app.status_msg, "Downloading /srv/f.txt to: /dl/f.txt");
}

#[test]
fn sftp_table_texts() {
    let app = sftp_app();
    let s = &app.sessions[0];
    assert_eq!(view::sftp_title(s), " SFTP - /srv ");
    let d = view::sftp_row(&s.sftp_entries[0]);
    assert_eq!((d.mark.as_str(), d.name.as_str(), d.size, d.modified.as_str()), ("D", "data", None, "-"));
    let f = view::sftp_row(&s.sftp_entries[1]);
    assert_eq!((f.mark.as_str(), f.name.as_str(), f.size), ("F", "f.txt", Some(4)));
    let e = file_entry("/", "x".to_string(), false, Some(1), Some(60), None);
    assert_eq!(view::sftp_row(&e).modified, "1970-01-01 00:01");
}

#[test]
fn tab_layout_follows_the_drawn_tab_bar() {
    let mut app = app_with(vec![host("a", "h", AuthMethod::Password)]);
    let empty = app.compute_tab_layout();
    let texts: Vec<String> = view::tab_bar(&app).into_iter().map(|s| s.text).collect();
    let mut col = texts[0].chars().count() + texts[1].chars().count();
    for (k, tab) in empty.tabs.iter().enumerate() {
        assert_eq!(tab.0 as usize, col);
        assert_eq!(tab.1 as usize, texts[k + 2].chars().count());
        col += texts[k + 2].chars().count();
    }
    app.sessions.push(Session::new(1, host("one", "h", AuthMethod::Password)));
    let layout = app.compute_tab_layout();
    let tabs: Vec<(u16, u16)> = layout.tabs.iter().map(|t| (t.0, t.1)).collect();
    assert_eq!(tabs, vec![(8, 7), (16, 13), (29, 12), (41, 12)]);
    app.sessions[0].connected = true;
    app.sessions.push(Session::new(2, host("z\u{e9}", "h", AuthMethod::Password)));
    let layout = app.compute_tab_layout();
    assert_eq!((layout.tabs[0].0, layout.tabs[0].1, layout.tabs[1].0, layout.tabs[1].1), (8, 7, 15, 6));
    assert_eq!(layout.tabs[2].0, 22);
    let effects = app.handle_mouse_event(&MouseEvent { kind: MouseEventKind::LeftDown, column: 16, row: 0 });
    assert!(effects.is_some());
    assert_eq!(app.active_session, 1);
    assert_eq!(app.panel, Panel::Terminal);
}

#[test]
fn ctrl_q_leaves_the_terminal() {
    let mut app = app_with(vec![host("a", "h", AuthMethod::Password)]);
    app.sessions.push(connected_session(3, "three"));
    app.sessions.push(connected_session(4, "four"));
    app.active_session = 1;
    app.panel = Panel::Terminal;
    let ctrl_q = KeyEvent::new(KeyCode::Char('q'), KeyModifiers::control());
    assert!(!app.handle_global_key(&ctrl_q).0);
    let effects = app.handle_key(&ctrl_q);
    assert!(matches!(
        effects.as_slice(),
        [Effect::Disconnect { session_id: 4 }, Effect::DropSession { session_id: 4 }]
    ));
    assert_eq!(app.sessions.len(), 1);
    assert_eq!(app.panel, Panel::HostList);
    assert_eq!(app.status_msg, "Closed: four");
    let mut lone = app_with(vec![host("a", "h", AuthMethod::Password)]);
    lone.panel = Panel::Terminal;
    assert!(lone.handle_key(&ctrl_q).is_empty());
    assert_eq!(lone.panel, Panel::HostList);
}

#[test]
fn shifted_characters_extend_the_filter() {
    let mut app = app_with(vec![host("Alpha", "10.0.0.1", AuthMethod::Password), host("beta", "h", AuthMethod::Password)]);
    app.handle_key(&KeyEvent::new(KeyCode::Char('A'), KeyModifiers::shift()));
    app.handle_key(&key(KeyCode::Char('l')));
    assert_eq!(app.host_filter, "Al");
    let shown: Vec<String> = app.filtered_hosts().iter().map(|h| h.name.clone()).collect();
    assert_eq!(shown, vec!["Alpha".to_string()]);
    app.handle_key(&KeyEvent::new(KeyCode::Char('x'), KeyModifiers::control()));
    assert_eq!(app.host_filter, "Al");
    app.handle_key(&KeyEvent::new(KeyCode::Char('?'), KeyModifiers::shift()));
    assert_eq!(app.panel, Panel::Help);
}

#[test]
fn delete_and_edit_act_on_the_highlighted_host() {
    let mut app = app_with(vec![host("one", "h1", AuthMethod::Password), host("two", "h2", AuthMethod::Password)]);
    app.host_filter = "two".to_string();
    app.host_selected = Some(0);
    app.handle_key(&key(KeyCode::Char('e')));
    assert!(matches!(&app.dialog, Dialog::HostForm { edit_index: Some(1), name, .. } if name == "two"));
    app.handle_key(&key(KeyCode::Esc));
    let effects = app.handle_key(&key(KeyCode::Char('d')));
    assert!(matches!(effects.as_slice(), [Effect::SaveConfig { success_status }] if success_status == "Deleted: two"));
    let names: Vec<&str> = app.config.hosts.iter().map(|h| h.name.as_str()).collect();
    assert_eq!(names, vec!["one"]);
    assert_eq!(app.host_selected, None);
    app.host_filter = String::new();
    app.host_selected = Some(3);
    assert!(app.handle_key(&key(KeyCode::Char('d'))).is_empty());
    assert_eq!(app.config.hosts.len(), 1);
}

#[test]
fn clicks_select_the_clicked_sftp_entry() {
    let mut app = sftp_app();
    app.handle_mouse(&MouseEvent { kind: MouseEventKind::LeftDown, column: 5, row: 5 });
    assert_eq!(app.sessions[0].sftp_selected, Some(1));
    app.handle_mouse(&MouseEvent { kind: MouseEventKind::LeftDown, column: 5, row: 4 });
    assert_eq!(app.sessions[0].sftp_selected, Some(0));
    app.handle_mouse(&MouseEvent { kind: MouseEventKind::LeftDown, column: 5, row: 3 });
    assert_eq!(app.sessions[0].sftp_selected, Some(0));
    app.handle_mouse(&MouseEvent { kind: MouseEventKind::LeftDown, column: 5, row: 6 });
    assert_eq!(app.sessions[0].sftp_selected, Some(0));
}
