use std::collections::HashMap;

use ssh_t::app::{App, Panel, Session};
use ssh_t::config::{AppConfig, AuthMethod, HostConfig};
use ssh_t::keys::{KeyCode, KeyEvent, KeyModifiers};

fn host(name: &str) -> HostConfig {
    HostConfig {
        name: name.to_string(),
        host: "127.0.0.1".to_string(),
        port: 22,
        user: "user".to_string(),
        auth: AuthMethod::Password,
        group: String::new(),
        tags: vec![],
        jump_host: None,
        notes: String::new(),
    }
}

fn app() -> App {
    App::new(
        AppConfig { hosts: vec![host("one")], groups: vec![], key_map: HashMap::new() },
        Some("user".to_string()),
        "/tmp".to_string(),
    )
}

#[test]
fn alt_letters_switch_panels() {
    let mut app = app();

    assert!(app.handle_global_key(&KeyEvent::new(KeyCode::Char('t'), KeyModifiers::alt())).0);
    assert_eq!(app.panel, Panel::Terminal);

    assert!(app.handle_global_key(&KeyEvent::new(KeyCode::Char('h'), KeyModifiers::alt())).0);
    assert_eq!(app.panel, Panel::HostList);
}

#[test]
fn function_keys_switch_panels() {
    let mut app = app();

    assert!(app.handle_global_key(&KeyEvent::new(KeyCode::F(2), KeyModifiers::none())).0);
    assert_eq!(app.panel, Panel::Terminal);
}

#[test]
fn plain_digits_are_not_global_inside_terminal() {
    let mut app = app();
    assert!(!app.handle_global_key(&KeyEvent::new(KeyCode::Char('1'), KeyModifiers::none())).0);

    app.panel = Panel::Terminal;

    assert!(!app.handle_global_key(&KeyEvent::new(KeyCode::Char('1'), KeyModifiers::none())).0);
    assert_eq!(app.panel, Panel::Terminal);
}

#[test]
fn alt_arrows_switch_session_tabs() {
    let mut app = app();
    app.sessions.push(Session::new(1, host("one")));
    app.sessions.push(Session::new(2, host("two")));
    app.active_session = 0;

    assert!(app.handle_global_key(&KeyEvent::new(KeyCode::Right, KeyModifiers::alt())).0);
    assert_eq!(app.active_session, 1);
    assert_eq!(app.panel, Panel::Terminal);
}
