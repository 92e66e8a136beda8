use std::collections::HashMap;

use ssh_t::config::{AppConfig, AuthMethod, ConfigError, HostConfig};
use ssh_t::cred::CredentialStore;
use ssh_t::keys::{terminal_key_bytes, KeyCode, KeyEvent, KeyModifiers};
use ssh_t::sftp::{file_entry, format_mtime, join_remote_path, parent_dir, remote_parent, sort_entries, FileEntry};
use ssh_t::ssh::{
    auth_failure_message, exec_output_step, keyboard_interactive_step, send_failure_event, shell_input_step,
    shell_output_step, AuthStep, ChannelMessage, KeyboardInteractiveReply, ShellCommand, ShellInput, SshEvent,
};
use ssh_t::text::{decimal_string, octal_string_3, parse_u16_str, path_join, str_contains, trim_string};

fn host(name: &str, group: &str) -> HostConfig {
    HostConfig {
        name: name.to_string(),
        host: "10.0.0.1".to_string(),
        port: 22,
        user: "root".to_string(),
        auth: AuthMethod::Password,
        group: group.to_string(),
        tags: vec![],
        jump_host: None,
        notes: String::new(),
    }
}

fn entry(name: &str, is_dir: bool) -> FileEntry {
    file_entry("/data", name.to_string(), is_dir, None, None, None)
}

#[test]
fn decimal_and_octal_text() {
    assert_eq!(decimal_string(0), "0");
    assert_eq!(decimal_string(1234), "1234");
    assert_eq!(decimal_string(u64::MAX), "18446744073709551615");
    assert_eq!(octal_string_3(0o644), "644");
    assert_eq!(octal_string_3(8), "010");
    assert_eq!(octal_string_3(0o100755), "100755");
}

#[test]
fn port_numbers_parse_like_std() {
    assert_eq!(parse_u16_str("22"), Some(22));
    assert_eq!(parse_u16_str("+80"), Some(80));
    assert_eq!(parse_u16_str("0065535"), Some(65535));
    assert_eq!(parse_u16_str("65536"), None);
    assert_eq!(parse_u16_str(""), None);
    assert_eq!(parse_u16_str("+"), None);
    assert_eq!(parse_u16_str("-1"), None);
    assert_eq!(parse_u16_str("2 2"), None);
    assert_eq!(parse_u16_str("8a"), None);
    for p in [0u16, 1, 22, 443, 8080, 65535] {
        assert_eq!(parse_u16_str(&decimal_string(p as u64)), Some(p));
    }
}

#[test]
fn paths_join_like_pathbuf() {
    assert_eq!(path_join("/home/u/.config", "ssh-t"), "/home/u/.config/ssh-t");
    assert_eq!(path_join("/home/u/", "x"), "/home/u/x");
    assert_eq!(path_join("/home/u", "/etc"), "/etc");
    assert_eq!(path_join("", "x"), "x");
}

#[test]
fn trimming_and_searching_text() {
    assert_eq!(trim_string("  web 1 \t"), "web 1");
    assert_eq!(trim_string("   "), "");
    assert!(str_contains("production", "duct"));
    assert!(str_contains("abc", ""));
    assert!(!str_contains("abc", "abcd"));
}

#[test]
fn config_locations() {
    assert_eq!(AppConfig::config_dir(Some("/home/u/.config")), Ok("/home/u/.config/ssh-t".to_string()));
    assert_eq!(
        AppConfig::config_path(Some("/home/u/.config")),
        Ok("/home/u/.config/ssh-t/config.toml".to_string())
    );
    assert_eq!(AppConfig::config_dir(None), Err(ConfigError::NoConfigDir));
    assert_eq!(AppConfig::config_path(None), Err(ConfigError::NoConfigDir));
}

#[test]
fn hosts_are_added_found_grouped_and_removed() {
    let mut config = AppConfig { hosts: vec![], groups: vec![], key_map: HashMap::new() };
    config.add_host(host("web", "prod"));
    config.add_host(host("db", "prod"));
    config.add_host(host("dev", "test"));
    config.add_host(host("web", "test"));
    assert_eq!(config.get_host("web").map(|h| h.group.clone()), Some("prod".to_string()));
    assert!(config.get_host("none").is_none());
    let prod: Vec<String> = config.hosts_by_group("prod").iter().map(|h| h.name.clone()).collect();
    assert_eq!(prod, vec!["web".to_string(), "db".to_string()]);
    config.remove_host("web");
    let left: Vec<String> = config.hosts.iter().map(|h| h.name.clone()).collect();
    assert_eq!(left, vec!["db".to_string(), "dev".to_string()]);
    assert!(config.get_host("web").is_none());
}

#[test]
fn add_then_remove_by_name_is_plain_remove() {
    let mut a = AppConfig { hosts: vec![host("x", ""), host("y", "")], groups: vec![], key_map: HashMap::new() };
    let mut b = AppConfig { hosts: vec![host("x", ""), host("y", "")], groups: vec![], key_map: HashMap::new() };
    a.add_host(host("z", ""));
    a.remove_host("z");
    b.remove_host("z");
    let an: Vec<String> = a.hosts.iter().map(|h| h.name.clone()).collect();
    let bn: Vec<String> = b.hosts.iter().map(|h| h.name.clone()).collect();
    assert_eq!(an, bn);
}

#[test]
fn keyring_accounts() {
    assert_eq!(CredentialStore::service_name(), "ssh-t");
    assert_eq!(CredentialStore::password_account("10.0.0.1", "root"), "root@10.0.0.1");
    assert_eq!(CredentialStore::key_account("/home/u/.ssh/id_ed25519"), "key:/home/u/.ssh/id_ed25519");
}

#[test]
fn remote_paths() {
    assert_eq!(join_remote_path("/", "etc"), "/etc");
    assert_eq!(join_remote_path("/", "//etc"), "/etc");
    assert_eq!(join_remote_path("/home/u/", "/docs"), "/home/u/docs");
    assert_eq!(remote_parent("/home/u"), "/home");
    assert_eq!(remote_parent("/home/u///"), "/home");
    assert_eq!(remote_parent("/x"), "/");
    assert_eq!(remote_parent("plain"), "/");
    assert_eq!(parent_dir("/"), None);
    assert_eq!(parent_dir(""), None);
    assert_eq!(parent_dir("/home/u/"), Some("/home".to_string()));
    assert_eq!(parent_dir("/x"), Some("/".to_string()));
    assert_eq!(parent_dir("rel"), None);
}

#[test]
fn going_up_after_entering_returns() {
    for dir in ["/", "/home", "/home/user", "data"] {
        for name in ["a", "docs", "x.y"] {
            let joined = join_remote_path(dir, name);
            assert_eq!(parent_dir(&joined), Some(dir.to_string()));
            assert_eq!(remote_parent(&joined), dir.to_string());
        }
    }
}

#[test]
fn modification_times_are_utc_minutes() {
    assert_eq!(format_mtime(0), "1970-01-01 00:00");
    assert_eq!(format_mtime(86400 + 3600 + 61), "1970-01-02 01:01");
    assert_eq!(format_mtime(1_700_000_000), "2023-11-14 22:13");
}

#[test]
fn listing_entries_carry_their_attributes() {
    let e = file_entry("/home/", "a.txt".to_string(), false, Some(10), Some(0), Some(0o644));
    assert_eq!(e.name, "a.txt");
    assert_eq!(e.path, "/home/a.txt");
    assert_eq!(e.size, 10);
    assert_eq!(e.modified, Some("1970-01-01 00:00".to_string()));
    assert_eq!(e.permissions, Some("644".to_string()));
    let d = file_entry("/", "etc".to_string(), true, None, None, None);
    assert_eq!(d.path, "/etc");
    assert_eq!(d.size, 0);
    assert_eq!(d.modified, None);
    assert_eq!(d.permissions, None);
}

#[test]
fn listing_puts_directories_first_then_names_ignoring_case() {
    let sorted = sort_entries(vec![
        entry("b.txt", false),
        entry("A.txt", false),
        entry("zdir", true),
        entry("Adir", true),
        entry("B", false),
        entry("a", false),
        entry("A", false),
    ]);
    let names: Vec<&str> = sorted.iter().map(|e| e.name.as_str()).collect();
    assert_eq!(names, vec!["Adir", "zdir", "a", "A", "A.txt", "B", "b.txt"]);
    let kinds: Vec<bool> = sorted.iter().map(|e| e.is_dir).collect();
    assert_eq!(kinds, vec![true, true, false, false, false, false, false]);
}

#[test]
fn shell_channel_messages() {
    let s = shell_output_step(3, ChannelMessage::Data(vec![104, 105]));
    assert!(matches!(s.event, Some(SshEvent::Output { id: 3, ref data }) if data == &vec![104u8, 105]));
    assert!(!s.stop);
    let s = shell_output_step(3, ChannelMessage::ExtendedData { data: vec![1], ext: 2 });
    assert!(s.event.is_none() && !s.stop);
    let s = shell_output_step(3, ChannelMessage::ExitStatus(7));
    assert!(matches!(s.event, Some(SshEvent::Disconnected { id: 3, ref reason }) if reason == "Process exited with code 7"));
    assert!(s.stop);
    let s = shell_output_step(4, ChannelMessage::Eof);
    assert!(matches!(s.event, Some(SshEvent::Disconnected { id: 4, ref reason }) if reason == "EOF"));
    let s = shell_output_step(4, ChannelMessage::Other);
    assert!(s.event.is_none() && !s.stop);
}

#[test]
fn exec_channel_reports_exit_code() {
    let s = exec_output_step(1, ChannelMessage::ExitStatus(2));
    assert!(matches!(s.event, Some(SshEvent::Output { id: 1, ref data }) if data == b"\n[Exit code: 2]\n"));
    assert!(s.stop);
}

#[test]
fn shell_input_commands() {
    assert!(matches!(shell_input_step(Some(ShellInput::Data(vec![9]))), ShellCommand::Send(ref d) if d == &vec![9u8]));
    assert!(matches!(
        shell_input_step(Some(ShellInput::Resize { cols: 80, rows: 24 })),
        ShellCommand::WindowChange { cols: 80, rows: 24 }
    ));
    assert!(matches!(shell_input_step(Some(ShellInput::Eof)), ShellCommand::CloseAndStop));
    assert!(matches!(shell_input_step(None), ShellCommand::Stop));
    assert!(matches!(send_failure_event(5, "broken pipe"), SshEvent::Error { id: 5, ref message } if message == "Send error: broken pipe"));
    assert_eq!(auth_failure_message("h"), "Authentication failed for h");
}

#[test]
fn keyboard_interactive_rounds() {
    let pw = "secret".to_string();
    assert!(matches!(keyboard_interactive_step(0, KeyboardInteractiveReply::Success, &pw), AuthStep::Done(true)));
    assert!(matches!(keyboard_interactive_step(1, KeyboardInteractiveReply::Failure, &pw), AuthStep::TryPassword));
    assert!(matches!(keyboard_interactive_step(2, KeyboardInteractiveReply::Failure, &pw), AuthStep::Done(false)));
    match keyboard_interactive_step(0, KeyboardInteractiveReply::InfoRequest { prompts: 2 }, &pw) {
        AuthStep::Respond(answers) => assert_eq!(answers, vec!["secret".to_string(), "secret".to_string()]),
        _ => panic!("expected answers"),
    }
    assert!(matches!(
        keyboard_interactive_step(2, KeyboardInteractiveReply::InfoRequest { prompts: 1 }, &pw),
        AuthStep::Done(false)
    ));
}

#[test]
fn keys_become_terminal_bytes() {
    let none = KeyModifiers::none();
    assert_eq!(terminal_key_bytes(KeyEvent::new(KeyCode::Enter, none)), Some(vec![0x0d]));
    assert_eq!(terminal_key_bytes(KeyEvent::new(KeyCode::Char('c'), KeyModifiers::control())), Some(vec![3]));
    assert_eq!(terminal_key_bytes(KeyEvent::new(KeyCode::Char('x'), KeyModifiers::alt())), Some(vec![0x1b, b'x']));
    assert_eq!(terminal_key_bytes(KeyEvent::new(KeyCode::Char('é'), none)), Some("é".as_bytes().to_vec()));
    assert_eq!(terminal_key_bytes(KeyEvent::new(KeyCode::Up, none)), Some(b"\x1b[A".to_vec()));
    assert_eq!(terminal_key_bytes(KeyEvent::new(KeyCode::F(1), none)), Some(b"\x1bOP".to_vec()));
    assert_eq!(terminal_key_bytes(KeyEvent::new(KeyCode::F(12), none)), Some(b"\x1b[24~".to_vec()));
    assert_eq!(terminal_key_bytes(KeyEvent::new(KeyCode::F(13), none)), None);
    assert_eq!(terminal_key_bytes(KeyEvent::new(KeyCode::Insert, none)), None);
}
