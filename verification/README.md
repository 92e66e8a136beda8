# ssh-t

A keyboard-driven SSH client for the terminal, with session tabs, a host
list, an ANSI terminal view and an SFTP browser.

The project is two crates:

- `src/` — the library `ssh_t`, verified with Verus. It decides what every
  key press, mouse click, connection event and SFTP result does to the
  application state, and which effects (connect, send input, list a
  directory, save the configuration, ...) the program must carry out. It also
  holds the terminal screen model, the remote path arithmetic and listing
  order, the keyboard-interactive authentication steps, the configuration
  operations and the text of every bar and dialog.
- `app/` — the program: it reads the terminal with crossterm, draws with
  ratatui, runs SSH and SFTP with russh and russh-sftp on tokio, decodes
  terminal output with vte, keeps passwords in the system keyring and the
  configuration in `~/.config/ssh-t/config.toml`, and performs the effects
  the library returns.

Modules of the library:

| module     | contents |
|------------|----------|
| `app`      | application state, key/mouse/event handling, effects |
| `terminal` | the scrollback screen buffer and its escape-sequence actions |
| `sftp`     | directory entries, remote paths, listing order |
| `ssh`      | session events, channel and authentication decisions |
| `config`   | hosts, groups, configuration locations |
| `keys`     | keys, mouse events, bytes a key sends to a shell |
| `view`     | the text and tone of everything on screen |
| `cred`     | keyring account names |
| `text`     | string helpers: numbers, paths, trimming, searching |
