//! SSH session events and the decisions of the connection tasks: how channel
//! messages become session events, how shell input becomes channel commands,
//! and how keyboard-interactive authentication proceeds.

use vstd::prelude::*;
use crate::text::{decimal, decimal_string, utf8_bytes};

verus! {

/// Messages sent from an SSH session to the application.
#[derive(Debug)]
pub enum SshEvent {
    Connected { id: usize, name: String },
    Output { id: usize, data: Vec<u8> },
    Disconnected { id: usize, reason: String },
    Error { id: usize, message: String },
    SftpReady { id: usize },
}

/// The session an event belongs to.
pub open spec fn event_session(e: SshEvent) -> usize {
    match e {
        SshEvent::Connected { id, .. } => id,
        SshEvent::Output { id, .. } => id,
        SshEvent::Disconnected { id, .. } => id,
        SshEvent::Error { id, .. } => id,
        SshEvent::SftpReady { id } => id,
    }
}

impl SshEvent {
    /// The session this event belongs to.
    pub fn session_id(&self) -> (r: usize)
        ensures
            r == event_session(*self),
    {
        match self {
            SshEvent::Connected { id, .. } => *id,
            SshEvent::Output { id, .. } => *id,
            SshEvent::Disconnected { id, .. } => *id,
            SshEvent::Error { id, .. } => *id,
            SshEvent::SftpReady { id, .. } => *id,
        }
    }
}

/// Input for a shell task.
#[derive(Debug)]
pub enum ShellInput {
    Data(Vec<u8>),
    Resize { cols: u16, rows: u16 },
    Eof,
}

/// A message arriving on an SSH channel, or the end of the channel.
#[derive(Debug)]
pub enum ChannelMessage {
    Data(Vec<u8>),
    ExtendedData { data: Vec<u8>, ext: u32 },
    Eof,
    ExitStatus(u32),
    Close,
    /// The channel has no more messages.
    Ended,
    /// Any other message.
    Other,
}

/// What a channel task does with one message: the event to report, if any,
/// and whether the task stops.
#[derive(Debug)]
pub struct ChannelStep {
    pub event: Option<SshEvent>,
    pub stop: bool,
}

/// Whether `ev` reports that session `id` ended for `reason`.
pub open spec fn is_disconnect(ev: Option<SshEvent>, id: usize, reason: Seq<char>) -> bool {
    ev matches Some(SshEvent::Disconnected { id: i, reason: r }) && i == id && r@ == reason
}

/// Whether `ev` is output `bytes` of session `id`.
pub open spec fn is_output(ev: Option<SshEvent>, id: usize, bytes: Seq<u8>) -> bool {
    ev matches Some(SshEvent::Output { id: i, data }) && i == id && data@ == bytes
}

/// The reason reported when a shell's process exits with `code`.
pub open spec fn exit_reason(code: u32) -> Seq<char> {
    "Process exited with code "@ + decimal(code as nat)
}

/// The output line added when a command exits with `code`.
pub open spec fn exit_note(code: u32) -> Seq<char> {
    seq!['\n'] + "[Exit code: "@ + decimal(code as nat) + seq![']', '\n']
}

/// An interactive shell's reaction to a channel message: data and standard
/// error become output, the end of the stream, an exit status, a close or the
/// end of the channel end the session, anything else is ignored.
pub open spec fn shell_reaction(id: usize, msg: ChannelMessage, r: ChannelStep) -> bool {
    match msg {
        ChannelMessage::Data(data) => r.event == Some(SshEvent::Output { id, data }) && !r.stop,
        ChannelMessage::ExtendedData { data, ext } => if ext == 1 {
            r.event == Some(SshEvent::Output { id, data }) && !r.stop
        } else {
            r.event is None && !r.stop
        },
        ChannelMessage::Eof => r.stop && is_disconnect(r.event, id, "EOF"@),
        ChannelMessage::ExitStatus(code) => r.stop && is_disconnect(r.event, id, exit_reason(code)),
        ChannelMessage::Close => r.stop && is_disconnect(r.event, id, "Channel closed"@),
        ChannelMessage::Ended => r.stop && is_disconnect(r.event, id, "Channel ended"@),
        ChannelMessage::Other => r.event is None && !r.stop,
    }
}

/// How an interactive shell task reacts to a message from the server.
pub fn shell_output_step(id: usize, msg: ChannelMessage) -> (r: ChannelStep)
    ensures
        shell_reaction(id, msg, r),
{
    match msg {
        ChannelMessage::Data(data) => ChannelStep { event: Some(SshEvent::Output { id, data }), stop: false },
        ChannelMessage::ExtendedData { data, ext } => {
            if ext == 1 {
                ChannelStep { event: Some(SshEvent::Output { id, data }), stop: false }
            } else {
                ChannelStep { event: None, stop: false }
            }
        },
        ChannelMessage::Eof => ChannelStep {
            event: Some(SshEvent::Disconnected { id, reason: String::from_str("EOF") }),
            stop: true,
        },
        ChannelMessage::ExitStatus(code) => {
            let mut reason = String::from_str("Process exited with code ");
            let digits = decimal_string(code as u64);
            reason.append(digits.as_str());
            ChannelStep { event: Some(SshEvent::Disconnected { id, reason }), stop: true }
        },
        ChannelMessage::Close => ChannelStep {
            event: Some(SshEvent::Disconnected { id, reason: String::from_str("Channel closed") }),
            stop: true,
        },
        ChannelMessage::Ended => ChannelStep {
            event: Some(SshEvent::Disconnected { id, reason: String::from_str("Channel ended") }),
            stop: true,
        },
        ChannelMessage::Other => ChannelStep { event: None, stop: false },
    }
}

/// A one-off command's reaction to a channel message: data and standard error
/// become output, an exit status adds an exit note and ends the task, the end
/// of the stream or of the channel end it, anything else is ignored.
pub open spec fn exec_reaction(id: usize, msg: ChannelMessage, r: ChannelStep) -> bool {
    match msg {
        ChannelMessage::Data(data) => r.event == Some(SshEvent::Output { id, data }) && !r.stop,
        ChannelMessage::ExtendedData { data, ext } => if ext == 1 {
            r.event == Some(SshEvent::Output { id, data }) && !r.stop
        } else {
            r.event is None && !r.stop
        },
        ChannelMessage::ExitStatus(code) => r.stop && is_output(r.event, id, vstd::utf8::encode_utf8(exit_note(code))),
        ChannelMessage::Eof => r.stop && r.event is None,
        ChannelMessage::Ended => r.stop && r.event is None,
        ChannelMessage::Close => r.event is None && !r.stop,
        ChannelMessage::Other => r.event is None && !r.stop,
    }
}

/// How a one-off command task reacts to a message from the server.
pub fn exec_output_step(id: usize, msg: ChannelMessage) -> (r: ChannelStep)
    ensures
        exec_reaction(id, msg, r),
{
    match msg {
        ChannelMessage::Data(data) => ChannelStep { event: Some(SshEvent::Output { id, data }), stop: false },
        ChannelMessage::ExtendedData { data, ext } => {
            if ext == 1 {
                ChannelStep { event: Some(SshEvent::Output { id, data }), stop: false }
            } else {
                ChannelStep { event: None, stop: false }
            }
        },
        ChannelMessage::ExitStatus(code) => {
            let mut note = String::from_str("\n[Exit code: ");
            let digits = decimal_string(code as u64);
            note.append(digits.as_str());
            note.append("]\n");
            proof {
                reveal_strlit("\n[Exit code: ");
                reveal_strlit("[Exit code: ");
                reveal_strlit("]\n");
                assert(note@ =~= exit_note(code));
            }
            let data = utf8_bytes(note.as_str());
            ChannelStep { event: Some(SshEvent::Output { id, data }), stop: true }
        },
        ChannelMessage::Eof => ChannelStep { event: None, stop: true },
        ChannelMessage::Ended => ChannelStep { event: None, stop: true },
        ChannelMessage::Close => ChannelStep { event: None, stop: false },
        ChannelMessage::Other => ChannelStep { event: None, stop: false },
    }
}

/// What a shell task does with input from the application.
#[derive(Debug)]
pub enum ShellCommand {
    /// Send the bytes to the remote shell.
    Send(Vec<u8>),
    /// Tell the server the terminal size changed.
    WindowChange { cols: u32, rows: u32 },
    /// Send end-of-file and stop.
    CloseAndStop,
    /// Stop: the application is gone.
    Stop,
}

/// How a shell task reacts to input from the application (`None` when the
/// application dropped its end).
pub fn shell_input_step(input: Option<ShellInput>) -> (r: ShellCommand)
    ensures
        match input {
            Some(ShellInput::Data(d)) => r == ShellCommand::Send(d),
            Some(ShellInput::Resize { cols, rows }) => r == (ShellCommand::WindowChange { cols: cols as u32, rows: rows as u32 }),
            Some(ShellInput::Eof) => r == ShellCommand::CloseAndStop,
            None => r == ShellCommand::Stop,
        },
{
    match input {
        Some(ShellInput::Data(d)) => ShellCommand::Send(d),
        Some(ShellInput::Resize { cols, rows }) => ShellCommand::WindowChange { cols: cols as u32, rows: rows as u32 },
        Some(ShellInput::Eof) => ShellCommand::CloseAndStop,
        None => ShellCommand::Stop,
    }
}

/// The event reported when sending input to the shell failed (the task then stops).
pub fn send_failure_event(id: usize, detail: &str) -> (r: SshEvent)
    ensures
        r matches SshEvent::Error { id: i, message } && i == id && message@ == "Send error: "@ + detail@,
{
    let mut message = String::from_str("Send error: ");
    message.append(detail);
    SshEvent::Error { id, message }
}

/// The event reported when a window-size change failed (the task goes on).
pub fn resize_failure_event(id: usize, detail: &str) -> (r: SshEvent)
    ensures
        r matches SshEvent::Error { id: i, message } && i == id && message@ == "Resize error: "@ + detail@,
{
    let mut message = String::from_str("Resize error: ");
    message.append(detail);
    SshEvent::Error { id, message }
}

/// A server's answer in keyboard-interactive authentication.
#[derive(Debug, Clone, Copy, PartialEq, Eq)]
pub enum KeyboardInteractiveReply {
    Success,
    InfoRequest { prompts: usize },
    Failure,
}

/// The next step of password authentication.
#[derive(Debug)]
pub enum AuthStep {
    /// Authentication is over, with this outcome.
    Done(bool),
    /// Answer the prompts with these responses.
    Respond(Vec<String>),
    /// Fall back to plain password authentication.
    TryPassword,
}

/// `n` copies of the password.
pub open spec fn password_answers(n: nat, password: Seq<char>, answers: Seq<String>) -> bool {
    answers.len() == n && forall|i: int| 0 <= i < n ==> (#[trigger] answers[i])@ == password
}

/// Keyboard-interactive authentication with a password: every prompt is
/// answered with the password. `round` counts the replies received so far
/// (0 for the reply to the start). Success at any round succeeds; a failure
/// in the first two rounds falls back to plain password authentication; in
/// the third round anything but success fails.
pub fn keyboard_interactive_step(round: usize, reply: KeyboardInteractiveReply, password: &String) -> (r: AuthStep)
    ensures
        reply == KeyboardInteractiveReply::Success ==> r == AuthStep::Done(true),
        round < 2 && reply == KeyboardInteractiveReply::Failure ==> r == AuthStep::TryPassword,
        round < 2 ==> (reply matches KeyboardInteractiveReply::InfoRequest { prompts } ==> (r matches AuthStep::Respond(answers)
            && password_answers(prompts as nat, password@, answers@))),
        round >= 2 && reply != KeyboardInteractiveReply::Success ==> r == AuthStep::Done(false),
{
    match reply {
        KeyboardInteractiveReply::Success => AuthStep::Done(true),
        KeyboardInteractiveReply::Failure => {
            if round < 2 {
                AuthStep::TryPassword
            } else {
                AuthStep::Done(false)
            }
        },
        KeyboardInteractiveReply::InfoRequest { prompts } => {
            if round < 2 {
                let mut answers: Vec<String> = Vec::new();
                let mut k: usize = 0;
                while k < prompts
                    invariant
                        k <= prompts,
                        password_answers(k as nat, password@, answers@),
                    decreases prompts - k,
                {
                    answers.push(password.clone());
                    k = k + 1;
                }
                AuthStep::Respond(answers)
            } else {
                AuthStep::Done(false)
            }
        },
    }
}

/// The error raised when the server refused every credential offered.
pub fn auth_failure_message(host: &str) -> (r: String)
    ensures
        r@ == "Authentication failed for "@ + host@,
{
    let mut m = String::from_str("Authentication failed for ");
    m.append(host);
    m
}

} // verus!
