//! Events from the runtime: connection events of the sessions, results of
//! SFTP operations and transfer progress.

use vstd::prelude::*;
use crate::app::{ids_fresh, App, Dialog, Effect, Panel, Session, panel_after_removal, removed_active, same_login, session_at};
use crate::sftp::{FileEntry, TransferEvent, TransferState};
use crate::ssh::{event_session, SshEvent};
use crate::terminal::cleared;
use crate::text::{concat, concat3, decimal, decimal_string, clone_opt_string};

verus! {

/// The result of an SFTP operation run for the active session.
#[derive(Debug)]
pub enum SftpOp {
    Listed { path: String, entries: Vec<FileEntry> },
    Changed { message: String, refresh_path: String },
    Error(String),
}

/// The position of the first session with id `id`.
pub open spec fn first_with_id(s: Seq<Session>, id: usize) -> Option<nat>
    decreases s.len(),
{
    if s.len() == 0 {
        None
    } else if s[0].id == id {
        Some(0)
    } else {
        match first_with_id(s.drop_first(), id) {
            Some(k) => Some(k + 1),
            None => None,
        }
    }
}

proof fn lemma_first_with_id(s: Seq<Session>, id: usize, k: int)
    requires
        0 <= k <= s.len(),
        forall|j: int| 0 <= j < k ==> (#[trigger] s[j]).id != id,
    ensures
        k < s.len() && s[k].id == id ==> first_with_id(s, id) == Some(k as nat),
        k == s.len() ==> first_with_id(s, id) is None,
    decreases k,
{
    if k > 0 {
        let t = s.drop_first();
        assert forall|j: int| 0 <= j < k - 1 implies (#[trigger] t[j]).id != id by {
            assert(t[j] == s[j + 1]);
        }
        lemma_first_with_id(t, id, k - 1);
    } else if s.len() > 0 {
        if k < s.len() && s[k].id == id {
        }
    }
}

/// `b` is `a` after removing the session at `pos`.
pub open spec fn session_removed(a: App, pos: nat, b: App) -> bool {
    &&& b == App { sessions: b.sessions, active_session: b.active_session, panel: b.panel, ..a }
    &&& b.sessions@ == a.sessions@.remove(pos as int)
    &&& b.active_session == removed_active(a.active_session, pos as usize, a.sessions@.len())
    &&& b.panel == panel_after_removal(a.panel, b.sessions@.len())
}

/// Removing a session keeps the active tab on a session: on the same session
/// when another one is removed, and on one of those left when the active one
/// is.
pub proof fn removal_keeps_active_session(a: App, pos: usize, b: App)
    requires
        pos < a.sessions@.len(),
        a.active_session < a.sessions@.len(),
        session_removed(a, pos as nat, b),
    ensures
        b.sessions@.len() > 0 ==> b.active_session < b.sessions@.len(),
        pos != a.active_session ==> b.sessions@[b.active_session as int] == a.sessions@[a.active_session as int],
{
    let s = a.sessions@;
    let act = a.active_session as int;
    if pos < act {
        assert(b.active_session == act - 1);
        assert(s.remove(pos as int)[act - 1] == s[act]);
    } else if pos > act {
        assert(b.active_session == act);
        assert(s.remove(pos as int)[act] == s[act]);
    }
}

proof fn lemma_first_with_id_found(s: Seq<Session>, id: usize)
    ensures
        first_with_id(s, id) matches Some(i) ==> i < s.len() && s[i as int].id == id
            && forall|k: int| 0 <= k < i ==> (#[trigger] s[k]).id != id,
        first_with_id(s, id) is None ==> forall|k: int| 0 <= k < s.len() ==> (#[trigger] s[k]).id != id,
    decreases s.len(),
{
    if s.len() > 0 && s[0].id != id {
        let t = s.drop_first();
        lemma_first_with_id_found(t, id);
        assert forall|k: int| 1 <= k < s.len() implies s[k] == #[trigger] t[k - 1] by {}
        match first_with_id(t, id) {
            Some(j) => {
                assert(first_with_id(s, id) == Some(j + 1));
                assert forall|k: int| 0 <= k < j + 1 implies (#[trigger] s[k]).id != id by {
                    if k > 0 {
                        assert(s[k] == t[k - 1]);
                    }
                }
            },
            None => {
                assert(first_with_id(s, id) is None);
                assert forall|k: int| 0 <= k < s.len() implies (#[trigger] s[k]).id != id by {
                    if k > 0 {
                        assert(s[k] == t[k - 1]);
                    }
                }
            },
        }
    }
}

/// A session that disconnects or fails ends: the first session with the
/// event's id is removed and its connection dropped, the other sessions stay
/// in order, and the active tab stays on the session it was on whenever that
/// one goes on. An event for no session changes no session and asks for
/// nothing.
pub proof fn ended_session_is_removed(a: App, e: SshEvent, b: App, effects: Seq<Effect>)
    requires
        e is Disconnected || e is Error,
        a.active_session < a.sessions@.len(),
        a.sessions@.len() <= usize::MAX,
        ssh_event_outcome(a, e, b, effects),
    ensures
        ({
            let id = event_session(e);
            let s = a.sessions@;
            &&& (forall|k: int| 0 <= k < s.len() ==> (#[trigger] s[k]).id != id)
                ==> b.sessions == a.sessions && b.active_session == a.active_session && effects.len() == 0
            &&& (exists|i: int| 0 <= i < s.len() && (#[trigger] s[i]).id == id) ==> {
                &&& effects == seq![Effect::DropSession { session_id: id }]
                &&& exists|i: int| 0 <= i < s.len() && (#[trigger] s[i]).id == id
                    && (forall|k: int| 0 <= k < i ==> (#[trigger] s[k]).id != id)
                    && b.sessions@ == s.remove(i)
            }
            &&& s[a.active_session as int].id != id ==> b.sessions@[b.active_session as int] == s[a.active_session as int]
            &&& b.sessions@.len() > 0 ==> b.active_session < b.sessions@.len()
        }),
{
    let id = event_session(e);
    let s = a.sessions@;
    lemma_first_with_id_found(s, id);
    let a1 = App { status_msg: b.status_msg, ..a };
    let a2 = App {
        status_msg: b.status_msg,
        dialog: if a.dialog is Connecting { Dialog::Closed } else { a.dialog },
        panel: if a.dialog is Connecting { Panel::HostList } else { a.panel },
        ..a
    };
    match first_with_id(s, id) {
        Some(i) => {
            if e is Disconnected {
                removal_keeps_active_session(a1, i as usize, b);
            } else {
                removal_keeps_active_session(a2, i as usize, b);
            }
            assert(s[i as int].id == id);
        },
        None => {
            assert(s[a.active_session as int].id != id);
        },
    }
}

/// `b` is `a` after a session event. Output goes to the session's terminal;
/// on connection the terminal is cleared and shown; a disconnection or an
/// error ends the session (an error while connecting also returns to the
/// host list); each updates the status.
pub open spec fn ssh_event_outcome(a: App, e: SshEvent, b: App, effects: Seq<Effect>) -> bool {
    let id = crate::ssh::event_session(e);
    let pos = first_with_id(a.sessions@, id);
    match e {
        SshEvent::Output { data, .. } => {
            &&& b == a
            &&& match pos {
                Some(_) => effects == seq![Effect::FeedTerminal { session_id: id, data }],
                None => effects.len() == 0,
            }
        },
        SshEvent::Connected { name, .. } => {
            &&& effects.len() == 0
            &&& b == App { status_msg: b.status_msg, dialog: Dialog::Closed, panel: Panel::Terminal, sessions: b.sessions, ..a }
            &&& b.status_msg@ == "Connected to "@ + name@
            &&& match pos {
                Some(i) => {
                    &&& b.sessions@ == a.sessions@.update(i as int, b.sessions@[i as int])
                    &&& b.sessions@[i as int] == Session { term_screen: b.sessions@[i as int].term_screen, ..a.sessions@[i as int] }
                    &&& b.sessions@[i as int].term_screen@ == cleared(a.sessions@[i as int].term_screen@)
                },
                None => b.sessions == a.sessions,
            }
        },
        SshEvent::Disconnected { reason, .. } => {
            let a1 = App { status_msg: b.status_msg, ..a };
            &&& b.status_msg@ == "Disconnected: "@ + reason@
            &&& match pos {
                Some(i) => session_removed(a1, i, b) && effects == seq![Effect::DropSession { session_id: id }],
                None => b == a1 && effects.len() == 0,
            }
        },
        SshEvent::Error { message, .. } => {
            let connecting = a.dialog is Connecting;
            let a1 = App {
                status_msg: b.status_msg,
                dialog: if connecting { Dialog::Closed } else { a.dialog },
                panel: if connecting { Panel::HostList } else { a.panel },
                ..a
            };
            &&& b.status_msg@ == "Error: "@ + message@
            &&& match pos {
                Some(i) => session_removed(a1, i, b) && effects == seq![Effect::DropSession { session_id: id }],
                None => b == a1 && effects.len() == 0,
            }
        },
        SshEvent::SftpReady { .. } => {
            b == App { status_msg: b.status_msg, ..a } && b.status_msg@ == "SFTP ready"@ && effects.len() == 0
        },
    }
}

/// The abstract value of a [`TransferState`].
pub struct TransferView {
    pub file: Seq<char>,
    pub transferred: u64,
    pub total: u64,
    pub is_upload: bool,
}

/// The abstract value of an optional transfer state.
pub open spec fn transfer_view(t: Option<TransferState>) -> Option<TransferView> {
    match t {
        Some(t) => Some(TransferView { file: t.file@, transferred: t.transferred, total: t.total, is_upload: t.is_upload }),
        None => None,
    }
}

/// What SFTP results change: the active session's listing, selection and
/// transfer, the status, and the directory to reload afterwards.
pub struct SftpView {
    pub dir: Seq<char>,
    pub entries: Seq<FileEntry>,
    pub selected: Option<usize>,
    pub transfer: Option<TransferView>,
    pub status: Seq<char>,
    pub pending: Option<Seq<char>>,
}

/// The effect of one SFTP operation result.
pub open spec fn op_step(v: SftpView, op: SftpOp) -> SftpView {
    match op {
        SftpOp::Listed { path, entries } => SftpView {
            dir: path@,
            entries: entries@,
            selected: if entries@.len() == 0 { None } else { Some(0) },
            status: "Loaded: "@ + path@,
            ..v
        },
        SftpOp::Changed { message, refresh_path } => SftpView { status: message@, pending: Some(refresh_path@), ..v },
        SftpOp::Error(e) => SftpView { status: "SFTP Error: "@ + e@, ..v },
    }
}

/// The percentage shown for a transfer (0 for an unknown size; cut to 8 bits).
pub open spec fn percent(transferred: u64, total: u64) -> u8 {
    if total > 0 { ((transferred * 100) / (total as int)) as u8 } else { 0 }
}

/// Whether a transfer event can be shown without overflowing 64 bits: the
/// percentage of a transfer of known size is computed from
/// `transferred * 100`.
pub open spec fn transfer_in_range(ev: TransferEvent) -> bool {
    ev matches TransferEvent::Progress { transferred, total, .. } ==> (total > 0 ==> transferred * 100 <= u64::MAX)
}

/// The effect of one transfer event. A completed upload reloads the
/// directory afterwards.
pub open spec fn transfer_step(v: SftpView, ev: TransferEvent) -> SftpView {
    match ev {
        TransferEvent::Started { file, total, is_upload } => SftpView {
            transfer: Some(TransferView { file: file@, transferred: 0, total, is_upload }),
            status: (if is_upload { "Uploading"@ } else { "Downloading"@ }) + ": "@ + file@,
            ..v
        },
        TransferEvent::Progress { file, transferred, total } => SftpView {
            transfer: match v.transfer {
                Some(t) => Some(TransferView { transferred, ..t }),
                None => None,
            },
            status: "Transfer: "@ + decimal(percent(transferred, total) as nat) + "% - "@ + file@,
            ..v
        },
        TransferEvent::Completed { file } => SftpView {
            transfer: None,
            status: "Completed: "@ + file@,
            pending: if v.transfer matches Some(t) && t.is_upload { Some(v.dir) } else { v.pending },
            ..v
        },
        TransferEvent::Error { file, error } => SftpView {
            transfer: None,
            status: "Error: "@ + file@ + " - "@ + error@,
            ..v
        },
    }
}

/// The effect of SFTP operation results, in order.
pub open spec fn ops_applied(v: SftpView, ops: Seq<SftpOp>) -> SftpView
    decreases ops.len(),
{
    if ops.len() == 0 {
        v
    } else {
        op_step(ops_applied(v, ops.drop_last()), ops.last())
    }
}

/// The effect of transfer events, in order.
pub open spec fn transfers_applied(v: SftpView, evs: Seq<TransferEvent>) -> SftpView
    decreases evs.len(),
{
    if evs.len() == 0 {
        v
    } else {
        transfer_step(transfers_applied(v, evs.drop_last()), evs.last())
    }
}

/// The SFTP-related part of `a` for its session `s`.
pub open spec fn sftp_view_of(a: App, s: Session) -> SftpView {
    SftpView {
        dir: s.sftp_remote_dir@,
        entries: s.sftp_entries@,
        selected: s.sftp_selected,
        transfer: transfer_view(s.transfer_state),
        status: a.status_msg@,
        pending: None,
    }
}

/// `b` is `a` after the SFTP results `ops` and then the transfer events
/// `evs` of the active session; a pending reload is asked for last.
pub open spec fn sftp_updates_outcome(a: App, ops: Seq<SftpOp>, evs: Seq<TransferEvent>, b: App, effects: Seq<Effect>) -> bool {
    match session_at(a.sessions@, a.active_session) {
        None => b == a && effects.len() == 0,
        Some(s) => {
            let i = a.active_session as int;
            let v = transfers_applied(ops_applied(sftp_view_of(a, s), ops), evs);
            let t = b.sessions@[i];
            &&& b == App { sessions: b.sessions, status_msg: b.status_msg, ..a }
            &&& b.sessions@ == a.sessions@.update(i, t)
            &&& t == Session {
                sftp_remote_dir: t.sftp_remote_dir,
                sftp_entries: t.sftp_entries,
                sftp_selected: t.sftp_selected,
                transfer_state: t.transfer_state,
                ..s
            }
            &&& t.sftp_remote_dir@ == v.dir
            &&& t.sftp_entries@ == v.entries
            &&& t.sftp_selected == v.selected
            &&& transfer_view(t.transfer_state) == v.transfer
            &&& match v.pending {
                None => b.status_msg@ == v.status && effects.len() == 0,
                Some(p) => {
                    &&& b.status_msg@ == "Loading "@ + p + "..."@
                    &&& effects.len() == 1
                    &&& effects[0] matches Effect::ListSftpDir { session_id, host, password, path }
                    &&& session_id == s.id && same_login(s, host, password) && path@ == p
                },
            }
        },
    }
}

proof fn lemma_ops_keep_pending(v: SftpView, ops: Seq<SftpOp>, post: Seq<SftpOp>)
    requires
        forall|i: int| 0 <= i < post.len() ==> !(#[trigger] post[i] is Changed),
    ensures
        ops_applied(v, ops + post).pending == ops_applied(v, ops).pending,
    decreases post.len(),
{
    if post.len() == 0 {
        assert(ops + post =~= ops);
    } else {
        assert((ops + post).drop_last() =~= ops + post.drop_last());
        assert((ops + post).last() == post.last());
        assert(!(post[post.len() - 1] is Changed));
        lemma_ops_keep_pending(v, ops, post.drop_last());
    }
}

proof fn lemma_transfers_keep_pending(v: SftpView, evs: Seq<TransferEvent>)
    requires
        forall|i: int| 0 <= i < evs.len() ==> !(#[trigger] evs[i] is Completed),
    ensures
        transfers_applied(v, evs).pending == v.pending,
    decreases evs.len(),
{
    if evs.len() > 0 {
        assert(!(evs[evs.len() - 1] is Completed));
        lemma_transfers_keep_pending(v, evs.drop_last());
    }
}

/// Transfer events: a completed upload reloads the directory the listing
/// shows, a completed download reloads nothing more; completion and failure
/// end the transfer. The percentage shown for `transferred` of a known
/// `total` is the whole part of `100 * transferred / total`: 100 at the end,
/// never more while the transfer is within its size.
pub proof fn transfer_completion_and_progress(v: SftpView, file: String, error: String, transferred: u64, total: u64)
    requires
        total > 0 ==> transferred * 100 <= u64::MAX,
    ensures
        v.transfer matches Some(t) && t.is_upload
            ==> transfer_step(v, TransferEvent::Completed { file }).pending == Some(v.dir),
        !(v.transfer matches Some(t) && t.is_upload)
            ==> transfer_step(v, TransferEvent::Completed { file }).pending == v.pending,
        transfer_step(v, TransferEvent::Completed { file }).transfer is None,
        transfer_step(v, TransferEvent::Error { file, error }).transfer is None,
        transfer_step(v, TransferEvent::Error { file, error }).pending == v.pending,
        total > 0 && transferred <= total
            ==> percent(transferred, total) * total <= transferred * 100 < (percent(transferred, total) + 1) * total,
        total > 0 && transferred <= total ==> percent(transferred, total) <= 100,
        total > 0 ==> percent(total, total) == 100,
        percent(transferred, 0) == 0,
{
    if total > 0 {
        let q = (transferred * 100) / (total as int);
        assert(q * total <= transferred * 100 < (q + 1) * total) by (nonlinear_arith)
            requires
                total > 0,
                q == (transferred * 100) / (total as int),
        ;
        if transferred <= total {
            assert(q <= 100) by (nonlinear_arith)
                requires
                    total > 0,
                    q * total <= transferred * 100,
                    transferred <= total,
            ;
        }
        assert((total * 100) / (total as int) == 100) by (nonlinear_arith)
            requires
                total > 0,
        ;
    }
}

/// A reported change (a directory made, an entry deleted or renamed)
/// reloads the directory it names: when the last change among the results
/// names `refresh_path` and no transfer completes, the one effect is a
/// listing of `refresh_path` for the active session, and the status says so.
pub proof fn change_reloads_its_directory(
    a: App,
    before: Seq<SftpOp>,
    message: String,
    refresh_path: String,
    after: Seq<SftpOp>,
    evs: Seq<TransferEvent>,
    b: App,
    effects: Seq<Effect>,
)
    requires
        a.active_session < a.sessions@.len(),
        forall|i: int| 0 <= i < after.len() ==> !(#[trigger] after[i] is Changed),
        forall|i: int| 0 <= i < evs.len() ==> !(#[trigger] evs[i] is Completed),
        sftp_updates_outcome(a, before.push(SftpOp::Changed { message, refresh_path }) + after, evs, b, effects),
    ensures
        effects.len() == 1,
        effects[0] matches Effect::ListSftpDir { session_id, path, .. }
            && session_id == a.sessions@[a.active_session as int].id && path@ == refresh_path@,
        b.status_msg@ == "Loading "@ + refresh_path@ + "..."@,
{
    let s = a.sessions@[a.active_session as int];
    let v0 = sftp_view_of(a, s);
    let ops = before.push(SftpOp::Changed { message, refresh_path });
    assert(ops.drop_last() =~= before);
    assert(ops_applied(v0, ops).pending == Some(refresh_path@));
    lemma_ops_keep_pending(v0, ops, after);
    lemma_transfers_keep_pending(ops_applied(v0, ops + after), evs);
}

impl App {
    /// The position of the first session with id `id`.
    fn find_session(&self, id: usize) -> (r: Option<usize>)
        ensures
            r matches Some(i) ==> i < self.sessions@.len() && self.sessions@[i as int].id == id,
            match r {
                Some(i) => first_with_id(self.sessions@, id) == Some(i as nat),
                None => first_with_id(self.sessions@, id) is None,
            },
    {
        let mut k: usize = 0;
        while k < self.sessions.len()
            invariant
                k <= self.sessions@.len(),
                forall|j: int| 0 <= j < k ==> (#[trigger] self.sessions@[j]).id != id,
            decreases self.sessions.len() - k,
        {
            if self.sessions[k].id == id {
                proof {
                    lemma_first_with_id(self.sessions@, id, k as int);
                }
                return Some(k);
            }
            k = k + 1;
        }
        proof {
            lemma_first_with_id(self.sessions@, id, k as int);
        }
        None
    }

    /// Marks session `id` connected once the runtime holds its connection.
    pub fn manager_ready(&mut self, id: usize)
        ensures
            match first_with_id(old(self).sessions@, id) {
                Some(i) => *final(self) == (App { sessions: final(self).sessions, ..*old(self) })
                    && final(self).sessions@ == old(self).sessions@.update(
                    i as int,
                    Session { connected: true, ..old(self).sessions@[i as int] },
                ),
                None => *final(self) == *old(self),
            },
            old(self).wf() ==> final(self).wf(),
            ids_fresh(*old(self)) ==> ids_fresh(*final(self)),
    {
        match self.find_session(id) {
            Some(i) => {
                let mut s = self.sessions.remove(i);
                s.connected = true;
                self.sessions.insert(i, s);
                assert(self.sessions@ =~= old(self).sessions@.update(i as int, Session { connected: true, ..old(self).sessions@[i as int] }));
            },
            None => {},
        }
    }

    /// A connection event of a session.
    pub fn handle_ssh_event(&mut self, event: SshEvent) -> (r: Vec<Effect>)
        ensures
            ssh_event_outcome(*old(self), event, *final(self), r@),
            old(self).wf() ==> final(self).wf(),
            ids_fresh(*old(self)) ==> ids_fresh(*final(self)),
    {
        let id = event.session_id();
        let pos = self.find_session(id);
        let mut effects: Vec<Effect> = Vec::new();
        match event {
            SshEvent::Output { data, .. } => {
                match pos {
                    Some(_) => {
                        effects.push(Effect::FeedTerminal { session_id: id, data });
                    },
                    None => {},
                }
            },
            SshEvent::Connected { name, .. } => {
                self.status_msg = concat("Connected to ", name.as_str());
                self.dialog = Dialog::Closed;
                self.panel = Panel::Terminal;
                match pos {
                    Some(i) => {
                        let ghost before = self.sessions@;
                        let mut s = self.sessions.remove(i);
                        s.term_screen.clear();
                        self.sessions.insert(i, s);
                        assert(self.sessions@ =~= before.update(i as int, self.sessions@[i as int]));
                    },
                    None => {},
                }
            },
            SshEvent::Disconnected { reason, .. } => {
                self.status_msg = concat("Disconnected: ", reason.as_str());
                match pos {
                    Some(i) => {
                        let e = self.remove_session(i);
                        effects.push(e);
                    },
                    None => {},
                }
            },
            SshEvent::Error { message, .. } => {
                self.status_msg = concat("Error: ", message.as_str());
                if matches!(self.dialog, Dialog::Connecting { .. }) {
                    self.dialog = Dialog::Closed;
                    self.panel = Panel::HostList;
                }
                match pos {
                    Some(i) => {
                        let e = self.remove_session(i);
                        effects.push(e);
                    },
                    None => {},
                }
            },
            SshEvent::SftpReady { .. } => {
                self.status_msg = String::from_str("SFTP ready");
            },
        }
        proof {
            if effects@.len() == 1 {
                assert(effects@ =~= seq![effects@[0]]);
            }
        }
        effects
    }
}

/// The status shown when a transfer starts.
fn started_status(file: &str, is_upload: bool) -> (r: String)
    ensures
        r@ == (if is_upload { "Uploading"@ } else { "Downloading"@ }) + ": "@ + file@,
{
    let head = if is_upload { "Uploading" } else { "Downloading" };
    concat3(head, ": ", file)
}

/// Applies one SFTP result to the active session `s`.
fn apply_op(s: &mut Session, status: &mut String, pending: &mut Option<String>, op: SftpOp)
    ensures
        ({
            let v0 = SftpView {
                dir: old(s).sftp_remote_dir@,
                entries: old(s).sftp_entries@,
                selected: old(s).sftp_selected,
                transfer: transfer_view(old(s).transfer_state),
                status: old(status)@,
                pending: match *old(pending) { Some(p) => Some(p@), None => None },
            };
            let v1 = op_step(v0, op);
            &&& *final(s) == Session {
                sftp_remote_dir: final(s).sftp_remote_dir,
                sftp_entries: final(s).sftp_entries,
                sftp_selected: final(s).sftp_selected,
                ..*old(s)
            }
            &&& final(s).sftp_remote_dir@ == v1.dir
            &&& final(s).sftp_entries@ == v1.entries
            &&& final(s).sftp_selected == v1.selected
            &&& final(status)@ == v1.status
            &&& match *final(pending) { Some(p) => v1.pending == Some(p@), None => v1.pending is None }
        }),
{
    match op {
        SftpOp::Listed { path, entries } => {
            let empty = entries.len() == 0;
            *status = concat("Loaded: ", path.as_str());
            s.sftp_remote_dir = path;
            s.sftp_entries = entries;
            s.sftp_selected = if empty { None } else { Some(0) };
        },
        SftpOp::Changed { message, refresh_path } => {
            *status = message;
            *pending = Some(refresh_path);
        },
        SftpOp::Error(e) => {
            *status = concat("SFTP Error: ", e.as_str());
        },
    }
}

/// Applies one transfer event to the active session `s`.
fn apply_transfer(s: &mut Session, status: &mut String, pending: &mut Option<String>, ev: TransferEvent)
    requires
        transfer_in_range(ev),
    ensures
        ({
            let v0 = SftpView {
                dir: old(s).sftp_remote_dir@,
                entries: old(s).sftp_entries@,
                selected: old(s).sftp_selected,
                transfer: transfer_view(old(s).transfer_state),
                status: old(status)@,
                pending: match *old(pending) { Some(p) => Some(p@), None => None },
            };
            let v1 = transfer_step(v0, ev);
            &&& *final(s) == Session { transfer_state: final(s).transfer_state, ..*old(s) }
            &&& transfer_view(final(s).transfer_state) == v1.transfer
            &&& final(status)@ == v1.status
            &&& match *final(pending) { Some(p) => v1.pending == Some(p@), None => v1.pending is None }
        }),
{
    match ev {
        TransferEvent::Started { file, total, is_upload } => {
            *status = started_status(file.as_str(), is_upload);
            s.transfer_state = Some(TransferState { file, transferred: 0, total, is_upload });
        },
        TransferEvent::Progress { file, transferred, total } => {
            match &mut s.transfer_state {
                Some(t) => {
                    t.transferred = transferred;
                },
                None => {},
            }
            let pct: u8 = if total > 0 { ((transferred * 100) / total) as u8 } else { 0 };
            let mut m = concat("Transfer: ", decimal_string(pct as u64).as_str());
            m.append("% - ");
            m.append(file.as_str());
            *status = m;
        },
        TransferEvent::Completed { file } => {
            let refresh = match &s.transfer_state {
                Some(t) => t.is_upload,
                None => false,
            };
            s.transfer_state = None;
            *status = concat("Completed: ", file.as_str());
            if refresh {
                *pending = Some(s.sftp_remote_dir.clone());
            }
        },
        TransferEvent::Error { file, error } => {
            s.transfer_state = None;
            let mut m = concat3("Error: ", file.as_str(), " - ");
            m.append(error.as_str());
            *status = m;
        },
    }
}

impl App {
    /// Applies the results of the active session's SFTP operations and then
    /// its transfer events, in the order received; a reload that one of
    /// them asks for is started last.
    pub fn poll_sftp_updates(&mut self, ops: Vec<SftpOp>, transfers: Vec<TransferEvent>) -> (r: Vec<Effect>)
        requires
            forall|k: int| 0 <= k < transfers@.len() ==> transfer_in_range(#[trigger] transfers@[k]),
        ensures
            sftp_updates_outcome(*old(self), ops@, transfers@, *final(self), r@),
            old(self).wf() ==> final(self).wf(),
            ids_fresh(*old(self)) ==> ids_fresh(*final(self)),
    {
        if self.active_session >= self.sessions.len() {
            return Vec::new();
        }
        let idx = self.active_session;
        let ghost s0 = self.sessions@[idx as int];
        let ghost v0 = sftp_view_of(*self, s0);
        let mut s = self.sessions.remove(idx);
        let mut status = String::new();
        std::mem::swap(&mut status, &mut self.status_msg);
        let mut pending: Option<String> = None;
        let ghost all_ops = ops@;
        let mut ops = ops;
        let ghost mut n: int = 0;
        while ops.len() > 0
            invariant
                0 <= n <= all_ops.len(),
                ops@ == all_ops.subrange(n, all_ops.len() as int),
                s == (Session {
                    sftp_remote_dir: s.sftp_remote_dir,
                    sftp_entries: s.sftp_entries,
                    sftp_selected: s.sftp_selected,
                    ..s0
                }),
                ({
                    let v = ops_applied(v0, all_ops.subrange(0, n));
                    &&& s.sftp_remote_dir@ == v.dir
                    &&& s.sftp_entries@ == v.entries
                    &&& s.sftp_selected == v.selected
                    &&& transfer_view(s.transfer_state) == v.transfer
                    &&& status@ == v.status
                    &&& match pending { Some(p) => v.pending == Some(p@), None => v.pending is None }
                }),
            decreases ops.len(),
        {
            let op = ops.remove(0);
            proof {
                assert(all_ops.subrange(0, n + 1).drop_last() =~= all_ops.subrange(0, n));
                assert(all_ops.subrange(0, n + 1).last() == op);
            }
            apply_op(&mut s, &mut status, &mut pending, op);
            proof {
                n = n + 1;
                assert(ops@ =~= all_ops.subrange(n, all_ops.len() as int));
            }
        }
        assert(all_ops.subrange(0, n) =~= all_ops);
        let ghost v1 = ops_applied(v0, all_ops);
        let ghost s1 = s;
        let ghost all_evs = transfers@;
        let mut evs = transfers;
        let ghost mut m: int = 0;
        while evs.len() > 0
            invariant
                0 <= m <= all_evs.len(),
                evs@ == all_evs.subrange(m, all_evs.len() as int),
                forall|k: int| 0 <= k < all_evs.len() ==> transfer_in_range(#[trigger] all_evs[k]),
                s == (Session { transfer_state: s.transfer_state, ..s1 }),
                s1 == (Session {
                    sftp_remote_dir: s1.sftp_remote_dir,
                    sftp_entries: s1.sftp_entries,
                    sftp_selected: s1.sftp_selected,
                    ..s0
                }),
                ({
                    let v = transfers_applied(v1, all_evs.subrange(0, m));
                    &&& s.sftp_remote_dir@ == v.dir
                    &&& s.sftp_entries@ == v.entries
                    &&& s.sftp_selected == v.selected
                    &&& transfer_view(s.transfer_state) == v.transfer
                    &&& status@ == v.status
                    &&& match pending { Some(p) => v.pending == Some(p@), None => v.pending is None }
                }),
            decreases evs.len(),
        {
            let ev = evs.remove(0);
            proof {
                assert(all_evs.subrange(0, m + 1).drop_last() =~= all_evs.subrange(0, m));
                assert(all_evs.subrange(0, m + 1).last() == ev);
                assert(ev == all_evs[m]);
            }
            apply_transfer(&mut s, &mut status, &mut pending, ev);
            proof {
                m = m + 1;
                assert(evs@ =~= all_evs.subrange(m, all_evs.len() as int));
            }
        }
        assert(all_evs.subrange(0, m) =~= all_evs);
        self.status_msg = status;
        self.sessions.insert(idx, s);
        assert(self.sessions@ =~= old(self).sessions@.update(idx as int, self.sessions@[idx as int]));
        match pending {
            Some(p) => self.list_sftp_dir(p),
            None => Vec::new(),
        }
    }
}

} // verus!
