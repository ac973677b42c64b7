//! Relaying through sockets: socket tasks are served once each, and the
//! requests that arrive through a socket are checked and rewritten like
//! task requests.
use vstd::prelude::*;
use std::collections::HashSet;
use crate::config::{allow_list_admits, local_entry_for, LocalEntryView, LocalMapping};
use crate::errors::BeamConnectError;
use crate::ids::{AppId, AppOrProxyId, IdView};
use crate::structs::{
    status_display, status_text, MyStatusCode, BAD_GATEWAY, BAD_REQUEST, GATEWAY_TIMEOUT, GONE,
    INTERNAL_SERVER_ERROR, NOT_FOUND, OK, SWITCHING_PROTOCOLS, UNAUTHORIZED,
};
use crate::text::{concat, opt_str};
use crate::uri::{build_uri, uri_from_parts, UriParts, UriView};

verus! {

/// Where socket tasks are listed: `<proxy>v1/sockets`.
pub fn sockets_url(proxy_url: &str) -> (r: String)
    ensures
        r@ == proxy_url@ + "v1/sockets"@,
{
    concat(proxy_url, "v1/sockets")
}

/// Where one socket is opened or joined: `<proxy>v1/sockets/<id>`, the id
/// being a task id or the connector to reach.
pub fn socket_url(proxy_url: &str, id: &str) -> (r: String)
    ensures
        r@ == proxy_url@ + "v1/sockets/"@ + id@,
{
    let mut s = concat(proxy_url, "v1/sockets/");
    s.append(id);
    s
}

/// The proxy's answer to listing socket tasks: `200 OK` brings them, `504`
/// is the ordinary timeout, anything else a failure that names the status.
pub fn check_poll_status(status: u16) -> (r: Result<(), BeamConnectError>)
    requires
        100 <= status <= 999,
    ensures
        status == OK ==> r is Ok,
        status == GATEWAY_TIMEOUT ==> r matches Err(BeamConnectError::ProxyTimeoutError),
        (status != OK && status != GATEWAY_TIMEOUT) ==> (r matches Err(
            BeamConnectError::ProxyOtherError(t),
        ) && t@ == "Unexpected status code "@ + status_display(status)),
{
    if status == OK {
        Ok(())
    } else if status == GATEWAY_TIMEOUT {
        Err(BeamConnectError::ProxyTimeoutError)
    } else {
        let shown = status_text(status);
        Err(BeamConnectError::ProxyOtherError(concat("Unexpected status code ", shown.as_str())))
    }
}

/// The proxy's answer to joining a socket: `101 Switching Protocols` opens
/// it; `404` and `410` mean the task expired, `401` that the socket is not
/// for this connector; anything else names the status.
pub fn check_socket_joined(status: u16) -> (r: Result<(), BeamConnectError>)
    requires
        100 <= status <= 999,
    ensures
        status == SWITCHING_PROTOCOLS ==> r is Ok,
        (status == NOT_FOUND || status == GONE) ==> (r matches Err(
            BeamConnectError::ProxyOtherError(t),
        ) && t@ == "Task already expired"@),
        status == UNAUTHORIZED ==> (r matches Err(BeamConnectError::ProxyOtherError(t)) && t@
            == "This socket is not for this authorized for this app"@),
        (status != SWITCHING_PROTOCOLS && status != NOT_FOUND && status != GONE && status
            != UNAUTHORIZED) ==> (r matches Err(BeamConnectError::ProxyOtherError(t)) && t@
            == status_display(status)),
{
    if status == SWITCHING_PROTOCOLS {
        Ok(())
    } else if status == NOT_FOUND || status == GONE {
        Err(BeamConnectError::ProxyOtherError("Task already expired".to_owned()))
    } else if status == UNAUTHORIZED {
        Err(
            BeamConnectError::ProxyOtherError(
                "This socket is not for this authorized for this app".to_owned(),
            ),
        )
    } else {
        Err(BeamConnectError::ProxyOtherError(status_text(status)))
    }
}

/// The proxy's answer to opening a socket to a remote connector: anything
/// but `101 Switching Protocols` is handed to the client as it came.
pub fn check_socket_opened(status: u16) -> (r: Result<(), MyStatusCode>)
    ensures
        status == SWITCHING_PROTOCOLS ==> r is Ok,
        status != SWITCHING_PROTOCOLS ==> r == Err::<(), MyStatusCode>(MyStatusCode { code: status }),
{
    if status != SWITCHING_PROTOCOLS {
        Err(MyStatusCode::from_status(status))
    } else {
        Ok(())
    }
}

// ---------------------------------------------------------------------------
// Sending a client's request through a socket
/// Where sending a client's request through a socket stands.
#[derive(Debug, Clone, Copy, PartialEq, Eq, Structural)]
pub enum SocketPhase {
    /// A socket to the remote connector is being asked for.
    Opening,
    /// The proxy switched protocols; its reply is being upgraded to a socket.
    Upgrading,
    /// An HTTP/1 connection is being set up over the socket.
    Handshaking,
    /// The client's request is being sent and its reply awaited.
    Sending,
    /// It is over.
    Done,
}

/// What the outside work of the current phase came to.
#[derive(Debug, Clone, Copy, PartialEq, Eq, Structural)]
pub enum SocketEvent {
    /// Asking the proxy for a socket failed before it answered.
    PostFailed,
    /// The proxy answered with this status.
    Answered { status: u16 },
    /// The reply could not be upgraded to a socket.
    UpgradeFailed,
    /// The reply was upgraded to a socket.
    Upgraded,
    /// The HTTP/1 handshake over the socket failed.
    HandshakeFailed,
    /// The HTTP/1 connection is set up.
    HandshakeDone,
    /// Sending the request or receiving its reply failed.
    SendFailed,
    /// The reply arrived.
    ReplyReceived,
}

/// What to do next.
#[derive(Debug, Clone, Copy, PartialEq, Eq, Structural)]
pub enum SocketAction {
    /// Upgrade the proxy's reply to a socket.
    Upgrade,
    /// Set up an HTTP/1 connection over the socket.
    Handshake,
    /// Send the client's request over the connection.
    SendRequest,
    /// Hand the reply back to the client.
    Respond,
    /// Answer the client with this status; the request is not sent on.
    Fail(MyStatusCode),
}

/// The event can follow the phase.
pub open spec fn socket_event_fits(phase: SocketPhase, event: SocketEvent) -> bool {
    match phase {
        SocketPhase::Opening => event is PostFailed || event is Answered,
        SocketPhase::Upgrading => event is UpgradeFailed || event is Upgraded,
        SocketPhase::Handshaking => event is HandshakeFailed || event is HandshakeDone,
        SocketPhase::Sending => event is SendFailed || event is ReplyReceived,
        SocketPhase::Done => false,
    }
}

/// It is over, answering the client with `code`.
pub open spec fn socket_fail(code: u16) -> (SocketPhase, SocketAction) {
    (SocketPhase::Done, SocketAction::Fail(MyStatusCode { code }))
}

/// The next phase and action after `event`: a failed request for a socket
/// is answered `502`, any answer but `101` is handed on as it came, a failed
/// upgrade is answered `500`, a failed handshake or send `502`; otherwise the
/// steps go on in order and the reply is handed back.
pub open spec fn socket_step_spec(event: SocketEvent) -> (SocketPhase, SocketAction) {
    match event {
        SocketEvent::PostFailed => socket_fail(BAD_GATEWAY),
        SocketEvent::Answered { status } => if status == SWITCHING_PROTOCOLS {
            (SocketPhase::Upgrading, SocketAction::Upgrade)
        } else {
            socket_fail(status)
        },
        SocketEvent::UpgradeFailed => socket_fail(INTERNAL_SERVER_ERROR),
        SocketEvent::Upgraded => (SocketPhase::Handshaking, SocketAction::Handshake),
        SocketEvent::HandshakeFailed => socket_fail(BAD_GATEWAY),
        SocketEvent::HandshakeDone => (SocketPhase::Sending, SocketAction::SendRequest),
        SocketEvent::SendFailed => socket_fail(BAD_GATEWAY),
        SocketEvent::ReplyReceived => (SocketPhase::Done, SocketAction::Respond),
    }
}

/// One step of sending a client's request through a socket: from the phase
/// and what its outside work came to, the next phase and what to do.
pub fn socket_step(phase: SocketPhase, event: SocketEvent) -> (r: (SocketPhase, SocketAction))
    requires
        socket_event_fits(phase, event),
    ensures
        r == socket_step_spec(event),
{
    match event {
        SocketEvent::PostFailed => (SocketPhase::Done, SocketAction::Fail(MyStatusCode::from_status(BAD_GATEWAY))),
        SocketEvent::Answered { status } => match check_socket_opened(status) {
            Ok(()) => (SocketPhase::Upgrading, SocketAction::Upgrade),
            Err(c) => (SocketPhase::Done, SocketAction::Fail(c)),
        },
        SocketEvent::UpgradeFailed => (
            SocketPhase::Done,
            SocketAction::Fail(MyStatusCode::from_status(INTERNAL_SERVER_ERROR)),
        ),
        SocketEvent::Upgraded => (SocketPhase::Handshaking, SocketAction::Handshake),
        SocketEvent::HandshakeFailed => (SocketPhase::Done, SocketAction::Fail(MyStatusCode::from_status(BAD_GATEWAY))),
        SocketEvent::HandshakeDone => (SocketPhase::Sending, SocketAction::SendRequest),
        SocketEvent::SendFailed => (SocketPhase::Done, SocketAction::Fail(MyStatusCode::from_status(BAD_GATEWAY))),
        SocketEvent::ReplyReceived => (SocketPhase::Done, SocketAction::Respond),
    }
}

/// The order of sending through a socket: the client's request is sent on
/// only after the proxy answered `101`, the upgrade succeeded and the
/// handshake succeeded; every mishap is answered with an HTTP status (`502`
/// for a failed request for a socket, a failed handshake or a failed send,
/// the proxy's own status for an answer other than `101`, `500` for a failed
/// upgrade) and ends it, after which no event is taken.
pub proof fn law_socket_relay_order(phase: SocketPhase, event: SocketEvent)
    requires
        socket_event_fits(phase, event),
    ensures
        socket_step_spec(event).1 == SocketAction::SendRequest <==> (phase
            == SocketPhase::Handshaking && event == SocketEvent::HandshakeDone),
        socket_step_spec(event).1 == SocketAction::Handshake <==> (phase == SocketPhase::Upgrading
            && event == SocketEvent::Upgraded),
        socket_step_spec(event).1 == SocketAction::Upgrade <==> (phase == SocketPhase::Opening
            && event == (SocketEvent::Answered { status: SWITCHING_PROTOCOLS })),
        event == SocketEvent::PostFailed ==> socket_step_spec(event) == socket_fail(BAD_GATEWAY),
        (event matches SocketEvent::Answered { status } && status != SWITCHING_PROTOCOLS)
            ==> socket_step_spec(event) == socket_fail(event->status),
        event == SocketEvent::UpgradeFailed ==> socket_step_spec(event) == socket_fail(
            INTERNAL_SERVER_ERROR,
        ),
        event == SocketEvent::HandshakeFailed ==> socket_step_spec(event) == socket_fail(BAD_GATEWAY),
        event == SocketEvent::SendFailed ==> socket_step_spec(event) == socket_fail(BAD_GATEWAY),
        socket_step_spec(event).1 is Fail ==> socket_step_spec(event).0 == SocketPhase::Done,
        forall|e: SocketEvent| !socket_event_fits(SocketPhase::Done, e),
{
}

/// What the socket task poller does after a failed poll.
#[derive(Debug, Clone, Copy, PartialEq, Eq, Structural)]
pub enum PollAction {
    /// Stop polling: the requests cannot even be built, the configuration
    /// is wrong.
    Stop,
    /// Poll again at once (the ordinary timeout).
    PollAgain,
    /// Wait ten seconds, then poll again.
    PollAfterPause,
}

/// Decides how the poller goes on after `e`.
pub fn poll_error_action(e: &BeamConnectError) -> (r: PollAction)
    ensures
        e is HyperBuildError ==> r == PollAction::Stop,
        e is ProxyTimeoutError ==> r == PollAction::PollAgain,
        !(e is HyperBuildError) && !(e is ProxyTimeoutError) ==> r == PollAction::PollAfterPause,
{
    match e {
        BeamConnectError::HyperBuildError(_) => PollAction::Stop,
        BeamConnectError::ProxyTimeoutError => PollAction::PollAgain,
        _ => PollAction::PollAfterPause,
    }
}

// ---------------------------------------------------------------------------
// Serving each socket task once
/// A listed socket task: its id (as a 128-bit number) and who asked for it.
#[derive(Debug)]
pub struct SocketTaskInfo {
    pub id: u128,
    pub from: AppOrProxyId,
}

impl View for SocketTaskInfo {
    type V = (u128, IdView);

    open spec fn view(&self) -> (u128, IdView) {
        (self.id, self.from@)
    }
}

/// The ids of the given tasks.
pub open spec fn task_ids(tasks: Seq<(u128, IdView)>) -> Set<u128>
    decreases tasks.len(),
{
    if tasks.len() == 0 {
        Set::empty()
    } else {
        task_ids(tasks.drop_last()).insert(tasks.last().0)
    }
}

/// The tasks to serve, in order, with the application to serve each for: a
/// task is served where its id was seen neither before nor earlier in the
/// list, and it comes from an application.
pub open spec fn picks(seen: Set<u128>, tasks: Seq<(u128, IdView)>) -> Seq<(int, Seq<char>)>
    decreases tasks.len(),
{
    if tasks.len() == 0 {
        Seq::empty()
    } else {
        let before = tasks.drop_last();
        let p = picks(seen, before);
        let last = tasks.last();
        if !seen.union(task_ids(before)).contains(last.0) && last.1 is App {
            p.push((tasks.len() - 1, last.1->App_0))
        } else {
            p
        }
    }
}

/// The ids of the socket tasks already taken up.
#[derive(Debug)]
pub struct SeenTasks {
    seen: HashSet<u128>,
}

impl View for SeenTasks {
    type V = Set<u128>;

    closed spec fn view(&self) -> Set<u128> {
        self.seen@
    }
}

impl SeenTasks {
    pub fn new() -> (r: SeenTasks)
        ensures
            r@ == Set::<u128>::empty(),
    {
        SeenTasks { seen: HashSet::new() }
    }

    /// Takes note of a listed batch of tasks and says which to serve (by
    /// their place in the batch) and for which application.
    pub fn select_new_tasks(&mut self, tasks: &Vec<SocketTaskInfo>) -> (r: Vec<(usize, AppId)>)
        ensures
            final(self)@ == old(self)@.union(task_ids(tasks@.map_values(|t: SocketTaskInfo| t@))),
            r@.map_values(|p: (usize, AppId)| (p.0 as int, p.1@)) == picks(
                old(self)@,
                tasks@.map_values(|t: SocketTaskInfo| t@),
            ),
    {
        broadcast use vstd::std_specs::hash::group_hash_axioms;

        let ghost ts = tasks@.map_values(|t: SocketTaskInfo| t@);
        let ghost start = self@;
        let mut out: Vec<(usize, AppId)> = Vec::new();
        let mut i: usize = 0;
        assert(ts.take(0) =~= Seq::<(u128, IdView)>::empty());
        assert(start.union(Set::<u128>::empty()) =~= start);
        while i < tasks.len()
            invariant
                i <= tasks@.len(),
                ts == tasks@.map_values(|t: SocketTaskInfo| t@),
                self@ == start.union(task_ids(ts.take(i as int))),
                out@.map_values(|p: (usize, AppId)| (p.0 as int, p.1@)) == picks(
                    start,
                    ts.take(i as int),
                ),
            decreases tasks@.len() - i,
        {
            let ghost pre = ts.take(i as int);
            let ghost now = ts.take(i + 1);
            assert(now.drop_last() =~= pre);
            assert(now.last() == tasks@[i as int]@);
            let t = &tasks[i];
            let fresh = !self.seen.contains(&t.id);
            self.seen.insert(t.id);
            assert(self@ =~= start.union(task_ids(now)));
            if fresh {
                match &t.from {
                    AppOrProxyId::App(app) => {
                        out.push((i, app.clone()));
                    },
                    AppOrProxyId::Proxy(_) => {},
                }
            }
            assert(out@.map_values(|p: (usize, AppId)| (p.0 as int, p.1@)) =~= picks(start, now));
            i = i + 1;
        }
        assert(ts.take(tasks@.len() as int) =~= ts);
        out
    }
}

proof fn lemma_no_picks_when_all_seen(seen: Set<u128>, tasks: Seq<(u128, IdView)>)
    requires
        task_ids(tasks).subset_of(seen),
    ensures
        picks(seen, tasks) == Seq::<(int, Seq<char>)>::empty(),
    decreases tasks.len(),
{
    if tasks.len() > 0 {
        let before = tasks.drop_last();
        assert(task_ids(before).subset_of(task_ids(tasks)));
        lemma_no_picks_when_all_seen(seen, before);
        assert(task_ids(tasks).contains(tasks.last().0));
    }
}

/// A socket task is served at most once: once a batch has been taken up,
/// listing the same tasks again serves none of them.
pub proof fn law_socket_task_served_once(seen: Set<u128>, tasks: Seq<(u128, IdView)>)
    ensures
        picks(seen.union(task_ids(tasks)), tasks) == Seq::<(int, Seq<char>)>::empty(),
{
    lemma_no_picks_when_all_seen(seen.union(task_ids(tasks)), tasks);
}

/// The ids seen after the batches `polls`, listed one poll after another,
/// have been taken up starting from `seen`.
pub open spec fn seen_after(seen: Set<u128>, polls: Seq<Seq<(u128, IdView)>>) -> Set<u128>
    decreases polls.len(),
{
    if polls.len() == 0 {
        seen
    } else {
        seen_after(seen, polls.drop_last()).union(task_ids(polls.last()))
    }
}

/// The tasks served, in order, over the batches `polls` listed one poll after
/// another, starting from the ids `seen`.
pub open spec fn served(seen: Set<u128>, polls: Seq<Seq<(u128, IdView)>>) -> Seq<(u128, IdView)>
    decreases polls.len(),
{
    if polls.len() == 0 {
        Seq::empty()
    } else {
        let before = polls.drop_last();
        let b = polls.last();
        served(seen, before) + picks(seen_after(seen, before), b).map_values(
            |p: (int, Seq<char>)| b[p.0],
        )
    }
}

proof fn lemma_task_ids_contains(tasks: Seq<(u128, IdView)>)
    ensures
        forall|i: int| 0 <= i < tasks.len() ==> task_ids(tasks).contains(#[trigger] tasks[i].0),
    decreases tasks.len(),
{
    if tasks.len() > 0 {
        let before = tasks.drop_last();
        lemma_task_ids_contains(before);
        assert forall|i: int| 0 <= i < tasks.len() implies task_ids(tasks).contains(
            #[trigger] tasks[i].0,
        ) by {
            if i < tasks.len() - 1 {
                assert(tasks[i] == before[i]);
            }
        }
    }
}

/// Each pick names a task of the batch, from an application, whose id was not
/// seen before; no id is picked twice.
proof fn lemma_picks(seen: Set<u128>, tasks: Seq<(u128, IdView)>)
    ensures
        forall|k: int|
            0 <= k < picks(seen, tasks).len() ==> {
                let p = #[trigger] picks(seen, tasks)[k];
                &&& 0 <= p.0 < tasks.len()
                &&& tasks[p.0].1 == IdView::App(p.1)
                &&& !seen.contains(tasks[p.0].0)
            },
        forall|k: int, l: int|
            0 <= k < l < picks(seen, tasks).len() ==> tasks[#[trigger] picks(seen, tasks)[k].0].0
                != tasks[#[trigger] picks(seen, tasks)[l].0].0,
    decreases tasks.len(),
{
    if tasks.len() > 0 {
        let before = tasks.drop_last();
        let p = picks(seen, before);
        lemma_picks(seen, before);
        lemma_task_ids_contains(before);
        assert forall|k: int| 0 <= k < p.len() implies tasks[p[k].0] == before[p[k].0] by {}
        let last = tasks.last();
        if !seen.union(task_ids(before)).contains(last.0) && last.1 is App {
            let q = p.push((tasks.len() - 1, last.1->App_0));
            assert(picks(seen, tasks) == q);
            assert forall|k: int, l: int| 0 <= k < l < q.len() implies tasks[#[trigger] q[k].0].0
                != tasks[#[trigger] q[l].0].0 by {
                if l == q.len() - 1 {
                    assert(task_ids(before).contains(before[p[k].0].0));
                } else {
                    assert(p[k] == q[k] && p[l] == q[l]);
                }
            }
            assert forall|k: int| 0 <= k < q.len() implies {
                let e = #[trigger] q[k];
                &&& 0 <= e.0 < tasks.len()
                &&& tasks[e.0].1 == IdView::App(e.1)
                &&& !seen.contains(tasks[e.0].0)
            } by {
                if k < p.len() {
                    assert(p[k] == q[k]);
                }
            }
        }
    }
}

proof fn lemma_served(seen: Set<u128>, polls: Seq<Seq<(u128, IdView)>>)
    ensures
        seen.subset_of(seen_after(seen, polls)),
        forall|i: int|
            0 <= i < served(seen, polls).len() ==> {
                let t = #[trigger] served(seen, polls)[i];
                &&& t.1 is App
                &&& !seen.contains(t.0)
                &&& seen_after(seen, polls).contains(t.0)
            },
        forall|i: int, j: int|
            0 <= i < j < served(seen, polls).len() ==> #[trigger] served(seen, polls)[i].0
                != #[trigger] served(seen, polls)[j].0,
    decreases polls.len(),
{
    if polls.len() > 0 {
        let before = polls.drop_last();
        let b = polls.last();
        let s0 = seen_after(seen, before);
        lemma_served(seen, before);
        lemma_picks(s0, b);
        lemma_task_ids_contains(b);
        let old_part = served(seen, before);
        let ps = picks(s0, b);
        let new_part = ps.map_values(|p: (int, Seq<char>)| b[p.0]);
        let all = served(seen, polls);
        assert(all == old_part + new_part);
        assert forall|i: int| 0 <= i < all.len() implies {
            let t = #[trigger] all[i];
            &&& t.1 is App
            &&& !seen.contains(t.0)
            &&& seen_after(seen, polls).contains(t.0)
        } by {
            if i < old_part.len() {
                assert(all[i] == old_part[i]);
            } else {
                let k = i - old_part.len();
                assert(all[i] == new_part[k]);
                assert(new_part[k] == b[ps[k].0]);
                assert(task_ids(b).contains(b[ps[k].0].0));
            }
        }
        assert forall|i: int, j: int| 0 <= i < j < all.len() implies #[trigger] all[i].0
            != #[trigger] all[j].0 by {
            if j < old_part.len() {
                assert(all[i] == old_part[i] && all[j] == old_part[j]);
            } else if i < old_part.len() {
                let l = j - old_part.len();
                assert(all[i] == old_part[i]);
                assert(all[j] == new_part[l]);
                assert(new_part[l] == b[ps[l].0]);
                assert(s0.contains(old_part[i].0));
            } else {
                let k = i - old_part.len();
                let l = j - old_part.len();
                assert(all[i] == new_part[k] && all[j] == new_part[l]);
                assert(new_part[k] == b[ps[k].0] && new_part[l] == b[ps[l].0]);
            }
        }
    }
}

/// Over any run of polls, each socket task is served at most once, never for
/// a task whose id was taken up before the run, and never for a proxy: the
/// tasks served carry distinct ids, none of them in `seen`, each asked for by
/// an application.
pub proof fn law_socket_tasks_over_polls(seen: Set<u128>, polls: Seq<Seq<(u128, IdView)>>)
    ensures
        forall|i: int, j: int|
            0 <= i < j < served(seen, polls).len() ==> #[trigger] served(seen, polls)[i].0
                != #[trigger] served(seen, polls)[j].0,
        forall|i: int|
            0 <= i < served(seen, polls).len() ==> !seen.contains(
                (#[trigger] served(seen, polls)[i]).0,
            ) && served(seen, polls)[i].1 is App,
{
    lemma_served(seen, polls);
}

// ---------------------------------------------------------------------------
// Requests arriving through a socket
/// What becomes of a request that arrives through a socket from `app`: it
/// needs a local target (else `400`) that admits `app` (else `401`); its URI
/// is rewritten for the target (else `500`).
pub open spec fn socket_request_spec(app: Seq<char>, uri: UriView, entries: Seq<LocalEntryView>) -> Result<
    Seq<char>,
    u16,
> {
    match local_entry_for(entries, uri) {
        None => Err(BAD_REQUEST),
        Some(e) => if !allow_list_admits(e.allowed, app) {
            Err(UNAUTHORIZED)
        } else {
            let scheme = if e.force_https {
                Some(seq!['h', 't', 't', 'p', 's'])
            } else {
                uri.scheme
            };
            let pq = match e.replace.path {
                Some(p) => Some(
                    seq!['/'] + p + match uri.path_and_query {
                        Some(q) => q,
                        None => Seq::<char>::empty(),
                    },
                ),
                None => uri.path_and_query,
            };
            match uri_from_parts(scheme, Some(e.replace.authority), pq) {
                None => Err(INTERNAL_SERVER_ERROR),
                Some(u) => Ok(u),
            }
        },
    }
}

/// A request admitted through a socket always goes to its local target's
/// replacement authority, whether or not the target has a replacement path:
/// the URI handed on is `http`'s URI of the request's scheme (or `https`
/// where the target forces it), the target's authority, and the request's
/// path-and-query (behind the replacement path, where there is one).
pub proof fn law_socket_request_goes_to_target(app: Seq<char>, uri: UriView, entries: Seq<LocalEntryView>)
    ensures
        socket_request_spec(app, uri, entries) matches Ok(u) ==> (local_entry_for(entries, uri)
            matches Some(e) && allow_list_admits(e.allowed, app) && Some(u) == uri_from_parts(
            if e.force_https {
                Some(seq!['h', 't', 't', 'p', 's'])
            } else {
                uri.scheme
            },
            Some(e.replace.authority),
            match e.replace.path {
                None => uri.path_and_query,
                Some(p) => Some(
                    seq!['/'] + p + match uri.path_and_query {
                        Some(q) => q,
                        None => Seq::<char>::empty(),
                    },
                ),
            },
        )),
{
}

/// A socket request that no local target serves is answered `400`; one from
/// an application the target's allow list does not admit, `401`.
pub proof fn law_socket_request_refusals(app: Seq<char>, uri: UriView, entries: Seq<LocalEntryView>)
    ensures
        socket_request_spec(app, uri, entries) == Err::<Seq<char>, u16>(BAD_REQUEST) <==> local_entry_for(
            entries,
            uri,
        ) is None,
        socket_request_spec(app, uri, entries) == Err::<Seq<char>, u16>(UNAUTHORIZED) <==> (
        local_entry_for(entries, uri) matches Some(e) && !allow_list_admits(e.allowed, app)),
{
}

/// Checks and rewrites a request that arrived through a socket from `app`
/// (see [`socket_request_spec`]); the requesting connector always sets the
/// authority, which `requires` asks for.
pub fn execute_socket_request(app: &AppId, uri: &UriParts, targets: &LocalMapping) -> (r: Result<
    String,
    MyStatusCode,
>)
    requires
        uri.authority is Some,
    ensures
        socket_request_spec(app@, uri@, targets@) matches Ok(u) ==> (r matches Ok(t) && t@ == u),
        socket_request_spec(app@, uri@, targets@) matches Err(c) ==> (r matches Err(s) && s.code
            == c),
{
    let target = match targets.get(uri) {
        None => {
            return Err(MyStatusCode::from_status(BAD_REQUEST));
        },
        Some(t) => t,
    };
    if !target.can_be_accessed_by(app) {
        return Err(MyStatusCode::from_status(UNAUTHORIZED));
    }
    proof {
        reveal_strlit("https");
        reveal_strlit("/");
        assert("https"@ =~= seq!['h', 't', 't', 'p', 's']);
        assert("/"@ =~= seq!['/']);
    }
    let scheme: Option<&str> = if target.force_https {
        Some("https")
    } else {
        match &uri.scheme {
            Some(s) => Some(s.as_str()),
            None => None,
        }
    };
    let pq: Option<String> = match &target.replace.path {
        Some(path) => {
            let mut t = concat("/", path.as_str());
            match &uri.path_and_query {
                Some(q) => t.append(q.as_str()),
                None => {},
            }
            Some(t)
        },
        None => match &uri.path_and_query {
            Some(q) => Some(q.clone()),
            None => None,
        },
    };
    let pq_ref: Option<&str> = match &pq {
        Some(p) => Some(p.as_str()),
        None => None,
    };
    match build_uri(scheme, Some(target.replace.authority.as_str()), pq_ref) {
        None => Err(MyStatusCode::from_status(INTERNAL_SERVER_ERROR)),
        Some(u) => Ok(u),
    }
}

} // verus!
