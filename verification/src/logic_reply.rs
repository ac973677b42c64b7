//! The answering side: tasks fetched from the proxy are checked against the
//! local targets, rewritten for the internal host, and their outcome is
//! reported back.
use vstd::prelude::*;
use crate::config::{allow_list_admits, local_entry_for, LocalEntryView, LocalMapping};
use crate::errors::BeamConnectError;
use crate::ids::{AppOrProxyId, IdView};
use crate::logic_ask::WorkStatus;
use crate::structs::{
    status_display, status_text, CREATED, GATEWAY_TIMEOUT, INTERNAL_SERVER_ERROR, NO_CONTENT, OK,
    UNAUTHORIZED,
};
use crate::text::concat;
use crate::uri::{
    authority_uri_built, build_authority_only, build_with_builder, path_and_query_display, uri_built,
    UriParts, UriView,
};

verus! {

/// How a task's request is sent on: to `uri`, and without its `Host` header
/// where `reset_host`.
#[derive(Debug)]
pub struct ExecutePlan {
    pub uri: String,
    pub reset_host: bool,
}

/// What becomes of a task.
pub enum ExecOutcome {
    Execute { uri: Seq<char>, reset_host: bool },
    NoLocalMapping,
    NotAuthorized,
    BuildFailed { error: Seq<char> },
}

pub open spec fn https_text() -> Seq<char> {
    seq!['h', 't', 't', 'p', 's']
}

/// The scheme of the rewritten URI for a URI with scheme `s`.
pub open spec fn target_scheme(e: LocalEntryView, s: Seq<char>) -> Seq<char> {
    if e.force_https {
        https_text()
    } else {
        s
    }
}

/// The path-and-query of the rewritten URI: the target's path in front of
/// the request's, where the target has one.
pub open spec fn target_path_and_query(e: LocalEntryView, pq: Seq<char>) -> Seq<char> {
    match e.replace.path {
        Some(p) => seq!['/'] + p + path_and_query_display(pq),
        None => pq,
    }
}

/// What becomes of a task from `from` for the URL `url`, given the local
/// targets: it must have a local target, come from an application that the
/// target admits, and its URI is rewritten for the target's replacement.
pub open spec fn execute_spec(from: IdView, url: UriView, entries: Seq<LocalEntryView>) -> ExecOutcome {
    match local_entry_for(entries, url) {
        None => ExecOutcome::NoLocalMapping,
        Some(e) => if !(from matches IdView::App(app) && allow_list_admits(e.allowed, app)) {
            ExecOutcome::NotAuthorized
        } else {
            let built = match url.scheme {
                Some(s) => {
                    let pq = match url.path_and_query {
                        Some(p) => p,
                        None => Seq::empty(),
                    };
                    uri_built(target_scheme(e, s), e.replace.authority, target_path_and_query(e, pq))
                },
                None => authority_uri_built(e.replace.authority),
            };
            match built {
                Err(error) => ExecOutcome::BuildFailed { error },
                Ok(u) => ExecOutcome::Execute { uri: u, reset_host: e.reset_host },
            }
        },
    }
}

/// Checks a task from `from` for the URL `url` (whose text is `url_text`)
/// and plans its execution (see [`execute_spec`]).
pub fn execute_http_task(from: &AppOrProxyId, url: &UriParts, url_text: &str, targets: &LocalMapping) -> (r:
    Result<ExecutePlan, BeamConnectError>)
    ensures
        execute_spec(from@, url@, targets@) matches ExecOutcome::Execute { uri, reset_host } ==> (
        r matches Ok(p) && p.uri@ == uri && p.reset_host == reset_host),
        execute_spec(from@, url@, targets@) is NoLocalMapping ==> (r matches Err(
            BeamConnectError::NoLocalMapping(t),
        ) && t@ == url_text@),
        execute_spec(from@, url@, targets@) is NotAuthorized ==> (r matches Err(
            BeamConnectError::IdNotAuthorizedToAccessUrl(id, t),
        ) && id@ == from@ && t@ == url_text@),
        execute_spec(from@, url@, targets@) matches ExecOutcome::BuildFailed { error } ==> (
        r matches Err(BeamConnectError::HyperBuildError(t)) && t@ == error),
{
    let target = match targets.get(url) {
        None => {
            return Err(BeamConnectError::NoLocalMapping(url_text.to_owned()));
        },
        Some(t) => t,
    };
    let admitted = match from {
        AppOrProxyId::App(app) => target.can_be_accessed_by(app),
        AppOrProxyId::Proxy(_) => false,
    };
    if !admitted {
        return Err(BeamConnectError::IdNotAuthorizedToAccessUrl(from.clone(), url_text.to_owned()));
    }
    let authority = target.replace.authority.as_str();
    let built = match &url.scheme {
        Some(s) => {
            let scheme: &str = if target.force_https {
                "https"
            } else {
                s.as_str()
            };
            proof {
                reveal_strlit("https");
                assert(scheme@ =~= target_scheme(target@, s@));
            }
            let pq: String = match &url.path_and_query {
                Some(p) => p.clone(),
                None => String::new(),
            };
            assert(pq@ == (match url@.path_and_query {
                Some(p) => p,
                None => Seq::<char>::empty(),
            }));
            let new_pq: String = match &target.replace.path {
                Some(path) => {
                    let mut t = concat("/", path.as_str());
                    let shown = display_path_and_query(pq.as_str());
                    t.append(shown.as_str());
                    proof {
                        reveal_strlit("/");
                        assert("/"@ =~= seq!['/']);
                        assert(t@ =~= target_path_and_query(target@, pq@));
                    }
                    t
                },
                None => pq,
            };
            build_with_builder(scheme, authority, new_pq.as_str())
        },
        None => build_authority_only(authority),
    };
    match built {
        Err(e) => Err(BeamConnectError::HyperBuildError(e)),
        Ok(u) => Ok(ExecutePlan { uri: u, reset_host: target.reset_host }),
    }
}

/// How `PathAndQuery` writes itself, given its `as_str` text.
pub fn display_path_and_query(pq: &str) -> (r: String)
    ensures
        r@ == path_and_query_display(pq@),
{
    let cs = crate::text::chars_of(pq);
    if cs.len() > 0 && (cs[0] == '/' || cs[0] == '*') {
        pq.to_owned()
    } else {
        proof {
            reveal_strlit("/");
        }
        concat("/", pq)
    }
}

/// A task admitted by its local target is sent to the target's internal
/// host, its path and query kept: without a replacement path the task URL's
/// path-and-query travels unchanged (the empty one where it has none); with
/// one, the replacement path is put in front of it. The scheme is the task
/// URL's, or `https` where the target forces it; a task URL without scheme
/// becomes the bare authority. A URI that `http` refuses ends the task with
/// `http`'s error.
pub proof fn law_execute_keeps_path_and_query(
    from: IdView,
    url: UriView,
    entries: Seq<LocalEntryView>,
    e: LocalEntryView,
    app: Seq<char>,
)
    requires
        local_entry_for(entries, url) == Some(e),
        from == IdView::App(app),
        allow_list_admits(e.allowed, app),
    ensures
        url.scheme matches Some(s) ==> execute_spec(from, url, entries) == match uri_built(
            if e.force_https {
                seq!['h', 't', 't', 'p', 's']
            } else {
                s
            },
            e.replace.authority,
            match e.replace.path {
                None => match url.path_and_query {
                    Some(q) => q,
                    None => Seq::empty(),
                },
                Some(p) => seq!['/'] + p + path_and_query_display(
                    match url.path_and_query {
                        Some(q) => q,
                        None => Seq::empty(),
                    },
                ),
            },
        ) {
            Ok(u) => ExecOutcome::Execute { uri: u, reset_host: e.reset_host },
            Err(error) => ExecOutcome::BuildFailed { error },
        },
        url.scheme is None ==> execute_spec(from, url, entries) == match authority_uri_built(
            e.replace.authority,
        ) {
            Ok(u) => ExecOutcome::Execute { uri: u, reset_host: e.reset_host },
            Err(error) => ExecOutcome::BuildFailed { error },
        },
{
}

/// A task whose URL no local target serves is refused as unmapped; one from
/// a proxy, or from an application the target's allow list does not admit,
/// is refused as not authorized.
pub proof fn law_execute_refusals(from: IdView, url: UriView, entries: Seq<LocalEntryView>)
    ensures
        (execute_spec(from, url, entries) is NoLocalMapping) <==> local_entry_for(entries, url) is None,
        (execute_spec(from, url, entries) is NotAuthorized) <==> (local_entry_for(entries, url) matches Some(
            e,
        ) && !(from matches IdView::App(app) && allow_list_admits(e.allowed, app))),
{
}

/// A task is executed only for an application that the local target's
/// allow list admits, and only against that target's replacement authority.
pub proof fn law_execute_only_allowed(from: IdView, url: UriView, entries: Seq<LocalEntryView>)
    ensures
        execute_spec(from, url, entries) is Execute ==> (from matches IdView::App(app) && (
        local_entry_for(entries, url) matches Some(e) && allow_list_admits(e.allowed, app))),
        execute_spec(from, url, entries) matches ExecOutcome::Execute { uri, .. } ==> (
        local_entry_for(entries, url) matches Some(e) && (authority_uri_built(e.replace.authority)
            == Ok::<Seq<char>, Seq<char>>(uri) || exists|scheme: Seq<char>, pq: Seq<char>|
            uri_built(scheme, e.replace.authority, pq) == Ok::<Seq<char>, Seq<char>>(uri))),
{
    if execute_spec(from, url, entries) is Execute {
        let e = local_entry_for(entries, url)->Some_0;
        match url.scheme {
            Some(s) => {
                let pq = match url.path_and_query {
                    Some(p) => p,
                    None => Seq::empty(),
                };
                let sc = target_scheme(e, s);
                let q = target_path_and_query(e, pq);
                assert(uri_built(sc, e.replace.authority, q) is Ok);
            },
            None => {
                assert(authority_uri_built(e.replace.authority) is Ok);
            },
        }
    }
}

// ---------------------------------------------------------------------------
// Talking to the proxy
/// Where open tasks for this connector are fetched:
/// `<proxy>v1/tasks?to=<app id>&wait_count=1&filter=todo`.
pub fn fetch_tasks_url(proxy_url: &str, my_app_id: &str) -> (r: String)
    ensures
        r@ == proxy_url@ + "v1/tasks?to="@ + my_app_id@ + "&wait_count=1&filter=todo"@,
{
    let mut s = concat(proxy_url, "v1/tasks?to=");
    s.append(my_app_id);
    s.append("&wait_count=1&filter=todo");
    s
}

/// Where a task's result (or claim) is put:
/// `<proxy>v1/tasks/<task id>/results/<app id>`.
pub fn task_result_url(proxy_url: &str, task_id: &str, my_app_id: &str) -> (r: String)
    ensures
        r@ == proxy_url@ + "v1/tasks/"@ + task_id@ + "/results/"@ + my_app_id@,
{
    let mut s = concat(proxy_url, "v1/tasks/");
    s.append(task_id);
    s.append("/results/");
    s.append(my_app_id);
    s
}

/// The proxy's answer to fetching tasks: `200 OK` brings them, `504` is the
/// ordinary timeout, `401` a rejected authorization, anything else a failure
/// that names the status.
pub fn check_fetch_status(status: u16) -> (r: Result<(), BeamConnectError>)
    requires
        100 <= status <= 999,
    ensures
        status == OK ==> r is Ok,
        status == GATEWAY_TIMEOUT ==> r matches Err(BeamConnectError::ProxyTimeoutError),
        status == UNAUTHORIZED ==> r matches Err(BeamConnectError::ProxyRejectedAuthorization),
        (status != OK && status != GATEWAY_TIMEOUT && status != UNAUTHORIZED) ==> (r matches Err(
            BeamConnectError::ProxyOtherError(t),
        ) && t@ == "Got response code "@ + status_display(status)),
{
    if status == OK {
        Ok(())
    } else if status == GATEWAY_TIMEOUT {
        Err(BeamConnectError::ProxyTimeoutError)
    } else if status == UNAUTHORIZED {
        Err(BeamConnectError::ProxyRejectedAuthorization)
    } else {
        let shown = status_text(status);
        Err(BeamConnectError::ProxyOtherError(concat("Got response code ", shown.as_str())))
    }
}

/// The proxy's answer to a claim or result: `201 Created` or `204 No
/// Content` accept it; anything else is a failure that names the status.
pub fn check_submit_status(status: u16) -> (r: Result<(), BeamConnectError>)
    requires
        100 <= status <= 999,
    ensures
        (status == CREATED || status == NO_CONTENT) ==> r is Ok,
        !(status == CREATED || status == NO_CONTENT) ==> (r matches Err(
            BeamConnectError::ProxyOtherError(t),
        ) && t@ == "Got error code "@ + status_display(status) + " trying to submit our result."@),
{
    if status == CREATED || status == NO_CONTENT {
        Ok(())
    } else {
        let shown = status_text(status);
        let mut t = concat("Got error code ", shown.as_str());
        t.append(" trying to submit our result.");
        Err(BeamConnectError::ProxyOtherError(t))
    }
}

/// How a task's outcome is reported: a request that reached the target
/// succeeded (whatever its status), one that did not failed for good.
pub fn reply_work_status(executed: bool) -> (r: WorkStatus)
    ensures
        executed ==> r == WorkStatus::Succeeded,
        !executed ==> r == WorkStatus::PermFailed,
{
    if executed {
        WorkStatus::Succeeded
    } else {
        WorkStatus::PermFailed
    }
}

/// The body reported for a task that could not be executed.
fn failure_reply_body() -> (r: Vec<u8>)
    ensures
        r@ == "Error executing http task. See beam connect logs"@.map_values(|c: char| c as u8),
{
    let text = "Error executing http task. See beam connect logs";
    proof {
        reveal_strlit("Error executing http task. See beam connect logs");
    }
    let cs = crate::text::chars_of(text);
    let mut out: Vec<u8> = Vec::new();
    let mut i: usize = 0;
    while i < cs.len()
        invariant
            cs@ == text@,
            i <= cs@.len(),
            forall|k: int| 0 <= k < cs@.len() ==> (cs@[k] as u32) < 128,
            out@ == cs@.take(i as int).map_values(|c: char| c as u8),
        decreases cs@.len() - i,
    {
        out.push(cs[i] as u8);
        assert(out@ =~= cs@.take(i + 1).map_values(|c: char| c as u8));
        i = i + 1;
    }
    assert(cs@.take(cs@.len() as int) =~= cs@);
    out
}

/// The parts of a reply reported for a task: its status, its headers (name
/// and value) and its body.
#[derive(Debug)]
pub struct ReplyParts {
    pub status: u16,
    pub headers: Vec<(String, String)>,
    pub body: Vec<u8>,
}

/// The reply reported for a task that could not be executed: `500 Internal
/// Server Error`, no headers, and a body that points to the relay's log.
pub fn failure_reply() -> (r: ReplyParts)
    ensures
        r.status == INTERNAL_SERVER_ERROR,
        r.headers@.len() == 0,
        r.body@ == "Error executing http task. See beam connect logs"@.map_values(|c: char| c as u8),
{
    ReplyParts { status: INTERNAL_SERVER_ERROR, headers: Vec::new(), body: failure_reply_body() }
}

} // verus!
