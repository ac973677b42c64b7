//! The asking side: a local client's request for a virtual host is checked,
//! routed to the remote connector that serves the host, and the remote
//! reply is checked before it is handed back.
use vstd::prelude::*;
use crate::config::{site_for, CentralMapping, SiteView};
use crate::ids::AppId;
use crate::structs::{
    MyStatusCode, BAD_GATEWAY, BAD_REQUEST, CREATED, GATEWAY_TIMEOUT, INTERNAL_SERVER_ERROR, OK,
    PARTIAL_CONTENT, PROXY_AUTHENTICATION_REQUIRED, UNAUTHORIZED,
};
use crate::text::{
    concat, decimal_string, eq_ignore_ascii_case, opt_string, parse_unsigned_spec, u64_to_string,
};
use crate::uri::{authority_parses, build_uri, uri_from_parts, Authority, UriParts, UriView};

verus! {

/// What the relay reads of a client's request: its URI, its `Host` and
/// `X-Replace-Host` headers (where they are readable text), and whether it
/// carries a `Proxy-Authorization` header.
#[derive(Debug)]
pub struct AskRequest {
    pub uri: UriParts,
    pub host: Option<String>,
    pub replace_host: Option<String>,
    pub has_proxy_authorization: bool,
}

pub struct AskView {
    pub uri: UriView,
    pub host: Option<Seq<char>>,
    pub replace_host: Option<Seq<char>>,
    pub has_proxy_authorization: bool,
}

impl View for AskRequest {
    type V = AskView;

    open spec fn view(&self) -> AskView {
        AskView {
            uri: self.uri@,
            host: opt_string(self.host),
            replace_host: opt_string(self.replace_host),
            has_proxy_authorization: self.has_proxy_authorization,
        }
    }
}

/// What becomes of a client's request.
#[derive(Debug)]
pub enum AskDecision {
    /// Answer with the central site discovery.
    Sites,
    /// Answer with this status.
    Reject(MyStatusCode),
    /// Send the request, now for `uri`, to the connector `target`; with the
    /// client's own `Proxy-Authorization` where `auth_from_request`, else with
    /// the relay's own.
    Forward { uri: String, authority: Authority, target: AppId, auth_from_request: bool },
}

pub enum AskOutcome {
    Sites,
    Reject(u16),
    Forward { uri: Seq<char>, authority: Seq<char>, target: Seq<char>, auth_from_request: bool },
}

impl View for AskDecision {
    type V = AskOutcome;

    open spec fn view(&self) -> AskOutcome {
        match self {
            AskDecision::Sites => AskOutcome::Sites,
            AskDecision::Reject(s) => AskOutcome::Reject(s.code),
            AskDecision::Forward { uri, authority, target, auth_from_request } => AskOutcome::Forward {
                uri: uri@,
                authority: authority@,
                target: target@,
                auth_from_request: *auth_from_request,
            },
        }
    }
}

/// The path under which the site discovery is served.
pub open spec fn sites_path() -> Seq<char> {
    seq!['/', 's', 'i', 't', 'e', 's']
}

/// A header's value as an authority, where it is one.
pub open spec fn header_authority(h: Option<Seq<char>>) -> Option<Seq<char>> {
    match h {
        Some(t) => if authority_parses(t) {
            Some(t)
        } else {
            None
        },
        None => None,
    }
}

/// The scheme of the rewritten URI: `https` for a request that came through
/// a terminated TLS connection, else `http`.
pub open spec fn scheme_for(https: Option<Seq<char>>) -> Seq<char> {
    if https is Some {
        seq!['h', 't', 't', 'p', 's']
    } else {
        seq!['h', 't', 't', 'p']
    }
}

/// The authority a request is for: `X-Replace-Host`, else the authority of
/// the TLS connection or of the URI, else `Host`.
pub open spec fn chosen_authority(req: AskView, https: Option<Seq<char>>) -> Option<Seq<char>> {
    let first = match https {
        Some(a) => Some(a),
        None => req.uri.authority,
    };
    match header_authority(req.replace_host) {
        Some(a) => Some(a),
        None => match first {
            Some(a) => Some(a),
            None => header_authority(req.host),
        },
    }
}

/// What becomes of a client's request, given the authority of the TLS
/// connection it came through (if any), whether the relay may speak for
/// unauthenticated clients, and the central site discovery.
pub open spec fn ask_spec(
    req: AskView,
    https: Option<Seq<char>>,
    no_auth: bool,
    sites: Seq<SiteView>,
) -> AskOutcome {
    if https is None && req.uri.authority is None && req.uri.path == sites_path() {
        AskOutcome::Sites
    } else {
        match chosen_authority(req, https) {
            None => AskOutcome::Reject(BAD_REQUEST),
            Some(auth) => if !no_auth && !req.has_proxy_authorization {
                AskOutcome::Reject(PROXY_AUTHENTICATION_REQUIRED)
            } else {
                match site_for(sites, auth) {
                    None => if req.uri.path == sites_path() {
                        AskOutcome::Sites
                    } else {
                        AskOutcome::Reject(UNAUTHORIZED)
                    },
                    Some(site) => match uri_from_parts(
                        Some(scheme_for(https)),
                        Some(auth),
                        req.uri.path_and_query,
                    ) {
                        None => AskOutcome::Reject(INTERNAL_SERVER_ERROR),
                        Some(u) => AskOutcome::Forward {
                            uri: u,
                            authority: auth,
                            target: site.beamconnect,
                            auth_from_request: req.has_proxy_authorization,
                        },
                    },
                }
            },
        }
    }
}

fn header_as_authority(h: &Option<String>) -> (r: Option<Authority>)
    ensures
        r matches Some(a) ==> header_authority(opt_string(*h)) == Some(a@),
        r is None ==> header_authority(opt_string(*h)) is None,
{
    match h {
        Some(t) => Authority::parse(t.as_str()),
        None => None,
    }
}

fn is_sites_path(path: &String) -> (r: bool)
    ensures
        r == (path@ == sites_path()),
{
    proof {
        reveal_strlit("/sites");
    }
    let sites = "/sites";
    assert(sites@ =~= sites_path());
    *path == sites.to_owned()
}

/// Decides what becomes of a client's request (see [`ask_spec`]).
pub fn handler_http(
    req: &AskRequest,
    https_authority: Option<&Authority>,
    no_auth: bool,
    targets: &CentralMapping,
) -> (r: AskDecision)
    ensures
        r@ == ask_spec(
            req@,
            match https_authority {
                Some(a) => Some(a@),
                None => None,
            },
            no_auth,
            targets@,
        ),
{
    let ghost https = match https_authority {
        Some(a) => Some(a@),
        None => None,
    };
    let on_sites_path = is_sites_path(&req.uri.path);
    if https_authority.is_none() && req.uri.authority.is_none() && on_sites_path {
        return AskDecision::Sites;
    }
    let first: Option<Authority> = match https_authority {
        Some(a) => Some(a.clone()),
        None => match &req.uri.authority {
            Some(a) => Some(a.clone()),
            None => None,
        },
    };
    let chosen: Option<Authority> = match header_as_authority(&req.replace_host) {
        Some(a) => Some(a),
        None => match first {
            Some(a) => Some(a),
            None => header_as_authority(&req.host),
        },
    };
    assert(match chosen {
        Some(a) => chosen_authority(req@, https) == Some(a@),
        None => chosen_authority(req@, https) is None,
    });
    let auth = match chosen {
        None => {
            return AskDecision::Reject(MyStatusCode::from_status(BAD_REQUEST));
        },
        Some(a) => a,
    };
    if !no_auth && !req.has_proxy_authorization {
        return AskDecision::Reject(MyStatusCode::from_status(PROXY_AUTHENTICATION_REQUIRED));
    }
    let site = match targets.get(&auth) {
        None => {
            if on_sites_path {
                return AskDecision::Sites;
            } else {
                return AskDecision::Reject(MyStatusCode::from_status(UNAUTHORIZED));
            }
        },
        Some(s) => s,
    };
    let scheme = if https_authority.is_some() {
        "https"
    } else {
        "http"
    };
    proof {
        reveal_strlit("https");
        reveal_strlit("http");
        assert(scheme@ =~= scheme_for(https));
    }
    let pq: Option<&str> = match &req.uri.path_and_query {
        Some(p) => Some(p.as_str()),
        None => None,
    };
    match build_uri(Some(scheme), Some(auth.as_str()), pq) {
        None => AskDecision::Reject(MyStatusCode::from_status(INTERNAL_SERVER_ERROR)),
        Some(u) => AskDecision::Forward {
            uri: u,
            authority: auth,
            target: site.beamconnect.clone(),
            auth_from_request: req.has_proxy_authorization,
        },
    }
}

/// Without `no_auth`, a request without `Proxy-Authorization` is never
/// forwarded: it is answered with `407` (or refused earlier).
pub proof fn law_forward_needs_authorization(req: AskView, https: Option<Seq<char>>, sites: Seq<
    SiteView,
>)
    requires
        !req.has_proxy_authorization,
    ensures
        !(ask_spec(req, https, false, sites) is Forward),
{
}

/// A forwarded request goes to the connector that the site discovery names
/// for the request's authority, and to nobody else.
pub proof fn law_forward_goes_to_named_site(
    req: AskView,
    https: Option<Seq<char>>,
    no_auth: bool,
    sites: Seq<SiteView>,
)
    ensures
        ask_spec(req, https, no_auth, sites) matches AskOutcome::Forward { authority, target, .. }
            ==> (chosen_authority(req, https) == Some(authority) && (site_for(sites, authority)
            matches Some(site) && site.beamconnect == target)),
{
}

/// A forwarded request keeps its path and query, however its authority was
/// found (URI, TLS connection, `Host` or `X-Replace-Host`): the URI handed on
/// is `http`'s URI of `https` (through a terminated TLS connection) or
/// `http`, the chosen authority, and the request's own path-and-query.
pub proof fn law_forward_keeps_path_and_query(
    req: AskView,
    https: Option<Seq<char>>,
    no_auth: bool,
    sites: Seq<SiteView>,
)
    ensures
        ask_spec(req, https, no_auth, sites) matches AskOutcome::Forward { uri, authority, .. }
            ==> Some(uri) == uri_from_parts(
            Some(
                if https is Some {
                    seq!['h', 't', 't', 'p', 's']
                } else {
                    seq!['h', 't', 't', 'p']
                },
            ),
            Some(authority),
            req.uri.path_and_query,
        ),
{
}

/// An `X-Replace-Host` header that holds an authority decides which virtual
/// host a request is for, whatever its URI or `Host` header say.
pub proof fn law_replace_host_wins(req: AskView, https: Option<Seq<char>>)
    requires
        req.replace_host matches Some(h) && authority_parses(h),
    ensures
        chosen_authority(req, https) == req.replace_host,
{
}

/// A request without any authority for the path `/sites` is answered with
/// the site discovery.
pub proof fn law_sites_without_authority(req: AskView, no_auth: bool, sites: Seq<SiteView>)
    requires
        req.uri.authority is None,
        req.uri.path == sites_path(),
    ensures
        ask_spec(req, None, no_auth, sites) is Sites,
{
}

/// The `Via` header that the relay adds to a forwarded request.
pub fn via_header_value(my_app_id: &AppId) -> (r: String)
    ensures
        r@ == "Via: Samply.Beam.Connect/0.1 "@ + my_app_id@,
{
    concat("Via: Samply.Beam.Connect/0.1 ", my_app_id.as_str())
}

// ---------------------------------------------------------------------------
// Relaying through tasks
/// Where a task is posted: `<proxy>v1/tasks`.
pub fn tasks_url(proxy_url: &str) -> (r: String)
    ensures
        r@ == proxy_url@ + "v1/tasks"@,
{
    concat(proxy_url, "v1/tasks")
}

/// Where a task's result is awaited:
/// `<proxy>v1/tasks/<id>/results?wait_count=1&wait_timeout=10000`.
pub fn task_results_url(proxy_url: &str, task_id: &str) -> (r: String)
    ensures
        r@ == proxy_url@ + "v1/tasks/"@ + task_id@ + "/results?wait_count=1&wait_timeout=10000"@,
{
    let mut s = concat(proxy_url, "v1/tasks/");
    s.append(task_id);
    s.append("/results?wait_count=1&wait_timeout=10000");
    s
}

/// How long a task lives: `<expire>s`.
pub fn task_ttl(expire: u64) -> (r: String)
    ensures
        r@ == decimal_string(expire as nat) + seq!['s'],
{
    let mut s = u64_to_string(expire);
    proof {
        reveal_strlit("s");
    }
    s.append("s");
    s
}

/// The proxy must acknowledge a posted task with `201 Created`; anything
/// else is answered with `502 Bad Gateway`.
pub fn check_task_created(status: u16) -> (r: Result<(), MyStatusCode>)
    ensures
        status == CREATED ==> r is Ok,
        status != CREATED ==> r == Err::<(), MyStatusCode>(MyStatusCode { code: BAD_GATEWAY }),
{
    if status != CREATED {
        Err(MyStatusCode::from_status(BAD_GATEWAY))
    } else {
        Ok(())
    }
}

/// The wait for a task's result: `200 OK` brings it, `206 Partial Content`
/// means it timed out (`504 Gateway Timeout`), anything else is answered with
/// `502 Bad Gateway`.
pub fn check_results_status(status: u16) -> (r: Result<(), MyStatusCode>)
    ensures
        status == OK ==> r is Ok,
        status == PARTIAL_CONTENT ==> r == Err::<(), MyStatusCode>(
            MyStatusCode { code: GATEWAY_TIMEOUT },
        ),
        status != OK && status != PARTIAL_CONTENT ==> r == Err::<(), MyStatusCode>(
            MyStatusCode { code: BAD_GATEWAY },
        ),
{
    if status == PARTIAL_CONTENT {
        Err(MyStatusCode::from_status(GATEWAY_TIMEOUT))
    } else if status == OK {
        Ok(())
    } else {
        Err(MyStatusCode::from_status(BAD_GATEWAY))
    }
}

/// How a remote connector ended a task.
#[derive(Debug, Clone, Copy, PartialEq, Eq, Structural)]
pub enum WorkStatus {
    Claimed,
    TempFailed,
    PermFailed,
    Succeeded,
}

/// A task must come back with exactly one result, and that one succeeded;
/// anything else is answered with `502 Bad Gateway`.
pub fn check_task_results(count: usize, first_status: WorkStatus) -> (r: Result<(), MyStatusCode>)
    ensures
        (count == 1 && first_status == WorkStatus::Succeeded) ==> r is Ok,
        !(count == 1 && first_status == WorkStatus::Succeeded) ==> r == Err::<(), MyStatusCode>(
            MyStatusCode { code: BAD_GATEWAY },
        ),
{
    if count != 1 {
        return Err(MyStatusCode::from_status(BAD_GATEWAY));
    }
    match first_status {
        WorkStatus::Succeeded => Ok(()),
        _ => Err(MyStatusCode::from_status(BAD_GATEWAY)),
    }
}

/// The `Content-Length` header of a relayed reply, as read.
#[derive(Debug)]
pub enum ContentLength {
    /// No such header.
    Absent,
    /// The header is not readable text.
    Unreadable,
    /// The header's text.
    Text(String),
}

/// A relayed reply's `Content-Length`, where present, must be readable
/// (else `400 Bad Request`), a number (else `500 Internal Server Error`) and
/// the length of the body (else `500 Internal Server Error`).
pub fn check_content_length(header: &ContentLength, body_len: usize) -> (r: Result<
    (),
    MyStatusCode,
>)
    ensures
        header is Absent ==> r is Ok,
        header is Unreadable ==> r == Err::<(), MyStatusCode>(MyStatusCode { code: BAD_REQUEST }),
        header matches ContentLength::Text(t) ==> (r is Ok <==> parse_unsigned_spec(
            t@,
            usize::MAX as nat,
        ) == Some(body_len as nat)),
        header matches ContentLength::Text(t) ==> (r is Err ==> r == Err::<(), MyStatusCode>(
            MyStatusCode { code: INTERNAL_SERVER_ERROR },
        )),
{
    match header {
        ContentLength::Absent => Ok(()),
        ContentLength::Unreadable => Err(MyStatusCode::unreadable_header()),
        ContentLength::Text(t) => match crate::text::parse_unsigned(t.as_str(), usize::MAX as u64) {
            None => Err(MyStatusCode::from_status(INTERNAL_SERVER_ERROR)),
            Some(n) => if n != body_len as u64 {
                Err(MyStatusCode::from_status(INTERNAL_SERVER_ERROR))
            } else {
                Ok(())
            },
        },
    }
}

// ---------------------------------------------------------------------------
// The headers of a forwarded request
/// A header with its name and the bytes of its value.
pub open spec fn header_view(h: (String, Vec<u8>)) -> (Seq<char>, Seq<u8>) {
    (h.0@, h.1@)
}

pub open spec fn headers_view(hs: Seq<(String, Vec<u8>)>) -> Seq<(Seq<char>, Seq<u8>)> {
    hs.map_values(|h: (String, Vec<u8>)| header_view(h))
}

/// The header carries the client's credentials for the proxy.
pub open spec fn is_proxy_authorization(name: Seq<char>) -> bool {
    eq_ignore_ascii_case(name, "proxy-authorization"@)
}

/// The header is one the relay replaces or takes out before forwarding:
/// `Via` or `Proxy-Authorization` (names compare ignoring ASCII case).
pub open spec fn is_replaced_header(name: Seq<char>) -> bool {
    eq_ignore_ascii_case(name, "via"@) || is_proxy_authorization(name)
}

/// The headers kept as they came, in their order: all but `Via` and
/// `Proxy-Authorization`.
pub open spec fn kept_headers(hs: Seq<(Seq<char>, Seq<u8>)>) -> Seq<(Seq<char>, Seq<u8>)>
    decreases hs.len(),
{
    if hs.len() == 0 {
        Seq::empty()
    } else {
        let k = kept_headers(hs.drop_last());
        if is_replaced_header(hs.last().0) {
            k
        } else {
            k.push(hs.last())
        }
    }
}

/// The value of the first `Proxy-Authorization` header, if any.
pub open spec fn first_proxy_authorization(hs: Seq<(Seq<char>, Seq<u8>)>) -> Option<Seq<u8>>
    decreases hs.len(),
{
    if hs.len() == 0 {
        None
    } else {
        match first_proxy_authorization(hs.drop_last()) {
            Some(v) => Some(v),
            None => if is_proxy_authorization(hs.last().0) {
                Some(hs.last().1)
            } else {
                None
            },
        }
    }
}

/// The headers of a forwarded request and the client's credentials for the
/// proxy taken out of them.
#[derive(Debug)]
pub struct ForwardHeaders {
    pub headers: Vec<(String, Vec<u8>)>,
    pub proxy_authorization: Option<Vec<u8>>,
}

/// The headers with which a client's request is forwarded: every header but
/// `Via` and `Proxy-Authorization` kept as it came, in its order, then one
/// `via` header with the value `via`; and the value of the first
/// `Proxy-Authorization` header that was taken out, if any.
pub fn forward_headers(headers: &Vec<(String, Vec<u8>)>, via: Vec<u8>) -> (r: ForwardHeaders)
    ensures
        headers_view(r.headers@) == kept_headers(headers_view(headers@)).push(("via"@, via@)),
        r.proxy_authorization matches Some(v) ==> first_proxy_authorization(headers_view(headers@))
            == Some(v@),
        r.proxy_authorization is None ==> first_proxy_authorization(headers_view(headers@)) is None,
{
    let ghost hs = headers_view(headers@);
    let mut out: Vec<(String, Vec<u8>)> = Vec::new();
    let mut found: Option<Vec<u8>> = None;
    let mut i: usize = 0;
    assert(hs.take(0) =~= Seq::<(Seq<char>, Seq<u8>)>::empty());
    assert(headers_view(out@) =~= Seq::<(Seq<char>, Seq<u8>)>::empty());
    while i < headers.len()
        invariant
            i <= headers@.len(),
            hs == headers_view(headers@),
            headers_view(out@) == kept_headers(hs.take(i as int)),
            found matches Some(v) ==> first_proxy_authorization(hs.take(i as int)) == Some(v@),
            found is None ==> first_proxy_authorization(hs.take(i as int)) is None,
        decreases headers@.len() - i,
    {
        let ghost pre = hs.take(i as int);
        let ghost now = hs.take(i + 1);
        assert(now.drop_last() =~= pre);
        assert(now.last() == header_view(headers@[i as int]));
        let name = &headers[i].0;
        let is_pa = crate::text::str_eq_ignore_ascii_case(name.as_str(), "proxy-authorization");
        let is_via = crate::text::str_eq_ignore_ascii_case(name.as_str(), "via");
        if is_pa && found.is_none() {
            let v = headers[i].1.clone();
            assert(v@ =~= headers@[i as int].1@);
            found = Some(v);
        }
        if !is_pa && !is_via {
            let n = name.clone();
            let v = headers[i].1.clone();
            assert(v@ =~= headers@[i as int].1@);
            out.push((n, v));
        }
        assert(headers_view(out@) =~= kept_headers(now));
        i = i + 1;
    }
    assert(hs.take(headers@.len() as int) =~= hs);
    proof {
        reveal_strlit("via");
    }
    let via_name = "via".to_owned();
    let ghost before = out@;
    out.push((via_name, via));
    assert(headers_view(out@) =~= headers_view(before).push(("via"@, via@)));
    ForwardHeaders { headers: out, proxy_authorization: found }
}

/// The headers kept for forwarding hold neither a `Proxy-Authorization` nor a
/// `Via` header (so the forwarded request carries only the relay's own
/// `Via`), and every other header of the request is kept.
pub proof fn law_forwarded_headers(hs: Seq<(Seq<char>, Seq<u8>)>)
    ensures
        forall|i: int|
            0 <= i < kept_headers(hs).len() ==> !is_replaced_header(
                (#[trigger] kept_headers(hs)[i]).0,
            ),
        forall|i: int|
            0 <= i < hs.len() && !is_replaced_header((#[trigger] hs[i]).0) ==> kept_headers(
                hs,
            ).contains(hs[i]),
{
    lemma_kept_headers(hs);
}

proof fn lemma_kept_headers(hs: Seq<(Seq<char>, Seq<u8>)>)
    ensures
        forall|i: int|
            0 <= i < kept_headers(hs).len() ==> !is_replaced_header(
                (#[trigger] kept_headers(hs)[i]).0,
            ),
        forall|i: int|
            0 <= i < hs.len() && !is_replaced_header((#[trigger] hs[i]).0) ==> kept_headers(
                hs,
            ).contains(hs[i]),
    decreases hs.len(),
{
    if hs.len() > 0 {
        let before = hs.drop_last();
        lemma_kept_headers(before);
        let k = kept_headers(before);
        let kk = kept_headers(hs);
        assert forall|i: int| 0 <= i < kk.len() implies !is_replaced_header((#[trigger] kk[i]).0) by {
            if i < k.len() {
                assert(kk[i] == k[i]);
            }
        }
        assert forall|i: int| 0 <= i < hs.len() && !is_replaced_header((#[trigger] hs[i]).0) implies kk.contains(
            hs[i],
        ) by {
            if i < hs.len() - 1 {
                assert(hs[i] == before[i]);
                let j = choose|j: int| 0 <= j < k.len() && k[j] == before[i];
                assert(kk[j] == k[j]);
            } else {
                assert(kk[kk.len() - 1] == hs.last());
            }
        }
    }
}

// ---------------------------------------------------------------------------
// The round trip of a relayed request through a task
/// Where the round trip of a task stands.
#[derive(Debug, Clone, Copy, PartialEq, Eq, Structural)]
pub enum TaskPhase {
    /// The task is being posted to the proxy.
    Posting,
    /// The task was accepted; its result is being asked for.
    AwaitingResults,
    /// The proxy answered with the results; they are being read.
    ReadingResults,
    /// The round trip is over.
    Done,
}

/// What the outside work of the current phase came to.
#[derive(Debug)]
pub enum TaskEvent {
    /// Posting the task failed before the proxy answered.
    PostFailed,
    /// The proxy answered the post with this status.
    Posted { status: u16 },
    /// Asking for the result failed before the proxy answered.
    ResultsFailed,
    /// The proxy answered the request for results with this status.
    ResultsAnswered { status: u16 },
    /// The results are not the JSON expected.
    ResultsUnreadable,
    /// The results: how many, how the first one ended, its `Content-Length`
    /// and the length of its body.
    ResultsRead { count: usize, first_status: WorkStatus, content_length: ContentLength, body_len: usize },
}

/// What to do next.
#[derive(Debug, Clone, Copy, PartialEq, Eq, Structural)]
pub enum TaskAction {
    /// Ask the proxy for the task's result.
    FetchResults,
    /// Read the results from the proxy's answer.
    ReadResults,
    /// Hand the relayed reply back to the client.
    Respond,
    /// Answer the client with this status.
    Fail(MyStatusCode),
}

/// The event can follow the phase.
pub open spec fn event_fits(phase: TaskPhase, event: TaskEvent) -> bool {
    match phase {
        TaskPhase::Posting => event is PostFailed || event is Posted,
        TaskPhase::AwaitingResults => event is ResultsFailed || event is ResultsAnswered,
        TaskPhase::ReadingResults => event is ResultsUnreadable || event is ResultsRead,
        TaskPhase::Done => false,
    }
}

/// The status with which a relayed reply's `Content-Length` is refused, if it
/// is: an unreadable header gives `400`, one that is not the body's length
/// gives `500`.
pub open spec fn content_length_refusal(h: ContentLength, body_len: nat) -> Option<u16> {
    match h {
        ContentLength::Absent => None,
        ContentLength::Unreadable => Some(BAD_REQUEST),
        ContentLength::Text(t) => if parse_unsigned_spec(t@, usize::MAX as nat) == Some(body_len) {
            None
        } else {
            Some(INTERNAL_SERVER_ERROR)
        },
    }
}

/// The round trip ends, answering the client with `code`.
pub open spec fn fail(code: u16) -> (TaskPhase, TaskAction) {
    (TaskPhase::Done, TaskAction::Fail(MyStatusCode { code }))
}

/// The next phase and action after `event`: a failed post or one not
/// answered with `201` ends in `502`; a failed wait or an answer other than
/// `200` ends in `502` (`504` for `206`); unreadable results, more or fewer
/// than one result, or one that did not succeed, end in `502`; a refused
/// `Content-Length` ends as `content_length_refusal` says; otherwise the
/// reply is handed back.
pub open spec fn task_step_spec(event: TaskEvent) -> (TaskPhase, TaskAction) {
    match event {
        TaskEvent::PostFailed => fail(BAD_GATEWAY),
        TaskEvent::Posted { status } => if status == CREATED {
            (TaskPhase::AwaitingResults, TaskAction::FetchResults)
        } else {
            fail(BAD_GATEWAY)
        },
        TaskEvent::ResultsFailed => fail(BAD_GATEWAY),
        TaskEvent::ResultsAnswered { status } => if status == OK {
            (TaskPhase::ReadingResults, TaskAction::ReadResults)
        } else if status == PARTIAL_CONTENT {
            fail(GATEWAY_TIMEOUT)
        } else {
            fail(BAD_GATEWAY)
        },
        TaskEvent::ResultsUnreadable => fail(BAD_GATEWAY),
        TaskEvent::ResultsRead { count, first_status, content_length, body_len } => if !(count == 1
            && first_status == WorkStatus::Succeeded) {
            fail(BAD_GATEWAY)
        } else {
            match content_length_refusal(content_length, body_len as nat) {
                Some(code) => fail(code),
                None => (TaskPhase::Done, TaskAction::Respond),
            }
        },
    }
}

/// One step of a task's round trip: from the phase and what its outside work
/// came to, the next phase and what to do.
pub fn task_step(phase: TaskPhase, event: TaskEvent) -> (r: (TaskPhase, TaskAction))
    requires
        event_fits(phase, event),
    ensures
        r == task_step_spec(event),
{
    match event {
        TaskEvent::PostFailed => (TaskPhase::Done, TaskAction::Fail(MyStatusCode::from_status(BAD_GATEWAY))),
        TaskEvent::Posted { status } => match check_task_created(status) {
            Ok(()) => (TaskPhase::AwaitingResults, TaskAction::FetchResults),
            Err(c) => (TaskPhase::Done, TaskAction::Fail(c)),
        },
        TaskEvent::ResultsFailed => (TaskPhase::Done, TaskAction::Fail(MyStatusCode::from_status(BAD_GATEWAY))),
        TaskEvent::ResultsAnswered { status } => match check_results_status(status) {
            Ok(()) => (TaskPhase::ReadingResults, TaskAction::ReadResults),
            Err(c) => (TaskPhase::Done, TaskAction::Fail(c)),
        },
        TaskEvent::ResultsUnreadable => (TaskPhase::Done, TaskAction::Fail(MyStatusCode::from_status(BAD_GATEWAY))),
        TaskEvent::ResultsRead { count, first_status, content_length, body_len } => {
            match check_task_results(count, first_status) {
                Err(c) => (TaskPhase::Done, TaskAction::Fail(c)),
                Ok(()) => match check_content_length(&content_length, body_len) {
                    Err(c) => (TaskPhase::Done, TaskAction::Fail(c)),
                    Ok(()) => (TaskPhase::Done, TaskAction::Respond),
                },
            }
        },
    }
}

/// The order of a task's round trip: the result is asked for only after the
/// proxy answered the post with `201` (a failed or refused post ends in
/// `502`); the results are read only after a `200`; the reply is handed back
/// only after exactly one succeeded result whose `Content-Length` holds; and
/// every failure ends the round trip, after which no event is taken.
pub proof fn law_task_round_trip_order(phase: TaskPhase, event: TaskEvent)
    requires
        event_fits(phase, event),
    ensures
        task_step_spec(event).1 == TaskAction::FetchResults <==> (phase == TaskPhase::Posting
            && event is Posted && event->Posted_status == CREATED),
        (phase == TaskPhase::Posting && !(event is Posted && event->Posted_status == CREATED))
            ==> task_step_spec(event) == fail(BAD_GATEWAY),
        task_step_spec(event).1 == TaskAction::ReadResults <==> (phase == TaskPhase::AwaitingResults
            && event is ResultsAnswered && event->ResultsAnswered_status == OK),
        task_step_spec(event).1 == TaskAction::Respond <==> (phase == TaskPhase::ReadingResults
            && event is ResultsRead && event->count == 1 && event->first_status
            == WorkStatus::Succeeded && content_length_refusal(
            event->content_length,
            event->body_len as nat,
        ) is None),
        task_step_spec(event).1 is Fail ==> task_step_spec(event).0 == TaskPhase::Done,
        forall|e: TaskEvent| !event_fits(TaskPhase::Done, e),
{
}

} // verus!
