use beam_connect::banner::{print_banner, print_startup_app_config, BuildInfo};
use beam_connect::errors::BeamConnectError;
use beam_connect::ids::{AppId, AppOrProxyId, IdKind};
use beam_connect::msg::{deserialize, serialize, Base64Error};
use beam_connect::server::{
    connection_route, polls_for_tasks, AttemptOutcome, BeamRetry, ConnectionRoute, RetryAction,
};
use beam_connect::sockets::{
    check_poll_status, check_socket_joined, check_socket_opened, execute_socket_request,
    poll_error_action, socket_step, socket_url, sockets_url, PollAction, SeenTasks, SocketAction,
    SocketEvent, SocketPhase, SocketTaskInfo,
};
use beam_connect::config::{LocalMapping, LocalMappingEntry};
use beam_connect::structs::MyStatusCode;
use beam_connect::text::{parse_unsigned, split_once, u64_to_string};
use beam_connect::uri::{Authority, UriParts};

fn build(dirty: &str) -> BuildInfo {
    BuildInfo {
        pkg_name: "connect".into(),
        pkg_version: "0.3.0".into(),
        build_date: "2024-01-01".into(),
        build_time: "12:00".into(),
        git_dirty: dirty.into(),
        git_commit_short: "abc123".into(),
    }
}

#[test]
fn banner_lines() {
    assert_eq!(
        print_banner(&build("false")),
        "🌈 Samply.Connect (connect) v0.3.0 (built 2024-01-01 12:00, abc123) starting up ..."
    );
    assert_eq!(
        print_banner(&build("true")),
        "🌈 Samply.Connect (connect) v0.3.0 (built 2024-01-01 12:00, SNAPSHOT) starting up ..."
    );
    assert_eq!(
        print_startup_app_config("http://proxy/", &AppId::new_unchecked("a.p.b".into()), 4, 12),
        "Communicating with Proxy http://proxy/ using AppId a.p.b. There are 4 entries in the local and 12 entries in the central target configuration."
    );
}

#[test]
fn base64_bodies() {
    let body = b"hello, world\x00\xff".to_vec();
    let text = serialize(&body);
    assert_eq!(text, "aGVsbG8sIHdvcmxkAP8=");
    assert_eq!(deserialize(&text), Ok(body));
    assert_eq!(deserialize(""), Ok(vec![]));
    assert_eq!(deserialize("@@@@"), Err(Base64Error));
    for (raw, text) in [
        (&b""[..], ""),
        (b"f", "Zg=="),
        (b"fo", "Zm8="),
        (b"foo", "Zm9v"),
        (b"foob", "Zm9vYg=="),
        (b"fooba", "Zm9vYmE="),
        (b"foobar", "Zm9vYmFy"),
        (b"\xff\xfe\xfd", "//79"),
    ] {
        assert_eq!(serialize(raw), text);
        assert_eq!(deserialize(text), Ok(raw.to_vec()));
        assert_eq!(serialize(raw).len(), (raw.len() + 2) / 3 * 4);
        assert!(serialize(raw).is_ascii());
    }
}

#[test]
fn retry_decisions() {
    let mut r = BeamRetry::new(3);
    r.start_attempt();
    assert_eq!(r.after_attempt(AttemptOutcome::Timeout), RetryAction::Retry);
    assert_eq!(r.after_attempt(AttemptOutcome::Reply(200)), RetryAction::Succeed);
    assert_eq!(r.after_attempt(AttemptOutcome::Reply(503)), RetryAction::GiveUp);
    assert_eq!(r.after_attempt(AttemptOutcome::Failed), RetryAction::GiveUp);
    r.start_attempt();
    r.start_attempt();
    assert_eq!(r.after_attempt(AttemptOutcome::Timeout), RetryAction::GiveUp);
    r.start_attempt();
    assert_eq!(r.after_attempt(AttemptOutcome::Reply(503)), RetryAction::RetryAfterPause);
    assert!(r.can_count());
    assert_eq!(connection_route(true, true), ConnectionRoute::TerminateTls);
    assert_eq!(connection_route(true, false), ConnectionRoute::Plain);
    assert_eq!(connection_route(false, true), ConnectionRoute::Plain);
    assert!(!polls_for_tasks(&LocalMapping { entries: vec![] }, true));
    let one = LocalMapping {
        entries: vec![LocalMappingEntry::from_parts("a.virtual", "a.internal", &vec![], false, false, None).unwrap()],
    };
    assert!(polls_for_tasks(&one, true));
    assert!(!polls_for_tasks(&one, false));
}

#[test]
fn socket_tasks_served_once() {
    let app = |s: &str| AppOrProxyId::App(AppId::new_unchecked(s.into()));
    let proxy = |s: &str| AppOrProxyId::of_kind(IdKind::Proxy, s);
    let mut seen = SeenTasks::new();
    let batch = vec![
        SocketTaskInfo { id: 1, from: app("a.p.b") },
        SocketTaskInfo { id: 2, from: proxy("p.b") },
        SocketTaskInfo { id: 1, from: app("a.p.b") },
        SocketTaskInfo { id: 3, from: app("c.p.b") },
    ];
    let picked = seen.select_new_tasks(&batch);
    let picked: Vec<(usize, String)> = picked.into_iter().map(|(i, a)| (i, a.as_str().to_string())).collect();
    assert_eq!(picked, vec![(0, "a.p.b".to_string()), (3, "c.p.b".to_string())]);
    assert!(seen.select_new_tasks(&batch).is_empty());
    let more = vec![SocketTaskInfo { id: 4, from: app("d.p.b") }, SocketTaskInfo { id: 2, from: app("e.p.b") }];
    let picked = seen.select_new_tasks(&more);
    assert_eq!(picked.len(), 1);
    assert_eq!(picked[0].0, 0);
}

#[test]
fn socket_proxy_answers() {
    assert_eq!(sockets_url("http://p/"), "http://p/v1/sockets");
    assert_eq!(socket_url("http://p/", "id-1"), "http://p/v1/sockets/id-1");
    assert!(check_poll_status(200).is_ok());
    assert!(matches!(check_poll_status(504), Err(BeamConnectError::ProxyTimeoutError)));
    match check_poll_status(500) {
        Err(BeamConnectError::ProxyOtherError(t)) => assert_eq!(t, "Unexpected status code 500 Internal Server Error"),
        other => panic!("unexpected {other:?}"),
    }
    assert!(check_socket_joined(101).is_ok());
    match check_socket_joined(410) {
        Err(BeamConnectError::ProxyOtherError(t)) => assert_eq!(t, "Task already expired"),
        other => panic!("unexpected {other:?}"),
    }
    match check_socket_joined(401) {
        Err(BeamConnectError::ProxyOtherError(t)) => {
            assert_eq!(t, "This socket is not for this authorized for this app")
        }
        other => panic!("unexpected {other:?}"),
    }
    match check_socket_joined(500) {
        Err(BeamConnectError::ProxyOtherError(t)) => assert_eq!(t, "500 Internal Server Error"),
        other => panic!("unexpected {other:?}"),
    }
    assert_eq!(check_socket_opened(101), Ok(()));
    assert_eq!(check_socket_opened(403), Err(MyStatusCode { code: 403 }));
    assert_eq!(poll_error_action(&BeamConnectError::HyperBuildError("x".into())), PollAction::Stop);
    assert_eq!(poll_error_action(&BeamConnectError::ProxyTimeoutError), PollAction::PollAgain);
    assert_eq!(poll_error_action(&BeamConnectError::ReplyInvalid("x".into())), PollAction::PollAfterPause);
}

#[test]
fn socket_requests_are_rewritten() {
    let allowed = vec![("a.p.b".to_string(), Some(IdKind::App))];
    let local = LocalMapping {
        entries: vec![
            LocalMappingEntry::from_parts("svc.virtual", "svc.internal/base", &allowed, true, false, None).unwrap(),
        ],
    };
    let u = UriParts {
        scheme: Some("http".into()),
        authority: Authority::parse("svc.virtual"),
        path: "/x".into(),
        path_and_query: Some("/x?y=1".into()),
    };
    let app = AppId::new_unchecked("a.p.b".into());
    assert_eq!(execute_socket_request(&app, &u, &local), Ok("https://svc.internal/base/x?y=1".to_string()));
    let other = AppId::new_unchecked("z.p.b".into());
    assert_eq!(execute_socket_request(&other, &u, &local), Err(MyStatusCode { code: 401 }));
    let elsewhere = UriParts { authority: Authority::parse("other.virtual"), ..u };
    assert_eq!(execute_socket_request(&app, &elsewhere, &local), Err(MyStatusCode { code: 400 }));
}

#[test]
fn text_helpers() {
    assert_eq!(split_once("a.b.c", '.'), Some(("a".to_string(), "b.c".to_string())));
    assert_eq!(split_once("abc", '.'), None);
    assert_eq!(parse_unsigned("+42", u64::MAX), Some(42));
    assert_eq!(parse_unsigned("18446744073709551615", u64::MAX), Some(u64::MAX));
    assert_eq!(parse_unsigned("18446744073709551616", u64::MAX), None);
    assert_eq!(parse_unsigned("+", u64::MAX), None);
    assert_eq!(parse_unsigned("-1", u64::MAX), None);
    assert_eq!(parse_unsigned("256", 255), None);
    assert_eq!(u64_to_string(0), "0");
    assert_eq!(u64_to_string(u64::MAX), "18446744073709551615");
    let e = BeamConnectError::IdNotAuthorizedToAccessUrl(
        AppOrProxyId::App(AppId::new_unchecked("a.p.b".into())),
        "http://x/".into(),
    );
    assert_eq!(e.message(), "AppId a.p.b is not authorized to access URL http://x/");
    assert_eq!(BeamConnectError::ProxyTimeoutError.message(), "Regular proxy timeout");
    assert_eq!(MyStatusCode::unreadable_header().code, 400);
    assert_eq!(MyStatusCode::invalid_json().code, 422);
}

#[test]
fn socket_relay_steps() {
    let fail = |c: u16| (SocketPhase::Done, SocketAction::Fail(MyStatusCode { code: c }));
    assert_eq!(socket_step(SocketPhase::Opening, SocketEvent::PostFailed), fail(502));
    assert_eq!(socket_step(SocketPhase::Opening, SocketEvent::Answered { status: 403 }), fail(403));
    assert_eq!(socket_step(SocketPhase::Opening, SocketEvent::Answered { status: 200 }), fail(200));
    assert_eq!(
        socket_step(SocketPhase::Opening, SocketEvent::Answered { status: 101 }),
        (SocketPhase::Upgrading, SocketAction::Upgrade)
    );
    assert_eq!(socket_step(SocketPhase::Upgrading, SocketEvent::UpgradeFailed), fail(500));
    assert_eq!(
        socket_step(SocketPhase::Upgrading, SocketEvent::Upgraded),
        (SocketPhase::Handshaking, SocketAction::Handshake)
    );
    assert_eq!(socket_step(SocketPhase::Handshaking, SocketEvent::HandshakeFailed), fail(502));
    assert_eq!(
        socket_step(SocketPhase::Handshaking, SocketEvent::HandshakeDone),
        (SocketPhase::Sending, SocketAction::SendRequest)
    );
    assert_eq!(socket_step(SocketPhase::Sending, SocketEvent::SendFailed), fail(502));
    assert_eq!(
        socket_step(SocketPhase::Sending, SocketEvent::ReplyReceived),
        (SocketPhase::Done, SocketAction::Respond)
    );
}
