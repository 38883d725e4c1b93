use aytest1::gateway::{exec_reply, GatewayError};
use aytest1::session::{result_line, Command, Event, ExecSession, Phase, SessionError};

fn session(target: &str) -> ExecSession {
    ExecSession::new(
        target.to_string(),
        "u".to_string(),
        "p".to_string(),
        "echo hi".to_string(),
    )
}

fn advance(session: &mut ExecSession, steps: usize) {
    for _ in 0..steps {
        session.on_event(Event::Advanced);
    }
}

#[test]
fn fresh_session_asks_to_connect() {
    let s = session("127.0.0.1:22");
    assert_eq!(s.phase(), Phase::Disconnected);
    assert_eq!(
        s.pending(),
        Command::Connect {
            address: "127.0.0.1:22".to_string()
        }
    );
    assert_eq!(s.outcome(), None);
    assert_eq!(s.output().as_slice(), b"");
}

#[test]
fn steps_follow_in_order() {
    let mut s = session("example.org:22");
    assert_eq!(s.on_event(Event::Advanced), Command::Handshake);
    assert_eq!(s.phase(), Phase::Connected);
    assert_eq!(
        s.on_event(Event::Advanced),
        Command::Authenticate {
            user: "u".to_string(),
            password: "p".to_string()
        }
    );
    assert_eq!(s.phase(), Phase::Handshaken);
    assert_eq!(s.on_event(Event::Advanced), Command::OpenChannel);
    assert_eq!(s.phase(), Phase::Authenticated);
    assert_eq!(
        s.on_event(Event::Advanced),
        Command::Execute {
            command: "echo hi".to_string()
        }
    );
    assert_eq!(s.phase(), Phase::ChannelOpen);
    assert_eq!(s.on_event(Event::Advanced), Command::Drain);
    assert_eq!(s.phase(), Phase::Executing);
    assert_eq!(s.outcome(), None);
}

#[test]
fn completed_session_reports_all_output_in_order() {
    let mut s = session("example.org:22");
    advance(&mut s, 5);
    assert_eq!(s.on_event(Event::Output(b"hi".to_vec())), Command::Drain);
    assert_eq!(s.on_event(Event::Output(b"\n".to_vec())), Command::Drain);
    assert_eq!(s.on_event(Event::Output(b"there".to_vec())), Command::Drain);
    assert_eq!(s.output().as_slice(), b"hi\nthere");
    assert_eq!(s.outcome(), None);
    assert_eq!(s.on_event(Event::Closed), Command::Finish);
    assert_eq!(s.phase(), Phase::Completed);
    assert_eq!(s.outcome(), Some(Ok("result: hi\nthere".to_string())));
    assert_eq!(exec_reply(&s), Some(Ok("result: hi\nthere".to_string())));
}

#[test]
fn command_without_output_completes_with_bare_prefix() {
    let mut s = session("example.org:22");
    advance(&mut s, 5);
    assert_eq!(s.on_event(Event::Closed), Command::Finish);
    assert_eq!(s.outcome(), Some(Ok("result: ".to_string())));
}

#[test]
fn drain_ends_on_any_report_but_output_and_deadline() {
    for event in [Event::Closed, Event::Refused, Event::Advanced] {
        let mut s = session("example.org:22");
        advance(&mut s, 5);
        s.on_event(Event::Output(b"x".to_vec()));
        assert_eq!(s.on_event(event), Command::Finish);
        assert_eq!(s.outcome(), Some(Ok("result: x".to_string())));
    }
}

#[test]
fn refused_connection_is_connect_error() {
    let mut s = session("127.0.0.1:9999");
    assert_eq!(
        s.pending(),
        Command::Connect {
            address: "127.0.0.1:9999".to_string()
        }
    );
    assert_eq!(s.on_event(Event::Refused), Command::Finish);
    assert_eq!(s.phase(), Phase::Failed(SessionError::ConnectError));
    assert_eq!(s.outcome(), Some(Err(SessionError::ConnectError)));
    assert_eq!(
        exec_reply(&s),
        Some(Err(GatewayError::Exec(SessionError::ConnectError)))
    );
}

#[test]
fn unparsable_address_fails_before_anything_is_sent() {
    for target in ["", "localhost", "localhost:", ":22", "host:ssh", "host:65536", "host:-1", "host:+", "host:++22", "host: 22"] {
        let mut s = session(target);
        assert_eq!(s.phase(), Phase::Failed(SessionError::ConnectError));
        assert_eq!(s.pending(), Command::Finish);
        assert_eq!(s.outcome(), Some(Err(SessionError::ConnectError)));
        assert_eq!(s.on_event(Event::Advanced), Command::Finish);
        assert_eq!(s.on_event(Event::Advanced), Command::Finish);
        assert_eq!(s.phase(), Phase::Failed(SessionError::ConnectError));
    }
}

#[test]
fn each_step_fails_with_its_own_error() {
    let errors = [
        SessionError::ConnectError,
        SessionError::HandshakeError,
        SessionError::AuthError,
        SessionError::ChannelError,
        SessionError::ExecError,
    ];
    for (steps, error) in errors.iter().enumerate() {
        for event in [Event::Refused, Event::Closed, Event::Output(b"x".to_vec())] {
            let mut s = session("example.org:22");
            advance(&mut s, steps);
            assert_eq!(s.on_event(event), Command::Finish);
            assert_eq!(s.phase(), Phase::Failed(*error));
            assert_eq!(s.outcome(), Some(Err(*error)));
        }
    }
}

#[test]
fn wrong_credentials_never_open_a_channel() {
    let mut s = session("example.org:22");
    let mut seen = vec![s.pending()];
    seen.push(s.on_event(Event::Advanced));
    seen.push(s.on_event(Event::Advanced));
    seen.push(s.on_event(Event::Refused));
    seen.push(s.on_event(Event::Advanced));
    seen.push(s.on_event(Event::Output(b"leak".to_vec())));
    seen.push(s.on_event(Event::Closed));
    assert_eq!(s.outcome(), Some(Err(SessionError::AuthError)));
    assert_eq!(s.output().as_slice(), b"");
    for command in &seen {
        assert!(!matches!(
            command,
            Command::OpenChannel | Command::Execute { .. } | Command::Drain
        ));
    }
    assert_eq!(seen[3..], vec![Command::Finish; 4][..]);
}

#[test]
fn deadline_ends_any_running_phase() {
    for steps in 0..6 {
        let mut s = session("example.org:22");
        advance(&mut s, steps);
        assert_eq!(s.on_event(Event::Expired), Command::Finish);
        assert_eq!(s.phase(), Phase::Failed(SessionError::TimeoutError));
        assert_eq!(s.outcome(), Some(Err(SessionError::TimeoutError)));
    }
}

#[test]
fn deadline_drops_partial_output() {
    let mut s = session("example.org:22");
    advance(&mut s, 5);
    s.on_event(Event::Output(b"partial".to_vec()));
    s.on_event(Event::Expired);
    assert_eq!(s.output().as_slice(), b"");
    assert_eq!(s.outcome(), Some(Err(SessionError::TimeoutError)));
}

#[test]
fn finished_session_ignores_further_reports() {
    let mut s = session("example.org:22");
    advance(&mut s, 5);
    s.on_event(Event::Output(b"done".to_vec()));
    s.on_event(Event::Closed);
    for event in [
        Event::Advanced,
        Event::Refused,
        Event::Output(b"more".to_vec()),
        Event::Closed,
        Event::Expired,
    ] {
        assert_eq!(s.on_event(event), Command::Finish);
        assert_eq!(s.outcome(), Some(Ok("result: done".to_string())));
    }
}

#[test]
fn character_split_between_chunks_is_read_whole() {
    let mut s = session("example.org:22");
    advance(&mut s, 5);
    s.on_event(Event::Output(vec![0x68, 0xc3]));
    s.on_event(Event::Output(vec![0xa9, 0xe2, 0x82]));
    s.on_event(Event::Output(vec![0xac]));
    s.on_event(Event::Closed);
    assert_eq!(s.outcome(), Some(Ok("result: h\u{e9}\u{20ac}".to_string())));
}

#[test]
fn output_that_is_no_text_is_reported_with_replacements() {
    let mut s = session("example.org:22");
    advance(&mut s, 5);
    s.on_event(Event::Output(vec![0x61, 0xff, 0x62]));
    s.on_event(Event::Closed);
    assert_eq!(s.outcome(), Some(Ok("result: a\u{fffd}b".to_string())));
}

#[test]
fn result_line_prefixes_output() {
    assert_eq!(result_line("hi\n"), "result: hi\n");
    assert_eq!(result_line(""), "result: ");
}
