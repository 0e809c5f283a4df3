use netprobe::protocol::{reply_for_text, LatencySession, SessionAction, SessionEvent};

#[test]
fn ping_with_seq_yields_pong() {
    let reply = reply_for_text(b"{\"type\":\"ping\",\"seq\":42}");
    assert_eq!(reply, b"{\"type\":\"pong\",\"seq\":42}".to_vec());
}

#[test]
fn ping_without_seq_is_echoed() {
    let frame = b"{\"type\":\"ping\"}";
    let reply = reply_for_text(frame);
    assert_eq!(reply, frame.to_vec());
}

#[test]
fn non_json_text_is_echoed() {
    let frame = b"hello";
    let reply = reply_for_text(frame);
    assert_eq!(reply, frame.to_vec());
}

#[test]
fn non_ping_object_is_echoed() {
    let frame = b"{\"type\":\"pong\",\"seq\":1}";
    let reply = reply_for_text(frame);
    assert_eq!(reply, frame.to_vec());
}

#[test]
fn ping_with_whitespace_and_reordered_members() {
    let reply = reply_for_text(b"  { \"seq\" : 7 , \"type\" : \"ping\" }  ");
    assert_eq!(reply, b"{\"type\":\"pong\",\"seq\":7}".to_vec());
}

#[test]
fn ping_with_structured_seq_keeps_it_verbatim() {
    let reply = reply_for_text(b"{\"type\":\"ping\",\"seq\":{\"a\":[1,2.5,null,true]}}");
    assert_eq!(reply, b"{\"type\":\"pong\",\"seq\":{\"a\":[1,2.5,null,true]}}".to_vec());
}

#[test]
fn ping_with_string_seq() {
    let reply = reply_for_text(b"{\"type\":\"ping\",\"seq\":\"x\\\"y\"}");
    assert_eq!(reply, b"{\"type\":\"pong\",\"seq\":\"x\\\"y\"}".to_vec());
}

#[test]
fn truncated_json_is_echoed() {
    let frame = b"{\"type\":\"ping\",\"seq\":42";
    assert_eq!(reply_for_text(frame), frame.to_vec());
}

#[test]
fn trailing_garbage_is_echoed() {
    let frame = b"{\"type\":\"ping\",\"seq\":42} x";
    assert_eq!(reply_for_text(frame), frame.to_vec());
}

#[test]
fn type_must_be_the_string_ping() {
    let frame = b"{\"type\":42,\"seq\":1}";
    assert_eq!(reply_for_text(frame), frame.to_vec());
}

#[test]
fn later_type_member_wins() {
    let frame = b"{\"type\":\"ping\",\"type\":\"x\",\"seq\":1}";
    assert_eq!(reply_for_text(frame), frame.to_vec());
    let reply = reply_for_text(b"{\"type\":\"x\",\"type\":\"ping\",\"seq\":1}");
    assert_eq!(reply, b"{\"type\":\"pong\",\"seq\":1}".to_vec());
}

#[test]
fn empty_frame_is_echoed() {
    assert_eq!(reply_for_text(b""), Vec::<u8>::new());
}

#[test]
fn session_answers_text_and_stays_open() {
    let mut session = LatencySession::new();
    let act = session.on_event(SessionEvent::TextFrame(b"{\"type\":\"ping\",\"seq\":5}".to_vec()));
    match act {
        SessionAction::SendText(reply) => {
            assert_eq!(reply, b"{\"type\":\"pong\",\"seq\":5}".to_vec());
        }
        SessionAction::DoNothing => panic!("a text frame must be answered"),
    }
    let act = session.on_event(SessionEvent::TextFrame(b"hi".to_vec()));
    match act {
        SessionAction::SendText(reply) => assert_eq!(reply, b"hi".to_vec()),
        SessionAction::DoNothing => panic!("a text frame must be answered"),
    }
}

#[test]
fn session_ignores_binary_and_control_frames() {
    let mut session = LatencySession::new();
    match session.on_event(SessionEvent::BinaryFrame(1024)) {
        SessionAction::DoNothing => {}
        SessionAction::SendText(_) => panic!("binary frames are never echoed"),
    }
    match session.on_event(SessionEvent::ControlFrame) {
        SessionAction::DoNothing => {}
        SessionAction::SendText(_) => panic!("control frames are never echoed"),
    }
}

#[test]
fn session_closes_on_close_frame_and_stays_closed() {
    let mut session = LatencySession::new();
    match session.on_event(SessionEvent::CloseFrame) {
        SessionAction::DoNothing => {}
        SessionAction::SendText(_) => panic!("a close frame earns no reply"),
    }
    match session.on_event(SessionEvent::TextFrame(b"late".to_vec())) {
        SessionAction::DoNothing => {}
        SessionAction::SendText(_) => panic!("a closed session must not reply"),
    }
}

#[test]
fn session_closes_on_transport_failure() {
    let mut session = LatencySession::new();
    session.on_event(SessionEvent::ReadError);
    match session.on_event(SessionEvent::TextFrame(b"x".to_vec())) {
        SessionAction::DoNothing => {}
        SessionAction::SendText(_) => panic!("a closed session must not reply"),
    }
    let mut other = LatencySession::new();
    other.on_event(SessionEvent::SendFailed);
    match other.on_event(SessionEvent::TextFrame(b"x".to_vec())) {
        SessionAction::DoNothing => {}
        SessionAction::SendText(_) => panic!("a closed session must not reply"),
    }
}

#[test]
fn ping_with_scientific_number_seq() {
    let reply = reply_for_text(b"{\"type\":\"ping\",\"seq\":-1.5e+10}");
    assert_eq!(reply, b"{\"type\":\"pong\",\"seq\":-1.5e+10}".to_vec());
}

#[test]
fn leading_zero_number_is_not_json() {
    let frame = b"{\"type\":\"ping\",\"seq\":01}";
    assert_eq!(reply_for_text(frame), frame.to_vec());
}

#[test]
fn nesting_beyond_the_limit_is_echoed() {
    let mut frame = Vec::new();
    frame.extend_from_slice(b"{\"type\":\"ping\",\"seq\":");
    for _ in 0..200 {
        frame.push(b'[');
    }
    for _ in 0..200 {
        frame.push(b']');
    }
    frame.push(b'}');
    assert_eq!(reply_for_text(&frame), frame);
}

#[test]
fn modest_nesting_is_within_the_limit() {
    let mut frame = Vec::new();
    frame.extend_from_slice(b"{\"type\":\"ping\",\"seq\":");
    for _ in 0..20 {
        frame.push(b'[');
    }
    for _ in 0..20 {
        frame.push(b']');
    }
    frame.push(b'}');
    let mut expected = Vec::new();
    expected.extend_from_slice(b"{\"type\":\"pong\",\"seq\":");
    for _ in 0..20 {
        expected.push(b'[');
    }
    for _ in 0..20 {
        expected.push(b']');
    }
    expected.push(b'}');
    assert_eq!(reply_for_text(&frame), expected);
}
