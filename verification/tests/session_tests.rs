use service::session::{Frame, Reply, WsSession};

#[test]
fn text_frame_yields_exactly_one_requested_sign_reply() {
    let mut s = WsSession::new(true);
    let reply = s.step(Frame::Text(String::from("anything"))).unwrap();
    match reply {
        Reply::Text(t) => {
            assert!(t.contains("\"type\":\"requested-sign\""));
            let v: serde_json::Value = serde_json::from_str(&t).unwrap();
            assert_eq!(v["type"], "requested-sign");
            assert!(!v["requestId"].as_str().unwrap().is_empty());
            assert!(v["request"].is_object());
            assert_eq!(v["request"]["data"]["amount"], 12345);
        },
        _ => panic!("expected a text reply"),
    }
    assert!(s.open);
}

#[test]
fn binary_frame_yields_the_fixed_acknowledgement() {
    let mut s = WsSession::new(true);
    match s.step(Frame::Binary(vec![1, 2, 3])).unwrap() {
        Reply::Binary(b) => assert_eq!(b, b"Thank you, come again.".to_vec()),
        _ => panic!("expected a binary reply"),
    }
}

#[test]
fn ping_is_left_to_a_transport_that_answers_itself() {
    let mut s = WsSession::new(true);
    assert!(s.step(Frame::Ping(vec![9])).is_none());
    assert!(s.open);
}

#[test]
fn ping_is_answered_when_the_transport_does_not() {
    let mut s = WsSession::new(false);
    match s.step(Frame::Ping(vec![9, 8])).unwrap() {
        Reply::Pong(p) => assert_eq!(p, vec![9, 8]),
        _ => panic!("expected a pong"),
    }
}

#[test]
fn pong_draws_no_reply() {
    let mut s = WsSession::new(true);
    assert!(s.step(Frame::Pong(vec![7])).is_none());
    assert!(s.open);
}

#[test]
fn close_ends_the_session_with_no_further_replies() {
    let mut s = WsSession::new(true);
    assert!(s.step(Frame::Close(None)).is_none());
    assert!(!s.open);
    assert!(s.step(Frame::Text(String::from("late"))).is_none());
    assert!(s.step(Frame::Binary(vec![1])).is_none());
    assert!(!s.open);
}

#[test]
fn stray_fragment_ends_only_this_session() {
    let mut s = WsSession::new(true);
    assert!(s.step(Frame::Fragment).is_none());
    assert!(!s.open);
    assert!(s.step(Frame::Text(String::from("late"))).is_none());
}
