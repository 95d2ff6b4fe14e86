use ws_bench::reassembly::{MessageType, Reassembler, WsAction, WsEvent};
use ws_bench::session::{
    bytes_equal, check_close, check_message, echo_action, send_step, EchoAction, FrameKind,
    RecvError, SendStep,
};

#[test]
fn send_plan_sends_messages_then_close() {
    let steps: Vec<SendStep> = (0..5).map(|k| send_step(k, 3)).collect();
    assert_eq!(
        steps,
        vec![SendStep::Message, SendStep::Message, SendStep::Message, SendStep::Close, SendStep::Done]
    );
    assert_eq!(send_step(0, 0), SendStep::Close);
    assert_eq!(send_step(1, 0), SendStep::Done);
}

#[test]
fn echo_only_data_and_stop_at_close() {
    assert_eq!(echo_action(FrameKind::Text), EchoAction::Echo);
    assert_eq!(echo_action(FrameKind::Binary), EchoAction::Echo);
    assert_eq!(echo_action(FrameKind::Close), EchoAction::Finish);
    assert_eq!(echo_action(FrameKind::Ping), EchoAction::Ignore);
    assert_eq!(echo_action(FrameKind::Pong), EchoAction::Ignore);
    assert_eq!(echo_action(FrameKind::Continuation), EchoAction::Ignore);
}

#[test]
fn round_trip_of_a_small_run_checks_out() {
    let msg = b"Hello, World!\n";
    let iter = 4usize;
    let mut sent: Vec<(bool, FrameKind, Vec<u8>)> = Vec::new();
    let mut k = 0;
    loop {
        match send_step(k, iter) {
            SendStep::Message => sent.push((true, FrameKind::Text, msg.to_vec())),
            SendStep::Close => sent.push((true, FrameKind::Close, Vec::new())),
            SendStep::Done => break,
        }
        k += 1;
    }
    let mut echoed = Vec::new();
    for f in &sent {
        match echo_action(f.1) {
            EchoAction::Echo => echoed.push(f.clone()),
            EchoAction::Ignore => {}
            EchoAction::Finish => break,
        }
    }
    assert_eq!(echoed.len(), iter);
    for f in &echoed {
        assert_eq!(check_message(f.0, f.1, &f.2, msg), Ok(()));
    }
    assert_eq!(check_close(FrameKind::Close), Ok(()));
}

#[test]
fn receive_checks_report_each_error() {
    let msg = b"abc";
    assert_eq!(check_message(false, FrameKind::Text, b"abc", msg), Err(RecvError::NotFinal));
    assert_eq!(
        check_message(true, FrameKind::Binary, b"abc", msg),
        Err(RecvError::UnexpectedKind(FrameKind::Binary))
    );
    assert_eq!(check_message(true, FrameKind::Text, b"abd", msg), Err(RecvError::PayloadMismatch));
    assert_eq!(check_message(true, FrameKind::Text, b"ab", msg), Err(RecvError::PayloadMismatch));
    assert_eq!(check_message(true, FrameKind::Text, b"abc", msg), Ok(()));
    assert_eq!(check_close(FrameKind::Text), Err(RecvError::MissingClose(FrameKind::Text)));
    assert!(bytes_equal(b"", b""));
    assert!(!bytes_equal(b"a", b""));
}

fn sent(a: WsAction) -> Option<(MessageType, Vec<u8>)> {
    match a {
        WsAction::Send { ty, data } => Some((ty, data)),
        _ => None,
    }
}

#[test]
fn fragments_are_echoed_whole() {
    let mut r = Reassembler::new();
    let a1 = r.on_event(WsEvent::Fragment { data: b"he".to_vec(), end: None });
    assert!(matches!(a1, WsAction::Nothing));
    let a2 = r.on_event(WsEvent::Fragment { data: b"ll".to_vec(), end: None });
    assert!(matches!(a2, WsAction::Nothing));
    let mid = r.on_event(WsEvent::Complete { data: b"whole".to_vec(), ty: MessageType::Binary });
    assert_eq!(sent(mid), Some((MessageType::Binary, b"whole".to_vec())));
    let a3 = r.on_event(WsEvent::Fragment { data: b"o".to_vec(), end: Some(MessageType::Text) });
    assert_eq!(sent(a3), Some((MessageType::Text, b"hello".to_vec())));
    let a4 = r.on_event(WsEvent::Fragment { data: b"x".to_vec(), end: Some(MessageType::Binary) });
    assert_eq!(sent(a4), Some((MessageType::Binary, b"x".to_vec())));
}

#[test]
fn control_events() {
    let mut r = Reassembler::new();
    match r.on_event(WsEvent::Ping(vec![1, 2])) {
        WsAction::Ping(d) => assert_eq!(d, vec![1, 2]),
        _ => panic!("a ping is answered with a ping"),
    }
    assert!(matches!(r.on_event(WsEvent::Pong), WsAction::Nothing));
    assert!(matches!(r.on_event(WsEvent::Close), WsAction::CloseAndStop));
    assert!(matches!(r.on_event(WsEvent::Error), WsAction::CloseAndStop));
}

#[test]
fn nothing_after_the_close_is_echoed() {
    let frames = [
        FrameKind::Ping,
        FrameKind::Text,
        FrameKind::Pong,
        FrameKind::Binary,
        FrameKind::Close,
        FrameKind::Text,
        FrameKind::Binary,
    ];
    let mut echoed = Vec::new();
    for k in frames {
        match echo_action(k) {
            EchoAction::Echo => echoed.push(k),
            EchoAction::Ignore => {}
            EchoAction::Finish => break,
        }
    }
    assert_eq!(echoed, vec![FrameKind::Text, FrameKind::Binary]);
}
