use showdown::error::Error;
use showdown::session::{after_send, console_command, on_inbound, AfterSend, Inbound, Outbound, Reaction};

#[test]
fn close_frame_stops_the_receive_loop() {
    assert!(matches!(on_inbound(Inbound::Close), Reaction::Stop(None)));
}

#[test]
fn ping_is_answered_with_same_payload() {
    match on_inbound(Inbound::Ping(vec![1, 2, 3])) {
        Reaction::Send(Outbound::Pong(p)) => assert_eq!(p, vec![1, 2, 3]),
        _ => panic!("no pong"),
    }
    assert!(matches!(on_inbound(Inbound::Pong(vec![])), Reaction::Ignore));
}

#[test]
fn text_and_binary_frames_are_processed() {
    match on_inbound(Inbound::Text("|c:|1|+a|hi".to_string())) {
        Reaction::Process(t) => assert_eq!(t, "|c:|1|+a|hi"),
        _ => panic!("not processed"),
    }
    match on_inbound(Inbound::Binary("héllo".as_bytes().to_vec())) {
        Reaction::Process(t) => assert_eq!(t, "héllo"),
        _ => panic!("not processed"),
    }
}

#[test]
fn invalid_utf8_is_a_decode_error() {
    assert!(matches!(
        on_inbound(Inbound::Binary(vec![0x66, 0xff, 0x66])),
        Reaction::Stop(Some(Error::Decode))
    ));
    assert!(matches!(
        on_inbound(Inbound::Binary(vec![0xed, 0xa0, 0x80])),
        Reaction::Stop(Some(Error::Decode))
    ));
}

#[test]
fn send_loop_stops_after_close_only() {
    assert_eq!(after_send(&Outbound::Close), AfterSend::Stop);
    assert_eq!(after_send(&Outbound::Text("x".to_string())), AfterSend::Wait);
    assert_eq!(after_send(&Outbound::Ping(vec![])), AfterSend::Wait);
}

#[test]
fn console_commands() {
    assert!(matches!(console_command("/close\n"), (Outbound::Close, true)));
    match console_command("  /ping ") {
        (Outbound::Ping(p), false) => assert_eq!(p, b"PING".to_vec()),
        _ => panic!("no ping"),
    }
    match console_command("|/join lobby\n") {
        (Outbound::Text(t), false) => assert_eq!(t, "|/join lobby"),
        _ => panic!("no text"),
    }
}
