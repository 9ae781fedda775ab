use nostr_sdk::error::Error;
use nostr_sdk::event::NostrEvent;
use nostr_sdk::message::{ClientMessage, RelayMessage};
use nostr_sdk::pool_event::RelayPoolEvent;
use nostr_sdk::relay::{
    Frame, Relay, RelayEvent, WriterAction, COMMAND_QUEUE_CAPACITY, KEEPALIVE_SECONDS,
};
use nostr_sdk::status::RelayStatus;

const NOTE: &str = r#"{"id":"70b10f70c1318967eddf12527799411b1a9780ad9c43858f5e5fcd45486a13a5","pubkey":"379e863e8357163b5bce5d2688dc4f1dcc2d505222fb8d74db600f30535dfdfe","created_at":1612809991,"kind":1,"tags":[],"content":"test","sig":"273a9cd5d11455590f4359500bccb7a89428262b96b3ea87a756b770964472f8c3e87f5d5e64d8d2e859a71462a3f477b554565c4f2f326cb01dd7620db71502"}"#;

const NOTE_COMMAND: &str = r#"["EVENT",{"content":"test","created_at":1612809991,"id":"70b10f70c1318967eddf12527799411b1a9780ad9c43858f5e5fcd45486a13a5","kind":1,"pubkey":"379e863e8357163b5bce5d2688dc4f1dcc2d505222fb8d74db600f30535dfdfe","sig":"273a9cd5d11455590f4359500bccb7a89428262b96b3ea87a756b770964472f8c3e87f5d5e64d8d2e859a71462a3f477b554565c4f2f326cb01dd7620db71502","tags":[]}]"#;

fn connected(url: &str) -> Relay {
    let mut relay = Relay::new(url).unwrap();
    assert!(relay.connect());
    assert_eq!(relay.established(true), Ok(()));
    relay
}

#[test]
fn relay_starts_disconnected_with_its_url_in_normal_form() {
    let relay = Relay::new("wss://Relay.Example.com").unwrap();
    assert_eq!(relay.address(), "wss://Relay.Example.com");
    assert_eq!(relay.url(), "wss://relay.example.com/");
    assert_eq!(relay.status(), RelayStatus::Disconnected);
    assert_eq!(relay.pending_len(), 0);
}

#[test]
fn relay_refuses_a_malformed_url() {
    assert!(matches!(Relay::new("not a url"), Err(Error::MalformedUrl)));
    assert!(matches!(Relay::new(""), Err(Error::MalformedUrl)));
    assert!(matches!(Relay::new("//relay.example.com"), Err(Error::MalformedUrl)));
}

#[test]
fn relay_connects_in_two_steps() {
    let mut relay = Relay::new("wss://relay.example.com").unwrap();
    assert!(relay.connect());
    assert_eq!(relay.status(), RelayStatus::Connecting);
    assert!(!relay.connect());
    assert_eq!(relay.status(), RelayStatus::Connecting);
    assert_eq!(relay.established(true), Ok(()));
    assert_eq!(relay.status(), RelayStatus::Connected);
    assert!(!relay.connect());
    assert_eq!(relay.status(), RelayStatus::Connected);
}

#[test]
fn relay_that_fails_to_connect_is_disconnected() {
    let mut relay = Relay::new("wss://relay.example.com").unwrap();
    assert!(relay.connect());
    assert_eq!(relay.established(false), Err(Error::TransportError));
    assert_eq!(relay.status(), RelayStatus::Disconnected);
    assert!(relay.connect());
    assert_eq!(relay.status(), RelayStatus::Connecting);
}

#[test]
fn relay_without_an_attempt_ignores_its_outcome() {
    let mut relay = Relay::new("wss://relay.example.com").unwrap();
    assert_eq!(relay.established(true), Err(Error::ChannelClosed));
    assert_eq!(relay.status(), RelayStatus::Disconnected);
    let mut relay = connected("wss://relay.example.com");
    assert_eq!(relay.established(false), Err(Error::ChannelClosed));
    assert_eq!(relay.status(), RelayStatus::Connected);
}

#[test]
fn relay_set_status_follows_the_machine() {
    let mut relay = Relay::new("wss://relay.example.com").unwrap();
    assert!(!relay.set_status(RelayStatus::Connected));
    assert_eq!(relay.status(), RelayStatus::Disconnected);
    assert!(relay.set_status(RelayStatus::Connecting));
    assert!(relay.set_status(RelayStatus::Connected));
    assert!(!relay.set_status(RelayStatus::Connecting));
    assert_eq!(relay.status(), RelayStatus::Connected);
    assert_eq!(relay.send_msg(ClientMessage::close(1)), Ok(()));
    assert!(relay.set_status(RelayStatus::Connected));
    assert_eq!(relay.pending_len(), 1);
    assert!(relay.set_status(RelayStatus::Disconnected));
    assert_eq!(relay.status(), RelayStatus::Disconnected);
    assert_eq!(relay.pending_len(), 0);
}

#[test]
fn relay_that_is_not_connected_drops_commands() {
    let mut relay = Relay::new("wss://relay.example.com").unwrap();
    assert_eq!(relay.send_msg(ClientMessage::close(1)), Err(Error::ChannelClosed));
    assert_eq!(relay.disconnect(), Err(Error::ChannelClosed));
    assert!(relay.connect());
    assert_eq!(relay.send_relay_event(RelayEvent::Close), Err(Error::ChannelClosed));
    assert_eq!(relay.pending_len(), 0);
    assert_eq!(relay.next_write(60), WriterAction::Stop);
}

#[test]
fn relay_queue_takes_32_commands() {
    let mut relay = connected("wss://relay.example.com");
    assert_eq!(COMMAND_QUEUE_CAPACITY, 32);
    for id in 0..32u64 {
        assert_eq!(relay.send_msg(ClientMessage::close(id)), Ok(()));
    }
    assert_eq!(relay.pending_len(), 32);
    assert_eq!(relay.send_msg(ClientMessage::close(32)), Err(Error::QueueFull));
    assert_eq!(relay.disconnect(), Err(Error::QueueFull));
    assert_eq!(relay.pending_len(), 32);
    assert_eq!(relay.next_write(0), WriterAction::Send(r#"["CLOSE","0"]"#.to_string()));
    assert_eq!(relay.send_msg(ClientMessage::close(32)), Ok(()));
}

#[test]
fn writer_sends_commands_in_order() {
    let mut relay = connected("wss://relay.example.com");
    let event = NostrEvent::from_json(NOTE).unwrap();
    assert_eq!(relay.send_msg(ClientMessage::new_req(4, Vec::new())), Ok(()));
    assert_eq!(relay.send_msg(ClientMessage::new_event(event)), Ok(()));
    assert_eq!(relay.send_msg(ClientMessage::close(4)), Ok(()));
    assert_eq!(relay.next_write(0), WriterAction::Send(r#"["REQ","4"]"#.to_string()));
    assert_eq!(relay.next_write(60), WriterAction::Send(NOTE_COMMAND.to_string()));
    assert_eq!(relay.next_write(0), WriterAction::Send(r#"["CLOSE","4"]"#.to_string()));
    assert_eq!(relay.next_write(0), WriterAction::Wait(60));
    assert_eq!(relay.status(), RelayStatus::Connected);
}

#[test]
fn writer_pings_only_when_idle() {
    let mut relay = connected("wss://relay.example.com");
    assert_eq!(relay.next_write(0), WriterAction::Wait(60));
    assert_eq!(relay.next_write(60), WriterAction::Ping);
    assert_eq!(relay.send_msg(ClientMessage::close(1)), Ok(()));
    assert_eq!(relay.next_write(60), WriterAction::Send(r#"["CLOSE","1"]"#.to_string()));
    assert_eq!(relay.next_write(60), WriterAction::Ping);
    assert_eq!(relay.status(), RelayStatus::Connected);
}

#[test]
fn writer_writes_an_event_whose_signature_does_not_hold() {
    let mut relay = connected("wss://relay.example.com");
    let mut signed = nostr_sdk_base::Event::from_json(NOTE.to_string()).unwrap();
    signed.content = "tset".to_string();
    let event = NostrEvent::new(signed);
    assert_eq!(event.verify(), Err(Error::InvalidSignature));
    assert_eq!(relay.send_msg(ClientMessage::new_event(event)), Ok(()));
    assert_eq!(relay.send_msg(ClientMessage::close(2)), Ok(()));
    assert_eq!(
        relay.next_write(0),
        WriterAction::Send(NOTE_COMMAND.replace(r#""content":"test""#, r#""content":"tset""#))
    );
    assert_eq!(relay.next_write(0), WriterAction::Send(r#"["CLOSE","2"]"#.to_string()));
}

#[test]
fn writer_stops_on_close() {
    let mut relay = connected("wss://relay.example.com");
    assert_eq!(relay.send_msg(ClientMessage::close(1)), Ok(()));
    assert_eq!(relay.disconnect(), Ok(()));
    assert_eq!(relay.send_msg(ClientMessage::close(2)), Ok(()));
    assert_eq!(relay.next_write(0), WriterAction::Send(r#"["CLOSE","1"]"#.to_string()));
    assert_eq!(relay.next_write(0), WriterAction::Close);
    assert_eq!(relay.status(), RelayStatus::Disconnected);
    assert_eq!(relay.pending_len(), 0);
    assert_eq!(relay.next_write(60), WriterAction::Stop);
    assert_eq!(relay.send_msg(ClientMessage::close(3)), Err(Error::ChannelClosed));
}

#[test]
fn writer_stops_when_the_ping_fails() {
    let mut relay = connected("wss://relay.example.com");
    assert_eq!(relay.next_write(60), WriterAction::Ping);
    assert_eq!(relay.send_msg(ClientMessage::close(1)), Ok(()));
    relay.ping_failed();
    assert_eq!(relay.status(), RelayStatus::Disconnected);
    assert_eq!(relay.pending_len(), 0);
    assert_eq!(relay.next_write(60), WriterAction::Stop);
}

#[test]
fn ping_failure_leaves_an_idle_relay_alone() {
    let mut relay = Relay::new("wss://relay.example.com").unwrap();
    relay.ping_failed();
    assert_eq!(relay.status(), RelayStatus::Disconnected);
    assert!(relay.connect());
    relay.ping_failed();
    assert_eq!(relay.status(), RelayStatus::Connecting);
}

#[test]
fn reader_reports_a_text_frame() {
    let relay = connected("wss://relay.example.com");
    let report = relay.receive(Frame::Text(r#"["NOTICE","hello"]"#.to_string()));
    assert_eq!(
        report,
        Ok(Some(RelayPoolEvent::ReceivedMsg {
            relay_url: "wss://relay.example.com/".to_string(),
            msg: RelayMessage::Notice { message: "hello".to_string() },
        }))
    );
}

#[test]
fn reader_reports_a_binary_frame_of_text() {
    let relay = connected("wss://relay.example.com");
    let report = relay.receive(Frame::Binary(r#"["EOSE","7"]"#.as_bytes().to_vec()));
    assert_eq!(
        report,
        Ok(Some(RelayPoolEvent::ReceivedMsg {
            relay_url: "wss://relay.example.com/".to_string(),
            msg: RelayMessage::EndOfStoredEvents { subscription_id: "7".to_string() },
        }))
    );
    let event = relay.receive(Frame::Binary(format!(r#"["EVENT","7",{}]"#, NOTE).into_bytes()));
    match event {
        Ok(Some(RelayPoolEvent::ReceivedMsg { msg: RelayMessage::Event { event, .. }, .. })) => {
            assert_eq!(event.id, "70b10f70c1318967eddf12527799411b1a9780ad9c43858f5e5fcd45486a13a5")
        },
        other => panic!("{:?}", other),
    }
}

#[test]
fn reader_skips_what_is_no_message() {
    let relay = connected("wss://relay.example.com");
    assert_eq!(relay.receive(Frame::Binary(vec![0xff, 0xfe, 0x5b, 0x5d])), Err(Error::ParseError));
    assert_eq!(relay.receive(Frame::Binary(vec![0xc3])), Err(Error::ParseError));
    assert_eq!(relay.receive(Frame::Text("nonsense".to_string())), Err(Error::ParseError));
    assert_eq!(relay.receive(Frame::Text("[]".to_string())), Err(Error::ParseError));
    assert_eq!(relay.receive(Frame::Binary(b" [ ] ".to_vec())), Err(Error::ParseError));
    assert_eq!(relay.receive(Frame::Ping), Ok(None));
    assert_eq!(relay.receive(Frame::Pong), Ok(None));
    assert_eq!(relay.receive(Frame::Close), Ok(None));
    assert_eq!(relay.receive(Frame::Raw), Ok(None));
}

#[test]
fn reader_reports_an_empty_text_as_an_empty_message() {
    let relay = connected("wss://relay.example.com");
    assert_eq!(
        relay.receive(Frame::Text(String::new())),
        Ok(Some(RelayPoolEvent::ReceivedMsg {
            relay_url: "wss://relay.example.com/".to_string(),
            msg: RelayMessage::Empty,
        }))
    );
}

#[test]
fn end_of_stream_reports_the_loss_and_asks_for_a_close() {
    let mut relay = connected("wss://relay.example.com");
    assert_eq!(
        relay.stream_ended(),
        (RelayPoolEvent::RelayDisconnected("wss://relay.example.com/".to_string()), Ok(()))
    );
    assert_eq!(relay.pending_len(), 1);
    assert_eq!(relay.next_write(0), WriterAction::Close);
    assert_eq!(relay.status(), RelayStatus::Disconnected);
    assert_eq!(
        relay.stream_ended(),
        (
            RelayPoolEvent::RelayDisconnected("wss://relay.example.com/".to_string()),
            Err(Error::ChannelClosed)
        )
    );
    assert_eq!(relay.pending_len(), 0);
}

#[test]
fn writer_waits_for_the_rest_of_the_keepalive() {
    let mut relay = connected("wss://relay.example.com");
    assert_eq!(KEEPALIVE_SECONDS, 60);
    assert_eq!(relay.next_write(0), WriterAction::Wait(60));
    assert_eq!(relay.next_write(1), WriterAction::Wait(59));
    assert_eq!(relay.next_write(59), WriterAction::Wait(1));
    assert_eq!(relay.next_write(60), WriterAction::Ping);
    assert_eq!(relay.next_write(61), WriterAction::Ping);
    assert_eq!(relay.next_write(u64::MAX), WriterAction::Ping);
}
