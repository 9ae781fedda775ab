use nostr_sdk::error::Error;
use nostr_sdk::event::NostrEvent;
use nostr_sdk::message::RelayMessage;
use nostr_sdk::pool_event::{RelayPoolEvent, RelayPoolNotifications};
use nostr_sdk::task::{RelayPoolTask, NOTIFICATION_CAPACITY, POOL_EVENT_CAPACITY};

const NOTE: &str = r#"{"id":"70b10f70c1318967eddf12527799411b1a9780ad9c43858f5e5fcd45486a13a5","pubkey":"379e863e8357163b5bce5d2688dc4f1dcc2d505222fb8d74db600f30535dfdfe","created_at":1612809991,"kind":1,"tags":[],"content":"test","sig":"273a9cd5d11455590f4359500bccb7a89428262b96b3ea87a756b770964472f8c3e87f5d5e64d8d2e859a71462a3f477b554565c4f2f326cb01dd7620db71502"}"#;

const DIRECT: &str = r#"{"id":"2be17aa3031bdcb006f0fce80c146dea9c1c0268b0af2398bb673365c6444d45","pubkey":"f86c44a2de95d9149b51c6a29afeabba264c18e2fa7c49de93424a0c56947785","created_at":1640839235,"kind":4,"tags":[["p","13adc511de7e1cfcf1c6b7f6365fb5a03442d7bcacf565ea57fa7770912c023d"]],"content":"uRuvYr585B80L6rSJiHocw==?iv=oh6LVqdsYYol3JfFnXTbPA==","sig":"a5d9290ef9659083c490b303eb7ee41356d8778ff19f2f91776c8dc4443388a64ffcf336e61af4c25c05ac3ae952d1ced889ed655b67790891222aaa15b99fdd"}"#;

const NOTE_AUTHOR: &str = "379e863e8357163b5bce5d2688dc4f1dcc2d505222fb8d74db600f30535dfdfe";
const DIRECT_AUTHOR: &str = "f86c44a2de95d9149b51c6a29afeabba264c18e2fa7c49de93424a0c56947785";
const DIRECT_NAMED: &str = "13adc511de7e1cfcf1c6b7f6365fb5a03442d7bcacf565ea57fa7770912c023d";

fn note() -> NostrEvent {
    NostrEvent::from_json(NOTE).unwrap()
}

fn direct() -> NostrEvent {
    NostrEvent::from_json(DIRECT).unwrap()
}

fn fresh() -> NostrEvent {
    let keys = nostr_sdk_base::Keys::generate_from_os_random();
    let event = nostr_sdk_base::Event::new_text_note(&keys, "fresh", &[]).unwrap();
    NostrEvent::from_json(&event.as_json().unwrap()).unwrap()
}

fn received(relay: &str, event: NostrEvent) -> RelayPoolEvent {
    RelayPoolEvent::ReceivedMsg {
        relay_url: relay.to_string(),
        msg: RelayMessage::Event { event, subscription_id: "0".to_string() },
    }
}

#[test]
fn event_from_many_relays_is_announced_once() {
    let mut task = RelayPoolTask::new();
    assert_eq!(
        task.handle_message(received("wss://a.example/", note())),
        Some(RelayPoolNotifications::ReceivedEvent(note()))
    );
    assert_eq!(task.handle_message(received("wss://b.example/", note())), None);
    assert_eq!(task.handle_message(received("wss://c.example/", note())), None);
    assert_eq!(task.handle_message(received("wss://a.example/", note())), None);
    assert!(task.contains(&note().id));
    assert_eq!(task.cached(), 1);
}

#[test]
fn interleaved_events_are_each_announced_once() {
    let mut task = RelayPoolTask::new();
    let reports = vec![
        received("wss://a.example/", note()),
        received("wss://a.example/", direct()),
        received("wss://b.example/", direct()),
        received("wss://b.example/", note()),
        received("wss://c.example/", note()),
    ];
    for report in reports {
        assert_eq!(task.submit(report), Ok(()));
    }
    assert_eq!(task.run(), 0);
    assert_eq!(
        task.next_notification(),
        Some(RelayPoolNotifications::ReceivedEvent(note()))
    );
    assert_eq!(
        task.next_notification(),
        Some(RelayPoolNotifications::ReceivedEvent(direct()))
    );
    assert_eq!(task.next_notification(), None);
    assert_eq!(task.cached(), 2);
}

#[test]
fn published_event_is_not_announced_when_it_comes_back() {
    let mut task = RelayPoolTask::new();
    assert_eq!(task.handle_message(RelayPoolEvent::EventSent(note())), None);
    assert!(task.contains(&note().id));
    assert_eq!(task.handle_message(received("wss://a.example/", note())), None);
    assert_eq!(task.handle_message(received("wss://b.example/", note())), None);
    assert_eq!(task.cached(), 1);
}

#[test]
fn published_event_is_entered_once() {
    let mut task = RelayPoolTask::new();
    assert_eq!(task.handle_message(RelayPoolEvent::EventSent(note())), None);
    assert_eq!(task.handle_message(RelayPoolEvent::EventSent(note())), None);
    assert_eq!(task.cached(), 1);
    assert_eq!(
        task.handle_message(received("wss://a.example/", direct())),
        Some(RelayPoolNotifications::ReceivedEvent(direct()))
    );
    assert_eq!(task.handle_message(RelayPoolEvent::EventSent(direct())), None);
    assert_eq!(task.cached(), 2);
}

#[test]
fn event_without_valid_signature_is_dropped() {
    let mut task = RelayPoolTask::new();
    let mut signed = nostr_sdk_base::Event::from_json(NOTE.to_string()).unwrap();
    signed.content = "tset".to_string();
    let altered = NostrEvent::new(signed);
    assert_eq!(task.handle_message(received("wss://a.example/", altered)), None);
    assert!(!task.contains(&note().id));
    assert_eq!(task.cached(), 0);
    let mut renamed = note();
    renamed.id = direct().id;
    assert_eq!(task.handle_message(received("wss://a.example/", renamed)), None);
    assert_eq!(task.cached(), 0);
    assert_eq!(
        task.handle_message(received("wss://a.example/", note())),
        Some(RelayPoolNotifications::ReceivedEvent(note()))
    );
}

#[test]
fn other_messages_are_not_announced() {
    let mut task = RelayPoolTask::new();
    let notice = RelayPoolEvent::ReceivedMsg {
        relay_url: "wss://a.example/".to_string(),
        msg: RelayMessage::Notice { message: "hello".to_string() },
    };
    let end = RelayPoolEvent::ReceivedMsg {
        relay_url: "wss://a.example/".to_string(),
        msg: RelayMessage::EndOfStoredEvents { subscription_id: "0".to_string() },
    };
    let empty = RelayPoolEvent::ReceivedMsg {
        relay_url: "wss://a.example/".to_string(),
        msg: RelayMessage::Empty,
    };
    assert_eq!(task.handle_message(notice), None);
    assert_eq!(task.handle_message(end), None);
    assert_eq!(task.handle_message(empty), None);
    assert_eq!(task.cached(), 0);
}

#[test]
fn lost_relay_is_announced() {
    let mut task = RelayPoolTask::new();
    assert_eq!(
        task.handle_message(RelayPoolEvent::RelayDisconnected("wss://a.example/".to_string())),
        Some(RelayPoolNotifications::RelayDisconnected("wss://a.example/".to_string()))
    );
}

#[test]
fn purge_forgets_the_events_of_an_author() {
    let mut task = RelayPoolTask::new();
    let other = fresh();
    let _ = task.handle_message(received("wss://a.example/", note()));
    let _ = task.handle_message(received("wss://a.example/", direct()));
    let _ = task.handle_message(received("wss://a.example/", other.clone()));
    assert_eq!(task.cached(), 3);
    assert_eq!(
        task.handle_message(RelayPoolEvent::RemoveContactEvents(NOTE_AUTHOR.to_string())),
        None
    );
    assert!(!task.contains(&note().id));
    assert!(task.contains(&direct().id));
    assert!(task.contains(&other.id));
    assert_eq!(task.cached(), 2);
    assert_eq!(
        task.handle_message(RelayPoolEvent::RemoveContactEvents(DIRECT_AUTHOR.to_string())),
        None
    );
    assert!(!task.contains(&direct().id));
    assert!(task.contains(&other.id));
}

#[test]
fn purge_forgets_the_events_that_name_an_identity_first() {
    let mut task = RelayPoolTask::new();
    let _ = task.handle_message(received("wss://a.example/", note()));
    let _ = task.handle_message(received("wss://a.example/", direct()));
    let _ = task.handle_message(RelayPoolEvent::RemoveContactEvents(DIRECT_NAMED.to_string()));
    assert!(task.contains(&note().id));
    assert!(!task.contains(&direct().id));
    assert_eq!(task.cached(), 1);
}

#[test]
fn purge_of_an_unknown_identity_forgets_nothing() {
    let mut task = RelayPoolTask::new();
    let _ = task.handle_message(received("wss://a.example/", note()));
    let _ = task.handle_message(RelayPoolEvent::EventSent(direct()));
    let _ = task.handle_message(RelayPoolEvent::RemoveContactEvents("00".to_string()));
    assert_eq!(task.cached(), 2);
    let mut empty = RelayPoolTask::new();
    let _ = empty.handle_message(RelayPoolEvent::RemoveContactEvents(NOTE_AUTHOR.to_string()));
    assert_eq!(empty.cached(), 0);
}

#[test]
fn forgotten_event_is_news_again() {
    let mut task = RelayPoolTask::new();
    assert!(task.handle_message(received("wss://a.example/", direct())).is_some());
    assert_eq!(task.handle_message(received("wss://b.example/", direct())), None);
    let _ = task.handle_message(RelayPoolEvent::RemoveContactEvents(DIRECT_AUTHOR.to_string()));
    assert_eq!(
        task.handle_message(received("wss://b.example/", direct())),
        Some(RelayPoolNotifications::ReceivedEvent(direct()))
    );
    assert_eq!(task.handle_message(received("wss://a.example/", direct())), None);
}

#[test]
fn reports_wait_until_the_aggregator_runs() {
    let mut task = RelayPoolTask::new();
    assert_eq!(task.submit(received("wss://a.example/", note())), Ok(()));
    assert_eq!(
        task.submit(RelayPoolEvent::RelayDisconnected("wss://a.example/".to_string())),
        Ok(())
    );
    assert_eq!(task.next_notification(), None);
    assert!(!task.contains(&note().id));
    assert_eq!(task.step(), Some(Ok(())));
    assert!(task.contains(&note().id));
    assert_eq!(
        task.next_notification(),
        Some(RelayPoolNotifications::ReceivedEvent(note()))
    );
    assert_eq!(task.step(), Some(Ok(())));
    assert_eq!(task.step(), None);
    assert_eq!(
        task.next_notification(),
        Some(RelayPoolNotifications::RelayDisconnected("wss://a.example/".to_string()))
    );
    assert_eq!(task.next_notification(), None);
}

#[test]
fn inbox_takes_64_reports() {
    let mut task = RelayPoolTask::new();
    assert_eq!(POOL_EVENT_CAPACITY, 64);
    for i in 0..64 {
        assert_eq!(task.submit(RelayPoolEvent::RelayDisconnected(format!("wss://{}/", i))), Ok(()));
    }
    assert_eq!(
        task.submit(RelayPoolEvent::RelayDisconnected("wss://late/".to_string())),
        Err(Error::QueueFull)
    );
    assert_eq!(task.run(), 0);
    for i in 0..64 {
        assert_eq!(
            task.next_notification(),
            Some(RelayPoolNotifications::RelayDisconnected(format!("wss://{}/", i)))
        );
    }
    assert_eq!(task.next_notification(), None);
}

#[test]
fn announcements_beyond_64_are_dropped_and_the_aggregator_goes_on() {
    let mut task = RelayPoolTask::new();
    assert_eq!(NOTIFICATION_CAPACITY, 64);
    for i in 0..64 {
        assert_eq!(task.submit(RelayPoolEvent::RelayDisconnected(format!("wss://{}/", i))), Ok(()));
    }
    assert_eq!(task.run(), 0);
    assert_eq!(task.submit(received("wss://a.example/", note())), Ok(()));
    assert_eq!(task.submit(received("wss://b.example/", note())), Ok(()));
    assert_eq!(
        task.submit(RelayPoolEvent::RelayDisconnected("wss://late/".to_string())),
        Ok(())
    );
    assert_eq!(task.run(), 2);
    assert!(task.contains(&note().id));
    for i in 0..64 {
        assert_eq!(
            task.next_notification(),
            Some(RelayPoolNotifications::RelayDisconnected(format!("wss://{}/", i)))
        );
    }
    assert_eq!(task.next_notification(), None);
    assert_eq!(task.submit(received("wss://b.example/", note())), Ok(()));
    assert_eq!(task.step(), Some(Ok(())));
    assert_eq!(task.next_notification(), None);
    for _ in 0..64 {
        assert_eq!(task.submit(RelayPoolEvent::RelayDisconnected("wss://x/".to_string())), Ok(()));
    }
    assert_eq!(task.run(), 0);
    assert_eq!(task.submit(RelayPoolEvent::RelayDisconnected("wss://y/".to_string())), Ok(()));
    assert_eq!(task.step(), Some(Err(Error::QueueFull)));
}

#[test]
fn received_event_is_taken_in_only_when_found_authentic() {
    let mut task = RelayPoolTask::new();
    assert_eq!(task.take_in(note(), false), None);
    assert!(!task.contains(&note().id));
    assert_eq!(task.take_in(note(), true), Some(RelayPoolNotifications::ReceivedEvent(note())));
    assert!(task.contains(&note().id));
    assert_eq!(task.take_in(note(), true), None);
    assert_eq!(task.take_in(direct(), false), None);
    assert_eq!(task.cached(), 1);
}

#[test]
fn announcement_is_copied_whole() {
    let news = RelayPoolNotifications::ReceivedEvent(direct());
    assert_eq!(news.clone(), news);
    let lost = RelayPoolNotifications::RelayDisconnected("wss://a.example/".to_string());
    assert_eq!(lost.clone(), lost);
}
