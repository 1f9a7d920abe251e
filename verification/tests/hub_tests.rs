use snowball_server::delivery::{deliver, Delivery, DeliveryFailure, PublishOutcome};
use snowball_server::client::Client;
use snowball_server::error::HubError;
use snowball_server::hub::Hub;
use snowball_server::registry::Registry;
use snowball_server::session::{SessionAction, SessionEvent, SessionState};
use tokio::sync::mpsc::error::TryRecvError;
use tokio::sync::mpsc::{unbounded_channel, UnboundedReceiver};
use warp::ws::Message;

type Inbox = UnboundedReceiver<Result<Message, warp::Error>>;

fn topics(names: &[&str]) -> Vec<String> {
    names.iter().map(|name| name.to_string()).collect()
}

fn next_text(inbox: &mut Inbox) -> Option<String> {
    match inbox.try_recv() {
        Ok(Ok(frame)) => Some(frame.to_str().expect("a text frame").to_string()),
        Ok(Err(_)) => panic!("a transport error was queued"),
        Err(_) => None,
    }
}

fn connect(hub: &mut Hub, identity: u64) -> Inbox {
    let (sender, inbox) = unbounded_channel();
    let session = hub.open_session(identity, sender).expect("a registered identity");
    assert_eq!(session.identity(), identity);
    assert_eq!(session.state(), SessionState::Active);
    inbox
}

#[test]
fn alice_receives_what_is_published_to_her_topic() {
    let mut hub = Hub::new();
    let c1 = hub.register(1, topics(&["sports"])).unwrap();
    let mut inbox = connect(&mut hub, c1);

    let outcome = hub.publish("sports", "goal!");
    assert_eq!(outcome.attempted(), 1);
    assert_eq!(outcome.delivered(), 1);
    assert!(outcome.failed().is_empty());
    assert_eq!(next_text(&mut inbox), Some("goal!".to_string()));
    assert_eq!(next_text(&mut inbox), None);

    let outcome = hub.publish("news", "x");
    assert_eq!(outcome.attempted(), 0);
    assert_eq!(outcome.delivered(), 0);
    assert_eq!(next_text(&mut inbox), None);
}

#[test]
fn bob_without_upgrade_is_not_a_recipient() {
    let mut hub = Hub::new();
    let bob = hub.register(2, topics(&["sports"])).unwrap();
    assert!(hub.registry().contains(bob));
    let outcome = hub.publish("sports", "goal!");
    assert_eq!(outcome.attempted(), 0);
    assert_eq!(outcome.delivered(), 0);
    assert!(outcome.failed().is_empty());
}

#[test]
fn publish_to_a_topic_without_subscribers_reaches_nobody() {
    let hub = Hub::new();
    let outcome = hub.publish("sports", "goal!");
    assert_eq!(outcome.attempted(), 0);
    assert_eq!(outcome.delivered(), 0);
    assert!(outcome.failed().is_empty());

    let mut hub = Hub::new();
    let id = hub.register(1, topics(&["news"])).unwrap();
    let mut inbox = connect(&mut hub, id);
    let outcome = hub.publish("sports", "goal!");
    assert_eq!(outcome.attempted(), 0);
    assert_eq!(next_text(&mut inbox), None);
}

#[test]
fn publish_reaches_every_subscriber_and_nobody_else() {
    let mut hub = Hub::new();
    let a = hub.register(1, topics(&["sports", "news"])).unwrap();
    let b = hub.register(2, topics(&["news"])).unwrap();
    let c = hub.register(3, topics(&["sports"])).unwrap();
    let d = hub.register(4, topics(&["sports"])).unwrap();
    let e = hub.register(5, topics(&["weather", "sports"])).unwrap();
    let mut inbox_a = connect(&mut hub, a);
    let mut inbox_b = connect(&mut hub, b);
    let mut inbox_c = connect(&mut hub, c);
    let mut inbox_e = connect(&mut hub, e);

    let outcome = hub.publish("sports", "goal!");
    assert_eq!(outcome.attempted(), 3);
    assert_eq!(outcome.delivered(), 3);
    assert!(outcome.failed().is_empty());
    assert_eq!(
        outcome.attempts().clone(),
        vec![
            Delivery { identity: a, accepted: true },
            Delivery { identity: c, accepted: true },
            Delivery { identity: e, accepted: true },
        ]
    );
    assert_eq!(next_text(&mut inbox_a), Some("goal!".to_string()));
    assert_eq!(next_text(&mut inbox_c), Some("goal!".to_string()));
    assert_eq!(next_text(&mut inbox_e), Some("goal!".to_string()));
    assert_eq!(next_text(&mut inbox_a), None);
    assert_eq!(next_text(&mut inbox_b), None);
    assert!(hub.registry().contains(d));
}

#[test]
fn unregistered_client_receives_nothing_more() {
    let mut hub = Hub::new();
    let a = hub.register(1, topics(&["sports"])).unwrap();
    let b = hub.register(2, topics(&["sports"])).unwrap();
    let mut inbox_a = connect(&mut hub, a);
    let mut inbox_b = connect(&mut hub, b);

    assert_eq!(hub.unregister(a), Ok(()));
    let outcome = hub.publish("sports", "goal!");
    assert_eq!(outcome.attempted(), 1);
    assert_eq!(outcome.attempts().clone(), vec![Delivery { identity: b, accepted: true }]);
    assert!(matches!(inbox_a.try_recv(), Err(TryRecvError::Disconnected)));
    assert_eq!(next_text(&mut inbox_b), Some("goal!".to_string()));
}

#[test]
fn unregister_closes_the_channel_of_a_live_connection() {
    let mut hub = Hub::new();
    let a = hub.register(1, topics(&["sports"])).unwrap();
    let mut inbox = connect(&mut hub, a);
    assert!(matches!(inbox.try_recv(), Err(TryRecvError::Empty)));
    hub.unregister(a).unwrap();
    assert!(matches!(inbox.try_recv(), Err(TryRecvError::Disconnected)));
}

#[test]
fn a_closed_channel_does_not_stop_the_others() {
    let mut hub = Hub::new();
    let a = hub.register(1, topics(&["sports"])).unwrap();
    let b = hub.register(2, topics(&["sports"])).unwrap();
    let c = hub.register(3, topics(&["sports"])).unwrap();
    let mut inbox_a = connect(&mut hub, a);
    let inbox_b = connect(&mut hub, b);
    let mut inbox_c = connect(&mut hub, c);
    drop(inbox_b);

    let outcome = hub.publish("sports", "goal!");
    assert_eq!(outcome.attempted(), 3);
    assert_eq!(outcome.delivered(), 2);
    assert_eq!(
        outcome.failed(),
        vec![DeliveryFailure { identity: b, error: HubError::ChannelClosed }]
    );
    assert_eq!(next_text(&mut inbox_a), Some("goal!".to_string()));
    assert_eq!(next_text(&mut inbox_c), Some("goal!".to_string()));
}

#[test]
fn a_consumer_that_never_reads_does_not_hold_up_the_others() {
    let mut hub = Hub::new();
    let slow = hub.register(1, topics(&["sports"])).unwrap();
    let fast = hub.register(2, topics(&["sports"])).unwrap();
    let mut slow_inbox = connect(&mut hub, slow);
    let mut fast_inbox = connect(&mut hub, fast);
    for round in 0..1000 {
        let payload = format!("goal {}", round);
        let outcome = hub.publish("sports", &payload);
        assert_eq!(outcome.delivered(), 2);
        assert_eq!(next_text(&mut fast_inbox), Some(payload));
    }
    assert_eq!(next_text(&mut slow_inbox), Some("goal 0".to_string()));
}

#[test]
fn register_allocates_identities_in_sequence() {
    let mut hub = Hub::new();
    assert_eq!(hub.next_identity(), 0);
    assert_eq!(hub.register(9, topics(&["a"])), Ok(0));
    assert_eq!(hub.register(9, topics(&["b"])), Ok(1));
    assert_eq!(hub.register(4, topics(&[])), Ok(2));
    assert_eq!(hub.next_identity(), 3);
    assert_eq!(hub.registry().len(), 3);
    assert_eq!(hub.unregister(1), Ok(()));
    assert_eq!(hub.register(9, topics(&["c"])), Ok(3));
    assert_eq!(hub.registry().len(), 3);
    let record = hub.registry().get(3).unwrap();
    assert_eq!(record.identity, 3);
    assert_eq!(record.user_id, 9);
    assert_eq!(record.topics, topics(&["c"]));
    assert!(record.sender.is_none());
}

#[test]
fn register_refuses_an_identity_that_is_in_use() {
    let mut registry = Registry::new();
    registry.insert(5, 1, topics(&["sports"])).unwrap();
    let mut hub = Hub::with_registry(registry, 5);
    assert_eq!(hub.register(2, topics(&["news"])), Err(HubError::DuplicateIdentity));
    assert_eq!(hub.registry().len(), 1);
    assert_eq!(hub.registry().get(5).unwrap().user_id, 1);
    assert_eq!(hub.next_identity(), 6);
    assert_eq!(hub.register(2, topics(&["news"])), Ok(6));
    assert_eq!(hub.registry().len(), 2);
}

#[test]
fn the_counter_starts_again_after_the_last_identity() {
    let mut hub = Hub::with_registry(Registry::new(), u64::MAX);
    assert_eq!(hub.register(1, topics(&[])), Ok(u64::MAX));
    assert_eq!(hub.next_identity(), 0);
    assert_eq!(hub.register(1, topics(&[])), Ok(0));
    assert_eq!(hub.next_identity(), 1);
}

#[test]
fn unregister_of_an_unknown_identity_is_refused() {
    let mut hub = Hub::new();
    assert_eq!(hub.unregister(0), Err(HubError::UnknownClient));
    let a = hub.register(1, topics(&["sports"])).unwrap();
    assert_eq!(hub.unregister(a), Ok(()));
    assert_eq!(hub.unregister(a), Err(HubError::UnknownClient));
    assert!(hub.registry().is_empty());
}

#[test]
fn open_session_of_an_unknown_identity_is_refused() {
    let mut hub = Hub::new();
    let (sender, _inbox) = unbounded_channel();
    assert!(matches!(hub.open_session(3, sender), Err(HubError::UnknownClient)));
    assert!(hub.registry().is_empty());
}

#[test]
fn a_second_channel_replaces_the_first() {
    let mut hub = Hub::new();
    let a = hub.register(1, topics(&["sports"])).unwrap();
    let mut first = connect(&mut hub, a);
    let mut second = connect(&mut hub, a);
    assert!(matches!(first.try_recv(), Err(TryRecvError::Disconnected)));
    let outcome = hub.publish("sports", "goal!");
    assert_eq!(outcome.delivered(), 1);
    assert_eq!(next_text(&mut second), Some("goal!".to_string()));
    assert_eq!(hub.registry().len(), 1);
}

#[test]
fn a_closed_session_leaves_the_registry() {
    let mut hub = Hub::new();
    let a = hub.register(1, topics(&["sports"])).unwrap();
    let b = hub.register(2, topics(&["sports"])).unwrap();
    let (sender, mut inbox_a) = unbounded_channel();
    let mut session = hub.open_session(a, sender).unwrap();
    let mut inbox_b = connect(&mut hub, b);

    assert_eq!(hub.on_session_event(&mut session, SessionEvent::InboundFrame), SessionAction::Nothing);
    assert_eq!(hub.on_session_event(&mut session, SessionEvent::OutboundMessage), SessionAction::Relay);
    assert_eq!(session.state(), SessionState::Active);
    assert_eq!(hub.registry().len(), 2);

    assert_eq!(hub.on_session_event(&mut session, SessionEvent::InboundClose), SessionAction::Cleanup);
    assert_eq!(session.state(), SessionState::Terminated);
    assert_eq!(session.failure(), None);
    assert!(!hub.registry().contains(a));
    assert!(hub.registry().contains(b));

    let outcome = hub.publish("sports", "goal!");
    assert_eq!(outcome.attempts().clone(), vec![Delivery { identity: b, accepted: true }]);
    assert!(matches!(inbox_a.try_recv(), Err(TryRecvError::Disconnected)));
    assert_eq!(next_text(&mut inbox_b), Some("goal!".to_string()));

    assert_eq!(hub.on_session_event(&mut session, SessionEvent::InboundClose), SessionAction::Nothing);
    assert_eq!(session.state(), SessionState::Terminated);
    assert_eq!(hub.registry().len(), 1);
}

#[test]
fn a_transport_error_is_kept_as_the_failure_of_the_session() {
    let mut hub = Hub::new();
    let a = hub.register(1, topics(&["sports"])).unwrap();
    let (sender, _inbox) = unbounded_channel();
    let mut session = hub.open_session(a, sender).unwrap();
    assert_eq!(hub.on_session_event(&mut session, SessionEvent::TransportError), SessionAction::Cleanup);
    assert_eq!(session.failure(), Some(HubError::TransportError));
    assert_eq!(session.state(), SessionState::Terminated);
    assert!(hub.registry().is_empty());
}

#[test]
fn closing_after_unregister_changes_nothing() {
    let mut hub = Hub::new();
    let a = hub.register(1, topics(&["sports"])).unwrap();
    let b = hub.register(2, topics(&["sports"])).unwrap();
    let (sender, _inbox) = unbounded_channel();
    let mut session = hub.open_session(a, sender).unwrap();
    hub.unregister(a).unwrap();
    assert_eq!(hub.on_session_event(&mut session, SessionEvent::OutboundClosed), SessionAction::Cleanup);
    assert_eq!(session.state(), SessionState::Terminated);
    assert_eq!(hub.registry().len(), 1);
    assert!(hub.registry().contains(b));
}

#[test]
fn deliver_tries_every_subscriber_of_a_snapshot() {
    let mut hub = Hub::new();
    let a = hub.register(1, topics(&["sports"])).unwrap();
    let b = hub.register(2, topics(&["sports"])).unwrap();
    let mut inbox_a = connect(&mut hub, a);
    let mut inbox_b = connect(&mut hub, b);
    let snapshot = hub.registry().snapshot_subscribers("sports");
    assert_eq!(snapshot.len(), 2);
    assert_eq!(snapshot[0].identity, a);
    assert_eq!(snapshot[1].identity, b);
    hub.unregister(a).unwrap();
    let outcome = deliver(&snapshot, "late");
    assert_eq!(outcome.delivered(), 2);
    assert_eq!(next_text(&mut inbox_a), Some("late".to_string()));
    assert_eq!(next_text(&mut inbox_b), Some("late".to_string()));
    let empty = deliver(&Vec::new(), "nobody");
    assert_eq!(empty.attempted(), 0);
}

#[test]
fn the_size_of_the_registry_is_inserts_minus_removes() {
    let mut hub = Hub::new();
    let mut live: Vec<u64> = Vec::new();
    for round in 0..200usize {
        live.push(hub.register(round, topics(&["sports"])).unwrap());
        if round % 3 == 2 {
            let gone = live.remove(0);
            assert_eq!(hub.unregister(gone), Ok(()));
            assert_eq!(hub.unregister(gone), Err(HubError::UnknownClient));
        }
        assert_eq!(hub.registry().len(), live.len());
    }
    assert_eq!(hub.registry().len(), 200 - 66);
    for identity in &live {
        assert!(hub.registry().contains(*identity));
    }
}

#[test]
fn outcome_counts_what_was_accepted() {
    let outcome = PublishOutcome::from_attempts(vec![
        Delivery { identity: 4, accepted: true },
        Delivery { identity: 9, accepted: false },
        Delivery { identity: 2, accepted: true },
        Delivery { identity: 7, accepted: false },
    ]);
    assert_eq!(outcome.attempted(), 4);
    assert_eq!(outcome.delivered(), 2);
    assert_eq!(
        outcome.failed(),
        vec![
            DeliveryFailure { identity: 9, error: HubError::ChannelClosed },
            DeliveryFailure { identity: 7, error: HubError::ChannelClosed },
        ]
    );
    let none = PublishOutcome::from_attempts(Vec::new());
    assert_eq!(none.attempted(), 0);
    assert_eq!(none.delivered(), 0);
    assert!(none.failed().is_empty());
}

#[test]
fn client_knows_its_topics() {
    let client = Client::pending(3, 8, topics(&["sports", "news"]));
    assert_eq!(client.identity, 3);
    assert_eq!(client.user_id, 8);
    assert!(client.sender.is_none());
    assert!(client.is_subscribed("sports"));
    assert!(client.is_subscribed("news"));
    assert!(!client.is_subscribed("weather"));
    assert!(!client.is_subscribed("sport"));
    assert!(!client.is_subscribed(""));
    assert!(!Client::pending(0, 0, Vec::new()).is_subscribed("sports"));
}

#[test]
fn errors_describe_themselves() {
    assert_eq!(HubError::DuplicateIdentity.describe(), "identity already registered");
    assert_eq!(HubError::UnknownClient.describe(), "client not registered");
    assert_eq!(HubError::ChannelClosed.describe(), "channel closed");
    assert_eq!(HubError::TransportError.describe(), "transport error");
}
