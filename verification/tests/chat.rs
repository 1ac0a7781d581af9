use klatsch::actor::{plan_read, plan_submit, Actor, ActorMsg, Events, ReadPlan};
use klatsch::event::{Event, EventId, Message};
use klatsch::history::{Chat, ChatError, InMemoryChatHistory, RecordOutcome, StorageFailure};
use klatsch::subscription::{LiveSignal, Step, Subscription};
use std::sync::{Arc, Mutex};
use tokio::sync::broadcast::error::TryRecvError;
use tokio::sync::broadcast::Receiver;
use tokio::sync::oneshot;
use uuid::Uuid;

fn id(text: &str) -> u128 {
    Uuid::parse_str(text).unwrap().as_u128()
}

fn message(id_text: &str, sender: &str, content: &str) -> Message {
    Message { id: id(id_text), sender: sender.to_string(), content: content.to_string() }
}

/// A subscriber that is driven by hand: it pulls as long as something is
/// there to be had without waiting.
struct Subscriber {
    subscription: Subscription,
    live: Option<Receiver<Event>>,
    failed: bool,
    ended: bool,
    asked: Vec<EventId>,
}

impl Subscriber {
    fn new(last_event_id: u64) -> Self {
        Subscriber {
            subscription: Subscription::new(EventId(last_event_id)),
            live: None,
            failed: false,
            ended: false,
            asked: Vec::new(),
        }
    }

    /// The next event, or `None` where the subscriber would have to wait
    /// or the stream is over.
    fn next<H: Chat>(&mut self, actor: &Actor<H>) -> Option<Event> {
        loop {
            match self.subscription.next_step() {
                Step::Ask(last) => {
                    self.asked.push(last);
                    self.live = self.subscription.on_reply(actor.read_events(last));
                }
                Step::Emit(event) => return Some(event),
                Step::Listen => {
                    let signal = match self.live.as_mut().unwrap().try_recv() {
                        Ok(event) => LiveSignal::Event(event),
                        Err(TryRecvError::Lagged(_)) => LiveSignal::Lagged,
                        Err(TryRecvError::Closed) => LiveSignal::Closed,
                        Err(TryRecvError::Empty) => return None,
                    };
                    if let Some(event) = self.subscription.on_live(signal) {
                        return Some(event);
                    }
                }
                Step::Fail => {
                    self.failed = true;
                    return None;
                }
                Step::End => {
                    self.ended = true;
                    return None;
                }
            }
        }
    }

    fn take<H: Chat>(&mut self, actor: &Actor<H>, n: usize) -> Vec<Event> {
        let mut events = Vec::new();
        while events.len() < n {
            match self.next(actor) {
                Some(event) => events.push(event),
                None => break,
            }
        }
        events
    }
}

struct HistoryStub(Vec<Event>);

impl Chat for HistoryStub {
    fn events_since(&self, last_event_id: EventId) -> Result<Vec<Event>, StorageFailure> {
        Ok(self.0.iter().filter(|e| e.id.0 > last_event_id.0).cloned().collect())
    }

    fn record_message(&mut self, _message: Message, _timestamp_ms: u64) -> RecordOutcome {
        RecordOutcome::StorageFailure
    }
}

#[derive(Clone)]
struct HistorySpy {
    recorded_messages: Arc<Mutex<Vec<Message>>>,
    observed_last_event_ids: Arc<Mutex<Vec<u64>>>,
}

impl HistorySpy {
    fn new() -> Self {
        HistorySpy {
            recorded_messages: Arc::new(Mutex::new(Vec::new())),
            observed_last_event_ids: Arc::new(Mutex::new(Vec::new())),
        }
    }

    fn take_recorded_messages(&self) -> Vec<Message> {
        std::mem::take(&mut *self.recorded_messages.lock().unwrap())
    }

    fn take_observed_last_event_ids(&self) -> Vec<u64> {
        std::mem::take(&mut *self.observed_last_event_ids.lock().unwrap())
    }
}

impl Chat for HistorySpy {
    fn events_since(&self, last_event_id: EventId) -> Result<Vec<Event>, StorageFailure> {
        self.observed_last_event_ids.lock().unwrap().push(last_event_id.0);
        Ok(vec![Event {
            id: EventId(last_event_id.0 + 1),
            message: Message { id: 0, sender: "dummy".to_owned(), content: "dummy".to_owned() },
            timestamp_ms: 0,
        }])
    }

    fn record_message(&mut self, message: Message, timestamp_ms: u64) -> RecordOutcome {
        self.recorded_messages.lock().unwrap().push(message.clone());
        RecordOutcome::New(Event::with_timestamp(EventId(1), message, timestamp_ms))
    }
}

fn canned() -> Vec<Event> {
    vec![
        Event {
            id: EventId(1),
            message: message("019c0ab6-9d11-75ef-ab02-60f070b1582a", "Alice", "One"),
            timestamp_ms: 1_000_000_000_000,
        },
        Event {
            id: EventId(2),
            message: message("019c0ab6-9d11-7a5b-abde-cb349e5fd995", "Bob", "Two"),
            timestamp_ms: 1_000_000_001_000,
        },
    ]
}

#[test]
fn events_forwards_history() {
    let chat = Actor::new(HistoryStub(canned()));

    let events = Subscriber::new(0).take(&chat, 2);

    assert_eq!(events, canned());
}

#[test]
fn add_message_forwards_to_history() {
    let history = HistorySpy::new();
    let mut chat = Actor::new(history.clone());

    let msg = message("019c0ab6-9d11-75ef-ab02-60f070b1582a", "Alice", "Hello");
    chat.add_message(msg.clone(), 7).unwrap();

    let recorded = history.take_recorded_messages();
    assert_eq!(recorded.len(), 1);
    assert_eq!(recorded[0], msg);
}

#[test]
fn duplicate_message_is_not_broadcast() {
    let duplicate_id = id("019c0ab6-9d11-75ef-ab02-60f070b1582a");
    let fresh_id = id("019c0ab6-9d11-7a5b-abde-cb349e5fd995");
    struct DuplicateStub {
        duplicate_id: u128,
    }
    impl Chat for DuplicateStub {
        fn events_since(&self, _last_event_id: EventId) -> Result<Vec<Event>, StorageFailure> {
            Ok(Vec::new())
        }

        fn record_message(&mut self, message: Message, timestamp_ms: u64) -> RecordOutcome {
            if message.id == self.duplicate_id {
                RecordOutcome::Duplicate
            } else {
                RecordOutcome::New(Event::with_timestamp(EventId(1), message, timestamp_ms))
            }
        }
    }
    let mut chat = Actor::new(DuplicateStub { duplicate_id });
    let mut events = Subscriber::new(0);
    assert!(events.next(&chat).is_none());

    chat.add_message(
        Message { id: duplicate_id, sender: "dummy".to_owned(), content: "dummy".to_owned() },
        0,
    )
    .unwrap();
    chat.add_message(
        Message { id: fresh_id, sender: "dummy".to_owned(), content: "dummy".to_owned() },
        0,
    )
    .unwrap();

    let event = events.next(&chat).unwrap();
    assert_eq!(event.message.id, fresh_id);
    assert!(events.next(&chat).is_none());
}

#[test]
fn conflict_error_is_forwarded_to_client() {
    struct ChatSaboteur;
    impl Chat for ChatSaboteur {
        fn events_since(&self, _last_event_id: EventId) -> Result<Vec<Event>, StorageFailure> {
            Ok(Vec::new())
        }

        fn record_message(&mut self, _: Message, _: u64) -> RecordOutcome {
            RecordOutcome::Conflict
        }
    }
    let mut chat = Actor::new(ChatSaboteur);

    let result = chat.add_message(
        Message {
            id: id("019c0ab6-9d11-75ef-ab02-60f070b1582a"),
            sender: "dummy".to_owned(),
            content: "dummy".to_owned(),
        },
        0,
    );

    assert!(matches!(result, Err(ChatError::Conflict)));
}

#[test]
fn storage_failure_is_reported_as_internal() {
    let mut chat = Actor::new(HistoryStub(Vec::new()));
    let result = chat.add_message(message("019c0ab6-9d11-75ef-ab02-60f070b1582a", "a", "b"), 0);
    assert!(matches!(result, Err(ChatError::Internal)));
}

#[test]
fn failed_read_is_told_once_and_ends_the_stream() {
    struct Broken;
    impl Chat for Broken {
        fn events_since(&self, _last_event_id: EventId) -> Result<Vec<Event>, StorageFailure> {
            Err(StorageFailure)
        }

        fn record_message(&mut self, _: Message, _: u64) -> RecordOutcome {
            RecordOutcome::StorageFailure
        }
    }
    let chat = Actor::new(Broken);
    assert!(matches!(chat.read_events(EventId(0)), Events::Failed));

    let mut events = Subscriber::new(3);
    assert!(events.next(&chat).is_none());
    assert!(events.failed);
    assert!(!events.ended);
    assert!(events.next(&chat).is_none());
    assert!(events.ended);
    assert_eq!(events.asked, vec![EventId(3)]);
}

#[test]
fn event_stream_seamlessly_transitions_from_history_replay_to_live_broadcast() {
    // Given a history with one event
    fn canned_event() -> Event {
        Event {
            id: EventId(1),
            message: message("019c0ab6-9d11-75ef-ab02-60f070b1582a", "Alice", "One"),
            timestamp_ms: 1_000_000_000_000,
        }
    }
    struct HistoryDouble;
    impl Chat for HistoryDouble {
        fn events_since(&self, last_event_id: EventId) -> Result<Vec<Event>, StorageFailure> {
            if last_event_id.0 == 0 {
                Ok(vec![canned_event()])
            } else {
                Ok(Vec::new())
            }
        }

        fn record_message(&mut self, message: Message, _timestamp_ms: u64) -> RecordOutcome {
            RecordOutcome::New(Event { id: EventId(2), message, timestamp_ms: 0 })
        }
    }
    let mut chat = Actor::new(HistoryDouble);

    // When a client subscribes and consumes the historic event
    let mut events_stream = Subscriber::new(0);
    let historic = events_stream.next(&chat).unwrap();

    // and after that it waits for the next event
    assert!(events_stream.next(&chat).is_none());

    // while the client is waiting another client sends a message.
    let live_msg = message("019c0ab6-9d11-7a5b-abde-cb349e5fd995", "Bob", "Two");
    chat.add_message(live_msg.clone(), 0).unwrap();

    // Then we receive the live event
    let live = events_stream.next(&chat).unwrap();

    // The historic event matches the canned data
    assert_eq!(historic, canned_event());
    // Live event carries the message we just sent
    assert_eq!(live.message, live_msg);
}

#[test]
fn live_event_follows_replayed_history_without_being_asked_for() {
    let mut chat = Actor::new(InMemoryChatHistory::new());
    let one = message("019c0ab6-9d11-75ef-ab02-60f070b1582a", "Alice", "One");
    let two = message("019c0ab6-9d11-7a5b-abde-cb349e5fd995", "Bob", "Two");
    chat.add_message(one.clone(), 1_000_000_000_000).unwrap();

    let mut events = Subscriber::new(0);
    let first = events.next(&chat).unwrap();
    assert_eq!(first.message, one);
    assert!(events.next(&chat).is_none());

    chat.add_message(two.clone(), 1_000_000_000_001).unwrap();

    let second = events.next(&chat).unwrap();
    assert_eq!(second.id, EventId(2));
    assert_eq!(second.message, two);
    assert_eq!(events.asked, vec![EventId(0), EventId(1)]);
}

#[test]
fn events_stream_delivers_new_history_on_re_request() {
    // Given: a history that grows between requests
    struct GrowingStub;
    impl Chat for GrowingStub {
        fn events_since(&self, last_event_id: EventId) -> Result<Vec<Event>, StorageFailure> {
            Ok(match last_event_id.0 {
                0 => vec![Event {
                    id: EventId(1),
                    message: message("019c0ab6-9d11-75ef-ab02-60f070b1582a", "Alice", "One"),
                    timestamp_ms: 1_000_000_000_000,
                }],
                1 => vec![Event {
                    id: EventId(2),
                    message: message("019c0ab6-9d11-7a5b-abde-cb349e5fd995", "Bob", "Two"),
                    timestamp_ms: 1_000_000_001_000,
                }],
                _ => Vec::new(),
            })
        }

        fn record_message(&mut self, _: Message, _: u64) -> RecordOutcome {
            RecordOutcome::StorageFailure
        }
    }
    let chat = Actor::new(GrowingStub);

    // When
    let events = Subscriber::new(0).take(&chat, 2);

    // Then
    assert_eq!(events[0].message.sender, "Alice");
    assert_eq!(events[1].message.sender, "Bob");
}

#[test]
fn events_passes_last_event_id_to_history() {
    let history = HistorySpy::new();
    let spy = history.clone();
    let chat = Actor::new(history);

    // When requesting events with last_event_id = 42
    let _event = Subscriber::new(42).next(&chat);

    // Then history was queried with the provided last_event_id
    let ids = spy.take_observed_last_event_ids();
    assert_eq!(ids[0], 42);
}

#[test]
fn events_only_return_events_with_id_greater_than_last_event_id() {
    let mut chat = Actor::new(InMemoryChatHistory::new());
    chat.add_message(message("019c0ab6-9d11-75ef-ab02-60f070b1582a", "Alice", "One"), 1).unwrap();
    chat.add_message(message("019c0ab6-9d11-7a5b-abde-cb349e5fd995", "Bob", "Two"), 2).unwrap();
    chat.add_message(message("019c0ab6-9d11-7fff-abde-cb349e5fd996", "Carol", "Three"), 3)
        .unwrap();

    let events = Subscriber::new(1).take(&chat, 2);

    assert_eq!(events.len(), 2);
    assert_eq!(events[0].id, EventId(2));
    assert_eq!(events[0].message.sender, "Bob");
    assert_eq!(events[1].id, EventId(3));
    assert_eq!(events[1].message.sender, "Carol");
}

#[test]
fn last_event_id_exceeds_total_number_of_events() {
    let mut chat = Actor::new(InMemoryChatHistory::new());
    chat.add_message(message("019c0ab6-9d11-75ef-ab02-60f070b1582a", "Bob", "Hello"), 1).unwrap();

    let mut events = Subscriber::new(2);

    assert!(events.next(&chat).is_none(), "expected no historic events to be returned");
}

#[test]
fn state_and_messages_are_shared_between_clients() {
    let mut chat = Actor::new(InMemoryChatHistory::new());
    let mut receiver = Subscriber::new(0);
    assert!(receiver.next(&chat).is_none());

    let msg = message("019c0ab6-9d11-75ef-ab02-60f070b1582a", "Alice", "Hello from Alice");
    chat.add_message(msg.clone(), 200).unwrap();

    let event = receiver.next(&chat).unwrap();
    assert_eq!(event.id, EventId(1));
    assert_eq!(event.message, msg);
    assert_eq!(event.timestamp_ms, 200);
}

#[test]
fn state_is_shared_between_clients() {
    let history = HistorySpy::new();
    let spy = history.clone();
    let mut chat = Actor::new(history);

    // When each client sends a message
    let msg_a = message("019c0ab6-9d11-75ef-ab02-60f070b1582a", "Alice", "From Alice");
    let msg_b = message("019c0ab6-9d11-7a5b-abde-cb349e5fd995", "Bob", "From Bob");
    chat.add_message(msg_a.clone(), 1).unwrap();
    chat.add_message(msg_b.clone(), 2).unwrap();

    // Then both messages are recorded in the same history
    let recorded = spy.take_recorded_messages();
    assert_eq!(recorded, vec![msg_a, msg_b]);
}

#[test]
fn subscribers_see_the_same_events() {
    let mut chat = Actor::new(InMemoryChatHistory::new());
    let from_alice = message("019c0ab6-9d11-75ef-ab02-60f070b1582a", "Alice", "From Alice");
    let from_bob = message("019c0ab6-9d11-7a5b-abde-cb349e5fd995", "Bob", "From Bob");
    chat.add_message(from_alice.clone(), 1).unwrap();
    chat.add_message(from_bob.clone(), 2).unwrap();

    let seen_by_one = Subscriber::new(0).take(&chat, 2);
    let seen_by_other = Subscriber::new(0).take(&chat, 2);

    assert_eq!(seen_by_one, seen_by_other);
    assert_eq!(seen_by_one[0].message, from_alice);
    assert_eq!(seen_by_one[1].message, from_bob);
}

#[test]
fn slow_receiver() {
    let mut chat = Actor::new(InMemoryChatHistory::new());
    chat.add_message(
        Message { id: 0, sender: "a".to_owned(), content: "Initial message".to_owned() },
        0,
    )
    .unwrap();
    let mut receiver = Subscriber::new(0);
    let first = receiver.next(&chat).unwrap();
    assert_eq!(first.id, EventId(1));
    // The receiver has caught up and listens to the hub, then stalls.
    assert!(receiver.next(&chat).is_none());

    for n in 1..=1000u128 {
        chat.add_message(
            Message { id: n, sender: "b".to_owned(), content: "dummy".to_owned() },
            n as u64,
        )
        .unwrap();
    }

    let events = receiver.take(&chat, 1000);
    assert_eq!(events.len(), 1000, "Receiver did not get all 1000 messages");
    for (i, event) in events.iter().enumerate() {
        assert_eq!(event.id, EventId(i as u64 + 2));
        assert_eq!(event.message.id, i as u128 + 1);
    }
    assert!(receiver.next(&chat).is_none());
    // The receiver lagged behind the hub and went back to the history, from where it stood.
    assert_eq!(receiver.asked, vec![EventId(0), EventId(1), EventId(1), EventId(1001)]);
}

#[test]
fn duplicate_submission_is_accepted_and_recorded_once() {
    let mut chat = Actor::new(InMemoryChatHistory::new());
    let msg = message("019c0ab6-9d11-75ef-ab02-60f070b1582a", "Bob", "Hi");

    assert!(chat.add_message(msg.clone(), 1).is_ok());
    assert!(chat.add_message(msg.clone(), 2).is_ok());

    let mut events = Subscriber::new(0);
    assert_eq!(events.take(&chat, 5).len(), 1);
}

#[test]
fn conflicting_submission_is_refused_and_log_unchanged() {
    let mut chat = Actor::new(InMemoryChatHistory::new());
    let x = "019c0ab6-9d11-75ef-ab02-60f070b1582a";
    chat.add_message(message(x, "Alice", "Hello"), 1).unwrap();

    let result = chat.add_message(message(x, "Alice", "Goodbye"), 2);

    assert_eq!(result, Err(ChatError::Conflict));
    let events = Subscriber::new(0).take(&chat, 5);
    assert_eq!(events.len(), 1);
    assert_eq!(events[0].message, message(x, "Alice", "Hello"));
}

#[test]
fn messages_are_added_and_read_in_order() {
    let mut chat = Actor::new(InMemoryChatHistory::new());
    let one = message("019c0ab6-9d11-75ef-ab02-60f070b1582a", "Alice", "One");
    let two = message("019c0ab6-9d11-7a5b-abde-cb349e5fd995", "Bob", "Two");
    chat.add_message(one.clone(), 1).unwrap();
    chat.add_message(two.clone(), 2).unwrap();

    let history = Subscriber::new(0).take(&chat, 2);

    assert_eq!(history.len(), 2);
    assert_eq!(history[0].id, EventId(1));
    assert_eq!(history[0].message, one);
    assert_eq!(history[1].id, EventId(2));
    assert_eq!(history[1].message, two);
    assert!(history[0].timestamp_ms <= history[1].timestamp_ms);
}

#[test]
fn handle_message_answers_on_the_reply_channel() {
    let mut chat = Actor::new(InMemoryChatHistory::new());
    let msg = message("019c0ab6-9d11-75ef-ab02-60f070b1582a", "Alice", "Hello");

    let (responder, mut response) = oneshot::channel();
    chat.handle_message(ActorMsg::AddMessage { message: msg.clone(), responder }, 9);
    assert_eq!(response.try_recv().unwrap(), Ok(()));

    let (responder, mut response) = oneshot::channel();
    chat.handle_message(
        ActorMsg::AddMessage {
            message: message("019c0ab6-9d11-75ef-ab02-60f070b1582a", "Alice", "Other"),
            responder,
        },
        10,
    );
    assert_eq!(response.try_recv().unwrap(), Err(ChatError::Conflict));

    let (responder, mut response) = oneshot::channel();
    chat.handle_message(ActorMsg::ReadEvents { responder, last_event_id: EventId(0) }, 11);
    match response.try_recv().unwrap() {
        Events::History(events) => {
            assert_eq!(events.len(), 1);
            assert_eq!(events[0].message, msg);
            assert_eq!(events[0].timestamp_ms, 9);
        }
        _ => panic!("expected the history"),
    }

    let (responder, mut response) = oneshot::channel();
    chat.handle_message(ActorMsg::ReadEvents { responder, last_event_id: EventId(1) }, 12);
    assert!(matches!(response.try_recv().unwrap(), Events::Current(_)));
}

#[test]
fn handle_message_ignores_a_requester_that_is_gone() {
    let mut chat = Actor::new(InMemoryChatHistory::new());
    let (responder, response) = oneshot::channel();
    drop(response);
    chat.handle_message(
        ActorMsg::AddMessage {
            message: message("019c0ab6-9d11-75ef-ab02-60f070b1582a", "Alice", "Hello"),
            responder,
        },
        1,
    );
    assert_eq!(Subscriber::new(0).take(&chat, 3).len(), 1);
}

#[test]
fn plans_follow_the_history() {
    assert!(matches!(plan_read(Ok(Vec::new())), ReadPlan::Subscribe));
    assert!(matches!(plan_read(Err(StorageFailure)), ReadPlan::Fail));
    match plan_read(Ok(canned())) {
        ReadPlan::Catchup(events) => assert_eq!(events, canned()),
        other => panic!("unexpected plan {:?}", other),
    }

    let event = canned().remove(0);
    let plan = plan_submit(RecordOutcome::New(event.clone()));
    assert_eq!(plan.reply, Ok(()));
    assert_eq!(plan.publish, Some(event));
    let plan = plan_submit(RecordOutcome::Duplicate);
    assert_eq!(plan.reply, Ok(()));
    assert_eq!(plan.publish, None);
    let plan = plan_submit(RecordOutcome::Conflict);
    assert_eq!(plan.reply, Err(ChatError::Conflict));
    assert_eq!(plan.publish, None);
    let plan = plan_submit(RecordOutcome::StorageFailure);
    assert_eq!(plan.reply, Err(ChatError::Internal));
    assert_eq!(plan.publish, None);
}

#[test]
fn closed_hub_ends_the_stream() {
    let chat = Actor::new(InMemoryChatHistory::new());
    let mut events = Subscriber::new(0);
    assert!(events.next(&chat).is_none());
    drop(chat);
    let signal = match events.live.as_mut().unwrap().try_recv() {
        Err(TryRecvError::Closed) => LiveSignal::Closed,
        other => panic!("unexpected {:?}", other),
    };
    assert!(events.subscription.on_live(signal).is_none());
    assert!(matches!(events.subscription.next_step(), Step::End));
}

#[test]
fn events_stream_includes_future_events() {
    let mut chat = Actor::new(InMemoryChatHistory::new());
    chat.add_message(message("019c0ab6-9d11-75ef-ab02-60f070b1582a", "Alice", "One"), 1).unwrap();

    // When: subscribe to events, then add more messages
    let mut events_stream = Subscriber::new(0);
    let _initial_message = events_stream.next(&chat);
    assert!(events_stream.next(&chat).is_none());
    chat.add_message(message("019c0ab6-9d11-7a5b-abde-cb349e5fd995", "Bob", "Two"), 2).unwrap();
    chat.add_message(message("019c0ab6-9d11-7fff-abde-cb349e5fd996", "Carol", "Three"), 3)
        .unwrap();

    let collected = events_stream.take(&chat, 2);

    assert_eq!(collected.len(), 2, "expected 2 events (2 added after historic messages extracted)");
    assert_eq!(collected[0].message.sender, "Bob");
    assert_eq!(collected[1].message.sender, "Carol");
}

fn numbered(id: u64) -> Event {
    Event {
        id: EventId(id),
        message: Message { id: id as u128, sender: "s".to_owned(), content: "c".to_owned() },
        timestamp_ms: id,
    }
}

#[test]
fn lag_makes_the_subscriber_ask_again_from_its_cursor() {
    let (_hub, live) = tokio::sync::broadcast::channel::<Event>(1);
    let mut subscription = Subscription::new(EventId(4));
    assert!(matches!(subscription.next_step(), Step::Ask(EventId(4))));
    assert!(subscription.on_reply(Events::Current(live)).is_some());
    assert!(matches!(subscription.next_step(), Step::Listen));

    assert_eq!(subscription.on_live(LiveSignal::Event(numbered(5))), Some(numbered(5)));
    assert!(matches!(subscription.next_step(), Step::Listen));
    assert_eq!(subscription.on_live(LiveSignal::Lagged), None);

    assert!(matches!(subscription.next_step(), Step::Ask(EventId(5))));
}

#[test]
fn batch_is_replayed_in_order_and_then_the_history_is_asked_again() {
    let mut subscription = Subscription::new(EventId(0));
    assert!(matches!(subscription.next_step(), Step::Ask(EventId(0))));
    assert!(subscription.on_reply(Events::History(vec![numbered(1), numbered(2)])).is_none());
    match subscription.next_step() {
        Step::Emit(event) => assert_eq!(event, numbered(1)),
        other => panic!("unexpected {:?}", other),
    }
    match subscription.next_step() {
        Step::Emit(event) => assert_eq!(event, numbered(2)),
        other => panic!("unexpected {:?}", other),
    }
    assert!(matches!(subscription.next_step(), Step::Ask(EventId(2))));
    // Asking is repeated until it is answered.
    assert!(matches!(subscription.next_step(), Step::Ask(EventId(2))));
}

#[test]
fn empty_batch_is_asked_for_again() {
    let mut subscription = Subscription::new(EventId(7));
    assert!(matches!(subscription.next_step(), Step::Ask(EventId(7))));
    assert!(subscription.on_reply(Events::History(Vec::new())).is_none());
    assert!(matches!(subscription.next_step(), Step::Ask(EventId(7))));
}
