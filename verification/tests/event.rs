use chat_coordinator::event::Event;
use chat_coordinator::message::Message;
use chat_coordinator::templates::{ChatHistoryTemplate, MessageTemplate};

#[test]
fn event_names() {
    let new_message = Event::NewMessage(MessageTemplate {
        index: 3,
        message: Message::placeholder(),
    });
    assert_eq!(new_message.name(), "new_message");
    let update = Event::UpdateMessage { index: 1, span: "Hi".to_string() };
    assert_eq!(update.name(), "update_message#1");
    let update = Event::UpdateMessage { index: 0, span: "".to_string() };
    assert_eq!(update.name(), "update_message#0");
    let update = Event::UpdateMessage { index: 1205, span: "x".to_string() };
    assert_eq!(update.name(), "update_message#1205");
    let history = Event::ChatHistory(ChatHistoryTemplate { messages: vec![] });
    assert_eq!(history.name(), "chat_history");
    assert_eq!(Event::QueueAudio { generation_timestamp: 5 }.name(), "queue_audio");
    let play = Event::PlayAudio { encoded_audio: "Zg==".to_string(), generation_timestamp: 5 };
    assert_eq!(play.name(), "play_audio");
}

#[test]
fn event_payloads() {
    let update = Event::UpdateMessage { index: 1, span: " there".to_string() };
    assert_eq!(update.data().unwrap(), "<span class=\"text\"> there</span>");
    let queued = Event::QueueAudio { generation_timestamp: 1700000000123 };
    assert_eq!(queued.data().unwrap(), "1700000000123");
    let play = Event::PlayAudio {
        encoded_audio: "Zm9v".to_string(),
        generation_timestamp: 1700000000123,
    };
    assert_eq!(
        play.data().unwrap(),
        "{\"encoded_audio\":\"Zm9v\",\"generation_timestamp\":1700000000123}"
    );
}

#[test]
fn templated_events_have_no_plain_payload() {
    let new_message = Event::NewMessage(MessageTemplate {
        index: 0,
        message: Message::user("hello".to_string()),
    });
    assert_eq!(new_message.data(), None);
    let history = Event::ChatHistory(ChatHistoryTemplate {
        messages: vec![Message::user("hello".to_string())],
    });
    assert_eq!(history.data(), None);
}
