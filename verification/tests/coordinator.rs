use chat_coordinator::audio::AudioJob;
use chat_coordinator::coordinator::{Action, Chunk, Phase, StreamCoordinator, TurnError};
use chat_coordinator::event::Event;
use chat_coordinator::flusher::DEFAULT_FLUSH_INTERVAL;
use chat_coordinator::message::Message;
use chat_coordinator::state::PromptState;
use chat_coordinator::templates::{ChatHistoryTemplate, MessageTemplate};
use chat_coordinator::tools::{ToolDispatcher, ToolKind};
use tokio::sync::mpsc::{channel, Receiver};

fn turn_events(rx: &mut Receiver<Event>) -> Vec<Event> {
    let mut events = Vec::new();
    while let Ok(event) = rx.try_recv() {
        events.push(event);
    }
    events
}

fn fresh_turn() -> (StreamCoordinator, PromptState, Receiver<Event>) {
    let (tx, rx) = channel::<Event>(1000);
    let mut state = PromptState::new();
    state.attach(tx);
    (StreamCoordinator::new(DEFAULT_FLUSH_INTERVAL), state, rx)
}

fn text(fragment: &str) -> Chunk {
    Chunk::TextFragment(fragment.to_string())
}

fn tool_call(name: &str, arguments: &str) -> Chunk {
    Chunk::ToolCall { name: name.to_string(), arguments: arguments.to_string() }
}

fn spoken(action: Option<Action>) -> Option<String> {
    match action {
        Some(Action::Speak { job }) => Some(job.text().to_string()),
        Some(other) => panic!("unexpected action {:?}", other),
        None => None,
    }
}

#[test]
fn scenario_text_only_reply() {
    let (mut turn, mut state, mut rx) = fresh_turn();
    assert_eq!(turn.phase(), Phase::Idle);
    assert_eq!(turn.submit_prompt(&mut state, "hello".to_string()), Ok(0));
    assert_eq!(turn.phase(), Phase::AwaitingFirstToken);

    let mut jobs: Vec<AudioJob> = Vec::new();
    let mut clock: u128 = 1000;
    for fragment in ["Hi", " there", "."] {
        clock += 1;
        match turn.on_chunk(&mut state, text(fragment), clock).unwrap() {
            Some(Action::Speak { job }) => jobs.push(job),
            Some(other) => panic!("unexpected action {:?}", other),
            None => {}
        }
        assert_eq!(turn.phase(), Phase::Streaming);
    }
    assert_eq!(turn.target(), Some(1));
    assert_eq!(jobs.len(), 1);
    assert_eq!(jobs[0].text(), "Hi there.");
    assert_eq!(jobs[0].generation_timestamp(), 1003);

    assert_eq!(turn.end_stream(), Ok(()));
    assert_eq!(turn.phase(), Phase::Draining);
    assert_eq!(spoken(turn.drain(&mut state, 1004).unwrap()), None);
    assert_eq!(turn.phase(), Phase::Closed);

    let job = jobs.pop().unwrap();
    assert_eq!(job.complete(&mut state, Some(b"speech".to_vec())), Ok(()));

    let events = turn_events(&mut rx);
    let new_messages: Vec<&Event> =
        events.iter().filter(|e| matches!(e, Event::NewMessage(_))).collect();
    assert_eq!(
        new_messages,
        vec![
            &Event::NewMessage(MessageTemplate {
                index: 0,
                message: Message::user("hello".to_string())
            }),
            &Event::NewMessage(MessageTemplate { index: 1, message: Message::placeholder() }),
        ]
    );
    let mut updated = String::new();
    let mut updates = 0;
    for event in events.iter() {
        if let Event::UpdateMessage { index, span } = event {
            assert_eq!(*index, 1);
            assert_eq!(event.name(), "update_message#1");
            updated.push_str(span);
            updates += 1;
        }
    }
    assert!(updates >= 1);
    assert_eq!(updated, "Hi there.");
    let queued: Vec<&Event> =
        events.iter().filter(|e| matches!(e, Event::QueueAudio { .. })).collect();
    assert_eq!(queued, vec![&Event::QueueAudio { generation_timestamp: 1003 }]);
    let played: Vec<&Event> =
        events.iter().filter(|e| matches!(e, Event::PlayAudio { .. })).collect();
    assert_eq!(
        played,
        vec![&Event::PlayAudio {
            encoded_audio: "c3BlZWNo".to_string(),
            generation_timestamp: 1003
        }]
    );
    let histories: Vec<&Event> =
        events.iter().filter(|e| matches!(e, Event::ChatHistory(_))).collect();
    assert_eq!(
        histories,
        vec![&Event::ChatHistory(ChatHistoryTemplate {
            messages: vec![
                Message::user("hello".to_string()),
                Message::assistant("Hi there.".to_string())
            ]
        })]
    );
    assert_eq!(
        state.snapshot(),
        vec![Message::user("hello".to_string()), Message::assistant("Hi there.".to_string())]
    );
    let position = |wanted: &dyn Fn(&Event) -> bool| events.iter().position(|e| wanted(e)).unwrap();
    assert!(
        position(&|e| matches!(e, Event::QueueAudio { .. }))
            < position(&|e| matches!(e, Event::PlayAudio { .. }))
    );
    assert!(
        position(&|e| matches!(e, Event::UpdateMessage { .. }))
            < position(&|e| matches!(e, Event::ChatHistory(_)))
    );
}

#[test]
fn scenario_tool_call_before_any_text() {
    let (mut turn, mut state, mut rx) = fresh_turn();
    turn.submit_prompt(&mut state, "draw a cat".to_string()).unwrap();
    let action = turn
        .on_chunk(&mut state, tool_call("generate_image", "{\"prompt\":\"a cat\"}"), 10)
        .unwrap();
    let (call, arguments) = match action {
        Some(Action::InvokeTool { call, arguments }) => (call, arguments),
        other => panic!("unexpected action {:?}", other),
    };
    assert_eq!(arguments, "{\"prompt\":\"a cat\"}");
    assert_eq!(call.index(), 1);
    assert_eq!(call.kind(), ToolKind::GenerateImage);
    assert_eq!(turn.phase(), Phase::Streaming);
    assert_eq!(turn.target(), None);
    assert_eq!(state.len(), 2);

    assert_eq!(
        ToolDispatcher::complete(&mut state, call, Some("\"/static/temp/images/9.png\"".to_string())),
        Ok(())
    );
    turn.end_stream().unwrap();
    assert_eq!(spoken(turn.drain(&mut state, 50).unwrap()), None);

    let transcript = vec![
        Message::user("draw a cat".to_string()),
        Message::assistant("<img src=\"/static/temp/images/9.png\"/>".to_string()),
    ];
    assert_eq!(state.snapshot(), transcript);
    assert_eq!(
        turn_events(&mut rx),
        vec![
            Event::NewMessage(MessageTemplate {
                index: 0,
                message: Message::user("draw a cat".to_string())
            }),
            Event::NewMessage(MessageTemplate { index: 1, message: Message::placeholder() }),
            Event::UpdateMessage {
                index: 1,
                span: "<img src=\"/static/temp/images/9.png\"/>".to_string()
            },
            Event::ChatHistory(ChatHistoryTemplate { messages: transcript }),
        ]
    );
}

#[test]
fn text_after_a_tool_call_gets_its_own_message() {
    let (mut turn, mut state, _rx) = fresh_turn();
    turn.submit_prompt(&mut state, "draw a cat".to_string()).unwrap();
    let action = turn.on_chunk(&mut state, tool_call("generate_image", "{}"), 10).unwrap();
    let call = match action {
        Some(Action::InvokeTool { call, .. }) => call,
        other => panic!("unexpected action {:?}", other),
    };
    assert_eq!(spoken(turn.on_chunk(&mut state, text("Here"), 11).unwrap()), None);
    assert_eq!(turn.target(), Some(2));
    assert_eq!(
        spoken(turn.on_chunk(&mut state, text(" it is."), 12).unwrap()),
        Some("Here it is.".to_string())
    );
    let second = turn.on_chunk(&mut state, tool_call("generate_image", "{}"), 13).unwrap();
    let second = match second {
        Some(Action::InvokeTool { call, .. }) => call,
        other => panic!("unexpected action {:?}", other),
    };
    assert_eq!(second.index(), 3);
    assert_eq!(turn.target(), Some(2));
    turn.on_chunk(&mut state, text(" Enjoy"), 14).unwrap();
    ToolDispatcher::complete(&mut state, call, Some("\"/a.png\"".to_string())).unwrap();
    ToolDispatcher::complete(&mut state, second, None).unwrap();
    turn.end_stream().unwrap();
    assert_eq!(spoken(turn.drain(&mut state, 50).unwrap()), Some(" Enjoy".to_string()));
    assert_eq!(
        state.snapshot(),
        vec![
            Message::user("draw a cat".to_string()),
            Message::assistant("<img src=\"/a.png\"/>".to_string()),
            Message::assistant("Here it is. Enjoy".to_string()),
            Message::placeholder(),
        ]
    );
}

#[test]
fn unknown_tool_is_passed_over() {
    let (mut turn, mut state, mut rx) = fresh_turn();
    turn.submit_prompt(&mut state, "hello".to_string()).unwrap();
    turn_events(&mut rx);
    let action = turn.on_chunk(&mut state, tool_call("launch_rocket", "{}"), 10).unwrap();
    assert!(action.is_none());
    assert_eq!(turn.phase(), Phase::Streaming);
    assert_eq!(state.len(), 1);
    assert_eq!(turn_events(&mut rx), vec![]);
}

#[test]
fn steps_out_of_phase_are_refused() {
    let (mut turn, mut state, mut rx) = fresh_turn();
    assert_eq!(turn.on_chunk(&mut state, text("Hi"), 1).unwrap_err(), TurnError::WrongPhase);
    assert_eq!(
        turn.on_chunk(&mut state, tool_call("generate_image", "{}"), 1).unwrap_err(),
        TurnError::WrongPhase
    );
    assert_eq!(turn.end_stream(), Err(TurnError::WrongPhase));
    assert_eq!(turn.drain(&mut state, 50).unwrap_err(), TurnError::WrongPhase);
    assert_eq!(turn.phase(), Phase::Idle);
    assert_eq!(state.len(), 0);
    assert_eq!(turn_events(&mut rx), vec![]);

    turn.submit_prompt(&mut state, "hello".to_string()).unwrap();
    assert_eq!(
        turn.submit_prompt(&mut state, "again".to_string()),
        Err(TurnError::WrongPhase)
    );
    assert_eq!(turn.drain(&mut state, 50).unwrap_err(), TurnError::WrongPhase);
    assert_eq!(state.len(), 1);

    turn.end_stream().unwrap();
    assert_eq!(turn.end_stream(), Err(TurnError::WrongPhase));
    assert_eq!(turn.on_chunk(&mut state, text("late"), 5).unwrap_err(), TurnError::WrongPhase);
    turn.drain(&mut state, 50).unwrap();
    assert_eq!(turn.phase(), Phase::Closed);
    assert_eq!(turn.drain(&mut state, 50).unwrap_err(), TurnError::WrongPhase);
    assert_eq!(turn.on_chunk(&mut state, text("late"), 5).unwrap_err(), TurnError::WrongPhase);
    assert_eq!(
        turn.submit_prompt(&mut state, "again".to_string()),
        Err(TurnError::WrongPhase)
    );
    assert_eq!(state.snapshot(), vec![Message::user("hello".to_string())]);
}

#[test]
fn empty_reply_still_publishes_the_transcript() {
    let (mut turn, mut state, mut rx) = fresh_turn();
    turn.submit_prompt(&mut state, "hello".to_string()).unwrap();
    turn.end_stream().unwrap();
    assert_eq!(spoken(turn.drain(&mut state, 50).unwrap()), None);
    assert_eq!(
        turn_events(&mut rx),
        vec![
            Event::NewMessage(MessageTemplate {
                index: 0,
                message: Message::user("hello".to_string())
            }),
            Event::ChatHistory(ChatHistoryTemplate {
                messages: vec![Message::user("hello".to_string())]
            }),
        ]
    );
}

#[test]
fn slow_fragments_are_flushed_as_they_come() {
    let (mut turn, mut state, mut rx) = fresh_turn();
    turn.submit_prompt(&mut state, "hello".to_string()).unwrap();
    turn_events(&mut rx);
    turn.on_chunk(&mut state, text("a"), 100).unwrap();
    turn.on_chunk(&mut state, text("b"), 106).unwrap();
    turn.on_chunk(&mut state, text("c"), 111).unwrap();
    turn.on_chunk(&mut state, text("d"), 112).unwrap();
    assert_eq!(
        turn_events(&mut rx),
        vec![
            Event::NewMessage(MessageTemplate { index: 1, message: Message::placeholder() }),
            Event::UpdateMessage { index: 1, span: "ab".to_string() },
            Event::UpdateMessage { index: 1, span: "cd".to_string() },
        ]
    );
    assert_eq!(state.snapshot()[1].content(), "abcd");
}

#[test]
fn unfinished_sentence_is_spoken_at_the_end() {
    let (mut turn, mut state, _rx) = fresh_turn();
    turn.submit_prompt(&mut state, "hello".to_string()).unwrap();
    assert_eq!(
        spoken(turn.on_chunk(&mut state, text("One."), 1).unwrap()),
        Some("One.".to_string())
    );
    assert_eq!(spoken(turn.on_chunk(&mut state, text(" Two."), 2).unwrap()), None);
    assert_eq!(spoken(turn.on_chunk(&mut state, text(" and"), 3).unwrap()), None);
    turn.end_stream().unwrap();
    assert_eq!(spoken(turn.drain(&mut state, 50).unwrap()), Some(" Two. and".to_string()));
    assert_eq!(state.snapshot()[1].content(), "One. Two. and");
}

#[test]
fn reply_into_another_transcript_is_refused() {
    let (mut turn, mut state, _rx) = fresh_turn();
    turn.submit_prompt(&mut state, "hello".to_string()).unwrap();
    turn.on_chunk(&mut state, text("Hi"), 1).unwrap();
    let mut other = PromptState::new();
    assert_eq!(turn.on_chunk(&mut other, text("!"), 2).unwrap_err(), TurnError::InvalidIndex);
    assert_eq!(
        turn.on_chunk(&mut other, tool_call("generate_image", "{}"), 2).unwrap_err(),
        TurnError::InvalidIndex
    );
    assert_eq!(other.len(), 0);
    turn.end_stream().unwrap();
    assert_eq!(turn.drain(&mut other, 50).unwrap_err(), TurnError::InvalidIndex);
    assert_eq!(turn.phase(), Phase::Draining);
    assert_eq!(spoken(turn.drain(&mut state, 50).unwrap()), Some("Hi".to_string()));
    assert_eq!(state.snapshot()[1].content(), "Hi");
}

#[test]
fn speech_is_announced_in_the_order_of_the_stream() {
    let (mut turn, mut state, mut rx) = fresh_turn();
    turn.submit_prompt(&mut state, "hello".to_string()).unwrap();
    let mut jobs: Vec<AudioJob> = Vec::new();
    for fragment in ["One.", " Two.", " Three.", " Four"] {
        if let Some(Action::Speak { job }) = turn.on_chunk(&mut state, text(fragment), 7).unwrap() {
            jobs.push(job);
        }
    }
    turn.end_stream().unwrap();
    if let Some(Action::Speak { job }) = turn.drain(&mut state, 7).unwrap() {
        jobs.push(job);
    }
    let spans: Vec<(u128, &str)> =
        jobs.iter().map(|job| (job.generation_timestamp(), job.text())).collect();
    assert_eq!(spans, vec![(7, "One."), (8, " Two. Three."), (9, " Four")]);
    let queued: Vec<Event> = turn_events(&mut rx)
        .into_iter()
        .filter(|e| matches!(e, Event::QueueAudio { .. }))
        .collect();
    assert_eq!(
        queued,
        vec![
            Event::QueueAudio { generation_timestamp: 7 },
            Event::QueueAudio { generation_timestamp: 8 },
            Event::QueueAudio { generation_timestamp: 9 },
        ]
    );
    while let Some(job) = jobs.pop() {
        assert_eq!(job.complete(&mut state, Some(vec![1, 2, 3])), Ok(()));
    }
    let played: Vec<u128> = turn_events(&mut rx)
        .into_iter()
        .map(|e| match e {
            Event::PlayAudio { generation_timestamp, .. } => generation_timestamp,
            other => panic!("unexpected event {:?}", other),
        })
        .collect();
    assert_eq!(played, vec![9, 8, 7]);
}
