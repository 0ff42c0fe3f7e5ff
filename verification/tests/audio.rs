use chat_coordinator::audio::AudioJob;
use chat_coordinator::event::Event;
use chat_coordinator::state::{AudioError, PromptState};
use tokio::sync::mpsc::{channel, Receiver};

fn audio_events(rx: &mut Receiver<Event>) -> Vec<Event> {
    let mut events = Vec::new();
    while let Ok(event) = rx.try_recv() {
        events.push(event);
    }
    events
}

fn listening_state() -> (PromptState, Receiver<Event>) {
    let (tx, rx) = channel::<Event>(100);
    let mut state = PromptState::new();
    state.attach(tx);
    (state, rx)
}

#[test]
fn job_is_announced_at_dispatch() {
    let (mut state, mut rx) = listening_state();
    let job = AudioJob::dispatch(&mut state, "Hi there.".to_string(), 1234).unwrap();
    assert_eq!(job.generation_timestamp(), 1234);
    assert_eq!(job.text(), "Hi there.");
    assert_eq!(audio_events(&mut rx), vec![Event::QueueAudio { generation_timestamp: 1234 }]);
}

#[test]
fn clip_carries_the_timestamp_of_dispatch() {
    let (mut state, mut rx) = listening_state();
    let job = AudioJob::dispatch(&mut state, "Hi there.".to_string(), 1234).unwrap();
    assert_eq!(job.complete(&mut state, Some(b"foobar".to_vec())), Ok(()));
    assert_eq!(
        audio_events(&mut rx),
        vec![
            Event::QueueAudio { generation_timestamp: 1234 },
            Event::PlayAudio {
                encoded_audio: "Zm9vYmFy".to_string(),
                generation_timestamp: 1234
            },
        ]
    );
}

#[test]
fn failed_synthesis_ends_silently() {
    let (mut state, mut rx) = listening_state();
    let job = AudioJob::dispatch(&mut state, "Hi there.".to_string(), 1234).unwrap();
    assert_eq!(job.complete(&mut state, None), Ok(()));
    assert_eq!(audio_events(&mut rx), vec![Event::QueueAudio { generation_timestamp: 1234 }]);
    assert_eq!(state.send_audio(1234, b"late"), Err(AudioError::NotQueued));
}

#[test]
fn dispatch_moves_past_the_last_announcement() {
    let (mut state, mut rx) = listening_state();
    let first = AudioJob::dispatch(&mut state, "One.".to_string(), 50).unwrap();
    let second = AudioJob::dispatch(&mut state, "Two.".to_string(), 50).unwrap();
    let third = AudioJob::dispatch(&mut state, "Three.".to_string(), 49).unwrap();
    let fourth = AudioJob::dispatch(&mut state, "Four.".to_string(), 60).unwrap();
    assert_eq!(first.generation_timestamp(), 50);
    assert_eq!(second.generation_timestamp(), 51);
    assert_eq!(third.generation_timestamp(), 52);
    assert_eq!(fourth.generation_timestamp(), 60);
    assert_eq!(
        audio_events(&mut rx),
        vec![
            Event::QueueAudio { generation_timestamp: 50 },
            Event::QueueAudio { generation_timestamp: 51 },
            Event::QueueAudio { generation_timestamp: 52 },
            Event::QueueAudio { generation_timestamp: 60 },
        ]
    );
}

#[test]
fn dispatch_fails_when_no_later_timestamp_exists() {
    let (mut state, mut rx) = listening_state();
    let last = AudioJob::dispatch(&mut state, "One.".to_string(), u128::MAX).unwrap();
    assert_eq!(last.generation_timestamp(), u128::MAX);
    assert_eq!(
        AudioJob::dispatch(&mut state, "Two.".to_string(), 7).unwrap_err(),
        AudioError::StaleTimestamp
    );
    assert_eq!(
        AudioJob::dispatch(&mut state, "Two.".to_string(), u128::MAX).unwrap_err(),
        AudioError::StaleTimestamp
    );
    assert_eq!(
        audio_events(&mut rx),
        vec![Event::QueueAudio { generation_timestamp: u128::MAX }]
    );
}

#[test]
fn announcements_keep_dispatch_order_whatever_the_completion_order() {
    let (mut state, mut rx) = listening_state();
    let first = AudioJob::dispatch(&mut state, "One.".to_string(), 10).unwrap();
    let second = AudioJob::dispatch(&mut state, "Two. Three.".to_string(), 20).unwrap();
    assert_eq!(second.complete(&mut state, Some(vec![2])), Ok(()));
    assert_eq!(first.complete(&mut state, Some(vec![1])), Ok(()));
    let events = audio_events(&mut rx);
    assert_eq!(
        events,
        vec![
            Event::QueueAudio { generation_timestamp: 10 },
            Event::QueueAudio { generation_timestamp: 20 },
            Event::PlayAudio { encoded_audio: "Ag==".to_string(), generation_timestamp: 20 },
            Event::PlayAudio { encoded_audio: "AQ==".to_string(), generation_timestamp: 10 },
        ]
    );
}

#[test]
fn every_clip_follows_its_announcement() {
    let (mut state, mut rx) = listening_state();
    let mut jobs = Vec::new();
    for t in 1..=6u128 {
        jobs.push(AudioJob::dispatch(&mut state, format!("span {}", t), t * 10).unwrap());
        if t % 2 == 0 {
            let job = jobs.remove(0);
            job.complete(&mut state, Some(vec![t as u8])).unwrap();
        }
    }
    while let Some(job) = jobs.pop() {
        job.complete(&mut state, Some(vec![0])).unwrap();
    }
    let events = audio_events(&mut rx);
    let mut announced: Vec<u128> = Vec::new();
    let mut played: Vec<u128> = Vec::new();
    for event in events {
        match event {
            Event::QueueAudio { generation_timestamp } => {
                assert!(announced.iter().all(|earlier| *earlier < generation_timestamp));
                announced.push(generation_timestamp);
            }
            Event::PlayAudio { generation_timestamp, .. } => {
                assert!(announced.contains(&generation_timestamp));
                assert!(!played.contains(&generation_timestamp));
                played.push(generation_timestamp);
            }
            other => panic!("unexpected event {:?}", other),
        }
    }
    assert_eq!(announced, vec![10, 20, 30, 40, 50, 60]);
    assert_eq!(played.len(), 6);
}
