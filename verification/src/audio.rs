//! Speech for a span of text. A job is announced to the subscriber the moment
//! it is dispatched, under the timestamp of that moment; the clip follows
//! under the same timestamp whenever synthesis is done. Jobs run side by side
//! and may finish in any order.

use vstd::prelude::*;
use crate::state::{AudioError, PromptState, PromptStateView};

verus! {

/// Mathematical value of an [`AudioJob`].
pub struct AudioJobView {
    /// The timestamp under which the job was announced.
    pub generation_timestamp: u128,
    /// The span of text to be spoken.
    pub text: Seq<char>,
}

/// A request for speech that has been announced and not answered yet.
#[derive(Debug)]
pub struct AudioJob {
    generation_timestamp: u128,
    text: String,
}

impl View for AudioJob {
    type V = AudioJobView;

    closed spec fn view(&self) -> AudioJobView {
        AudioJobView { generation_timestamp: self.generation_timestamp, text: self.text@ }
    }
}

/// The job for `text` that is dispatched when the clock reads `clock`, if
/// there is a timestamp left for it.
pub open spec fn dispatched_job(state: PromptStateView, text: Seq<char>, clock: u128) -> Option<
    AudioJobView,
> {
    match state.next_timestamp(clock) {
        Some(generation_timestamp) => Some(AudioJobView { generation_timestamp, text }),
        None => None,
    }
}

/// The state after a job was dispatched when the clock read `clock`: the job
/// has been announced under its timestamp.
pub open spec fn after_dispatch(state: PromptStateView, clock: u128) -> PromptStateView {
    match state.next_timestamp(clock) {
        Some(generation_timestamp) => state.audio_queued(generation_timestamp),
        None => state,
    }
}

impl AudioJob {
    /// Announces speech for `text` and returns the job. The timestamp of the
    /// job is the reading of the clock, `clock`, moved past the last
    /// announcement where the clock has not moved past it by itself. The
    /// announcement is published before this returns, so jobs are announced
    /// in the order in which they are dispatched.
    pub fn dispatch(state: &mut PromptState, text: String, clock: u128) -> (outcome: Result<
        AudioJob,
        AudioError,
    >)
        requires
            old(state).wf(),
        ensures
            final(state).wf(),
            final(state)@ == after_dispatch(old(state)@, clock),
            dispatched_job(old(state)@, text@, clock) matches Some(expected) ==> (outcome
                matches Ok(job) && job@ == expected),
            dispatched_job(old(state)@, text@, clock) is None ==> (outcome matches Err(
                AudioError::StaleTimestamp,
            )),
    {
        match state.next_timestamp(clock) {
            None => Err(AudioError::StaleTimestamp),
            Some(generation_timestamp) => {
                let announced = state.queue_audio(generation_timestamp);
                assert(announced is Ok);
                Ok(AudioJob { generation_timestamp, text })
            },
        }
    }

    /// The timestamp under which the job was announced.
    pub fn generation_timestamp(&self) -> (timestamp: u128)
        ensures
            timestamp == self@.generation_timestamp,
    {
        self.generation_timestamp
    }

    /// The span of text to be spoken.
    pub fn text(&self) -> (text: &str)
        ensures
            text@ == self@.text,
    {
        self.text.as_str()
    }

    /// Ends the job. With a clip, the clip is published under the job's
    /// timestamp; without one, the job ends silently and its announcement
    /// stays unanswered.
    pub fn complete(self, state: &mut PromptState, synthesized: Option<Vec<u8>>) -> (outcome:
        Result<(), AudioError>)
        requires
            old(state).wf(),
        ensures
            final(state).wf(),
            synthesized is None ==> ({
                &&& outcome is Ok
                &&& final(state)@ == old(state)@.audio_abandoned(self@.generation_timestamp)
            }),
            synthesized is Some && old(state)@.pending_audio.contains(self@.generation_timestamp)
                ==> ({
                &&& outcome is Ok
                &&& final(state)@ == old(state)@.audio_sent(
                    self@.generation_timestamp,
                    synthesized->0@,
                )
            }),
            synthesized is Some && !old(state)@.pending_audio.contains(self@.generation_timestamp)
                ==> ({
                &&& outcome == Err::<(), AudioError>(AudioError::NotQueued)
                &&& final(state)@ == old(state)@
            }),
    {
        match synthesized {
            None => {
                state.abandon_audio(self.generation_timestamp);
                Ok(())
            },
            Some(data) => state.send_audio(self.generation_timestamp, data.as_slice()),
        }
    }
}

} // verus!
