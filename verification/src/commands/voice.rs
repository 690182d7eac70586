//! An earlier form of the voice commands, which answers less: only a caller
//! outside voice is told so, and the enqueueing command says when the audio
//! was queued; failures to join or to find the audio go unanswered.
use crate::commands::audio::VoiceReply;
use vstd::prelude::*;

verus! {

/// Where the earlier voice commands stand.
#[derive(Debug, Clone, Copy, PartialEq, Eq, Structural)]
pub enum EnqueueState {
    /// Not started.
    Start,
    /// Waiting for the voice connection.
    Joining,
    /// Waiting for the lookup of the audio file.
    FindingAudio,
    /// Waiting for the audio to be queued.
    Enqueuing,
    /// Finished.
    Done,
}

/// What happened since the last step of an earlier voice command.
pub enum EnqueueEvent {
    /// The command came in, from `guild` (if any), which the cache holds or
    /// not, by a user in the voice channel `channel` (if any).
    Invoked { guild: Option<u64>, cached: bool, channel: Option<u64> },
    /// The bot joined the voice channel, or failed to.
    Joined(bool),
    /// The audio file was found at this path, or not.
    AudioFound(Option<String>),
    /// The audio was queued.
    Queued,
}

/// What an earlier voice command does next.
pub enum EnqueueAction {
    /// Nothing more.
    Finish,
    /// Answer, then finish.
    Reply(VoiceReply),
    /// Join this voice channel of this guild.
    Join { guild: u64, channel: u64 },
    /// Look for the audio file.
    FindAudio,
    /// Queue the audio file at this path.
    Enqueue(String),
    /// Play the audio file at this path at once, then finish.
    Play(String),
}

/// The first step of an earlier voice command: from outside a guild, or from
/// a guild that the cache does not hold, nothing; a caller outside voice is
/// told so; otherwise the bot joins the caller's channel.
pub open spec fn invoked_step(guild: Option<u64>, cached: bool, channel: Option<u64>) -> (
    EnqueueState,
    EnqueueAction,
) {
    match guild {
        None => (EnqueueState::Done, EnqueueAction::Finish),
        Some(g) => if !cached {
            (EnqueueState::Done, EnqueueAction::Finish)
        } else {
            match channel {
                None => (EnqueueState::Done, EnqueueAction::Reply(VoiceReply::MustBeInVoice)),
                Some(c) => (EnqueueState::Joining, EnqueueAction::Join { guild: g, channel: c }),
            }
        },
    }
}

/// A step of the enqueueing command.
pub open spec fn enqueue_step_spec(state: EnqueueState, event: EnqueueEvent) -> (
    EnqueueState,
    EnqueueAction,
) {
    match (state, event) {
        (EnqueueState::Start, EnqueueEvent::Invoked { guild, cached, channel }) => invoked_step(
            guild,
            cached,
            channel,
        ),
        (EnqueueState::Joining, EnqueueEvent::Joined(ok)) => if ok {
            (EnqueueState::FindingAudio, EnqueueAction::FindAudio)
        } else {
            (EnqueueState::Done, EnqueueAction::Finish)
        },
        (EnqueueState::FindingAudio, EnqueueEvent::AudioFound(path)) => match path {
            None => (EnqueueState::Done, EnqueueAction::Finish),
            Some(p) => (EnqueueState::Enqueuing, EnqueueAction::Enqueue(p)),
        },
        (EnqueueState::Enqueuing, EnqueueEvent::Queued) => (
            EnqueueState::Done,
            EnqueueAction::Reply(VoiceReply::Queued),
        ),
        _ => (EnqueueState::Done, EnqueueAction::Finish),
    }
}

/// The first step of an earlier voice command.
fn invoked(guild: Option<u64>, cached: bool, channel: Option<u64>) -> (r: (
    EnqueueState,
    EnqueueAction,
))
    ensures
        r == invoked_step(guild, cached, channel),
{
    match guild {
        None => (EnqueueState::Done, EnqueueAction::Finish),
        Some(g) => if !cached {
            (EnqueueState::Done, EnqueueAction::Finish)
        } else {
            match channel {
                None => (EnqueueState::Done, EnqueueAction::Reply(VoiceReply::MustBeInVoice)),
                Some(c) => (EnqueueState::Joining, EnqueueAction::Join { guild: g, channel: c }),
            }
        },
    }
}

/// The next step of the enqueueing command: it joins the caller's voice
/// channel, looks for the audio file and queues it, then says so; failing to
/// join or to find the audio ends it without an answer. An event that does not
/// fit the state ends the command.
pub fn enqueue_step(state: EnqueueState, event: EnqueueEvent) -> (r: (EnqueueState, EnqueueAction))
    ensures
        r == enqueue_step_spec(state, event),
{
    match (state, event) {
        (EnqueueState::Start, EnqueueEvent::Invoked { guild, cached, channel }) => invoked(
            guild,
            cached,
            channel,
        ),
        (EnqueueState::Joining, EnqueueEvent::Joined(ok)) => if ok {
            (EnqueueState::FindingAudio, EnqueueAction::FindAudio)
        } else {
            (EnqueueState::Done, EnqueueAction::Finish)
        },
        (EnqueueState::FindingAudio, EnqueueEvent::AudioFound(path)) => match path {
            None => (EnqueueState::Done, EnqueueAction::Finish),
            Some(p) => (EnqueueState::Enqueuing, EnqueueAction::Enqueue(p)),
        },
        (EnqueueState::Enqueuing, EnqueueEvent::Queued) => (
            EnqueueState::Done,
            EnqueueAction::Reply(VoiceReply::Queued),
        ),
        _ => (EnqueueState::Done, EnqueueAction::Finish),
    }
}

/// A step of the earlier joining command, which plays the audio at once and
/// answers nothing after joining.
pub open spec fn play_step_spec(state: EnqueueState, event: EnqueueEvent) -> (
    EnqueueState,
    EnqueueAction,
) {
    match (state, event) {
        (EnqueueState::Start, EnqueueEvent::Invoked { guild, cached, channel }) => invoked_step(
            guild,
            cached,
            channel,
        ),
        (EnqueueState::Joining, EnqueueEvent::Joined(ok)) => if ok {
            (EnqueueState::FindingAudio, EnqueueAction::FindAudio)
        } else {
            (EnqueueState::Done, EnqueueAction::Finish)
        },
        (EnqueueState::FindingAudio, EnqueueEvent::AudioFound(path)) => match path {
            None => (EnqueueState::Done, EnqueueAction::Finish),
            Some(p) => (EnqueueState::Done, EnqueueAction::Play(p)),
        },
        _ => (EnqueueState::Done, EnqueueAction::Finish),
    }
}

/// The next step of the earlier joining command: it joins the caller's voice
/// channel, looks for the audio file and plays it; failing to join or to find
/// the audio ends it without an answer.
pub fn play_step(state: EnqueueState, event: EnqueueEvent) -> (r: (EnqueueState, EnqueueAction))
    ensures
        r == play_step_spec(state, event),
{
    match (state, event) {
        (EnqueueState::Start, EnqueueEvent::Invoked { guild, cached, channel }) => invoked(
            guild,
            cached,
            channel,
        ),
        (EnqueueState::Joining, EnqueueEvent::Joined(ok)) => if ok {
            (EnqueueState::FindingAudio, EnqueueAction::FindAudio)
        } else {
            (EnqueueState::Done, EnqueueAction::Finish)
        },
        (EnqueueState::FindingAudio, EnqueueEvent::AudioFound(path)) => match path {
            None => (EnqueueState::Done, EnqueueAction::Finish),
            Some(p) => (EnqueueState::Done, EnqueueAction::Play(p)),
        },
        _ => (EnqueueState::Done, EnqueueAction::Finish),
    }
}

/// Each answer ends the enqueueing command and a finished command does
/// nothing more: each invocation is answered at most once. "Audio encolado."
/// is said only once the audio was queued, which happens only with a path
/// that the lookup found after the bot joined.
pub proof fn law_enqueue_answers_at_most_once(state: EnqueueState, event: EnqueueEvent)
    ensures
        enqueue_step_spec(state, event).1 is Reply ==> enqueue_step_spec(state, event).0
            == EnqueueState::Done,
        state == EnqueueState::Done ==> enqueue_step_spec(state, event).0 == EnqueueState::Done
            && enqueue_step_spec(state, event).1 is Finish,
        enqueue_step_spec(state, event).1 == EnqueueAction::Reply(VoiceReply::Queued) ==> state
            == EnqueueState::Enqueuing && event is Queued,
        enqueue_step_spec(state, event).0 == EnqueueState::Enqueuing ==> (state
            == EnqueueState::FindingAudio && (event matches EnqueueEvent::AudioFound(Some(p))
            && enqueue_step_spec(state, event).1 == EnqueueAction::Enqueue(p))),
        enqueue_step_spec(state, event).0 == EnqueueState::FindingAudio ==> state
            == EnqueueState::Joining && event == EnqueueEvent::Joined(true),
{
}

/// The earlier joining command answers only a caller outside voice, and plays
/// only a path that the lookup found after the bot joined.
pub proof fn law_play_answers_only_outside_voice(state: EnqueueState, event: EnqueueEvent)
    ensures
        play_step_spec(state, event).1 is Reply ==> play_step_spec(state, event).1
            == EnqueueAction::Reply(VoiceReply::MustBeInVoice) && play_step_spec(state, event).0
            == EnqueueState::Done,
        play_step_spec(state, event).1 is Play ==> (state == EnqueueState::FindingAudio && (
        event matches EnqueueEvent::AudioFound(Some(p)) && play_step_spec(state, event).1
            == EnqueueAction::Play(p))),
        play_step_spec(state, event).0 == EnqueueState::FindingAudio ==> state
            == EnqueueState::Joining && event == EnqueueEvent::Joined(true),
{
}

} // verus!
