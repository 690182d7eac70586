//! Voice commands: join a voice channel and play the bot's audio, stop the
//! playback, leave the channel.
use crate::commands::shared::{simple_command, simple_command_view, CommandSpec};
use vstd::prelude::*;

verus! {

/// The `join` command named `name`.
pub fn register_join(name: &str) -> (c: CommandSpec)
    ensures
        c@ == simple_command_view(name@, "El bot se une a tu canal de voz y reproduce un audio"@),
{
    simple_command(name, "El bot se une a tu canal de voz y reproduce un audio")
}

/// The `stop` command named `name`.
pub fn register_stop(name: &str) -> (c: CommandSpec)
    ensures
        c@ == simple_command_view(name@, "Detiene la reproducción y limpia la cola"@),
{
    simple_command(name, "Detiene la reproducción y limpia la cola")
}

/// The `leave` command named `name`.
pub fn register_leave(name: &str) -> (c: CommandSpec)
    ensures
        c@ == simple_command_view(name@, "Saca al bot del canal de voz"@),
{
    simple_command(name, "Saca al bot del canal de voz")
}

/// The voice state of a member of a guild: the voice channel they are in, if any.
#[derive(Debug, Clone, Copy, PartialEq, Eq, Structural)]
pub struct VoiceState {
    pub user_id: u64,
    pub channel_id: Option<u64>,
}

/// The voice channel that the first state of `user_id` names, if any.
pub open spec fn voice_channel_in(states: Seq<VoiceState>, user_id: u64) -> Option<u64>
    decreases states.len(),
{
    if states.len() == 0 {
        None
    } else if states[0].user_id == user_id {
        states[0].channel_id
    } else {
        voice_channel_in(states.drop_first(), user_id)
    }
}

/// The lookup finds the user's first voice state, wherever it stands: when
/// some state is the user's and none before it is, the answer is the channel
/// that state names; when no state is the user's, there is none.
pub proof fn law_voice_channel_is_the_users_state(states: Seq<VoiceState>, user_id: u64)
    ensures
        forall|i: int|
            0 <= i < states.len() && #[trigger] states[i].user_id == user_id && (forall|j: int|
                0 <= j < i ==> states[j].user_id != user_id) ==> voice_channel_in(states, user_id)
                == states[i].channel_id,
        (forall|j: int| 0 <= j < states.len() ==> states[j].user_id != user_id)
            ==> voice_channel_in(states, user_id) is None,
    decreases states.len(),
{
    if states.len() > 0 {
        let rest = states.drop_first();
        law_voice_channel_is_the_users_state(rest, user_id);
        assert forall|i: int|
            0 <= i < states.len() && #[trigger] states[i].user_id == user_id && (forall|j: int|
                0 <= j < i ==> states[j].user_id != user_id) implies voice_channel_in(
            states,
            user_id,
        ) == states[i].channel_id by {
            if i > 0 {
                assert(states[0].user_id != user_id);
                assert(rest[i - 1] == states[i]);
                assert forall|j: int| 0 <= j < i - 1 implies rest[j].user_id != user_id by {
                    assert(rest[j] == states[j + 1]);
                }
                assert(rest[i - 1].user_id == user_id);
            }
        }
        if forall|j: int| 0 <= j < states.len() ==> states[j].user_id != user_id {
            assert(states[0].user_id != user_id);
            assert forall|j: int| 0 <= j < rest.len() implies rest[j].user_id != user_id by {
                assert(rest[j] == states[j + 1]);
            }
        }
    }
}

/// The voice channel the user is in: only inside a guild whose voice states
/// are known.
pub open spec fn user_voice_channel_spec(
    guild_id: Option<u64>,
    voice_states: Option<Seq<VoiceState>>,
    user_id: u64,
) -> Option<u64> {
    match guild_id {
        None => None,
        Some(_) => match voice_states {
            None => None,
            Some(states) => voice_channel_in(states, user_id),
        },
    }
}

/// The voice channel that the first state of `user_id` names, if any.
fn voice_channel_of(states: &Vec<VoiceState>, user_id: u64) -> (c: Option<u64>)
    ensures
        c == voice_channel_in(states@, user_id),
{
    let mut i: usize = 0;
    assert(states@.subrange(0, states.len() as int) =~= states@);
    while i < states.len()
        invariant
            i <= states.len(),
            voice_channel_in(states@, user_id) == voice_channel_in(
                states@.subrange(i as int, states.len() as int),
                user_id,
            ),
        decreases states.len() - i,
    {
        let ghost rest = states@.subrange(i as int, states.len() as int);
        assert(rest[0] == states@[i as int]);
        if states[i].user_id == user_id {
            return states[i].channel_id;
        }
        assert(rest.drop_first() =~= states@.subrange(i + 1, states.len() as int));
        i = i + 1;
    }
    None
}

/// The voice channel the user is in, from the voice states of the guild of
/// the command (`None` when the guild is not known).
pub fn user_voice_channel_id(
    guild_id: Option<u64>,
    voice_states: &Option<Vec<VoiceState>>,
    user_id: u64,
) -> (c: Option<u64>)
    ensures
        c == user_voice_channel_spec(
            guild_id,
            match voice_states {
                Some(v) => Some(v@),
                None => None,
            },
            user_id,
        ),
{
    if guild_id.is_none() {
        return None;
    }
    match voice_states {
        None => None,
        Some(states) => voice_channel_of(states, user_id),
    }
}

/// The answers of the voice commands.
#[derive(Debug, Clone, Copy, PartialEq, Eq, Structural)]
pub enum VoiceReply {
    MustBeInVoice,
    JoinFailed,
    AudioNotFound,
    Queued,
    Stopped,
    NotInVoice,
    Left,
    LeaveFailed,
}

/// The text of an answer.
pub open spec fn voice_reply_text(r: VoiceReply) -> Seq<char> {
    match r {
        VoiceReply::MustBeInVoice => "¡Debes estar en un canal de voz!"@,
        VoiceReply::JoinFailed => "No pude unirme al canal de voz."@,
        VoiceReply::AudioNotFound => "No se encontró el archivo de audio."@,
        VoiceReply::Queued => "Audio encolado."@,
        VoiceReply::Stopped => "Reproducción detenida y cola limpiada."@,
        VoiceReply::NotInVoice => "No estoy en un canal de voz."@,
        VoiceReply::Left => "Salí del canal de voz."@,
        VoiceReply::LeaveFailed => "No pude salir del canal de voz."@,
    }
}

impl VoiceReply {
    /// The text of the answer.
    pub fn text(&self) -> (t: &'static str)
        ensures
            t@ == voice_reply_text(*self),
    {
        match self {
            VoiceReply::MustBeInVoice => "¡Debes estar en un canal de voz!",
            VoiceReply::JoinFailed => "No pude unirme al canal de voz.",
            VoiceReply::AudioNotFound => "No se encontró el archivo de audio.",
            VoiceReply::Queued => "Audio encolado.",
            VoiceReply::Stopped => "Reproducción detenida y cola limpiada.",
            VoiceReply::NotInVoice => "No estoy en un canal de voz.",
            VoiceReply::Left => "Salí del canal de voz.",
            VoiceReply::LeaveFailed => "No pude salir del canal de voz.",
        }
    }
}

/// Where the `join` command stands.
#[derive(Debug, Clone, Copy, PartialEq, Eq, Structural)]
pub enum JoinState {
    /// Not started.
    Start,
    /// Waiting for the voice connection.
    Joining,
    /// Waiting for the lookup of the audio file.
    FindingAudio,
    /// Waiting for the audio to be queued.
    Enqueuing,
    /// Finished.
    Done,
}

/// What happened since the last step of the `join` command.
pub enum JoinEvent {
    /// The command came in, from `guild` (if any), by a user in the voice
    /// channel `channel` (if any).
    Invoked { guild: Option<u64>, channel: Option<u64> },
    /// The bot joined the voice channel, or failed to.
    Joined(bool),
    /// The audio file was found at this path, or not.
    AudioFound(Option<String>),
    /// The audio was queued.
    Queued,
}

/// What the `join` command does next.
pub enum JoinAction {
    /// Nothing more.
    Finish,
    /// Answer, then finish.
    Reply(VoiceReply),
    /// Join this voice channel of this guild.
    Join { guild: u64, channel: u64 },
    /// Look for the audio file.
    FindAudio,
    /// Queue the audio file at this path.
    Enqueue(String),
}

/// A step of the `join` command, by the texts of its values.
pub open spec fn join_step_spec(state: JoinState, event: JoinEvent) -> (JoinState, JoinAction) {
    match (state, event) {
        (JoinState::Start, JoinEvent::Invoked { guild, channel }) => match guild {
            None => (JoinState::Done, JoinAction::Finish),
            Some(g) => match channel {
                None => (JoinState::Done, JoinAction::Reply(VoiceReply::MustBeInVoice)),
                Some(c) => (JoinState::Joining, JoinAction::Join { guild: g, channel: c }),
            },
        },
        (JoinState::Joining, JoinEvent::Joined(ok)) => if ok {
            (JoinState::FindingAudio, JoinAction::FindAudio)
        } else {
            (JoinState::Done, JoinAction::Reply(VoiceReply::JoinFailed))
        },
        (JoinState::FindingAudio, JoinEvent::AudioFound(path)) => match path {
            None => (JoinState::Done, JoinAction::Reply(VoiceReply::AudioNotFound)),
            Some(p) => (JoinState::Enqueuing, JoinAction::Enqueue(p)),
        },
        (JoinState::Enqueuing, JoinEvent::Queued) => (
            JoinState::Done,
            JoinAction::Reply(VoiceReply::Queued),
        ),
        _ => (JoinState::Done, JoinAction::Finish),
    }
}

/// The next step of the `join` command: from outside a guild it does
/// nothing; a user outside voice is told so; otherwise the bot joins, looks
/// for its audio file, queues it and says so, answering with the first
/// failure instead. An event that does not fit the state ends the command.
pub fn join_step(state: JoinState, event: JoinEvent) -> (r: (JoinState, JoinAction))
    ensures
        r == join_step_spec(state, event),
{
    match (state, event) {
        (JoinState::Start, JoinEvent::Invoked { guild, channel }) => match guild {
            None => (JoinState::Done, JoinAction::Finish),
            Some(g) => match channel {
                None => (JoinState::Done, JoinAction::Reply(VoiceReply::MustBeInVoice)),
                Some(c) => (JoinState::Joining, JoinAction::Join { guild: g, channel: c }),
            },
        },
        (JoinState::Joining, JoinEvent::Joined(ok)) => if ok {
            (JoinState::FindingAudio, JoinAction::FindAudio)
        } else {
            (JoinState::Done, JoinAction::Reply(VoiceReply::JoinFailed))
        },
        (JoinState::FindingAudio, JoinEvent::AudioFound(path)) => match path {
            None => (JoinState::Done, JoinAction::Reply(VoiceReply::AudioNotFound)),
            Some(p) => (JoinState::Enqueuing, JoinAction::Enqueue(p)),
        },
        (JoinState::Enqueuing, JoinEvent::Queued) => (
            JoinState::Done,
            JoinAction::Reply(VoiceReply::Queued),
        ),
        _ => (JoinState::Done, JoinAction::Finish),
    }
}

/// Every answer ends the `join` command, and a finished command does nothing
/// more: each invocation is answered at most once.
pub proof fn law_join_answers_at_most_once(state: JoinState, event: JoinEvent)
    ensures
        join_step_spec(state, event).1 is Reply ==> join_step_spec(state, event).0
            == JoinState::Done,
        state == JoinState::Done ==> join_step_spec(state, event).0 == JoinState::Done
            && join_step_spec(state, event).1 is Finish,
{
}

/// "Audio encolado." is said only once the audio was queued, and the audio
/// is queued only from a path that the lookup found after the bot joined.
pub proof fn law_join_queues_only_after_joining(state: JoinState, event: JoinEvent)
    ensures
        join_step_spec(state, event).1 == JoinAction::Reply(VoiceReply::Queued) ==> state
            == JoinState::Enqueuing && event is Queued,
        join_step_spec(state, event).1 is Enqueue ==> (state == JoinState::FindingAudio && (
        event matches JoinEvent::AudioFound(Some(p)) && join_step_spec(state, event).1
            == JoinAction::Enqueue(p))),
        join_step_spec(state, event).0 == JoinState::FindingAudio ==> state == JoinState::Joining
            && event == JoinEvent::Joined(true),
{
}

/// The answer of the `stop` command: whether the bot was in a call of the guild.
pub fn stop_outcome(in_call: bool) -> (r: VoiceReply)
    ensures
        r == (if in_call {
            VoiceReply::Stopped
        } else {
            VoiceReply::NotInVoice
        }),
{
    if in_call {
        VoiceReply::Stopped
    } else {
        VoiceReply::NotInVoice
    }
}

/// The answer of the `leave` command: whether leaving the call succeeded.
pub fn leave_outcome(left: bool) -> (r: VoiceReply)
    ensures
        r == (if left {
            VoiceReply::Left
        } else {
            VoiceReply::LeaveFailed
        }),
{
    if left {
        VoiceReply::Left
    } else {
        VoiceReply::LeaveFailed
    }
}

} // verus!
