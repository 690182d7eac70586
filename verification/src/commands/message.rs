//! The `message` command: a message whose embed spins. One such message
//! spins at a time; starting another stops the one before.
use crate::commands::shared::{live_command_view, register_live_command, CommandSpec};
use crate::ui::embeds::{plain_embed, plain_embed_view, string_from, EmbedSpec};
use vstd::prelude::*;

verus! {

/// The `message` live command.
pub fn register_message() -> (c: CommandSpec)
    ensures
        c@ == live_command_view("message"@, "Animacion"@),
{
    register_live_command("message", "Animacion")
}

/// The spinning embed: titled "Status", with the frame as its description.
pub fn build_embed(frame: &str) -> (e: EmbedSpec)
    ensures
        e@ == plain_embed_view("Status"@, frame@),
{
    plain_embed("Status", string_from(frame))
}

/// The spinning message: where it is and the task that spins it.
pub struct LiveMessage<H> {
    pub channel_id: u64,
    pub message_id: u64,
    pub handle: H,
}

/// The one spinning message, if any.
pub struct LiveMessageSlot<H> {
    active: Option<LiveMessage<H>>,
}

/// The task of a spinning message, if any.
pub open spec fn slot_handle<H>(m: Option<LiveMessage<H>>) -> Option<H> {
    match m {
        Some(m) => Some(m.handle),
        None => None,
    }
}

impl<H> LiveMessageSlot<H> {
    /// The spinning message, if any.
    pub closed spec fn current(&self) -> Option<LiveMessage<H>> {
        self.active
    }

    /// No message spins.
    pub fn new() -> (s: Self)
        ensures
            s.current() is None,
    {
        LiveMessageSlot { active: None }
    }

    /// Stops the spinning message: it is forgotten, and its task is handed
    /// back to be stopped.
    pub fn stop(&mut self) -> (h: Option<H>)
        ensures
            final(self).current() is None,
            h == slot_handle(old(self).current()),
    {
        match self.active.take() {
            Some(m) => Some(m.handle),
            None => None,
        }
    }

    /// Records the message that now spins, with its task; the one recorded
    /// before, if any, is forgotten and its task handed back.
    pub fn store(&mut self, channel_id: u64, message_id: u64, handle: H) -> (replaced: Option<H>)
        ensures
            final(self).current() == Some(LiveMessage { channel_id, message_id, handle }),
            replaced == slot_handle(old(self).current()),
    {
        let replaced = self.stop();
        self.active = Some(LiveMessage { channel_id, message_id, handle });
        replaced
    }
}

} // verus!
