//! Clearing the bot's own recent messages from a channel.
//!
//! Of the latest messages of the channel, those the bot wrote are deleted:
//! all at once in a guild, else one by one (at most ten), stopping at the
//! first failure. The answer says how many went.
use crate::text::{push_decimal, push_str};
use vstd::prelude::*;

verus! {

/// How many recent messages are read from the channel.
pub const FETCH_LIMIT: u8 = 100;

/// At most this many messages are deleted one by one outside guilds.
pub const SINGLE_DELETE_LIMIT: usize = 10;

/// The answer when the messages cannot be read.
pub const READ_ERROR: &'static str = "❌ No tengo permiso para leer mensajes en este canal.";

/// The answer when none of the messages is the bot's.
pub const NOTHING_TO_DELETE: &'static str = "No encontré mensajes míos para borrar.";

/// The answer when deleting the messages at once fails.
pub const BULK_ERROR: &'static str = "Hubo un error borrando (quizás son mensajes de más de 14 días).";

/// A message of the channel: its id and its author's.
#[derive(Debug, Clone, Copy, PartialEq, Eq, Structural)]
pub struct MessageInfo {
    pub id: u64,
    pub author_id: u64,
}

/// The ids of the messages written by `bot_id`, in their order.
pub open spec fn own_message_ids(messages: Seq<MessageInfo>, bot_id: u64) -> Seq<u64>
    decreases messages.len(),
{
    if messages.len() == 0 {
        seq![]
    } else {
        let rest = own_message_ids(messages.drop_last(), bot_id);
        if messages.last().author_id == bot_id {
            rest.push(messages.last().id)
        } else {
            rest
        }
    }
}

/// The ids of the messages written by the bot, in their order.
pub fn bot_message_ids(messages: &Vec<MessageInfo>, bot_id: u64) -> (ids: Vec<u64>)
    ensures
        ids@ == own_message_ids(messages@, bot_id),
{
    let mut ids: Vec<u64> = Vec::new();
    let mut i: usize = 0;
    while i < messages.len()
        invariant
            i <= messages.len(),
            ids@ == own_message_ids(messages@.take(i as int), bot_id),
        decreases messages.len() - i,
    {
        assert(messages@.take(i + 1).drop_last() =~= messages@.take(i as int));
        if messages[i].author_id == bot_id {
            ids.push(messages[i].id);
        }
        i = i + 1;
    }
    assert(messages@.take(messages.len() as int) =~= messages@);
    ids
}

/// How the bot's messages are deleted.
pub enum ClearPlan {
    /// None of the messages is the bot's.
    NothingToDelete,
    /// Delete these messages at once.
    Bulk(Vec<u64>),
    /// Delete these messages one by one.
    OneByOne(Vec<u64>),
}

/// The plan for the bot's messages `ids`: nothing to do without messages;
/// all at once in a guild; else the first ten, one by one.
pub fn plan_clear(ids: Vec<u64>, in_guild: bool) -> (p: ClearPlan)
    ensures
        ids@.len() == 0 ==> p is NothingToDelete,
        ids@.len() > 0 && in_guild ==> (p matches ClearPlan::Bulk(v) && v@ == ids@),
        ids@.len() > 0 && !in_guild ==> (p matches ClearPlan::OneByOne(v) && v@ == ids@.take(
            if ids@.len() < SINGLE_DELETE_LIMIT {
                ids@.len() as int
            } else {
                SINGLE_DELETE_LIMIT as int
            },
        )),
{
    if ids.len() == 0 {
        ClearPlan::NothingToDelete
    } else if in_guild {
        ClearPlan::Bulk(ids)
    } else {
        let mut ids = ids;
        ids.truncate(SINGLE_DELETE_LIMIT);
        ClearPlan::OneByOne(ids)
    }
}

/// Deleting messages one by one, stopping at the first failure.
pub struct SingleDeletions {
    ids: Vec<u64>,
    deleted: usize,
    stopped: bool,
}

impl SingleDeletions {
    /// The messages to delete.
    pub closed spec fn targets(&self) -> Seq<u64> {
        self.ids@
    }

    /// How many were deleted so far: each one before the current was.
    pub closed spec fn deleted_count(&self) -> nat {
        self.deleted as nat
    }

    /// Whether a deletion failed.
    pub closed spec fn has_stopped(&self) -> bool {
        self.stopped
    }

    /// The deletions are consistent: no more deleted than targets.
    pub closed spec fn wf(&self) -> bool {
        self.deleted <= self.ids@.len()
    }

    /// Starts deleting `ids` in their order.
    pub fn new(ids: Vec<u64>) -> (d: Self)
        ensures
            d.wf(),
            d.targets() == ids@,
            d.deleted_count() == 0,
            !d.has_stopped(),
    {
        SingleDeletions { ids, deleted: 0, stopped: false }
    }

    /// The next message to delete: none once a deletion failed or all were deleted.
    pub fn next_message(&self) -> (m: Option<u64>)
        requires
            self.wf(),
        ensures
            m == (if self.has_stopped() || self.deleted_count() >= self.targets().len() {
                None
            } else {
                Some(self.targets()[self.deleted_count() as int])
            }),
    {
        if self.stopped || self.deleted >= self.ids.len() {
            None
        } else {
            Some(self.ids[self.deleted])
        }
    }

    /// Records whether the deletion of the next message succeeded.
    pub fn record(&mut self, ok: bool)
        requires
            old(self).wf(),
            !old(self).has_stopped(),
            old(self).deleted_count() < old(self).targets().len(),
        ensures
            final(self).wf(),
            final(self).targets() == old(self).targets(),
            final(self).deleted_count() == old(self).deleted_count() + (if ok {
                1int
            } else {
                0int
            }),
            final(self).has_stopped() == !ok,
    {
        if ok {
            assert(self.deleted < self.ids.len());
            self.deleted = self.deleted + 1;
        } else {
            self.stopped = true;
        }
    }

    /// How many messages were deleted.
    pub fn deleted(&self) -> (n: usize)
        ensures
            n == self.deleted_count(),
    {
        self.deleted
    }
}

/// The answer after deleting `deleted` messages.
pub open spec fn clear_report_text(deleted: nat) -> Seq<char> {
    if deleted > 0 {
        "✅ Se eliminaron "@ + crate::text::decimal(deleted) + " mensajes del bot."@
    } else {
        "No se pudo eliminar ningún mensaje."@
    }
}

/// The answer after deleting `deleted` messages.
pub fn clear_report(deleted: usize) -> (s: String)
    ensures
        s@ == clear_report_text(deleted as nat),
{
    let mut s = String::new();
    if deleted > 0 {
        push_str(&mut s, "✅ Se eliminaron ");
        push_decimal(&mut s, deleted as u128);
        push_str(&mut s, " mensajes del bot.");
    } else {
        push_str(&mut s, "No se pudo eliminar ningún mensaje.");
    }
    assert(s@ =~= clear_report_text(deleted as nat));
    s
}

/// Clearing targets the bot's messages and no other: each listed id is that
/// of a message the bot wrote, and each message the bot wrote is listed.
pub proof fn law_clear_targets_exactly_the_bots_messages(messages: Seq<MessageInfo>, bot_id: u64)
    ensures
        forall|k: int|
            0 <= k < own_message_ids(messages, bot_id).len() ==> #[trigger] written_by(
                messages,
                bot_id,
                own_message_ids(messages, bot_id)[k],
            ),
        forall|i: int|
            0 <= i < messages.len() && #[trigger] messages[i].author_id == bot_id ==> own_message_ids(
                messages,
                bot_id,
            ).contains(messages[i].id),
    decreases messages.len(),
{
    if messages.len() > 0 {
        let p = messages.drop_last();
        law_clear_targets_exactly_the_bots_messages(p, bot_id);
        let n = p.len() as int;
        assert forall|k: int|
            0 <= k < own_message_ids(messages, bot_id).len() implies #[trigger] written_by(
            messages,
            bot_id,
            own_message_ids(messages, bot_id)[k],
        ) by {
            let id = own_message_ids(messages, bot_id)[k];
            if k < own_message_ids(p, bot_id).len() {
                assert(id == own_message_ids(p, bot_id)[k]);
                assert(written_by(p, bot_id, own_message_ids(p, bot_id)[k]));
                let i = choose|i: int| 0 <= i < p.len() && p[i].author_id == bot_id && p[i].id == id;
                assert(messages[i] == p[i]);
            } else {
                assert(messages[n] == messages.last());
                assert(messages[n].author_id == bot_id && messages[n].id == id);
            }
        }
        assert forall|i: int|
            0 <= i < messages.len() && #[trigger] messages[i].author_id == bot_id implies own_message_ids(
            messages,
            bot_id,
        ).contains(messages[i].id) by {
            let own = own_message_ids(messages, bot_id);
            let rest = own_message_ids(p, bot_id);
            if i < n {
                assert(messages[i] == p[i]);
                assert(p[i].author_id == bot_id);
                assert(rest.contains(p[i].id));
                let k = choose|k: int| 0 <= k < rest.len() && rest[k] == p[i].id;
                assert(own[k] == rest[k]);
            } else {
                assert(own[own.len() - 1] == messages[n].id);
            }
        }
    }
}

/// Some message of `messages` written by `author` has the id `id`.
pub open spec fn written_by(messages: Seq<MessageInfo>, author: u64, id: u64) -> bool {
    exists|i: int| 0 <= i < messages.len() && messages[i].author_id == author && messages[i].id == id
}

/// The ids that clearing lists are those of the bot's messages, in their
/// order, each once: the messages kept by their author being the bot, each
/// taken by its id.
pub proof fn law_bot_ids_are_the_filtered_messages(messages: Seq<MessageInfo>, bot_id: u64)
    ensures
        own_message_ids(messages, bot_id) == messages.filter(
            |m: MessageInfo| m.author_id == bot_id,
        ).map_values(|m: MessageInfo| m.id),
    decreases messages.len(),
{
    reveal(Seq::filter);
    let pred = |m: MessageInfo| m.author_id == bot_id;
    if messages.len() > 0 {
        let p = messages.drop_last();
        law_bot_ids_are_the_filtered_messages(p, bot_id);
        assert(messages.filter(pred) == if pred(messages.last()) {
            p.filter(pred).push(messages.last())
        } else {
            p.filter(pred)
        });
        if pred(messages.last()) {
            assert(p.filter(pred).push(messages.last()).map_values(|m: MessageInfo| m.id)
                =~= p.filter(pred).map_values(|m: MessageInfo| m.id).push(messages.last().id));
        }
    } else {
        assert(messages.filter(pred).map_values(|m: MessageInfo| m.id) =~= Seq::<u64>::empty());
    }
}

} // verus!
