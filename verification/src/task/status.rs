//! The status updater: keeps a status embed up to date with a progress bar.
//! Its scopes mirror those of the live embeds, whose registry it uses.
use crate::task::embed_updater::LiveScope;
use vstd::prelude::*;

verus! {

/// Where a status updater runs: a guild, or a channel outside any guild.
#[derive(Debug, Clone, Copy, PartialEq, Eq, Hash, Structural)]
pub enum StatusScope {
    Guild(u64),
    Channel(u64),
}

impl StatusScope {
    /// The scope of a command: its guild when it has one, else its channel.
    pub fn from_command(guild_id: Option<u64>, channel_id: u64) -> (s: StatusScope)
        ensures
            s == (match guild_id {
                Some(g) => StatusScope::Guild(g),
                None => StatusScope::Channel(channel_id),
            }),
    {
        match guild_id {
            Some(g) => StatusScope::Guild(g),
            None => StatusScope::Channel(channel_id),
        }
    }

    /// The same place as a live-embed scope.
    pub fn live_scope(&self) -> (s: LiveScope)
        ensures
            s == (match *self {
                StatusScope::Guild(g) => LiveScope::Guild(g),
                StatusScope::Channel(c) => LiveScope::Channel(c),
            }),
    {
        match *self {
            StatusScope::Guild(g) => LiveScope::Guild(g),
            StatusScope::Channel(c) => LiveScope::Channel(c),
        }
    }
}

/// The number of frames of the progress bar.
pub const STATUS_FRAME_COUNT: usize = 7;

/// The frames of the progress bar.
pub open spec fn status_frame_texts() -> Seq<Seq<char>> {
    seq![
        "[■□□□]"@,
        "[■■□□]"@,
        "[■■■□]"@,
        "[■■■■]"@,
        "[□■■■]"@,
        "[□□■■]"@,
        "[□□□■]"@,
    ]
}

/// The frame of the progress bar at step `i`: the frames in a cycle.
pub fn status_frame(i: usize) -> (f: &'static str)
    ensures
        f@ == status_frame_texts()[(i % STATUS_FRAME_COUNT) as int],
{
    let k = i % STATUS_FRAME_COUNT;
    if k == 0 {
        "[■□□□]"
    } else if k == 1 {
        "[■■□□]"
    } else if k == 2 {
        "[■■■□]"
    } else if k == 3 {
        "[■■■■]"
    } else if k == 4 {
        "[□■■■]"
    } else if k == 5 {
        "[□□■■]"
    } else {
        "[□□□■]"
    }
}

} // verus!
