//! The `status` command: an embed with the state of the host, optionally
//! kept up to date with a spinner.
use crate::commands::shared::{live_command_view, register_live_command, CommandSpec};
use crate::status::metrics::StatusSnapshot;
use crate::ui::embeds::{info_embed, info_embed_view, string_from, EmbedSpec};
use crate::workspace::paths::texts;
use vstd::prelude::*;

verus! {

/// Renders the status embed.
pub struct StatusRenderer;

impl StatusRenderer {
    /// The status embed for a spinner frame and a reading of the host.
    pub fn render(&self, frame: &str, status: &StatusSnapshot) -> (e: EmbedSpec)
        ensures
            e@ == info_embed_view(frame@, *status),
    {
        info_embed(frame, status)
    }
}

/// The frames of the spinner: `/`, `-`, `\`, `|`.
pub open spec fn spinner_texts() -> Seq<Seq<char>> {
    seq!["/"@, "-"@, "\\"@, "|"@]
}

/// The frames of the spinner, in order.
pub fn spinner_frames() -> (v: Vec<String>)
    ensures
        texts(v@) == spinner_texts(),
{
    let mut v: Vec<String> = Vec::new();
    v.push(string_from("/"));
    v.push(string_from("-"));
    v.push(string_from("\\"));
    v.push(string_from("|"));
    assert(texts(v@) =~= spinner_texts());
    v
}

/// The `status` live command.
pub fn register_status() -> (c: CommandSpec)
    ensures
        c@ == live_command_view("status"@, "Muestra información sobre el bot"@),
{
    register_live_command("status", "Muestra información sobre el bot")
}

} // verus!
