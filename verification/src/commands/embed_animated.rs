//! The `animated_embed` command: an embed that plays the animation file
//! `animated_embed.txt`.
use crate::commands::shared::{live_command_view, register_live_command, CommandSpec};
use crate::ui::embeds::{code_block, framed_embed, plain_embed_view, EmbedSpec};
use vstd::prelude::*;

verus! {

/// The animation file of the command.
pub const ANIMATION_FILE: &'static str = "animated_embed.txt";

/// The frame shown when the animation cannot be read.
pub const FALLBACK_FRAME: &'static str = "[■□□□]";

/// Renders the frames of the animation.
pub struct AnimatedRenderer;

impl AnimatedRenderer {
    /// The frame in a code block, titled "Embed animado".
    pub fn render(&self, frame: &str) -> (e: EmbedSpec)
        ensures
            e@ == plain_embed_view("Embed animado"@, code_block(frame@)),
    {
        framed_embed("Embed animado", frame)
    }
}

/// The `animated_embed` live command.
pub fn register_animated_embed() -> (c: CommandSpec)
    ensures
        c@ == live_command_view("animated_embed"@, "Embed animado"@),
{
    register_live_command("animated_embed", "Embed animado")
}

} // verus!
