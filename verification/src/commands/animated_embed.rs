//! The looping animation embed, titled "Uffas".
use crate::ui::embeds::{code_block, framed_embed, plain_embed_view, EmbedSpec};
use vstd::prelude::*;

verus! {

/// The frame shown when the animation cannot be read.
pub const FALLBACK_FRAME: &'static str = "(sin animación)";

/// Renders the frames of the animation.
pub struct AnimatedRenderer;

impl AnimatedRenderer {
    /// The frame in a code block, titled "Uffas".
    pub fn render(&self, frame: &str) -> (e: EmbedSpec)
        ensures
            e@ == plain_embed_view("Uffas"@, code_block(frame@)),
    {
        framed_embed("Uffas", frame)
    }
}

} // verus!
