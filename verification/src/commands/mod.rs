//! The slash commands of the bot: the ones it registers and which handler
//! runs each.
pub mod admin;
pub mod animated_embed;
pub mod audio;
pub mod embed_animated;
pub mod message;
pub mod shared;
pub mod status;
pub mod voice;
pub mod welcome;

use crate::commands::shared::{command_views, live_command_view, simple_command_view, CommandSpec, CommandView};
use crate::text::same_text;
use vstd::prelude::*;

verus! {

/// The handler of a command.
#[derive(Debug, Clone, Copy, PartialEq, Eq, Structural)]
pub enum CommandKind {
    /// Join the caller's voice channel and play the audio.
    Join,
    /// Stop the playback.
    Stop,
    /// Leave the voice channel.
    Leave,
    /// Show the state of the host.
    Status,
    /// Play the animated embed.
    AnimatedEmbed,
}

/// The handler of the command named `name`, if the bot has one.
pub open spec fn command_kind_spec(name: Seq<char>) -> Option<CommandKind> {
    if name == "join"@ {
        Some(CommandKind::Join)
    } else if name == "stop"@ {
        Some(CommandKind::Stop)
    } else if name == "leave"@ {
        Some(CommandKind::Leave)
    } else if name == "status"@ {
        Some(CommandKind::Status)
    } else if name == "animated_embed"@ {
        Some(CommandKind::AnimatedEmbed)
    } else {
        None
    }
}

/// The handler of the command named `name`; `None` for an unknown command,
/// which is ignored.
pub fn dispatch_interaction(name: &str) -> (k: Option<CommandKind>)
    ensures
        k == command_kind_spec(name@),
{
    if same_text(name, "join") {
        Some(CommandKind::Join)
    } else if same_text(name, "stop") {
        Some(CommandKind::Stop)
    } else if same_text(name, "leave") {
        Some(CommandKind::Leave)
    } else if same_text(name, "status") {
        Some(CommandKind::Status)
    } else if same_text(name, "animated_embed") {
        Some(CommandKind::AnimatedEmbed)
    } else {
        None
    }
}

/// The commands the bot registers, in order.
pub open spec fn all_command_views() -> Seq<CommandView> {
    seq![
        simple_command_view("join"@, "El bot se une a tu canal de voz y reproduce un audio"@),
        simple_command_view("stop"@, "Detiene la reproducción y limpia la cola"@),
        simple_command_view("leave"@, "Saca al bot del canal de voz"@),
        live_command_view("status"@, "Muestra información sobre el bot"@),
        live_command_view("animated_embed"@, "Embed animado"@),
    ]
}

/// The commands the bot registers: `join`, `stop`, `leave`, `status` and
/// `animated_embed`.
pub fn get_all_commands() -> (v: Vec<CommandSpec>)
    ensures
        command_views(v@) == all_command_views(),
{
    let mut v: Vec<CommandSpec> = Vec::new();
    v.push(audio::register_join("join"));
    v.push(audio::register_stop("stop"));
    v.push(audio::register_leave("leave"));
    v.push(status::register_status());
    v.push(embed_animated::register_animated_embed());
    assert(command_views(v@) =~= all_command_views());
    v
}

/// Every command the bot registers has a handler, and no two of them share one.
pub proof fn law_registered_commands_are_dispatched()
    ensures
        forall|i: int|
            0 <= i < all_command_views().len() ==> command_kind_spec(
                #[trigger] all_command_views()[i].name,
            ) is Some,
        forall|i: int, j: int|
            0 <= i < j < all_command_views().len() ==> command_kind_spec(
                #[trigger] all_command_views()[i].name,
            ) != command_kind_spec(#[trigger] all_command_views()[j].name),
{
    reveal_strlit("join");
    reveal_strlit("stop");
    reveal_strlit("leave");
    reveal_strlit("status");
    reveal_strlit("animated_embed");
    let v = all_command_views();
    assert(v[0].name == "join"@);
    assert(v[1].name == "stop"@);
    assert(v[2].name == "leave"@);
    assert(v[3].name == "status"@);
    assert(v[4].name == "animated_embed"@);
    assert("join"@ != "stop"@) by {
        assert("join"@[0] != "stop"@[0]);
    }
    assert("join"@ != "leave"@) by {
        assert("join"@.len() != "leave"@.len());
    }
    assert("join"@ != "status"@) by {
        assert("join"@.len() != "status"@.len());
    }
    assert("stop"@ != "leave"@) by {
        assert("stop"@.len() != "leave"@.len());
    }
    assert("stop"@ != "status"@) by {
        assert("stop"@.len() != "status"@.len());
    }
    assert("leave"@ != "status"@) by {
        assert("leave"@.len() != "status"@.len());
    }
    assert("join"@ != "animated_embed"@) by {
        assert("join"@.len() != "animated_embed"@.len());
    }
    assert("stop"@ != "animated_embed"@) by {
        assert("stop"@.len() != "animated_embed"@.len());
    }
    assert("leave"@ != "animated_embed"@) by {
        assert("leave"@.len() != "animated_embed"@.len());
    }
    assert("status"@ != "animated_embed"@) by {
        assert("status"@.len() != "animated_embed"@.len());
    }
}

} // verus!
