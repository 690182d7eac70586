//! Welcoming members: the channel of the greetings and the `welcome` command
//! that greets the member who runs it.
use crate::commands::shared::{simple_command, simple_command_view, CommandSpec};
use vstd::prelude::*;

verus! {

/// The channel where new members are greeted.
pub const WELCOME_CHANNEL_ID: u64 = 1495418149213048905;

/// The private answer to the `welcome` command.
pub const WELCOME_ACK: &'static str = "✅ Protocolo de bienvenida ejecutado.";

/// The `welcome` command named `name`.
pub fn register_welcome(name: &str) -> (c: CommandSpec)
    ensures
        c@ == simple_command_view(name@, "Ejecuta manualmente la bienvenida para un miembro"@),
{
    simple_command(name, "Ejecuta manualmente la bienvenida para un miembro")
}

} // verus!
