//! Slash commands as plain data, and reading the options of an invocation.
use crate::text::same_text;
use crate::ui::embeds::string_from;
use vstd::prelude::*;

verus! {

/// Where a command can be installed.
#[derive(Debug, Clone, Copy, PartialEq, Eq, Structural)]
pub enum InstallContext {
    Guild,
    User,
}

/// Where a command can be used.
#[derive(Debug, Clone, Copy, PartialEq, Eq, Structural)]
pub enum UseContext {
    Guild,
    BotDm,
    PrivateChannel,
}

/// The type of a command option.
#[derive(Debug, Clone, Copy, PartialEq, Eq, Structural)]
pub enum OptionKind {
    Boolean,
}

/// An option of a command.
pub struct OptionSpec {
    pub kind: OptionKind,
    pub name: String,
    pub description: String,
    pub required: bool,
}

/// A slash command: its name, its description, where it can be installed
/// and used (unset: the platform's default), and its options.
pub struct CommandSpec {
    pub name: String,
    pub description: String,
    pub integration_types: Option<Vec<InstallContext>>,
    pub contexts: Option<Vec<UseContext>>,
    pub options: Vec<OptionSpec>,
}

/// An option of a command, by its texts.
pub struct OptionView {
    pub kind: OptionKind,
    pub name: Seq<char>,
    pub description: Seq<char>,
    pub required: bool,
}

/// A slash command, by its texts.
pub struct CommandView {
    pub name: Seq<char>,
    pub description: Seq<char>,
    pub integration_types: Option<Seq<InstallContext>>,
    pub contexts: Option<Seq<UseContext>>,
    pub options: Seq<OptionView>,
}

impl View for OptionSpec {
    type V = OptionView;

    open spec fn view(&self) -> OptionView {
        OptionView {
            kind: self.kind,
            name: self.name@,
            description: self.description@,
            required: self.required,
        }
    }
}

/// The elements of an optional vector.
pub open spec fn opt_seq<T>(v: Option<Vec<T>>) -> Option<Seq<T>> {
    match v {
        Some(v) => Some(v@),
        None => None,
    }
}

impl View for CommandSpec {
    type V = CommandView;

    open spec fn view(&self) -> CommandView {
        CommandView {
            name: self.name@,
            description: self.description@,
            integration_types: opt_seq(self.integration_types),
            contexts: opt_seq(self.contexts),
            options: self.options@.map_values(|o: OptionSpec| o@),
        }
    }
}

/// The views of a list of commands.
pub open spec fn command_views(v: Seq<CommandSpec>) -> Seq<CommandView> {
    v.map_values(|c: CommandSpec| c@)
}

/// A command with a name and a description and nothing else set.
pub open spec fn simple_command_view(name: Seq<char>, description: Seq<char>) -> CommandView {
    CommandView { name, description, integration_types: None, contexts: None, options: seq![] }
}

/// A command with a name and a description and nothing else set.
pub fn simple_command(name: &str, description: &str) -> (c: CommandSpec)
    ensures
        c@ == simple_command_view(name@, description@),
{
    let c = CommandSpec {
        name: string_from(name),
        description: string_from(description),
        integration_types: None,
        contexts: None,
        options: Vec::new(),
    };
    assert(c@.options =~= Seq::<OptionView>::empty());
    c
}

/// A live command: installable in guilds and by users, usable in guilds, in
/// the bot's DMs and in private channels, with the optional boolean options
/// `update` (start updating the embed) and `stop` (stop the update).
pub open spec fn live_command_view(name: Seq<char>, description: Seq<char>) -> CommandView {
    CommandView {
        name,
        description,
        integration_types: Some(seq![InstallContext::Guild, InstallContext::User]),
        contexts: Some(seq![UseContext::Guild, UseContext::BotDm, UseContext::PrivateChannel]),
        options: seq![
            OptionView {
                kind: OptionKind::Boolean,
                name: "update"@,
                description: "Inicia la actualización automática del embed"@,
                required: false,
            },
            OptionView {
                kind: OptionKind::Boolean,
                name: "stop"@,
                description: "Detiene la actualización activa"@,
                required: false,
            },
        ],
    }
}

/// A live command named `name`: see `live_command_view`.
pub fn register_live_command(name: &str, description: &str) -> (c: CommandSpec)
    ensures
        c@ == live_command_view(name@, description@),
{
    let mut integration_types: Vec<InstallContext> = Vec::new();
    integration_types.push(InstallContext::Guild);
    integration_types.push(InstallContext::User);
    let mut contexts: Vec<UseContext> = Vec::new();
    contexts.push(UseContext::Guild);
    contexts.push(UseContext::BotDm);
    contexts.push(UseContext::PrivateChannel);
    let update = OptionSpec {
        kind: OptionKind::Boolean,
        name: string_from("update"),
        description: string_from("Inicia la actualización automática del embed"),
        required: false,
    };
    let stop = OptionSpec {
        kind: OptionKind::Boolean,
        name: string_from("stop"),
        description: string_from("Detiene la actualización activa"),
        required: false,
    };
    let ghost options = seq![update@, stop@];
    let mut opts: Vec<OptionSpec> = Vec::new();
    opts.push(update);
    opts.push(stop);
    let c = CommandSpec {
        name: string_from(name),
        description: string_from(description),
        integration_types: Some(integration_types),
        contexts: Some(contexts),
        options: opts,
    };
    assert(c@.options =~= options);
    assert(c@.integration_types->0 =~= seq![InstallContext::Guild, InstallContext::User]);
    assert(c@.contexts->0 =~= seq![UseContext::Guild, UseContext::BotDm, UseContext::PrivateChannel]);
    c
}

/// The value of an option of an invocation.
#[derive(Debug, Clone, Copy, PartialEq, Eq, Structural)]
pub enum OptionValue {
    Boolean(bool),
    Other,
}

/// An option given to an invocation.
pub struct GivenOption {
    pub name: String,
    pub value: OptionValue,
}

/// Whether an option named `name` was given the value `true`.
pub open spec fn opt_bool_spec(options: Seq<GivenOption>, name: Seq<char>) -> bool {
    exists|i: int|
        0 <= i < options.len() && #[trigger] options[i].name@ == name && options[i].value
            == OptionValue::Boolean(true)
}

/// Whether an option named `name` was given the value `true`.
pub fn opt_bool(options: &Vec<GivenOption>, name: &str) -> (b: bool)
    ensures
        b == opt_bool_spec(options@, name@),
{
    let mut i: usize = 0;
    while i < options.len()
        invariant
            i <= options.len(),
            forall|k: int|
                0 <= k < i ==> !(#[trigger] options@[k].name@ == name@ && options@[k].value
                    == OptionValue::Boolean(true)),
        decreases options.len() - i,
    {
        if same_text(options[i].name.as_str(), name) && options[i].value == OptionValue::Boolean(true) {
            return true;
        }
        i = i + 1;
    }
    false
}

/// Seconds between two edits of a live embed started by a command.
pub const LIVE_UPDATE_SECS: u64 = 2;

/// What a live command was asked to do.
#[derive(Debug, Clone, Copy, PartialEq, Eq, Structural)]
pub enum LiveMode {
    /// Stop the live update of the scope.
    Stop,
    /// Show the embed once.
    Show,
    /// Show the embed and keep updating it.
    ShowAndUpdate,
}

/// The mode of a live command from its `stop` and `update` options: `stop`
/// wins over `update`.
pub fn live_mode(options: &Vec<GivenOption>) -> (m: LiveMode)
    ensures
        m == (if opt_bool_spec(options@, "stop"@) {
            LiveMode::Stop
        } else if opt_bool_spec(options@, "update"@) {
            LiveMode::ShowAndUpdate
        } else {
            LiveMode::Show
        }),
{
    if opt_bool(options, "stop") {
        LiveMode::Stop
    } else if opt_bool(options, "update") {
        LiveMode::ShowAndUpdate
    } else {
        LiveMode::Show
    }
}

/// Whether a live command goes on to keep its embed up to date once it has
/// answered: only when asked to update, and only if the answer went through.
pub fn starts_updates(mode: LiveMode, answered: bool) -> (b: bool)
    ensures
        b == (mode == LiveMode::ShowAndUpdate && answered),
{
    answered && mode == LiveMode::ShowAndUpdate
}

/// The answer to a stop request: whether an update was running.
pub fn stop_reply(stopped: bool) -> (m: &'static str)
    ensures
        m@ == (if stopped {
            "Actualización detenida."@
        } else {
            "No había una actualización activa."@
        }),
{
    if stopped {
        "Actualización detenida."
    } else {
        "No había una actualización activa."
    }
}

/// The first frame of an animation, or `default` when it has none.
pub fn first_frame(frames: &Vec<String>, default: &str) -> (f: String)
    ensures
        f@ == (if frames@.len() > 0 {
            frames@[0]@
        } else {
            default@
        }),
{
    if frames.len() > 0 {
        string_from(frames[0].as_str())
    } else {
        string_from(default)
    }
}

} // verus!
