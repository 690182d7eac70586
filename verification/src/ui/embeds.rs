//! The embeds the bot shows, as plain data: what each one says.
use crate::status::metrics::{
    f32_one_decimal_text, format_bytes, format_bytes_text, push_f32_one_decimal, StatusSnapshot,
};
use crate::text::{push_char, push_str};
use vstd::prelude::*;

verus! {

/// A field of an embed.
pub struct EmbedField {
    pub name: String,
    pub value: String,
    pub inline: bool,
}

/// The content of an embed.
pub struct EmbedSpec {
    pub title: String,
    pub description: String,
    pub color: Option<u32>,
    pub thumbnail: Option<String>,
    pub fields: Vec<EmbedField>,
    pub footer: Option<String>,
}

/// A field of an embed, by its texts.
pub struct FieldView {
    pub name: Seq<char>,
    pub value: Seq<char>,
    pub inline: bool,
}

/// The content of an embed, by its texts.
pub struct EmbedView {
    pub title: Seq<char>,
    pub description: Seq<char>,
    pub color: Option<u32>,
    pub thumbnail: Option<Seq<char>>,
    pub fields: Seq<FieldView>,
    pub footer: Option<Seq<char>>,
}

impl View for EmbedField {
    type V = FieldView;

    open spec fn view(&self) -> FieldView {
        FieldView { name: self.name@, value: self.value@, inline: self.inline }
    }
}

/// The text of an optional string.
pub open spec fn opt_text(s: Option<String>) -> Option<Seq<char>> {
    match s {
        Some(t) => Some(t@),
        None => None,
    }
}

impl View for EmbedSpec {
    type V = EmbedView;

    open spec fn view(&self) -> EmbedView {
        EmbedView {
            title: self.title@,
            description: self.description@,
            color: self.color,
            thumbnail: opt_text(self.thumbnail),
            fields: self.fields@.map_values(|f: EmbedField| f@),
            footer: opt_text(self.footer),
        }
    }
}

/// A string holding `t`.
pub fn string_from(t: &str) -> (s: String)
    ensures
        s@ == t@,
{
    let mut s = String::new();
    push_str(&mut s, t);
    assert(Seq::<char>::empty() + t@ =~= t@);
    s
}

/// A field from its parts.
pub fn field(name: &str, value: String, inline: bool) -> (f: EmbedField)
    ensures
        f@ == (FieldView { name: name@, value: value@, inline }),
{
    EmbedField { name: string_from(name), value, inline }
}

/// The greeting of a new member.
pub open spec fn welcome_description(user_name: Seq<char>) -> Seq<char> {
    "Hola "@ + user_name + ", la tripulación te estaba esperando. 🚀"@
}

/// The embed that welcomes a member, given the member's name and the URL of
/// their avatar.
pub fn welcome_embed(user_name: &str, face_url: &str) -> (e: EmbedSpec)
    ensures
        e@ == (EmbedView {
            title: "¡Bienvenido al sistema!"@,
            description: welcome_description(user_name@),
            color: Some(0x00FF00),
            thumbnail: Some(face_url@),
            fields: seq![],
            footer: Some("Protocolo de bienvenida v1.0"@),
        }),
{
    let mut description = string_from("Hola ");
    push_str(&mut description, user_name);
    push_str(&mut description, ", la tripulación te estaba esperando. 🚀");
    let e = EmbedSpec {
        title: string_from("¡Bienvenido al sistema!"),
        description,
        color: Some(0x00FF00),
        thumbnail: Some(string_from(face_url)),
        fields: Vec::new(),
        footer: Some(string_from("Protocolo de bienvenida v1.0")),
    };
    assert(e@.fields =~= Seq::<FieldView>::empty());
    e
}

/// The fields of the status embed.
pub open spec fn info_fields(status: StatusSnapshot) -> Seq<FieldView> {
    seq![
        FieldView {
            name: "CPU"@,
            value: f32_one_decimal_text(status.cpu_bits) + "%"@,
            inline: true,
        },
        FieldView {
            name: "RAM del sistema"@,
            value: format_bytes_text(status.used_ram as nat) + " / "@ + format_bytes_text(
                status.total_ram as nat,
            ),
            inline: true,
        },
        FieldView {
            name: "RAM del bot"@,
            value: format_bytes_text(status.bot_ram as nat),
            inline: true,
        },
        FieldView { name: "Motor"@, value: "Rust 🦀"@, inline: true },
        FieldView { name: "Latencia"@, value: "Nominal"@, inline: true },
    ]
}

/// The status embed for an animation frame and a reading of the host.
pub open spec fn info_embed_view(frame: Seq<char>, status: StatusSnapshot) -> EmbedView {
    EmbedView {
        title: "🛰️ Estado de la Estación"@,
        description: "Sistemas operativos al 100% "@ + frame,
        color: Some(0x00FFFF),
        thumbnail: None,
        fields: info_fields(status),
        footer: Some("Core-Health Monitoring"@),
    }
}

/// The embed that shows the state of the host, with an animation frame after
/// its description.
pub fn info_embed(frame: &str, status: &StatusSnapshot) -> (e: EmbedSpec)
    ensures
        e@ == info_embed_view(frame@, *status),
{
    let mut description = string_from("Sistemas operativos al 100% ");
    push_str(&mut description, frame);

    let mut cpu = String::new();
    push_f32_one_decimal(&mut cpu, status.cpu_bits);
    push_char(&mut cpu, '%');

    let mut ram = format_bytes(status.used_ram);
    push_str(&mut ram, " / ");
    let total = format_bytes(status.total_ram);
    push_str(&mut ram, total.as_str());

    proof {
        reveal_strlit("%");
        assert(cpu@ =~= f32_one_decimal_text(status.cpu_bits) + "%"@);
    }
    let f0 = field("CPU", cpu, true);
    let f1 = field("RAM del sistema", ram, true);
    let f2 = field("RAM del bot", format_bytes(status.bot_ram), true);
    let f3 = field("Motor", string_from("Rust 🦀"), true);
    let f4 = field("Latencia", string_from("Nominal"), true);
    let ghost views = seq![f0@, f1@, f2@, f3@, f4@];
    assert(views =~= info_fields(*status));
    let mut fields: Vec<EmbedField> = Vec::new();
    fields.push(f0);
    fields.push(f1);
    fields.push(f2);
    fields.push(f3);
    fields.push(f4);
    assert(fields@.map_values(|f: EmbedField| f@) =~= views);

    let e = EmbedSpec {
        title: string_from("🛰️ Estado de la Estación"),
        description,
        color: Some(0x00FFFF),
        thumbnail: None,
        fields,
        footer: Some(string_from("Core-Health Monitoring")),
    };
    e
}

/// An embed with a title and a description and nothing else.
pub open spec fn plain_embed_view(title: Seq<char>, description: Seq<char>) -> EmbedView {
    EmbedView {
        title,
        description,
        color: None,
        thumbnail: None,
        fields: seq![],
        footer: None,
    }
}

/// An embed with a title and a description and nothing else.
pub fn plain_embed(title: &str, description: String) -> (e: EmbedSpec)
    ensures
        e@ == plain_embed_view(title@, description@),
{
    let e = EmbedSpec {
        title: string_from(title),
        description,
        color: None,
        thumbnail: None,
        fields: Vec::new(),
        footer: None,
    };
    assert(e@.fields =~= Seq::<FieldView>::empty());
    e
}

/// A frame inside a code block: three backquotes, a line break, the frame,
/// a line break, three backquotes.
pub open spec fn code_block(frame: Seq<char>) -> Seq<char> {
    "```\n"@ + frame + "\n```"@
}

/// An embed that shows an animation frame in a code block under a title.
pub fn framed_embed(title: &str, frame: &str) -> (e: EmbedSpec)
    ensures
        e@ == plain_embed_view(title@, code_block(frame@)),
{
    let mut description = string_from("```\n");
    push_str(&mut description, frame);
    push_str(&mut description, "\n```");
    plain_embed(title, description)
}

} // verus!
