use discord_bot::commands::animated_embed::AnimatedRenderer as LoopRenderer;
use discord_bot::commands::embed_animated::AnimatedRenderer;
use discord_bot::commands::message::build_embed;
use discord_bot::commands::status::{spinner_frames, StatusRenderer};
use discord_bot::status::metrics::StatusSnapshot;
use discord_bot::ui::embeds::{info_embed, welcome_embed};

#[test]
fn welcome_embed_greets_by_name() {
    let e = welcome_embed("Ana", "https://cdn/a.png");
    assert_eq!(e.title, "¡Bienvenido al sistema!");
    assert_eq!(e.description, "Hola Ana, la tripulación te estaba esperando. 🚀");
    assert_eq!(e.color, Some(0x00FF00));
    assert_eq!(e.thumbnail, Some("https://cdn/a.png".to_string()));
    assert_eq!(e.footer, Some("Protocolo de bienvenida v1.0".to_string()));
    assert!(e.fields.is_empty());
}

#[test]
fn info_embed_shows_the_readings() {
    let status = StatusSnapshot {
        cpu_bits: 12.345f32.to_bits(),
        total_ram: 16 * 1024 * 1024 * 1024,
        used_ram: 512 * 1024 * 1024,
        bot_ram: 40 * 1024 * 1024,
    };
    let e = info_embed("[■□□□]", &status);
    assert_eq!(e.title, "🛰️ Estado de la Estación");
    assert_eq!(e.description, "Sistemas operativos al 100% [■□□□]");
    assert_eq!(e.color, Some(0x00FFFF));
    let f: Vec<(&str, &str, bool)> = e.fields.iter().map(|f| (f.name.as_str(), f.value.as_str(), f.inline)).collect();
    assert_eq!(
        f,
        vec![
            ("CPU", "12.3%", true),
            ("RAM del sistema", "512 MB / 16.00 GB", true),
            ("RAM del bot", "40 MB", true),
            ("Motor", "Rust 🦀", true),
            ("Latencia", "Nominal", true),
        ]
    );
    assert_eq!(e.footer, Some("Core-Health Monitoring".to_string()));
    let r = StatusRenderer.render("/", &status);
    assert_eq!(r.description, "Sistemas operativos al 100% /");
}

#[test]
fn animation_embeds_show_the_frame_in_a_code_block() {
    let e = AnimatedRenderer.render("[■■□□]");
    assert_eq!(e.title, "Embed animado");
    assert_eq!(e.description, "```\n[■■□□]\n```");
    let e = LoopRenderer.render("o");
    assert_eq!(e.title, "Uffas");
    assert_eq!(e.description, "```\no\n```");
    let e = build_embed("|");
    assert_eq!(e.title, "Status");
    assert_eq!(e.description, "|");
}

#[test]
fn spinner_has_four_frames() {
    assert_eq!(spinner_frames(), vec!["/", "-", "\\", "|"]);
}
