use discord_bot::commands::admin::{bot_message_ids, clear_report, plan_clear, ClearPlan, MessageInfo, SingleDeletions};
use discord_bot::commands::audio::{
    join_step, leave_outcome, register_join, stop_outcome, user_voice_channel_id, JoinAction,
    JoinEvent, JoinState, VoiceReply, VoiceState,
};
use discord_bot::commands::shared::{
    first_frame, live_mode, opt_bool, register_live_command, stop_reply, GivenOption,
    InstallContext, LiveMode, OptionKind, OptionValue, UseContext,
};
use discord_bot::commands::{dispatch_interaction, get_all_commands, CommandKind};
use discord_bot::handlers::{is_ping_request, is_status_request};

fn opt(name: &str, value: OptionValue) -> GivenOption {
    GivenOption { name: name.to_string(), value }
}

#[test]
fn all_commands_are_registered_and_dispatched() {
    let cmds = get_all_commands();
    let names: Vec<&str> = cmds.iter().map(|c| c.name.as_str()).collect();
    assert_eq!(names, vec!["join", "stop", "leave", "status", "animated_embed"]);
    let kinds: Vec<Option<CommandKind>> = names.iter().map(|n| dispatch_interaction(n)).collect();
    assert_eq!(
        kinds,
        vec![
            Some(CommandKind::Join),
            Some(CommandKind::Stop),
            Some(CommandKind::Leave),
            Some(CommandKind::Status),
            Some(CommandKind::AnimatedEmbed)
        ]
    );
    assert_eq!(dispatch_interaction("ping"), None);
    assert_eq!(cmds[0].description, "El bot se une a tu canal de voz y reproduce un audio");
    assert!(cmds[0].integration_types.is_none());
}

#[test]
fn live_commands_have_update_and_stop_options() {
    let c = register_live_command("status", "Muestra información sobre el bot");
    assert_eq!(c.name, "status");
    assert_eq!(c.integration_types, Some(vec![InstallContext::Guild, InstallContext::User]));
    assert_eq!(c.contexts, Some(vec![UseContext::Guild, UseContext::BotDm, UseContext::PrivateChannel]));
    assert_eq!(c.options.len(), 2);
    assert_eq!(c.options[0].name, "update");
    assert_eq!(c.options[0].description, "Inicia la actualización automática del embed");
    assert_eq!(c.options[1].name, "stop");
    assert_eq!(c.options[1].kind, OptionKind::Boolean);
    assert!(!c.options[1].required);
}

#[test]
fn boolean_options() {
    let given = vec![opt("update", OptionValue::Boolean(true)), opt("stop", OptionValue::Boolean(false))];
    assert!(opt_bool(&given, "update"));
    assert!(!opt_bool(&given, "stop"));
    assert!(!opt_bool(&given, "loop"));
    assert!(!opt_bool(&vec![opt("update", OptionValue::Other)], "update"));
    assert_eq!(live_mode(&given), LiveMode::ShowAndUpdate);
    let both = vec![opt("update", OptionValue::Boolean(true)), opt("stop", OptionValue::Boolean(true))];
    assert_eq!(live_mode(&both), LiveMode::Stop);
    assert_eq!(live_mode(&vec![]), LiveMode::Show);
}

#[test]
fn replies_to_stop_requests() {
    assert_eq!(stop_reply(true), "Actualización detenida.");
    assert_eq!(stop_reply(false), "No había una actualización activa.");
}

#[test]
fn first_frame_or_default() {
    assert_eq!(first_frame(&vec!["a".to_string(), "b".to_string()], "[■□□□]"), "a");
    assert_eq!(first_frame(&vec![], "[■□□□]"), "[■□□□]");
}

#[test]
fn voice_channel_of_the_caller() {
    let states = Some(vec![
        VoiceState { user_id: 1, channel_id: Some(50) },
        VoiceState { user_id: 2, channel_id: None },
    ]);
    assert_eq!(user_voice_channel_id(Some(9), &states, 1), Some(50));
    assert_eq!(user_voice_channel_id(Some(9), &states, 2), None);
    assert_eq!(user_voice_channel_id(Some(9), &states, 3), None);
    assert_eq!(user_voice_channel_id(None, &states, 1), None);
    assert_eq!(user_voice_channel_id(Some(9), &None, 1), None);
}

#[test]
fn join_flow_success() {
    let (s, a) = join_step(JoinState::Start, JoinEvent::Invoked { guild: Some(1), channel: Some(2) });
    assert_eq!(s, JoinState::Joining);
    assert!(matches!(a, JoinAction::Join { guild: 1, channel: 2 }));
    let (s, a) = join_step(s, JoinEvent::Joined(true));
    assert_eq!(s, JoinState::FindingAudio);
    assert!(matches!(a, JoinAction::FindAudio));
    let (s, a) = join_step(s, JoinEvent::AudioFound(Some("/a/tts.wav".to_string())));
    assert_eq!(s, JoinState::Enqueuing);
    match a {
        JoinAction::Enqueue(p) => assert_eq!(p, "/a/tts.wav"),
        _ => panic!("expected enqueue"),
    }
    let (s, a) = join_step(s, JoinEvent::Queued);
    assert_eq!(s, JoinState::Done);
    match a {
        JoinAction::Reply(r) => assert_eq!(r.text(), "Audio encolado."),
        _ => panic!("expected reply"),
    }
}

#[test]
fn join_flow_failures() {
    let (s, a) = join_step(JoinState::Start, JoinEvent::Invoked { guild: None, channel: Some(2) });
    assert_eq!(s, JoinState::Done);
    assert!(matches!(a, JoinAction::Finish));
    let (_, a) = join_step(JoinState::Start, JoinEvent::Invoked { guild: Some(1), channel: None });
    assert!(matches!(a, JoinAction::Reply(VoiceReply::MustBeInVoice)));
    assert_eq!(VoiceReply::MustBeInVoice.text(), "¡Debes estar en un canal de voz!");
    let (_, a) = join_step(JoinState::Joining, JoinEvent::Joined(false));
    assert!(matches!(a, JoinAction::Reply(VoiceReply::JoinFailed)));
    assert_eq!(VoiceReply::JoinFailed.text(), "No pude unirme al canal de voz.");
    let (_, a) = join_step(JoinState::FindingAudio, JoinEvent::AudioFound(None));
    assert!(matches!(a, JoinAction::Reply(VoiceReply::AudioNotFound)));
    assert_eq!(VoiceReply::AudioNotFound.text(), "No se encontró el archivo de audio.");
    let (s, a) = join_step(JoinState::Done, JoinEvent::Queued);
    assert_eq!(s, JoinState::Done);
    assert!(matches!(a, JoinAction::Finish));
}

#[test]
fn stop_and_leave_replies() {
    assert_eq!(stop_outcome(true).text(), "Reproducción detenida y cola limpiada.");
    assert_eq!(stop_outcome(false).text(), "No estoy en un canal de voz.");
    assert_eq!(leave_outcome(true).text(), "Salí del canal de voz.");
    assert_eq!(leave_outcome(false).text(), "No pude salir del canal de voz.");
    assert_eq!(register_join("join").description, "El bot se une a tu canal de voz y reproduce un audio");
}

#[test]
fn clearing_deletes_only_the_bots_messages() {
    let msgs = vec![
        MessageInfo { id: 1, author_id: 7 },
        MessageInfo { id: 2, author_id: 8 },
        MessageInfo { id: 3, author_id: 7 },
    ];
    assert_eq!(bot_message_ids(&msgs, 7), vec![1, 3]);
    assert_eq!(bot_message_ids(&msgs, 9), Vec::<u64>::new());
}

#[test]
fn clearing_plans() {
    assert!(matches!(plan_clear(vec![], true), ClearPlan::NothingToDelete));
    match plan_clear(vec![1, 2, 3], true) {
        ClearPlan::Bulk(v) => assert_eq!(v, vec![1, 2, 3]),
        _ => panic!("expected bulk"),
    }
    let ids: Vec<u64> = (1..=15).collect();
    match plan_clear(ids, false) {
        ClearPlan::OneByOne(v) => assert_eq!(v, (1..=10).collect::<Vec<u64>>()),
        _ => panic!("expected one by one"),
    }
}

#[test]
fn single_deletions_stop_at_the_first_failure() {
    let mut d = SingleDeletions::new(vec![4, 5, 6]);
    assert_eq!(d.next_message(), Some(4));
    d.record(true);
    assert_eq!(d.next_message(), Some(5));
    d.record(false);
    assert_eq!(d.next_message(), None);
    assert_eq!(d.deleted(), 1);
    assert_eq!(clear_report(d.deleted()), "✅ Se eliminaron 1 mensajes del bot.");
    assert_eq!(clear_report(12), "✅ Se eliminaron 12 mensajes del bot.");
    assert_eq!(clear_report(0), "No se pudo eliminar ningún mensaje.");
}

#[test]
fn message_triggers() {
    assert!(is_ping_request("!PING"));
    assert!(is_ping_request("!ping"));
    assert!(!is_ping_request("!pong"));
    assert!(is_status_request("!Status"));
    assert!(!is_status_request("!status "));
}
