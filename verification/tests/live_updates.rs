use discord_bot::commands::message::LiveMessageSlot;
use discord_bot::commands::shared::{starts_updates, LiveMode};
use discord_bot::task::embed_updater::{next_frame, LiveError, LiveRegistry, LiveScope};
use discord_bot::task::status::{status_frame, StatusScope};

#[test]
fn scope_of_a_command() {
    assert_eq!(LiveScope::from_command(Some(5), 9), LiveScope::Guild(5));
    assert_eq!(LiveScope::from_command(None, 9), LiveScope::Channel(9));
    assert_eq!(StatusScope::from_command(None, 9).live_scope(), LiveScope::Channel(9));
    assert_eq!(StatusScope::from_command(Some(2), 9).live_scope(), LiveScope::Guild(2));
}

#[test]
fn start_then_stop_hands_back_the_task() {
    let mut reg: LiveRegistry<&str> = LiveRegistry::new();
    let scope = LiveScope::Guild(1);
    let ticket = reg.reserve(scope, 10, 4, 1).unwrap();
    assert_eq!(ticket.id, 1);
    assert_eq!(ticket.start_index, 1);
    assert_eq!(reg.install(ticket, "task-a"), None);
    assert_eq!(reg.stop(scope), Some("task-a"));
    assert_eq!(reg.stop(scope), None);
}

#[test]
fn same_user_cannot_start_twice_in_a_scope() {
    let mut reg: LiveRegistry<u32> = LiveRegistry::new();
    let scope = LiveScope::Channel(7);
    let t = reg.reserve(scope, 10, 3, 0).unwrap();
    reg.install(t, 1);
    let err = reg.reserve(scope, 10, 3, 0).unwrap_err();
    assert_eq!(err, LiveError::AlreadyActive);
    assert_eq!(err.message(), "ya tienes una actualización activa aquí");
    // the refused attempt used up an id
    let t3 = reg.reserve(LiveScope::Channel(8), 10, 3, 0).unwrap();
    assert_eq!(t3.id, 3);
}

#[test]
fn another_user_replaces_the_update() {
    let mut reg: LiveRegistry<u32> = LiveRegistry::new();
    let scope = LiveScope::Guild(3);
    let t1 = reg.reserve(scope, 10, 3, 0).unwrap();
    reg.install(t1, 100);
    let t2 = reg.reserve(scope, 20, 3, 0).unwrap();
    assert_eq!(reg.install(t2, 200), Some(100));
    // the replaced task ending does not remove its replacement
    assert_eq!(reg.cleanup_if_same(scope, t1.id), None);
    assert_eq!(reg.cleanup_if_same(scope, t2.id), Some(200));
    assert_eq!(reg.stop(scope), None);
}

#[test]
fn animations_without_frames_are_refused() {
    let mut reg: LiveRegistry<u32> = LiveRegistry::new();
    let err = reg.reserve(LiveScope::Guild(1), 1, 0, 0).unwrap_err();
    assert_eq!(err, LiveError::NoFrames);
    assert_eq!(err.message(), "la animación no tiene frames");
    // no id was used
    assert_eq!(reg.reserve(LiveScope::Guild(1), 1, 2, 0).unwrap().id, 1);
}

#[test]
fn scopes_are_independent() {
    let mut reg: LiveRegistry<u32> = LiveRegistry::new();
    let a = reg.reserve(LiveScope::Guild(1), 1, 2, 0).unwrap();
    reg.install(a, 1);
    let b = reg.reserve(LiveScope::Channel(1), 1, 2, 0).unwrap();
    assert_eq!(reg.install(b, 2), None);
    assert_eq!(reg.stop(LiveScope::Guild(1)), Some(1));
    assert_eq!(reg.stop(LiveScope::Channel(1)), Some(2));
}

#[test]
fn single_pass_shows_the_remaining_frames_then_stops() {
    let mut shown = Vec::new();
    let mut index = 1usize;
    while let Some((frame, next)) = next_frame(index, 4, false) {
        shown.push(frame);
        index = next;
    }
    assert_eq!(shown, vec![1, 2, 3]);
}

#[test]
fn repeat_cycles_through_the_frames() {
    let mut shown = Vec::new();
    let mut index = 2usize;
    for _ in 0..6 {
        let (frame, next) = next_frame(index, 4, true).unwrap();
        shown.push(frame);
        index = next;
    }
    assert_eq!(shown, vec![2, 3, 0, 1, 2, 3]);
    assert_eq!(next_frame(usize::MAX, 4, true), Some((usize::MAX % 4, 0)));
}

#[test]
fn status_frames_cycle() {
    assert_eq!(status_frame(0), "[■□□□]");
    assert_eq!(status_frame(3), "[■■■■]");
    assert_eq!(status_frame(6), "[□□□■]");
    assert_eq!(status_frame(7), "[■□□□]");
}

#[test]
fn one_spinning_message_at_a_time() {
    let mut slot: LiveMessageSlot<&str> = LiveMessageSlot::new();
    assert_eq!(slot.stop(), None);
    assert_eq!(slot.store(1, 10, "first"), None);
    assert_eq!(slot.store(1, 11, "second"), Some("first"));
    assert_eq!(slot.stop(), Some("second"));
    assert_eq!(slot.stop(), None);
}

#[test]
fn updates_start_only_after_an_answer_in_update_mode() {
    assert!(starts_updates(LiveMode::ShowAndUpdate, true));
    assert!(!starts_updates(LiveMode::ShowAndUpdate, false));
    assert!(!starts_updates(LiveMode::Show, true));
    assert!(!starts_updates(LiveMode::Stop, true));
}
