use stentor::daemon::{
    answer, answer_invalid, claim_path, command_line, list_sources, release_path,
    response_is_error, start_command, stop_command, DaemonCommand, MultiSlotHandler, PathAction,
    PathState,
};
use stentor::daemon_app::{bridge, AppAction, AppState, UiEffect, UiSession};
use stentor::dialog::{DestinationSlot, TranscriptionState};
use stentor::multi_slot::HandlerUIMessage;
use stentor::recording::{AudioLevel, UIMessage};

fn start() -> DaemonCommand {
    start_command(false, None, None, None, None)
}

#[test]
fn commands_are_answered() {
    let text = |command: DaemonCommand, delivered| {
        let reply = answer(&command, delivered);
        (reply.text, reply.hang_up)
    };
    assert_eq!(text(start(), true), ("OK: started\n".to_string(), false));
    assert_eq!(text(stop_command(Some(2)), true), ("OK: stopped\n".to_string(), false));
    assert_eq!(text(stop_command(None), true), ("OK: stopped\n".to_string(), false));
    assert_eq!(text(DaemonCommand::Status, true), ("OK: running\n".to_string(), false));
    assert_eq!(text(DaemonCommand::Quit, true), ("OK: quitting\n".to_string(), true));
    assert_eq!(
        text(DaemonCommand::Status, false),
        ("ERROR: daemon shutting down\n".to_string(), true)
    );
    let reply = answer_invalid("expected value");
    assert_eq!(reply.text, "ERROR: invalid command: expected value\n");
    assert!(!reply.hang_up);
    assert!(response_is_error(&reply.text));
    assert!(!response_is_error("OK: running\n"));
    assert!(!response_is_error("ERRO"));
    assert_eq!(command_line(" {\"type\":\"status\"}\r\n"), "{\"type\":\"status\"}");
}

#[test]
fn only_sockets_are_removed() {
    assert_eq!(claim_path(PathState::Absent), PathAction::Keep);
    assert_eq!(claim_path(PathState::Socket), PathAction::Remove);
    assert_eq!(claim_path(PathState::Other), PathAction::Refuse);
    assert_eq!(release_path(PathState::Absent), PathAction::Keep);
    assert_eq!(release_path(PathState::Socket), PathAction::Remove);
    assert_eq!(release_path(PathState::Other), PathAction::Keep);
}

#[test]
fn arguments_come_before_the_configuration() {
    let command = start_command(
        true,
        None,
        Some(MultiSlotHandler::Kitty),
        Some("configured".to_string()),
        Some(MultiSlotHandler::NoHandler),
    );
    assert_eq!(
        command,
        DaemonCommand::Start {
            unmute_source: true,
            source: Some("configured".to_string()),
            multi_slot_handler: MultiSlotHandler::Kitty,
        }
    );
    let command = start_command(
        false,
        Some("given".to_string()),
        None,
        Some("configured".to_string()),
        Some(MultiSlotHandler::Kitty),
    );
    assert_eq!(
        command,
        DaemonCommand::Start {
            unmute_source: false,
            source: Some("given".to_string()),
            multi_slot_handler: MultiSlotHandler::Kitty,
        }
    );
    assert_eq!(
        start(),
        DaemonCommand::Start {
            unmute_source: false,
            source: None,
            multi_slot_handler: MultiSlotHandler::NoHandler,
        }
    );
    assert_eq!(stop_command(Some(0)), DaemonCommand::Stop { command_slot: 0 });
    assert_eq!(stop_command(None), DaemonCommand::Review);
}

#[test]
fn sources_are_listed() {
    let sources = vec!["a".to_string(), "b".to_string()];
    let report = list_sources(&sources, Some("b"));
    assert!(report.starts_with(
        "Available audio input sources:\n==============================\n\n  a\n  b (default)\n\nUsage:\n"
    ));
    assert!(report.ends_with("  [client]\n  source = \"SOURCE_NAME\"\n"));
    assert!(list_sources(&sources, None).contains("  a\n  b\n\n"));
    assert_eq!(
        list_sources(&vec![], Some("b")),
        "Available audio input sources:\n==============================\n\nNo input sources found\n"
    );
}

#[test]
fn one_session_at_a_time() {
    let mut app = AppState::new();
    match app.on_command(start_command(true, Some("mic".to_string()), None, None, None)) {
        Some(AppAction::BeginSession { unmute_source, source, multi_slot_handler }) => {
            assert!(unmute_source);
            assert_eq!(source.as_deref(), Some("mic"));
            assert_eq!(multi_slot_handler, MultiSlotHandler::NoHandler);
        }
        other => panic!("{:?}", other),
    }
    assert!(matches!(app.on_command(start()), Some(AppAction::PresentDialog)));
    app.on_session_closed();
    assert!(matches!(app.on_command(start()), Some(AppAction::BeginSession { .. })));
    app.on_recording_finished();
    assert!(matches!(app.on_command(start()), Some(AppAction::BeginSession { .. })));
    assert!(app.on_command(DaemonCommand::Status).is_none());
    assert!(matches!(app.on_command(DaemonCommand::Quit), Some(AppAction::Quit)));
}

#[test]
fn stopping_says_where_the_text_goes() {
    let mut app = AppState::new();
    app.on_command(start());
    // Nothing can be stopped before the recording runs.
    assert!(app.stop().is_none());
    assert!(app.on_command(stop_command(Some(3))).is_none());
    app.on_recording_started();
    assert!(matches!(app.stop(), Some(AppAction::StopRecording)));
    assert!(matches!(
        app.on_command(stop_command(Some(1))),
        Some(AppAction::StopRecording)
    ));
    assert_eq!(app.take_auto_send_slots(), vec![1]);
    assert!(app.take_auto_send_slots().is_empty());
    for slot in [2, 4] {
        let (message, action) = app.on_stop_and_send(slot);
        assert!(matches!(message, UIMessage::CloseImmediately));
        assert!(matches!(action, Some(AppAction::StopRecording)));
    }
    assert_eq!(app.take_auto_send_slots(), vec![2, 4]);
    app.on_stop_and_send(2);
    assert!(matches!(
        app.on_command(stop_command(None)),
        Some(AppAction::StopRecording)
    ));
    assert!(app.take_auto_send_slots().is_empty());
    app.on_stop_and_send(2);
    app.on_recording_finished();
    assert!(app.stop().is_none());
    assert!(app.take_auto_send_slots().is_empty());
}

fn shown(effects: &[UiEffect]) -> Vec<String> {
    effects.iter().map(|e| format!("{:?}", e)).collect()
}

#[test]
fn messages_have_their_effects() {
    let mut ui = UiSession::new(
        MultiSlotHandler::Kitty,
        Some("kitty-send".to_string()),
        Some("wl-copy".to_string()),
    );
    let effects = ui.on_message(UIMessage::UpdateState(
        TranscriptionState::Recording,
        "m".to_string(),
        AudioLevel::Zero,
    ));
    assert_eq!(shown(&effects), vec!["ShowState(Recording, \"m\", Zero)"]);
    let effects = ui.on_message(UIMessage::SetText("t".to_string()));
    assert_eq!(shown(&effects), vec!["ShowText(\"t\")"]);
    let effects = ui.on_message(UIMessage::SetTextPreview("t".to_string()));
    assert_eq!(shown(&effects), vec!["ShowPreview(\"t\")"]);
    let effects =
        ui.on_message(UIMessage::SetConfirmedAndPreview("c".to_string(), "p".to_string()));
    assert_eq!(shown(&effects), vec!["ShowConfirmedAndPreview(\"c\", \"p\")"]);
    let effects = ui.on_message(UIMessage::SetDestinations(vec![DestinationSlot::inactive(1)]));
    assert!(matches!(effects[0], UiEffect::ShowDestinations(ref d) if d.len() == 1));
    assert!(ui.on_message(UIMessage::StoreHandlerWindowIds(vec![7, 8])).is_empty());
    let effects = ui.on_message(UIMessage::CloseImmediately);
    assert_eq!(shown(&effects), vec!["HideDialog"]);
    let effects = ui.on_message(UIMessage::AutoSendText("t".to_string(), 3));
    assert_eq!(
        shown(&effects),
        vec!["RunOutput { command: \"kitty-send\", text: \"t\", slot: 3 }"]
    );
    let effects = ui.on_message(UIMessage::Close);
    assert_eq!(
        shown(&effects),
        vec!["StopRecording", "Cleanup([7, 8])", "HideDialog", "EndSession"]
    );
}

#[test]
fn sessions_without_handler_clean_nothing_up() {
    let mut ui = UiSession::new(
        MultiSlotHandler::NoHandler,
        Some("kitty-send".to_string()),
        Some("wl-copy".to_string()),
    );
    let effects = ui.send_text("t", 0);
    assert_eq!(
        shown(&effects),
        vec!["RunOutput { command: \"wl-copy\", text: \"t\", slot: 0 }"]
    );
    let effects = ui.on_message(UIMessage::Close);
    assert_eq!(shown(&effects), vec!["StopRecording", "HideDialog", "EndSession"]);
    let ui = UiSession::new(MultiSlotHandler::Kitty, None, Some("wl-copy".to_string()));
    assert!(ui.send_text("t", 1).is_empty());
    let (effects, end) = ui.send_reviewed("t", &[1, 2]);
    assert!(effects.is_empty());
    assert!(matches!(end, UIMessage::Close));
}

#[test]
fn reviewed_text_goes_out_before_the_session_ends() {
    let ui = UiSession::new(MultiSlotHandler::NoHandler, None, Some("wl-copy".to_string()));
    let (effects, end) = ui.send_reviewed("t", &[3, 1]);
    assert_eq!(
        shown(&effects),
        vec![
            "RunOutput { command: \"wl-copy\", text: \"t\", slot: 3 }",
            "RunOutput { command: \"wl-copy\", text: \"t\", slot: 1 }",
        ]
    );
    assert!(matches!(end, UIMessage::Close));
}

#[test]
fn handler_messages_reach_the_session() {
    assert!(matches!(
        bridge(HandlerUIMessage::StoreWindowIds(vec![1])),
        UIMessage::StoreHandlerWindowIds(ref ids) if ids == &vec![1]
    ));
    assert!(matches!(
        bridge(HandlerUIMessage::SetDestinations(vec![DestinationSlot::inactive(2)])),
        UIMessage::SetDestinations(ref d) if d[0].slot_num == 2
    ));
}
