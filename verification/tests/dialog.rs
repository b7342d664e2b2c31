use stentor::dialog::{
    handle_send_to_all, handle_send_to_slot, show_source, slot_unicode_char, DestinationSlot, EditAction, Key, KeyAction,
    SendAction, TranscriptionDialog, TranscriptionState,
};

fn slot(slot_num: usize, label: &str) -> DestinationSlot {
    DestinationSlot::with_label(slot_num, label.to_string(), "#112233".to_string())
}

fn dialog(state: TranscriptionState, destinations: Vec<DestinationSlot>) -> TranscriptionDialog {
    let mut d = TranscriptionDialog::new();
    d.set_destinations(destinations);
    d.update_state(state, "");
    d
}

#[test]
fn inactive_slots_are_transparent() {
    let d = DestinationSlot::inactive(4);
    assert_eq!(d.slot_num, 4);
    assert_eq!(d.label, "");
    assert_eq!(d.color_hex, "transparent");
    assert_eq!(d.clone().color_hex, "transparent");
}

#[test]
fn slots_have_numerals() {
    let numerals: Vec<char> = (0..=9).map(slot_unicode_char).collect();
    assert_eq!(
        numerals,
        vec![
            '?', '\u{F03A5}', '\u{F03A8}', '\u{F03AB}', '\u{F03B2}', '\u{F03AF}', '\u{F03B4}',
            '\u{F03B7}', '\u{F03BA}', '?'
        ]
    );
}

#[test]
fn text_for_all_goes_to_active_slots() {
    let destinations = vec![slot(3, "a"), DestinationSlot::inactive(2), slot(1, "b")];
    match handle_send_to_all(TranscriptionState::Recording, &destinations) {
        SendAction::StopAndSend(slots) => assert_eq!(slots, vec![3, 1]),
        other => panic!("{:?}", other),
    }
    match handle_send_to_all(TranscriptionState::Reviewing, &destinations) {
        SendAction::SendText(slots) => assert_eq!(slots, vec![3, 1]),
        other => panic!("{:?}", other),
    }
    match handle_send_to_all(TranscriptionState::Processing, &vec![DestinationSlot::inactive(1)]) {
        SendAction::StopAndSend(slots) => assert_eq!(slots, vec![0]),
        other => panic!("{:?}", other),
    }
    assert!(matches!(
        handle_send_to_all(TranscriptionState::Idle, &destinations),
        SendAction::Ignore
    ));
    assert!(matches!(
        handle_send_to_slot(TranscriptionState::Error, 1),
        SendAction::Ignore
    ));
}

#[test]
fn escape_depends_on_the_state() {
    let at = |state| dialog(state, vec![]).window_key(Key::Escape, false);
    assert!(matches!(at(TranscriptionState::Recording), KeyAction::ManualStop));
    assert!(matches!(at(TranscriptionState::Processing), KeyAction::ManualStop));
    assert!(matches!(at(TranscriptionState::Reviewing), KeyAction::Cancel));
    assert!(matches!(at(TranscriptionState::Idle), KeyAction::CloseWindow));
    assert!(matches!(at(TranscriptionState::Error), KeyAction::CloseWindow));
    let in_text = |state| dialog(state, vec![]).text_key(Key::Escape, false, false);
    assert!(matches!(in_text(TranscriptionState::Recording), KeyAction::ManualStop));
    assert!(matches!(in_text(TranscriptionState::Processing), KeyAction::ManualStop));
    assert!(matches!(in_text(TranscriptionState::Reviewing), KeyAction::Cancel));
    assert!(matches!(in_text(TranscriptionState::Idle), KeyAction::Pass));
    assert!(matches!(in_text(TranscriptionState::Error), KeyAction::Pass));
}

#[test]
fn digits_send_to_the_slot_at_their_place() {
    let d = dialog(TranscriptionState::Reviewing, vec![slot(5, "a"), slot(2, "b")]);
    match d.window_key(Key::Digit(1), true) {
        KeyAction::Send(SendAction::SendText(slots)) => assert_eq!(slots, vec![5]),
        other => panic!("{:?}", other),
    }
    match d.text_key(Key::Digit(2), true, false) {
        KeyAction::Send(SendAction::SendText(slots)) => assert_eq!(slots, vec![2]),
        other => panic!("{:?}", other),
    }
    match d.click(1) {
        SendAction::SendText(slots) => assert_eq!(slots, vec![2]),
        other => panic!("{:?}", other),
    }
    assert!(matches!(d.click(2), SendAction::Ignore));
    assert!(matches!(d.window_key(Key::Digit(3), true), KeyAction::Pass));
    assert!(matches!(d.window_key(Key::Digit(9), true), KeyAction::Pass));
    assert!(matches!(d.window_key(Key::Digit(1), false), KeyAction::Pass));
    // The default output needs no destination.
    match dialog(TranscriptionState::Recording, vec![]).window_key(Key::Digit(0), true) {
        KeyAction::Send(SendAction::StopAndSend(slots)) => assert_eq!(slots, vec![0]),
        other => panic!("{:?}", other),
    }
}

#[test]
fn enter_sends_to_all_with_alt_only() {
    let d = dialog(TranscriptionState::Recording, vec![slot(5, "a"), slot(2, "b")]);
    match d.window_key(Key::Enter, true) {
        KeyAction::Send(SendAction::StopAndSend(slots)) => assert_eq!(slots, vec![5, 2]),
        other => panic!("{:?}", other),
    }
    assert!(matches!(d.window_key(Key::Enter, false), KeyAction::Pass));
    assert!(matches!(d.text_key(Key::Enter, false, true), KeyAction::Pass));
    let idle = dialog(TranscriptionState::Idle, vec![]);
    assert!(matches!(
        idle.window_key(Key::Enter, true),
        KeyAction::Send(SendAction::Ignore)
    ));
}

#[test]
fn text_is_edited_as_on_a_command_line() {
    let d = dialog(TranscriptionState::Reviewing, vec![]);
    let edit = |key, alt, ctrl| match d.text_key(key, alt, ctrl) {
        KeyAction::Edit(e) => Some(e),
        _ => None,
    };
    assert_eq!(edit(Key::Letter('b'), true, false), Some(EditAction::BackwardWord));
    assert_eq!(edit(Key::Letter('f'), true, false), Some(EditAction::ForwardWord));
    assert_eq!(edit(Key::Letter('d'), true, false), Some(EditAction::DeleteWordForward));
    assert_eq!(edit(Key::BackSpace, true, false), Some(EditAction::DeleteWordBackward));
    assert_eq!(edit(Key::Letter('a'), false, true), Some(EditAction::LineStart));
    assert_eq!(edit(Key::Letter('e'), false, true), Some(EditAction::LineEnd));
    assert_eq!(edit(Key::Letter('k'), false, true), Some(EditAction::KillToLineEnd));
    assert_eq!(edit(Key::Letter('u'), false, true), Some(EditAction::KillToLineStart));
    assert_eq!(edit(Key::Letter('w'), false, true), Some(EditAction::DeleteWordBackward));
    assert_eq!(edit(Key::Letter('a'), true, true), Some(EditAction::LineStart));
    assert_eq!(edit(Key::Letter('b'), true, true), Some(EditAction::BackwardWord));
    assert_eq!(edit(Key::Letter('b'), false, true), None);
    assert_eq!(edit(Key::Letter('a'), true, false), None);
    assert_eq!(edit(Key::BackSpace, false, false), None);
    assert_eq!(edit(Key::Other, true, true), None);
    // The window itself has no such keys.
    assert!(matches!(d.window_key(Key::Letter('b'), true), KeyAction::Pass));
}

#[test]
fn buttons_show_labelled_destinations() {
    let mut d = TranscriptionDialog::new();
    let buttons = d
        .set_destinations(vec![
            slot(4, "tools"),
            DestinationSlot::inactive(2),
            slot(1, "repo\nmain\nzsh\nmore"),
            slot(1, "repo\nmain"),
        ])
        .unwrap();
    assert_eq!(buttons.len(), 8);
    let first = buttons[0].as_ref().unwrap();
    assert_eq!(first.icon, "<span size='large'>\u{F03A5}</span>");
    assert_eq!(first.lines, vec!["<small>tools</small>"]);
    assert_eq!(
        first.css,
        "button { background-color: #112233; padding: 4px 8px; font-size: small; }"
    );
    assert!(buttons[1].is_none());
    let third = buttons[2].as_ref().unwrap();
    assert_eq!(third.icon, "<span size='large'>\u{F03AB}</span>");
    assert_eq!(
        third.lines,
        vec![
            "<small>repo</small>",
            "<small><span foreground='#d4a017'>main</span></small>",
            "<small><span foreground='#00bcd4' style='italic'>zsh</span></small>",
        ]
    );
    assert_eq!(buttons[3].as_ref().unwrap().lines.len(), 2);
    assert!(buttons[4].is_none());
    assert!(d.set_destinations(vec![DestinationSlot::inactive(1)]).is_none());
    assert!(matches!(d.click(0), SendAction::Ignore));
}

#[test]
fn states_have_their_looks() {
    let mut d = TranscriptionDialog::new();
    assert_eq!(d.state(), TranscriptionState::Idle);
    let look = d.update_state(TranscriptionState::Recording, "Listening...");
    assert_eq!(d.state(), TranscriptionState::Recording);
    assert_eq!(look.status.as_deref(), Some("<small>Listening...</small>"));
    assert!(look.spinning && look.level_visible && !look.make_editable);
    assert_eq!((look.preview_visible, look.text_visible), (Some(true), Some(false)));
    let look = d.update_state(TranscriptionState::Processing, "Recording...");
    assert_eq!(look.status.as_deref(), Some("<small>⚙️ Recording...</small>"));
    let look = d.update_state(TranscriptionState::Reviewing, "Ready to send");
    assert_eq!(
        look.status.as_deref(),
        Some("<small>✓ Ready to send • <span foreground='#888888'>Alt+Enter to send • Escape to cancel</span></small>")
    );
    assert!(!look.spinning && !look.level_visible && look.make_editable);
    assert_eq!((look.preview_visible, look.text_visible), (Some(false), Some(true)));
    let look = d.update_state(TranscriptionState::Error, "No speech detected");
    assert_eq!(look.status.as_deref(), Some("<small>❌ No speech detected</small>"));
    assert_eq!((look.preview_visible, look.text_visible), (None, None));
    let look = d.update_state(TranscriptionState::Idle, "x");
    assert_eq!(look.status, None);
    d.set_destinations(vec![slot(1, "a")]);
    d.update_state(TranscriptionState::Reviewing, "");
    d.reset();
    assert_eq!(d.state(), TranscriptionState::Idle);
    assert!(matches!(d.click(0), SendAction::Ignore));
}

#[test]
fn sources_are_shown_by_what_they_are() {
    let d = TranscriptionDialog::new();
    assert_eq!(
        d.set_source_info("Default (Blue Yeti) x)"),
        "<small><span foreground='#888888'>🎙️ Blue Yeti</span></small>"
    );
    assert_eq!(
        d.set_source_info("USB (Blue Yeti)"),
        "<small><span foreground='#FFFFFF'>🎙️ USB (Blue Yeti)</span></small>"
    );
    assert_eq!(
        d.set_source_info("DEFAULT"),
        "<small><span foreground='#888888'>🎙️ DEFAULT</span></small>"
    );
    assert_eq!(
        d.set_source_info("default )x("),
        "<small><span foreground='#888888'>🎙️ default )x(</span></small>"
    );
    assert_eq!(
        show_source("default (", true),
        "<small><span foreground='#888888'>🎙️ default (</span></small>"
    );
    assert_eq!(
        show_source("é (ü)", true),
        "<small><span foreground='#888888'>🎙️ ü</span></small>"
    );
    assert_eq!(
        d.set_source_info("defaul"),
        "<small><span foreground='#FFFFFF'>🎙️ defaul</span></small>"
    );
}

#[test]
fn confirmed_text_stands_before_the_preview() {
    let d = TranscriptionDialog::new();
    assert_eq!(d.set_text_preview("a &amp; b"), "<span foreground='#888888'>a &amp; b</span>");
    assert_eq!(
        d.set_confirmed_and_preview("", "b<", "", "b&lt;"),
        "<span foreground='#888888'>b&lt;</span>"
    );
    assert_eq!(d.set_confirmed_and_preview("a&", "", "a&amp;", ""), "a&amp;");
    assert_eq!(
        d.set_confirmed_and_preview("a&", "b", "a&amp;", "b"),
        "a&amp; <span foreground='#888888'>b</span>"
    );
}
