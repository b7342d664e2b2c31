//! The transcription dialog: what it shows, and what keys and clicks do.
use crate::text;
use vstd::prelude::*;
use vstd::string::*;

verus! {

/// What the dialog is doing.
#[derive(Debug, Clone, Copy, PartialEq, Eq, Structural)]
pub enum TranscriptionState {
    Idle,
    Recording,
    Processing,
    Reviewing,
    Error,
}

/// A place that a transcription can be sent to.
#[derive(Debug)]
pub struct DestinationSlot {
    pub slot_num: usize,
    pub label: String,
    pub color_hex: String,
}

/// What a destination holds.
pub struct DestinationView {
    pub slot_num: usize,
    pub label: Seq<char>,
    pub color_hex: Seq<char>,
}

impl View for DestinationSlot {
    type V = DestinationView;

    open spec fn view(&self) -> DestinationView {
        DestinationView {
            slot_num: self.slot_num,
            label: self.label@,
            color_hex: self.color_hex@,
        }
    }
}

/// A slot that nothing is sent to.
pub open spec fn inactive_slot(slot_num: usize) -> DestinationView {
    DestinationView { slot_num, label: Seq::empty(), color_hex: "transparent"@ }
}

/// The views of a list of destinations.
pub open spec fn destination_views(slots: Seq<DestinationSlot>) -> Seq<DestinationView> {
    slots.map_values(|d: DestinationSlot| d@)
}

impl DestinationSlot {
    pub fn inactive(slot_num: usize) -> (r: Self)
        ensures
            r@ == inactive_slot(slot_num),
    {
        let r = DestinationSlot {
            slot_num,
            label: String::new(),
            color_hex: "transparent".to_owned(),
        };
        assert(r.label@ =~= Seq::<char>::empty());
        r
    }

    pub fn with_label(slot_num: usize, label: String, color_hex: String) -> (r: Self)
        ensures
            r@ == (DestinationView { slot_num, label: label@, color_hex: color_hex@ }),
    {
        DestinationSlot { slot_num, label, color_hex }
    }
}

impl Clone for DestinationSlot {
    fn clone(&self) -> (r: Self)
        ensures
            r@ == self@,
    {
        DestinationSlot {
            slot_num: self.slot_num,
            label: self.label.clone(),
            color_hex: self.color_hex.clone(),
        }
    }
}

/// The numeral that marks a slot.
pub open spec fn slot_icon(slot_num: int) -> char {
    if slot_num == 1 {
        '\u{F03A5}'
    } else if slot_num == 2 {
        '\u{F03A8}'
    } else if slot_num == 3 {
        '\u{F03AB}'
    } else if slot_num == 4 {
        '\u{F03B2}'
    } else if slot_num == 5 {
        '\u{F03AF}'
    } else if slot_num == 6 {
        '\u{F03B4}'
    } else if slot_num == 7 {
        '\u{F03B7}'
    } else if slot_num == 8 {
        '\u{F03BA}'
    } else {
        '?'
    }
}

pub fn slot_unicode_char(slot_num: usize) -> (r: char)
    ensures
        r == slot_icon(slot_num as int),
{
    match slot_num {
        1 => '\u{F03A5}',
        2 => '\u{F03A8}',
        3 => '\u{F03AB}',
        4 => '\u{F03B2}',
        5 => '\u{F03AF}',
        6 => '\u{F03B4}',
        7 => '\u{F03B7}',
        8 => '\u{F03BA}',
        _ => '?',
    }
}

/// What is sent where.
#[derive(Debug)]
pub enum SendAction {
    /// Nothing is sent.
    Ignore,
    /// Stop recording and send the text to these slots.
    StopAndSend(Vec<usize>),
    /// Send the text as it was edited to these slots.
    SendText(Vec<usize>),
}

/// What an action says.
pub enum SendView {
    Ignore,
    StopAndSend(Seq<usize>),
    SendText(Seq<usize>),
}

impl View for SendAction {
    type V = SendView;

    open spec fn view(&self) -> SendView {
        match *self {
            SendAction::Ignore => SendView::Ignore,
            SendAction::StopAndSend(s) => SendView::StopAndSend(s@),
            SendAction::SendText(s) => SendView::SendText(s@),
        }
    }
}

/// What sending to `slots` means: while recording the recording stops first, in
/// review the edited text is sent, and at other times nothing happens.
pub open spec fn send_to(state: TranscriptionState, slots: Seq<usize>) -> SendView {
    match state {
        TranscriptionState::Recording => SendView::StopAndSend(slots),
        TranscriptionState::Processing => SendView::StopAndSend(slots),
        TranscriptionState::Reviewing => SendView::SendText(slots),
        TranscriptionState::Idle => SendView::Ignore,
        TranscriptionState::Error => SendView::Ignore,
    }
}

/// The slots that something can be sent to: those with a label, in order.
pub open spec fn active_slots(destinations: Seq<DestinationView>) -> Seq<usize>
    decreases destinations.len(),
{
    if destinations.len() == 0 {
        Seq::empty()
    } else {
        let before = active_slots(destinations.drop_last());
        if destinations.last().label.len() > 0 {
            before.push(destinations.last().slot_num)
        } else {
            before
        }
    }
}

/// Where text for all goes: to all active slots, or else to the default output.
pub open spec fn all_targets(destinations: Seq<DestinationView>) -> Seq<usize> {
    let active = active_slots(destinations);
    if active.len() > 0 {
        active
    } else {
        seq![0usize]
    }
}

fn send_action(state: TranscriptionState, slots: Vec<usize>) -> (r: SendAction)
    ensures
        r@ == send_to(state, slots@),
{
    match state {
        TranscriptionState::Recording => SendAction::StopAndSend(slots),
        TranscriptionState::Processing => SendAction::StopAndSend(slots),
        TranscriptionState::Reviewing => SendAction::SendText(slots),
        TranscriptionState::Idle => SendAction::Ignore,
        TranscriptionState::Error => SendAction::Ignore,
    }
}

/// Sends the text to all active slots, or else to the default output.
pub fn handle_send_to_all(
    current_state: TranscriptionState,
    destinations: &Vec<DestinationSlot>,
) -> (r: SendAction)
    ensures
        r@ == send_to(current_state, all_targets(destination_views(destinations@))),
{
    let mut slots: Vec<usize> = Vec::new();
    let ghost all = destination_views(destinations@);
    let mut i: usize = 0;
    assert(slots@ =~= active_slots(all.take(0)));
    while i < destinations.len()
        invariant
            i <= destinations@.len(),
            all == destination_views(destinations@),
            slots@ == active_slots(all.take(i as int)),
        decreases destinations@.len() - i,
    {
        let d = &destinations[i];
        proof {
            assert(all.take(i + 1).drop_last() =~= all.take(i as int));
            assert(all.take(i + 1).last() == d@);
        }
        if !d.label.as_str().is_empty() {
            slots.push(d.slot_num);
        }
        i = i + 1;
    }
    assert(all.take(i as int) =~= all);
    if slots.len() == 0 {
        slots.push(0);
        assert(slots@ =~= seq![0usize]);
    }
    send_action(current_state, slots)
}

/// Sends the text to one slot.
pub fn handle_send_to_slot(current_state: TranscriptionState, slot_num: usize) -> (r: SendAction)
    ensures
        r@ == send_to(current_state, seq![slot_num]),
{
    let mut slots: Vec<usize> = Vec::new();
    slots.push(slot_num);
    assert(slots@ =~= seq![slot_num]);
    send_action(current_state, slots)
}

/// A key, as far as the dialog is concerned.
#[derive(Debug, Clone, Copy, PartialEq, Eq, Structural)]
pub enum Key {
    Escape,
    Enter,
    BackSpace,
    /// A digit, from the top row or the keypad.
    Digit(u8),
    /// A letter, in lower case.
    Letter(char),
    Other,
}

/// What a key does to the text that is edited.
#[derive(Debug, Clone, Copy, PartialEq, Eq, Structural)]
pub enum EditAction {
    BackwardWord,
    ForwardWord,
    DeleteWordForward,
    DeleteWordBackward,
    LineStart,
    LineEnd,
    KillToLineEnd,
    KillToLineStart,
}

/// What a key does.
#[derive(Debug)]
pub enum KeyAction {
    /// The key is none of the dialog's and goes on its way.
    Pass,
    /// Stop recording and go on to review.
    ManualStop,
    /// Drop the text.
    Cancel,
    CloseWindow,
    Send(SendAction),
    Edit(EditAction),
}

/// What the action of a key says.
pub enum KeyView {
    Pass,
    ManualStop,
    Cancel,
    CloseWindow,
    Send(SendView),
    Edit(EditAction),
}

impl View for KeyAction {
    type V = KeyView;

    open spec fn view(&self) -> KeyView {
        match *self {
            KeyAction::Pass => KeyView::Pass,
            KeyAction::ManualStop => KeyView::ManualStop,
            KeyAction::Cancel => KeyView::Cancel,
            KeyAction::CloseWindow => KeyView::CloseWindow,
            KeyAction::Send(s) => KeyView::Send(s@),
            KeyAction::Edit(e) => KeyView::Edit(e),
        }
    }
}

/// What the dialog knows.
pub struct DialogView {
    pub state: TranscriptionState,
    pub destinations: Seq<DestinationView>,
}

impl DialogView {
    /// What Alt and a key send, if anything: Enter to all, a digit from 1 to 8 to the
    /// destination at that place, and 0 to the default output.
    pub open spec fn alt_send(self, key: Key) -> Option<SendView> {
        match key {
            Key::Enter => Some(send_to(self.state, all_targets(self.destinations))),
            Key::Digit(n) => if n == 0 {
                Some(send_to(self.state, seq![0usize]))
            } else if n <= 8 && n <= self.destinations.len() {
                Some(send_to(self.state, seq![self.destinations[n - 1].slot_num]))
            } else {
                None
            },
            _ => None,
        }
    }

    /// What a key does in the dialog's window.
    pub open spec fn window_key(self, key: Key, alt: bool) -> KeyView {
        if key == Key::Escape {
            match self.state {
                TranscriptionState::Recording => KeyView::ManualStop,
                TranscriptionState::Processing => KeyView::ManualStop,
                TranscriptionState::Reviewing => KeyView::Cancel,
                TranscriptionState::Idle => KeyView::CloseWindow,
                TranscriptionState::Error => KeyView::CloseWindow,
            }
        } else if alt && self.alt_send(key) is Some {
            KeyView::Send(self.alt_send(key)->0)
        } else {
            KeyView::Pass
        }
    }

    /// What a key does in the text that is edited.
    pub open spec fn text_key(self, key: Key, alt: bool, ctrl: bool) -> KeyView {
        if key == Key::Escape && self.state == TranscriptionState::Reviewing {
            KeyView::Cancel
        } else if key == Key::Escape && (self.state == TranscriptionState::Recording || self.state
            == TranscriptionState::Processing) {
            KeyView::ManualStop
        } else if alt && self.alt_send(key) is Some {
            KeyView::Send(self.alt_send(key)->0)
        } else if alt && alt_edit(key) is Some {
            KeyView::Edit(alt_edit(key)->0)
        } else if ctrl && ctrl_edit(key) is Some {
            KeyView::Edit(ctrl_edit(key)->0)
        } else {
            KeyView::Pass
        }
    }

    /// What a click on the button at `index` sends.
    pub open spec fn click(self, index: int) -> SendView {
        if 0 <= index < self.destinations.len() {
            send_to(self.state, seq![self.destinations[index].slot_num])
        } else {
            SendView::Ignore
        }
    }
}

/// What Alt and a key do to the text that is edited.
pub open spec fn alt_edit(key: Key) -> Option<EditAction> {
    if key == Key::Letter('b') {
        Some(EditAction::BackwardWord)
    } else if key == Key::Letter('f') {
        Some(EditAction::ForwardWord)
    } else if key == Key::Letter('d') {
        Some(EditAction::DeleteWordForward)
    } else if key == Key::BackSpace {
        Some(EditAction::DeleteWordBackward)
    } else {
        None
    }
}

/// What Control and a key do to the text that is edited.
pub open spec fn ctrl_edit(key: Key) -> Option<EditAction> {
    if key == Key::Letter('a') {
        Some(EditAction::LineStart)
    } else if key == Key::Letter('e') {
        Some(EditAction::LineEnd)
    } else if key == Key::Letter('k') {
        Some(EditAction::KillToLineEnd)
    } else if key == Key::Letter('u') {
        Some(EditAction::KillToLineStart)
    } else if key == Key::Letter('w') {
        Some(EditAction::DeleteWordBackward)
    } else {
        None
    }
}

fn alt_edit_action(key: Key) -> (r: Option<EditAction>)
    ensures
        r == alt_edit(key),
{
    match key {
        Key::Letter(c) => if c == 'b' {
            Some(EditAction::BackwardWord)
        } else if c == 'f' {
            Some(EditAction::ForwardWord)
        } else if c == 'd' {
            Some(EditAction::DeleteWordForward)
        } else {
            None
        },
        Key::BackSpace => Some(EditAction::DeleteWordBackward),
        _ => None,
    }
}

fn ctrl_edit_action(key: Key) -> (r: Option<EditAction>)
    ensures
        r == ctrl_edit(key),
{
    match key {
        Key::Letter(c) => if c == 'a' {
            Some(EditAction::LineStart)
        } else if c == 'e' {
            Some(EditAction::LineEnd)
        } else if c == 'k' {
            Some(EditAction::KillToLineEnd)
        } else if c == 'u' {
            Some(EditAction::KillToLineStart)
        } else if c == 'w' {
            Some(EditAction::DeleteWordBackward)
        } else {
            None
        },
        _ => None,
    }
}

/// A button of a destination: its icon, the lines of its label and its style.
#[derive(Debug)]
pub struct DestinationButton {
    pub icon: String,
    pub lines: Vec<String>,
    pub css: String,
}

/// What a button shows.
pub struct ButtonView {
    pub icon: Seq<char>,
    pub lines: Seq<Seq<char>>,
    pub css: Seq<char>,
}

impl View for DestinationButton {
    type V = ButtonView;

    open spec fn view(&self) -> ButtonView {
        ButtonView { icon: self.icon@, lines: text::string_views(self.lines@), css: self.css@ }
    }
}

/// What a button shows, where there is one.
pub open spec fn button_view(b: Option<DestinationButton>) -> Option<ButtonView> {
    match b {
        Some(x) => Some(x@),
        None => None,
    }
}

/// What each of `buttons` shows.
pub open spec fn button_views(buttons: Seq<Option<DestinationButton>>) -> Seq<Option<ButtonView>> {
    buttons.map_values(|b: Option<DestinationButton>| button_view(b))
}

/// The lines of a label. Of several, the first is plain, the second stands out in
/// yellow, the third in cyan, and the others are not shown.
pub open spec fn label_lines(label: Seq<char>) -> Seq<Seq<char>> {
    let parts = text::split_of(label, '\n');
    let first = "<small>"@ + parts[0] + "</small>"@;
    if parts.len() <= 1 {
        seq!["<small>"@ + label + "</small>"@]
    } else {
        let second = "<small><span foreground='#d4a017'>"@ + parts[1] + "</span></small>"@;
        if parts.len() == 2 {
            seq![first, second]
        } else {
            seq![
                first,
                second,
                "<small><span foreground='#00bcd4' style='italic'>"@ + parts[2]
                    + "</span></small>"@,
            ]
        }
    }
}

/// The button for a destination at place `index`.
pub open spec fn button_of(d: DestinationView, index: int) -> ButtonView {
    ButtonView {
        icon: "<span size='large'>"@ + seq![slot_icon(index + 1)] + "</span>"@,
        lines: label_lines(d.label),
        css: "button { background-color: "@ + d.color_hex
            + "; padding: 4px 8px; font-size: small; }"@,
    }
}

/// The eight buttons: one for each of the first eight destinations that has a label.
pub open spec fn buttons_of(destinations: Seq<DestinationView>) -> Seq<Option<ButtonView>> {
    Seq::new(
        8,
        |i: int|
            if i < destinations.len() && destinations[i].label.len() > 0 {
                Some(button_of(destinations[i], i))
            } else {
                None
            },
    )
}

fn markup(before: &str, inner: &str, after: &str) -> (r: String)
    ensures
        r@ == before@ + inner@ + after@,
{
    before.to_owned().concat(inner).concat(after)
}

fn label_markup(label: &str) -> (r: Vec<String>)
    ensures
        text::string_views(r@) == label_lines(label@),
{
    let parts = text::split(label, '\n');
    let mut lines: Vec<String> = Vec::new();
    assert(text::string_views(parts@).len() == parts@.len());
    if parts.len() <= 1 {
        lines.push(markup("<small>", label, "</small>"));
    } else {
        lines.push(markup("<small>", parts[0].as_str(), "</small>"));
        lines.push(
            markup("<small><span foreground='#d4a017'>", parts[1].as_str(), "</span></small>"),
        );
        if parts.len() > 2 {
            lines.push(
                markup(
                    "<small><span foreground='#00bcd4' style='italic'>",
                    parts[2].as_str(),
                    "</span></small>",
                ),
            );
        }
    }
    assert(text::string_views(lines@) =~= label_lines(label@));
    lines
}

fn destination_button(d: &DestinationSlot, index: usize) -> (r: DestinationButton)
    requires
        index < 8,
    ensures
        r@ == button_of(d@, index as int),
{
    let mut icon = "<span size='large'>".to_owned();
    let ghost start = icon@;
    icon.push(slot_unicode_char(index + 1));
    assert(icon@ =~= start + seq![slot_icon(index + 1)]);
    icon.append("</span>");
    DestinationButton {
        icon,
        lines: label_markup(d.label.as_str()),
        css: markup(
            "button { background-color: ",
            d.color_hex.as_str(),
            "; padding: 4px 8px; font-size: small; }",
        ),
    }
}

/// How the dialog looks in a state. `None` leaves a part as it was.
#[derive(Debug)]
pub struct StateLook {
    pub spinning: bool,
    pub status: Option<String>,
    /// Whether the audio level is shown. It is set wherever it is shown.
    pub level_visible: bool,
    pub preview_visible: Option<bool>,
    pub text_visible: Option<bool>,
    /// Whether the text becomes editable.
    pub make_editable: bool,
}

/// What a look says.
pub struct LookView {
    pub spinning: bool,
    pub status: Option<Seq<char>>,
    pub level_visible: bool,
    pub preview_visible: Option<bool>,
    pub text_visible: Option<bool>,
    pub make_editable: bool,
}

impl View for StateLook {
    type V = LookView;

    open spec fn view(&self) -> LookView {
        LookView {
            spinning: self.spinning,
            status: text::string_view(self.status),
            level_visible: self.level_visible,
            preview_visible: self.preview_visible,
            text_visible: self.text_visible,
            make_editable: self.make_editable,
        }
    }
}

/// How the dialog looks in `state` with `message`.
pub open spec fn look_of(state: TranscriptionState, message: Seq<char>) -> LookView {
    match state {
        TranscriptionState::Recording => LookView {
            spinning: true,
            status: Some("<small>"@ + message + "</small>"@),
            level_visible: true,
            preview_visible: Some(true),
            text_visible: Some(false),
            make_editable: false,
        },
        TranscriptionState::Processing => LookView {
            spinning: true,
            status: Some("<small>⚙️ "@ + message + "</small>"@),
            level_visible: true,
            preview_visible: Some(true),
            text_visible: Some(false),
            make_editable: false,
        },
        TranscriptionState::Reviewing => LookView {
            spinning: false,
            status: Some(
                "<small>✓ "@ + message
                    + " • <span foreground='#888888'>Alt+Enter to send • Escape to cancel</span></small>"@,
            ),
            level_visible: false,
            preview_visible: Some(false),
            text_visible: Some(true),
            make_editable: true,
        },
        TranscriptionState::Error => LookView {
            spinning: false,
            status: Some("<small>❌ "@ + message + "</small>"@),
            level_visible: false,
            preview_visible: None,
            text_visible: None,
            make_editable: false,
        },
        TranscriptionState::Idle => LookView {
            spinning: false,
            status: None,
            level_visible: false,
            preview_visible: None,
            text_visible: None,
            make_editable: false,
        },
    }
}

/// What the dialog knows, and how it looks and acts by it.
#[derive(Debug)]
pub struct TranscriptionDialog {
    state: TranscriptionState,
    destinations: Vec<DestinationSlot>,
}

impl View for TranscriptionDialog {
    type V = DialogView;

    closed spec fn view(&self) -> DialogView {
        DialogView { state: self.state, destinations: destination_views(self.destinations@) }
    }
}

impl TranscriptionDialog {
    pub fn new() -> (r: Self)
        ensures
            r@ == (DialogView { state: TranscriptionState::Idle, destinations: Seq::empty() }),
    {
        let r = TranscriptionDialog { state: TranscriptionState::Idle, destinations: Vec::new() };
        assert(r@.destinations =~= Seq::<DestinationView>::empty());
        r
    }

    pub fn state(&self) -> (r: TranscriptionState)
        ensures
            r == self@.state,
    {
        self.state
    }

    /// Goes back to how a dialog starts.
    pub fn reset(&mut self)
        ensures
            final(self)@ == (DialogView {
                state: TranscriptionState::Idle,
                destinations: Seq::empty(),
            }),
    {
        self.state = TranscriptionState::Idle;
        self.destinations = Vec::new();
        assert(self@.destinations =~= Seq::<DestinationView>::empty());
    }

    /// Takes in a new state, and says how the dialog looks in it.
    pub fn update_state(&mut self, state: TranscriptionState, message: &str) -> (r: StateLook)
        ensures
            final(self)@ == (DialogView { state, ..old(self)@ }),
            r@ == look_of(state, message@),
    {
        self.state = state;
        match state {
            TranscriptionState::Recording => StateLook {
                spinning: true,
                status: Some(markup("<small>", message, "</small>")),
                level_visible: true,
                preview_visible: Some(true),
                text_visible: Some(false),
                make_editable: false,
            },
            TranscriptionState::Processing => StateLook {
                spinning: true,
                status: Some(markup("<small>⚙️ ", message, "</small>")),
                level_visible: true,
                preview_visible: Some(true),
                text_visible: Some(false),
                make_editable: false,
            },
            TranscriptionState::Reviewing => StateLook {
                spinning: false,
                status: Some(
                    markup(
                        "<small>✓ ",
                        message,
                        " • <span foreground='#888888'>Alt+Enter to send • Escape to cancel</span></small>",
                    ),
                ),
                level_visible: false,
                preview_visible: Some(false),
                text_visible: Some(true),
                make_editable: true,
            },
            TranscriptionState::Error => StateLook {
                spinning: false,
                status: Some(markup("<small>❌ ", message, "</small>")),
                level_visible: false,
                preview_visible: None,
                text_visible: None,
                make_editable: false,
            },
            TranscriptionState::Idle => StateLook {
                spinning: false,
                status: None,
                level_visible: false,
                preview_visible: None,
                text_visible: None,
                make_editable: false,
            },
        }
    }

    /// Takes in new destinations, and says what the eight buttons show. Where no
    /// destination has a label, there is `None`: the buttons are not shown at all.
    pub fn set_destinations(&mut self, destinations: Vec<DestinationSlot>) -> (r: Option<
        Vec<Option<DestinationButton>>,
    >)
        ensures
            final(self)@ == (DialogView {
                destinations: destination_views(destinations@),
                ..old(self)@
            }),
            r is Some <==> active_slots(destination_views(destinations@)).len() > 0,
            r matches Some(b) ==> button_views(b@) == buttons_of(destination_views(destinations@)),
    {
        let ghost all = destination_views(destinations@);
        let mut any_active = false;
        let mut i: usize = 0;
        while i < destinations.len()
            invariant
                i <= destinations@.len(),
                all == destination_views(destinations@),
                any_active == (active_slots(all.take(i as int)).len() > 0),
            decreases destinations@.len() - i,
        {
            proof {
                assert(all.take(i + 1).drop_last() =~= all.take(i as int));
                assert(all.take(i + 1).last() == destinations@[i as int]@);
            }
            if !destinations[i].label.as_str().is_empty() {
                any_active = true;
            }
            i = i + 1;
        }
        assert(all.take(i as int) =~= all);
        if !any_active {
            self.destinations = destinations;
            return None;
        }
        let mut buttons: Vec<Option<DestinationButton>> = Vec::new();
        let ghost shown = buttons_of(all);
        let mut i: usize = 0;
        while i < 8
            invariant
                i <= 8,
                all == destination_views(destinations@),
                shown == buttons_of(all),
                button_views(buttons@) =~= shown.take(i as int),
            decreases 8 - i,
        {
            let button = if i < destinations.len() && !destinations[i].label.as_str().is_empty() {
                Some(destination_button(&destinations[i], i))
            } else {
                None
            };
            let ghost before = buttons@;
            buttons.push(button);
            assert(button_views(buttons@) =~= button_views(before).push(button_view(button)));
            assert(shown[i as int] == button_view(button));
            i = i + 1;
        }
        assert(shown.take(8) =~= shown);
        self.destinations = destinations;
        Some(buttons)
    }

    /// What a click on the button at `index` sends.
    pub fn click(&self, index: usize) -> (r: SendAction)
        ensures
            r@ == self@.click(index as int),
    {
        if index < self.destinations.len() {
            handle_send_to_slot(self.state, self.destinations[index].slot_num)
        } else {
            SendAction::Ignore
        }
    }

    /// What Alt and a key send, if anything.
    fn alt_send(&self, key: Key) -> (r: Option<SendAction>)
        ensures
            r is Some <==> self@.alt_send(key) is Some,
            r matches Some(a) ==> self@.alt_send(key) == Some(a@),
    {
        match key {
            Key::Enter => Some(handle_send_to_all(self.state, &self.destinations)),
            Key::Digit(n) => if n == 0 {
                Some(handle_send_to_slot(self.state, 0))
            } else if n <= 8 && n as usize <= self.destinations.len() {
                Some(handle_send_to_slot(self.state, self.destinations[n as usize - 1].slot_num))
            } else {
                None
            },
            _ => None,
        }
    }

    /// What a key does in the dialog's window.
    pub fn window_key(&self, key: Key, alt: bool) -> (r: KeyAction)
        ensures
            r@ == self@.window_key(key, alt),
    {
        if key == Key::Escape {
            return match self.state {
                TranscriptionState::Recording => KeyAction::ManualStop,
                TranscriptionState::Processing => KeyAction::ManualStop,
                TranscriptionState::Reviewing => KeyAction::Cancel,
                TranscriptionState::Idle => KeyAction::CloseWindow,
                TranscriptionState::Error => KeyAction::CloseWindow,
            };
        }
        if alt {
            if let Some(action) = self.alt_send(key) {
                return KeyAction::Send(action);
            }
        }
        KeyAction::Pass
    }

    /// What a key does in the text that is edited.
    pub fn text_key(&self, key: Key, alt: bool, ctrl: bool) -> (r: KeyAction)
        ensures
            r@ == self@.text_key(key, alt, ctrl),
    {
        if key == Key::Escape {
            match self.state {
                TranscriptionState::Recording => {
                    return KeyAction::ManualStop;
                },
                TranscriptionState::Processing => {
                    return KeyAction::ManualStop;
                },
                TranscriptionState::Reviewing => {
                    return KeyAction::Cancel;
                },
                _ => {},
            }
        }
        if alt {
            if let Some(action) = self.alt_send(key) {
                return KeyAction::Send(action);
            }
            if let Some(edit) = alt_edit_action(key) {
                return KeyAction::Edit(edit);
            }
        }
        if ctrl {
            if let Some(edit) = ctrl_edit_action(key) {
                return KeyAction::Edit(edit);
            }
        }
        KeyAction::Pass
    }
}

/// What `str::to_lowercase` makes of a text.
pub uninterp spec fn lowercase(s: Seq<char>) -> Seq<char>;

/// An ASCII letter in lower case, any other character as it is.
pub open spec fn ascii_lower(c: char) -> char {
    if 'A' <= c <= 'Z' {
        ((c as u32) + 32) as char
    } else {
        c
    }
}

/// `str::to_lowercase`: the text in lower case, which depends on the text alone. Of
/// ASCII text the letters from A to Z change.
#[verifier::external_body]
fn to_lowercase(s: &str) -> (r: String)
    ensures
        r@ == lowercase(s@),
        vstd::utf8::is_ascii_chars(s@) ==> r@ == s@.map_values(|c: char| ascii_lower(c)),
{
    s.to_lowercase()
}

/// Whether the name of a source says that it is the default one.
pub open spec fn is_default_name(device_name: Seq<char>) -> bool {
    "default"@.is_prefix_of(lowercase(device_name))
}

/// What is shown of the name of a source: of a default source only what stands
/// between its first opening and its first closing bracket, where they stand so.
pub open spec fn display_name(device_name: Seq<char>, is_default: bool) -> Seq<char> {
    match (text::position_of(device_name, "("@, 0), text::position_of(device_name, ")"@, 0)) {
        (Some(start), Some(end)) if is_default && start < end => device_name.subrange(
            start + 1,
            end,
        ),
        _ => device_name,
    }
}

/// How the name of a source is shown: grey where it is the default one, else white.
pub open spec fn source_markup(device_name: Seq<char>, is_default: bool) -> Seq<char> {
    let color = if is_default {
        "#888888"@
    } else {
        "#FFFFFF"@
    };
    "<small><span foreground='"@ + color + "'>🎙️ "@ + display_name(device_name, is_default)
        + "</span></small>"@
}

/// Text that may still change, in grey. It is escaped already.
pub open spec fn grey(escaped: Seq<char>) -> Seq<char> {
    "<span foreground='#888888'>"@ + escaped + "</span>"@
}

/// How confirmed text and the preview behind it are shown.
pub open spec fn confirmed_and_preview(
    confirmed: Seq<char>,
    preview: Seq<char>,
    confirmed_escaped: Seq<char>,
    preview_escaped: Seq<char>,
) -> Seq<char> {
    if confirmed.len() == 0 {
        grey(preview_escaped)
    } else if preview.len() == 0 {
        confirmed_escaped
    } else {
        confirmed_escaped + " "@ + grey(preview_escaped)
    }
}

/// How the name of a source is shown, by whether it is the default one.
pub fn show_source(device_name: &str, is_default: bool) -> (r: String)
    ensures
        r@ == source_markup(device_name@, is_default),
{
    proof {
        reveal_strlit("(");
        reveal_strlit(")");
    }
    let mut name = device_name;
    if is_default {
        let hay = text::chars_of(device_name);
        let open = text::chars_of("(");
        let close = text::chars_of(")");
        if let Some(start) = text::find_from(&hay, &open, 0) {
            if let Some(end) = text::find_from(&hay, &close, 0) {
                if start < end {
                    name = device_name.substring_char(start + 1, end);
                }
            }
        }
    }
    let color = if is_default {
        "#888888"
    } else {
        "#FFFFFF"
    };
    markup("<small><span foreground='", color, "'>🎙️ ").concat(name).concat("</span></small>")
}

impl TranscriptionDialog {
    /// How the name of a source is shown.
    pub fn set_source_info(&self, device_name: &str) -> (r: String)
        ensures
            r@ == source_markup(device_name@, is_default_name(device_name@)),
    {
        let lower = to_lowercase(device_name);
        show_source(device_name, text::starts_with(lower.as_str(), "default"))
    }

    /// How a preview is shown. The text is escaped already.
    pub fn set_text_preview(&self, escaped: &str) -> (r: String)
        ensures
            r@ == grey(escaped@),
    {
        markup("<span foreground='#888888'>", escaped, "</span>")
    }

    /// How confirmed text and the preview behind it are shown. Each is given as it is
    /// and as it was escaped.
    pub fn set_confirmed_and_preview(
        &self,
        confirmed: &str,
        preview: &str,
        confirmed_escaped: &str,
        preview_escaped: &str,
    ) -> (r: String)
        ensures
            r@ == confirmed_and_preview(
                confirmed@,
                preview@,
                confirmed_escaped@,
                preview_escaped@,
            ),
    {
        if confirmed.is_empty() {
            self.set_text_preview(preview_escaped)
        } else if preview.is_empty() {
            confirmed_escaped.to_owned()
        } else {
            confirmed_escaped.to_owned().concat(" ").concat(
                self.set_text_preview(preview_escaped).as_str(),
            )
        }
    }
}

/// While recording, the shortcuts stop the recording and send what was said; in
/// review they send the text as it was edited; at other times they send nothing.
pub proof fn lemma_shortcuts_follow_the_state(d: DialogView, key: Key)
    requires
        d.alt_send(key) is Some,
    ensures
        d.state == TranscriptionState::Recording || d.state == TranscriptionState::Processing
            <==> d.alt_send(key)->0 is StopAndSend,
        d.state == TranscriptionState::Reviewing <==> d.alt_send(key)->0 is SendText,
        d.state == TranscriptionState::Idle || d.state == TranscriptionState::Error
            <==> d.alt_send(key)->0 is Ignore,
{
}

/// A shortcut sends the same wherever it is pressed, and sends nothing without Alt.
pub proof fn lemma_shortcuts_work_everywhere(d: DialogView, key: Key, alt: bool, ctrl: bool)
    ensures
        d.window_key(key, alt) is Send <==> d.text_key(key, alt, ctrl) is Send,
        d.window_key(key, alt) is Send ==> d.text_key(key, alt, ctrl) == d.window_key(key, alt),
        !alt ==> !(d.window_key(key, alt) is Send),
{
}

/// A click on a button sends what Alt and the button's number send.
pub proof fn lemma_clicks_are_shortcuts(d: DialogView, n: u8)
    requires
        1 <= n <= 8,
        n <= d.destinations.len(),
    ensures
        d.alt_send(Key::Digit(n)) == Some(d.click(n - 1)),
{
}

/// Text for all goes to the slot of every destination that has a label, and to no
/// other, or to the default output where there is none.
pub proof fn lemma_all_targets_are_the_active_slots(destinations: Seq<DestinationView>, n: usize)
    ensures
        active_slots(destinations).contains(n) <==> exists|i: int|
            0 <= i < destinations.len() && (#[trigger] destinations[i]).label.len() > 0
                && destinations[i].slot_num == n,
        all_targets(destinations).len() > 0,
        active_slots(destinations).len() == 0 ==> all_targets(destinations) == seq![0usize],
    decreases destinations.len(),
{
    if destinations.len() > 0 {
        let rest = destinations.drop_last();
        let last = destinations.len() - 1;
        lemma_all_targets_are_the_active_slots(rest, n);
        let before = active_slots(rest);
        let all = active_slots(destinations);
        if all.contains(n) {
            let k = choose|k: int| 0 <= k < all.len() && all[k] == n;
            if k < before.len() {
                assert(before[k] == n);
                let i = choose|i: int|
                    0 <= i < rest.len() && (#[trigger] rest[i]).label.len() > 0 && rest[i].slot_num
                        == n;
                assert(destinations[i] == rest[i]);
            } else {
                assert(destinations[last].slot_num == n);
            }
        }
        if exists|i: int|
            0 <= i < destinations.len() && (#[trigger] destinations[i]).label.len() > 0
                && destinations[i].slot_num == n {
            let i = choose|i: int|
                0 <= i < destinations.len() && (#[trigger] destinations[i]).label.len() > 0
                    && destinations[i].slot_num == n;
            if i < last {
                assert(rest[i] == destinations[i]);
                let k = choose|k: int| 0 <= k < before.len() && before[k] == n;
                assert(all[k] == n);
            } else {
                assert(all[before.len() as int] == n);
            }
        }
    }
}

/// Every state shows the preview or the text that is edited, never both, and spins
/// exactly where it shows the audio level.
pub proof fn lemma_states_show_one_text(state: TranscriptionState, message: Seq<char>)
    ensures
        ({
            let look = look_of(state, message);
            &&& look.spinning == look.level_visible
            &&& look.preview_visible is Some <==> look.text_visible is Some
            &&& look.preview_visible matches Some(p) ==> p != look.text_visible->0
            &&& look.make_editable <==> state == TranscriptionState::Reviewing
        }),
{
}

/// The slots that an action sends to.
pub open spec fn slots_sent_to(action: SendView) -> Seq<usize> {
    match action {
        SendView::Ignore => Seq::empty(),
        SendView::StopAndSend(slots) => slots,
        SendView::SendText(slots) => slots,
    }
}

/// Whether text can be sent in a state: while recording and in review.
pub open spec fn can_send(state: TranscriptionState) -> bool {
    state == TranscriptionState::Recording || state == TranscriptionState::Processing || state
        == TranscriptionState::Reviewing
}

/// Text goes exactly where it was asked to go, to all of those slots in order, in every
/// state in which it can be sent, and nowhere in the others.
pub proof fn lemma_text_goes_where_it_was_asked_to(state: TranscriptionState, slots: Seq<usize>)
    ensures
        can_send(state) ==> slots_sent_to(send_to(state, slots)) == slots,
        !can_send(state) ==> send_to(state, slots) == SendView::Ignore,
        can_send(state) ==> !(send_to(state, slots) is Ignore),
        send_to(state, slots) is SendText <==> state == TranscriptionState::Reviewing,
{
}

/// Where the shortcuts and clicks send, the same in every state in which text can be
/// sent: a digit and a click to the slot of the destination at that place, 0 to the
/// default output, and Enter to every destination that has a label. No other key sends.
pub proof fn lemma_shortcuts_name_their_slots(d: DialogView, key: Key)
    requires
        can_send(d.state),
    ensures
        d.alt_send(key) is Some <==> match key {
            Key::Enter => true,
            Key::Digit(n) => n <= 8 && n <= d.destinations.len(),
            _ => false,
        },
        key matches Key::Digit(n) ==> 1 <= n <= 8 && n <= d.destinations.len() ==> slots_sent_to(
            d.alt_send(key)->0,
        ) == seq![d.destinations[n - 1].slot_num],
        key == Key::Digit(0) ==> slots_sent_to(d.alt_send(key)->0) == seq![0usize],
        key == Key::Enter && active_slots(d.destinations).len() > 0 ==> slots_sent_to(
            d.alt_send(key)->0,
        ) == active_slots(d.destinations),
        key == Key::Enter && active_slots(d.destinations).len() == 0 ==> slots_sent_to(
            d.alt_send(key)->0,
        ) == seq![0usize],
        forall|i: int|
            0 <= i < d.destinations.len() ==> slots_sent_to(#[trigger] d.click(i)) == seq![
                d.destinations[i].slot_num,
            ],
{
}

/// Which keys do something: Escape, the shortcuts with Alt, and in the text the keys
/// of a command line. All others go on their way.
pub proof fn lemma_other_keys_pass(d: DialogView, key: Key, alt: bool, ctrl: bool)
    ensures
        key != Key::Escape && !alt ==> d.window_key(key, alt) == KeyView::Pass,
        key != Key::Escape && !alt && !ctrl ==> d.text_key(key, alt, ctrl) == KeyView::Pass,
        key == Key::Escape ==> !(d.window_key(key, alt) is Send) && !(d.window_key(
            key,
            alt,
        ) is Pass),
        key == Key::Escape && d.state == TranscriptionState::Reviewing ==> d.window_key(key, alt)
            == KeyView::Cancel && d.text_key(key, alt, ctrl) == KeyView::Cancel,
        key == Key::Escape && (d.state == TranscriptionState::Recording || d.state
            == TranscriptionState::Processing) ==> d.window_key(key, alt) == KeyView::ManualStop
            && d.text_key(key, alt, ctrl) == KeyView::ManualStop,
        alt && d.alt_send(key) is Some ==> d.window_key(key, alt) == KeyView::Send(
            d.alt_send(key)->0,
        ),
        !(d.window_key(key, alt) is Edit),
{
}

/// The active slots of destinations in a row are those of the first ones followed by
/// those of the others, and one destination is active exactly where it has a label.
pub proof fn lemma_active_slots_keep_order(
    a: Seq<DestinationView>,
    b: Seq<DestinationView>,
    d: DestinationView,
)
    ensures
        active_slots(a + b) == active_slots(a) + active_slots(b),
        d.label.len() > 0 ==> active_slots(seq![d]) == seq![d.slot_num],
        d.label.len() == 0 ==> active_slots(seq![d]) == Seq::<usize>::empty(),
    decreases b.len(),
{
    assert(seq![d].drop_last() =~= Seq::<DestinationView>::empty());
    assert(active_slots(seq![d].drop_last()) =~= Seq::<usize>::empty());
    assert(Seq::<usize>::empty().push(d.slot_num) =~= seq![d.slot_num]);
    if b.len() == 0 {
        assert(a + b =~= a);
        assert(active_slots(a) + active_slots(b) =~= active_slots(a));
    } else {
        lemma_active_slots_keep_order(a, b.drop_last(), d);
        assert((a + b).drop_last() =~= a + b.drop_last());
        assert(active_slots(a + b) =~= active_slots(a) + active_slots(b));
    }
}

/// Every line of a label is shown on a line of its own, up to three of them, each
/// with its text as it is.
pub proof fn lemma_label_lines_show_the_label(a: Seq<char>, b: Seq<char>, c: Seq<char>)
    requires
        !a.contains('\n'),
        !b.contains('\n'),
        !c.contains('\n'),
    ensures
        label_lines(a) == seq!["<small>"@ + a + "</small>"@],
        label_lines(a.push('\n') + b) == seq![
            "<small>"@ + a + "</small>"@,
            "<small><span foreground='#d4a017'>"@ + b + "</span></small>"@,
        ],
        label_lines(a.push('\n') + b.push('\n') + c) == seq![
            "<small>"@ + a + "</small>"@,
            "<small><span foreground='#d4a017'>"@ + b + "</span></small>"@,
            "<small><span foreground='#00bcd4' style='italic'>"@ + c + "</span></small>"@,
        ],
{
    text::lemma_split_without_separator(a, '\n');
    text::lemma_split_without_separator(b, '\n');
    text::lemma_split_without_separator(c, '\n');
    text::lemma_split_at_separator(a, b, '\n');
    let ab = a.push('\n') + b;
    assert(ab.push('\n') + c =~= a.push('\n') + b.push('\n') + c);
    text::lemma_split_at_separator(ab, c, '\n');
    assert(label_lines(a) =~= seq!["<small>"@ + a + "</small>"@]);
    let two = text::split_of(ab, '\n');
    assert(two.len() == 2 && two[0] == a && two[1] == b);
    let three = text::split_of(ab.push('\n') + c, '\n');
    assert(three.len() == 3 && three[0] == a && three[1] == b && three[2] == c);
}

/// There are eight buttons. One shows a destination exactly where the destination at
/// its place has a label: its lines, its colour, and the numeral of the place.
pub proof fn lemma_buttons_show_their_destinations(destinations: Seq<DestinationView>, i: int)
    requires
        0 <= i < 8,
    ensures
        buttons_of(destinations).len() == 8,
        buttons_of(destinations)[i] is Some <==> i < destinations.len()
            && destinations[i].label.len() > 0,
        buttons_of(destinations)[i] matches Some(b) ==> {
            &&& b.lines == label_lines(destinations[i].label)
            &&& b.css == "button { background-color: "@ + destinations[i].color_hex
                + "; padding: 4px 8px; font-size: small; }"@
            &&& b.icon.contains(slot_icon(i + 1))
        },
{
    if let Some(b) = buttons_of(destinations)[i] {
        let n = "<span size='large'>"@.len() as int;
        assert(b.icon[n] == slot_icon(i + 1));
    }
}

/// The eight places have eight numerals.
pub proof fn lemma_numerals_differ(a: int, b: int)
    requires
        1 <= a <= 8,
        1 <= b <= 8,
        slot_icon(a) == slot_icon(b),
    ensures
        a == b,
        slot_icon(a) != '?',
{
}

/// The message of a state is shown as it is, wherever a state shows one: in every state
/// but when idle.
pub proof fn lemma_messages_are_shown(state: TranscriptionState, message: Seq<char>)
    ensures
        look_of(state, message).status is None <==> state == TranscriptionState::Idle,
        look_of(state, message).status matches Some(s) ==> exists|i: int|
            #[trigger] text::occurs_at(s, message, i) && s.len() - message.len() == look_of(
                state,
                Seq::empty(),
            ).status->0.len(),
        look_of(state, message).spinning <==> state == TranscriptionState::Recording || state
            == TranscriptionState::Processing,
        look_of(state, message).text_visible == Some(true) <==> state
            == TranscriptionState::Reviewing,
{
    let n = match state {
        TranscriptionState::Recording => "<small>"@.len() as int,
        TranscriptionState::Processing => "<small>⚙️ "@.len() as int,
        TranscriptionState::Reviewing => "<small>✓ "@.len() as int,
        TranscriptionState::Error => "<small>❌ "@.len() as int,
        TranscriptionState::Idle => 0,
    };
    if let Some(s) = look_of(state, message).status {
        assert(s.subrange(n, n + message.len()) =~= message);
        assert(text::occurs_at(s, message, n));
    }
}

/// Of a default source what stands between its brackets is shown, of any other its
/// whole name, and so of a name without brackets.
pub proof fn lemma_names_of_sources(
    before: Seq<char>,
    inner: Seq<char>,
    behind: Seq<char>,
    name: Seq<char>,
)
    requires
        !before.contains('('),
        !before.contains(')'),
        !inner.contains(')'),
        !name.contains('('),
    ensures
        display_name(before.push('(') + inner.push(')') + behind, true) == inner,
        display_name(before.push('(') + inner.push(')') + behind, false) == before.push('(')
            + inner.push(')') + behind,
        display_name(name, true) == name,
        display_name(name, false) == name,
{
    reveal_strlit("(");
    reveal_strlit(")");
    assert("("@ =~= seq!['(']);
    assert(")"@ =~= seq![')']);
    let all = before.push('(') + inner.push(')') + behind;
    text::lemma_character_is_found(before, '(', inner.push(')') + behind);
    assert(before.push('(') + (inner.push(')') + behind) =~= all);
    let front = before.push('(') + inner;
    assert(!front.contains(')')) by {
        if front.contains(')') {
            let k = choose|k: int| 0 <= k < front.len() && front[k] == ')';
            if k < before.len() {
                assert(before[k] == ')');
            } else if k > before.len() {
                assert(inner[k - before.len() - 1] == ')');
            }
        }
    }
    text::lemma_character_is_found(front, ')', behind);
    assert(front.push(')') + behind =~= all);
    assert(all.subrange(before.len() as int + 1, front.len() as int) =~= inner);
    if text::occurs_from(name, "("@, 0) {
        let i = choose|i: int| 0 <= i && #[trigger] text::occurs_at(name, "("@, i);
        assert(name.subrange(i, i + 1)[0] == name[i]);
        assert(name.contains('('));
    }
}

/// How the name of a source is shown holds what is shown of the name, and tells the
/// default source from others by its colour.
pub proof fn lemma_source_is_shown(device_name: Seq<char>, is_default: bool)
    ensures
        source_markup(device_name, is_default) == "<small><span foreground='"@ + (if is_default {
            "#888888"@
        } else {
            "#FFFFFF"@
        }) + "'>🎙️ "@ + display_name(device_name, is_default) + "</span></small>"@,
{
}

/// Confirmed text stands first and plain, the preview behind it in grey, with one space
/// between them where both are there.
pub proof fn lemma_confirmed_text_stands_first(
    confirmed: Seq<char>,
    preview: Seq<char>,
    confirmed_escaped: Seq<char>,
    preview_escaped: Seq<char>,
)
    ensures
        ({
            let shown = confirmed_and_preview(
                confirmed,
                preview,
                confirmed_escaped,
                preview_escaped,
            );
            let tentative = "<span foreground='#888888'>"@ + preview_escaped + "</span>"@;
            &&& confirmed.len() > 0 ==> confirmed_escaped.is_prefix_of(shown)
            &&& confirmed.len() > 0 && preview.len() == 0 ==> shown == confirmed_escaped
            &&& confirmed.len() == 0 ==> shown == tentative
            &&& confirmed.len() > 0 && preview.len() > 0 ==> shown == confirmed_escaped + " "@
                + tentative
        }),
{
    let shown = confirmed_and_preview(confirmed, preview, confirmed_escaped, preview_escaped);
    if confirmed.len() > 0 {
        assert(confirmed_escaped =~= shown.subrange(0, confirmed_escaped.len() as int));
    }
}

/// Lowering the case changes the letters from A to Z and nothing else.
pub proof fn lemma_lower_case(c: char)
    ensures
        'A' <= c <= 'Z' ==> 'a' <= ascii_lower(c) <= 'z' && ascii_lower(c) as u32 - 'a' as u32
            == c as u32 - 'A' as u32,
        !('A' <= c <= 'Z') ==> ascii_lower(c) == c,
{
}

/// The view of a destination holds its fields, and lists of destinations and of buttons
/// have the view of each at its place.
pub proof fn lemma_views_of_destinations(
    slots: Seq<DestinationSlot>,
    buttons: Seq<Option<DestinationButton>>,
    i: int,
)
    ensures
        destination_views(slots).len() == slots.len(),
        0 <= i < slots.len() ==> {
            let d = destination_views(slots)[i];
            d.slot_num == slots[i].slot_num && d.label == slots[i].label@ && d.color_hex
                == slots[i].color_hex@
        },
        button_views(buttons).len() == buttons.len(),
        0 <= i < buttons.len() ==> (button_views(buttons)[i] is Some <==> buttons[i] is Some),
        0 <= i < buttons.len() && buttons[i] is Some ==> {
            let b = button_views(buttons)[i]->0;
            b.icon == buttons[i]->0.icon@ && b.css == buttons[i]->0.css@ && b.lines
                == text::string_views(buttons[i]->0.lines@)
        },
{
}

/// The view of an action says what the action says.
pub proof fn lemma_views_of_actions(slots: Vec<usize>, send: SendAction, edit: EditAction)
    ensures
        SendAction::Ignore@ == SendView::Ignore,
        SendAction::StopAndSend(slots)@ == SendView::StopAndSend(slots@),
        SendAction::SendText(slots)@ == SendView::SendText(slots@),
        KeyAction::Pass@ == KeyView::Pass,
        KeyAction::ManualStop@ == KeyView::ManualStop,
        KeyAction::Cancel@ == KeyView::Cancel,
        KeyAction::CloseWindow@ == KeyView::CloseWindow,
        KeyAction::Send(send)@ == KeyView::Send(send@),
        KeyAction::Edit(edit)@ == KeyView::Edit(edit),
{
}

/// A slot that nothing is sent to keeps its number, and shows neither label nor colour.
pub proof fn lemma_inactive_slots_are_empty(slot_num: usize)
    ensures
        inactive_slot(slot_num).slot_num == slot_num,
        inactive_slot(slot_num).label == Seq::<char>::empty(),
        inactive_slot(slot_num).color_hex == "transparent"@,
{
}

/// Which keys edit the text: with Alt b, f, d and BackSpace, with Control a, e, k, u and
/// w, and no others. Alt goes before Control, and sending before editing.
pub proof fn lemma_which_keys_edit(d: DialogView, key: Key, alt: bool, ctrl: bool)
    ensures
        alt_edit(key) is Some <==> key == Key::Letter('b') || key == Key::Letter('f') || key
            == Key::Letter('d') || key == Key::BackSpace,
        ctrl_edit(key) is Some <==> key == Key::Letter('a') || key == Key::Letter('e') || key
            == Key::Letter('k') || key == Key::Letter('u') || key == Key::Letter('w'),
        alt && alt_edit(key) is Some ==> d.text_key(key, alt, ctrl) == KeyView::Edit(
            alt_edit(key)->0,
        ),
        ctrl && ctrl_edit(key) is Some ==> d.text_key(key, alt, ctrl) == KeyView::Edit(
            ctrl_edit(key)->0,
        ),
        d.text_key(key, alt, ctrl) is Edit ==> (alt && alt_edit(key) is Some) || (ctrl
            && ctrl_edit(key) is Some),
        alt && d.alt_send(key) is Some ==> d.text_key(key, alt, ctrl) == KeyView::Send(
            d.alt_send(key)->0,
        ),
        alt_edit(Key::Letter('b')) == Some(EditAction::BackwardWord),
        alt_edit(Key::Letter('f')) == Some(EditAction::ForwardWord),
        alt_edit(Key::Letter('d')) == Some(EditAction::DeleteWordForward),
        alt_edit(Key::BackSpace) == Some(EditAction::DeleteWordBackward),
        ctrl_edit(Key::Letter('a')) == Some(EditAction::LineStart),
        ctrl_edit(Key::Letter('e')) == Some(EditAction::LineEnd),
        ctrl_edit(Key::Letter('k')) == Some(EditAction::KillToLineEnd),
        ctrl_edit(Key::Letter('u')) == Some(EditAction::KillToLineStart),
        ctrl_edit(Key::Letter('w')) == Some(EditAction::DeleteWordBackward),
{
}

/// Where there is nothing to stop and nothing to drop, Escape closes the window, and
/// means nothing in the text.
pub proof fn lemma_escape_when_nothing_goes_on(d: DialogView, alt: bool, ctrl: bool)
    requires
        d.state == TranscriptionState::Idle || d.state == TranscriptionState::Error,
    ensures
        d.window_key(Key::Escape, alt) == KeyView::CloseWindow,
        d.text_key(Key::Escape, alt, ctrl) == KeyView::Pass,
{
}

/// Of a label with more than three lines the first three are shown, as if there were no
/// others.
pub proof fn lemma_three_lines_are_shown(
    a: Seq<char>,
    b: Seq<char>,
    c: Seq<char>,
    more: Seq<char>,
)
    requires
        !a.contains('\n'),
        !b.contains('\n'),
        !c.contains('\n'),
    ensures
        label_lines((a.push('\n') + b.push('\n') + c).push('\n') + more) == label_lines(
            a.push('\n') + b.push('\n') + c,
        ),
{
    text::lemma_split_without_separator(a, '\n');
    text::lemma_split_without_separator(b, '\n');
    text::lemma_split_without_separator(c, '\n');
    text::lemma_split_at_separator(a, b, '\n');
    let ab = a.push('\n') + b;
    let abc = a.push('\n') + b.push('\n') + c;
    assert(ab.push('\n') + c =~= abc);
    text::lemma_split_at_separator(ab, c, '\n');
    text::lemma_split_at_separator(abc, more, '\n');
    text::lemma_split_parts_join_again(more, '\n');
    let three = text::split_of(abc, '\n');
    assert(three.len() == 3 && three[0] == a && three[1] == b && three[2] == c);
    let all = text::split_of(abc.push('\n') + more, '\n');
    assert(all.len() > 3 && all[0] == a && all[1] == b && all[2] == c);
}

/// But for the status, a state looks the same whatever its message is.
pub proof fn lemma_looks_depend_on_the_state(
    state: TranscriptionState,
    a: Seq<char>,
    b: Seq<char>,
)
    ensures
        (LookView { status: None, ..look_of(state, a) }) == (LookView {
            status: None,
            ..look_of(state, b)
        }),
{
}

/// The icon of a button is the numeral of its place, in large.
pub proof fn lemma_icons_of_buttons(d: DestinationView, index: int)
    ensures
        button_of(d, index).icon == "<span size='large'>"@ + seq![slot_icon(index + 1)]
            + "</span>"@,
{
}

/// A source is the default one exactly where its name, in lower case, starts so.
pub proof fn lemma_default_sources(device_name: Seq<char>)
    ensures
        is_default_name(device_name) <==> "default"@.is_prefix_of(lowercase(device_name)),
{
}

} // verus!
