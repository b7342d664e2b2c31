//! The daemon: which commands begin and end sessions, and what becomes of the
//! messages of a session.
use crate::daemon::{CommandView, DaemonCommand, MultiSlotHandler};
use crate::dialog::{destination_views, DestinationSlot, DestinationView, TranscriptionState};
use crate::multi_slot::{HandlerMessageView, HandlerUIMessage};
use crate::recording::{AudioLevel, MessageView, SessionView, UIMessage};
use crate::text::{string_view, text_view};
use vstd::prelude::*;
use vstd::string::*;

verus! {

/// What the daemon does about a command.
#[derive(Debug)]
pub enum AppAction {
    /// Bring the dialog of the session that goes on to the front.
    PresentDialog,
    BeginSession {
        unmute_source: bool,
        source: Option<String>,
        multi_slot_handler: MultiSlotHandler,
    },
    StopRecording,
    Quit,
}

/// What an action says.
pub enum AppActionView {
    PresentDialog,
    BeginSession {
        unmute_source: bool,
        source: Option<Seq<char>>,
        multi_slot_handler: MultiSlotHandler,
    },
    StopRecording,
    Quit,
}

impl View for AppAction {
    type V = AppActionView;

    open spec fn view(&self) -> AppActionView {
        match *self {
            AppAction::PresentDialog => AppActionView::PresentDialog,
            AppAction::BeginSession { unmute_source, source, multi_slot_handler } => {
                AppActionView::BeginSession {
                    unmute_source,
                    source: string_view(source),
                    multi_slot_handler,
                }
            },
            AppAction::StopRecording => AppActionView::StopRecording,
            AppAction::Quit => AppActionView::Quit,
        }
    }
}

/// What an action says, where there is one.
pub open spec fn action_view(a: Option<AppAction>) -> Option<AppActionView> {
    match a {
        Some(x) => Some(x@),
        None => None,
    }
}

/// What the daemon knows.
pub struct AppView {
    /// A session goes on.
    pub recording_active: bool,
    /// A recording runs that can be stopped.
    pub stoppable: bool,
    /// The slots that the text is sent to without review.
    pub auto_send_slots: Seq<usize>,
}

impl AppView {
    /// The daemon after a command.
    pub open spec fn after_command(self, command: CommandView) -> Self {
        match command {
            CommandView::Start { .. } => AppView { recording_active: true, ..self },
            CommandView::Stop { command_slot } => AppView {
                auto_send_slots: seq![command_slot],
                ..self
            },
            CommandView::Review => AppView { auto_send_slots: Seq::empty(), ..self },
            CommandView::Status => self,
            CommandView::Quit => self,
        }
    }

    /// What the daemon does about a command.
    pub open spec fn action(self, command: CommandView) -> Option<AppActionView> {
        match command {
            CommandView::Start { unmute_source, source, multi_slot_handler } => if self.recording_active {
                Some(AppActionView::PresentDialog)
            } else {
                Some(AppActionView::BeginSession { unmute_source, source, multi_slot_handler })
            },
            CommandView::Stop { .. } => self.stop_action(),
            CommandView::Review => self.stop_action(),
            CommandView::Status => None,
            CommandView::Quit => Some(AppActionView::Quit),
        }
    }

    /// What it takes to stop recording.
    pub open spec fn stop_action(self) -> Option<AppActionView> {
        if self.stoppable {
            Some(AppActionView::StopRecording)
        } else {
            None
        }
    }

    /// The daemon once the recording is over.
    pub open spec fn after_recording(self) -> Self {
        AppView { recording_active: false, stoppable: false, auto_send_slots: Seq::empty() }
    }
}

/// What the daemon knows.
#[derive(Debug)]
pub struct AppState {
    recording_active: bool,
    stoppable: bool,
    auto_send_slots: Vec<usize>,
}

impl View for AppState {
    type V = AppView;

    closed spec fn view(&self) -> AppView {
        AppView {
            recording_active: self.recording_active,
            stoppable: self.stoppable,
            auto_send_slots: self.auto_send_slots@,
        }
    }
}

impl AppState {
    pub fn new() -> (r: Self)
        ensures
            r@ == (AppView {
                recording_active: false,
                stoppable: false,
                auto_send_slots: Seq::empty(),
            }),
    {
        let r = AppState {
            recording_active: false,
            stoppable: false,
            auto_send_slots: Vec::new(),
        };
        assert(r@.auto_send_slots =~= Seq::<usize>::empty());
        r
    }

    /// What it takes to stop recording.
    pub fn stop(&self) -> (r: Option<AppAction>)
        ensures
            action_view(r) == self@.stop_action(),
    {
        if self.stoppable {
            Some(AppAction::StopRecording)
        } else {
            None
        }
    }

    /// Takes in a command, and says what to do about it.
    pub fn on_command(&mut self, command: DaemonCommand) -> (r: Option<AppAction>)
        ensures
            final(self)@ == old(self)@.after_command(command@),
            action_view(r) == old(self)@.action(command@),
    {
        match command {
            DaemonCommand::Start { unmute_source, source, multi_slot_handler } => {
                if self.recording_active {
                    Some(AppAction::PresentDialog)
                } else {
                    self.recording_active = true;
                    Some(AppAction::BeginSession { unmute_source, source, multi_slot_handler })
                }
            },
            DaemonCommand::Stop { command_slot } => {
                let mut slots: Vec<usize> = Vec::new();
                slots.push(command_slot);
                assert(slots@ =~= seq![command_slot]);
                self.auto_send_slots = slots;
                self.stop()
            },
            DaemonCommand::Review => {
                self.auto_send_slots = Vec::new();
                assert(self.auto_send_slots@ =~= Seq::<usize>::empty());
                self.stop()
            },
            DaemonCommand::Status => None,
            DaemonCommand::Quit => Some(AppAction::Quit),
        }
    }

    /// Takes in that the text is to go to a slot as soon as it is there. The dialog
    /// hides at once, and the recording stops where it can be stopped.
    pub fn on_stop_and_send(&mut self, slot: usize) -> (r: (UIMessage, Option<AppAction>))
        ensures
            final(self)@ == (AppView {
                auto_send_slots: old(self)@.auto_send_slots.push(slot),
                ..old(self)@
            }),
            r.0@ == MessageView::CloseImmediately,
            action_view(r.1) == old(self)@.stop_action(),
    {
        self.auto_send_slots.push(slot);
        (UIMessage::CloseImmediately, self.stop())
    }

    /// Takes in that the recording can be stopped from now on.
    pub fn on_recording_started(&mut self)
        ensures
            final(self)@ == (AppView { stoppable: true, ..old(self)@ }),
    {
        self.stoppable = true;
    }

    /// Hands out the slots that wait for the text, each of them once.
    pub fn take_auto_send_slots(&mut self) -> (r: Vec<usize>)
        ensures
            r@ == old(self)@.auto_send_slots,
            final(self)@ == (AppView { auto_send_slots: Seq::empty(), ..old(self)@ }),
    {
        let mut slots: Vec<usize> = Vec::new();
        std::mem::swap(&mut slots, &mut self.auto_send_slots);
        assert(self@.auto_send_slots =~= Seq::<usize>::empty());
        slots
    }

    /// Takes in that the recording is over.
    pub fn on_recording_finished(&mut self)
        ensures
            final(self)@ == old(self)@.after_recording(),
    {
        self.recording_active = false;
        self.stoppable = false;
        self.auto_send_slots = Vec::new();
        assert(self@.auto_send_slots =~= Seq::<usize>::empty());
    }

    /// Takes in that the session's dialog was closed.
    pub fn on_session_closed(&mut self)
        ensures
            final(self)@ == (AppView { recording_active: false, ..old(self)@ }),
    {
        self.recording_active = false;
    }
}

/// What becomes of a message of a session.
#[derive(Debug)]
pub enum UiEffect {
    ShowState(TranscriptionState, String, AudioLevel),
    ShowText(String),
    ShowPreview(String),
    ShowConfirmedAndPreview(String, String),
    ShowDestinations(Vec<DestinationSlot>),
    HideDialog,
    /// Hand the text to the output command.
    RunOutput { command: String, text: String, slot: usize },
    /// Stop the recording where it still runs.
    StopRecording,
    /// Have the handler change these windows back.
    Cleanup(Vec<u64>),
    /// The session is over; it gets no more messages.
    EndSession,
}

/// What an effect says.
pub enum EffectView {
    ShowState(TranscriptionState, Seq<char>, AudioLevel),
    ShowText(Seq<char>),
    ShowPreview(Seq<char>),
    ShowConfirmedAndPreview(Seq<char>, Seq<char>),
    ShowDestinations(Seq<DestinationView>),
    HideDialog,
    RunOutput { command: Seq<char>, text: Seq<char>, slot: usize },
    StopRecording,
    Cleanup(Seq<u64>),
    EndSession,
}

impl View for UiEffect {
    type V = EffectView;

    open spec fn view(&self) -> EffectView {
        match *self {
            UiEffect::ShowState(s, t, l) => EffectView::ShowState(s, t@, l),
            UiEffect::ShowText(t) => EffectView::ShowText(t@),
            UiEffect::ShowPreview(t) => EffectView::ShowPreview(t@),
            UiEffect::ShowConfirmedAndPreview(c, p) => EffectView::ShowConfirmedAndPreview(
                c@,
                p@,
            ),
            UiEffect::ShowDestinations(d) => EffectView::ShowDestinations(destination_views(d@)),
            UiEffect::HideDialog => EffectView::HideDialog,
            UiEffect::RunOutput { command, text, slot } => EffectView::RunOutput {
                command: command@,
                text: text@,
                slot,
            },
            UiEffect::StopRecording => EffectView::StopRecording,
            UiEffect::Cleanup(w) => EffectView::Cleanup(w@),
            UiEffect::EndSession => EffectView::EndSession,
        }
    }
}

/// What each of `effects` says.
pub open spec fn effect_views(effects: Seq<UiEffect>) -> Seq<EffectView> {
    effects.map_values(|e: UiEffect| e@)
}

/// What a session's side of the dialog knows.
pub struct UiView {
    pub output_command: Option<Seq<char>>,
    pub has_handler: bool,
    pub window_ids: Seq<u64>,
}

impl UiView {
    /// What sending `text` to a slot takes.
    pub open spec fn send(self, text: Seq<char>, slot: usize) -> Seq<EffectView> {
        match self.output_command {
            Some(command) => seq![EffectView::RunOutput { command, text, slot }],
            None => Seq::empty(),
        }
    }

    /// What sending `text` to each of `slots` takes: one run of the output command
    /// for each of them, in order.
    pub open spec fn send_all(self, text: Seq<char>, slots: Seq<usize>) -> Seq<EffectView> {
        match self.output_command {
            Some(command) => slots.map_values(
                |slot: usize| EffectView::RunOutput { command, text, slot },
            ),
            None => Seq::empty(),
        }
    }

    /// What the end of the session takes.
    pub open spec fn close(self) -> Seq<EffectView> {
        seq![EffectView::StopRecording] + (if self.has_handler {
            seq![EffectView::Cleanup(self.window_ids)]
        } else {
            Seq::empty()
        }) + seq![EffectView::HideDialog, EffectView::EndSession]
    }

    /// What becomes of a message.
    pub open spec fn effects(self, message: MessageView) -> Seq<EffectView> {
        match message {
            MessageView::UpdateState(s, t, l) => seq![EffectView::ShowState(s, t, l)],
            MessageView::SetText(t) => seq![EffectView::ShowText(t)],
            MessageView::SetTextPreview(t) => seq![EffectView::ShowPreview(t)],
            MessageView::SetConfirmedAndPreview(c, p) => seq![
                EffectView::ShowConfirmedAndPreview(c, p),
            ],
            MessageView::AutoSendText(t, n) => self.send(t, n),
            MessageView::SetDestinations(d) => seq![EffectView::ShowDestinations(d)],
            MessageView::StoreHandlerWindowIds(_) => Seq::empty(),
            MessageView::CloseImmediately => seq![EffectView::HideDialog],
            MessageView::Close => self.close(),
        }
    }

    /// The session after a message.
    pub open spec fn after(self, message: MessageView) -> Self {
        match message {
            MessageView::StoreHandlerWindowIds(w) => UiView { window_ids: w, ..self },
            _ => self,
        }
    }

    /// The session after all of `messages`.
    pub open spec fn after_all(self, messages: Seq<MessageView>) -> Self
        decreases messages.len(),
    {
        if messages.len() == 0 {
            self
        } else {
            self.after_all(messages.drop_last()).after(messages.last())
        }
    }

    /// What becomes of all of `messages`.
    pub open spec fn all_effects(self, messages: Seq<MessageView>) -> Seq<EffectView>
        decreases messages.len(),
    {
        if messages.len() == 0 {
            Seq::empty()
        } else {
            let before = messages.drop_last();
            self.all_effects(before) + self.after_all(before).effects(messages.last())
        }
    }
}

/// A session's side of the dialog.
#[derive(Debug)]
pub struct UiSession {
    output_command: Option<String>,
    has_handler: bool,
    window_ids: Vec<u64>,
}

impl View for UiSession {
    type V = UiView;

    closed spec fn view(&self) -> UiView {
        UiView {
            output_command: string_view(self.output_command),
            has_handler: self.has_handler,
            window_ids: self.window_ids@,
        }
    }
}

impl UiSession {
    /// A session with a handler or without. Each has an output command of its own.
    pub fn new(
        handler: MultiSlotHandler,
        kitty_output_command: Option<String>,
        output_command: Option<String>,
    ) -> (r: Self)
        ensures
            r@.output_command == match handler {
                MultiSlotHandler::Kitty => string_view(kitty_output_command),
                MultiSlotHandler::NoHandler => string_view(output_command),
            },
            r@.has_handler == (handler == MultiSlotHandler::Kitty),
            r@.window_ids.len() == 0,
    {
        match handler {
            MultiSlotHandler::Kitty => UiSession {
                output_command: kitty_output_command,
                has_handler: true,
                window_ids: Vec::new(),
            },
            MultiSlotHandler::NoHandler => UiSession {
                output_command,
                has_handler: false,
                window_ids: Vec::new(),
            },
        }
    }

    /// What sending `text` to a slot takes. Without an output command it takes nothing.
    pub fn send_text(&self, text: &str, slot: usize) -> (r: Vec<UiEffect>)
        ensures
            effect_views(r@) == self@.send(text@, slot),
    {
        let mut effects: Vec<UiEffect> = Vec::new();
        if let Some(command) = &self.output_command {
            effects.push(
                UiEffect::RunOutput { command: command.clone(), text: text.to_owned(), slot },
            );
        }
        assert(effect_views(effects@) =~= self@.send(text@, slot));
        effects
    }

    /// Sends reviewed text: what that takes for each of `slots`, in order, and the
    /// message that ends the session behind it.
    pub fn send_reviewed(&self, text: &str, slots: &[usize]) -> (r: (Vec<UiEffect>, UIMessage))
        ensures
            effect_views(r.0@) == self@.send_all(text@, slots@),
            r.1@ == MessageView::Close,
    {
        let mut effects: Vec<UiEffect> = Vec::new();
        let ghost all = self@.send_all(text@, slots@);
        if let Some(command) = &self.output_command {
            let mut i: usize = 0;
            while i < slots.len()
                invariant
                    i <= slots@.len(),
                    self@.output_command == Some(command@),
                    all == self@.send_all(text@, slots@),
                    effect_views(effects@) =~= all.take(i as int),
                decreases slots@.len() - i,
            {
                let ghost before = effects@;
                let effect = UiEffect::RunOutput {
                    command: command.clone(),
                    text: text.to_owned(),
                    slot: slots[i],
                };
                effects.push(effect);
                assert(effect_views(effects@) =~= effect_views(before).push(effect@));
                assert(all[i as int] == effect@);
                i = i + 1;
            }
            assert(all.take(i as int) =~= all);
        }
        assert(effect_views(effects@) =~= all);
        (effects, UIMessage::Close)
    }

    /// What the end of the session takes.
    fn close(&self) -> (r: Vec<UiEffect>)
        ensures
            effect_views(r@) == self@.close(),
    {
        let mut effects: Vec<UiEffect> = Vec::new();
        effects.push(UiEffect::StopRecording);
        if self.has_handler {
            let ids = self.window_ids.clone();
            assert(ids@ =~= self.window_ids@);
            effects.push(UiEffect::Cleanup(ids));
        }
        effects.push(UiEffect::HideDialog);
        effects.push(UiEffect::EndSession);
        assert(effect_views(effects@) =~= self@.close());
        effects
    }

    /// Takes in a message, and says what becomes of it.
    pub fn on_message(&mut self, message: UIMessage) -> (r: Vec<UiEffect>)
        ensures
            final(self)@ == old(self)@.after(message@),
            effect_views(r@) == old(self)@.effects(message@),
    {
        let ghost wanted = self@.effects(message@);
        let mut effects: Vec<UiEffect> = Vec::new();
        match message {
            UIMessage::UpdateState(s, t, l) => {
                effects.push(UiEffect::ShowState(s, t, l));
            },
            UIMessage::SetText(t) => {
                effects.push(UiEffect::ShowText(t));
            },
            UIMessage::SetTextPreview(t) => {
                effects.push(UiEffect::ShowPreview(t));
            },
            UIMessage::SetConfirmedAndPreview(c, p) => {
                effects.push(UiEffect::ShowConfirmedAndPreview(c, p));
            },
            UIMessage::AutoSendText(t, n) => {
                return self.send_text(t.as_str(), n);
            },
            UIMessage::SetDestinations(d) => {
                effects.push(UiEffect::ShowDestinations(d));
            },
            UIMessage::StoreHandlerWindowIds(w) => {
                self.window_ids = w;
            },
            UIMessage::CloseImmediately => {
                effects.push(UiEffect::HideDialog);
            },
            UIMessage::Close => {
                return self.close();
            },
        }
        assert(effect_views(effects@) =~= wanted);
        effects
    }
}

/// What a handler's message means to the session.
pub open spec fn bridged(message: HandlerMessageView) -> MessageView {
    match message {
        HandlerMessageView::SetDestinations(d) => MessageView::SetDestinations(d),
        HandlerMessageView::StoreWindowIds(w) => MessageView::StoreHandlerWindowIds(w),
    }
}

/// Hands a handler's message to the session.
pub fn bridge(message: HandlerUIMessage) -> (r: UIMessage)
    ensures
        r@ == bridged(message@),
{
    match message {
        HandlerUIMessage::SetDestinations(d) => UIMessage::SetDestinations(d),
        HandlerUIMessage::StoreWindowIds(w) => UIMessage::StoreHandlerWindowIds(w),
    }
}

/// Reviewed text goes where the same text would have gone without review: the two
/// run the same output commands in the same order.
pub proof fn lemma_review_sends_alike<S>(
    ui: UiView,
    session: SessionView<S>,
    slots: Seq<usize>,
)
    requires
        session.text.len() > 0,
        slots.len() > 0,
    ensures
        ui.all_effects(session.conclusion(slots)) == ui.send_all(session.text, slots)
            + ui.effects(MessageView::Close),
{
    match ui.output_command {
        Some(command) => {
            lemma_waiting_slots_get_the_text(ui, command, session, slots);
        },
        None => {
            let sends = slots.map_values(
                |n: usize| MessageView::AutoSendText(session.text, n),
            );
            assert(session.conclusion(slots).drop_last() =~= sends);
            lemma_sends_without_command(ui, session.text, slots);
        },
    }
}

proof fn lemma_sends_without_command(ui: UiView, text: Seq<char>, slots: Seq<usize>)
    requires
        ui.output_command is None,
    ensures
        ui.all_effects(slots.map_values(|n: usize| MessageView::AutoSendText(text, n))).len() == 0,
        ui.after_all(slots.map_values(|n: usize| MessageView::AutoSendText(text, n))) == ui,
    decreases slots.len(),
{
    if slots.len() > 0 {
        let sends = slots.map_values(|n: usize| MessageView::AutoSendText(text, n));
        lemma_sends_without_command(ui, text, slots.drop_last());
        assert(sends.drop_last() =~= slots.drop_last().map_values(
            |n: usize| MessageView::AutoSendText(text, n),
        ));
    }
}

/// While a session goes on no other one begins: a start then only shows the dialog,
/// and leaves the daemon as it was.
pub proof fn lemma_one_session_at_a_time(app: AppView, first: CommandView, second: CommandView)
    requires
        first is Start,
        second is Start,
    ensures
        app.after_command(first).recording_active,
        app.after_command(first).action(second) == Some(AppActionView::PresentDialog),
        app.after_command(first).after_command(second) == app.after_command(first),
        app.recording_active ==> app.after_command(first) == app,
        app.recording_active ==> app.action(first) == Some(AppActionView::PresentDialog),
        app.action(first) is Some,
        app.action(first)->0 is BeginSession <==> !app.recording_active,
{
}

/// Once the recording is over, a new session can begin, and no slot waits for its text.
pub proof fn lemma_sessions_start_afresh(app: AppView, start: CommandView)
    requires
        start is Start,
    ensures
        app.after_recording().action(start) matches Some(AppActionView::BeginSession { .. }),
        app.after_recording().auto_send_slots.len() == 0,
{
}

/// The last word on where the text goes counts: it goes to the slot of the last
/// stop, and to review where that named none.
pub proof fn lemma_last_stop_counts(app: AppView, earlier: CommandView, slot: usize)
    ensures
        app.after_command(earlier).after_command(
            CommandView::Stop { command_slot: slot },
        ).auto_send_slots == seq![slot],
        app.after_command(earlier).after_command(CommandView::Review).auto_send_slots.len() == 0,
{
}

/// What a session knows besides its windows never changes.
proof fn lemma_session_keeps_its_command(ui: UiView, messages: Seq<MessageView>)
    ensures
        ui.after_all(messages).output_command == ui.output_command,
        ui.after_all(messages).has_handler == ui.has_handler,
    decreases messages.len(),
{
    if messages.len() > 0 {
        lemma_session_keeps_its_command(ui, messages.drop_last());
    }
}

/// The windows that the handler has changed are changed back when the session ends,
/// whatever came in between, as long as it was no later list of windows.
pub proof fn lemma_closing_cleans_up(ui: UiView, ids: Seq<u64>, messages: Seq<MessageView>)
    requires
        ui.has_handler,
        forall|i: int|
            0 <= i < messages.len() ==> !((#[trigger] messages[i]) is StoreHandlerWindowIds),
    ensures
        ui.after(MessageView::StoreHandlerWindowIds(ids)).after_all(messages).effects(
            MessageView::Close,
        ).contains(EffectView::Cleanup(ids)),
{
    let stored = ui.after(MessageView::StoreHandlerWindowIds(ids));
    lemma_windows_are_kept(stored, messages);
    lemma_session_keeps_its_command(stored, messages);
    let effects = stored.after_all(messages).effects(MessageView::Close);
    assert(effects[1] == EffectView::Cleanup(ids));
}

/// The windows that took a colour when Kitty's windows became destinations are the
/// ones that are changed back when the session ends.
pub proof fn lemma_colored_windows_are_changed_back(
    ui: UiView,
    setup: crate::kitty::handler::SetupView,
    messages: Seq<MessageView>,
)
    requires
        ui.has_handler,
        forall|i: int|
            0 <= i < messages.len() ==> !((#[trigger] messages[i]) is StoreHandlerWindowIds),
    ensures
        ui.after(bridged(HandlerMessageView::StoreWindowIds(setup.modified()))).after_all(
            messages,
        ).effects(MessageView::Close).contains(EffectView::Cleanup(setup.modified())),
{
    lemma_closing_cleans_up(ui, setup.modified(), messages);
}

proof fn lemma_windows_are_kept(ui: UiView, messages: Seq<MessageView>)
    requires
        forall|i: int|
            0 <= i < messages.len() ==> !((#[trigger] messages[i]) is StoreHandlerWindowIds),
    ensures
        ui.after_all(messages).window_ids == ui.window_ids,
    decreases messages.len(),
{
    if messages.len() > 0 {
        let rest = messages.drop_last();
        assert forall|i: int| 0 <= i < rest.len() implies !((
        #[trigger] rest[i]) is StoreHandlerWindowIds) by {
            assert(rest[i] == messages[i]);
        }
        lemma_windows_are_kept(ui, rest);
        assert(!(messages[messages.len() - 1] is StoreHandlerWindowIds));
    }
}

/// What a recording has heard reaches the output command once for each slot that
/// waits for it, in order, and only then the session is cleaned up and ended.
pub proof fn lemma_waiting_slots_get_the_text<S>(
    ui: UiView,
    command: Seq<char>,
    session: SessionView<S>,
    auto_slots: Seq<usize>,
)
    requires
        ui.output_command == Some(command),
        session.text.len() > 0,
        auto_slots.len() > 0,
    ensures
        ui.all_effects(session.conclusion(auto_slots)) == auto_slots.map_values(
            |slot: usize| EffectView::RunOutput { command, text: session.text, slot },
        ) + ui.close(),
{
    let sends = auto_slots.map_values(|n: usize| MessageView::AutoSendText(session.text, n));
    let all = session.conclusion(auto_slots);
    assert(all.drop_last() =~= sends);
    lemma_sends_run_outputs(ui, command, session.text, auto_slots);
}

proof fn lemma_sends_run_outputs(
    ui: UiView,
    command: Seq<char>,
    text: Seq<char>,
    slots: Seq<usize>,
)
    requires
        ui.output_command == Some(command),
    ensures
        ui.all_effects(slots.map_values(|n: usize| MessageView::AutoSendText(text, n)))
            == slots.map_values(
            |slot: usize| EffectView::RunOutput { command, text, slot },
        ),
        ui.after_all(slots.map_values(|n: usize| MessageView::AutoSendText(text, n))) == ui,
    decreases slots.len(),
{
    let sends = slots.map_values(|n: usize| MessageView::AutoSendText(text, n));
    let runs = slots.map_values(|slot: usize| EffectView::RunOutput { command, text, slot });
    if slots.len() > 0 {
        let rest = slots.drop_last();
        lemma_sends_run_outputs(ui, command, text, rest);
        assert(sends.drop_last() =~= rest.map_values(
            |n: usize| MessageView::AutoSendText(text, n),
        ));
        assert(runs =~= rest.map_values(
            |slot: usize| EffectView::RunOutput { command, text, slot },
        ) + seq![EffectView::RunOutput { command, text, slot: slots.last() }]);
    } else {
        assert(runs =~= Seq::<EffectView>::empty());
        assert(sends =~= Seq::<MessageView>::empty());
    }
}

/// A session begins with what its command asked for: the source, whether to unmute it,
/// and the handler.
pub proof fn lemma_sessions_begin_as_asked(
    app: AppView,
    unmute_source: bool,
    source: Option<Seq<char>>,
    handler: MultiSlotHandler,
)
    requires
        !app.recording_active,
    ensures
        app.action(CommandView::Start { unmute_source, source, multi_slot_handler: handler })
            == Some(
            AppActionView::BeginSession { unmute_source, source, multi_slot_handler: handler },
        ),
{
}

/// What a command changes: a start only that a session goes on, a stop only where the
/// text goes, and asking or quitting nothing. A stop stops a recording where one runs.
pub proof fn lemma_commands_change_one_thing(app: AppView, command: CommandView)
    ensures
        ({
            let next = app.after_command(command);
            &&& next.stoppable == app.stoppable
            &&& command is Start ==> next.recording_active && next.auto_send_slots
                == app.auto_send_slots
            &&& !(command is Start) ==> next.recording_active == app.recording_active
            &&& command matches CommandView::Stop { command_slot } ==> next.auto_send_slots
                == seq![command_slot]
            &&& command is Review ==> next.auto_send_slots == Seq::<usize>::empty()
            &&& command is Status || command is Quit ==> next == app
            &&& command is Stop || command is Review ==> (app.action(command)
                == if app.stoppable {
                Some(AppActionView::StopRecording)
            } else {
                None
            })
            &&& command is Status ==> app.action(command) is None
            &&& command is Quit ==> app.action(command) == Some(AppActionView::Quit)
        }),
{
}

/// Once the recording is over nothing is left of it.
pub proof fn lemma_nothing_is_left_of_a_recording(app: AppView)
    ensures
        !app.after_recording().recording_active,
        !app.after_recording().stoppable,
        app.after_recording().auto_send_slots == Seq::<usize>::empty(),
        app.after_recording().stop_action() is None,
{
}

/// What a message says is shown as it is, and nothing else happens.
pub proof fn lemma_messages_are_shown_as_they_are(
    ui: UiView,
    state: TranscriptionState,
    level: AudioLevel,
    a: Seq<char>,
    b: Seq<char>,
    destinations: Seq<DestinationView>,
)
    ensures
        ui.effects(MessageView::UpdateState(state, a, level)) == seq![
            EffectView::ShowState(state, a, level),
        ],
        ui.effects(MessageView::SetText(a)) == seq![EffectView::ShowText(a)],
        ui.effects(MessageView::SetTextPreview(a)) == seq![EffectView::ShowPreview(a)],
        ui.effects(MessageView::SetConfirmedAndPreview(a, b)) == seq![
            EffectView::ShowConfirmedAndPreview(a, b),
        ],
        ui.effects(MessageView::SetDestinations(destinations)) == seq![
            EffectView::ShowDestinations(destinations),
        ],
        ui.effects(MessageView::CloseImmediately) == seq![EffectView::HideDialog],
{
}

/// Text for a slot is handed, as it is, to the session's output command with that
/// slot's number, and to nothing where there is no command.
pub proof fn lemma_text_reaches_the_output_command(ui: UiView, text: Seq<char>, slot: usize)
    ensures
        ui.output_command matches Some(command) ==> ui.effects(
            MessageView::AutoSendText(text, slot),
        ) == seq![EffectView::RunOutput { command, text, slot }],
        ui.output_command is None ==> ui.effects(MessageView::AutoSendText(text, slot)).len() == 0,
        ui.send(text, slot) == ui.effects(MessageView::AutoSendText(text, slot)),
        ui.send_all(text, seq![slot]) == ui.send(text, slot),
{
    match ui.output_command {
        Some(command) => {
            assert(ui.send_all(text, seq![slot]) =~= ui.send(text, slot));
        },
        None => {},
    }
}

/// Text for slots in a row goes to the first ones and then to the others.
pub proof fn lemma_slots_are_served_in_order(
    ui: UiView,
    text: Seq<char>,
    a: Seq<usize>,
    b: Seq<usize>,
)
    ensures
        ui.send_all(text, a + b) == ui.send_all(text, a) + ui.send_all(text, b),
{
    assert(ui.send_all(text, a + b) =~= ui.send_all(text, a) + ui.send_all(text, b));
}

/// A list of windows takes the place of the one before it, and no other message changes
/// what a session knows.
pub proof fn lemma_only_lists_of_windows_are_kept(ui: UiView, message: MessageView)
    ensures
        message matches MessageView::StoreHandlerWindowIds(ids) ==> {
            &&& ui.after(message).window_ids == ids
            &&& ui.effects(message).len() == 0
        },
        !(message is StoreHandlerWindowIds) ==> ui.after(message) == ui,
        ui.after(message).output_command == ui.output_command,
        ui.after(message).has_handler == ui.has_handler,
{
}

/// Closing stops the recording, has the handler change its windows back where there is
/// one, hides the dialog and ends the session, in this order and once each.
pub proof fn lemma_how_a_session_closes(ui: UiView)
    ensures
        ui.has_handler ==> ui.effects(MessageView::Close) == seq![
            EffectView::StopRecording,
            EffectView::Cleanup(ui.window_ids),
            EffectView::HideDialog,
            EffectView::EndSession,
        ],
        !ui.has_handler ==> ui.effects(MessageView::Close) == seq![
            EffectView::StopRecording,
            EffectView::HideDialog,
            EffectView::EndSession,
        ],
{
    if ui.has_handler {
        assert(ui.close() =~= seq![
            EffectView::StopRecording,
            EffectView::Cleanup(ui.window_ids),
            EffectView::HideDialog,
            EffectView::EndSession,
        ]);
    } else {
        assert(ui.close() =~= seq![
            EffectView::StopRecording,
            EffectView::HideDialog,
            EffectView::EndSession,
        ]);
    }
}

/// Only closing ends a session.
pub proof fn lemma_only_closing_ends_a_session(ui: UiView, message: MessageView)
    ensures
        ui.effects(message).contains(EffectView::EndSession) <==> message is Close,
{
    let effects = ui.effects(message);
    if message is Close {
        lemma_how_a_session_closes(ui);
        assert(effects[effects.len() - 1] == EffectView::EndSession);
    } else {
        assert(forall|i: int|
            0 <= i < effects.len() ==> #[trigger] effects[i] != EffectView::EndSession);
    }
}

/// What a handler says reaches the session unchanged.
pub proof fn lemma_handlers_are_heard(destinations: Seq<DestinationView>, ids: Seq<u64>)
    ensures
        bridged(HandlerMessageView::SetDestinations(destinations))
            == MessageView::SetDestinations(destinations),
        bridged(HandlerMessageView::StoreWindowIds(ids)) == MessageView::StoreHandlerWindowIds(
            ids,
        ),
{
}

/// The view of an effect says what the effect says, and a list of effects has the view
/// of each at its place.
pub proof fn lemma_views_of_effects(
    effects: Seq<UiEffect>,
    i: int,
    state: TranscriptionState,
    level: AudioLevel,
    a: String,
    b: String,
    slot: usize,
    destinations: Vec<DestinationSlot>,
    ids: Vec<u64>,
)
    ensures
        effect_views(effects).len() == effects.len(),
        0 <= i < effects.len() ==> effect_views(effects)[i] == effects[i]@,
        UiEffect::ShowState(state, a, level)@ == EffectView::ShowState(state, a@, level),
        UiEffect::ShowText(a)@ == EffectView::ShowText(a@),
        UiEffect::ShowPreview(a)@ == EffectView::ShowPreview(a@),
        UiEffect::ShowConfirmedAndPreview(a, b)@ == EffectView::ShowConfirmedAndPreview(a@, b@),
        UiEffect::ShowDestinations(destinations)@ == EffectView::ShowDestinations(
            destination_views(destinations@),
        ),
        UiEffect::HideDialog@ == EffectView::HideDialog,
        (UiEffect::RunOutput { command: a, text: b, slot })@ == (EffectView::RunOutput {
            command: a@,
            text: b@,
            slot,
        }),
        UiEffect::StopRecording@ == EffectView::StopRecording,
        UiEffect::Cleanup(ids)@ == EffectView::Cleanup(ids@),
        UiEffect::EndSession@ == EffectView::EndSession,
{
}

/// The view of what the daemon does says what it does.
pub proof fn lemma_views_of_app_actions(
    unmute_source: bool,
    source: Option<String>,
    handler: MultiSlotHandler,
    action: Option<AppAction>,
)
    ensures
        (AppAction::BeginSession { unmute_source, source, multi_slot_handler: handler })@ == (
        AppActionView::BeginSession {
            unmute_source,
            source: string_view(source),
            multi_slot_handler: handler,
        }),
        AppAction::PresentDialog@ == AppActionView::PresentDialog,
        AppAction::StopRecording@ == AppActionView::StopRecording,
        AppAction::Quit@ == AppActionView::Quit,
        action is Some ==> action_view(action) == Some(action->0@),
        action is None ==> action_view(action) is None,
{
}

} // verus!
