//! Kitty's windows as destinations.
use crate::color;
use crate::config::KittyConfig;
use crate::dialog::{destination_views, inactive_slot, DestinationSlot, DestinationView};
use crate::kitty::commands::{
    background_command_of, color_command_of, command_views, printed, set_background_color,
    set_window_color_and_env, variable_command_of, window_colors_of, KittyCommand,
};
use crate::kitty::protocol::socket_name_of;
use crate::kitty::windows::{claude_window_views, ClaudeWindow, ClaudeWindowView};
use crate::multi_slot::{HandlerMessageView, HandlerUIMessage};
use crate::palette::{palette_of, Palette};
use crate::text;
use crate::text::{decimal, decimal_of, pair_views, string_view, text_view};
use vstd::prelude::*;
use vstd::string::*;
use vstd::utf8::encode_utf8;

verus! {

/// What is to be done for a window that becomes a destination.
#[derive(Debug)]
pub struct SlotTask {
    /// The place of the window among those that were found.
    pub index: usize,
    pub window_id: u64,
    pub cwd: String,
    pub slot_num: usize,
    pub color_hex: String,
}

/// What a task says.
pub struct SlotTaskView {
    pub index: int,
    pub window_id: u64,
    pub cwd: Seq<char>,
    pub slot_num: usize,
    pub color_hex: Seq<char>,
}

impl View for SlotTask {
    type V = SlotTaskView;

    open spec fn view(&self) -> SlotTaskView {
        SlotTaskView {
            index: self.index as int,
            window_id: self.window_id,
            cwd: self.cwd@,
            slot_num: self.slot_num,
            color_hex: self.color_hex@,
        }
    }
}

/// The variable that a window gets with its colour.
pub open spec fn slot_variable(slot_num: usize) -> Seq<char> {
    "STENTOR_SLOT_"@ + decimal_of(slot_num as nat)
}

/// The two commands that a task sends to its window: one gives it its colours, the
/// other marks it as the slot that it is.
pub fn task_commands(task: &SlotTask) -> (r: (KittyCommand, KittyCommand))
    requires
        color::well_divided(encode_utf8(task.color_hex@)),
    ensures
        r.0@ == color_command_of(Some(window_colors_of(task.color_hex@)), None, task.window_id),
        r.1@ == variable_command_of(slot_variable(task.slot_num), "1"@, task.window_id),
{
    let name = "STENTOR_SLOT_".to_owned().concat(decimal(task.slot_num as u64).as_str());
    set_window_color_and_env(task.color_hex.as_str(), name.as_str(), "1", task.window_id)
}

/// What each of `tasks` says.
pub open spec fn task_views(tasks: Seq<SlotTask>) -> Seq<SlotTaskView> {
    tasks.map_values(|t: SlotTask| t@)
}

/// The tasks for the first `n` of `windows`: one for each whose slot has a colour.
pub open spec fn tasks_of(windows: Seq<ClaudeWindowView>, base: Seq<char>, n: int) -> Seq<
    SlotTaskView,
>
    decreases n,
{
    if n <= 0 {
        Seq::empty()
    } else {
        let before = tasks_of(windows, base, n - 1);
        let w = windows[n - 1];
        if 1 <= w.slot_num <= 8 {
            before.push(
                SlotTaskView {
                    index: n - 1,
                    window_id: w.id,
                    cwd: w.cwd,
                    slot_num: w.slot_num,
                    color_hex: palette_of(base)[w.slot_num - 1],
                },
            )
        } else {
            before
        }
    }
}

/// How many of the windows that were found can be destinations.
pub open spec fn considered(windows: Seq<ClaudeWindowView>) -> int {
    if windows.len() < 8 {
        windows.len() as int
    } else {
        8
    }
}

/// The slots from `from` to 8, none of which anything is sent to.
pub open spec fn inactive_from(from: int) -> Seq<DestinationView>
    recommends
        1 <= from <= 9,
{
    Seq::new((9 - from) as nat, |k: int| inactive_slot((from + k) as usize))
}

/// The destination that a task makes of its window.
pub open spec fn destination_of(task: SlotTaskView, label: Seq<char>) -> DestinationView {
    DestinationView { slot_num: task.slot_num, label, color_hex: task.color_hex }
}

/// How far the tasks have come.
pub struct SetupView {
    pub tasks: Seq<SlotTaskView>,
    /// A label for each task that is done.
    pub labels: Seq<Seq<char>>,
    /// Whether the window took its colour, for each task that is done.
    pub changed: Seq<bool>,
}

impl SetupView {
    pub open spec fn wf(self) -> bool {
        &&& self.labels.len() <= self.tasks.len()
        &&& self.changed.len() == self.labels.len()
        &&& forall|i: int| 0 <= i < self.tasks.len() ==> 0 <= (#[trigger] self.tasks[i]).index < 8
    }

    /// The destinations so far.
    pub open spec fn destinations(self) -> Seq<DestinationView> {
        Seq::new(self.labels.len(), |i: int| destination_of(self.tasks[i], self.labels[i]))
    }

    /// What the dialog shows once a task is done: the destinations so far, and an
    /// inactive slot for each place behind the last of them.
    pub open spec fn shown(self) -> Seq<DestinationView> {
        self.destinations() + inactive_from(self.tasks[self.labels.len() - 1].index + 2)
    }

    /// The windows that took their colours, in order.
    pub open spec fn modified(self) -> Seq<u64> {
        modified_of(self.tasks, self.changed)
    }

    /// The tasks after one more of them.
    pub open spec fn after_task(self, changed: bool, label: Seq<char>) -> Self {
        SetupView {
            tasks: self.tasks,
            labels: self.labels.push(label),
            changed: self.changed.push(changed),
        }
    }
}

/// The windows of the tasks that went well.
pub open spec fn modified_of(tasks: Seq<SlotTaskView>, changed: Seq<bool>) -> Seq<u64>
    decreases changed.len(),
{
    if changed.len() == 0 {
        Seq::empty()
    } else {
        let before = modified_of(tasks, changed.drop_last());
        if changed.last() {
            before.push(tasks[changed.len() - 1].window_id)
        } else {
            before
        }
    }
}

/// The windows that are made destinations, one after the other.
pub struct KittySetup {
    tasks: Vec<SlotTask>,
    destinations: Vec<DestinationSlot>,
    modified: Vec<u64>,
    labels: Ghost<Seq<Seq<char>>>,
    changed: Ghost<Seq<bool>>,
}

impl View for KittySetup {
    type V = SetupView;

    closed spec fn view(&self) -> SetupView {
        SetupView {
            tasks: task_views(self.tasks@),
            labels: self.labels@,
            changed: self.changed@,
        }
    }
}

impl KittySetup {
    #[verifier::type_invariant]
    spec fn keeps_track(self) -> bool {
        &&& self@.wf()
        &&& destination_views(self.destinations@) == self@.destinations()
        &&& self.modified@ == self@.modified()
        &&& forall|i: int|
            0 <= i < self.tasks@.len() ==> color::well_divided(
                encode_utf8((#[trigger] self.tasks@[i]).color_hex@),
            )
    }

    /// The next task, if one is left.
    pub fn next_task(&self) -> (r: Option<&SlotTask>)
        ensures
            r is Some <==> self@.labels.len() < self@.tasks.len(),
            r matches Some(t) ==> t@ == self@.tasks[self@.labels.len() as int],
            r matches Some(t) ==> color::well_divided(encode_utf8(t.color_hex@)),
    {
        proof {
            use_type_invariant(self);
            assert(destination_views(self.destinations@).len() == self@.labels.len());
        }
        if self.destinations.len() < self.tasks.len() {
            Some(&self.tasks[self.destinations.len()])
        } else {
            None
        }
    }

    /// Takes in that a task is done: whether the window took its colour, and the
    /// window's label. Says what the dialog shows now.
    pub fn task_done(self, changed: bool, label: &str) -> (r: (Self, HandlerUIMessage))
        requires
            self@.labels.len() < self@.tasks.len(),
        ensures
            r.0@ == self@.after_task(changed, label@),
            r.1@ == HandlerMessageView::SetDestinations(r.0@.shown()),
    {
        proof {
            use_type_invariant(&self);
            assert(destination_views(self.destinations@).len() == self@.labels.len());
        }
        let ghost next = self@.after_task(changed, label@);
        let tasks = self.tasks;
        let mut destinations = self.destinations;
        let mut modified = self.modified;
        let task = &tasks[destinations.len()];
        proof {
            assert(next.changed.drop_last() =~= self.changed@);
            assert(task@ == self@.tasks[self@.labels.len() as int]);
        }
        if changed {
            modified.push(task.window_id);
        }
        let index = task.index;
        let ghost before = destinations@;
        let destination = DestinationSlot::with_label(
            task.slot_num,
            label.to_owned(),
            task.color_hex.clone(),
        );
        destinations.push(destination);
        proof {
            assert(destination_views(destinations@) =~= destination_views(before).push(
                destination@,
            ));
            assert(destination_views(destinations@) =~= next.destinations());
            assert(next.tasks[next.labels.len() - 1] == task@);
        }
        let shown = show(&destinations, index);
        let setup = KittySetup {
            tasks,
            destinations,
            modified,
            labels: Ghost(next.labels),
            changed: Ghost(next.changed),
        };
        (setup, HandlerUIMessage::SetDestinations(shown))
    }

    /// What to tell the dialog at the end: which windows are to be changed back, if any.
    pub fn finish(self) -> (r: Option<HandlerUIMessage>)
        ensures
            r is Some <==> self@.modified().len() > 0,
            r matches Some(m) ==> m@ == HandlerMessageView::StoreWindowIds(self@.modified()),
    {
        proof {
            use_type_invariant(&self);
        }
        if self.modified.len() == 0 {
            None
        } else {
            Some(HandlerUIMessage::StoreWindowIds(self.modified))
        }
    }
}

/// Puts the inactive slots from `from` to 8 behind `slots`.
fn push_inactive(slots: &mut Vec<DestinationSlot>, from: usize)
    requires
        1 <= from <= 9,
    ensures
        destination_views(final(slots)@) == destination_views(old(slots)@) + inactive_from(
            from as int,
        ),
{
    let ghost start = destination_views(slots@);
    let ghost all = inactive_from(from as int);
    let mut n: usize = from;
    while n <= 8
        invariant
            1 <= from <= n <= 9,
            all == inactive_from(from as int),
            destination_views(slots@) =~= start + all.take(n - from),
        decreases 9 - n,
    {
        let ghost before = slots@;
        let slot = DestinationSlot::inactive(n);
        slots.push(slot);
        assert(destination_views(slots@) =~= destination_views(before).push(slot@));
        assert(all.take(n + 1 - from) =~= all.take(n - from).push(slot@));
        n = n + 1;
    }
    assert(all.take(n - from) =~= all);
}

/// The destinations so far and the inactive slots behind the place `index`.
fn show(destinations: &Vec<DestinationSlot>, index: usize) -> (r: Vec<DestinationSlot>)
    requires
        index < 8,
    ensures
        destination_views(r@) == destination_views(destinations@) + inactive_from(index + 2),
{
    let mut shown: Vec<DestinationSlot> = Vec::new();
    let ghost all = destination_views(destinations@);
    let mut i: usize = 0;
    while i < destinations.len()
        invariant
            i <= destinations@.len(),
            all == destination_views(destinations@),
            destination_views(shown@) =~= all.take(i as int),
        decreases destinations@.len() - i,
    {
        let ghost before = shown@;
        let d = destinations[i].clone();
        shown.push(d);
        assert(destination_views(shown@) =~= destination_views(before).push(d@));
        assert(all[i as int] == d@);
        i = i + 1;
    }
    assert(all.take(i as int) =~= all);
    push_inactive(&mut shown, index + 2);
    shown
}

/// Makes destinations of Kitty's windows.
#[derive(Debug)]
pub struct KittyMultiSlotHandler {
    config: KittyConfig,
}

/// The background colour to go back to: what the configured command printed, and
/// else the configured colour.
pub open spec fn background_of(config: KittyConfig, printed: Option<Seq<char>>) -> Seq<char> {
    match printed {
        Some(color) if config.background_color_cmd is Some && color.len() > 0 => color,
        _ => config.base_background_color@,
    }
}

impl KittyMultiSlotHandler {
    pub closed spec fn spec_config(self) -> KittyConfig {
        self.config
    }

    pub fn new(config: KittyConfig) -> (r: Self)
        ensures
            r.spec_config() == config,
    {
        KittyMultiSlotHandler { config }
    }

    pub fn config(&self) -> (r: &KittyConfig)
        ensures
            *r == self.spec_config(),
    {
        &self.config
    }

    /// The background colour to go back to, by what the configured command printed,
    /// without the white space around it.
    pub fn choose_background(&self, printed: Option<String>) -> (r: String)
        ensures
            r@ == background_of(self.spec_config(), string_view(printed)),
    {
        if self.config.background_color_cmd.is_some() {
            if let Some(color) = printed {
                if !color.as_str().is_empty() {
                    return color;
                }
            }
        }
        self.config.base_background_color.clone()
    }

    /// The background colour to go back to, by the bytes that the configured command
    /// printed, if it went well.
    pub fn get_background_color(&self, output: Option<&Vec<u8>>) -> (r: String)
        ensures
            r@ == background_of(
                self.spec_config(),
                match output {
                    Some(bytes) => Some(text::trim_of(text::lossy_text(bytes@))),
                    None => None,
                },
            ),
    {
        self.choose_background(printed(output))
    }

    /// What the dialog shows before any window is found: eight inactive slots.
    pub fn opening(&self) -> (r: HandlerUIMessage)
        ensures
            r@ == HandlerMessageView::SetDestinations(inactive_from(1)),
    {
        let mut slots: Vec<DestinationSlot> = Vec::new();
        let ghost none = destination_views(slots@);
        push_inactive(&mut slots, 1);
        assert(none + inactive_from(1) =~= inactive_from(1));
        HandlerUIMessage::SetDestinations(slots)
    }

    /// Plans what is to be done for the first eight of the windows that were found.
    pub fn setup(&self, windows: &Vec<ClaudeWindow>) -> (r: KittySetup)
        requires
            color::well_divided(encode_utf8(self.spec_config().base_background_color@)),
        ensures
            r@.labels.len() == 0,
            r@.changed.len() == 0,
            r@.tasks == tasks_of(
                claude_window_views(windows@),
                self.spec_config().base_background_color@,
                considered(claude_window_views(windows@)),
            ),
            r@.wf(),
    {
        let base = self.config.base_background_color.as_str();
        let palette = Palette::new(base);
        let mut tasks: Vec<SlotTask> = Vec::new();
        let ghost all = claude_window_views(windows@);
        let mut i: usize = 0;
        assert(task_views(tasks@) =~= tasks_of(all, base@, 0));
        while i < windows.len() && i < 8
            invariant
                i <= windows@.len(),
                i <= 8,
                all == claude_window_views(windows@),
                palette@ == palette_of(base@),
                task_views(tasks@) == tasks_of(all, base@, i as int),
                forall|k: int|
                    0 <= k < tasks@.len() ==> {
                        &&& (#[trigger] tasks@[k]).index < i
                        &&& color::well_divided(encode_utf8(tasks@[k].color_hex@))
                    },
            decreases windows@.len() - i,
        {
            let window = &windows[i];
            assert(all[i as int] == window@);
            if let Some(hex) = palette.tint(window.slot_num) {
                let task = SlotTask {
                    index: i,
                    window_id: window.id,
                    cwd: window.cwd.clone(),
                    slot_num: window.slot_num,
                    color_hex: hex.to_owned(),
                };
                let ghost before = tasks@;
                tasks.push(task);
                proof {
                    assert(task_views(tasks@) =~= task_views(before).push(task@));
                    crate::palette::lemma_slot_colors_read_back(base@, window.slot_num - 1);
                }
            }
            i = i + 1;
        }
        let destinations: Vec<DestinationSlot> = Vec::new();
        let ghost none = SetupView {
            tasks: task_views(tasks@),
            labels: Seq::empty(),
            changed: Seq::empty(),
        };
        proof {
            assert(destination_views(destinations@) =~= none.destinations());
            assert forall|k: int| 0 <= k < none.tasks.len() implies 0 <= (
            #[trigger] none.tasks[k]).index < 8 by {
                assert(tasks@[k].index < i);
            }
            assert(none.wf());
        }
        KittySetup {
            tasks,
            destinations,
            modified: Vec::new(),
            labels: Ghost(Seq::empty()),
            changed: Ghost(Seq::empty()),
        }
    }

    /// The commands that give windows the colour `background`.
    pub fn cleanup(&self, window_ids: &Vec<u64>, background: &str) -> (r: Vec<KittyCommand>)
        requires
            window_ids@.len() > 0 ==> color::well_divided(encode_utf8(background@)),
        ensures
            command_views(r@) == window_ids@.map_values(
                |id: u64| background_command_of(background@, id),
            ),
    {
        let mut commands: Vec<KittyCommand> = Vec::new();
        let ghost all = window_ids@.map_values(|id: u64| background_command_of(background@, id));
        let mut i: usize = 0;
        while i < window_ids.len()
            invariant
                i <= window_ids@.len(),
                window_ids@.len() > 0 ==> color::well_divided(encode_utf8(background@)),
                all == window_ids@.map_values(|id: u64| background_command_of(background@, id)),
                command_views(commands@) =~= all.take(i as int),
            decreases window_ids@.len() - i,
        {
            let ghost before = commands@;
            let command = set_background_color(background, window_ids[i]);
            commands.push(command);
            assert(command_views(commands@) =~= command_views(before).push(command@));
            assert(all[i as int] == command@);
            i = i + 1;
        }
        assert(all.take(i as int) =~= all);
        commands
    }

    /// The variables that an output command finds: where Kitty listens.
    pub fn output_env_vars(&self, listen_on: Option<&str>) -> (r: Vec<(String, String)>)
        ensures
            pair_views(r@) == seq![("KITTY_LISTEN_ON"@, listen_address(text_view(listen_on)))],
    {
        let mut address = "unix:@kitty".to_owned();
        if let Some(s) = listen_on {
            if text::starts_with(s, "unix:") {
                address = s.to_owned();
            }
        }
        let mut vars: Vec<(String, String)> = Vec::new();
        vars.push(("KITTY_LISTEN_ON".to_owned(), address));
        assert(pair_views(vars@) =~= seq![
            ("KITTY_LISTEN_ON"@, listen_address(text_view(listen_on))),
        ]);
        vars
    }
}

/// Where an output command is told that Kitty listens: where `KITTY_LISTEN_ON` says,
/// if it names a socket, and else at Kitty's own.
pub open spec fn listen_address(listen_on: Option<Seq<char>>) -> Seq<char> {
    match listen_on {
        Some(s) if "unix:"@.is_prefix_of(s) => s,
        _ => "unix:@kitty"@,
    }
}

/// The socket that an output command is told of is the one that the daemon uses.
pub proof fn lemma_output_uses_the_same_socket(listen_on: Option<Seq<char>>)
    ensures
        socket_name_of(Some(listen_address(listen_on))) == socket_name_of(listen_on),
{
    reveal_strlit("unix:@");
    reveal_strlit("unix:");
    reveal_strlit("unix:@kitty");
    reveal_strlit("kitty");
    assert("unix:@kitty"@.subrange(0, 6) =~= "unix:@"@);
    assert("unix:@kitty"@.skip(6) =~= "kitty"@);
    if let Some(s) = listen_on {
        if "unix:@"@.is_prefix_of(s) {
            assert("unix:"@ =~= "unix:@"@.subrange(0, 5));
            assert(s.subrange(0, 5) =~= s.subrange(0, 6).subrange(0, 5));
        }
    }
}

/// Every task is about one window: it carries the id, the slot and the directory of the
/// window at its index, and the colour of its slot. The tasks keep the order of the
/// windows.
pub proof fn lemma_tasks_keep_order(windows: Seq<ClaudeWindowView>, base: Seq<char>, n: int)
    requires
        0 <= n <= windows.len(),
    ensures
        ({
            let tasks = tasks_of(windows, base, n);
            &&& forall|i: int|
                0 <= i < tasks.len() ==> {
                    let t = #[trigger] tasks[i];
                    &&& 0 <= t.index < n
                    &&& t.window_id == windows[t.index].id
                    &&& t.slot_num == windows[t.index].slot_num
                    &&& t.cwd == windows[t.index].cwd
                    &&& 1 <= t.slot_num <= 8
                    &&& t.color_hex == palette_of(base)[t.slot_num - 1]
                }
            &&& forall|i: int, j: int|
                0 <= i < j < tasks.len() ==> (#[trigger] tasks[i]).index < (
                #[trigger] tasks[j]).index
        }),
    decreases n,
{
    if n > 0 {
        lemma_tasks_keep_order(windows, base, n - 1);
        let before = tasks_of(windows, base, n - 1);
        let tasks = tasks_of(windows, base, n);
        assert(forall|i: int| 0 <= i < before.len() ==> tasks[i] == before[i]);
    }
}

/// The dialog never shows more than eight slots, and eight where every window up to
/// the last one has a colour.
pub proof fn lemma_at_most_eight_slots_are_shown(
    windows: Seq<ClaudeWindowView>,
    base: Seq<char>,
    s: SetupView,
)
    requires
        s.tasks == tasks_of(windows, base, considered(windows)),
        s.wf(),
        s.labels.len() > 0,
    ensures
        s.shown().len() == s.labels.len() + 7 - s.tasks[s.labels.len() - 1].index,
        s.shown().len() <= 8,
        s.tasks[s.labels.len() - 1].index == s.labels.len() - 1 ==> s.shown().len() == 8,
{
    lemma_tasks_keep_order(windows, base, considered(windows));
    lemma_indices_grow(s.tasks, s.labels.len() - 1);
}

proof fn lemma_indices_grow(tasks: Seq<SlotTaskView>, i: int)
    requires
        0 <= i < tasks.len(),
        0 <= tasks[0].index,
        forall|i: int, j: int|
            0 <= i < j < tasks.len() ==> (#[trigger] tasks[i]).index < (#[trigger] tasks[j]).index,
    ensures
        i <= tasks[i].index,
    decreases i,
{
    if i > 0 {
        lemma_indices_grow(tasks, i - 1);
        assert(tasks[i - 1].index < tasks[i].index);
    }
}

/// Only windows that took their colour are changed back, and all of them are.
pub proof fn lemma_modified_windows_took_their_color(
    tasks: Seq<SlotTaskView>,
    changed: Seq<bool>,
    id: u64,
)
    requires
        changed.len() <= tasks.len(),
    ensures
        modified_of(tasks, changed).contains(id) <==> exists|i: int|
            0 <= i < changed.len() && #[trigger] changed[i] && tasks[i].window_id == id,
    decreases changed.len(),
{
    if changed.len() > 0 {
        let rest = changed.drop_last();
        let last = changed.len() - 1;
        lemma_modified_windows_took_their_color(tasks, rest, id);
        let before = modified_of(tasks, rest);
        let all = modified_of(tasks, changed);
        if all.contains(id) {
            let k = choose|k: int| 0 <= k < all.len() && all[k] == id;
            if k < before.len() {
                assert(before[k] == id);
                let i = choose|i: int|
                    0 <= i < rest.len() && #[trigger] rest[i] && tasks[i].window_id == id;
                assert(changed[i]);
            } else {
                assert(changed[last]);
            }
        }
        if exists|i: int|
            0 <= i < changed.len() && #[trigger] changed[i] && tasks[i].window_id == id {
            let i = choose|i: int|
                0 <= i < changed.len() && #[trigger] changed[i] && tasks[i].window_id == id;
            if i < last {
                assert(rest[i]);
                let k = choose|k: int| 0 <= k < before.len() && before[k] == id;
                assert(all[k] == id);
            } else {
                assert(all[before.len() as int] == id);
            }
        }
    }
}

/// No window is passed over: each of the first `n` whose slot is from 1 to 8 has a task.
pub proof fn lemma_every_slot_has_a_task(
    windows: Seq<ClaudeWindowView>,
    base: Seq<char>,
    n: int,
    k: int,
)
    requires
        0 <= k < n <= windows.len(),
        1 <= windows[k].slot_num <= 8,
    ensures
        exists|i: int|
            0 <= i < tasks_of(windows, base, n).len() && (#[trigger] tasks_of(
                windows,
                base,
                n,
            )[i]).index == k,
    decreases n,
{
    let tasks = tasks_of(windows, base, n);
    let before = tasks_of(windows, base, n - 1);
    if k == n - 1 {
        assert(tasks[before.len() as int].index == k);
    } else {
        lemma_every_slot_has_a_task(windows, base, n - 1, k);
        let i = choose|i: int| 0 <= i < before.len() && (#[trigger] before[i]).index == k;
        assert(tasks[i] == before[i]);
    }
}

/// The first eight windows are looked at, or all where there are fewer.
pub proof fn lemma_eight_windows_are_looked_at(windows: Seq<ClaudeWindowView>)
    ensures
        considered(windows) <= 8,
        considered(windows) <= windows.len(),
        considered(windows) == 8 || considered(windows) == windows.len(),
{
}

/// What the dialog shows once a task is done: for each task so far, in order, its slot
/// with its own label and colour, and behind them slots that nothing is sent to, up to
/// the eighth.
pub proof fn lemma_destinations_show_their_tasks(s: SetupView, i: int)
    requires
        s.wf(),
        s.labels.len() > 0,
        0 <= i < s.shown().len(),
    ensures
        i < s.labels.len() ==> s.shown()[i].slot_num == s.tasks[i].slot_num
            && s.shown()[i].label == s.labels[i] && s.shown()[i].color_hex == s.tasks[i].color_hex,
        i >= s.labels.len() ==> s.shown()[i].label.len() == 0 && s.shown()[i].slot_num
            == s.tasks[s.labels.len() - 1].index + 2 + i - s.labels.len(),
        s.shown().last().slot_num == 8 || s.tasks[s.labels.len() - 1].index == 7,
{
}

/// A task that is done adds its own label and outcome, and changes nothing else.
pub proof fn lemma_tasks_are_done_one_by_one(s: SetupView, changed: bool, label: Seq<char>)
    requires
        s.wf(),
        s.labels.len() < s.tasks.len(),
    ensures
        ({
            let next = s.after_task(changed, label);
            let id = s.tasks[s.labels.len() as int].window_id;
            &&& next.tasks == s.tasks
            &&& next.labels == s.labels.push(label)
            &&& next.wf()
            &&& changed ==> next.modified() == s.modified().push(id)
            &&& !changed ==> next.modified() == s.modified()
            &&& s.changed.len() == 0 ==> s.modified().len() == 0
            &&& next.destinations() == s.destinations().push(
                destination_of(s.tasks[s.labels.len() as int], label),
            )
        }),
{
    let next = s.after_task(changed, label);
    assert(next.changed.drop_last() =~= s.changed);
    assert(next.destinations() =~= s.destinations().push(
        destination_of(s.tasks[s.labels.len() as int], label),
    ));
}

/// Slots that nothing is sent to have no label, and their numbers go up to 8.
pub proof fn lemma_inactive_slots(from: int, k: int)
    requires
        1 <= from <= 9,
        0 <= k < 9 - from,
    ensures
        inactive_from(from).len() == 9 - from,
        inactive_from(from)[k].slot_num == from + k,
        inactive_from(from)[k].label.len() == 0,
{
}

/// The background to go back to: what a command printed where one is configured and it
/// printed anything, and the configured colour otherwise.
pub proof fn lemma_background_to_go_back_to(config: KittyConfig, printed: Seq<char>)
    ensures
        config.background_color_cmd is Some && printed.len() > 0 ==> background_of(
            config,
            Some(printed),
        ) == printed,
        config.background_color_cmd is None ==> background_of(config, Some(printed))
            == config.base_background_color@,
        background_of(config, Some(Seq::empty())) == config.base_background_color@,
        background_of(config, None) == config.base_background_color@,
{
}

/// The variable of a window tells its slot.
pub proof fn lemma_slot_variables_differ(a: usize, b: usize)
    requires
        slot_variable(a) == slot_variable(b),
    ensures
        a == b,
{
    let n = "STENTOR_SLOT_"@.len() as int;
    assert(slot_variable(a).skip(n) =~= decimal_of(a as nat));
    assert(slot_variable(b).skip(n) =~= decimal_of(b as nat));
    text::lemma_decimal_injective(a as nat, b as nat);
}

/// The view of a task holds its fields, and a list of tasks has the view of each at its
/// place.
pub proof fn lemma_views_of_tasks(tasks: Seq<SlotTask>, i: int)
    requires
        0 <= i < tasks.len(),
    ensures
        task_views(tasks).len() == tasks.len(),
        task_views(tasks)[i].index == tasks[i].index,
        task_views(tasks)[i].window_id == tasks[i].window_id,
        task_views(tasks)[i].cwd == tasks[i].cwd@,
        task_views(tasks)[i].slot_num == tasks[i].slot_num,
        task_views(tasks)[i].color_hex == tasks[i].color_hex@,
{
}

/// An output command is told of the socket that the daemon was told of, and of Kitty's
/// own where the daemon was told of none.
pub proof fn lemma_what_output_commands_are_told(listen_on: Seq<char>)
    ensures
        "unix:"@.is_prefix_of(listen_on) ==> listen_address(Some(listen_on)) == listen_on,
        !"unix:"@.is_prefix_of(listen_on) ==> listen_address(Some(listen_on)) == "unix:@kitty"@,
        listen_address(None) == "unix:@kitty"@,
{
}

} // verus!
