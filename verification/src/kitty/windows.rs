//! Kitty's windows, and which of them are slots.
use crate::json;
use crate::json::{json_view, Json};
use crate::text;
use crate::text::string_view;
use serde_json::Value;
use vstd::prelude::*;
use vstd::string::*;

verus! {

/// A window of Kitty, as far as slots are concerned.
#[derive(Debug)]
pub struct KittyWindow {
    pub id: Option<u64>,
    pub cwd: Option<String>,
    /// The value of `STENTOR_SLOT` in the window's environment.
    pub slot: Option<String>,
}

/// What a window holds.
pub struct KittyWindowView {
    pub id: Option<u64>,
    pub cwd: Option<Seq<char>>,
    pub slot: Option<Seq<char>>,
}

impl View for KittyWindow {
    type V = KittyWindowView;

    open spec fn view(&self) -> KittyWindowView {
        KittyWindowView { id: self.id, cwd: string_view(self.cwd), slot: string_view(self.slot) }
    }
}

/// What each of `windows` holds.
pub open spec fn kitty_window_views(windows: Seq<KittyWindow>) -> Seq<KittyWindowView> {
    windows.map_values(|w: KittyWindow| w@)
}

/// A window that is a slot.
#[derive(Debug, Clone)]
pub struct ClaudeWindow {
    pub id: u64,
    pub cwd: String,
    pub slot_num: usize,
}

/// What a window that is a slot holds.
pub struct ClaudeWindowView {
    pub id: u64,
    pub cwd: Seq<char>,
    pub slot_num: usize,
}

impl View for ClaudeWindow {
    type V = ClaudeWindowView;

    open spec fn view(&self) -> ClaudeWindowView {
        ClaudeWindowView { id: self.id, cwd: self.cwd@, slot_num: self.slot_num }
    }
}

/// What each of `windows` holds.
pub open spec fn claude_window_views(windows: Seq<ClaudeWindow>) -> Seq<ClaudeWindowView> {
    windows.map_values(|w: ClaudeWindow| w@)
}

/// The elements of the array under `key`; none where there is no such array.
pub open spec fn member_elements(j: Json, key: Seq<char>) -> Seq<Json> {
    match j.member(key) {
        Some(v) => match v.elements() {
            Some(s) => s,
            None => Seq::empty(),
        },
        None => Seq::empty(),
    }
}

/// The elements of the arrays under `key` in all of `values`, one array after the other.
pub open spec fn all_member_elements(values: Seq<Json>, key: Seq<char>) -> Seq<Json> {
    values.map_values(|v: Json| member_elements(v, key)).flatten()
}

/// The windows in a list of OS windows with tabs, in the order in which they stand there.
pub open spec fn windows_in(data: Json) -> Seq<Json> {
    match data.elements() {
        Some(os_windows) => all_member_elements(
            all_member_elements(os_windows, "tabs"@),
            "windows"@,
        ),
        None => Seq::empty(),
    }
}

/// What matters of a window.
pub open spec fn kitty_window_of(w: Json) -> KittyWindowView {
    KittyWindowView {
        id: match w.member("id"@) {
            Some(v) => v.number(),
            None => None,
        },
        cwd: match w.member("cwd"@) {
            Some(v) => v.text(),
            None => None,
        },
        slot: match w.member("env"@) {
            Some(env) => match env.member("STENTOR_SLOT"@) {
                Some(v) => v.text(),
                None => None,
            },
            None => None,
        },
    }
}

/// What matters of all windows, in the order in which they stand in `data`.
pub open spec fn kitty_windows_of(data: Json) -> Seq<KittyWindowView> {
    windows_in(data).map_values(|w: Json| kitty_window_of(w))
}

/// The slot that a window says it is.
pub open spec fn slot_of(w: KittyWindowView) -> Option<usize> {
    match w.slot {
        Some(s) => text::usize_of(s),
        None => None,
    }
}

/// The window as a slot, where it has an id and a number for its slot.
pub open spec fn stentor_window_of(w: KittyWindowView) -> Option<ClaudeWindowView> {
    match (slot_of(w), w.id) {
        (Some(slot_num), Some(id)) => Some(
            ClaudeWindowView {
                id,
                cwd: match w.cwd {
                    Some(c) => c,
                    None => "unknown"@,
                },
                slot_num,
            },
        ),
        _ => None,
    }
}

/// The windows that are slots, in the order in which they were discovered.
pub open spec fn stentor_windows_of(windows: Seq<KittyWindowView>) -> Seq<ClaudeWindowView>
    decreases windows.len(),
{
    if windows.len() == 0 {
        Seq::empty()
    } else {
        let before = stentor_windows_of(windows.drop_last());
        match stentor_window_of(windows.last()) {
            Some(w) => before.push(w),
            None => before,
        }
    }
}

/// What each of `values` holds.
spec fn at_views(values: Seq<&Value>) -> Seq<Json> {
    values.map_values(|v: &Value| json_view(*v))
}

/// Puts the elements of the array under `key` behind `out`.
fn push_elements<'a>(out: &mut Vec<&'a Value>, v: &'a Value, key: &str)
    ensures
        at_views(final(out)@) == at_views(old(out)@) + member_elements(json_view(*v), key@),
{
    assert(at_views(out@) + Seq::<Json>::empty() =~= at_views(out@));
    if let Some(member) = json::get(v, key) {
        if let Some(elements) = json::as_array(member) {
            let ghost all = json::json_views(elements@);
            let ghost start = at_views(out@);
            assert(all.take(0) =~= Seq::<Json>::empty());
            let mut i: usize = 0;
            while i < elements.len()
                invariant
                    i <= elements@.len(),
                    all == json::json_views(elements@),
                    at_views(out@) == start + all.take(i as int),
                decreases elements@.len() - i,
            {
                let ghost before = out@;
                out.push(&elements[i]);
                assert(at_views(out@) =~= at_views(before).push(all[i as int]));
                assert(all.take(i + 1) =~= all.take(i as int).push(all[i as int]));
                i = i + 1;
            }
            assert(all.take(i as int) =~= all);
        }
    }
}

/// The elements of the arrays under `key` in all of `values`.
fn all_elements<'a>(values: &Vec<&'a Value>, key: &str) -> (r: Vec<&'a Value>)
    ensures
        at_views(r@) == all_member_elements(at_views(values@), key@),
{
    let mut out: Vec<&'a Value> = Vec::new();
    let ghost lists = at_views(values@).map_values(|v: Json| member_elements(v, key@));
    assert(lists.take(0).flatten() =~= Seq::<Json>::empty());
    assert(at_views(out@) =~= Seq::<Json>::empty());
    let mut i: usize = 0;
    while i < values.len()
        invariant
            i <= values@.len(),
            lists == at_views(values@).map_values(|v: Json| member_elements(v, key@)),
            at_views(out@) == lists.take(i as int).flatten(),
        decreases values@.len() - i,
    {
        push_elements(&mut out, values[i], key);
        proof {
            lists.take(i as int).lemma_flatten_push(lists[i as int]);
            assert(lists.take(i + 1) =~= lists.take(i as int).push(lists[i as int]));
        }
        i = i + 1;
    }
    assert(lists.take(i as int) =~= lists);
    out
}

/// The text under `key`.
fn member_text(v: &Value, key: &str) -> (r: Option<String>)
    ensures
        string_view(r) == match json_view(*v).member(key@) {
            Some(m) => m.text(),
            None => None,
        },
{
    match json::get(v, key) {
        Some(m) => match json::as_str(m) {
            Some(s) => Some(s.to_owned()),
            None => None,
        },
        None => None,
    }
}

fn read_window(w: &Value) -> (r: KittyWindow)
    ensures
        r@ == kitty_window_of(json_view(*w)),
{
    let id = match json::get(w, "id") {
        Some(v) => json::as_u64(v),
        None => None,
    };
    let slot = match json::get(w, "env") {
        Some(env) => member_text(env, "STENTOR_SLOT"),
        None => None,
    };
    KittyWindow { id, cwd: member_text(w, "cwd"), slot }
}

/// What matters of all windows in a list of OS windows with tabs.
pub fn read_windows(data: &Value) -> (r: Vec<KittyWindow>)
    ensures
        kitty_window_views(r@) == kitty_windows_of(json_view(*data)),
{
    let mut out: Vec<KittyWindow> = Vec::new();
    let elements = match json::as_array(data) {
        Some(a) => a,
        None => {
            assert(kitty_window_views(out@) =~= kitty_windows_of(json_view(*data)));
            return out;
        },
    };
    let mut os_windows: Vec<&Value> = Vec::new();
    let mut i: usize = 0;
    while i < elements.len()
        invariant
            i <= elements@.len(),
            at_views(os_windows@) =~= json::json_views(elements@).take(i as int),
        decreases elements@.len() - i,
    {
        let ghost before = os_windows@;
        os_windows.push(&elements[i]);
        assert(at_views(os_windows@) =~= at_views(before).push(json_view(elements@[i as int])));
        i = i + 1;
    }
    assert(at_views(os_windows@) =~= json::json_views(elements@));
    let tabs = all_elements(&os_windows, "tabs");
    let windows = all_elements(&tabs, "windows");
    let ghost all = kitty_windows_of(json_view(*data));
    let mut i: usize = 0;
    while i < windows.len()
        invariant
            i <= windows@.len(),
            all == at_views(windows@).map_values(|w: Json| kitty_window_of(w)),
            kitty_window_views(out@) =~= all.take(i as int),
        decreases windows@.len() - i,
    {
        let ghost before = out@;
        let window = read_window(windows[i]);
        out.push(window);
        assert(kitty_window_views(out@) =~= kitty_window_views(before).push(window@));
        assert(window@ == all[i as int]);
        i = i + 1;
    }
    assert(all.take(i as int) =~= all);
    out
}

/// The number of the slot that a window says it is.
fn slot_number(w: &KittyWindow) -> (r: Option<usize>)
    ensures
        r == slot_of(w@),
{
    match &w.slot {
        Some(s) => text::parse_usize(s.as_str()),
        None => None,
    }
}

/// The windows that are slots, in the order of `windows`.
pub fn stentor_windows(windows: &Vec<KittyWindow>) -> (r: Vec<ClaudeWindow>)
    ensures
        claude_window_views(r@) == stentor_windows_of(kitty_window_views(windows@)),
{
    let mut out: Vec<ClaudeWindow> = Vec::new();
    let ghost all = kitty_window_views(windows@);
    let mut i: usize = 0;
    assert(claude_window_views(out@) =~= stentor_windows_of(all.take(0)));
    while i < windows.len()
        invariant
            i <= windows@.len(),
            all == kitty_window_views(windows@),
            claude_window_views(out@) == stentor_windows_of(all.take(i as int)),
        decreases windows@.len() - i,
    {
        let w = &windows[i];
        let ghost before = out@;
        proof {
            assert(all.take(i + 1).drop_last() =~= all.take(i as int));
            assert(all.take(i + 1).last() == w@);
        }
        if let Some(slot_num) = slot_number(w) {
            if let Some(id) = w.id {
                let cwd = match &w.cwd {
                    Some(c) => c.clone(),
                    None => "unknown".to_owned(),
                };
                let found = ClaudeWindow { id, cwd, slot_num };
                out.push(found);
                assert(claude_window_views(out@) =~= claude_window_views(before).push(found@));
            }
        }
        i = i + 1;
    }
    assert(all.take(i as int) =~= all);
    out
}

/// The windows that are slots, in the order in which they were discovered, so that
/// the first key goes to the first of them.
pub fn find_stentor_windows(data: &Value) -> (r: Vec<ClaudeWindow>)
    ensures
        claude_window_views(r@) == stentor_windows_of(kitty_windows_of(json_view(*data))),
{
    stentor_windows(&read_windows(data))
}

/// Whether some window says that it is slot `n`.
pub open spec fn occupied(windows: Seq<KittyWindowView>, n: usize) -> bool {
    exists|i: int| 0 <= i < windows.len() && slot_of(#[trigger] windows[i]) == Some(n)
}

/// Whether `r` is the lowest slot from 1 to 8 that is not occupied, if there is one.
pub open spec fn is_lowest_free_slot(windows: Seq<KittyWindowView>, r: Option<usize>) -> bool {
    match r {
        Some(n) => {
            &&& 1 <= n <= 8
            &&& !occupied(windows, n)
            &&& forall|m: usize| 1 <= m < n ==> #[trigger] occupied(windows, m)
        },
        None => forall|m: usize| 1 <= m <= 8 ==> #[trigger] occupied(windows, m),
    }
}

fn is_occupied(windows: &Vec<KittyWindow>, n: usize) -> (r: bool)
    ensures
        r == occupied(kitty_window_views(windows@), n),
{
    let ghost all = kitty_window_views(windows@);
    let mut i: usize = 0;
    while i < windows.len()
        invariant
            i <= windows@.len(),
            all == kitty_window_views(windows@),
            forall|j: int| 0 <= j < i ==> slot_of(#[trigger] all[j]) != Some(n),
        decreases windows@.len() - i,
    {
        if let Some(m) = slot_number(&windows[i]) {
            if m == n {
                assert(slot_of(all[i as int]) == Some(n));
                return true;
            }
        }
        assert(all[i as int] == windows@[i as int]@);
        i = i + 1;
    }
    false
}

/// The lowest slot from 1 to 8 that no window occupies.
pub fn free_slot(windows: &Vec<KittyWindow>) -> (r: Option<usize>)
    ensures
        is_lowest_free_slot(kitty_window_views(windows@), r),
{
    let mut n: usize = 1;
    while n <= 8
        invariant
            1 <= n <= 9,
            forall|m: usize|
                1 <= m < n ==> #[trigger] occupied(kitty_window_views(windows@), m),
        decreases 9 - n,
    {
        if !is_occupied(windows, n) {
            return Some(n);
        }
        n = n + 1;
    }
    None
}

/// The lowest slot from 1 to 8 that no window occupies.
pub fn find_available_slot(data: &Value) -> (r: Option<usize>)
    ensures
        is_lowest_free_slot(kitty_windows_of(json_view(*data)), r),
{
    free_slot(&read_windows(data))
}

/// A free slot is none of the slots that were found.
pub proof fn lemma_free_slot_is_not_found(windows: Seq<KittyWindowView>, n: usize)
    requires
        is_lowest_free_slot(windows, Some(n)),
    ensures
        forall|i: int|
            0 <= i < stentor_windows_of(windows).len() ==> (
            #[trigger] stentor_windows_of(windows)[i]).slot_num != n,
{
    lemma_found_slots_are_occupied(windows);
}

/// Every slot that was found is occupied.
pub proof fn lemma_found_slots_are_occupied(windows: Seq<KittyWindowView>)
    ensures
        forall|i: int|
            0 <= i < stentor_windows_of(windows).len() ==> occupied(
                windows,
                (#[trigger] stentor_windows_of(windows)[i]).slot_num,
            ),
    decreases windows.len(),
{
    if windows.len() > 0 {
        let rest = windows.drop_last();
        lemma_found_slots_are_occupied(rest);
        let found = stentor_windows_of(windows);
        assert forall|i: int| 0 <= i < found.len() implies occupied(
            windows,
            (#[trigger] found[i]).slot_num,
        ) by {
            if i < stentor_windows_of(rest).len() {
                assert(found[i] == stentor_windows_of(rest)[i]);
                assert(occupied(rest, found[i].slot_num));
                let k = choose|k: int|
                    0 <= k < rest.len() && slot_of(#[trigger] rest[k]) == Some(found[i].slot_num);
                assert(slot_of(windows[k]) == Some(found[i].slot_num));
            } else {
                assert(slot_of(windows[windows.len() - 1]) == Some(found[i].slot_num));
            }
        }
    }
}

/// The windows that are slots, of windows in a row, are those of the first ones followed
/// by those of the others.
pub proof fn lemma_slots_keep_order(a: Seq<KittyWindowView>, b: Seq<KittyWindowView>)
    ensures
        stentor_windows_of(a + b) == stentor_windows_of(a) + stentor_windows_of(b),
    decreases b.len(),
{
    if b.len() == 0 {
        assert(a + b =~= a);
        assert(stentor_windows_of(a) + stentor_windows_of(b) =~= stentor_windows_of(a));
    } else {
        lemma_slots_keep_order(a, b.drop_last());
        assert((a + b).drop_last() =~= a + b.drop_last());
        assert(stentor_windows_of(a + b) =~= stentor_windows_of(a) + stentor_windows_of(b));
    }
}

/// A window is a slot exactly where it has an id and its variable is a number. It then
/// keeps its own id and directory, and its slot is that number.
pub proof fn lemma_which_windows_are_slots(w: KittyWindowView, n: usize)
    ensures
        ({
            let found = stentor_windows_of(seq![w]);
            &&& found.len() <= 1
            &&& found.len() == 1 <==> w.id is Some && w.slot is Some && text::usize_of(
                w.slot->0,
            ) is Some
            &&& found.len() == 1 ==> {
                &&& found[0].id == w.id->0
                &&& Some(found[0].slot_num) == text::usize_of(w.slot->0)
                &&& w.cwd is Some ==> found[0].cwd == w.cwd->0
                &&& w.cwd is None ==> found[0].cwd == "unknown"@
            }
            &&& w.id is Some && w.slot == Some(text::decimal_of(n as nat)) ==> found.len() == 1
                && found[0].slot_num == n
        }),
{
    text::lemma_decimal_reads_back(n);
    assert(seq![w].drop_last() =~= Seq::<KittyWindowView>::empty());
    assert(stentor_windows_of(seq![w].drop_last()) =~= Seq::<ClaudeWindowView>::empty());
}

/// What is read of a window: its id, its directory and its variable, each where the
/// window has one of the right kind.
pub proof fn lemma_what_is_read_of_a_window(w: Json, env: Json, id: u64, s: Seq<char>)
    ensures
        kitty_window_of(w).id == Some(id) <==> w.member("id"@) == Some(Json::Number(Some(id))),
        kitty_window_of(w).cwd == Some(s) <==> w.member("cwd"@) == Some(Json::Text(s)),
        w.member("env"@) == Some(env) ==> (kitty_window_of(w).slot == Some(s) <==> env.member(
            "STENTOR_SLOT"@,
        ) == Some(Json::Text(s))),
        w.member("env"@) is None ==> kitty_window_of(w).slot is None,
{
    if let Some(v) = w.member("id"@) {
        if v.number() == Some(id) {
            assert(v == Json::Number(Some(id)));
        }
    }
}

/// All windows of all tabs of all OS windows are found, in the order in which they
/// stand there: those of the first OS windows, and then those of the others.
pub proof fn lemma_all_windows_are_found(a: Seq<Json>, b: Seq<Json>)
    ensures
        windows_in(Json::Array(a + b)) == windows_in(Json::Array(a)) + windows_in(
            Json::Array(b),
        ),
        kitty_windows_of(Json::Array(a + b)) == kitty_windows_of(Json::Array(a))
            + kitty_windows_of(Json::Array(b)),
{
    lemma_elements_keep_order(a, b, "tabs"@);
    lemma_elements_keep_order(
        all_member_elements(a, "tabs"@),
        all_member_elements(b, "tabs"@),
        "windows"@,
    );
    assert(kitty_windows_of(Json::Array(a + b)) =~= kitty_windows_of(Json::Array(a))
        + kitty_windows_of(Json::Array(b)));
}

proof fn lemma_elements_keep_order(a: Seq<Json>, b: Seq<Json>, key: Seq<char>)
    ensures
        all_member_elements(a + b, key) == all_member_elements(a, key) + all_member_elements(
            b,
            key,
        ),
{
    let f = |v: Json| member_elements(v, key);
    assert((a + b).map_values(f) =~= a.map_values(f) + b.map_values(f));
    vstd::seq_lib::lemma_flatten_concat(a.map_values(f), b.map_values(f));
}

proof fn lemma_elements_of_one(v: Json, key: Seq<char>)
    ensures
        all_member_elements(seq![v], key) == member_elements(v, key),
{
    let f = |v: Json| member_elements(v, key);
    let none = Seq::<Seq<Json>>::empty();
    none.lemma_flatten_push(member_elements(v, key));
    assert(seq![v].map_values(f) =~= none.push(member_elements(v, key)));
    assert(none.flatten() =~= Seq::<Json>::empty());
    assert(none.flatten() + member_elements(v, key) =~= member_elements(v, key));
}

/// The windows of one tab of one OS window are the elements of its list of windows, and
/// what is no list of OS windows holds none.
pub proof fn lemma_windows_of_a_tab(os_window: Json, tab: Json, windows: Seq<Json>, other: Json)
    requires
        os_window.member("tabs"@) == Some(Json::Array(seq![tab])),
        tab.member("windows"@) == Some(Json::Array(windows)),
        !(other is Array),
    ensures
        windows_in(Json::Array(seq![os_window])) == windows,
        windows_in(other).len() == 0,
        kitty_windows_of(Json::Array(seq![os_window])) == windows.map_values(
            |w: Json| kitty_window_of(w),
        ),
{
    lemma_elements_of_one(os_window, "tabs"@);
    lemma_elements_of_one(tab, "windows"@);
    assert(kitty_windows_of(Json::Array(seq![os_window])) =~= windows.map_values(
        |w: Json| kitty_window_of(w),
    ));
}

/// A slot is occupied exactly where a window's variable is its number.
pub proof fn lemma_occupied_slots(windows: Seq<KittyWindowView>, w: KittyWindowView, n: usize)
    ensures
        occupied(windows.push(w), n) <==> occupied(windows, n) || (w.slot is Some
            && text::usize_of(w.slot->0) == Some(n)),
        !occupied(Seq::empty(), n),
{
    let all = windows.push(w);
    if occupied(windows, n) {
        let i = choose|i: int|
            0 <= i < windows.len() && slot_of(#[trigger] windows[i]) == Some(n);
        assert(slot_of(all[i]) == Some(n));
    }
    if occupied(all, n) {
        let i = choose|i: int| 0 <= i < all.len() && slot_of(#[trigger] all[i]) == Some(n);
        if i < windows.len() {
            assert(slot_of(windows[i]) == Some(n));
        }
    }
    if slot_of(w) == Some(n) {
        assert(slot_of(all[windows.len() as int]) == Some(n));
    }
}

/// The lowest free slot: the slots before it are taken, it is not, and there is none
/// exactly where all eight are taken.
pub proof fn lemma_lowest_free_slot(windows: Seq<KittyWindowView>, r: Option<usize>)
    requires
        is_lowest_free_slot(windows, r),
    ensures
        r matches Some(n) ==> 1 <= n <= 8 && !occupied(windows, n),
        r matches Some(n) ==> forall|m: usize| 1 <= m < n ==> #[trigger] occupied(windows, m),
        r is None <==> forall|m: usize| 1 <= m <= 8 ==> #[trigger] occupied(windows, m),
{
}

/// The view of a window holds its fields, and lists of windows have the view of each at
/// its place.
pub proof fn lemma_views_of_windows(a: Seq<KittyWindow>, b: Seq<ClaudeWindow>, i: int)
    ensures
        kitty_window_views(a).len() == a.len(),
        0 <= i < a.len() ==> {
            let w = kitty_window_views(a)[i];
            w.id == a[i].id && w.cwd == string_view(a[i].cwd) && w.slot == string_view(a[i].slot)
        },
        claude_window_views(b).len() == b.len(),
        0 <= i < b.len() ==> {
            let w = claude_window_views(b)[i];
            w.id == b[i].id && w.cwd == b[i].cwd@ && w.slot_num == b[i].slot_num
        },
{
}

} // verus!
