//! Waiting for PulseAudio: how often to look at it, and what to make of what it says.
use crate::defaults;
use crate::text::{string_view, text_view};
use vstd::prelude::*;
use vstd::string::*;

verus! {

/// How far a connection to PulseAudio has come.
#[derive(Debug, Clone, Copy, PartialEq, Eq, Structural)]
pub enum ContextState {
    /// It is being made.
    Pending,
    Ready,
    Failed,
    Terminated,
}

/// Why PulseAudio could not be asked.
#[derive(Debug)]
pub enum PulseError {
    MainloopFailed,
    ContextFailed,
    Timeout,
    NoDefaultSource,
    /// There is no information on this source.
    NoSourceInfo(String),
    /// There is no description of this source.
    NoDescription(String),
    /// There is no source of this name.
    SourceNotFound(String),
    NoDefaultName,
}

/// What an error says.
pub enum PulseErrorView {
    MainloopFailed,
    ContextFailed,
    Timeout,
    NoDefaultSource,
    NoSourceInfo(Seq<char>),
    NoDescription(Seq<char>),
    SourceNotFound(Seq<char>),
    NoDefaultName,
}

impl View for PulseError {
    type V = PulseErrorView;

    open spec fn view(&self) -> PulseErrorView {
        match *self {
            PulseError::MainloopFailed => PulseErrorView::MainloopFailed,
            PulseError::ContextFailed => PulseErrorView::ContextFailed,
            PulseError::Timeout => PulseErrorView::Timeout,
            PulseError::NoDefaultSource => PulseErrorView::NoDefaultSource,
            PulseError::NoSourceInfo(s) => PulseErrorView::NoSourceInfo(s@),
            PulseError::NoDescription(s) => PulseErrorView::NoDescription(s@),
            PulseError::SourceNotFound(s) => PulseErrorView::SourceNotFound(s@),
            PulseError::NoDefaultName => PulseErrorView::NoDefaultName,
        }
    }
}

impl PulseErrorView {
    /// The error in words.
    pub open spec fn message(self) -> Seq<char> {
        match self {
            PulseErrorView::MainloopFailed => "PulseAudio mainloop failed"@,
            PulseErrorView::ContextFailed => "PulseAudio context failed"@,
            PulseErrorView::Timeout => {
                "Timeout waiting for PulseAudio context to become ready"@
            },
            PulseErrorView::NoDefaultSource => {
                "Failed to get default source name from PulseAudio"@
            },
            PulseErrorView::NoSourceInfo(s) => "Failed to get source info for '"@ + s + "'"@,
            PulseErrorView::NoDescription(s) => {
                "Could not get description for source '"@ + s + "'"@
            },
            PulseErrorView::SourceNotFound(s) => "Audio source '"@ + s + "' not found"@,
            PulseErrorView::NoDefaultName => "Could not get default source name"@,
        }
    }
}

impl PulseError {
    /// The error in words.
    pub fn message(&self) -> (r: String)
        ensures
            r@ == self@.message(),
    {
        match self {
            PulseError::MainloopFailed => "PulseAudio mainloop failed".to_owned(),
            PulseError::ContextFailed => "PulseAudio context failed".to_owned(),
            PulseError::Timeout => {
                "Timeout waiting for PulseAudio context to become ready".to_owned()
            },
            PulseError::NoDefaultSource => {
                "Failed to get default source name from PulseAudio".to_owned()
            },
            PulseError::NoSourceInfo(s) => {
                "Failed to get source info for '".to_owned().concat(s.as_str()).concat("'")
            },
            PulseError::NoDescription(s) => {
                "Could not get description for source '".to_owned().concat(s.as_str()).concat("'")
            },
            PulseError::SourceNotFound(s) => {
                "Audio source '".to_owned().concat(s.as_str()).concat("' not found")
            },
            PulseError::NoDefaultName => "Could not get default source name".to_owned(),
        }
    }
}

/// What to do while a connection is being made.
#[derive(Debug)]
pub enum Wait {
    Ready,
    /// Sleep, and look again.
    Again,
    Failed(PulseError),
}

/// What a wait says.
pub enum WaitView {
    Ready,
    Again,
    Failed(PulseErrorView),
}

impl View for Wait {
    type V = WaitView;

    open spec fn view(&self) -> WaitView {
        match *self {
            Wait::Ready => WaitView::Ready,
            Wait::Again => WaitView::Again,
            Wait::Failed(e) => WaitView::Failed(e@),
        }
    }
}

/// What to do about a connection after `looks` looks at it.
pub open spec fn wait_of(looks: int, state: ContextState) -> WaitView {
    if looks >= 100 {
        WaitView::Failed(PulseErrorView::Timeout)
    } else {
        match state {
            ContextState::Ready => WaitView::Ready,
            ContextState::Failed => WaitView::Failed(PulseErrorView::ContextFailed),
            ContextState::Terminated => WaitView::Failed(PulseErrorView::ContextFailed),
            ContextState::Pending => WaitView::Again,
        }
    }
}

/// What to do about a connection after `looks` looks at it.
pub fn wait_for_context_ready(looks: u32, state: ContextState) -> (r: Wait)
    ensures
        r@ == wait_of(looks as int, state),
{
    if looks >= defaults::PULSE_READY_MAX_ITERATIONS {
        return Wait::Failed(PulseError::Timeout);
    }
    match state {
        ContextState::Ready => Wait::Ready,
        ContextState::Failed => Wait::Failed(PulseError::ContextFailed),
        ContextState::Terminated => Wait::Failed(PulseError::ContextFailed),
        ContextState::Pending => Wait::Again,
    }
}

/// Waiting ends: after a hundred looks there is nothing to wait for.
pub proof fn lemma_waiting_ends(looks: int, state: ContextState)
    requires
        looks >= 100,
    ensures
        !(wait_of(looks, state) is Again),
{
}

/// What to do about a connection after a turn of the main loop, which may have ended.
pub open spec fn connect_of(alive: bool, state: ContextState) -> WaitView {
    if !alive {
        WaitView::Failed(PulseErrorView::MainloopFailed)
    } else {
        match state {
            ContextState::Ready => WaitView::Ready,
            ContextState::Pending => WaitView::Again,
            ContextState::Failed => WaitView::Failed(PulseErrorView::ContextFailed),
            ContextState::Terminated => WaitView::Failed(PulseErrorView::ContextFailed),
        }
    }
}

/// What to do about a connection after a turn of the main loop.
pub fn connect(alive: bool, state: ContextState) -> (r: Wait)
    ensures
        r@ == connect_of(alive, state),
{
    if !alive {
        return Wait::Failed(PulseError::MainloopFailed);
    }
    match state {
        ContextState::Ready => Wait::Ready,
        ContextState::Pending => Wait::Again,
        ContextState::Failed => Wait::Failed(PulseError::ContextFailed),
        ContextState::Terminated => Wait::Failed(PulseError::ContextFailed),
    }
}

/// What a query learns from one turn of the main loop.
#[derive(Debug)]
pub struct Turn {
    /// The main loop still runs.
    pub alive: bool,
    pub context: ContextState,
    /// The name of the default source, once it is known.
    pub name: Option<String>,
    /// The index of the source and whether it is muted, once they are known.
    pub info: Option<(u32, bool)>,
}

/// What a turn says.
pub struct TurnView {
    pub alive: bool,
    pub context: ContextState,
    pub name: Option<Seq<char>>,
    pub info: Option<(u32, bool)>,
}

impl View for Turn {
    type V = TurnView;

    open spec fn view(&self) -> TurnView {
        TurnView {
            alive: self.alive,
            context: self.context,
            name: string_view(self.name),
            info: self.info,
        }
    }
}

/// A query for the default source: first its name, then its index and whether it
/// is muted.
#[derive(Debug)]
pub enum SourceQuery {
    Connecting,
    /// The name was asked for, this many turns ago.
    AwaitName(u32),
    /// The source of this name was asked for, this many turns ago.
    AwaitInfo(String, u32),
    Found(u32, bool),
    Failed(PulseError),
}

/// What a query says.
pub enum QueryView {
    Connecting,
    AwaitName(int),
    AwaitInfo(Seq<char>, int),
    Found(u32, bool),
    Failed(PulseErrorView),
}

impl View for SourceQuery {
    type V = QueryView;

    open spec fn view(&self) -> QueryView {
        match *self {
            SourceQuery::Connecting => QueryView::Connecting,
            SourceQuery::AwaitName(n) => QueryView::AwaitName(n as int),
            SourceQuery::AwaitInfo(s, n) => QueryView::AwaitInfo(s@, n as int),
            SourceQuery::Found(i, m) => QueryView::Found(i, m),
            SourceQuery::Failed(e) => QueryView::Failed(e@),
        }
    }
}

impl QueryView {
    /// A query that waits has not waited for fifty turns yet.
    pub open spec fn wf(self) -> bool {
        match self {
            QueryView::AwaitName(n) => 0 <= n < 50,
            QueryView::AwaitInfo(_, n) => 0 <= n < 50,
            _ => true,
        }
    }

    /// Whether the query goes on.
    pub open spec fn is_open(self) -> bool {
        self is Connecting || self is AwaitName || self is AwaitInfo
    }

    /// The query after a turn. An answer counts even where the main loop ended with
    /// it, and without one the query gives up after fifty turns.
    pub open spec fn after(self, turn: TurnView) -> Self {
        match self {
            QueryView::Connecting => match connect_of(turn.alive, turn.context) {
                WaitView::Ready => QueryView::AwaitName(0),
                WaitView::Again => QueryView::Connecting,
                WaitView::Failed(e) => QueryView::Failed(e),
            },
            QueryView::AwaitName(n) => match turn.name {
                Some(name) => QueryView::AwaitInfo(name, 0),
                None => if turn.alive && n + 1 < 50 {
                    QueryView::AwaitName(n + 1)
                } else {
                    QueryView::Failed(PulseErrorView::NoDefaultSource)
                },
            },
            QueryView::AwaitInfo(name, n) => match turn.info {
                Some((index, muted)) => QueryView::Found(index, muted),
                None => if turn.alive && n + 1 < 50 {
                    QueryView::AwaitInfo(name, n + 1)
                } else {
                    QueryView::Failed(PulseErrorView::NoSourceInfo(name))
                },
            },
            QueryView::Found(_, _) => self,
            QueryView::Failed(_) => self,
        }
    }

    /// How many turns a query waits at most from here, once the connection is made.
    pub open spec fn turns_left(self) -> int {
        match self {
            QueryView::AwaitName(n) => 100 - n,
            QueryView::AwaitInfo(_, n) => 50 - n,
            _ => 0,
        }
    }
}

impl SourceQuery {
    pub fn new() -> (r: Self)
        ensures
            r@ == QueryView::Connecting,
    {
        SourceQuery::Connecting
    }

    /// The query after a turn of the main loop.
    pub fn after(self, turn: Turn) -> (r: Self)
        requires
            self@.wf(),
        ensures
            r@ == self@.after(turn@),
            r@.wf(),
    {
        match self {
            SourceQuery::Connecting => match connect(turn.alive, turn.context) {
                Wait::Ready => SourceQuery::AwaitName(0),
                Wait::Again => SourceQuery::Connecting,
                Wait::Failed(e) => SourceQuery::Failed(e),
            },
            SourceQuery::AwaitName(n) => match turn.name {
                Some(name) => SourceQuery::AwaitInfo(name, 0),
                None => if turn.alive && n + 1 < 50 {
                    SourceQuery::AwaitName(n + 1)
                } else {
                    SourceQuery::Failed(PulseError::NoDefaultSource)
                },
            },
            SourceQuery::AwaitInfo(name, n) => match turn.info {
                Some((index, muted)) => SourceQuery::Found(index, muted),
                None => if turn.alive && n + 1 < 50 {
                    SourceQuery::AwaitInfo(name, n + 1)
                } else {
                    SourceQuery::Failed(PulseError::NoSourceInfo(name))
                },
            },
            SourceQuery::Found(i, m) => SourceQuery::Found(i, m),
            SourceQuery::Failed(e) => SourceQuery::Failed(e),
        }
    }
}

/// Once the connection is made a query comes to an end: every turn brings it nearer,
/// and it has at most a hundred of them.
pub proof fn lemma_queries_end(query: QueryView, turn: TurnView)
    requires
        query.wf(),
        query is AwaitName || query is AwaitInfo,
    ensures
        0 < query.turns_left() <= 100,
        query.after(turn).turns_left() < query.turns_left(),
        query.after(turn).is_open() ==> query.after(turn).turns_left() > 0,
{
}

/// Whether to go on waiting until a source is muted or unmuted, after `turns` turns.
pub open spec fn waits_for_mute(turns: int, alive: bool, done: bool) -> bool {
    alive && !done && turns < 50
}

/// Whether to go on waiting until a source is muted or unmuted, after `turns` turns.
pub fn keep_waiting_for_mute(turns: u32, alive: bool, done: bool) -> (r: bool)
    ensures
        r == waits_for_mute(turns as int, alive, done),
{
    alive && !done && turns < 50
}

/// Whether one of the sources is called `target`.
pub open spec fn has_source(sources: Seq<Option<Seq<char>>>, target: Seq<char>) -> bool {
    sources.contains(Some(target))
}

/// What each of `names` holds.
pub open spec fn name_views(names: Seq<Option<String>>) -> Seq<Option<Seq<char>>> {
    names.map_values(|n: Option<String>| string_view(n))
}

/// Whether one of the sources is called `name`.
pub fn source_exists(sources: &Vec<Option<String>>, name: &str) -> (r: bool)
    ensures
        r == has_source(name_views(sources@), name@),
{
    let ghost all = name_views(sources@);
    let mut i: usize = 0;
    while i < sources.len()
        invariant
            i <= sources@.len(),
            all == name_views(sources@),
            forall|k: int| 0 <= k < i ==> #[trigger] all[k] != Some(name@),
        decreases sources@.len() - i,
    {
        if let Some(s) = &sources[i] {
            if crate::text::same_text(s.as_str(), name) {
                assert(all[i as int] == Some(name@));
                return true;
            }
        }
        assert(all[i as int] == string_view(sources@[i as int]));
        i = i + 1;
    }
    false
}

/// The names of the sources that have one, in order.
pub open spec fn known_names(sources: Seq<Option<Seq<char>>>) -> Seq<Seq<char>>
    decreases sources.len(),
{
    if sources.len() == 0 {
        Seq::empty()
    } else {
        let before = known_names(sources.drop_last());
        match sources.last() {
            Some(name) => before.push(name),
            None => before,
        }
    }
}

/// The names of the sources that have one.
pub fn list_sources(sources: &Vec<Option<String>>) -> (r: Vec<String>)
    ensures
        crate::text::string_views(r@) == known_names(name_views(sources@)),
{
    let mut names: Vec<String> = Vec::new();
    let ghost all = name_views(sources@);
    let mut i: usize = 0;
    assert(crate::text::string_views(names@) =~= known_names(all.take(0)));
    while i < sources.len()
        invariant
            i <= sources@.len(),
            all == name_views(sources@),
            crate::text::string_views(names@) == known_names(all.take(i as int)),
        decreases sources@.len() - i,
    {
        let ghost before = names@;
        proof {
            assert(all.take(i + 1).drop_last() =~= all.take(i as int));
            assert(all.take(i + 1).last() == string_view(sources@[i as int]));
        }
        if let Some(s) = &sources[i] {
            let name = s.clone();
            names.push(name);
            assert(crate::text::string_views(names@) =~= crate::text::string_views(before).push(
                name@,
            ));
        }
        i = i + 1;
    }
    assert(all.take(i as int) =~= all);
    names
}

/// The description of a source: the last one that was given.
pub open spec fn last_known(descriptions: Seq<Option<Seq<char>>>) -> Option<Seq<char>>
    decreases descriptions.len(),
{
    if descriptions.len() == 0 {
        None
    } else if descriptions.last() is Some {
        descriptions.last()
    } else {
        last_known(descriptions.drop_last())
    }
}

/// What a result says.
pub open spec fn name_result_view(r: Result<String, PulseError>) -> Result<
    Seq<char>,
    PulseErrorView,
> {
    match r {
        Ok(s) => Ok(s@),
        Err(e) => Err(e@),
    }
}

/// The description of a source, or that there is none.
pub open spec fn description_of(
    source_name: Seq<char>,
    descriptions: Seq<Option<Seq<char>>>,
) -> Result<Seq<char>, PulseErrorView> {
    match last_known(descriptions) {
        Some(d) => Ok(d),
        None => Err(PulseErrorView::NoDescription(source_name)),
    }
}

/// The description of a source, by the descriptions that were given for it.
pub fn get_source_description(source_name: &str, descriptions: &Vec<Option<String>>) -> (r: Result<
    String,
    PulseError,
>)
    ensures
        name_result_view(r) == description_of(source_name@, name_views(descriptions@)),
{
    let ghost all = name_views(descriptions@);
    let mut i: usize = descriptions.len();
    assert(all.take(i as int) =~= all);
    while i > 0
        invariant
            i <= descriptions@.len(),
            all == name_views(descriptions@),
            last_known(all) == last_known(all.take(i as int)),
        decreases i,
    {
        proof {
            assert(all.take(i as int).drop_last() =~= all.take(i - 1));
            assert(all.take(i as int).last() == string_view(descriptions@[i - 1]));
        }
        if let Some(d) = &descriptions[i - 1] {
            return Ok(d.clone());
        }
        i = i - 1;
    }
    Err(PulseError::NoDescription(source_name.to_owned()))
}

/// The name of the default source, or that there is none.
pub fn default_name(name: Option<&str>) -> (r: Result<String, PulseError>)
    ensures
        name_result_view(r) == match text_view(name) {
            Some(n) => Ok(n),
            None => Err(PulseErrorView::NoDefaultName),
        },
{
    match name {
        Some(n) => Ok(n.to_owned()),
        None => Err(PulseError::NoDefaultName),
    }
}

/// The names of sources in a row are those of the first ones followed by those of the
/// others, and a source without a name is left out.
pub proof fn lemma_names_keep_order(
    a: Seq<Option<Seq<char>>>,
    b: Seq<Option<Seq<char>>>,
    name: Seq<char>,
)
    ensures
        known_names(a + b) == known_names(a) + known_names(b),
        known_names(seq![Some(name)]) == seq![name],
        known_names(seq![None]) == Seq::<Seq<char>>::empty(),
    decreases b.len(),
{
    assert(seq![Some(name)].drop_last() =~= Seq::<Option<Seq<char>>>::empty());
    assert(seq![None::<Seq<char>>].drop_last() =~= Seq::<Option<Seq<char>>>::empty());
    assert(known_names(Seq::<Option<Seq<char>>>::empty()) =~= Seq::<Seq<char>>::empty());
    assert(Seq::<Seq<char>>::empty().push(name) =~= seq![name]);
    if b.len() == 0 {
        assert(a + b =~= a);
        assert(known_names(a) + known_names(b) =~= known_names(a));
    } else {
        lemma_names_keep_order(a, b.drop_last(), name);
        assert((a + b).drop_last() =~= a + b.drop_last());
        assert(known_names(a + b) =~= known_names(a) + known_names(b));
    }
}

/// The description of a source is the last that was given: there is one exactly where
/// any was given, and none was given behind it.
pub proof fn lemma_last_description_counts(descriptions: Seq<Option<Seq<char>>>)
    ensures
        last_known(descriptions) is Some ==> exists|i: int|
            0 <= i < descriptions.len() && #[trigger] descriptions[i] == last_known(descriptions)
                && forall|k: int| i < k < descriptions.len() ==> (#[trigger] descriptions[k]) is None,
        last_known(descriptions) is None ==> forall|i: int|
            0 <= i < descriptions.len() ==> (#[trigger] descriptions[i]) is None,
    decreases descriptions.len(),
{
    if descriptions.len() > 0 {
        let rest = descriptions.drop_last();
        let last = descriptions.len() - 1;
        if descriptions.last() is Some {
            assert(descriptions[last] == last_known(descriptions));
        } else {
            lemma_last_description_counts(rest);
            assert(forall|i: int| 0 <= i < rest.len() ==> rest[i] == descriptions[i]);
            if last_known(rest) is Some {
                let i = choose|i: int|
                    0 <= i < rest.len() && #[trigger] rest[i] == last_known(rest) && forall|k: int|
                        i < k < rest.len() ==> (#[trigger] rest[k]) is None;
                assert(descriptions[i] == last_known(descriptions));
                assert forall|k: int| i < k < descriptions.len() implies (
                #[trigger] descriptions[k]) is None by {
                    if k < last {
                        assert(rest[k] is None);
                    }
                }
            } else {
                assert forall|i: int| 0 <= i < descriptions.len() implies (
                #[trigger] descriptions[i]) is None by {
                    if i < last {
                        assert(rest[i] is None);
                    }
                }
            }
        }
    }
}

/// A source is described by what was given for it, and where nothing was, the error
/// names it.
pub proof fn lemma_descriptions_or_errors(
    name: Seq<char>,
    descriptions: Seq<Option<Seq<char>>>,
)
    ensures
        last_known(descriptions) matches Some(d) ==> description_of(name, descriptions) == Ok::<
            Seq<char>,
            PulseErrorView,
        >(d),
        last_known(descriptions) is None ==> description_of(name, descriptions) == Err::<
            Seq<char>,
            PulseErrorView,
        >(PulseErrorView::NoDescription(name)),
        exists|i: int| #[trigger]
            crate::text::occurs_at(PulseErrorView::NoDescription(name).message(), name, i),
        exists|i: int| #[trigger]
            crate::text::occurs_at(PulseErrorView::SourceNotFound(name).message(), name, i),
        exists|i: int| #[trigger]
            crate::text::occurs_at(PulseErrorView::NoSourceInfo(name).message(), name, i),
{
    let a = PulseErrorView::NoDescription(name).message();
    let b = PulseErrorView::SourceNotFound(name).message();
    let c = PulseErrorView::NoSourceInfo(name).message();
    let i = "Could not get description for source '"@.len() as int;
    let j = "Audio source '"@.len() as int;
    let k = "Failed to get source info for '"@.len() as int;
    assert(a.subrange(i, i + name.len()) =~= name);
    assert(b.subrange(j, j + name.len()) =~= name);
    assert(c.subrange(k, k + name.len()) =~= name);
    assert(crate::text::occurs_at(a, name, i));
    assert(crate::text::occurs_at(b, name, j));
    assert(crate::text::occurs_at(c, name, k));
}

/// A source is known exactly where one of the sources is called so.
pub proof fn lemma_known_sources(sources: Seq<Option<Seq<char>>>, target: Seq<char>)
    ensures
        has_source(sources, target) <==> exists|i: int|
            0 <= i < sources.len() && #[trigger] sources[i] == Some(target),
{
    if has_source(sources, target) {
        let i = choose|i: int| 0 <= i < sources.len() && sources[i] == Some(target);
        assert(sources[i] == Some(target));
    }
}

/// While it is not too late, a connection that is ready is used, one that failed is
/// given up, and one that is being made is waited for.
pub proof fn lemma_connections_are_used_when_ready(looks: int, state: ContextState)
    requires
        looks < 100,
    ensures
        wait_of(looks, state) is Ready <==> state == ContextState::Ready,
        wait_of(looks, state) is Again <==> state == ContextState::Pending,
        connect_of(true, state) == wait_of(looks, state),
        connect_of(false, state) is Failed,
{
}

/// A query finds what it was answered: the source of the name that came back is asked
/// for, and its index and mute state are those that came back.
pub proof fn lemma_queries_find_what_was_answered(
    name: Seq<char>,
    index: u32,
    muted: bool,
    n: int,
    turn: TurnView,
)
    ensures
        turn.name == Some(name) ==> QueryView::AwaitName(n).after(turn) == QueryView::AwaitInfo(
            name,
            0,
        ),
        turn.info == Some((index, muted)) ==> QueryView::AwaitInfo(name, n).after(turn)
            == QueryView::Found(index, muted),
        turn.info is None && turn.alive && n < 49 ==> QueryView::AwaitInfo(name, n).after(turn)
            == QueryView::AwaitInfo(name, n + 1),
        turn.info is None && (!turn.alive || n >= 49) ==> QueryView::AwaitInfo(name, n).after(turn)
            == QueryView::Failed(PulseErrorView::NoSourceInfo(name)),
        turn.name is None && turn.alive && n < 49 ==> QueryView::AwaitName(n).after(turn)
            == QueryView::AwaitName(n + 1),
        turn.name is None && (!turn.alive || n >= 49) ==> QueryView::AwaitName(n).after(turn)
            is Failed,
        QueryView::Connecting.after(turn) is AwaitName <==> turn.alive && turn.context
            == ContextState::Ready,
        QueryView::Found(index, muted).after(turn) == QueryView::Found(index, muted),
{
}

/// Waiting for a source to be muted ends when it is, when the main loop ends, and after
/// fifty turns.
pub proof fn lemma_waiting_for_mute_ends(turns: int, alive: bool, done: bool)
    ensures
        done || !alive || turns >= 50 <==> !waits_for_mute(turns, alive, done),
{
}

/// The view of a list of names has each name at its place, and that of a turn holds its
/// fields.
pub proof fn lemma_views_of_names(names: Seq<Option<String>>, i: int, turn: Turn)
    ensures
        name_views(names).len() == names.len(),
        0 <= i < names.len() ==> name_views(names)[i] == string_view(names[i]),
        turn@.alive == turn.alive,
        turn@.context == turn.context,
        turn@.name == string_view(turn.name),
        turn@.info == turn.info,
{
}

/// The view of a query, a wait and a result says what they say.
pub proof fn lemma_views_of_queries(
    n: u32,
    s: String,
    index: u32,
    muted: bool,
    e: PulseError,
    r: Result<String, PulseError>,
)
    ensures
        SourceQuery::Connecting@ == QueryView::Connecting,
        SourceQuery::AwaitName(n)@ == QueryView::AwaitName(n as int),
        SourceQuery::AwaitInfo(s, n)@ == QueryView::AwaitInfo(s@, n as int),
        SourceQuery::Found(index, muted)@ == QueryView::Found(index, muted),
        SourceQuery::Failed(e)@ == QueryView::Failed(e@),
        Wait::Ready@ == WaitView::Ready,
        Wait::Again@ == WaitView::Again,
        Wait::Failed(e)@ == WaitView::Failed(e@),
        PulseError::NoSourceInfo(s)@ == PulseErrorView::NoSourceInfo(s@),
        PulseError::NoDescription(s)@ == PulseErrorView::NoDescription(s@),
        PulseError::SourceNotFound(s)@ == PulseErrorView::SourceNotFound(s@),
        r is Ok ==> name_result_view(r) == Ok::<Seq<char>, PulseErrorView>(r->Ok_0@),
        r is Err ==> name_result_view(r) == Err::<Seq<char>, PulseErrorView>(r->Err_0@),
{
}

} // verus!
