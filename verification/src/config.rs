//! Configuration.
use crate::daemon::MultiSlotHandler;
use crate::defaults;
use crate::text::{same_text, string_view, string_views, strip_prefix};
use regex::Regex;
use vstd::prelude::*;
use vstd::string::*;

verus! {

/// `regex::Regex`, a compiled regular expression. Its pattern is `regex_pattern`.
#[verifier::external_type_specification]
#[verifier::external_body]
pub struct ExRegex(regex::Regex);

/// `regex::Error`, why a pattern is no regular expression.
#[verifier::external_type_specification]
#[verifier::external_body]
pub struct ExRegexError(regex::Error);

/// The pattern that a regular expression was compiled from.
pub uninterp spec fn regex_pattern(r: regex::Regex) -> Seq<char>;

/// Whether `Regex::new` takes a pattern.
pub uninterp spec fn regex_valid(pattern: Seq<char>) -> bool;

/// Whether `Regex::is_match` finds a match of a pattern anywhere in a text.
pub uninterp spec fn regex_matches(pattern: Seq<char>, text: Seq<char>) -> bool;

/// `Regex::new`: compiles a pattern, or says what is wrong with it. Which patterns
/// it takes depends on the pattern alone.
#[verifier::external_body]
fn compile(pattern: &str) -> (r: Result<Regex, regex::Error>)
    ensures
        r is Ok <==> regex_valid(pattern@),
        r matches Ok(re) ==> regex_pattern(re) == pattern@,
{
    Regex::new(pattern)
}

/// `Regex::is_match`: whether the text holds a match, which depends on the pattern
/// and the text alone.
#[verifier::external_body]
fn is_match(re: &Regex, text: &str) -> (r: bool)
    ensures
        r == regex_matches(regex_pattern(*re), text@),
{
    re.is_match(text)
}

/// `Regex::clone`: a regular expression with the same pattern.
pub assume_specification[ <regex::Regex as Clone>::clone ](re: &regex::Regex) -> (r: regex::Regex)
    ensures
        regex_pattern(r) == regex_pattern(*re),
;

/// What a pattern for windows looks at.
#[derive(Debug, Clone, Copy, PartialEq, Eq, Structural)]
pub enum MatcherKind {
    Cmd,
    HyprTitle,
    HyprClass,
}

/// A pattern that assigns windows to slots.
#[derive(Debug)]
pub enum SlotMatcher {
    /// Matches the name of the foreground process: `cmd:name`, or just `name`.
    Cmd(String),
    /// Matches the title of a Hyprland window: `hypr-title:regex`.
    HyprTitle(Regex),
    /// Matches the class of a Hyprland window: `hypr-class:regex`.
    HyprClass(Regex),
}

/// What a pattern holds.
pub struct MatcherView {
    pub kind: MatcherKind,
    pub pattern: Seq<char>,
}

impl View for SlotMatcher {
    type V = MatcherView;

    open spec fn view(&self) -> MatcherView {
        match *self {
            SlotMatcher::Cmd(s) => MatcherView { kind: MatcherKind::Cmd, pattern: s@ },
            SlotMatcher::HyprTitle(r) => MatcherView {
                kind: MatcherKind::HyprTitle,
                pattern: regex_pattern(r),
            },
            SlotMatcher::HyprClass(r) => MatcherView {
                kind: MatcherKind::HyprClass,
                pattern: regex_pattern(r),
            },
        }
    }
}

impl Clone for SlotMatcher {
    fn clone(&self) -> (r: Self)
        ensures
            r@ == self@,
    {
        match self {
            SlotMatcher::Cmd(s) => SlotMatcher::Cmd(s.clone()),
            SlotMatcher::HyprTitle(re) => SlotMatcher::HyprTitle(re.clone()),
            SlotMatcher::HyprClass(re) => SlotMatcher::HyprClass(re.clone()),
        }
    }
}

/// Why a text is no pattern for windows.
#[derive(Debug)]
pub struct MatcherError {
    pub kind: MatcherKind,
    pub pattern: String,
}

impl View for MatcherError {
    type V = MatcherView;

    open spec fn view(&self) -> MatcherView {
        MatcherView { kind: self.kind, pattern: self.pattern@ }
    }
}

/// What goes before a pattern of a kind.
pub open spec fn prefix_of(kind: MatcherKind) -> Seq<char> {
    match kind {
        MatcherKind::Cmd => "cmd:"@,
        MatcherKind::HyprTitle => "hypr-title:"@,
        MatcherKind::HyprClass => "hypr-class:"@,
    }
}

/// The kind and the pattern that a text stands for. Without a prefix it is the name
/// of a process.
pub open spec fn matcher_of(s: Seq<char>) -> MatcherView {
    if prefix_of(MatcherKind::Cmd).is_prefix_of(s) {
        MatcherView { kind: MatcherKind::Cmd, pattern: s.skip("cmd:"@.len() as int) }
    } else if prefix_of(MatcherKind::HyprTitle).is_prefix_of(s) {
        MatcherView { kind: MatcherKind::HyprTitle, pattern: s.skip("hypr-title:"@.len() as int) }
    } else if prefix_of(MatcherKind::HyprClass).is_prefix_of(s) {
        MatcherView { kind: MatcherKind::HyprClass, pattern: s.skip("hypr-class:"@.len() as int) }
    } else {
        MatcherView { kind: MatcherKind::Cmd, pattern: s }
    }
}

/// Whether a pattern can be used: the name of a process always, and else a regular
/// expression.
pub open spec fn usable(m: MatcherView) -> bool {
    m.kind == MatcherKind::Cmd || regex_valid(m.pattern)
}

impl MatcherView {
    /// What an error about this pattern says.
    pub open spec fn error_message(self) -> Seq<char> {
        let what = match self.kind {
            MatcherKind::Cmd => "Invalid command pattern: "@,
            MatcherKind::HyprTitle => "Invalid regex in hypr-title pattern: "@,
            MatcherKind::HyprClass => "Invalid regex in hypr-class pattern: "@,
        };
        what + self.pattern
    }

    /// Whether the name of a process matches.
    pub open spec fn fits_cmd(self, cmd_name: Seq<char>) -> bool {
        self.kind == MatcherKind::Cmd && cmd_name == self.pattern
    }

    /// What this pattern looks at in a Hyprland window.
    pub open spec fn subject(self, title: Seq<char>, class: Seq<char>) -> Option<Seq<char>> {
        match self.kind {
            MatcherKind::Cmd => None,
            MatcherKind::HyprTitle => Some(title),
            MatcherKind::HyprClass => Some(class),
        }
    }

    /// Whether a Hyprland window matches.
    pub open spec fn fits_hyprland_window(self, title: Seq<char>, class: Seq<char>) -> bool {
        match self.subject(title, class) {
            Some(s) => regex_matches(self.pattern, s),
            None => false,
        }
    }
}

impl MatcherError {
    /// The error in words.
    pub fn message(&self) -> (r: String)
        ensures
            r@ == self@.error_message(),
    {
        let what = match self.kind {
            MatcherKind::Cmd => "Invalid command pattern: ",
            MatcherKind::HyprTitle => "Invalid regex in hypr-title pattern: ",
            MatcherKind::HyprClass => "Invalid regex in hypr-class pattern: ",
        };
        what.to_owned().concat(self.pattern.as_str())
    }
}

/// The kind and the pattern that a text stands for.
pub fn split_prefix(s: &str) -> (r: (MatcherKind, &str))
    ensures
        (MatcherView { kind: r.0, pattern: r.1@ }) == matcher_of(s@),
{
    if let Some(pattern) = strip_prefix(s, "cmd:") {
        (MatcherKind::Cmd, pattern)
    } else if let Some(pattern) = strip_prefix(s, "hypr-title:") {
        (MatcherKind::HyprTitle, pattern)
    } else if let Some(pattern) = strip_prefix(s, "hypr-class:") {
        (MatcherKind::HyprClass, pattern)
    } else {
        (MatcherKind::Cmd, s)
    }
}

impl SlotMatcher {
    /// Reads a pattern for windows.
    pub fn parse(s: &str) -> (r: Result<Self, MatcherError>)
        ensures
            r is Ok <==> usable(matcher_of(s@)),
            r matches Ok(m) ==> m@ == matcher_of(s@),
            r matches Err(e) ==> e@ == matcher_of(s@),
    {
        let (kind, pattern) = split_prefix(s);
        match kind {
            MatcherKind::Cmd => Ok(SlotMatcher::Cmd(pattern.to_owned())),
            MatcherKind::HyprTitle => match compile(pattern) {
                Ok(re) => Ok(SlotMatcher::HyprTitle(re)),
                Err(_) => Err(MatcherError { kind, pattern: pattern.to_owned() }),
            },
            MatcherKind::HyprClass => match compile(pattern) {
                Ok(re) => Ok(SlotMatcher::HyprClass(re)),
                Err(_) => Err(MatcherError { kind, pattern: pattern.to_owned() }),
            },
        }
    }

    /// Whether the name of a process matches.
    pub fn matches_cmd(&self, cmd_name: &str) -> (r: bool)
        ensures
            r == self@.fits_cmd(cmd_name@),
    {
        match self {
            SlotMatcher::Cmd(pattern) => same_text(cmd_name, pattern.as_str()),
            _ => false,
        }
    }

    /// Whether this pattern looks at Hyprland windows.
    pub fn is_hyprland_matcher(&self) -> (r: bool)
        ensures
            r == (self@.kind != MatcherKind::Cmd),
    {
        match self {
            SlotMatcher::Cmd(_) => false,
            _ => true,
        }
    }

    /// Whether a Hyprland window matches.
    pub fn matches_hyprland_window(&self, title: &str, class: &str) -> (r: bool)
        ensures
            r == self@.fits_hyprland_window(title@, class@),
    {
        match self {
            SlotMatcher::HyprTitle(re) => is_match(re, title),
            SlotMatcher::HyprClass(re) => is_match(re, class),
            SlotMatcher::Cmd(_) => false,
        }
    }
}

/// The patterns that can be used, in order; the others are left out.
pub open spec fn matchers_of(patterns: Seq<Seq<char>>) -> Seq<MatcherView>
    decreases patterns.len(),
{
    if patterns.len() == 0 {
        Seq::empty()
    } else {
        let before = matchers_of(patterns.drop_last());
        let m = matcher_of(patterns.last());
        if usable(m) {
            before.push(m)
        } else {
            before
        }
    }
}

/// What each of `matchers` holds.
pub open spec fn matcher_views(matchers: Seq<SlotMatcher>) -> Seq<MatcherView> {
    matchers.map_values(|m: SlotMatcher| m@)
}

/// Reads patterns for windows and leaves out those that cannot be used.
pub fn parse_slot_matchers(patterns: &[String]) -> (r: Vec<SlotMatcher>)
    ensures
        matcher_views(r@) == matchers_of(string_views(patterns@)),
{
    let mut out: Vec<SlotMatcher> = Vec::new();
    let ghost all = string_views(patterns@);
    let mut i: usize = 0;
    assert(matcher_views(out@) =~= matchers_of(all.take(0)));
    while i < patterns.len()
        invariant
            i <= patterns@.len(),
            all == string_views(patterns@),
            matcher_views(out@) == matchers_of(all.take(i as int)),
        decreases patterns@.len() - i,
    {
        let ghost before = out@;
        proof {
            assert(all.take(i + 1).drop_last() =~= all.take(i as int));
            assert(all.take(i + 1).last() == patterns@[i as int]@);
        }
        if let Ok(m) = SlotMatcher::parse(patterns[i].as_str()) {
            out.push(m);
            assert(matcher_views(out@) =~= matcher_views(before).push(m@));
        }
        i = i + 1;
    }
    assert(all.take(i as int) =~= all);
    out
}

/// A pattern behind its prefix is read as what it is.
pub proof fn lemma_prefixed_pattern_is_read(kind: MatcherKind, pattern: Seq<char>)
    ensures
        matcher_of(prefix_of(kind) + pattern) == (MatcherView { kind, pattern }),
{
    reveal_strlit("cmd:");
    reveal_strlit("hypr-title:");
    reveal_strlit("hypr-class:");
    let s = prefix_of(kind) + pattern;
    let n = prefix_of(kind).len() as int;
    assert(s.subrange(0, n) =~= prefix_of(kind));
    assert(s.skip(n) =~= pattern);
    if kind != MatcherKind::Cmd {
        assert(s.subrange(0, 4)[0] != "cmd:"@[0]);
    }
    if kind == MatcherKind::HyprClass {
        assert(s.subrange(0, 11)[5] != "hypr-title:"@[5]);
    }
}

/// A name without a prefix stands for the same as the name behind `cmd:`.
pub proof fn lemma_bare_name_is_a_command(name: Seq<char>)
    requires
        forall|kind: MatcherKind| !#[trigger] prefix_of(kind).is_prefix_of(name),
    ensures
        matcher_of(name) == matcher_of("cmd:"@ + name),
{
    assert(!prefix_of(MatcherKind::Cmd).is_prefix_of(name));
    assert(!prefix_of(MatcherKind::HyprTitle).is_prefix_of(name));
    assert(!prefix_of(MatcherKind::HyprClass).is_prefix_of(name));
    lemma_prefixed_pattern_is_read(MatcherKind::Cmd, name);
}

/// A pattern is for processes or for Hyprland windows, never for both.
pub proof fn lemma_matchers_look_at_one_thing(
    m: MatcherView,
    cmd_name: Seq<char>,
    title: Seq<char>,
    class: Seq<char>,
)
    ensures
        !(m.fits_cmd(cmd_name) && m.fits_hyprland_window(title, class)),
{
}

fn default_kitty_base_background() -> (r: String)
    ensures
        r@ == "#1e1e2e"@,
{
    defaults::KITTY_BASE_BACKGROUND.to_owned()
}

fn default_slot_id_font() -> (r: String)
    ensures
        r@ == "monospace:bold"@,
{
    defaults::SLOT_ID_FONT.to_owned()
}

fn default_model() -> (r: String)
    ensures
        r@ == "base"@,
{
    defaults::MODEL.to_owned()
}

fn default_language() -> (r: String)
    ensures
        r@ == "en"@,
{
    defaults::LANGUAGE.to_owned()
}

fn default_chunk_size() -> (r: usize)
    ensures
        r == 1024,
{
    defaults::CHUNK_SIZE
}

fn default_socket_name() -> (r: String)
    ensures
        r@ == "stentor.sock"@,
{
    defaults::SOCKET_NAME.to_owned()
}

/// How Kitty windows are used.
#[derive(Debug, Clone)]
pub struct KittyConfig {
    /// A command that prints the background colour.
    pub background_color_cmd: Option<String>,
    pub base_background_color: String,
    pub output_command: Option<String>,
    /// Patterns that assign windows to slots.
    pub slot_matches: Vec<String>,
    /// The font for the number of a slot.
    pub slot_id_font: String,
}

impl Default for KittyConfig {
    fn default() -> (r: Self)
        ensures
            r.background_color_cmd is None,
            r.base_background_color@ == "#1e1e2e"@,
            r.output_command is None,
            r.slot_matches@.len() == 0,
            r.slot_id_font@ == "monospace:bold"@,
    {
        KittyConfig {
            background_color_cmd: None,
            base_background_color: default_kitty_base_background(),
            output_command: None,
            slot_matches: Vec::new(),
            slot_id_font: default_slot_id_font(),
        }
    }
}

/// What the client does unless told otherwise.
#[derive(Debug, Clone)]
pub struct ClientConfig {
    pub source: Option<String>,
    pub multi_slot_handler: Option<MultiSlotHandler>,
}

impl Default for ClientConfig {
    fn default() -> (r: Self)
        ensures
            r.source is None,
            r.multi_slot_handler is None,
    {
        ClientConfig { source: None, multi_slot_handler: None }
    }
}

/// The times and levels of a recording, each a number of type `F`.
#[derive(Debug, Clone, Copy)]
pub struct Timing<F> {
    pub silence_duration: F,
    pub silence_threshold: F,
    pub min_speech_duration: F,
    pub periodic_transcription_interval: F,
    pub transcription_window: F,
    pub transcription_lag: F,
}

/// How the daemon works. Times and levels are numbers of type `F`.
#[derive(Debug, Clone)]
pub struct Config<F> {
    pub model: String,
    pub language: String,
    pub timing: Timing<F>,
    pub chunk_size: usize,
    pub output_command: Option<String>,
    pub socket_name: String,
}

/// What the daemon was told on its command line.
#[derive(Debug)]
pub struct Overrides<F> {
    pub model: Option<String>,
    pub language: Option<String>,
    pub output_command: Option<String>,
    pub silence_duration: Option<F>,
}

/// What a configuration holds.
pub struct ConfigView<F> {
    pub model: Seq<char>,
    pub language: Seq<char>,
    pub timing: Timing<F>,
    pub chunk_size: usize,
    pub output_command: Option<Seq<char>>,
    pub socket_name: Seq<char>,
}

impl<F> View for Config<F> {
    type V = ConfigView<F>;

    open spec fn view(&self) -> ConfigView<F> {
        ConfigView {
            model: self.model@,
            language: self.language@,
            timing: self.timing,
            chunk_size: self.chunk_size,
            output_command: string_view(self.output_command),
            socket_name: self.socket_name@,
        }
    }
}

impl<F> ConfigView<F> {
    /// The configuration with what the command line says in place of what it said.
    pub open spec fn overridden(self, by: Overrides<F>) -> Self {
        ConfigView {
            model: match by.model {
                Some(s) => s@,
                None => self.model,
            },
            language: match by.language {
                Some(s) => s@,
                None => self.language,
            },
            timing: match by.silence_duration {
                Some(silence_duration) => Timing { silence_duration, ..self.timing },
                None => self.timing,
            },
            output_command: match by.output_command {
                Some(s) => Some(s@),
                None => self.output_command,
            },
            ..self
        }
    }
}

/// The times and levels of a recording, in thousandths, unless told otherwise.
pub fn default_timing() -> (r: Timing<u32>)
    ensures
        r == (Timing {
            silence_duration: 2000u32,
            silence_threshold: 2u32,
            min_speech_duration: 500u32,
            periodic_transcription_interval: 1000u32,
            transcription_window: 5000u32,
            transcription_lag: 1000u32,
        }),
{
    Timing {
        silence_duration: defaults::SILENCE_DURATION_MILLIS,
        silence_threshold: defaults::SILENCE_THRESHOLD_MILLIS,
        min_speech_duration: defaults::MIN_SPEECH_DURATION_MILLIS,
        periodic_transcription_interval: defaults::PERIODIC_TRANSCRIPTION_INTERVAL_MILLIS,
        transcription_window: defaults::TRANSCRIPTION_WINDOW_MILLIS,
        transcription_lag: defaults::TRANSCRIPTION_LAG_MILLIS,
    }
}

impl<F> Config<F> {
    /// How the daemon works unless told otherwise, but for its times and levels.
    pub fn with_timing(timing: Timing<F>) -> (r: Self)
        ensures
            r@ == (ConfigView {
                model: "base"@,
                language: "en"@,
                timing,
                chunk_size: 1024,
                output_command: None,
                socket_name: "stentor.sock"@,
            }),
    {
        Config {
            model: default_model(),
            language: default_language(),
            timing,
            chunk_size: default_chunk_size(),
            output_command: None,
            socket_name: default_socket_name(),
        }
    }

    /// Puts what the command line says in place of what the configuration said.
    pub fn override_with(self, by: Overrides<F>) -> (r: Self)
        ensures
            r@ == self@.overridden(by),
    {
        let mut config = self;
        if let Some(model) = by.model {
            config.model = model;
        }
        if let Some(language) = by.language {
            config.language = language;
        }
        if let Some(output_command) = by.output_command {
            config.output_command = Some(output_command);
        }
        if let Some(silence_duration) = by.silence_duration {
            config.timing.silence_duration = silence_duration;
        }
        config
    }
}

/// Patterns in a row are read as the first ones followed by the others, each that can
/// be used as itself, and the others are left out.
pub proof fn lemma_patterns_keep_order(a: Seq<Seq<char>>, b: Seq<Seq<char>>, s: Seq<char>)
    ensures
        matchers_of(a + b) == matchers_of(a) + matchers_of(b),
        usable(matcher_of(s)) ==> matchers_of(seq![s]) == seq![matcher_of(s)],
        !usable(matcher_of(s)) ==> matchers_of(seq![s]) == Seq::<MatcherView>::empty(),
    decreases b.len(),
{
    assert(seq![s].drop_last() =~= Seq::<Seq<char>>::empty());
    assert(matchers_of(seq![s].drop_last()) =~= Seq::<MatcherView>::empty());
    assert(Seq::<MatcherView>::empty().push(matcher_of(s)) =~= seq![matcher_of(s)]);
    if b.len() == 0 {
        assert(a + b =~= a);
        assert(matchers_of(a) + matchers_of(b) =~= matchers_of(a));
    } else {
        lemma_patterns_keep_order(a, b.drop_last(), s);
        assert((a + b).drop_last() =~= a + b.drop_last());
        assert(matchers_of(a + b) =~= matchers_of(a) + matchers_of(b));
    }
}

/// A pattern for processes fits the process of that very name, and can always be used.
/// A pattern for titles goes by the title alone, one for classes by the class alone, and
/// both can be used exactly where they are regular expressions.
pub proof fn lemma_what_patterns_fit(
    pattern: Seq<char>,
    cmd_name: Seq<char>,
    title: Seq<char>,
    class: Seq<char>,
)
    ensures
        matcher_of("cmd:"@ + pattern).fits_cmd(cmd_name) <==> cmd_name == pattern,
        usable(matcher_of("cmd:"@ + pattern)),
        !matcher_of("cmd:"@ + pattern).fits_hyprland_window(title, class),
        matcher_of("hypr-title:"@ + pattern).fits_hyprland_window(title, class) == regex_matches(
            pattern,
            title,
        ),
        usable(matcher_of("hypr-title:"@ + pattern)) == regex_valid(pattern),
        !matcher_of("hypr-title:"@ + pattern).fits_cmd(cmd_name),
        matcher_of("hypr-class:"@ + pattern).fits_hyprland_window(title, class) == regex_matches(
            pattern,
            class,
        ),
        usable(matcher_of("hypr-class:"@ + pattern)) == regex_valid(pattern),
        !matcher_of("hypr-class:"@ + pattern).fits_cmd(cmd_name),
{
    lemma_prefixed_pattern_is_read(MatcherKind::Cmd, pattern);
    lemma_prefixed_pattern_is_read(MatcherKind::HyprTitle, pattern);
    lemma_prefixed_pattern_is_read(MatcherKind::HyprClass, pattern);
}

/// An error about a pattern names it.
pub proof fn lemma_errors_name_the_pattern(m: MatcherView)
    ensures
        m.pattern.is_suffix_of(m.error_message()),
{
    let e = m.error_message();
    assert(m.pattern =~= e.subrange(e.len() - m.pattern.len(), e.len() as int));
}

/// The command line overrides what it names, each setting for itself, and leaves all
/// else as it was configured.
pub proof fn lemma_only_what_is_named_is_overridden<F>(config: ConfigView<F>, by: Overrides<F>)
    ensures
        ({
            let c = config.overridden(by);
            &&& by.model is Some ==> c.model == by.model->0@
            &&& by.model is None ==> c.model == config.model
            &&& by.language is Some ==> c.language == by.language->0@
            &&& by.language is None ==> c.language == config.language
            &&& by.output_command is Some ==> c.output_command == Some(by.output_command->0@)
            &&& by.output_command is None ==> c.output_command == config.output_command
            &&& by.silence_duration is Some ==> c.timing.silence_duration
                == by.silence_duration->0
            &&& by.silence_duration is None ==> c.timing == config.timing
            &&& c.timing.silence_threshold == config.timing.silence_threshold
            &&& c.timing.min_speech_duration == config.timing.min_speech_duration
            &&& c.timing.periodic_transcription_interval
                == config.timing.periodic_transcription_interval
            &&& c.timing.transcription_window == config.timing.transcription_window
            &&& c.timing.transcription_lag == config.timing.transcription_lag
            &&& c.chunk_size == config.chunk_size
            &&& c.socket_name == config.socket_name
        }),
{
}

/// The view of a pattern holds its kind and its text, and a list of patterns has the view
/// of each at its place.
pub proof fn lemma_views_of_matchers(
    matchers: Seq<SlotMatcher>,
    i: int,
    s: String,
    re: Regex,
    e: MatcherError,
)
    ensures
        matcher_views(matchers).len() == matchers.len(),
        0 <= i < matchers.len() ==> matcher_views(matchers)[i] == matchers[i]@,
        SlotMatcher::Cmd(s)@ == (MatcherView { kind: MatcherKind::Cmd, pattern: s@ }),
        SlotMatcher::HyprTitle(re)@ == (MatcherView {
            kind: MatcherKind::HyprTitle,
            pattern: regex_pattern(re),
        }),
        SlotMatcher::HyprClass(re)@ == (MatcherView {
            kind: MatcherKind::HyprClass,
            pattern: regex_pattern(re),
        }),
        e@ == (MatcherView { kind: e.kind, pattern: e.pattern@ }),
{
}

/// The view of a configuration holds its fields.
pub proof fn lemma_views_of_configs<F>(c: Config<F>)
    ensures
        c@.model == c.model@,
        c@.language == c.language@,
        c@.timing == c.timing,
        c@.chunk_size == c.chunk_size,
        c@.output_command == string_view(c.output_command),
        c@.socket_name == c.socket_name@,
{
}

} // verus!
