//! The daemon's commands and its answers to them.
use crate::text::{string_view, string_views, text_view};
use vstd::prelude::*;
use vstd::string::*;

verus! {

/// Who assigns windows to slots.
#[derive(Debug, Clone, Copy, PartialEq, Eq, Structural)]
pub enum MultiSlotHandler {
    NoHandler,
    Kitty,
}

impl Default for MultiSlotHandler {
    fn default() -> (r: Self)
        ensures
            r == MultiSlotHandler::NoHandler,
    {
        MultiSlotHandler::NoHandler
    }
}

/// A command to the daemon.
#[derive(Debug, Clone, PartialEq, Eq)]
pub enum DaemonCommand {
    Start {
        unmute_source: bool,
        source: Option<String>,
        multi_slot_handler: MultiSlotHandler,
    },
    /// Stop recording and send the text to a slot, 0 being the default output.
    Stop { command_slot: usize },
    /// Stop recording and show the text for review.
    Review,
    Status,
    Quit,
}

/// What a command says.
pub enum CommandView {
    Start {
        unmute_source: bool,
        source: Option<Seq<char>>,
        multi_slot_handler: MultiSlotHandler,
    },
    Stop { command_slot: usize },
    Review,
    Status,
    Quit,
}

impl View for DaemonCommand {
    type V = CommandView;

    open spec fn view(&self) -> CommandView {
        match *self {
            DaemonCommand::Start { unmute_source, source, multi_slot_handler } => {
                CommandView::Start {
                    unmute_source,
                    source: string_view(source),
                    multi_slot_handler,
                }
            },
            DaemonCommand::Stop { command_slot } => CommandView::Stop { command_slot },
            DaemonCommand::Review => CommandView::Review,
            DaemonCommand::Status => CommandView::Status,
            DaemonCommand::Quit => CommandView::Quit,
        }
    }
}

/// An answer to a client, and whether to hang up behind it.
#[derive(Debug)]
pub struct Reply {
    pub text: String,
    pub hang_up: bool,
}

/// What an answer says.
pub struct ReplyView {
    pub text: Seq<char>,
    pub hang_up: bool,
}

impl View for Reply {
    type V = ReplyView;

    open spec fn view(&self) -> ReplyView {
        ReplyView { text: self.text@, hang_up: self.hang_up }
    }
}

/// The answer to a command, by whether it could be handed on.
pub open spec fn reply_to(command: CommandView, delivered: bool) -> ReplyView {
    if !delivered {
        ReplyView { text: "ERROR: daemon shutting down\n"@, hang_up: true }
    } else {
        match command {
            CommandView::Start { .. } => ReplyView { text: "OK: started\n"@, hang_up: false },
            CommandView::Stop { .. } => ReplyView { text: "OK: stopped\n"@, hang_up: false },
            CommandView::Review => ReplyView { text: "OK: stopped\n"@, hang_up: false },
            CommandView::Status => ReplyView { text: "OK: running\n"@, hang_up: false },
            CommandView::Quit => ReplyView { text: "OK: quitting\n"@, hang_up: true },
        }
    }
}

/// The answer to a line that is no command, by what is wrong with it.
pub open spec fn reply_to_invalid(error: Seq<char>) -> ReplyView {
    ReplyView { text: "ERROR: invalid command: "@ + error + "\n"@, hang_up: false }
}

/// Answers a command that was handed on, or that could not be.
pub fn answer(command: &DaemonCommand, delivered: bool) -> (r: Reply)
    ensures
        r@ == reply_to(command@, delivered),
{
    if !delivered {
        return Reply { text: "ERROR: daemon shutting down\n".to_owned(), hang_up: true };
    }
    let (text, hang_up) = match command {
        DaemonCommand::Start { .. } => ("OK: started\n", false),
        DaemonCommand::Stop { .. } => ("OK: stopped\n", false),
        DaemonCommand::Review => ("OK: stopped\n", false),
        DaemonCommand::Status => ("OK: running\n", false),
        DaemonCommand::Quit => ("OK: quitting\n", true),
    };
    Reply { text: text.to_owned(), hang_up }
}

/// Answers a line that is no command.
pub fn answer_invalid(error: &str) -> (r: Reply)
    ensures
        r@ == reply_to_invalid(error@),
{
    Reply {
        text: "ERROR: invalid command: ".to_owned().concat(error).concat("\n"),
        hang_up: false,
    }
}

/// The command inside a line that a client has sent.
pub fn command_line(line: &str) -> (r: &str)
    ensures
        r@ == crate::text::trim_of(line@),
{
    crate::text::trim(line)
}

/// Whether an answer says that something went wrong.
pub open spec fn is_error(response: Seq<char>) -> bool {
    "ERROR"@.is_prefix_of(response)
}

pub fn response_is_error(response: &str) -> (r: bool)
    ensures
        r == is_error(response@),
{
    crate::text::starts_with(response, "ERROR")
}

/// A client takes an answer for an error exactly where the daemon refused: where it
/// is shutting down, or the line was no command.
pub proof fn lemma_errors_are_seen(command: CommandView, delivered: bool, error: Seq<char>)
    ensures
        is_error(reply_to(command, delivered).text) <==> !delivered,
        is_error(reply_to_invalid(error).text),
{
    reveal_strlit("ERROR");
    reveal_strlit("ERROR: daemon shutting down\n");
    reveal_strlit("ERROR: invalid command: ");
    reveal_strlit("OK: started\n");
    reveal_strlit("OK: stopped\n");
    reveal_strlit("OK: running\n");
    reveal_strlit("OK: quitting\n");
    let text = reply_to(command, delivered).text;
    if delivered {
        assert(text[0] == 'O');
        if is_error(text) {
            assert("ERROR"@[0] == text.subrange(0, 5)[0]);
        }
    } else {
        assert("ERROR"@ =~= text.subrange(0, 5));
    }
    let other = reply_to_invalid(error).text;
    assert("ERROR"@ =~= other.subrange(0, 5));
}

/// What stands where the daemon's socket is to be.
#[derive(Debug, Clone, Copy, PartialEq, Eq, Structural)]
pub enum PathState {
    Absent,
    Socket,
    Other,
}

/// What to do about it.
#[derive(Debug, Clone, Copy, PartialEq, Eq, Structural)]
pub enum PathAction {
    Keep,
    Remove,
    Refuse,
}

/// Before the daemon listens: an old socket is removed, and nothing else ever is.
pub open spec fn claim_of(state: PathState) -> PathAction {
    match state {
        PathState::Absent => PathAction::Keep,
        PathState::Socket => PathAction::Remove,
        PathState::Other => PathAction::Refuse,
    }
}

pub fn claim_path(state: PathState) -> (r: PathAction)
    ensures
        r == claim_of(state),
{
    match state {
        PathState::Absent => PathAction::Keep,
        PathState::Socket => PathAction::Remove,
        PathState::Other => PathAction::Refuse,
    }
}

/// When the daemon ends: its socket is removed, and nothing else ever is.
pub open spec fn release_of(state: PathState) -> PathAction {
    if state == PathState::Socket {
        PathAction::Remove
    } else {
        PathAction::Keep
    }
}

pub fn release_path(state: PathState) -> (r: PathAction)
    ensures
        r == release_of(state),
{
    if state == PathState::Socket {
        PathAction::Remove
    } else {
        PathAction::Keep
    }
}

/// Only a socket is ever removed.
pub proof fn lemma_only_sockets_are_removed(state: PathState)
    ensures
        claim_of(state) == PathAction::Remove <==> state == PathState::Socket,
        release_of(state) == PathAction::Remove <==> state == PathState::Socket,
{
}

/// The command that starts a recording, with what the client was told before what
/// its configuration says.
pub open spec fn start_of(
    unmute_source: bool,
    source: Option<Seq<char>>,
    handler: Option<MultiSlotHandler>,
    configured_source: Option<Seq<char>>,
    configured_handler: Option<MultiSlotHandler>,
) -> CommandView {
    CommandView::Start {
        unmute_source,
        source: if source is Some {
            source
        } else {
            configured_source
        },
        multi_slot_handler: if handler is Some {
            handler->0
        } else if configured_handler is Some {
            configured_handler->0
        } else {
            MultiSlotHandler::NoHandler
        },
    }
}

/// The command that starts a recording.
pub fn start_command(
    unmute_source: bool,
    source: Option<String>,
    handler: Option<MultiSlotHandler>,
    configured_source: Option<String>,
    configured_handler: Option<MultiSlotHandler>,
) -> (r: DaemonCommand)
    ensures
        r@ == start_of(
            unmute_source,
            string_view(source),
            handler,
            string_view(configured_source),
            configured_handler,
        ),
{
    let source = match source {
        Some(s) => Some(s),
        None => configured_source,
    };
    let multi_slot_handler = match handler {
        Some(h) => h,
        None => match configured_handler {
            Some(h) => h,
            None => MultiSlotHandler::NoHandler,
        },
    };
    DaemonCommand::Start { unmute_source, source, multi_slot_handler }
}

/// The command that stops a recording: for a slot, or for review where none is given.
pub fn stop_command(slot: Option<usize>) -> (r: DaemonCommand)
    ensures
        r@ == match slot {
            Some(command_slot) => (CommandView::Stop { command_slot }),
            None => CommandView::Review,
        },
{
    match slot {
        Some(command_slot) => DaemonCommand::Stop { command_slot },
        None => DaemonCommand::Review,
    }
}

/// The list of sources as it is printed.
pub open spec fn source_lines(sources: Seq<Seq<char>>, default: Option<Seq<char>>) -> Seq<char>
    decreases sources.len(),
{
    if sources.len() == 0 {
        Seq::empty()
    } else {
        let name = sources.last();
        source_lines(sources.drop_last(), default) + "  "@ + name + if default == Some(name) {
            " (default)\n"@
        } else {
            "\n"@
        }
    }
}

/// What is printed of the sources.
pub open spec fn source_report(sources: Seq<Seq<char>>, default: Option<Seq<char>>) -> Seq<char> {
    "Available audio input sources:\n==============================\n\n"@ + if sources.len() == 0 {
        "No input sources found\n"@
    } else {
        source_lines(sources, default)
            + "\nUsage:\n  stentorctl transcribe --source=\"SOURCE_NAME\"\n\nOr add to ~/.config/stentor/config.toml:\n  [client]\n  source = \"SOURCE_NAME\"\n"@
    }
}

/// What to print of the sources.
pub fn list_sources(sources: &Vec<String>, default: Option<&str>) -> (r: String)
    ensures
        r@ == source_report(string_views(sources@), text_view(default)),
{
    let mut lines = String::new();
    let ghost all = string_views(sources@);
    let mut i: usize = 0;
    assert(lines@ =~= source_lines(all.take(0), text_view(default)));
    while i < sources.len()
        invariant
            i <= sources@.len(),
            all == string_views(sources@),
            lines@ == source_lines(all.take(i as int), text_view(default)),
        decreases sources@.len() - i,
    {
        let name = sources[i].as_str();
        proof {
            assert(all.take(i + 1).drop_last() =~= all.take(i as int));
            assert(all.take(i + 1).last() == name@);
        }
        let is_default = match default {
            Some(d) => crate::text::same_text(d, name),
            None => false,
        };
        lines.append("  ");
        lines.append(name);
        lines.append(
            if is_default {
                " (default)\n"
            } else {
                "\n"
            },
        );
        i = i + 1;
    }
    assert(all.take(i as int) =~= all);
    let title =
        "Available audio input sources:\n==============================\n\n".to_owned();
    if sources.len() == 0 {
        title.concat("No input sources found\n")
    } else {
        let usage =
            "\nUsage:\n  stentorctl transcribe --source=\"SOURCE_NAME\"\n\nOr add to ~/.config/stentor/config.toml:\n  [client]\n  source = \"SOURCE_NAME\"\n";
        title.concat(lines.concat(usage).as_str())
    }
}

/// Commands that were handed on are answered each by its own kind, and only the last
/// word, to quit, ends the connection. A line that is no command is told what is wrong
/// with it, and the connection stays.
pub proof fn lemma_answers_tell_commands_apart(command: CommandView, error: Seq<char>)
    ensures
        reply_to(command, true).hang_up <==> command is Quit,
        reply_to(command, false).hang_up,
        command is Start ==> reply_to(command, true).text == "OK: started\n"@,
        command is Stop || command is Review ==> reply_to(command, true).text == "OK: stopped\n"@,
        command is Status ==> reply_to(command, true).text == "OK: running\n"@,
        command is Quit ==> reply_to(command, true).text == "OK: quitting\n"@,
        !reply_to_invalid(error).hang_up,
        exists|i: int| #[trigger] crate::text::occurs_at(reply_to_invalid(error).text, error, i),
        reply_to_invalid(error).text.len() == reply_to_invalid(Seq::empty()).text.len()
            + error.len(),
{
    let n = "ERROR: invalid command: "@.len() as int;
    let text = reply_to_invalid(error).text;
    assert(text.subrange(n, n + error.len()) =~= error);
    assert(crate::text::occurs_at(text, error, n));
}

/// What a client was told counts before what its configuration says, for the source and
/// for the handler each, and without either there is no handler.
pub proof fn lemma_arguments_count_first(
    unmute_source: bool,
    source: Option<Seq<char>>,
    handler: Option<MultiSlotHandler>,
    configured_source: Option<Seq<char>>,
    configured_handler: Option<MultiSlotHandler>,
)
    ensures
        start_of(unmute_source, source, handler, configured_source, configured_handler) matches (
        CommandView::Start { unmute_source: u, source: s, multi_slot_handler: h }) && {
            &&& u == unmute_source
            &&& source is Some ==> s == source
            &&& source is None ==> s == configured_source
            &&& handler is Some ==> h == handler->0
            &&& handler is None && configured_handler is Some ==> h == configured_handler->0
            &&& handler is None && configured_handler is None ==> h == MultiSlotHandler::NoHandler
        },
{
}

/// Sources are listed each on a line of its own, in order, and the default one is
/// marked.
pub proof fn lemma_sources_are_listed(
    a: Seq<Seq<char>>,
    b: Seq<Seq<char>>,
    name: Seq<char>,
    default: Option<Seq<char>>,
)
    ensures
        source_lines(a + b, default) == source_lines(a, default) + source_lines(b, default),
        default == Some(name) ==> source_lines(seq![name], default) == "  "@ + name
            + " (default)\n"@,
        default != Some(name) ==> source_lines(seq![name], default) == "  "@ + name + "\n"@,
    decreases b.len(),
{
    let one = seq![name];
    assert(one.drop_last() =~= Seq::<Seq<char>>::empty());
    assert(source_lines(one.drop_last(), default) =~= Seq::<char>::empty());
    assert(Seq::<char>::empty() + "  "@ =~= "  "@);
    if b.len() == 0 {
        assert(a + b =~= a);
        assert(source_lines(a, default) + source_lines(b, default) =~= source_lines(a, default));
    } else {
        lemma_sources_are_listed(a, b.drop_last(), name, default);
        assert((a + b).drop_last() =~= a + b.drop_last());
        assert(source_lines(a + b, default) =~= source_lines(a, default) + source_lines(
            b,
            default,
        ));
    }
}

/// The report holds all lines of the list, where there is any source.
pub proof fn lemma_report_holds_the_list(sources: Seq<Seq<char>>, default: Option<Seq<char>>)
    ensures
        sources.len() > 0 ==> exists|i: int| #[trigger]
            crate::text::occurs_at(
                source_report(sources, default),
                source_lines(sources, default),
                i,
            ),
        sources.len() == 0 ==> "No input sources found\n"@.is_suffix_of(
            source_report(sources, default),
        ),
{
    let report = source_report(sources, default);
    let lines = source_lines(sources, default);
    let n = "Available audio input sources:\n==============================\n\n"@.len() as int;
    if sources.len() > 0 {
        assert(report.subrange(n, n + lines.len()) =~= lines);
        assert(crate::text::occurs_at(report, lines, n));
    } else {
        let none = "No input sources found\n"@;
        assert(none =~= report.subrange(report.len() - none.len(), report.len() as int));
    }
}

/// The view of a command and of an answer says what they say.
pub proof fn lemma_views_of_commands(
    unmute_source: bool,
    source: Option<String>,
    handler: MultiSlotHandler,
    slot: usize,
    reply: Reply,
)
    ensures
        (DaemonCommand::Start { unmute_source, source, multi_slot_handler: handler })@ == (
        CommandView::Start {
            unmute_source,
            source: string_view(source),
            multi_slot_handler: handler,
        }),
        (DaemonCommand::Stop { command_slot: slot })@ == (CommandView::Stop {
            command_slot: slot,
        }),
        DaemonCommand::Review@ == CommandView::Review,
        DaemonCommand::Status@ == CommandView::Status,
        DaemonCommand::Quit@ == CommandView::Quit,
        reply@.text == reply.text@,
        reply@.hang_up == reply.hang_up,
{
}

/// An answer is an error exactly where its first five characters say so.
pub proof fn lemma_what_an_error_is(response: Seq<char>)
    ensures
        is_error(response) <==> response.len() >= 5 && response[0] == 'E' && response[1] == 'R'
            && response[2] == 'R' && response[3] == 'O' && response[4] == 'R',
{
    reveal_strlit("ERROR");
    if is_error(response) {
        let head = response.subrange(0, 5);
        assert(head == "ERROR"@);
        assert(head[0] == response[0] && head[1] == response[1] && head[2] == response[2]
            && head[3] == response[3] && head[4] == response[4]);
    } else if response.len() >= 5 && response[0] == 'E' && response[1] == 'R' && response[2] == 'R'
        && response[3] == 'O' && response[4] == 'R' {
        assert(response.subrange(0, 5) =~= "ERROR"@);
    }
}

} // verus!
