//! Commands to Kitty, and the labels of its windows.
use crate::color;
use crate::kitty::protocol::{KittyError, KittyErrorView};
use crate::text;
use crate::text::{decimal, decimal_of, pair_views, string_view, text_view};
use vstd::prelude::*;
use vstd::string::*;
use vstd::utf8::encode_utf8;

verus! {

/// The arguments with which `kitty` launches a window as a slot.
pub open spec fn launch_args_of(slot: usize, command: Seq<Seq<char>>) -> Seq<Seq<char>> {
    seq![
        "@"@,
        "launch"@,
        "--cwd=current"@,
        "--env"@,
        "STENTOR_SLOT="@ + decimal_of(slot as nat),
    ] + command
}

/// The arguments with which `kitty` closes a window.
pub open spec fn close_args_of(window_id: Seq<char>) -> Seq<Seq<char>> {
    seq!["@"@, "close-window"@, "--match"@, "id:"@ + window_id]
}

/// The arguments with which to launch a window with `command` as slot `slot`.
pub fn launch_with_slot(slot: usize, command: &[String]) -> (r: Result<Vec<String>, KittyError>)
    ensures
        r is Ok <==> 1 <= slot <= 8,
        r matches Ok(args) ==> text::string_views(args@) == launch_args_of(
            slot,
            text::string_views(command@),
        ),
        r matches Err(e) ==> e@ == KittyErrorView::SlotOutOfRange(slot),
{
    if slot < 1 || slot > 8 {
        return Err(KittyError::SlotOutOfRange(slot));
    }
    let mut args: Vec<String> = Vec::new();
    args.push("@".to_owned());
    args.push("launch".to_owned());
    args.push("--cwd=current".to_owned());
    args.push("--env".to_owned());
    args.push("STENTOR_SLOT=".to_owned().concat(decimal(slot as u64).as_str()));
    let ghost all = launch_args_of(slot, text::string_views(command@));
    let mut i: usize = 0;
    assert(text::string_views(args@) =~= all.take(5));
    while i < command.len()
        invariant
            i <= command@.len(),
            all == launch_args_of(slot, text::string_views(command@)),
            text::string_views(args@) =~= all.take(5 + i),
        decreases command@.len() - i,
    {
        let ghost before = args@;
        let arg = command[i].clone();
        args.push(arg);
        assert(text::string_views(args@) =~= text::string_views(before).push(arg@));
        assert(all[5 + i] == arg@);
        i = i + 1;
    }
    assert(all.take(5 + i) =~= all);
    Ok(args)
}

/// The arguments with which to close the window that a launch was made from.
pub fn close_args(window_id: &str) -> (r: Vec<String>)
    ensures
        text::string_views(r@) == close_args_of(window_id@),
{
    let mut args: Vec<String> = Vec::new();
    args.push("@".to_owned());
    args.push("close-window".to_owned());
    args.push("--match".to_owned());
    args.push("id:".to_owned().concat(window_id));
    assert(text::string_views(args@) =~= close_args_of(window_id@));
    args
}

/// The colours of a window.
#[derive(Debug, Clone, Copy, PartialEq, Eq, Structural)]
pub struct WindowColors {
    pub background: u32,
    pub foreground: u32,
}

/// What a command to Kitty carries.
#[derive(Debug)]
pub enum KittyPayload {
    SetColors { colors: Option<WindowColors>, match_window: Option<String>, reset: Option<bool> },
    SetUserVars { match_window: Option<String>, vars: Vec<(String, String)> },
}

/// A command to Kitty.
#[derive(Debug)]
pub struct KittyCommand {
    pub cmd: String,
    pub version: Option<Vec<u32>>,
    pub payload: Option<KittyPayload>,
}

/// What the payload of a command says.
pub enum PayloadView {
    SetColors {
        colors: Option<WindowColors>,
        match_window: Option<Seq<char>>,
        reset: Option<bool>,
    },
    SetUserVars { match_window: Option<Seq<char>>, vars: Seq<(Seq<char>, Seq<char>)> },
}

/// What a command says.
pub struct KittyCommandView {
    pub cmd: Seq<char>,
    pub version: Option<Seq<u32>>,
    pub payload: Option<PayloadView>,
}

impl View for KittyPayload {
    type V = PayloadView;

    open spec fn view(&self) -> PayloadView {
        match *self {
            KittyPayload::SetColors { colors, match_window, reset } => PayloadView::SetColors {
                colors,
                match_window: string_view(match_window),
                reset,
            },
            KittyPayload::SetUserVars { match_window, vars } => PayloadView::SetUserVars {
                match_window: string_view(match_window),
                vars: pair_views(vars@),
            },
        }
    }
}

impl View for KittyCommand {
    type V = KittyCommandView;

    open spec fn view(&self) -> KittyCommandView {
        KittyCommandView {
            cmd: self.cmd@,
            version: match self.version {
                Some(v) => Some(v@),
                None => None,
            },
            payload: match self.payload {
                Some(p) => Some(p@),
                None => None,
            },
        }
    }
}

/// What each of `commands` says.
pub open spec fn command_views(commands: Seq<KittyCommand>) -> Seq<KittyCommandView> {
    commands.map_values(|c: KittyCommand| c@)
}

/// How a command names a window.
pub open spec fn window_match(window_id: u64) -> Seq<char> {
    "id:"@ + decimal_of(window_id as nat)
}

/// A background colour and what stands out on it.
pub open spec fn window_colors_of(color: Seq<char>) -> WindowColors {
    let background = color::rgb_or_grey(encode_utf8(color));
    WindowColors {
        background: color::int_of(background) as u32,
        foreground: color::int_of(color::contrast_of(background)) as u32,
    }
}

/// The command that gives a window its colours.
pub open spec fn color_command_of(
    colors: Option<WindowColors>,
    reset: Option<bool>,
    window_id: u64,
) -> KittyCommandView {
    KittyCommandView {
        cmd: "set-colors"@,
        version: Some(seq![0u32, 26u32, 0u32]),
        payload: Some(
            PayloadView::SetColors { colors, match_window: Some(window_match(window_id)), reset },
        ),
    }
}

/// The command that sets the background of a window; an empty colour takes back
/// what was changed.
pub open spec fn background_command_of(color: Seq<char>, window_id: u64) -> KittyCommandView {
    if color.len() == 0 {
        color_command_of(None, Some(true), window_id)
    } else {
        color_command_of(Some(window_colors_of(color)), None, window_id)
    }
}

/// The command that sets a variable of a window.
pub open spec fn variable_command_of(
    name: Seq<char>,
    value: Seq<char>,
    window_id: u64,
) -> KittyCommandView {
    KittyCommandView {
        cmd: "set-user-vars"@,
        version: Some(seq![0u32, 35u32, 0u32]),
        payload: Some(
            PayloadView::SetUserVars {
                match_window: Some(window_match(window_id)),
                vars: seq![(name, value)],
            },
        ),
    }
}

fn match_id(window_id: u64) -> (r: String)
    ensures
        r@ == window_match(window_id),
{
    "id:".to_owned().concat(decimal(window_id).as_str())
}

fn version(major: u32, minor: u32, patch: u32) -> (r: Vec<u32>)
    ensures
        r@ == seq![major, minor, patch],
{
    let mut v: Vec<u32> = Vec::new();
    v.push(major);
    v.push(minor);
    v.push(patch);
    assert(v@ =~= seq![major, minor, patch]);
    v
}

fn color_command(colors: Option<WindowColors>, reset: Option<bool>, window_id: u64) -> (r:
    KittyCommand)
    ensures
        r@ == color_command_of(colors, reset, window_id),
{
    KittyCommand {
        cmd: "set-colors".to_owned(),
        version: Some(version(0, 26, 0)),
        payload: Some(
            KittyPayload::SetColors { colors, match_window: Some(match_id(window_id)), reset },
        ),
    }
}

fn window_colors(color: &str) -> (r: WindowColors)
    requires
        color::well_divided(encode_utf8(color@)),
    ensures
        r == window_colors_of(color@),
{
    let (bg_r, bg_g, bg_b) = color::hex_or_grey(color);
    let (fg_r, fg_g, fg_b) = color::get_contrast_color(color);
    WindowColors {
        background: color::rgb_to_int(bg_r, bg_g, bg_b),
        foreground: color::rgb_to_int(fg_r, fg_g, fg_b),
    }
}

/// The command that sets the background of a window; an empty colour takes back
/// what was changed.
pub fn set_background_color(color: &str, window_id: u64) -> (r: KittyCommand)
    requires
        color::well_divided(encode_utf8(color@)),
    ensures
        r@ == background_command_of(color@, window_id),
{
    if color.is_empty() {
        color_command(None, Some(true), window_id)
    } else {
        color_command(Some(window_colors(color)), None, window_id)
    }
}

/// The two commands that give a window its colours and set one of its variables.
pub fn set_window_color_and_env(
    color: &str,
    env_var_name: &str,
    env_var_value: &str,
    window_id: u64,
) -> (r: (KittyCommand, KittyCommand))
    requires
        color::well_divided(encode_utf8(color@)),
    ensures
        r.0@ == color_command_of(Some(window_colors_of(color@)), None, window_id),
        r.1@ == variable_command_of(env_var_name@, env_var_value@, window_id),
{
    let mut vars: Vec<(String, String)> = Vec::new();
    vars.push((env_var_name.to_owned(), env_var_value.to_owned()));
    assert(pair_views(vars@) =~= seq![(env_var_name@, env_var_value@)]);
    let set_variable = KittyCommand {
        cmd: "set-user-vars".to_owned(),
        version: Some(version(0, 35, 0)),
        payload: Some(
            KittyPayload::SetUserVars { match_window: Some(match_id(window_id)), vars },
        ),
    };
    (color_command(Some(window_colors(color)), None, window_id), set_variable)
}

/// Commands about different windows name different windows.
pub proof fn lemma_window_match_is_injective(a: u64, b: u64)
    requires
        window_match(a) == window_match(b),
    ensures
        a == b,
{
    let n = "id:"@.len() as int;
    assert(window_match(a).skip(n) =~= decimal_of(a as nat));
    assert(window_match(b).skip(n) =~= decimal_of(b as nat));
    text::lemma_decimal_injective(a as nat, b as nat);
}

/// What a command printed, without the white space around it; `None` where it failed.
pub fn printed(output: Option<&Vec<u8>>) -> (r: Option<String>)
    ensures
        string_view(r) == match output {
            Some(bytes) => Some(text::trim_of(text::lossy_text(bytes@))),
            None => None,
        },
{
    match output {
        Some(bytes) => Some(text::trim(text::decode_lossy(bytes).as_str()).to_owned()),
        None => None,
    }
}

/// The last component of a directory, whether a slash follows it or not.
pub open spec fn last_component_of(dir: Seq<char>) -> Seq<char> {
    text::last_part_of(text::trim_suffix_of(dir, "/"@), '/')
}

/// The label of a window: repository and branch where it is in a worktree with an
/// origin, and else the last component of its directory.
pub open spec fn worktree_label_of(
    cwd: Seq<char>,
    branch: Option<Seq<char>>,
    origin: Option<Seq<char>>,
) -> Seq<char> {
    match (branch, origin) {
        (Some(b), Some(o)) if b.len() > 0 => {
            text::trim_suffix_of(text::last_part_of(o, '/'), ".git"@) + "\n"@ + b
        },
        _ => last_component_of(cwd),
    }
}

/// The label of a window in directory `cwd`, by what `git` says of its branch and
/// its origin.
pub fn parse_worktree_label(cwd: &str, branch: Option<&str>, origin: Option<&str>) -> (r: String)
    ensures
        r@ == worktree_label_of(cwd@, text_view(branch), text_view(origin)),
{
    if let Some(b) = branch {
        if let Some(o) = origin {
            if !b.is_empty() {
                proof {
                    reveal_strlit(".git");
                }
                let repo = text::trim_suffix(text::last_part(o, '/'), ".git");
                return repo.to_owned().concat("\n").concat(b);
            }
        }
    }
    proof {
        reveal_strlit("/");
    }
    text::last_part(text::trim_suffix(cwd, "/"), '/').to_owned()
}

/// A window is launched with the command that was given, word for word, and with its
/// slot in its variable.
pub proof fn lemma_launches_carry_slot_and_command(slot: usize, command: Seq<Seq<char>>)
    ensures
        launch_args_of(slot, command).len() == 5 + command.len(),
        launch_args_of(slot, command).skip(5) == command,
        launch_args_of(slot, command)[4] == "STENTOR_SLOT="@ + decimal_of(slot as nat),
        launch_args_of(slot, command)[3] == "--env"@,
        launch_args_of(slot, command)[1] == "launch"@,
{
    assert(launch_args_of(slot, command).skip(5) =~= command);
}

/// The window that is closed is the one that was named.
pub proof fn lemma_closes_the_named_window(window_id: Seq<char>)
    ensures
        close_args_of(window_id).len() == 4,
        close_args_of(window_id)[1] == "close-window"@,
        close_args_of(window_id)[3] == "id:"@ + window_id,
{
}

/// A window gets the very colour that is written, and on it black or white, whichever
/// stands out. What writes no colour stands for grey.
pub proof fn lemma_windows_get_the_written_color(color: Seq<char>)
    ensures
        ({
            let colors = window_colors_of(color);
            &&& color::rgb_of(encode_utf8(color)) matches Some((r, g, b)) ==> {
                &&& colors.background == 65536 * r + 256 * g + b
                &&& 299 * r + 587 * g + 114 * b > 153000 ==> colors.foreground == 0
                &&& 299 * r + 587 * g + 114 * b < 153000 ==> colors.foreground == 0xffffff
            }
            &&& color::rgb_of(encode_utf8(color)) is None ==> colors.background == 0x808080
                && colors.foreground == 0xffffff
            &&& colors.foreground == 0 || colors.foreground == 0xffffff
        }),
{
    let c = color::rgb_or_grey(encode_utf8(color));
    color::lemma_brightness_decides(c);
}

/// A background command is about the window that was named. It sets its colours where a
/// colour is given, and takes back what was changed where none is.
pub proof fn lemma_background_commands(color: Seq<char>, window_id: u64)
    ensures
        ({
            let c = background_command_of(color, window_id);
            &&& c.cmd == "set-colors"@
            &&& c.payload matches Some(PayloadView::SetColors { colors, match_window, reset }) && {
                &&& match_window == Some("id:"@ + decimal_of(window_id as nat))
                &&& color.len() > 0 ==> colors == Some(window_colors_of(color)) && reset is None
                &&& color.len() == 0 ==> colors is None && reset == Some(true)
            }
        }),
{
}

/// A variable command sets that variable of that window, to that value.
pub proof fn lemma_variable_commands(name: Seq<char>, value: Seq<char>, window_id: u64)
    ensures
        ({
            let c = variable_command_of(name, value, window_id);
            &&& c.cmd == "set-user-vars"@
            &&& c.payload matches Some(PayloadView::SetUserVars { match_window, vars }) && {
                &&& match_window == Some("id:"@ + decimal_of(window_id as nat))
                &&& vars.len() == 1 && vars[0] == (name, value)
            }
        }),
{
}

/// A window in a worktree is labelled by repository and branch: the repository is the
/// last part of the origin, without `.git`.
pub proof fn lemma_labels_of_worktrees(
    cwd: Seq<char>,
    host: Seq<char>,
    repo: Seq<char>,
    branch: Seq<char>,
)
    requires
        !repo.contains('/'),
        !".git"@.is_suffix_of(repo),
        branch.len() > 0,
    ensures
        worktree_label_of(cwd, Some(branch), Some(host.push('/') + repo)) == repo + "\n"@ + branch,
        worktree_label_of(cwd, Some(branch), Some(host.push('/') + (repo + ".git"@))) == repo
            + "\n"@ + branch,
{
    text::lemma_last_part_of_file(host.push('/'), repo);
    reveal_strlit(".git");
    let name = repo + ".git"@;
    assert(!name.contains('/')) by {
        if name.contains('/') {
            let k = choose|k: int| 0 <= k < name.len() && name[k] == '/';
            if k < repo.len() {
                assert(repo[k] == '/');
            }
        }
    }
    text::lemma_last_part_of_file(host.push('/'), name);
    assert(".git"@ =~= name.subrange(name.len() - 4, name.len() as int));
    assert(name.take(name.len() - 4) =~= repo);
    assert(text::trim_suffix_of(name, ".git"@) == text::trim_suffix_of(repo, ".git"@));
}

/// Any other window is labelled by the last component of its directory, whether a slash
/// follows it or not: where there is no branch, or no origin.
pub proof fn lemma_labels_of_other_windows(
    parent: Seq<char>,
    name: Seq<char>,
    branch: Option<Seq<char>>,
    origin: Option<Seq<char>>,
)
    requires
        !name.contains('/'),
        name.len() > 0,
        origin is None || branch is None || branch->0.len() == 0,
    ensures
        worktree_label_of(parent.push('/') + name, branch, origin) == name,
        worktree_label_of((parent.push('/') + name).push('/'), branch, origin) == name,
{
    reveal_strlit("/");
    let dir = parent.push('/') + name;
    let slashed = dir.push('/');
    text::lemma_last_part_of_file(parent.push('/'), name);
    assert(!"/"@.is_suffix_of(dir)) by {
        if "/"@.is_suffix_of(dir) {
            assert(dir.subrange(dir.len() - 1, dir.len() as int)[0] == '/');
            assert(name[name.len() - 1] == '/');
        }
    }
    assert("/"@ =~= slashed.subrange(slashed.len() - 1, slashed.len() as int));
    assert(slashed.take(slashed.len() - 1) =~= dir);
    assert(text::trim_suffix_of(slashed, "/"@) == text::trim_suffix_of(dir, "/"@));
}

/// The view of a command holds its fields, and a list of commands has the view of each
/// at its place.
pub proof fn lemma_views_of_kitty_commands(
    commands: Seq<KittyCommand>,
    i: int,
    colors: Option<WindowColors>,
    window: Option<String>,
    reset: Option<bool>,
    vars: Vec<(String, String)>,
)
    ensures
        command_views(commands).len() == commands.len(),
        0 <= i < commands.len() ==> {
            let c = command_views(commands)[i];
            &&& c.cmd == commands[i].cmd@
            &&& c.version is Some <==> commands[i].version is Some
            &&& commands[i].version is Some ==> c.version->0 == commands[i].version->0@
            &&& c.payload is Some <==> commands[i].payload is Some
            &&& commands[i].payload is Some ==> c.payload->0 == commands[i].payload->0@
        },
        (KittyPayload::SetColors { colors, match_window: window, reset })@ == (
        PayloadView::SetColors { colors, match_window: string_view(window), reset }),
        (KittyPayload::SetUserVars { match_window: window, vars })@ == (PayloadView::SetUserVars {
            match_window: string_view(window),
            vars: pair_views(vars@),
        }),
{
}

/// A colour command carries the colours that were given, for the window that was named.
pub proof fn lemma_color_commands(
    colors: Option<WindowColors>,
    reset: Option<bool>,
    window_id: u64,
)
    ensures
        color_command_of(colors, reset, window_id).cmd == "set-colors"@,
        color_command_of(colors, reset, window_id).payload == Some(
            PayloadView::SetColors {
                colors,
                match_window: Some("id:"@ + decimal_of(window_id as nat)),
                reset,
            },
        ),
{
}

} // verus!
