//! The remote control protocol: frames, responses and errors.
use crate::json;
use crate::json::{json_parsed, json_view, Json};
use crate::text;
use crate::text::{chars_of, decimal, decimal_of, find_from, position_of, text_view};
use serde_json::Value;
use vstd::prelude::*;
use vstd::string::*;

verus! {

/// Why Kitty could not be made to do something.
#[derive(Debug)]
pub enum KittyError {
    /// The response is no JSON.
    ResponseNotJson,
    /// The data inside the response are no JSON.
    DataNotJson,
    /// Kitty refused a command; this is its response.
    CommandFailed(String),
    /// Kitty refused to list its windows.
    ListRefused,
    /// There is no response, or none with data.
    NoResponse,
    /// There is no such slot.
    SlotOutOfRange(usize),
}

/// What an error says.
pub enum KittyErrorView {
    ResponseNotJson,
    DataNotJson,
    CommandFailed(Seq<char>),
    ListRefused,
    NoResponse,
    SlotOutOfRange(usize),
}

impl View for KittyError {
    type V = KittyErrorView;

    open spec fn view(&self) -> KittyErrorView {
        match *self {
            KittyError::ResponseNotJson => KittyErrorView::ResponseNotJson,
            KittyError::DataNotJson => KittyErrorView::DataNotJson,
            KittyError::CommandFailed(s) => KittyErrorView::CommandFailed(s@),
            KittyError::ListRefused => KittyErrorView::ListRefused,
            KittyError::NoResponse => KittyErrorView::NoResponse,
            KittyError::SlotOutOfRange(n) => KittyErrorView::SlotOutOfRange(n),
        }
    }
}

impl KittyErrorView {
    /// The error in words.
    pub open spec fn message(self) -> Seq<char> {
        match self {
            KittyErrorView::ResponseNotJson => "Failed to parse Kitty response"@,
            KittyErrorView::DataNotJson => "Failed to parse Kitty data"@,
            KittyErrorView::CommandFailed(s) => "Kitty command failed: "@ + s,
            KittyErrorView::ListRefused => "Kitty ls command returned ok=false"@,
            KittyErrorView::NoResponse => "Failed to parse Kitty response"@,
            KittyErrorView::SlotOutOfRange(n) => "Slot must be between 1 and 8, got "@ + decimal_of(
                n as nat,
            ),
        }
    }
}

impl KittyError {
    /// The error in words.
    pub fn message(&self) -> (r: String)
        ensures
            r@ == self@.message(),
    {
        match self {
            KittyError::ResponseNotJson => "Failed to parse Kitty response".to_owned(),
            KittyError::DataNotJson => "Failed to parse Kitty data".to_owned(),
            KittyError::CommandFailed(s) => {
                "Kitty command failed: ".to_owned().concat(s.as_str())
            },
            KittyError::ListRefused => "Kitty ls command returned ok=false".to_owned(),
            KittyError::NoResponse => "Failed to parse Kitty response".to_owned(),
            KittyError::SlotOutOfRange(n) => {
                "Slot must be between 1 and 8, got ".to_owned().concat(
                    decimal(*n as u64).as_str(),
                )
            },
        }
    }
}

/// The abstract socket that Kitty listens on, by the value of `KITTY_LISTEN_ON`.
pub open spec fn socket_name_of(listen_on: Option<Seq<char>>) -> Seq<char> {
    match listen_on {
        Some(s) => if "unix:@"@.is_prefix_of(s) {
            s.skip("unix:@"@.len() as int)
        } else if "unix:"@.is_prefix_of(s) {
            s.skip("unix:"@.len() as int)
        } else {
            "kitty"@
        },
        None => "kitty"@,
    }
}

pub fn get_kitty_socket_name(listen_on: Option<&str>) -> (r: Result<String, KittyError>)
    ensures
        r is Ok,
        r->Ok_0@ == socket_name_of(text_view(listen_on)),
{
    if let Some(s) = listen_on {
        if let Some(path) = text::strip_prefix(s, "unix:@") {
            return Ok(path.to_owned());
        } else if let Some(path) = text::strip_prefix(s, "unix:") {
            return Ok(path.to_owned());
        }
    }
    Ok("kitty".to_owned())
}

/// What goes before a command.
pub open spec fn frame_start() -> Seq<char> {
    "\x1bP@kitty-cmd"@
}

/// What marks the start of a response.
pub open spec fn frame_marker() -> Seq<char> {
    "@kitty-cmd"@
}

/// What goes behind a command or a response.
pub open spec fn frame_end() -> Seq<char> {
    "\x1b\\"@
}

/// A command as it is sent: a device control string around its JSON.
pub open spec fn framed(json: Seq<char>) -> Seq<char> {
    frame_start() + json + frame_end()
}

/// The JSON inside what was received.
pub open spec fn payload_of(received: Seq<char>) -> Option<Seq<char>> {
    match position_of(received, frame_marker(), 0) {
        Some(i) => {
            let start = i + frame_marker().len();
            match position_of(received, frame_end(), start) {
                Some(end) => Some(received.subrange(start, end)),
                None => None,
            }
        },
        None => None,
    }
}

/// Frames the JSON of a command.
pub fn frame(json: &str) -> (r: String)
    ensures
        r@ == framed(json@),
{
    "\x1bP@kitty-cmd".to_owned().concat(json).concat("\x1b\\")
}

/// The framed command that lists all windows.
pub fn list_request() -> (r: String)
    ensures
        r@ == framed("{\"cmd\":\"ls\",\"version\":[0,37,2]}"@),
{
    frame("{\"cmd\":\"ls\",\"version\":[0,37,2]}")
}

/// Finds the JSON inside what was received.
pub fn payload(received: &str) -> (r: Option<&str>)
    ensures
        text_view(r) == payload_of(received@),
{
    let hay = chars_of(received);
    let marker = chars_of("@kitty-cmd");
    let close = chars_of("\x1b\\");
    if let Some(i) = find_from(&hay, &marker, 0) {
        assert(i + marker.len() <= hay.len());
        let start = i + marker.len();
        if let Some(end) = find_from(&hay, &close, start) {
            return Some(received.substring_char(start, end));
        }
    }
    None
}

/// What is framed is found again, unless it holds the end of a frame itself, which
/// no JSON does.
pub proof fn lemma_frame_reads_back(json: Seq<char>)
    requires
        !text::occurs_from(json, frame_end(), 0),
    ensures
        payload_of(framed(json)) == Some(json),
{
    let all = framed(json);
    let start = frame_start().len() as int;
    assert(start == 2 + frame_marker().len()) by {
        reveal_strlit("\x1bP@kitty-cmd");
        reveal_strlit("@kitty-cmd");
    }
    lemma_marker_is_found(json + frame_end());
    assert(frame_start() + (json + frame_end()) =~= all);
    assert(frame_end().len() == 2 && frame_end()[0] != frame_end()[1]) by {
        reveal_strlit("\x1b\\");
    }
    lemma_end_is_found(frame_start(), json, frame_end());
    text::lemma_position_of(all, frame_marker(), 0, 2);
    text::lemma_position_of(all, frame_end(), start, start + json.len());
    assert(all.subrange(start, start + json.len()) =~= json);
}

/// The marker stands behind the first two characters of a frame, and nowhere before.
proof fn lemma_marker_is_found(rest: Seq<char>)
    ensures
        text::first_occurrence(frame_start() + rest, frame_marker(), 0, 2),
{
    reveal_strlit("\x1bP@kitty-cmd");
    reveal_strlit("@kitty-cmd");
    let all = frame_start() + rest;
    assert(all.subrange(2, 12) =~= frame_marker());
    assert forall|j: int| 0 <= j < 2 implies !#[trigger] text::occurs_at(
        all,
        frame_marker(),
        j,
    ) by {
        if text::occurs_at(all, frame_marker(), j) {
            assert(all.subrange(j, j + 10)[0] == all[j]);
        }
    }
}

/// A mark of two different characters that `inner` does not hold stands first right
/// behind `inner`.
proof fn lemma_end_is_found(before: Seq<char>, inner: Seq<char>, mark: Seq<char>)
    requires
        mark.len() == 2,
        mark[0] != mark[1],
        !text::occurs_from(inner, mark, 0),
    ensures
        text::first_occurrence(
            before + inner + mark,
            mark,
            before.len() as int,
            (before.len() + inner.len()) as int,
        ),
{
    let all = before + inner + mark;
    let start = before.len() as int;
    let end = start + inner.len();
    assert(all.subrange(end, end + 2) =~= mark);
    assert forall|j: int| start <= j < end implies !#[trigger] text::occurs_at(all, mark, j) by {
        if text::occurs_at(all, mark, j) {
            assert(all.subrange(j, j + 2)[0] == all[j]);
            assert(all.subrange(j, j + 2)[1] == all[j + 1]);
            if j + 1 < end {
                assert(inner.subrange(j - start, j - start + 2) =~= mark);
                assert(text::occurs_at(inner, mark, j - start));
            }
        }
    }
}

/// Whether a response says that all went well.
pub open spec fn says_ok(response: Json) -> bool {
    match response.member("ok"@) {
        Some(v) => v.truth() == Some(true),
        None => false,
    }
}

/// How a command went, by the JSON of the response and what it reads as.
pub open spec fn reply_of(payload: Seq<char>, parsed: Option<Json>) -> Result<(), KittyErrorView> {
    match parsed {
        None => Err(KittyErrorView::ResponseNotJson),
        Some(response) => if says_ok(response) {
            Ok(())
        } else {
            Err(KittyErrorView::CommandFailed(payload))
        },
    }
}

/// How a command went, by the text of the response. No response is as good as a good one.
pub open spec fn command_result(received: Seq<char>) -> Result<(), KittyErrorView> {
    match payload_of(received) {
        Some(payload) => reply_of(payload, json_parsed(payload)),
        None => Ok(()),
    }
}

/// What a result says.
pub open spec fn result_view<T>(r: Result<T, KittyError>) -> Result<T, KittyErrorView> {
    match r {
        Ok(x) => Ok(x),
        Err(e) => Err(e@),
    }
}

/// What a parse has read.
pub open spec fn parse_view(parsed: Result<Value, serde_json::Error>) -> Option<Json> {
    match parsed {
        Ok(v) => Some(json_view(v)),
        Err(_) => None,
    }
}

fn is_ok(response: &Value) -> (r: bool)
    ensures
        r == says_ok(json_view(*response)),
{
    match json::get(response, "ok") {
        Some(v) => match json::as_bool(v) {
            Some(b) => b,
            None => false,
        },
        None => false,
    }
}

/// Judges how a command went, by the JSON of the response and what it reads as.
pub fn judge_reply(payload: &str, parsed: Result<Value, serde_json::Error>) -> (r: Result<
    (),
    KittyError,
>)
    ensures
        result_view(r) == reply_of(payload@, parse_view(parsed)),
{
    match parsed {
        Err(_) => Err(KittyError::ResponseNotJson),
        Ok(response) => if is_ok(&response) {
            Ok(())
        } else {
            Err(KittyError::CommandFailed(payload.to_owned()))
        },
    }
}

/// Judges how a command went, by the bytes that Kitty has sent back.
pub fn check_response(received: &Vec<u8>) -> (r: Result<(), KittyError>)
    ensures
        result_view(r) == command_result(text::lossy_text(received@)),
{
    let response = text::decode_lossy(received);
    match payload(response.as_str()) {
        Some(json) => judge_reply(json, json::from_str(json)),
        None => Ok(()),
    }
}

/// What a list of windows holds, by what the response reads as, where there is
/// one. Data that are a string are read as JSON once more.
pub open spec fn listing_of(parsed: Option<Json>) -> Result<Json, KittyErrorView> {
    match parsed {
        None => Err(KittyErrorView::ResponseNotJson),
        Some(response) => if !says_ok(response) {
            Err(KittyErrorView::ListRefused)
        } else {
            match response.member("data"@) {
                None => Err(KittyErrorView::NoResponse),
                Some(Json::Text(s)) => data_of(json_parsed(s)),
                Some(data) => Ok(data),
            }
        },
    }
}

/// What the data of a response hold, by what they read as.
pub open spec fn data_of(parsed: Option<Json>) -> Result<Json, KittyErrorView> {
    match parsed {
        Some(data) => Ok(data),
        None => Err(KittyErrorView::DataNotJson),
    }
}

/// What a list of windows holds, by the text of the response.
pub open spec fn list_result(received: Seq<char>) -> Result<Json, KittyErrorView> {
    match payload_of(received) {
        Some(payload) => listing_of(json_parsed(payload)),
        None => Err(KittyErrorView::NoResponse),
    }
}

/// What a result says and holds.
pub open spec fn value_result_view(r: Result<Value, KittyError>) -> Result<Json, KittyErrorView> {
    match r {
        Ok(v) => Ok(json_view(v)),
        Err(e) => Err(e@),
    }
}

/// Judges the data of a response by what they read as.
pub fn judge_data(parsed: Result<Value, serde_json::Error>) -> (r: Result<Value, KittyError>)
    ensures
        value_result_view(r) == data_of(parse_view(parsed)),
{
    match parsed {
        Ok(data) => Ok(data),
        Err(_) => Err(KittyError::DataNotJson),
    }
}

/// Judges a list of windows by what the response reads as.
pub fn judge_listing(parsed: Result<Value, serde_json::Error>) -> (r: Result<Value, KittyError>)
    ensures
        value_result_view(r) == listing_of(parse_view(parsed)),
{
    match parsed {
        Err(_) => Err(KittyError::ResponseNotJson),
        Ok(response) => {
            if !is_ok(&response) {
                return Err(KittyError::ListRefused);
            }
            match json::get(&response, "data") {
                None => Err(KittyError::NoResponse),
                Some(data) => match json::as_str(data) {
                    Some(s) => judge_data(json::from_str(s)),
                    None => Ok(json::duplicate(data)),
                },
            }
        },
    }
}

/// The windows of Kitty, by the bytes that it has sent back to a request for them.
pub fn list_kitty_windows(received: &Vec<u8>) -> (r: Result<Value, KittyError>)
    ensures
        value_result_view(r) == list_result(text::lossy_text(received@)),
{
    let response = text::decode_lossy(received);
    match payload(response.as_str()) {
        Some(json) => judge_listing(json::from_str(json)),
        None => Err(KittyError::NoResponse),
    }
}

/// Which socket is meant: an abstract one and one in the file system are both called by
/// what follows, and anything else stands for Kitty's own.
pub proof fn lemma_socket_names(name: Seq<char>)
    ensures
        socket_name_of(Some("unix:@"@ + name)) == name,
        !(name.len() > 0 && name[0] == '@') ==> socket_name_of(Some("unix:"@ + name)) == name,
        !"unix:"@.is_prefix_of(name) ==> socket_name_of(Some(name)) == "kitty"@,
        socket_name_of(None) == "kitty"@,
{
    reveal_strlit("unix:@");
    reveal_strlit("unix:");
    let abstract_name = "unix:@"@ + name;
    let file = "unix:"@ + name;
    assert(abstract_name.subrange(0, 6) =~= "unix:@"@);
    assert(abstract_name.skip(6) =~= name);
    assert(file.subrange(0, 5) =~= "unix:"@);
    assert(file.skip(5) =~= name);
    if "unix:@"@.is_prefix_of(file) {
        assert(file.subrange(0, 6)[5] == '@');
        assert(file[5] == name[0]);
    }
    if "unix:@"@.is_prefix_of(name) {
        assert("unix:"@ =~= "unix:@"@.subrange(0, 5));
        assert(name.subrange(0, 5) =~= name.subrange(0, 6).subrange(0, 5));
    }
}

/// How a command went, by Kitty's reply: well exactly where the reply is JSON that says
/// so, and a reply that says otherwise is handed on as it is.
pub proof fn lemma_replies_are_judged(json: Seq<char>)
    requires
        !text::occurs_from(json, frame_end(), 0),
    ensures
        command_result(framed(json)) is Ok <==> json_parsed(json) is Some && json_parsed(
            json,
        )->0.member("ok"@) == Some(Json::Bool(true)),
        json_parsed(json) is None ==> command_result(framed(json)) == Err::<(), KittyErrorView>(
            KittyErrorView::ResponseNotJson,
        ),
        json_parsed(json) is Some && json_parsed(json)->0.member("ok"@) != Some(Json::Bool(true))
            ==> command_result(framed(json)) == Err::<(), KittyErrorView>(
            KittyErrorView::CommandFailed(json),
        ),
{
    lemma_frame_reads_back(json);
    if json_parsed(json) is Some {
        if let Some(v) = json_parsed(json)->0.member("ok"@) {
            if v.truth() == Some(true) {
                assert(v == Json::Bool(true));
            }
        }
    }
}

/// What a list of windows is read from: the data of a reply that says that all went
/// well, read as JSON once more where they are a string.
pub proof fn lemma_listings_are_read(json: Seq<char>, response: Json, data: Json)
    requires
        !text::occurs_from(json, frame_end(), 0),
        json_parsed(json) == Some(response),
        response.member("ok"@) == Some(Json::Bool(true)),
        response.member("data"@) == Some(data),
    ensures
        !(data is Text) ==> list_result(framed(json)) == Ok::<Json, KittyErrorView>(data),
        data matches Json::Text(s) ==> (json_parsed(s) is Some ==> list_result(framed(json))
            == Ok::<Json, KittyErrorView>(json_parsed(s)->0)),
        data matches Json::Text(s) ==> (json_parsed(s) is None ==> list_result(framed(json))
            == Err::<Json, KittyErrorView>(KittyErrorView::DataNotJson)),
{
    lemma_frame_reads_back(json);
}

/// A list of windows is refused where Kitty says so or says nothing of use.
pub proof fn lemma_listings_are_refused(json: Seq<char>)
    requires
        !text::occurs_from(json, frame_end(), 0),
    ensures
        json_parsed(json) is None ==> list_result(framed(json)) == Err::<Json, KittyErrorView>(
            KittyErrorView::ResponseNotJson,
        ),
        json_parsed(json) matches Some(response) ==> (response.member("ok"@) != Some(
            Json::Bool(true),
        ) ==> list_result(framed(json)) == Err::<Json, KittyErrorView>(
            KittyErrorView::ListRefused,
        )),
        json_parsed(json) matches Some(response) ==> (response.member("ok"@) == Some(
            Json::Bool(true),
        ) && response.member("data"@) is None ==> list_result(framed(json)) == Err::<
            Json,
            KittyErrorView,
        >(KittyErrorView::NoResponse)),
{
    lemma_replies_are_judged(json);
    lemma_frame_reads_back(json);
}

/// Where nothing was received that looks like a reply, a command counts as done, but a
/// list of windows as missing.
pub proof fn lemma_silence_of_kitty(received: Seq<char>)
    requires
        !text::occurs_from(received, "@kitty-cmd"@, 0),
    ensures
        command_result(received) is Ok,
        list_result(received) == Err::<Json, KittyErrorView>(KittyErrorView::NoResponse),
{
}

/// What is received before a reply does not matter, as long as it does not look like
/// the start of one.
pub proof fn lemma_noise_before_a_reply(noise: Seq<char>, json: Seq<char>)
    requires
        !noise.contains('@'),
        !text::occurs_from(json, frame_end(), 0),
    ensures
        payload_of(noise + framed(json)) == Some(json),
{
    let all = noise + framed(json);
    let n = noise.len() as int;
    assert(frame_marker().len() == 10 && frame_marker()[0] == '@') by {
        reveal_strlit("@kitty-cmd");
    }
    assert(frame_start().len() == 12 && frame_start().subrange(2, 12) =~= frame_marker()
        && frame_start()[0] != '@' && frame_start()[1] != '@') by {
        reveal_strlit("\x1bP@kitty-cmd");
        reveal_strlit("@kitty-cmd");
    }
    assert(all.subrange(n + 2, n + 12) =~= frame_start().subrange(2, 12));
    assert forall|j: int| 0 <= j < n + 2 implies !#[trigger] text::occurs_at(
        all,
        frame_marker(),
        j,
    ) by {
        if text::occurs_at(all, frame_marker(), j) {
            assert(all.subrange(j, j + 10)[0] == all[j]);
            if j < n {
                assert(noise[j] == '@');
            } else {
                assert(all[j] == frame_start()[j - n]);
            }
        }
    }
    text::lemma_position_of(all, frame_marker(), 0, n + 2);
    assert(frame_end().len() == 2 && frame_end()[0] != frame_end()[1]) by {
        reveal_strlit("\x1b\\");
    }
    let before = noise + frame_start();
    lemma_end_is_found(before, json, frame_end());
    assert(before + json + frame_end() =~= all);
    text::lemma_position_of(all, frame_end(), n + 12, n + 12 + json.len());
    assert(all.subrange(n + 12, n + 12 + json.len()) =~= json);
}

/// An error about a reply or a slot says which one.
pub proof fn lemma_errors_name_their_cause(reply: Seq<char>, slot: usize)
    ensures
        reply.is_suffix_of(KittyErrorView::CommandFailed(reply).message()),
        decimal_of(slot as nat).is_suffix_of(KittyErrorView::SlotOutOfRange(slot).message()),
{
    let a = KittyErrorView::CommandFailed(reply).message();
    let b = KittyErrorView::SlotOutOfRange(slot).message();
    let d = decimal_of(slot as nat);
    assert(reply =~= a.subrange(a.len() - reply.len(), a.len() as int));
    assert(d =~= b.subrange(b.len() - d.len(), b.len() as int));
}

/// The view of an error says what the error says, and that of a result what it holds.
pub proof fn lemma_views_of_errors(
    s: String,
    n: usize,
    r: Result<(), KittyError>,
    v: Result<Value, KittyError>,
    p: Result<Value, serde_json::Error>,
)
    ensures
        KittyError::ResponseNotJson@ == KittyErrorView::ResponseNotJson,
        KittyError::DataNotJson@ == KittyErrorView::DataNotJson,
        KittyError::CommandFailed(s)@ == KittyErrorView::CommandFailed(s@),
        KittyError::ListRefused@ == KittyErrorView::ListRefused,
        KittyError::NoResponse@ == KittyErrorView::NoResponse,
        KittyError::SlotOutOfRange(n)@ == KittyErrorView::SlotOutOfRange(n),
        r is Ok <==> result_view(r) is Ok,
        r is Err ==> result_view(r) == Err::<(), KittyErrorView>(r->Err_0@),
        v is Ok ==> value_result_view(v) == Ok::<Json, KittyErrorView>(json_view(v->Ok_0)),
        v is Err ==> value_result_view(v) == Err::<Json, KittyErrorView>(v->Err_0@),
        p is Ok ==> parse_view(p) == Some(json_view(p->Ok_0)),
        p is Err ==> parse_view(p) is None,
{
}

} // verus!
