//! Putting transcribed pieces together into one text.
use crate::text::{chars_of, remove_all, same_text, text_view, trim};
use vstd::prelude::*;

verus! {

/// What the model writes where it heard nothing.
pub open spec fn blank_marker() -> Seq<char> {
    "[BLANK_AUDIO]"@
}

/// A transcription without blank markers and without white space around it.
pub open spec fn cleaned(text: Seq<char>) -> Seq<char> {
    crate::text::trim_of(crate::text::remove_of(text, blank_marker()))
}

/// `text` with `piece` behind it, a space between the two; `text` alone where
/// `piece` is empty, `piece` alone where `text` is.
pub open spec fn joined(text: Seq<char>, piece: Seq<char>) -> Seq<char> {
    if piece.len() == 0 {
        text
    } else if text.len() == 0 {
        piece
    } else {
        text.push(' ') + piece
    }
}

/// `text` after a transcription that yielded `result`, or failed.
pub open spec fn extended(text: Seq<char>, result: Option<Seq<char>>) -> Seq<char> {
    match result {
        Some(t) => joined(text, cleaned(t)),
        None => text,
    }
}

/// The text of a transcription that yielded `result`; empty where it failed.
pub open spec fn cleaned_or_empty(result: Option<Seq<char>>) -> Seq<char> {
    match result {
        Some(t) => cleaned(t),
        None => Seq::empty(),
    }
}

/// Removes blank markers and the white space around the rest.
pub fn clean(text: &str) -> (r: String)
    ensures
        r@ == cleaned(text@),
{
    proof {
        reveal_strlit("[BLANK_AUDIO]");
    }
    let kept = remove_all(text, "[BLANK_AUDIO]");
    trim(kept.as_str()).to_owned()
}

/// Puts a transcription behind the text so far.
pub fn extend(text: &mut String, result: Option<&str>)
    ensures
        final(text)@ == extended(old(text)@, text_view(result)),
{
    if let Some(raw) = result {
        let piece = clean(raw);
        if !piece.as_str().is_empty() {
            if !text.as_str().is_empty() {
                text.push(' ');
            }
            text.append(piece.as_str());
            assert(old(text)@.len() == 0 ==> old(text)@ + piece@ =~= piece@);
        }
    }
}

/// The text of a preview; empty where there was none.
pub fn preview(result: Option<&str>) -> (r: String)
    ensures
        r@ == cleaned_or_empty(text_view(result)),
{
    match result {
        Some(raw) => clean(raw),
        None => String::new(),
    }
}

/// `text` after one more segment of a running transcription.
pub open spec fn with_segment(text: Seq<char>, segment: Seq<char>) -> Seq<char> {
    let piece = crate::text::trim_of(segment);
    if piece == blank_marker() {
        text
    } else if text.len() > 0 && text.last() != ' ' {
        text.push(' ') + piece
    } else {
        text + piece
    }
}

/// Puts a segment behind the text so far, one space between them, and skips
/// segments that are blank.
pub fn push_segment(text: &mut String, segment: &str)
    ensures
        final(text)@ == with_segment(old(text)@, segment@),
{
    let piece = trim(segment);
    if same_text(piece, "[BLANK_AUDIO]") {
        return;
    }
    let v = chars_of(text.as_str());
    if v.len() > 0 && v[v.len() - 1] != ' ' {
        text.push(' ');
    }
    text.append(piece);
}

/// The segments one after the other; those that could not be read are left out.
pub open spec fn segments_concat(segments: Seq<Option<Seq<char>>>) -> Seq<char>
    decreases segments.len(),
{
    if segments.len() == 0 {
        Seq::empty()
    } else {
        let front = segments_concat(segments.drop_last());
        match segments.last() {
            Some(t) => front + t,
            None => front,
        }
    }
}

/// The views of a list of segments.
pub open spec fn segment_views(segments: Seq<Option<String>>) -> Seq<Option<Seq<char>>> {
    segments.map_values(
        |s: Option<String>|
            match s {
                Some(t) => Some(t@),
                None => None,
            },
    )
}

/// The text of a finished transcription: its segments joined, without white
/// space around them.
pub fn join_segments(segments: &Vec<Option<String>>) -> (r: String)
    ensures
        r@ == crate::text::trim_of(segments_concat(segment_views(segments@))),
{
    let mut text = String::new();
    let mut i: usize = 0;
    let ghost views = segment_views(segments@);
    assert(views.take(0) =~= Seq::<Option<Seq<char>>>::empty());
    while i < segments.len()
        invariant
            i <= segments.len(),
            views == segment_views(segments@),
            text@ == segments_concat(views.take(i as int)),
        decreases segments.len() - i,
    {
        assert(views.take(i + 1).drop_last() =~= views.take(i as int));
        if let Some(t) = &segments[i] {
            text.append(t.as_str());
        }
        i = i + 1;
    }
    assert(views.take(i as int) =~= views);
    trim(text.as_str()).to_owned()
}

/// A cleaned transcription has no white space at its ends. So pieces that are put
/// behind each other are told apart by one space, and text that is there stays as it is.
pub proof fn lemma_pieces_are_joined_by_one_space(text: Seq<char>, result: Option<Seq<char>>)
    ensures
        ({
            let piece = cleaned_or_empty(result);
            &&& piece.len() > 0 ==> !crate::text::white_space(piece[0])
                && !crate::text::white_space(piece.last())
            &&& extended(text, result) == if piece.len() == 0 {
                text
            } else if text.len() == 0 {
                piece
            } else {
                text + seq![' '] + piece
            }
        }),
{
    if let Some(raw) = result {
        crate::text::lemma_trimmed_text(crate::text::remove_of(raw, blank_marker()));
        assert(text.push(' ') =~= text + seq![' ']);
    }
}

/// A transcription that holds no blank marker and has no white space at its ends is
/// left as it is.
pub proof fn lemma_clean_text_stays(text: Seq<char>)
    requires
        !crate::text::occurs_from(text, "[BLANK_AUDIO]"@, 0),
        text.len() > 0 ==> !crate::text::white_space(text[0]) && !crate::text::white_space(
            text.last(),
        ),
    ensures
        cleaned(text) == text,
        cleaned_or_empty(Some(text)) == text,
{
    crate::text::lemma_nothing_to_remove(text, "[BLANK_AUDIO]"@);
}

/// Cleaning takes out blank markers and then the white space around the rest, and
/// nothing else: what stays is one stretch of the text without its markers. The result
/// gives where that stretch starts and ends.
pub proof fn lemma_cleaning_keeps_the_rest(text: Seq<char>) -> (r: (int, int))
    ensures
        ({
            let kept = crate::text::remove_of(text, "[BLANK_AUDIO]"@);
            &&& 0 <= r.0 <= r.1 <= kept.len()
            &&& cleaned(text) == kept.subrange(r.0, r.1)
            &&& forall|k: int| 0 <= k < r.0 ==> crate::text::white_space(#[trigger] kept[k])
            &&& forall|k: int|
                r.1 <= k < kept.len() ==> crate::text::white_space(#[trigger] kept[k])
            &&& r.0 < r.1 ==> !crate::text::white_space(kept[r.0])
                && !crate::text::white_space(kept[r.1 - 1])
        }),
{
    let kept = crate::text::remove_of(text, "[BLANK_AUDIO]"@);
    crate::text::lemma_trimmed_text(kept);
    crate::text::lemma_trim_keeps_the_middle(kept)
}

/// A blank marker in front of text that needs no other cleaning, or behind it, is all
/// that cleaning takes off.
pub proof fn lemma_blank_markers_are_dropped(text: Seq<char>)
    requires
        !crate::text::occurs_from(text, "[BLANK_AUDIO]"@, 0),
        text.len() > 0 ==> !crate::text::white_space(text[0]) && !crate::text::white_space(
            text.last(),
        ),
    ensures
        cleaned("[BLANK_AUDIO]"@ + text) == text,
        cleaned("[BLANK_AUDIO]"@) == Seq::<char>::empty(),
{
    let marker = "[BLANK_AUDIO]"@;
    assert(marker.len() > 0) by {
        reveal_strlit("[BLANK_AUDIO]");
    }
    let all = marker + text;
    assert(all.subrange(0, marker.len() as int) =~= marker);
    crate::text::lemma_remove_goes_on_behind(all, marker, 0);
    assert(all.skip(marker.len() as int) =~= text);
    crate::text::lemma_nothing_to_remove(text, marker);
    assert(all.take(0) + text =~= text);
    assert(marker.subrange(0, marker.len() as int) =~= marker);
    crate::text::lemma_remove_goes_on_behind(marker, marker, 0);
    assert(marker.skip(marker.len() as int) =~= Seq::<char>::empty());
    assert(marker.take(0) + Seq::<char>::empty() =~= Seq::<char>::empty());
    assert(crate::text::remove_of(Seq::<char>::empty(), marker) =~= Seq::<char>::empty());
}

/// The text of segments in a row is the text of the first ones followed by the text of
/// the others: every segment that could be read stands in it, in order.
pub proof fn lemma_segments_follow_each_other(
    a: Seq<Option<Seq<char>>>,
    b: Seq<Option<Seq<char>>>,
)
    ensures
        segments_concat(a + b) == segments_concat(a) + segments_concat(b),
    decreases b.len(),
{
    if b.len() == 0 {
        assert(a + b =~= a);
        assert(segments_concat(a) + segments_concat(b) =~= segments_concat(a));
    } else {
        lemma_segments_follow_each_other(a, b.drop_last());
        assert((a + b).drop_last() =~= a + b.drop_last());
        assert(segments_concat(a + b) =~= segments_concat(a) + segments_concat(b));
    }
}

/// The text of one segment is that segment, or nothing where it could not be read.
pub proof fn lemma_one_segment(segment: Option<Seq<char>>)
    ensures
        segments_concat(seq![segment]) == match segment {
            Some(t) => t,
            None => Seq::empty(),
        },
        segments_concat(Seq::empty()) == Seq::<char>::empty(),
{
    let one = seq![segment];
    assert(one.drop_last() =~= Seq::<Option<Seq<char>>>::empty());
    assert(segments_concat(one.drop_last()) =~= Seq::<char>::empty());
    if let Some(t) = segment {
        assert(Seq::<char>::empty() + t =~= t);
    }
}

/// A segment that is heard while the model still works is put behind the text, trimmed,
/// with one space between them where none is there yet. A blank one changes nothing.
pub proof fn lemma_segments_are_put_behind(text: Seq<char>, segment: Seq<char>)
    ensures
        crate::text::trim_of(segment) == "[BLANK_AUDIO]"@ ==> with_segment(text, segment) == text,
        crate::text::trim_of(segment) != "[BLANK_AUDIO]"@ ==> ({
            let piece = crate::text::trim_of(segment);
            let spaced = with_segment(text, segment);
            &&& text.is_prefix_of(spaced)
            &&& piece.is_suffix_of(spaced)
            &&& text.len() == 0 || text.last() == ' ' ==> spaced.len() == text.len() + piece.len()
            &&& text.len() > 0 && text.last() != ' ' ==> spaced.len() == text.len() + 1
                + piece.len() && spaced[text.len() as int] == ' '
        }),
{
    let piece = crate::text::trim_of(segment);
    let spaced = with_segment(text, segment);
    if piece != "[BLANK_AUDIO]"@ {
        assert(text =~= spaced.subrange(0, text.len() as int));
        assert(piece =~= spaced.subrange(spaced.len() - piece.len(), spaced.len() as int));
    }
}

/// `words` one behind the other, with one space between them.
pub open spec fn spaced_out(words: Seq<Seq<char>>) -> Seq<char> {
    crate::text::joined_by(words, ' ')
}

/// What was understood: the results that are left when they are cleaned, in order.
pub open spec fn understood(results: Seq<Option<Seq<char>>>) -> Seq<Seq<char>>
    decreases results.len(),
{
    if results.len() == 0 {
        Seq::empty()
    } else {
        let before = understood(results.drop_last());
        match results.last() {
            Some(t) if cleaned(t).len() > 0 => before.push(cleaned(t)),
            _ => before,
        }
    }
}

/// Text to which results are added one after the other is what was understood, with
/// one space between the pieces.
pub proof fn lemma_text_is_what_was_understood(
    results: Seq<Option<Seq<char>>>,
    result: Option<Seq<char>>,
)
    ensures
        extended(spaced_out(understood(results)), result) == spaced_out(
            understood(results.push(result)),
        ),
{
    let words = understood(results);
    assert(results.push(result).drop_last() =~= results);
    lemma_understood_words_are_not_empty(results);
    if let Some(t) = result {
        let piece = cleaned(t);
        if piece.len() > 0 {
            let all = words.push(piece);
            assert(all.drop_last() =~= words);
            if words.len() > 0 {
                lemma_spaced_words_are_not_empty(words);
            } else {
                assert(all[0] == piece);
            }
        }
    }
}

proof fn lemma_understood_words_are_not_empty(results: Seq<Option<Seq<char>>>)
    ensures
        forall|i: int|
            0 <= i < understood(results).len() ==> (#[trigger] understood(results)[i]).len() > 0,
    decreases results.len(),
{
    if results.len() > 0 {
        lemma_understood_words_are_not_empty(results.drop_last());
        let before = understood(results.drop_last());
        let all = understood(results);
        assert forall|i: int| 0 <= i < all.len() implies (#[trigger] all[i]).len() > 0 by {
            if i < before.len() {
                assert(all[i] == before[i]);
            }
        }
    }
}

proof fn lemma_spaced_words_are_not_empty(words: Seq<Seq<char>>)
    requires
        words.len() > 0,
        forall|i: int| 0 <= i < words.len() ==> (#[trigger] words[i]).len() > 0,
    ensures
        spaced_out(words).len() > 0,
{
    assert(words[words.len() - 1].len() > 0);
}

/// The view of a list of segments has the text of each segment at its place.
pub proof fn lemma_views_of_segments(segments: Seq<Option<String>>, i: int)
    requires
        0 <= i < segments.len(),
    ensures
        segment_views(segments).len() == segments.len(),
        segments[i] is Some ==> segment_views(segments)[i] == Some(segments[i]->0@),
        segments[i] is None ==> segment_views(segments)[i] is None,
{
}

} // verus!
