//! Spans of chunks: their audio, and how spans cover a recording.
use vstd::prelude::*;

verus! {

/// The samples of the chunks `[range.0..range.1)`.
pub open spec fn audio_of<S>(recorded: Seq<Seq<S>>, range: (int, int)) -> Seq<S> {
    recorded.subrange(range.0, range.1).flatten()
}

/// The samples of each chunk.
pub open spec fn chunk_views<S>(chunks: Seq<Vec<S>>) -> Seq<Seq<S>> {
    chunks.map_values(|c: Vec<S>| c@)
}

/// Whether `windows` lie end to end from 0 to `end`.
pub open spec fn tiles(windows: Seq<(int, int)>, end: int) -> bool
    decreases windows.len(),
{
    if windows.len() == 0 {
        end == 0
    } else {
        let last = windows.last();
        last.0 <= last.1 && last.1 == end && tiles(windows.drop_last(), last.0)
    }
}

/// Whether `[w.0..w.1)` holds chunk `i`.
pub open spec fn within(w: (int, int), i: int) -> bool {
    w.0 <= i < w.1
}

/// Whether some of `windows` holds chunk `i`.
pub open spec fn covered(windows: Seq<(int, int)>, i: int) -> bool {
    exists|k: int| 0 <= k < windows.len() && within(#[trigger] windows[k], i)
}

/// The audio of all `windows`, one after the other.
pub open spec fn windows_audio<S>(recorded: Seq<Seq<S>>, windows: Seq<(int, int)>) -> Seq<S>
    decreases windows.len(),
{
    if windows.len() == 0 {
        Seq::empty()
    } else {
        windows_audio(recorded, windows.drop_last()) + audio_of(recorded, windows.last())
    }
}

/// Windows that lie end to end leave no gap: each chunk is in one of them.
pub proof fn lemma_tiles_leave_no_gap(windows: Seq<(int, int)>, end: int, i: int)
    requires
        tiles(windows, end),
        0 <= i < end,
    ensures
        covered(windows, i),
    decreases windows.len(),
{
    if windows.len() > 0 {
        let last = windows.last();
        if i < last.0 {
            lemma_tiles_leave_no_gap(windows.drop_last(), last.0, i);
            let k = choose|k: int|
                0 <= k < windows.drop_last().len() && within(
                    #[trigger] windows.drop_last()[k],
                    i,
                );
            assert(windows[k] == windows.drop_last()[k]);
        } else {
            assert(within(windows[windows.len() - 1], i));
        }
    }
}

/// Windows that lie end to end are contiguous: the first starts at 0, and each
/// other one where the one before it ended.
pub proof fn lemma_tiles_are_contiguous(windows: Seq<(int, int)>, end: int)
    requires
        tiles(windows, end),
    ensures
        windows.len() > 0 ==> windows[0].0 == 0 && windows.last().1 == end,
        forall|k: int|
            0 <= k < windows.len() - 1 ==> (#[trigger] windows[k]).1 == windows[k + 1].0,
        forall|k: int|
            0 <= k < windows.len() ==> 0 <= (#[trigger] windows[k]).0 <= windows[k].1 <= end,
    decreases windows.len(),
{
    if windows.len() > 0 {
        let rest = windows.drop_last();
        lemma_tiles_are_contiguous(rest, windows.last().0);
        assert(forall|k: int| 0 <= k < rest.len() ==> windows[k] == rest[k]);
        let last = windows.last();
        if rest.len() == 0 {
            reveal_with_fuel(tiles, 2);
            assert(windows[0] == last);
            assert(last.0 == 0);
        } else {
            assert(windows[0] == rest[0]);
            assert(rest.last() == rest[rest.len() - 1]);
            assert(0 <= last.0);
        }
        assert forall|k: int| 0 <= k < windows.len() implies 0 <= (
        #[trigger] windows[k]).0 <= windows[k].1 <= end by {
            if k < rest.len() {
                assert(windows[k] == rest[k]);
            } else {
                assert(windows[k] == last);
            }
        }
        assert forall|k: int| 0 <= k < windows.len() - 1 implies (#[trigger] windows[k]).1
            == windows[k + 1].0 by {
            if k == windows.len() - 2 {
                assert(rest.last() == windows[k]);
            } else {
                assert(windows[k] == rest[k]);
                assert(windows[k + 1] == rest[k + 1]);
            }
        }
    }
}

/// Windows that lie end to end do not overlap: no chunk is in two of them.
pub proof fn lemma_tiles_do_not_overlap(
    windows: Seq<(int, int)>,
    end: int,
    i: int,
    k: int,
    l: int,
)
    requires
        tiles(windows, end),
        0 <= k < windows.len(),
        0 <= l < windows.len(),
        within(windows[k], i),
        within(windows[l], i),
    ensures
        k == l,
    decreases windows.len(),
{
    let rest = windows.drop_last();
    lemma_tiles_are_contiguous(rest, windows.last().0);
    if k < rest.len() && l < rest.len() {
        lemma_tiles_do_not_overlap(rest, windows.last().0, i, k, l);
    } else if k < rest.len() {
        assert(windows[k] == rest[k]);
    } else if l < rest.len() {
        assert(windows[l] == rest[l]);
    }
}

/// The audio of windows that lie end to end is all audio up to where they end.
pub proof fn lemma_tiles_hold_all_audio<S>(
    recorded: Seq<Seq<S>>,
    windows: Seq<(int, int)>,
    end: int,
)
    requires
        tiles(windows, end),
        end <= recorded.len(),
    ensures
        windows_audio(recorded, windows) == recorded.take(end).flatten(),
    decreases windows.len(),
{
    if windows.len() == 0 {
        assert(recorded.take(0).flatten() =~= Seq::<S>::empty());
    } else {
        let last = windows.last();
        lemma_tiles_are_contiguous(windows, end);
        lemma_tiles_hold_all_audio(recorded, windows.drop_last(), last.0);
        vstd::seq_lib::lemma_flatten_concat(
            recorded.take(last.0),
            recorded.subrange(last.0, last.1),
        );
        assert(recorded.take(end) =~= recorded.take(last.0) + recorded.subrange(last.0, last.1));
    }
}

/// Windows that lie end to end over a recording hold every chunk of it once, and
/// all of its audio.
pub proof fn lemma_tiles_cover_a_recording<S>(recorded: Seq<Seq<S>>, windows: Seq<(int, int)>)
    requires
        tiles(windows, recorded.len() as int),
    ensures
        forall|i: int| 0 <= i < recorded.len() ==> #[trigger] covered(windows, i),
        forall|i: int, k: int, l: int|
            0 <= k < windows.len() && 0 <= l < windows.len() && #[trigger] within(windows[k], i)
                && #[trigger] within(windows[l], i) ==> k == l,
        forall|k: int|
            0 <= k < windows.len() - 1 ==> (#[trigger] windows[k]).1 == windows[k + 1].0,
        windows_audio(recorded, windows) == recorded.flatten(),
{
    let total = recorded.len() as int;
    lemma_tiles_are_contiguous(windows, total);
    assert forall|i: int| 0 <= i < total implies #[trigger] covered(windows, i) by {
        lemma_tiles_leave_no_gap(windows, total, i);
    }
    assert forall|i: int, k: int, l: int|
        0 <= k < windows.len() && 0 <= l < windows.len() && #[trigger] within(windows[k], i)
            && #[trigger] within(windows[l], i) implies k == l by {
        lemma_tiles_do_not_overlap(windows, total, i, k, l);
    }
    lemma_tiles_hold_all_audio(recorded, windows, total);
    assert(recorded.take(total) =~= recorded);
}

/// The samples of the chunks `[start..end)`, one after the other.
pub fn flatten<S: Copy>(chunks: &Vec<Vec<S>>, start: usize, end: usize) -> (r: Vec<S>)
    requires
        start <= end <= chunks@.len(),
    ensures
        r@ == audio_of(chunk_views(chunks@), (start as int, end as int)),
{
    let mut out: Vec<S> = Vec::new();
    let ghost all = chunk_views(chunks@);
    let mut i: usize = start;
    assert(all.subrange(start as int, start as int).flatten() =~= Seq::<S>::empty());
    while i < end
        invariant
            start <= i <= end <= chunks@.len(),
            all == chunk_views(chunks@),
            out@ == all.subrange(start as int, i as int).flatten(),
        decreases end - i,
    {
        let chunk = &chunks[i];
        let ghost before = out@;
        let mut k: usize = 0;
        while k < chunk.len()
            invariant
                k <= chunk@.len(),
                out@ == before + chunk@.take(k as int),
            decreases chunk@.len() - k,
        {
            out.push(chunk[k]);
            assert(chunk@.take(k + 1) =~= chunk@.take(k as int).push(chunk@[k as int]));
            k = k + 1;
        }
        proof {
            assert(chunk@.take(k as int) =~= chunk@);
            all.subrange(start as int, i as int).lemma_flatten_push(chunk@);
            assert(all.subrange(start as int, i as int).push(chunk@) =~= all.subrange(
                start as int,
                i + 1,
            ));
        }
        i = i + 1;
    }
    out
}

/// The audio of one chunk is its samples, and the audio of two spans that meet is the
/// audio of both together.
pub proof fn lemma_audio_of_spans<S>(recorded: Seq<Seq<S>>, a: int, b: int, c: int)
    requires
        0 <= a <= b <= c <= recorded.len(),
    ensures
        audio_of(recorded, (a, b)) + audio_of(recorded, (b, c)) == audio_of(recorded, (a, c)),
        audio_of(recorded, (a, a)).len() == 0,
        b < recorded.len() ==> audio_of(recorded, (b, b + 1)) == recorded[b],
{
    vstd::seq_lib::lemma_flatten_concat(recorded.subrange(a, b), recorded.subrange(b, c));
    assert(recorded.subrange(a, b) + recorded.subrange(b, c) =~= recorded.subrange(a, c));
    assert(recorded.subrange(a, a).flatten() =~= Seq::<S>::empty());
    if b < recorded.len() {
        let none = recorded.subrange(b, b);
        none.lemma_flatten_push(recorded[b]);
        assert(none.push(recorded[b]) =~= recorded.subrange(b, b + 1));
        assert(none.flatten() =~= Seq::<S>::empty());
        assert(none.flatten() + recorded[b] =~= recorded[b]);
    }
}

/// The view of a list of chunks has the samples of each chunk at its place.
pub proof fn lemma_views_of_chunks<S>(chunks: Seq<Vec<S>>, i: int)
    requires
        0 <= i < chunks.len(),
    ensures
        chunk_views(chunks).len() == chunks.len(),
        chunk_views(chunks)[i] == chunks[i]@,
{
}

} // verus!
