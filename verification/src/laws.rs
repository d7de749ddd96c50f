//! What holds of every run of the freeze accumulator.

use vstd::prelude::*;
use crate::marker::marker_row;
use crate::state::{lemma_row_bytes, FreezeState};

verus! {

/// Every capture gave a whole frame of the dimensions of `state`.
pub open spec fn all_whole_frames(state: FreezeState, pulls: Seq<Option<Seq<u8>>>) -> bool {
    forall|i: int|
        0 <= i < pulls.len() ==> (#[trigger] pulls[i] matches Some(live) && live.len()
            == state.frame_len())
}

/// One pull keeps a valid state valid and its dimensions as they are, and
/// what was frozen stays frozen, in place: the frozen rows only grow at
/// their end, by whole steps, and never beyond one frame.
pub proof fn lemma_pull_keeps_valid(state: FreezeState, captured: Option<Seq<u8>>)
    requires
        state.valid(),
    ensures
        state.after(captured).valid(),
        state.after(captured).frame_width == state.frame_width,
        state.after(captured).frame_height == state.frame_height,
        state.after(captured).rows_per_step == state.rows_per_step,
        state.frozen.is_prefix_of(state.after(captured).frozen),
        state.after(captured).frozen.len() == state.frozen.len() || state.after(
            captured,
        ).frozen.len() == state.frozen.len() + state.rows_per_step * state.stride(),
        state.after(captured).frozen.len() <= state.frame_len(),
{
    lemma_row_bytes(state.stride(), state.next_row, state.rows_per_step);
    lemma_row_bytes(state.stride(), state.next_row, state.frame_height);
    lemma_row_bytes(state.stride(), state.next_row + state.rows_per_step, state.frame_height);
}

/// A series of pulls keeps a valid state valid and its dimensions as they
/// are, whatever the captures gave.
pub proof fn lemma_run_keeps_valid(state: FreezeState, pulls: Seq<Option<Seq<u8>>>)
    requires
        state.valid(),
    ensures
        state.run(pulls).valid(),
        state.run(pulls).frame_width == state.frame_width,
        state.run(pulls).frame_height == state.frame_height,
        state.run(pulls).rows_per_step == state.rows_per_step,
        state.run(pulls).frozen.len() <= state.frame_len(),
    decreases pulls.len(),
{
    if pulls.len() > 0 {
        lemma_run_keeps_valid(state, pulls.drop_last());
        lemma_pull_keeps_valid(state.run(pulls.drop_last()), pulls.last());
    } else {
        lemma_row_bytes(state.stride(), state.next_row, state.frame_height);
    }
}

/// The frozen rows never shrink: after pull `n + 1` there are at least as
/// many frozen bytes as after pull `n`, and those of before still come
/// first, whatever the captures gave.
pub proof fn lemma_frozen_never_shrinks(state: FreezeState, pulls: Seq<Option<Seq<u8>>>, n: int)
    requires
        0 <= n < pulls.len(),
    ensures
        state.run(pulls.take(n + 1)).frozen.len() >= state.run(pulls.take(n)).frozen.len(),
        state.run(pulls.take(n)).frozen.is_prefix_of(state.run(pulls.take(n + 1)).frozen),
{
    assert(pulls.take(n + 1).drop_last() =~= pulls.take(n));
}

/// Nothing frozen at the start of a run is lost by its end.
pub proof fn lemma_run_extends_frozen(state: FreezeState, pulls: Seq<Option<Seq<u8>>>)
    ensures
        state.frozen.is_prefix_of(state.run(pulls).frozen),
        state.run(pulls).frozen.len() >= state.frozen.len(),
    decreases pulls.len(),
{
    if pulls.len() > 0 {
        lemma_run_extends_frozen(state, pulls.drop_last());
    }
}

/// A composed frame has exactly the bytes of one frame.
pub proof fn lemma_composed_len(state: FreezeState, live: Seq<u8>)
    requires
        state.compose(live) is Some,
    ensures
        state.compose(live).unwrap().len() == state.frame_len(),
{
}

/// The marker row of every composed frame is the same: the bytes between
/// the frozen rows and the live part are the marker row of the frame's
/// width, whatever is frozen and whatever the live frame holds.
pub proof fn lemma_marker_row_fixed(
    one: FreezeState,
    live_one: Seq<u8>,
    other: FreezeState,
    live_other: Seq<u8>,
)
    requires
        one.frame_width == other.frame_width,
        one.compose(live_one) is Some,
        other.compose(live_other) is Some,
    ensures
        one.compose(live_one).unwrap().subrange(one.frozen.len() as int, one.live_from() as int)
            == marker_row(one.frame_width),
        other.compose(live_other).unwrap().subrange(
            other.frozen.len() as int,
            other.live_from() as int,
        ) == one.compose(live_one).unwrap().subrange(
            one.frozen.len() as int,
            one.live_from() as int,
        ),
{
    assert(one.compose(live_one).unwrap().subrange(one.frozen.len() as int, one.live_from() as int)
        =~= marker_row(one.frame_width));
    assert(other.compose(live_other).unwrap().subrange(
        other.frozen.len() as int,
        other.live_from() as int,
    ) =~= marker_row(other.frame_width));
}

/// Around the marker row a composed frame shows the frozen rows above and
/// the live frame below, byte for byte.
pub proof fn lemma_composed_parts(state: FreezeState, live: Seq<u8>)
    requires
        state.compose(live) is Some,
    ensures
        state.compose(live).unwrap().subrange(0, state.frozen.len() as int) == state.frozen,
        state.compose(live).unwrap().subrange(state.live_from() as int, state.frame_len() as int)
            == live.subrange(state.live_from() as int, state.frame_len() as int),
{
    let out = state.compose(live).unwrap();
    assert(out.subrange(0, state.frozen.len() as int) =~= state.frozen);
    assert(out.subrange(state.live_from() as int, state.frame_len() as int) =~= live.subrange(
        state.live_from() as int,
        state.frame_len() as int,
    ));
}

/// A live frame that is too short is never read past its end: where it does
/// not reach to the end of the rows to freeze, freezing changes nothing, and
/// where it is shorter than one frame, no frame is composed from it.
pub proof fn lemma_short_frame(state: FreezeState, live: Seq<u8>)
    ensures
        state.can_freeze(live) ==> state.yank_from() <= state.yank_to() <= live.len(),
        live.len() < state.yank_to() ==> state.freeze(live) == state,
        live.len() < state.frame_len() ==> state.compose(live) is None,
        state.compose(live) is Some ==> state.live_from() < state.frame_len() <= live.len(),
{
    lemma_row_bytes(state.stride(), state.next_row, state.rows_per_step);
}

/// For a live frame of exactly one frame's bytes, the next rows are frozen
/// unless they reach past the end of the live frame: that alone decides.
pub proof fn lemma_whole_frame_freezes(state: FreezeState, live: Seq<u8>)
    requires
        state.valid(),
        live.len() == state.frame_len(),
    ensures
        state.can_freeze(live) <==> state.yank_to() <= live.len(),
{
    lemma_row_bytes(state.stride(), state.next_row + state.rows_per_step, state.frame_height);
}

/// Once the marker row has reached the end of the frame the stream has
/// ended for good: whatever the captures give from then on, no frame is
/// handed on, and there is no way back.
pub proof fn lemma_exhausted_is_final(
    state: FreezeState,
    pulls: Seq<Option<Seq<u8>>>,
    captured: Option<Seq<u8>>,
)
    requires
        state.valid(),
        state.exhausted(),
    ensures
        state.run(pulls).exhausted(),
        state.run(pulls).output(captured) is None,
{
    lemma_run_keeps_valid(state, pulls);
    lemma_run_extends_frozen(state, pulls);
    let now = state.run(pulls);
    lemma_pull_keeps_valid(now, captured);
}

/// A run that freezes one row per pull, each capture a whole frame: pull
/// `n` freezes row `n - 1` until all rows are frozen, which is so after as
/// many pulls as the frame has rows and not before. Frames are handed on
/// up to the pull that leaves room for the marker row and one live row, and
/// by none after it.
pub proof fn lemma_single_row_run(state: FreezeState, pulls: Seq<Option<Seq<u8>>>, n: int)
    requires
        state.valid(),
        state.next_row == 0,
        state.rows_per_step == 1,
        all_whole_frames(state, pulls),
        0 <= n <= pulls.len(),
    ensures
        state.run(pulls.take(n)).next_row == if n <= state.frame_height {
            n
        } else {
            state.frame_height as int
        },
        state.run(pulls.take(n)).complete() <==> n >= state.frame_height,
        n < pulls.len() ==> (state.run(pulls.take(n)).output(pulls[n]) is Some <==> n + 2
            < state.frame_height),
    decreases n,
{
    let before = state.run(pulls.take(n));
    lemma_run_keeps_valid(state, pulls.take(n));
    lemma_row_bytes(state.stride(), before.next_row, state.frame_height);
    if n > 0 {
        lemma_single_row_run(state, pulls, n - 1);
        assert(pulls.take(n).drop_last() =~= pulls.take(n - 1));
        assert(pulls.take(n).last() == pulls[n - 1]);
        let earlier = state.run(pulls.take(n - 1));
        lemma_run_keeps_valid(state, pulls.take(n - 1));
        lemma_row_bytes(state.stride(), earlier.next_row + 1, state.frame_height);
    }
    if n < pulls.len() {
        let live = pulls[n]->Some_0;
        let next = before.freeze(live);
        lemma_pull_keeps_valid(before, pulls[n]);
        lemma_row_bytes(state.stride(), before.next_row + 1, state.frame_height);
        lemma_row_bytes(state.stride(), next.next_row, 1);
        lemma_row_bytes(state.stride(), next.next_row + 1, state.frame_height);
    }
}

} // verus!
