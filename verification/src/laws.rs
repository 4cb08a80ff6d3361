//! What holds of the batch state whatever events arrive: the laws of the
//! controller and the accumulator, proved over the state as a mathematical
//! value.

use crate::batch::{
    dispatch_of, dispatched, failures_among, lemma_position, paths_of, position, selects,
    thumbnails_of, Acceptance, BatchView, Dispatch, EventView, ResultView, ThumbnailView,
};
use crate::collector::{collected_paths, path_views, ListingView};
use crate::error::Error;
use crate::worker::OutcomeView;
use vstd::prelude::*;

verus! {

/// Every result is counted once and shown at most once: the thumbnails and
/// the failures among the accepted results add up to their number.
pub proof fn lemma_failures_are_counted_not_shown(accepted: Seq<ResultView>)
    ensures
        thumbnails_of(accepted).len() + failures_among(accepted) == accepted.len(),
    decreases accepted.len(),
{
    if accepted.len() > 0 {
        lemma_failures_are_counted_not_shown(accepted.drop_last());
    }
}

/// Every thumbnail on show is the bitmap of an accepted result, under the
/// path of that result.
pub proof fn lemma_thumbnails_are_accepted(accepted: Seq<ResultView>, at: int)
    requires
        0 <= at < thumbnails_of(accepted).len(),
    ensures
        exists|i: int|
            0 <= i < accepted.len() && (#[trigger] accepted[i]).source_path == thumbnails_of(
                accepted,
            )[at].source_path && accepted[i].outcome == OutcomeView::Bitmap(
                thumbnails_of(accepted)[at].bitmap,
            ),
    decreases accepted.len(),
{
    let before = accepted.drop_last();
    if at < thumbnails_of(before).len() {
        lemma_thumbnails_are_accepted(before, at);
        let i = choose|i: int|
            0 <= i < before.len() && (#[trigger] before[i]).source_path == thumbnails_of(
                before,
            )[at].source_path && before[i].outcome == OutcomeView::Bitmap(
                thumbnails_of(before)[at].bitmap,
            );
        assert(accepted[i] == before[i]);
    } else {
        assert(accepted[accepted.len() - 1] == accepted.last());
    }
}

/// Progress never runs past its end: at all times the number of completed
/// results is at most the number of expected ones, and the two are equal
/// exactly when the batch has settled.
pub proof fn lemma_progress_bounded(state: BatchView)
    ensures
        state.completed() <= state.expected(),
        state.settled() <==> state.completed() == state.expected(),
{
}

/// Once a batch has settled, every expected result is accounted for, and
/// the snapshot holds one thumbnail for each of them but the failures.
pub proof fn lemma_settled_batch(state: BatchView)
    requires
        state.settled(),
    ensures
        state.completed() == state.expected(),
        state.snapshot().len() + failures_among(state.accepted) == state.expected(),
{
    lemma_failures_are_counted_not_shown(state.accepted);
}

/// Both transitions keep the state well formed.
pub proof fn lemma_step_keeps_wf(state: BatchView, event: EventView)
    requires
        state.wf(),
    ensures
        state.step(event).wf(),
{
    match event {
        EventView::FoldersOpened(picked) => {},
        EventView::ImageLoaded(result) => {
            lemma_position(state.pending, result.source_path);
        },
    }
}

/// A picker that was closed, or that came back with no folder, leaves the
/// accepted results, the expected count and the active generation as they
/// were.
pub proof fn lemma_empty_selection_changes_nothing(
    state: BatchView,
    picked: Result<Seq<ListingView>, Error>,
)
    requires
        !selects(picked),
    ensures
        state.select(picked) == state,
{
}

/// A selection starts the next generation with nothing accepted and with as
/// many results expected as it holds image files.
pub proof fn lemma_selection_starts_afresh(
    state: BatchView,
    picked: Result<Seq<ListingView>, Error>,
)
    requires
        state.starts(picked),
    ensures
        state.select(picked).generation == state.generation + 1,
        state.select(picked).completed() == 0,
        state.select(picked).expected() == collected_paths(picked->Ok_0).len(),
        state.select(picked).snapshot().len() == 0,
{
}

/// A selection in which no file is an image starts the next generation
/// with nothing expected: the batch is complete at once, shows nothing, and
/// dispatches no worker. The folders of the selection may be readable or not.
///
/// The one state left out is the one in which the generation numbers have
/// run out: there a selection changes nothing.
pub proof fn lemma_selection_without_images(
    state: BatchView,
    picked: Result<Seq<ListingView>, Error>,
)
    requires
        state.wf(),
        selects(picked),
        collected_paths(picked->Ok_0).len() == 0,
        state.generation < u64::MAX,
    ensures
        state.select(picked).wf(),
        state.select(picked).generation == state.generation + 1,
        state.select(picked).expected() == 0,
        state.select(picked).completed() == 0,
        state.select(picked).settled(),
        state.select(picked).snapshot() == Seq::<ThumbnailView>::empty(),
        state.step(EventView::FoldersOpened(picked)) == state.select(picked),
        forall|dispatch: Dispatch| #[trigger]
            dispatch_of(dispatch, state, picked) ==> dispatch.paths@.len() == 0,
{
    assert forall|dispatch: Dispatch| #[trigger]
        dispatch_of(dispatch, state, picked) implies dispatch.paths@.len() == 0 by {
        assert(path_views(dispatch.paths@).len() == dispatch.paths@.len());
    }
}

/// A result that carries another generation than the active one is
/// discarded: the state stays as it is.
pub proof fn lemma_stale_result_changes_nothing(state: BatchView, result: ResultView)
    requires
        result.generation != state.generation,
    ensures
        state.verdict(result) == Acceptance::Stale,
        state.accept(result) == state,
{
}

/// Once a selection has started a generation, a late result of any earlier
/// generation alters neither the progress nor the snapshot of the new one.
pub proof fn lemma_late_result_is_discarded(
    state: BatchView,
    picked: Result<Seq<ListingView>, Error>,
    late: ResultView,
)
    requires
        state.wf(),
        state.starts(picked),
        late.generation <= state.generation,
    ensures
        state.select(picked).accept(late) == state.select(picked),
{
}

/// An accepted result completes exactly one expected result: the expected
/// count stays what the selection set it to, the completed count grows by
/// one, and the result is the newest of the accepted ones.
pub proof fn lemma_accept_counts_once(state: BatchView, result: ResultView)
    requires
        state.verdict(result) == Acceptance::Accepted,
    ensures
        state.accept(result).expected() == state.expected(),
        state.accept(result).completed() == state.completed() + 1,
        state.accept(result).accepted.last() == result,
        state.accept(result).generation == state.generation,
{
    lemma_position(state.pending, result.source_path);
}

/// A result that is not accepted leaves the state as it is.
pub proof fn lemma_discard_changes_nothing(state: BatchView, result: ResultView)
    requires
        state.verdict(result) != Acceptance::Accepted,
    ensures
        state.accept(result) == state,
{
}

/// A success among the accepted results adds one thumbnail at the end of the
/// snapshot; a failure adds none.
pub proof fn lemma_accept_extends_snapshot(state: BatchView, result: ResultView)
    requires
        state.verdict(result) == Acceptance::Accepted,
    ensures
        state.accept(result).snapshot() == match result.outcome {
            OutcomeView::Bitmap(bitmap) => state.snapshot().push(
                ThumbnailView { source_path: result.source_path, bitmap },
            ),
            OutcomeView::Failed(_) => state.snapshot(),
        },
{
    assert(state.accepted.push(result).drop_last() == state.accepted);
}

/// Whatever events arrive in whatever order, the state is well formed: all
/// that is held, and so all that is shown, carries the active generation.
pub proof fn lemma_run_is_wf(events: Seq<EventView>)
    ensures
        BatchView::run(events).wf(),
    decreases events.len(),
{
    if events.len() > 0 {
        lemma_run_is_wf(events.drop_last());
        lemma_step_keeps_wf(BatchView::run(events.drop_last()), events.last());
    }
}

/// Whatever events arrive in whatever order, the accepted results and the
/// paths still waited for are, taken together, the paths that were
/// dispatched for the active generation. So every thumbnail on show belongs
/// to the latest selection, and the expected count is the number of its
/// image files.
pub proof fn lemma_run_accounts_for_dispatched(events: Seq<EventView>)
    ensures
        paths_of(BatchView::run(events).accepted).to_multiset().add(
            BatchView::run(events).pending.to_multiset(),
        ) == dispatched(events).to_multiset(),
        BatchView::run(events).expected() == dispatched(events).len(),
        BatchView::run(events).completed() <= dispatched(events).len(),
    decreases events.len(),
{
    broadcast use {vstd::seq_lib::group_to_multiset_ensures, vstd::multiset::group_multiset_axioms};

    let state = BatchView::run(events);
    if events.len() == 0 {
        assert(paths_of(state.accepted) =~= Seq::empty());
    } else {
        let before = BatchView::run(events.drop_last());
        lemma_run_accounts_for_dispatched(events.drop_last());
        match events.last() {
            EventView::FoldersOpened(picked) => {
                if before.starts(picked) {
                    assert(paths_of(state.accepted) =~= Seq::empty());
                }
            },
            EventView::ImageLoaded(result) => {
                if before.verdict(result) == Acceptance::Accepted {
                    let at = position(before.pending, result.source_path);
                    lemma_position(before.pending, result.source_path);
                    assert(paths_of(state.accepted) =~= paths_of(before.accepted).push(
                        result.source_path,
                    ));
                    before.pending.to_multiset_ensures();
                    assert(state.pending.to_multiset() =~= before.pending.to_multiset().remove(
                        result.source_path,
                    ));
                    assert(before.pending.to_multiset().count(result.source_path) > 0);
                }
            },
        }
    }
    state.pending.to_multiset_ensures();
    paths_of(state.accepted).to_multiset_ensures();
    dispatched(events).to_multiset_ensures();
}

/// Whatever events arrive in whatever order, every thumbnail on show is the
/// bitmap of a result that carries the active generation, under a path that
/// was dispatched for the latest selection: thumbnails of two selections are
/// never shown side by side.
pub proof fn lemma_snapshot_is_of_latest_selection(events: Seq<EventView>, at: int)
    requires
        0 <= at < BatchView::run(events).snapshot().len(),
    ensures
        dispatched(events).contains(BatchView::run(events).snapshot()[at].source_path),
        exists|i: int|
            0 <= i < BatchView::run(events).accepted.len() && (#[trigger] BatchView::run(
                events,
            ).accepted[i]).generation == BatchView::run(events).generation && BatchView::run(
                events,
            ).accepted[i].source_path == BatchView::run(events).snapshot()[at].source_path
                && BatchView::run(events).accepted[i].outcome == OutcomeView::Bitmap(
                BatchView::run(events).snapshot()[at].bitmap,
            ),
{
    broadcast use {vstd::seq_lib::group_to_multiset_ensures, vstd::multiset::group_multiset_axioms};

    let state = BatchView::run(events);
    let shown = state.snapshot()[at];
    lemma_run_is_wf(events);
    lemma_run_accounts_for_dispatched(events);
    lemma_thumbnails_are_accepted(state.accepted, at);
    let i = choose|i: int|
        0 <= i < state.accepted.len() && (#[trigger] state.accepted[i]).source_path
            == shown.source_path && state.accepted[i].outcome == OutcomeView::Bitmap(shown.bitmap);
    assert(state.accepted[i].generation == state.generation);
    assert(paths_of(state.accepted)[i] == shown.source_path);
    assert(paths_of(state.accepted).contains(shown.source_path));
    assert(paths_of(state.accepted).to_multiset().count(shown.source_path) > 0);
    assert(dispatched(events).to_multiset().count(shown.source_path) > 0);
}

/// A generation that was superseded stays superseded, whatever comes next:
/// its number is not used again, and none of its results is taken in.
pub proof fn lemma_cancelled_for_good(state: BatchView, event: EventView, generation: int)
    requires
        state.wf(),
        state.cancelled(generation),
    ensures
        state.step(event).cancelled(generation),
        forall|late: ResultView|
            late.generation == generation ==> #[trigger] state.step(event).accept(late)
                == state.step(event),
{
}

/// The active generation never goes back: after more events it is the same
/// or a later one.
pub proof fn lemma_generations_only_grow(events: Seq<EventView>, upto: int)
    requires
        0 <= upto <= events.len(),
    ensures
        BatchView::run(events.take(upto)).generation <= BatchView::run(events).generation,
    decreases events.len() - upto,
{
    if upto < events.len() {
        lemma_generations_only_grow(events.drop_last(), upto);
        assert(events.drop_last().take(upto) == events.take(upto));
    } else {
        assert(events.take(upto) == events);
    }
}

} // verus!
