//! The batch controller and the result accumulator: one generation of work
//! per folder selection, and only the results of the latest generation are
//! ever taken in.

use crate::collector::{
    collect, collected_paths, failure_views, listing_views, path_views, scan_failures,
    ListingView, RootListing, ScanFailed,
};
use crate::error::Error;
use crate::geometry::Envelope;
use crate::worker::{
    process, processed, Bitmap, BitmapView, FailureKind, OutcomeView, RawImage, ThumbnailOutcome,
};
use vstd::prelude::*;

verus! {

/// What a worker hands back for one dispatched path.
#[derive(Debug, Clone)]
pub struct ThumbnailResult {
    /// The generation that the path was dispatched under.
    pub generation: u64,
    pub source_path: String,
    pub outcome: ThumbnailOutcome,
}

/// A `ThumbnailResult` as a mathematical value.
pub struct ResultView {
    pub generation: int,
    pub source_path: Seq<char>,
    pub outcome: OutcomeView,
}

impl View for ThumbnailResult {
    type V = ResultView;

    open spec fn view(&self) -> ResultView {
        ResultView {
            generation: self.generation as int,
            source_path: self.source_path@,
            outcome: self.outcome@,
        }
    }
}

/// Results as mathematical values.
pub open spec fn result_views(results: Seq<ThumbnailResult>) -> Seq<ResultView> {
    results.map_values(|result: ThumbnailResult| result@)
}

/// The controller's state: no selection was made yet, or the generation
/// with the given number is the active one.
#[derive(Clone, Copy, Debug, PartialEq, Eq, Structural)]
pub enum Phase {
    Idle,
    Running(u64),
}

/// One thumbnail on show.
pub struct ThumbnailView {
    pub source_path: Seq<char>,
    pub bitmap: BitmapView,
}

/// The thumbnails among `accepted`, in the order of acceptance. A failure
/// is counted as completed and shows nothing.
pub open spec fn thumbnails_of(accepted: Seq<ResultView>) -> Seq<ThumbnailView>
    decreases accepted.len(),
{
    if accepted.len() == 0 {
        Seq::empty()
    } else {
        let before = thumbnails_of(accepted.drop_last());
        match accepted.last().outcome {
            OutcomeView::Bitmap(bitmap) => before.push(
                ThumbnailView { source_path: accepted.last().source_path, bitmap },
            ),
            OutcomeView::Failed(_) => before,
        }
    }
}

/// The number of failures among `accepted`.
pub open spec fn failures_among(accepted: Seq<ResultView>) -> nat
    decreases accepted.len(),
{
    if accepted.len() == 0 {
        0
    } else {
        let before = failures_among(accepted.drop_last());
        match accepted.last().outcome {
            OutcomeView::Bitmap(_) => before,
            OutcomeView::Failed(_) => before + 1,
        }
    }
}

/// The index of the first occurrence of `path` in `paths`, or the length of
/// `paths` where it does not occur.
pub open spec fn position(paths: Seq<Seq<char>>, path: Seq<char>) -> int
    decreases paths.len(),
{
    if paths.len() == 0 {
        0
    } else if paths.first() == path {
        0
    } else {
        1 + position(paths.drop_first(), path)
    }
}

/// A folder selection as a mathematical value.
pub open spec fn picked_view(picked: Result<Vec<RootListing>, Error>) -> Result<
    Seq<ListingView>,
    Error,
> {
    match picked {
        Ok(listings) => Ok(listing_views(listings@)),
        Err(cause) => Err(cause),
    }
}

/// Whether the folder picker came back with a selection: it was not closed,
/// and at least one folder was picked.
pub open spec fn selects(picked: Result<Seq<ListingView>, Error>) -> bool {
    picked matches Ok(listings) && listings.len() > 0
}

/// What became of a result that was handed to the accumulator.
#[derive(Clone, Copy, Debug, PartialEq, Eq, Structural)]
pub enum Acceptance {
    /// It belongs to the active generation and was appended.
    Accepted,
    /// It belongs to a generation that is not the active one.
    Stale,
    /// It names no path of the active generation that is still waited for.
    Unexpected,
}

/// The batch state as a mathematical value.
pub struct BatchView {
    /// The number of the active generation; zero while idle.
    pub generation: int,
    /// The results taken in for the active generation, oldest first.
    pub accepted: Seq<ResultView>,
    /// The dispatched paths whose results have not arrived, in the order of
    /// dispatch.
    pub pending: Seq<Seq<char>>,
}

impl BatchView {
    /// The state before the first selection.
    pub open spec fn idle() -> BatchView {
        BatchView { generation: 0, accepted: Seq::empty(), pending: Seq::empty() }
    }

    /// What holds of the state at all times: the generation is a count of
    /// selections, nothing is held while idle, and every result that is held
    /// belongs to the active generation.
    pub open spec fn wf(self) -> bool {
        &&& 0 <= self.generation <= u64::MAX
        &&& (self.generation == 0 ==> self.accepted.len() == 0 && self.pending.len() == 0)
        &&& forall|i: int|
            0 <= i < self.accepted.len() ==> (#[trigger] self.accepted[i]).generation
                == self.generation
    }

    pub open spec fn phase(self) -> Phase {
        if self.generation == 0 {
            Phase::Idle
        } else {
            Phase::Running(self.generation as u64)
        }
    }

    /// How many results the active generation was dispatched for.
    pub open spec fn expected(self) -> nat {
        self.accepted.len() + self.pending.len()
    }

    /// How many of them are accounted for, as a bitmap or as a failure.
    pub open spec fn completed(self) -> nat {
        self.accepted.len()
    }

    /// Whether every result of the active generation is accounted for.
    pub open spec fn settled(self) -> bool {
        self.pending.len() == 0
    }

    /// The thumbnails on show.
    pub open spec fn snapshot(self) -> Seq<ThumbnailView> {
        thumbnails_of(self.accepted)
    }

    /// Whether work tagged with `generation` has been told to stop: it was
    /// started once and is no longer the active one.
    pub open spec fn cancelled(self, generation: int) -> bool {
        1 <= generation < self.generation
    }

    /// Whether a selection starts a new generation in this state.
    pub open spec fn starts(self, picked: Result<Seq<ListingView>, Error>) -> bool {
        selects(picked) && self.generation < u64::MAX
    }

    /// The state after a folder selection. A picker that was closed, or that
    /// came back with no folder, changes nothing. Any other selection starts
    /// the next generation: what was held is dropped, and the image files of
    /// the selection are waited for.
    pub open spec fn select(self, picked: Result<Seq<ListingView>, Error>) -> BatchView {
        if self.starts(picked) {
            BatchView {
                generation: self.generation + 1,
                accepted: Seq::empty(),
                pending: collected_paths(picked->Ok_0),
            }
        } else {
            self
        }
    }

    /// What the accumulator does with `result` in this state.
    pub open spec fn verdict(self, result: ResultView) -> Acceptance {
        if self.generation == 0 || result.generation != self.generation {
            Acceptance::Stale
        } else if position(self.pending, result.source_path) >= self.pending.len() {
            Acceptance::Unexpected
        } else {
            Acceptance::Accepted
        }
    }

    /// The state after `result` was handed in: appended where it is
    /// accepted, and then no longer waited for; unchanged otherwise.
    pub open spec fn accept(self, result: ResultView) -> BatchView {
        if self.verdict(result) == Acceptance::Accepted {
            BatchView {
                generation: self.generation,
                accepted: self.accepted.push(result),
                pending: self.pending.remove(position(self.pending, result.source_path)),
            }
        } else {
            self
        }
    }
}

/// What reaches the controller, as a mathematical value.
pub enum EventView {
    FoldersOpened(Result<Seq<ListingView>, Error>),
    ImageLoaded(ResultView),
}

impl BatchView {
    /// The state after one event.
    pub open spec fn step(self, event: EventView) -> BatchView {
        match event {
            EventView::FoldersOpened(picked) => self.select(picked),
            EventView::ImageLoaded(result) => self.accept(result),
        }
    }

    /// The state after `events`, handled one at a time in the order of
    /// arrival, starting from the idle state.
    pub open spec fn run(events: Seq<EventView>) -> BatchView
        decreases events.len(),
    {
        if events.len() == 0 {
            BatchView::idle()
        } else {
            BatchView::run(events.drop_last()).step(events.last())
        }
    }
}

/// The paths that were dispatched for the generation that is active after
/// `events`: those collected from the latest selection that started one.
pub open spec fn dispatched(events: Seq<EventView>) -> Seq<Seq<char>>
    decreases events.len(),
{
    if events.len() == 0 {
        Seq::empty()
    } else {
        match events.last() {
            EventView::FoldersOpened(picked) => if BatchView::run(events.drop_last()).starts(
                picked,
            ) {
                collected_paths(picked->Ok_0)
            } else {
                dispatched(events.drop_last())
            },
            EventView::ImageLoaded(_) => dispatched(events.drop_last()),
        }
    }
}

/// The source paths of `results`, in order.
pub open spec fn paths_of(results: Seq<ResultView>) -> Seq<Seq<char>> {
    results.map_values(|result: ResultView| result.source_path)
}

/// `position` gives the first index at which `path` stands.
pub proof fn lemma_position(paths: Seq<Seq<char>>, path: Seq<char>)
    ensures
        0 <= position(paths, path) <= paths.len(),
        position(paths, path) < paths.len() ==> paths[position(paths, path)] == path,
        forall|i: int| 0 <= i < position(paths, path) ==> paths[i] != path,
    decreases paths.len(),
{
    if paths.len() > 0 && paths.first() != path {
        let rest = paths.drop_first();
        lemma_position(rest, path);
        assert forall|i: int| 0 <= i < position(paths, path) implies paths[i] != path by {
            if i > 0 {
                assert(paths[i] == rest[i - 1]);
            }
        }
    }
}

/// An index with `path` at it and no `path` before it is `position`.
pub proof fn lemma_position_is(paths: Seq<Seq<char>>, path: Seq<char>, at: int)
    requires
        0 <= at <= paths.len(),
        at < paths.len() ==> paths[at] == path,
        forall|i: int| 0 <= i < at ==> paths[i] != path,
    ensures
        position(paths, path) == at,
{
    lemma_position(paths, path);
    let p = position(paths, path);
    if p < at {
        assert(paths[p] == path);
    }
}

/// One thumbnail on show: the bitmap of an accepted result and the path of
/// the file that it was made from.
#[derive(Debug, Clone, Copy)]
pub struct Thumbnail<'a> {
    pub source_path: &'a String,
    pub bitmap: &'a Bitmap,
}

impl<'a> View for Thumbnail<'a> {
    type V = ThumbnailView;

    open spec fn view(&self) -> ThumbnailView {
        ThumbnailView { source_path: self.source_path@, bitmap: self.bitmap@ }
    }
}

/// Thumbnails as mathematical values.
pub open spec fn thumbnail_views<'a>(thumbnails: Seq<Thumbnail<'a>>) -> Seq<ThumbnailView> {
    thumbnails.map_values(|thumbnail: Thumbnail<'a>| thumbnail@)
}

/// The work that a selection starts.
#[derive(Debug, Clone)]
pub struct Dispatch {
    /// The generation to tag each result with.
    pub generation: u64,
    /// The generation that was active until now, whose outstanding work may
    /// be told to stop. Stopping it is a courtesy: its results are discarded
    /// on arrival in any case.
    pub superseded: Option<u64>,
    /// The image files to make thumbnails of, one worker each.
    pub paths: Vec<String>,
    /// The selected folders that could not be listed.
    pub failures: Vec<ScanFailed>,
}

/// What a folder selection led to.
#[derive(Debug, Clone)]
pub enum Selection {
    /// Nothing was selected, and nothing has changed.
    Ignored,
    /// There is no number left for another generation, and nothing has
    /// changed.
    Exhausted,
    /// A new generation is active.
    Started(Dispatch),
}

/// Whether `dispatch` is the work that `picked` starts in the state `before`:
/// tagged with the next generation, naming the generation that it
/// supersedes, and holding the image files and the failed folders of the
/// selection.
pub open spec fn dispatch_of(
    dispatch: Dispatch,
    before: BatchView,
    picked: Result<Seq<ListingView>, Error>,
) -> bool {
    &&& dispatch.generation == before.generation + 1
    &&& dispatch.superseded == (if before.generation == 0 {
        None
    } else {
        Some(before.generation as u64)
    })
    &&& path_views(dispatch.paths@) == collected_paths(picked->Ok_0)
    &&& failure_views(dispatch.failures@) == scan_failures(picked->Ok_0)
}

/// What reaches the controller: the answer of the folder picker with the
/// listings of the picked folders, or the result of one worker.
#[derive(Debug)]
pub enum Event {
    FoldersOpened(Result<Vec<RootListing>, Error>),
    ImageLoaded(ThumbnailResult),
}

impl View for Event {
    type V = EventView;

    open spec fn view(&self) -> EventView {
        match self {
            Event::FoldersOpened(picked) => EventView::FoldersOpened(picked_view(*picked)),
            Event::ImageLoaded(result) => EventView::ImageLoaded(result@),
        }
    }
}

/// What the caller is to do after an event.
#[derive(Debug, Clone)]
pub enum Action {
    /// Nothing: the state is as it was.
    Nothing,
    /// Stop the superseded generation's workers if that can be done, and
    /// start one worker for each dispatched path.
    Dispatch(Dispatch),
    /// Show the progress and the snapshot again: a result was accepted.
    Refresh,
}

/// Does the work of one worker: makes the thumbnail of the file at `path`
/// from what reading and decoding the file gave, and tags the outcome with
/// the generation that the path was dispatched under and with the path
/// itself.
pub fn result_for(
    generation: u64,
    path: String,
    decoded: Result<Result<RawImage, FailureKind>, Error>,
    envelope: &Envelope,
) -> (result: ThumbnailResult)
    ensures
        result@.generation == generation,
        result@.source_path == path@,
        result@.outcome == processed(decoded, *envelope),
        result@.outcome matches OutcomeView::Bitmap(bitmap) ==> bitmap.wf() && bitmap.within(
            *envelope,
        ),
{
    let outcome = process(decoded, envelope);
    ThumbnailResult { generation, source_path: path, outcome }
}

/// The single owner of what is on show: the active generation, the results
/// accepted for it, and the paths whose results are still waited for.
#[derive(Debug)]
pub struct BatchState {
    generation: u64,
    accepted_results: Vec<ThumbnailResult>,
    pending: Vec<String>,
}

impl View for BatchState {
    type V = BatchView;

    closed spec fn view(&self) -> BatchView {
        BatchView {
            generation: self.generation as int,
            accepted: result_views(self.accepted_results@),
            pending: path_views(self.pending@),
        }
    }
}

/// A copy of `paths`.
fn copy_paths(paths: &Vec<String>) -> (copy: Vec<String>)
    ensures
        path_views(copy@) == path_views(paths@),
{
    let mut copy: Vec<String> = Vec::new();
    let mut i: usize = 0;
    while i < paths.len()
        invariant
            0 <= i <= paths.len(),
            path_views(copy@) == path_views(paths@).take(i as int),
        decreases paths.len() - i,
    {
        let ghost before = path_views(copy@);
        copy.push(paths[i].clone());
        proof {
            assert(path_views(copy@) =~= before.push(paths@[i as int]@));
            assert(path_views(paths@).take(i + 1) =~= path_views(paths@).take(i as int).push(
                paths@[i as int]@,
            ));
        }
        i += 1;
    }
    assert(path_views(paths@).take(i as int) == path_views(paths@));
    copy
}

impl BatchState {
    #[verifier::type_invariant]
    spec fn inv(&self) -> bool {
        self@.wf() && self.accepted_results@.len() + self.pending@.len() <= usize::MAX
    }

    /// The state before the first selection.
    pub fn new() -> (state: BatchState)
        ensures
            state@ == BatchView::idle(),
            state@.wf(),
    {
        let state = BatchState {
            generation: 0,
            accepted_results: Vec::new(),
            pending: Vec::new(),
        };
        assert(state@.accepted =~= Seq::empty() && state@.pending =~= Seq::empty());
        state
    }

    /// `Idle`, or `Running` with the active generation.
    pub fn phase(&self) -> (phase: Phase)
        ensures
            phase == self@.phase(),
            self@.wf(),
    {
        proof {
            use_type_invariant(self);
        }
        if self.generation == 0 {
            Phase::Idle
        } else {
            Phase::Running(self.generation)
        }
    }

    /// The only generation whose results are taken in, if there is one.
    pub fn active_generation(&self) -> (active: Option<u64>)
        ensures
            active == (if self@.generation == 0 {
                None
            } else {
                Some(self@.generation as u64)
            }),
    {
        proof {
            use_type_invariant(self);
        }
        if self.generation == 0 {
            None
        } else {
            Some(self.generation)
        }
    }

    /// Whether work tagged with `generation` has been told to stop.
    pub fn is_cancelled(&self, generation: u64) -> (cancelled: bool)
        ensures
            cancelled == self@.cancelled(generation as int),
    {
        1 <= generation && generation < self.generation
    }

    /// How many results the active generation was dispatched for.
    pub fn expected_count(&self) -> (expected: usize)
        ensures
            expected == self@.expected(),
    {
        proof {
            use_type_invariant(self);
        }
        self.accepted_results.len() + self.pending.len()
    }

    /// How many results of the active generation are accounted for, and how
    /// many there are to be. The first never exceeds the second.
    pub fn progress(&self) -> (progress: (usize, usize))
        ensures
            progress.0 == self@.completed(),
            progress.1 == self@.expected(),
            progress.0 <= progress.1,
    {
        proof {
            use_type_invariant(self);
        }
        (self.accepted_results.len(), self.accepted_results.len() + self.pending.len())
    }

    /// Whether every result of the active generation is accounted for.
    pub fn is_settled(&self) -> (settled: bool)
        ensures
            settled == self@.settled(),
            settled <==> self@.completed() == self@.expected(),
    {
        self.pending.len() == 0
    }

    /// The results accepted for the active generation, oldest first.
    pub fn accepted_results(&self) -> (accepted: &Vec<ThumbnailResult>)
        ensures
            result_views(accepted@) == self@.accepted,
            forall|i: int|
                0 <= i < accepted@.len() ==> (#[trigger] accepted@[i]).generation
                    == self@.generation,
    {
        proof {
            use_type_invariant(self);
            assert forall|i: int| 0 <= i < self.accepted_results@.len() implies (
            #[trigger] self.accepted_results@[i]).generation == self@.generation by {
                assert(self@.accepted[i].generation == self@.generation);
            }
        }
        &self.accepted_results
    }

    /// The dispatched paths whose results have not arrived.
    pub fn pending_paths(&self) -> (pending: &Vec<String>)
        ensures
            path_views(pending@) == self@.pending,
    {
        &self.pending
    }

    /// The thumbnails on show: the bitmaps of the accepted results with the
    /// paths of their files, in the order of acceptance. Failures are not
    /// among them.
    pub fn snapshot(&self) -> (shown: Vec<Thumbnail<'_>>)
        ensures
            thumbnail_views(shown@) == self@.snapshot(),
    {
        let mut shown: Vec<Thumbnail<'_>> = Vec::new();
        let mut i: usize = 0;
        let ghost accepted = result_views(self.accepted_results@);
        while i < self.accepted_results.len()
            invariant
                0 <= i <= self.accepted_results.len(),
                accepted == result_views(self.accepted_results@),
                thumbnail_views(shown@) == thumbnails_of(accepted.take(i as int)),
            decreases self.accepted_results.len() - i,
        {
            let result = &self.accepted_results[i];
            proof {
                assert(accepted.take(i + 1).drop_last() == accepted.take(i as int));
                assert(accepted.take(i + 1).last() == result@);
            }
            match &result.outcome {
                ThumbnailOutcome::Bitmap(bitmap) => {
                    let ghost before = thumbnail_views(shown@);
                    let thumbnail = Thumbnail { source_path: &result.source_path, bitmap };
                    shown.push(thumbnail);
                    assert(thumbnail_views(shown@) =~= before.push(thumbnail@));
                },
                ThumbnailOutcome::Failed(_) => {},
            }
            i += 1;
        }
        assert(accepted.take(i as int) == accepted);
        shown
    }

    /// Handles what the folder picker and the file system answered.
    ///
    /// A picker that was closed, or one that came back with no folder,
    /// changes nothing. Any other selection starts the next generation: the
    /// image files are collected, the results held for the generation before
    /// are dropped, and the count of expected results is set, all at once.
    pub fn select(&mut self, picked: Result<Vec<RootListing>, Error>) -> (outcome: Selection)
        ensures
            final(self)@ == old(self)@.select(picked_view(picked)),
            final(self)@.wf(),
            outcome matches Selection::Started(dispatch) ==> {
                &&& final(self)@.generation == dispatch.generation
                &&& final(self)@.completed() == 0
                &&& final(self)@.expected() == dispatch.paths@.len()
            },
            match outcome {
                Selection::Ignored => !selects(picked_view(picked)),
                Selection::Exhausted => selects(picked_view(picked)) && old(self)@.generation
                    == u64::MAX,
                Selection::Started(dispatch) => old(self)@.starts(picked_view(picked))
                    && dispatch_of(dispatch, old(self)@, picked_view(picked)),
            },
    {
        proof {
            use_type_invariant(&*self);
        }
        match picked {
            Err(_) => Selection::Ignored,
            Ok(listings) => {
                if listings.len() == 0 {
                    Selection::Ignored
                } else if self.generation == u64::MAX {
                    Selection::Exhausted
                } else {
                    let found = collect(&listings);
                    let superseded = if self.generation == 0 {
                        None
                    } else {
                        Some(self.generation)
                    };
                    let generation = self.generation + 1;
                    let pending = copy_paths(&found.paths);
                    let accepted_results: Vec<ThumbnailResult> = Vec::new();
                    proof {
                        assert(result_views(accepted_results@) =~= Seq::empty());
                        assert(pending@.len() == pending.len());
                    }
                    *self = BatchState { generation, accepted_results, pending };
                    Selection::Started(
                        Dispatch {
                            generation,
                            superseded,
                            paths: found.paths,
                            failures: found.failures,
                        },
                    )
                }
            },
        }
    }

    /// The index of the first pending path that equals `path`.
    fn find_pending(&self, path: &String) -> (found: Option<usize>)
        ensures
            match found {
                Some(index) => index == position(self@.pending, path@) && index
                    < self.pending@.len(),
                None => position(self@.pending, path@) >= self@.pending.len(),
            },
    {
        let mut i: usize = 0;
        while i < self.pending.len()
            invariant
                0 <= i <= self.pending.len(),
                forall|k: int| 0 <= k < i ==> path_views(self.pending@)[k] != path@,
            decreases self.pending.len() - i,
        {
            if self.pending[i] == *path {
                proof {
                    lemma_position_is(path_views(self.pending@), path@, i as int);
                }
                return Some(i);
            }
            i += 1;
        }
        proof {
            lemma_position_is(path_views(self.pending@), path@, i as int);
        }
        None
    }

    /// Takes in the result of one worker.
    ///
    /// A result of a generation that is not the active one is discarded: that
    /// is what becomes of work that was overtaken by a new selection. So is a
    /// result for a path that the active generation does not wait for, which
    /// keeps a result from being counted twice. Any other result is appended,
    /// and its path is no longer waited for.
    pub fn accept(&mut self, result: ThumbnailResult) -> (verdict: Acceptance)
        ensures
            verdict == old(self)@.verdict(result@),
            final(self)@ == old(self)@.accept(result@),
            final(self)@.wf(),
    {
        proof {
            use_type_invariant(&*self);
        }
        if self.generation == 0 || result.generation != self.generation {
            return Acceptance::Stale;
        }
        match self.find_pending(&result.source_path) {
            None => Acceptance::Unexpected,
            Some(index) => {
                let ghost before = self@;
                let mut held = BatchState::new();
                core::mem::swap(self, &mut held);
                let BatchState { generation, mut accepted_results, mut pending } = held;
                pending.remove(index);
                accepted_results.push(result);
                assert(path_views(pending@) =~= before.pending.remove(index as int));
                assert(result_views(accepted_results@) =~= before.accepted.push(result@));
                *self = BatchState { generation, accepted_results, pending };
                Acceptance::Accepted
            },
        }
    }

    /// Handles one event and says what is to be done next. Events are handled
    /// one at a time, in the order of their arrival.
    pub fn update(&mut self, event: Event) -> (action: Action)
        ensures
            final(self)@ == old(self)@.step(event@),
            final(self)@.wf(),
            action matches Action::Dispatch(dispatch) ==> {
                &&& final(self)@.generation == dispatch.generation
                &&& final(self)@.completed() == 0
                &&& final(self)@.expected() == dispatch.paths@.len()
            },
            match event@ {
                EventView::FoldersOpened(picked) => if old(self)@.starts(picked) {
                    action matches Action::Dispatch(dispatch) && dispatch_of(
                        dispatch,
                        old(self)@,
                        picked,
                    )
                } else {
                    action is Nothing
                },
                EventView::ImageLoaded(result) => if old(self)@.verdict(result)
                    == Acceptance::Accepted {
                    action is Refresh
                } else {
                    action is Nothing
                },
            },
    {
        match event {
            Event::FoldersOpened(picked) => match self.select(picked) {
                Selection::Started(dispatch) => Action::Dispatch(dispatch),
                Selection::Ignored => Action::Nothing,
                Selection::Exhausted => Action::Nothing,
            },
            Event::ImageLoaded(result) => match self.accept(result) {
                Acceptance::Accepted => Action::Refresh,
                Acceptance::Stale => Action::Nothing,
                Acceptance::Unexpected => Action::Nothing,
            },
        }
    }
}

impl Default for BatchState {
    /// The state before the first selection.
    fn default() -> (state: BatchState)
        ensures
            state@ == BatchView::idle(),
    {
        BatchState::new()
    }
}


} // verus!
