//! What holds of every run of a transfer.
//!
//! A run is a fresh transfer together with the inputs that were reported
//! to it, in order. The events of a run are the events of its steps. The
//! laws below hold whatever the inputs are.

use vstd::prelude::*;
use crate::transfer::{last_chunk_written, next, Directive, CHUNK_SIZE, EventView, InputView, TransferKind, TransferState, TransferView};

verus! {

/// A transfer after some inputs, with the events emitted on the way.
pub struct RunView {
    pub transfer: TransferView,
    pub events: Seq<EventView>,
}

/// A run extended by one input.
pub open spec fn extend(r: RunView, input: InputView) -> RunView {
    let s = next(r.transfer, input);
    RunView {
        transfer: s.transfer,
        events: match s.event {
            Some(e) => r.events.push(e),
            None => r.events,
        },
    }
}

/// The run of `t` over `inputs`.
pub open spec fn run(t: TransferView, inputs: Seq<InputView>) -> RunView
    decreases inputs.len(),
{
    if inputs.len() == 0 {
        RunView { transfer: t, events: Seq::empty() }
    } else {
        extend(run(t, inputs.drop_last()), inputs.last())
    }
}

/// A transfer that has not taken a step yet.
pub open spec fn fresh(t: TransferView) -> bool {
    t.state == TransferState::Pending && t.transferred == 0
}

/// The state in which an event leaves its transfer, for an event that
/// closes it.
pub open spec fn closes_as(e: EventView) -> Option<TransferState> {
    match e {
        EventView::Progress { .. } => None,
        EventView::Cancelled { .. } => Some(TransferState::Cancelled),
        EventView::Error { .. } => Some(TransferState::Failed),
        EventView::Finished { .. } => Some(TransferState::Completed),
    }
}

/// The byte count that a progress event carries.
pub open spec fn moved(e: EventView) -> u64 {
    match e {
        EventView::Progress { transferred, .. } => transferred,
        _ => 0,
    }
}

/// The number of progress events of a run in state `state` with `len`
/// events: all of them, but for the closing one.
pub open spec fn progress_len(state: TransferState, len: nat) -> int {
    if state.is_terminal() {
        len - 1
    } else {
        len as int
    }
}

/// How the events of a run fit its transfer: progress events first, with
/// byte counts that never fall and end at the transfer's own count, then
/// the one closing event where the transfer has ended.
pub open spec fn coherent(t0: TransferView, r: RunView) -> bool {
    let t = r.transfer;
    let n = progress_len(t.state, r.events.len());
    &&& t.id == t0.id
    &&& t.kind == t0.kind
    &&& t.connection_id == t0.connection_id
    &&& t.local_path == t0.local_path
    &&& t.remote_path == t0.remote_path
    &&& 0 <= n
    &&& forall|i: int| 0 <= i < r.events.len() ==> (#[trigger] r.events[i]).transfer_id() == t0.id
    &&& forall|i: int|
        0 <= i < n ==> (#[trigger] r.events[i] matches EventView::Progress {
            transferred,
            total,
            ..
        } && transferred <= t.transferred && total == t.total)
    &&& forall|i: int, j: int|
        0 <= i <= j < n ==> moved(#[trigger] r.events[i]) <= moved(#[trigger] r.events[j])
    &&& n > 0 ==> moved(r.events[n - 1]) == t.transferred
    &&& n == 0 ==> t.transferred == 0
    &&& t.state == TransferState::Pending ==> n == 0
    &&& t.state.is_terminal() ==> closes_as(r.events.last()) == Some(t.state)
}

/// One more input keeps a run coherent.
pub proof fn lemma_extend_coherent(t0: TransferView, r: RunView, input: InputView)
    requires
        coherent(t0, r),
    ensures
        coherent(t0, extend(r, input)),
{
    let r1 = extend(r, input);
    let s = next(r.transfer, input);
    let n = progress_len(r.transfer.state, r.events.len());
    match s.event {
        Some(e) => {
            assert(!r.transfer.state.is_terminal());
            assert(r1.events.len() == r.events.len() + 1);
            assert(r1.events.last() == e);
            assert forall|i: int| 0 <= i < r.events.len() implies #[trigger] r1.events[i]
                == r.events[i] by {}
        },
        None => {},
    }
}

/// Every run of a fresh transfer is coherent.
pub proof fn lemma_run_coherent(t: TransferView, inputs: Seq<InputView>)
    requires
        fresh(t),
    ensures
        coherent(t, run(t, inputs)),
    decreases inputs.len(),
{
    if inputs.len() > 0 {
        lemma_run_coherent(t, inputs.drop_last());
        lemma_extend_coherent(t, run(t, inputs.drop_last()), inputs.last());
    }
}

/// The number of events that close a transfer as `state`.
pub open spec fn closings(events: Seq<EventView>, state: TransferState) -> nat
    decreases events.len(),
{
    if events.len() == 0 {
        0
    } else {
        closings(events.drop_last(), state) + if closes_as(events.last()) == Some(state) {
            1nat
        } else {
            0nat
        }
    }
}

proof fn lemma_progress_closes_nothing(events: Seq<EventView>, state: TransferState)
    requires
        forall|i: int| 0 <= i < events.len() ==> #[trigger] events[i] is Progress,
    ensures
        closings(events, state) == 0,
    decreases events.len(),
{
    if events.len() > 0 {
        let front = events.drop_last();
        assert forall|i: int| 0 <= i < front.len() implies #[trigger] front[i] is Progress by {
            assert(front[i] == events[i]);
        }
        lemma_progress_closes_nothing(front, state);
        assert(events.last() == events[events.len() - 1]);
    }
}

/// The events of `r` close its transfer at most once and at the very end:
/// all events but the last are progress events, the last one closes the
/// transfer in the state in which the transfer stands where it has ended,
/// and every event carries the identifier `id`.
pub open spec fn closes_once(r: RunView, id: Seq<char>) -> bool {
    &&& forall|i: int| 0 <= i < r.events.len() - 1 ==> #[trigger] r.events[i] is Progress
    &&& forall|i: int| 0 <= i < r.events.len() ==> (#[trigger] r.events[i]).transfer_id() == id
    &&& r.transfer.state.is_terminal() ==> r.events.len() > 0 && closes_as(r.events.last())
        == Some(r.transfer.state)
    &&& !r.transfer.state.is_terminal() ==> forall|i: int|
        0 <= i < r.events.len() ==> #[trigger] r.events[i] is Progress
}

/// A transfer emits one closing event when it ends and none before: the
/// events that close a run as `state` number one where the run has ended
/// in `state`, and zero otherwise. The closing event is the last event of
/// the run, and every event carries the transfer's identifier.
pub proof fn law_one_closing_event(t: TransferView, inputs: Seq<InputView>, state: TransferState)
    requires
        fresh(t),
    ensures
        closes_once(run(t, inputs), t.id),
        closings(run(t, inputs).events, state) == if run(t, inputs).transfer.state == state
            && state.is_terminal() {
            1nat
        } else {
            0nat
        },
{
    lemma_run_coherent(t, inputs);
    let r = run(t, inputs);
    lemma_closings_of_coherent(t, r, state);
}

proof fn lemma_closings_of_coherent(t0: TransferView, r: RunView, state: TransferState)
    requires
        coherent(t0, r),
    ensures
        closings(r.events, state) == if r.transfer.state == state && state.is_terminal() {
            1nat
        } else {
            0nat
        },
{
    if r.transfer.state.is_terminal() {
        let front = r.events.drop_last();
        assert forall|i: int| 0 <= i < front.len() implies #[trigger] front[i] is Progress by {
            assert(front[i] == r.events[i]);
        }
        lemma_progress_closes_nothing(front, state);
    } else {
        lemma_progress_closes_nothing(r.events, state);
    }
}

/// The byte counts of the progress events of `r` never fall, and none
/// passes the transfer's own count.
pub open spec fn progress_rises(r: RunView) -> bool {
    &&& forall|i: int, j: int|
        0 <= i <= j < r.events.len() && r.events[i] is Progress && r.events[j] is Progress
            ==> moved(#[trigger] r.events[i]) <= moved(#[trigger] r.events[j])
    &&& forall|i: int|
        0 <= i < r.events.len() && r.events[i] is Progress ==> moved(#[trigger] r.events[i])
            <= r.transfer.transferred
}

/// The last progress event of `r`, which stands before the closing event,
/// carries the announced total; where `r` has no progress event, the total
/// is zero.
pub open spec fn ends_at_total(r: RunView) -> bool {
    if r.events.len() >= 2 {
        moved(r.events[r.events.len() - 2]) == r.transfer.total
    } else {
        r.transfer.total == 0
    }
}

/// The byte counts of the progress events of a run never fall and never
/// pass the transfer's own count. Where the run has completed with
/// exactly the announced bytes moved, the last progress event carries the
/// total.
pub proof fn law_progress_rises(t: TransferView, inputs: Seq<InputView>)
    requires
        fresh(t),
    ensures
        progress_rises(run(t, inputs)),
        run(t, inputs).transfer.state == TransferState::Completed && run(
            t,
            inputs,
        ).transfer.transferred == run(t, inputs).transfer.total ==> ends_at_total(run(t, inputs)),
{
    lemma_run_coherent(t, inputs);
    let r = run(t, inputs);
    let n = progress_len(r.transfer.state, r.events.len());
    assert forall|i: int| 0 <= i < r.events.len() && r.events[i] is Progress implies i < n by {
        if r.transfer.state.is_terminal() && i == r.events.len() - 1 {
            assert(r.events.last() == r.events[i]);
        }
    }
}

/// Progress comes chunk by chunk: a step that emits a progress event has
/// moved the bytes of one chunk, at most `CHUNK_SIZE` of them, and the
/// event carries the new byte count and the announced total.
pub proof fn law_progress_by_chunk(t: TransferView, input: InputView)
    requires
        next(t, input).event matches Some(e) && e is Progress,
    ensures
        input matches InputView::Chunk { len } && len <= CHUNK_SIZE && next(
            t,
            input,
        ).transfer.transferred == t.transferred + len,
        next(t, input).event matches Some(EventView::Progress { transferred, total, .. })
            && transferred == t.transferred + input->Chunk_len && total == t.total,
{
}

/// A request to cancel that is seen once the last chunk has been written
/// does not cancel: the transfer goes on to copy, and completes at the end
/// of the source.
pub proof fn law_late_cancel_completes(t: TransferView)
    requires
        t.state == TransferState::Ready,
        last_chunk_written(t),
    ensures
        next(t, InputView::Flag { cancel_requested: true }).transfer.state
            == TransferState::Copying,
        next(t, InputView::Flag { cancel_requested: true }).event is None,
        next(
            next(t, InputView::Flag { cancel_requested: true }).transfer,
            InputView::Exhausted,
        ).transfer.state == TransferState::Completed,
        next(
            next(t, InputView::Flag { cancel_requested: true }).transfer,
            InputView::Exhausted,
        ).event matches Some(e) && e is Finished,
{
}

/// A request to cancel that is seen before the last chunk has been
/// written ends the transfer at once: it is `Cancelled`, its byte count
/// stays, and the step emits the one `Cancelled` event with the
/// transfer's identifier. So does a request that is seen at the start of
/// a transfer, whatever its size.
pub proof fn law_cancel_stops(t: TransferView)
    requires
        t.state == TransferState::Ready,
        !last_chunk_written(t),
    ensures
        next(t, InputView::Flag { cancel_requested: true }).transfer.state
            == TransferState::Cancelled,
        next(t, InputView::Flag { cancel_requested: true }).transfer.transferred == t.transferred,
        next(t, InputView::Flag { cancel_requested: true }).event == Some(
            EventView::Cancelled { transfer_id: t.id, kind: t.kind },
        ),
{
}

/// A transfer whose flag is up when its task starts moves nothing: opened
/// and shown its flag, it ends `Cancelled` with no byte moved, and its one
/// event is the `Cancelled` event. This holds of an empty source too.
pub proof fn law_cancel_at_start(t: TransferView, total: Option<u64>)
    requires
        fresh(t),
    ensures
        run(
            t,
            seq![InputView::Opened { total }, InputView::Flag { cancel_requested: true }],
        ).transfer.state == TransferState::Cancelled,
        run(
            t,
            seq![InputView::Opened { total }, InputView::Flag { cancel_requested: true }],
        ).transfer.transferred == 0,
        run(
            t,
            seq![InputView::Opened { total }, InputView::Flag { cancel_requested: true }],
        ).events == seq![EventView::Cancelled { transfer_id: t.id, kind: t.kind }],
{
    let opened = InputView::Opened { total };
    let flag = InputView::Flag { cancel_requested: true };
    let both = seq![opened, flag];
    let one = seq![opened];
    assert(both.drop_last() =~= one);
    assert(one.drop_last() =~= Seq::<InputView>::empty());
    assert(run(t, one.drop_last()).transfer == t);
    assert(run(t, one).transfer == next(t, opened).transfer);
    assert(run(t, one).events =~= Seq::<EventView>::empty());
    assert(run(t, both).events =~= seq![EventView::Cancelled { transfer_id: t.id, kind: t.kind }]);
}

/// Once the last chunk has been written, no inputs lead a transfer to
/// `Cancelled`.
pub proof fn law_no_cancel_after_last_chunk(t: TransferView, inputs: Seq<InputView>)
    requires
        last_chunk_written(t),
        t.state != TransferState::Cancelled,
        t.state != TransferState::Pending,
    ensures
        run(t, inputs).transfer.state != TransferState::Cancelled,
        run(t, inputs).transfer.state != TransferState::Pending,
        last_chunk_written(run(t, inputs).transfer),
        closings(run(t, inputs).events, TransferState::Cancelled) == 0,
    decreases inputs.len(),
{
    if inputs.len() > 0 {
        law_no_cancel_after_last_chunk(t, inputs.drop_last());
        let before = run(t, inputs.drop_last());
        let s = next(before.transfer, inputs.last());
        match s.event {
            Some(e) => {
                assert(before.events.push(e).drop_last() =~= before.events);
            },
            None => {},
        }
    }
}

/// What the caller is told to do after an event: after a cancellation or a
/// failure, to stop, and to delete the local file where the transfer was a
/// download; after completion, to stop and delete nothing; after progress,
/// to look at the cancellation flag.
pub open spec fn told_after(kind: TransferKind, e: EventView) -> Directive {
    match e {
        EventView::Cancelled { .. } => Directive::Stop {
            remove_local: kind == TransferKind::Download,
        },
        EventView::Error { .. } => Directive::Stop { remove_local: kind == TransferKind::Download },
        EventView::Finished { .. } => Directive::Stop { remove_local: false },
        EventView::Progress { .. } => Directive::CheckFlag,
    }
}

/// What is left behind: a step that cancels or fails a download tells the
/// caller to delete the local file; a step that cancels or fails an upload
/// does not, so what was written remotely stays; and a step that completes
/// a transfer never does.
pub proof fn law_cleanup(t: TransferView, input: InputView)
    ensures
        next(t, input).event matches Some(e) ==> next(t, input).directive == told_after(t.kind, e),
{
}

/// Nothing leads out of an ended transfer, and an ended transfer emits
/// nothing.
pub proof fn law_terminal_is_final(t: TransferView, input: InputView)
    requires
        t.state.is_terminal(),
    ensures
        next(t, input).transfer == t,
        next(t, input).event is None,
        next(t, input).directive == (Directive::Stop { remove_local: false }),
{
}

/// The number of runs among the first `n` that have ended in `state`.
pub open spec fn ended_as(runs: Seq<RunView>, state: TransferState, n: int) -> nat
    decreases n,
{
    if n <= 0 || n > runs.len() {
        0
    } else {
        ended_as(runs, state, n - 1) + if runs[n - 1].transfer.state == state {
            1nat
        } else {
            0nat
        }
    }
}

/// The number of events, over the first `n` runs, that close a transfer as
/// `state`.
pub open spec fn closings_over(runs: Seq<RunView>, state: TransferState, n: int) -> nat
    decreases n,
{
    if n <= 0 || n > runs.len() {
        0
    } else {
        closings_over(runs, state, n - 1) + closings(runs[n - 1].events, state)
    }
}

/// The runs of some transfers, each over inputs of its own.
pub open spec fn runs_of(starts: Seq<TransferView>, inputs: Seq<Seq<InputView>>) -> Seq<RunView> {
    Seq::new(starts.len(), |i: int| run(starts[i], inputs[i]))
}

/// Whether each of the first `n` runs has ended, and none by a failure.
pub open spec fn all_ended_unfailed(runs: Seq<RunView>, n: int) -> bool {
    forall|i: int|
        0 <= i < n && i < runs.len() ==> (#[trigger] runs[i]).transfer.state.is_terminal()
            && runs[i].transfer.state != TransferState::Failed
}

/// Whether, over the first `n` runs, as many events close a transfer as
/// `state` as runs have ended in `state`.
pub open spec fn tallies(runs: Seq<RunView>, state: TransferState, n: int) -> bool {
    closings_over(runs, state, n) == ended_as(runs, state, n)
}

/// Of any number of transfers, as many `Cancelled` events are emitted as
/// transfers were cancelled, as many `Finished` events as transfers
/// completed, and as many `Error` events as transfers failed. Where all
/// have ended and none has failed, the cancelled and the completed add up
/// to all of them: of `n` transfers of which `k` were cancelled, `k`
/// emit `Cancelled` and `n - k` emit `Finished`.
pub proof fn law_tally(starts: Seq<TransferView>, inputs: Seq<Seq<InputView>>, n: int)
    requires
        starts.len() == inputs.len(),
        0 <= n <= starts.len(),
        forall|i: int| 0 <= i < starts.len() ==> fresh(#[trigger] starts[i]),
    ensures
        tallies(runs_of(starts, inputs), TransferState::Cancelled, n),
        tallies(runs_of(starts, inputs), TransferState::Completed, n),
        tallies(runs_of(starts, inputs), TransferState::Failed, n),
        all_ended_unfailed(runs_of(starts, inputs), n) ==> closings_over(
            runs_of(starts, inputs),
            TransferState::Cancelled,
            n,
        ) + closings_over(runs_of(starts, inputs), TransferState::Completed, n) == n,
    decreases n,
{
    if n > 0 {
        law_tally(starts, inputs, n - 1);
        let runs = runs_of(starts, inputs);
        assert(runs[n - 1] == run(starts[n - 1], inputs[n - 1]));
        law_one_closing_event(starts[n - 1], inputs[n - 1], TransferState::Cancelled);
        law_one_closing_event(starts[n - 1], inputs[n - 1], TransferState::Completed);
        law_one_closing_event(starts[n - 1], inputs[n - 1], TransferState::Failed);
    }
}

} // verus!
