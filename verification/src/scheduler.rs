//! The recurring collection cycle: when a cycle starts, how the platforms
//! are spread over batches, and what a cycle does to the archive.

use crate::collector::collect_platform_policies;
use crate::collector::collecting_documents_keeps_rules;
use crate::collector::documents_collected;
use crate::collector::fetched_views;
use crate::collector::platform_collected;
use crate::collector::platform_results;
use crate::collector::targets_of;
use crate::collector::CollectError;
use crate::collector::Fetched;
use crate::collector::FetchedView;
use crate::history::touch_keeps_wf;
use crate::history::ArchiveView;
use crate::models::Id;
use crate::models::Platform;
use crate::models::PlatformView;
use crate::models::Timestamp;
use crate::repository::platform_ref_views;
use crate::repository::platform_views;
use crate::repository::Repository;
use vstd::prelude::*;

verus! {

/// The minutes between two cycles, unless set otherwise.
pub const DEFAULT_CADENCE_MINUTES: u32 = 15;

/// Where the scheduler stands.
#[derive(Clone, Copy, Debug, PartialEq, Eq, Structural)]
pub enum SchedulerState {
    /// No cycle is running.
    Idle,
    /// A cycle is running.
    Collecting,
    /// A cycle is running, and it is the last: shutdown was asked for.
    Draining,
    /// Nothing runs and nothing will.
    Stopped,
}

/// What happens to the scheduler.
#[derive(Clone, Copy, Debug, PartialEq, Eq, Structural)]
pub enum Signal {
    /// The cadence fired.
    Tick,
    /// The running cycle came to its end.
    CycleFinished,
    /// Termination was asked for.
    Shutdown,
}

/// What the scheduler asks for in answer.
#[derive(Clone, Copy, Debug, PartialEq, Eq, Structural)]
pub enum Action {
    /// Start a collection cycle.
    StartCycle,
    /// Do nothing.
    Nothing,
    /// Release the scheduler's resources.
    Release,
}

/// The state after `signal`. A tick starts a cycle only when none runs: a
/// tick that falls into a running cycle is dropped, so cycles never overlap.
/// Shutdown lets a running cycle finish and lets no other start.
pub open spec fn next_state(state: SchedulerState, signal: Signal) -> SchedulerState {
    match (state, signal) {
        (SchedulerState::Idle, Signal::Tick) => SchedulerState::Collecting,
        (SchedulerState::Idle, Signal::Shutdown) => SchedulerState::Stopped,
        (SchedulerState::Collecting, Signal::CycleFinished) => SchedulerState::Idle,
        (SchedulerState::Collecting, Signal::Shutdown) => SchedulerState::Draining,
        (SchedulerState::Draining, Signal::CycleFinished) => SchedulerState::Stopped,
        (s, _) => s,
    }
}

/// What is asked for in answer to `signal`.
pub open spec fn action_for(state: SchedulerState, signal: Signal) -> Action {
    match (state, signal) {
        (SchedulerState::Idle, Signal::Tick) => Action::StartCycle,
        (SchedulerState::Idle, Signal::Shutdown) => Action::Release,
        (SchedulerState::Draining, Signal::CycleFinished) => Action::Release,
        _ => Action::Nothing,
    }
}

/// Takes the scheduler one step on.
pub fn step(state: SchedulerState, signal: Signal) -> (next: (SchedulerState, Action))
    ensures
        next.0 == next_state(state, signal),
        next.1 == action_for(state, signal),
{
    match state {
        SchedulerState::Idle => match signal {
            Signal::Tick => (SchedulerState::Collecting, Action::StartCycle),
            Signal::Shutdown => (SchedulerState::Stopped, Action::Release),
            Signal::CycleFinished => (SchedulerState::Idle, Action::Nothing),
        },
        SchedulerState::Collecting => match signal {
            Signal::CycleFinished => (SchedulerState::Idle, Action::Nothing),
            Signal::Shutdown => (SchedulerState::Draining, Action::Nothing),
            Signal::Tick => (SchedulerState::Collecting, Action::Nothing),
        },
        SchedulerState::Draining => match signal {
            Signal::CycleFinished => (SchedulerState::Stopped, Action::Release),
            Signal::Tick => (SchedulerState::Draining, Action::Nothing),
            Signal::Shutdown => (SchedulerState::Draining, Action::Nothing),
        },
        SchedulerState::Stopped => (SchedulerState::Stopped, Action::Nothing),
    }
}

/// The state after a run of signals.
pub open spec fn state_after(state: SchedulerState, signals: Seq<Signal>) -> SchedulerState
    decreases signals.len(),
{
    if signals.len() == 0 {
        state
    } else {
        next_state(state_after(state, signals.drop_last()), signals.last())
    }
}

/// Whether shutdown has been asked for in a state.
pub open spec fn shutting_down(state: SchedulerState) -> bool {
    state == SchedulerState::Draining || state == SchedulerState::Stopped
}

/// After shutdown was asked for no cycle starts any more, whatever the
/// signals that follow; and asking for shutdown never releases the
/// resources under a running cycle.
pub proof fn no_cycle_after_shutdown(state: SchedulerState, signals: Seq<Signal>, at: int)
    requires
        0 <= at < signals.len(),
        signals[at] == Signal::Shutdown,
    ensures
        shutting_down(state_after(state, signals)),
        forall|signal: Signal|
            action_for(state_after(state, signals), signal) != Action::StartCycle,
        state_after(state, signals.take(at)) == SchedulerState::Collecting ==> action_for(
            state_after(state, signals.take(at)),
            Signal::Shutdown,
        ) == Action::Nothing,
    decreases signals.len(),
{
    if at < signals.len() - 1 {
        assert(signals.drop_last()[at] == signals[at]);
        no_cycle_after_shutdown(state, signals.drop_last(), at);
    }
}

/// A group of platforms that are collected at the same time: those from
/// `start` up to, but without, `end` of the list of active platforms.
#[derive(Clone, Copy, Debug, PartialEq, Eq, Structural)]
pub struct Batch {
    pub start: usize,
    pub end: usize,
}

/// How many platforms are collected at a time under the limit
/// `max_concurrent`: as many as the limit says, and one where it says none.
pub open spec fn batch_size(max_concurrent: usize) -> nat {
    if max_concurrent == 0 {
        1
    } else {
        max_concurrent as nat
    }
}

/// Whether `batches` spreads `platforms` platforms over batches of `size`:
/// the batches follow each other without gap from the first platform to the
/// last, none is empty, none is larger than `size`, and only the last may be
/// smaller.
pub open spec fn is_batching(batches: Seq<Batch>, platforms: nat, size: nat) -> bool {
    &&& batches.len() == 0 <==> platforms == 0
    &&& batches.len() > 0 ==> batches[0].start == 0 && batches.last().end == platforms
    &&& forall|k: int|
        0 <= k < batches.len() ==> (#[trigger] batches[k]).start < batches[k].end
            && batches[k].end - batches[k].start <= size
    &&& forall|k: int|
        0 <= k < batches.len() - 1 ==> (#[trigger] batches[k]).end - batches[k].start == size
            && batches[k + 1].start == batches[k].end
}

/// Spreads the active platforms of a cycle over batches. A batch is started
/// when the one before it has finished as a whole.
pub fn collection_batches(platforms: usize, max_concurrent: usize) -> (batches: Vec<Batch>)
    ensures
        is_batching(batches@, platforms as nat, batch_size(max_concurrent)),
{
    let size: usize = if max_concurrent == 0 {
        1
    } else {
        max_concurrent
    };
    let mut batches: Vec<Batch> = Vec::new();
    let mut start: usize = 0;
    while start < platforms
        invariant
            size == batch_size(max_concurrent),
            size > 0,
            start <= platforms,
            batches@.len() == 0 <==> start == 0,
            batches@.len() > 0 ==> batches@[0].start == 0 && batches@.last().end == start,
            forall|k: int|
                0 <= k < batches@.len() ==> (#[trigger] batches@[k]).start < batches@[k].end
                    && batches@[k].end - batches@[k].start == size,
            forall|k: int|
                0 <= k < batches@.len() - 1 ==> (#[trigger] batches@[k + 1]).start
                    == batches@[k].end,
        decreases platforms - start,
    {
        let end = if platforms - start <= size {
            platforms
        } else {
            start + size
        };
        let ghost before = batches@;
        batches.push(Batch { start, end });
        proof {
            assert forall|k: int| 0 <= k < batches@.len() - 1 implies (
            #[trigger] batches@[k + 1]).start == batches@[k].end by {
                if k + 1 < before.len() {
                    assert(batches@[k + 1] == before[k + 1]);
                    assert(batches@[k] == before[k]);
                }
            }
        }
        if end == platforms {
            proof {
                assert forall|k: int| 0 <= k < batches@.len() - 1 implies (
                #[trigger] batches@[k]).end - batches@[k].start == size && batches@[k + 1].start
                    == batches@[k].end by {
                    assert(batches@[k] == before[k]);
                    assert(batches@[k + 1].start == batches@[k].end);
                }
            }
            return batches;
        }
        start = end;
    }
    batches
}

/// What a cycle reports of one platform: how many documents were collected,
/// or why the pass over the platform failed.
#[derive(Clone, Copy, Debug, PartialEq, Eq)]
pub struct PlatformReport {
    pub platform_id: Id,
    pub outcome: Result<usize, CollectError>,
}

/// The archive after a cycle over the first platforms of `active`.
pub open spec fn cycle_collected(
    a: ArchiveView,
    active: Seq<PlatformView>,
    fetched: Seq<Seq<FetchedView>>,
    now: Timestamp,
) -> ArchiveView
    decreases active.len(),
{
    if active.len() == 0 || fetched.len() != active.len() {
        a
    } else {
        platform_collected(
            cycle_collected(a, active.drop_last(), fetched.drop_last(), now),
            active.last(),
            fetched.last(),
            now,
        )
    }
}

/// What a cycle reports of the platform `active[k]`.
pub open spec fn report_at(
    a: ArchiveView,
    active: Seq<PlatformView>,
    fetched: Seq<Seq<FetchedView>>,
    now: Timestamp,
    k: int,
) -> PlatformReport {
    let before = cycle_collected(a, active.take(k), fetched.take(k), now);
    PlatformReport {
        platform_id: active[k].id,
        outcome: if fetched[k].len() != targets_of(active[k]).len() {
            Err(CollectError::OutcomesMismatch)
        } else {
            Ok(platform_results(before, active[k], fetched[k]).len() as usize)
        },
    }
}

/// The views of the fetch outcomes of every platform.
pub open spec fn cycle_views(fetched: Seq<Vec<Fetched>>) -> Seq<Seq<FetchedView>> {
    fetched.map_values(|f: Vec<Fetched>| fetched_views(f@))
}

/// Runs one collection cycle: a pass over every platform that is monitored,
/// in the order of their names. `fetched` holds, for each of these
/// platforms, what fetching its documents gave. A pass that fails is
/// reported and the cycle goes on with the next platform.
pub fn run_collection_cycle(
    repository: &mut Repository,
    fetched: &Vec<Vec<Fetched>>,
    now: Timestamp,
) -> (result: Result<Vec<PlatformReport>, CollectError>)
    ensures
        final(repository)@ == cycle_collected(
            old(repository)@,
            old(repository)@.active_platforms(),
            cycle_views(fetched@),
            now,
        ),
        fetched@.len() != old(repository)@.active_platforms().len() ==> result == Err::<
            Vec<PlatformReport>,
            CollectError,
        >(CollectError::OutcomesMismatch),
        fetched@.len() == old(repository)@.active_platforms().len() ==> (result matches Ok(reports)
            && reports@.len() == fetched@.len() && forall|k: int|
            0 <= k < reports@.len() ==> #[trigger] reports@[k] == report_at(
                old(repository)@,
                old(repository)@.active_platforms(),
                cycle_views(fetched@),
                now,
                k,
            )),
{
    let ghost before = repository@;
    let ghost active_views = before.active_platforms();
    let ghost all_fetched = cycle_views(fetched@);
    let mut platforms: Vec<Platform> = Vec::new();
    {
        let active = repository.get_active_platforms();
        let n = active.len();
        let mut i: usize = 0;
        proof {
            assert(platform_views(platforms@) =~= active_views.take(0));
        }
        while i < n
            invariant
                n == active@.len(),
                i <= n,
                platform_ref_views(active@) == active_views,
                platform_views(platforms@) == active_views.take(i as int),
            decreases n - i,
        {
            let copy = active[i].duplicate();
            proof {
                assert(active_views[i as int] == active@[i as int]@);
                assert(platform_views(platforms@.push(copy)) =~= platform_views(platforms@).push(
                    copy@,
                ));
                assert(active_views.take(i + 1) =~= active_views.take(i as int).push(
                    active_views[i as int],
                ));
            }
            platforms.push(copy);
            i += 1;
        }
        proof {
            assert(active_views.take(n as int) =~= active_views);
        }
    }
    let n = platforms.len();
    if fetched.len() != n {
        return Err(CollectError::OutcomesMismatch);
    }
    let mut reports: Vec<PlatformReport> = Vec::new();
    let mut k: usize = 0;
    while k < n
        invariant
            n == platforms@.len(),
            n == fetched@.len(),
            k <= n,
            active_views == platform_views(platforms@),
            all_fetched == cycle_views(fetched@),
            repository@ == cycle_collected(
                before,
                active_views.take(k as int),
                all_fetched.take(k as int),
                now,
            ),
            reports@.len() == k,
            forall|j: int|
                0 <= j < k ==> #[trigger] reports@[j] == report_at(
                    before,
                    active_views,
                    all_fetched,
                    now,
                    j,
                ),
        decreases n - k,
    {
        let platform = &platforms[k];
        proof {
            assert(active_views.take(k + 1).drop_last() =~= active_views.take(k as int));
            assert(all_fetched.take(k + 1).drop_last() =~= all_fetched.take(k as int));
            assert(active_views.take(k + 1).last() == platform@);
            assert(all_fetched.take(k + 1).last() == fetched_views(fetched@[k as int]@));
        }
        let outcome = match collect_platform_policies(repository, platform, &fetched[k], now) {
            Ok(results) => Ok(results.len()),
            Err(e) => Err(e),
        };
        reports.push(PlatformReport { platform_id: platform.id, outcome });
        k += 1;
    }
    proof {
        assert(active_views.take(n as int) =~= active_views);
        assert(all_fetched.take(n as int) =~= all_fetched);
    }
    Ok(reports)
}

/// A cycle keeps the rules of the archive, whatever the fetches gave.
pub proof fn cycle_keeps_rules(
    a: ArchiveView,
    active: Seq<PlatformView>,
    fetched: Seq<Seq<FetchedView>>,
    now: Timestamp,
)
    requires
        a.wf(),
    ensures
        cycle_collected(a, active, fetched, now).wf(),
        cycle_collected(a, active, fetched, now).platforms.len() == a.platforms.len(),
    decreases active.len(),
{
    if active.len() != 0 && fetched.len() == active.len() {
        cycle_keeps_rules(a, active.drop_last(), fetched.drop_last(), now);
        let b = cycle_collected(a, active.drop_last(), fetched.drop_last(), now);
        if fetched.last().len() == targets_of(active.last()).len() {
            collecting_documents_keeps_rules(
                b,
                active.last(),
                targets_of(active.last()),
                fetched.last(),
            );
            touch_keeps_wf(
                documents_collected(
                    b,
                    active.last(),
                    targets_of(active.last()),
                    fetched.last(),
                ).0,
                active.last().id,
                now,
            );
        }
    }
}

} // verus!
