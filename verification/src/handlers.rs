//! Collecting a platform on demand, and what is told of it to whoever asked.

use crate::collector::collect_platform_policies;
use crate::collector::fetched_views;
use crate::collector::platform_collected;
use crate::collector::platform_results;
use crate::collector::result_views;
use crate::collector::targets_of;
use crate::collector::CollectError;
use crate::collector::Fetched;
use crate::collector::FetchedView;
use crate::history::ArchiveView;
use crate::models::CollectionResult;
use crate::models::Id;
use crate::models::ResultView;
use crate::models::Timestamp;
use crate::repository::Repository;
use vstd::prelude::*;

verus! {

/// What a collection pass over a platform came to.
#[derive(Clone, Debug)]
pub struct CollectionSummary {
    pub platform: String,
    pub documents_collected: usize,
    pub changes_detected: usize,
}

/// How a request to collect a platform now ended.
#[derive(Clone, Debug)]
pub enum TriggerOutcome {
    /// The pass was made. Documents that failed are left out of the counts
    /// and are no failure of the pass.
    Completed(CollectionSummary),
    /// No platform has the identifier.
    PlatformNotFound,
    /// The platform could not be loaded.
    PlatformUnavailable,
    /// The pass as a whole failed.
    CollectionFailed(CollectError),
}

/// How many of `results` report a change.
pub open spec fn changes_in(results: Seq<ResultView>) -> nat
    decreases results.len(),
{
    if results.len() == 0 {
        0
    } else {
        changes_in(results.drop_last()) + if results.last().change_detected {
            1nat
        } else {
            0nat
        }
    }
}

/// Counts the results that report a change.
pub fn count_changes(results: &Vec<CollectionResult>) -> (count: usize)
    ensures
        count == changes_in(result_views(results@)),
        count <= results@.len(),
{
    let n = results.len();
    let ghost all = result_views(results@);
    let mut count: usize = 0;
    let mut i: usize = 0;
    proof {
        assert(all.take(0) =~= Seq::empty());
    }
    while i < n
        invariant
            n == results@.len(),
            i <= n,
            all == result_views(results@),
            count == changes_in(all.take(i as int)),
            count <= i,
        decreases n - i,
    {
        proof {
            assert(all.take(i + 1).drop_last() =~= all.take(i as int));
            assert(all.take(i + 1).last() == results@[i as int]@);
        }
        if results[i].change_detected {
            count += 1;
        }
        i += 1;
    }
    proof {
        assert(all.take(n as int) =~= all);
    }
    count
}

/// Sums up the results of a pass over the platform of that name.
pub fn summarize(platform_name: &str, results: &Vec<CollectionResult>) -> (summary:
    CollectionSummary)
    ensures
        summary.platform@ == platform_name@,
        summary.documents_collected == results@.len(),
        summary.changes_detected == changes_in(result_views(results@)),
{
    CollectionSummary {
        platform: platform_name.to_owned(),
        documents_collected: results.len(),
        changes_detected: count_changes(results),
    }
}

/// The HTTP status that tells of an outcome: 200 for a pass that was made,
/// 404 for a platform that is not there, 500 for what failed.
pub fn status_code(outcome: &TriggerOutcome) -> (status: u16)
    ensures
        outcome is Completed ==> status == 200,
        outcome is PlatformNotFound ==> status == 404,
        outcome is PlatformUnavailable || outcome is CollectionFailed ==> status == 500,
{
    match outcome {
        TriggerOutcome::Completed(_) => 200,
        TriggerOutcome::PlatformNotFound => 404,
        TriggerOutcome::PlatformUnavailable => 500,
        TriggerOutcome::CollectionFailed(_) => 500,
    }
}

/// The archive after a request to collect the platform with identifier `id`.
pub open spec fn triggered(
    a: ArchiveView,
    id: Id,
    fetched: Seq<FetchedView>,
    now: Timestamp,
) -> ArchiveView {
    match a.platform_with(id) {
        Some(platform) => platform_collected(a, platform, fetched, now),
        None => a,
    }
}

/// Collects the platform with identifier `id` now, outside the schedule.
/// `fetched` holds what fetching each of its documents gave.
pub fn trigger_collection(
    repository: &mut Repository,
    id: Id,
    fetched: &Vec<Fetched>,
    now: Timestamp,
) -> (outcome: TriggerOutcome)
    ensures
        final(repository)@ == triggered(old(repository)@, id, fetched_views(fetched@), now),
        match old(repository)@.platform_with(id) {
            None => outcome is PlatformNotFound,
            Some(platform) => if fetched@.len() != targets_of(platform).len() {
                outcome matches TriggerOutcome::CollectionFailed(e) && e
                    == CollectError::OutcomesMismatch
            } else {
                outcome matches TriggerOutcome::Completed(summary) && {
                    let results = platform_results(
                        old(repository)@,
                        platform,
                        fetched_views(fetched@),
                    );
                    &&& summary.platform@ == platform.name
                    &&& summary.documents_collected == results.len()
                    &&& summary.changes_detected == changes_in(results)
                }
            },
        },
{
    let platform = match repository.get_platform_by_id(id) {
        Some(found) => found.duplicate(),
        None => {
            return TriggerOutcome::PlatformNotFound;
        },
    };
    match collect_platform_policies(repository, &platform, fetched, now) {
        Ok(results) => TriggerOutcome::Completed(summarize(platform.name.as_str(), &results)),
        Err(e) => TriggerOutcome::CollectionFailed(e),
    }
}

/// No more changes are counted than there are results.
pub proof fn changes_bounded(results: Seq<ResultView>)
    ensures
        changes_in(results) <= results.len(),
    decreases results.len(),
{
    if results.len() > 0 {
        changes_bounded(results.drop_last());
    }
}

} // verus!
