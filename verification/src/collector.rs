//! Collecting one platform: which documents to fetch, in what order, and
//! what becomes of each fetched text.

use crate::detector::capture_method;
use crate::detector::method_name;
use crate::fetcher::FetchError;
use crate::history::record_keeps_wf;
use crate::history::touch_keeps_wf;
use crate::history::ArchiveView;
use crate::history::Recording;
use crate::history::StoreError;
use crate::models::item_texts;
use crate::models::texts;
use crate::models::CollectionResult;
use crate::models::JsonColumn;
use crate::models::JsonItem;
use crate::models::Platform;
use crate::models::PlatformView;
use crate::models::ResultView;
use crate::models::Timestamp;
use crate::repository::Repository;
use vstd::prelude::*;

verus! {

/// The category under which a platform lists a document.
#[derive(Clone, Copy, Debug, PartialEq, Eq, Structural)]
pub enum DocumentType {
    Policy,
    Terms,
    CommunityGuidelines,
}

impl DocumentType {
    /// The tag under which documents of the category are stored.
    pub open spec fn tag(self) -> Seq<char> {
        match self {
            DocumentType::Policy => "policy"@,
            DocumentType::Terms => "terms"@,
            DocumentType::CommunityGuidelines => "community_guidelines"@,
        }
    }

    /// The tag under which documents of the category are stored.
    pub fn as_str(self) -> (tag: &'static str)
        ensures
            tag@ == self.tag(),
    {
        match self {
            DocumentType::Policy => "policy",
            DocumentType::Terms => "terms",
            DocumentType::CommunityGuidelines => "community_guidelines",
        }
    }
}

/// A document to fetch: its URL and its category.
#[derive(Clone, Debug)]
pub struct DocumentTarget {
    pub url: String,
    pub document_type: DocumentType,
}

/// A target as the contracts see it.
pub struct TargetView {
    pub url: Seq<char>,
    pub document_type: DocumentType,
}

impl View for DocumentTarget {
    type V = TargetView;

    open spec fn view(&self) -> TargetView {
        TargetView { url: self.url@, document_type: self.document_type }
    }
}

/// The views of a list of targets.
pub open spec fn target_views(targets: Seq<DocumentTarget>) -> Seq<TargetView> {
    targets.map_values(|t: DocumentTarget| t@)
}

/// The targets that a list of URLs of one category gives.
pub open spec fn targets_in(urls: Seq<Seq<char>>, document_type: DocumentType) -> Seq<TargetView> {
    urls.map_values(|url: Seq<char>| TargetView { url, document_type })
}

/// The documents of a platform in the order in which they are collected:
/// its policies, then its terms, then its community guidelines, each list in
/// its own order. An empty list gives no target.
pub open spec fn targets_of(platform: PlatformView) -> Seq<TargetView> {
    targets_in(platform.policy_urls, DocumentType::Policy) + targets_in(
        platform.terms_urls,
        DocumentType::Terms,
    ) + targets_in(platform.community_guidelines_urls, DocumentType::CommunityGuidelines)
}

/// Why collecting gave no result.
#[derive(Clone, Copy, Debug, PartialEq, Eq, Structural)]
pub enum CollectError {
    /// The document could not be fetched.
    Fetch(FetchError),
    /// The archive did not take the record.
    Store(StoreError),
    /// There is not one fetch outcome for each document of the platform.
    OutcomesMismatch,
}

/// What fetching one document gave, and when.
#[derive(Debug)]
pub struct Fetched {
    pub outcome: Result<String, FetchError>,
    pub at: Timestamp,
}

/// A fetch outcome as the contracts see it.
pub struct FetchedView {
    pub outcome: Result<Seq<char>, FetchError>,
    pub at: Timestamp,
}

impl View for Fetched {
    type V = FetchedView;

    open spec fn view(&self) -> FetchedView {
        FetchedView {
            outcome: match self.outcome {
                Ok(content) => Ok(content@),
                Err(e) => Err(e),
            },
            at: self.at,
        }
    }
}

/// The views of a list of fetch outcomes.
pub open spec fn fetched_views(fetched: Seq<Fetched>) -> Seq<FetchedView> {
    fetched.map_values(|f: Fetched| f@)
}

/// The views of a list of results.
pub open spec fn result_views(results: Seq<CollectionResult>) -> Seq<ResultView> {
    results.map_values(|r: CollectionResult| r@)
}

/// The URLs that a JSON column lists: the strings of the array, in order.
/// Elements of another kind are passed over, and a column that is no array
/// lists nothing.
pub fn extract_urls(json_value: &JsonColumn) -> (urls: Vec<String>)
    ensures
        texts(urls@) == json_value@,
{
    let mut urls: Vec<String> = Vec::new();
    proof {
        assert(texts(urls@) =~= Seq::empty());
    }
    match json_value {
        JsonColumn::Array(items) => {
            let n = items.len();
            let mut i: usize = 0;
            proof {
                assert(items@.take(0) =~= Seq::empty());
            }
            while i < n
                invariant
                    n == items@.len(),
                    i <= n,
                    texts(urls@) == item_texts(items@.take(i as int)),
                decreases n - i,
            {
                proof {
                    assert(items@.take(i + 1).drop_last() =~= items@.take(i as int));
                    assert(items@.take(i + 1).last() == items@[i as int]);
                }
                match &items[i] {
                    JsonItem::String(text) => {
                        let url = text.clone();
                        proof {
                            assert(texts(urls@.push(url)) =~= texts(urls@).push(text@));
                        }
                        urls.push(url);
                    },
                    JsonItem::Other => {},
                }
                i += 1;
            }
            proof {
                assert(items@.take(n as int) =~= items@);
            }
        },
        JsonColumn::Other => {},
    }
    urls
}

/// Adds the URLs of one category to the targets.
fn push_targets(targets: &mut Vec<DocumentTarget>, column: &JsonColumn, document_type: DocumentType)
    ensures
        target_views(final(targets)@) == target_views(old(targets)@) + targets_in(
            column@,
            document_type,
        ),
{
    let ghost before = target_views(targets@);
    let mut urls = extract_urls(column);
    let n = urls.len();
    let mut i: usize = 0;
    let ghost listed = texts(urls@);
    proof {
        assert(targets_in(listed.take(0), document_type) =~= Seq::empty());
        assert(target_views(targets@) =~= before + targets_in(listed.take(0), document_type));
    }
    while i < n
        invariant
            n == urls@.len(),
            i <= n,
            listed == texts(urls@),
            listed == column@,
            target_views(targets@) == before + targets_in(listed.take(i as int), document_type),
        decreases n - i,
    {
        let target = DocumentTarget { url: urls[i].clone(), document_type };
        proof {
            assert(target@ == (TargetView { url: listed[i as int], document_type }));
            assert(targets_in(listed.take(i + 1), document_type) =~= targets_in(
                listed.take(i as int),
                document_type,
            ).push(target@));
            assert(target_views(targets@.push(target)) =~= target_views(targets@).push(target@));
        }
        targets.push(target);
        i += 1;
    }
    proof {
        assert(listed.take(n as int) =~= listed);
    }
}

/// The documents of `platform`, in the order in which they are collected.
pub fn document_targets(platform: &Platform) -> (targets: Vec<DocumentTarget>)
    ensures
        target_views(targets@) == targets_of(platform@),
{
    let mut targets: Vec<DocumentTarget> = Vec::new();
    proof {
        assert(target_views(targets@) =~= Seq::empty());
    }
    push_targets(&mut targets, &platform.policy_urls, DocumentType::Policy);
    push_targets(&mut targets, &platform.terms_urls, DocumentType::Terms);
    push_targets(
        &mut targets,
        &platform.community_guidelines_urls,
        DocumentType::CommunityGuidelines,
    );
    proof {
        assert(target_views(targets@) =~= targets_of(platform@));
    }
    targets
}

/// The record that a fetched document of `platform` makes. The capture
/// method goes by whether the platform's structured API is switched on.
pub open spec fn document_recording(
    platform: PlatformView,
    url: Seq<char>,
    document_type: Seq<char>,
    content: Seq<char>,
    at: Timestamp,
) -> Recording {
    Recording {
        platform_id: platform.id,
        document_type,
        url,
        title: None,
        content,
        capture_method: method_name(platform.api_enabled),
        now: at,
    }
}

/// What collecting one document reports.
pub open spec fn document_outcome(
    a: ArchiveView,
    platform: PlatformView,
    url: Seq<char>,
    document_type: Seq<char>,
    fetched: FetchedView,
) -> Result<ResultView, CollectError> {
    match fetched.outcome {
        Err(e) => Err(CollectError::Fetch(e)),
        Ok(content) => {
            let r = document_recording(platform, url, document_type, content, fetched.at);
            match a.record_error(r) {
                Some(e) => Err(CollectError::Store(e)),
                None => Ok(a.record_result(r)),
            }
        },
    }
}

/// The archive after one document was collected.
pub open spec fn document_collected(
    a: ArchiveView,
    platform: PlatformView,
    url: Seq<char>,
    document_type: Seq<char>,
    fetched: FetchedView,
) -> ArchiveView {
    match fetched.outcome {
        Err(_) => a,
        Ok(content) => a.record(
            document_recording(platform, url, document_type, content, fetched.at),
        ),
    }
}

/// Collects one document of `platform`: where the fetch gave a text, the
/// text is recorded. A failed fetch leaves the archive as it is.
pub fn collect_document(
    repository: &mut Repository,
    platform: &Platform,
    url: &str,
    document_type: &str,
    fetched: &Fetched,
) -> (result: Result<CollectionResult, CollectError>)
    ensures
        final(repository)@ == document_collected(
            old(repository)@,
            platform@,
            url@,
            document_type@,
            fetched@,
        ),
        match document_outcome(old(repository)@, platform@, url@, document_type@, fetched@) {
            Ok(r) => result matches Ok(given) && given@ == r,
            Err(e) => result == Err::<CollectionResult, CollectError>(e),
        },
{
    match &fetched.outcome {
        Err(e) => Err(CollectError::Fetch(*e)),
        Ok(content) => {
            let method = capture_method(platform.api_enabled);
            match repository.record(
                platform.id,
                document_type,
                url,
                None,
                content.as_str(),
                method,
                fetched.at,
            ) {
                Ok(result) => Ok(result),
                Err(e) => Err(CollectError::Store(e)),
            }
        },
    }
}

/// The archive after the first documents of a platform were collected, one
/// after the other, and what the collected ones reported.
pub open spec fn documents_collected(
    a: ArchiveView,
    platform: PlatformView,
    targets: Seq<TargetView>,
    fetched: Seq<FetchedView>,
) -> (ArchiveView, Seq<ResultView>)
    decreases targets.len(),
{
    if targets.len() == 0 || fetched.len() != targets.len() {
        (a, Seq::empty())
    } else {
        let (b, results) = documents_collected(
            a,
            platform,
            targets.drop_last(),
            fetched.drop_last(),
        );
        let target = targets.last();
        let after = document_collected(
            b,
            platform,
            target.url,
            target.document_type.tag(),
            fetched.last(),
        );
        match document_outcome(
            b,
            platform,
            target.url,
            target.document_type.tag(),
            fetched.last(),
        ) {
            Ok(r) => (after, results.push(r)),
            Err(_) => (after, results),
        }
    }
}

/// The archive after a collection pass over `platform` that ended at `now`.
pub open spec fn platform_collected(
    a: ArchiveView,
    platform: PlatformView,
    fetched: Seq<FetchedView>,
    now: Timestamp,
) -> ArchiveView {
    if fetched.len() != targets_of(platform).len() {
        a
    } else {
        documents_collected(a, platform, targets_of(platform), fetched).0.touch(platform.id, now)
    }
}

/// What a collection pass over `platform` reports: the results of the
/// documents that were fetched and recorded, in the order of the targets.
pub open spec fn platform_results(
    a: ArchiveView,
    platform: PlatformView,
    fetched: Seq<FetchedView>,
) -> Seq<ResultView> {
    documents_collected(a, platform, targets_of(platform), fetched).1
}

/// Runs a collection pass over `platform`. `fetched` holds what fetching
/// each document gave, in the order of `document_targets`. A document that
/// could not be fetched or recorded is passed over and the pass goes on. At
/// the end the platform is stamped as checked at `now`, once, whatever came
/// of its documents.
pub fn collect_platform_policies(
    repository: &mut Repository,
    platform: &Platform,
    fetched: &Vec<Fetched>,
    now: Timestamp,
) -> (result: Result<Vec<CollectionResult>, CollectError>)
    ensures
        final(repository)@ == platform_collected(
            old(repository)@,
            platform@,
            fetched_views(fetched@),
            now,
        ),
        fetched@.len() != targets_of(platform@).len() ==> result == Err::<
            Vec<CollectionResult>,
            CollectError,
        >(CollectError::OutcomesMismatch),
        fetched@.len() == targets_of(platform@).len() ==> (result matches Ok(results)
            && result_views(results@) == platform_results(
            old(repository)@,
            platform@,
            fetched_views(fetched@),
        )),
{
    let targets = document_targets(platform);
    let n = targets.len();
    if fetched.len() != n {
        return Err(CollectError::OutcomesMismatch);
    }
    let ghost before = repository@;
    let ghost all_targets = target_views(targets@);
    let ghost all_fetched = fetched_views(fetched@);
    let mut results: Vec<CollectionResult> = Vec::new();
    let mut i: usize = 0;
    proof {
        assert(result_views(results@) =~= Seq::empty());
    }
    while i < n
        invariant
            n == targets@.len(),
            n == fetched@.len(),
            i <= n,
            all_targets == target_views(targets@),
            all_fetched == fetched_views(fetched@),
            (repository@, result_views(results@)) == documents_collected(
                before,
                platform@,
                all_targets.take(i as int),
                all_fetched.take(i as int),
            ),
        decreases n - i,
    {
        let target = &targets[i];
        proof {
            assert(all_targets.take(i + 1).drop_last() =~= all_targets.take(i as int));
            assert(all_fetched.take(i + 1).drop_last() =~= all_fetched.take(i as int));
            assert(all_targets.take(i + 1).last() == target@);
            assert(all_fetched.take(i + 1).last() == fetched@[i as int]@);
        }
        let outcome = collect_document(
            repository,
            platform,
            target.url.as_str(),
            target.document_type.as_str(),
            &fetched[i],
        );
        match outcome {
            Ok(result) => {
                proof {
                    assert(result_views(results@.push(result)) =~= result_views(results@).push(
                        result@,
                    ));
                }
                results.push(result);
            },
            Err(_) => {},
        }
        i += 1;
    }
    proof {
        assert(all_targets.take(n as int) =~= all_targets);
        assert(all_fetched.take(n as int) =~= all_fetched);
    }
    repository.update_platform_last_checked(platform.id, now);
    Ok(results)
}

/// How many of the fetches gave a text.
pub open spec fn fetched_count(fetched: Seq<FetchedView>) -> nat
    decreases fetched.len(),
{
    if fetched.len() == 0 {
        0
    } else {
        fetched_count(fetched.drop_last()) + if fetched.last().outcome is Ok {
            1nat
        } else {
            0nat
        }
    }
}

/// Collecting documents keeps the rules of the archive and leaves the
/// platforms as they are. There are no more results than fetches that gave a
/// text, so a document whose fetch failed has none.
pub proof fn collecting_documents_keeps_rules(
    a: ArchiveView,
    platform: PlatformView,
    targets: Seq<TargetView>,
    fetched: Seq<FetchedView>,
)
    requires
        a.wf(),
    ensures
        documents_collected(a, platform, targets, fetched).0.wf(),
        documents_collected(a, platform, targets, fetched).0.platforms == a.platforms,
        documents_collected(a, platform, targets, fetched).1.len() <= fetched_count(fetched),
        fetched_count(fetched) <= fetched.len(),
    decreases targets.len(),
{
    if targets.len() == 0 || fetched.len() != targets.len() {
        fetched_count_bounded(fetched);
    } else {
        collecting_documents_keeps_rules(a, platform, targets.drop_last(), fetched.drop_last());
        let b = documents_collected(a, platform, targets.drop_last(), fetched.drop_last()).0;
        let target = targets.last();
        if fetched.last().outcome is Ok {
            record_keeps_wf(
                b,
                document_recording(
                    platform,
                    target.url,
                    target.document_type.tag(),
                    fetched.last().outcome->Ok_0,
                    fetched.last().at,
                ),
            );
        }
    }
}

/// No more fetches gave a text than there were fetches.
pub proof fn fetched_count_bounded(fetched: Seq<FetchedView>)
    ensures
        fetched_count(fetched) <= fetched.len(),
    decreases fetched.len(),
{
    if fetched.len() > 0 {
        fetched_count_bounded(fetched.drop_last());
    }
}

/// A collection pass stamps its platform: whatever came of the documents,
/// even if every fetch failed, the platform is marked as checked at the end
/// of the pass. No other platform is touched, and the rules of the archive
/// still hold.
pub proof fn collection_stamps_platform(
    a: ArchiveView,
    platform: PlatformView,
    fetched: Seq<FetchedView>,
    now: Timestamp,
    i: int,
)
    requires
        a.wf(),
        fetched.len() == targets_of(platform).len(),
        0 <= i < a.platforms.len(),
    ensures
        platform_collected(a, platform, fetched, now).wf(),
        platform_collected(a, platform, fetched, now).platforms.len() == a.platforms.len(),
        a.platforms[i].id == platform.id ==> platform_collected(
            a,
            platform,
            fetched,
            now,
        ).platforms[i].last_checked_at == Some(now),
        a.platforms[i].id != platform.id ==> platform_collected(
            a,
            platform,
            fetched,
            now,
        ).platforms[i] == a.platforms[i],
{
    collecting_documents_keeps_rules(a, platform, targets_of(platform), fetched);
    touch_keeps_wf(
        documents_collected(a, platform, targets_of(platform), fetched).0,
        platform.id,
        now,
    );
}

} // verus!
