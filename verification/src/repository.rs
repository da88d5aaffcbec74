//! The archive in memory: platforms, documents, captures and changes, kept
//! so that the rules of the archive hold at every moment.

use crate::detector::change_detected;
use crate::detector::change_summary;
use crate::detector::FirstCapture;
use crate::history::record_keeps_wf;
use crate::history::register_keeps_wf;
use crate::history::touch_keeps_wf;
use crate::history::active_platforms_in_order;
use crate::history::index_from_finds_first;
use crate::history::monitored;
use crate::history::platform_from_finds;
use crate::history::ArchiveView;
use crate::history::CaptureView;
use crate::history::HistoryView;
use crate::history::Recording;
use crate::history::StoreError;
use crate::models::opt_text;
use crate::models::CollectionResult;
use crate::models::DecimalValue;
use crate::models::DocumentView;
use crate::models::Id;
use crate::models::Platform;
use crate::models::PlatformView;
use crate::models::PolicyChange;
use crate::models::PolicyDocument;
use crate::models::PolicySnapshot;
use crate::models::Timestamp;
use crate::text::same_text;
use crate::text::text_le;
use crate::text::text_not_after;
use vstd::prelude::*;

verus! {

/// One capture of a document, with the change that it gave rise to.
#[derive(Clone, Debug)]
pub struct Capture {
    pub snapshot: PolicySnapshot,
    pub change: Option<PolicyChange>,
}

/// A document and its captures, oldest first.
#[derive(Clone, Debug)]
pub struct DocumentHistory {
    pub document: PolicyDocument,
    pub captures: Vec<Capture>,
}

impl View for Capture {
    type V = CaptureView;

    open spec fn view(&self) -> CaptureView {
        CaptureView {
            snapshot: self.snapshot@,
            change: match self.change {
                Some(c) => Some(c@),
                None => None,
            },
        }
    }
}

/// The views of a list of captures.
pub open spec fn capture_views(captures: Seq<Capture>) -> Seq<CaptureView> {
    captures.map_values(|c: Capture| c@)
}

impl View for DocumentHistory {
    type V = HistoryView;

    open spec fn view(&self) -> HistoryView {
        HistoryView { document: self.document@, captures: capture_views(self.captures@) }
    }
}

/// The views of a list of histories.
pub open spec fn history_views(histories: Seq<DocumentHistory>) -> Seq<HistoryView> {
    histories.map_values(|h: DocumentHistory| h@)
}

/// The views of a list of platforms.
pub open spec fn platform_views(platforms: Seq<Platform>) -> Seq<PlatformView> {
    platforms.map_values(|p: Platform| p@)
}

/// The views of a list of borrowed platforms.
pub open spec fn platform_ref_views(platforms: Seq<&Platform>) -> Seq<PlatformView> {
    platforms.map_values(|p: &Platform| p@)
}

/// The fetched text that a call of `record` brings.
pub open spec fn recording(
    platform_id: Id,
    document_type: &str,
    url: &str,
    title: Option<String>,
    content: &str,
    capture_method: &str,
    now: Timestamp,
) -> Recording {
    Recording {
        platform_id,
        document_type: document_type@,
        url: url@,
        title: opt_text(title),
        content: content@,
        capture_method: capture_method@,
        now,
    }
}

/// The archive. Its fields are private: it changes only through the methods
/// below, and each of them keeps the rules of the archive.
pub struct Repository {
    platforms: Vec<Platform>,
    histories: Vec<DocumentHistory>,
    next_id: Id,
    first_capture: FirstCapture,
}

impl View for Repository {
    type V = ArchiveView;

    closed spec fn view(&self) -> ArchiveView {
        ArchiveView {
            platforms: platform_views(self.platforms@),
            histories: history_views(self.histories@),
            next_id: self.next_id,
            first_capture: self.first_capture,
        }
    }
}

impl Repository {
    /// The rules of the archive, which hold of every value of the type.
    #[verifier::type_invariant]
    spec fn rules(self) -> bool {
        self@.wf()
    }

    /// The rules of the archive hold of every repository, at every moment.
    /// The call does nothing when the program runs; it is there for what it
    /// ensures.
    pub fn rules_hold(&self)
        ensures
            self@.wf(),
    {
        proof {
            use_type_invariant(self);
        }
    }

    /// An archive with nothing in it, in which a first capture counts as a
    /// change.
    pub fn new() -> (repository: Repository)
        ensures
            repository@ == ArchiveView::empty(),
    {
        Repository::with_settings(0, FirstCapture::CountsAsChange)
    }

    /// An archive with nothing in it that gives out the identifiers from
    /// `first_id` on and treats first captures as `first_capture` says.
    pub fn with_settings(first_id: Id, first_capture: FirstCapture) -> (repository: Repository)
        ensures
            repository@ == ArchiveView::empty_with(first_id, first_capture),
    {
        let repository = Repository {
            platforms: Vec::new(),
            histories: Vec::new(),
            next_id: first_id,
            first_capture,
        };
        proof {
            assert(repository@.platforms =~= Seq::empty());
            assert(repository@.histories =~= Seq::empty());
        }
        repository
    }

    /// What a first capture counts as in this archive.
    pub fn first_capture(&self) -> (policy: FirstCapture)
        ensures
            policy == self@.first_capture,
    {
        self.first_capture
    }

    /// The platforms, in the order of their names.
    pub fn platforms(&self) -> (platforms: &Vec<Platform>)
        ensures
            platform_views(platforms@) == self@.platforms,
    {
        &self.platforms
    }

    /// The documents with their captures, in the order in which the documents
    /// were first seen.
    pub fn histories(&self) -> (histories: &Vec<DocumentHistory>)
        ensures
            history_views(histories@) == self@.histories,
    {
        &self.histories
    }

    /// Where the platform with identifier `id` stands, if it is registered.
    fn platform_index(&self, id: Id) -> (index: Option<usize>)
        ensures
            index is Some <==> self@.has_platform(id),
            index matches Some(i) ==> i < self.platforms@.len() && self.platforms@[i as int].id
                == id && self@.platform_with(id) == Some(self.platforms@[i as int]@),
            index is None ==> self@.platform_with(id) is None,
    {
        let n = self.platforms.len();
        let mut i: usize = 0;
        proof {
            platform_from_finds(self@, id, 0);
        }
        while i < n
            invariant
                n == self.platforms@.len(),
                i <= n,
                self@.platform_from(id, 0) == self@.platform_from(id, i as int),
                forall|j: int| 0 <= j < i ==> self.platforms@[j].id != id,
            decreases n - i,
        {
            proof {
                assert(self@.platforms[i as int] == self.platforms@[i as int]@);
            }
            if self.platforms[i].id == id {
                return Some(i);
            }
            i += 1;
        }
        None
    }

    /// The platform with identifier `id`, if it is registered.
    pub fn get_platform_by_id(&self, id: Id) -> (platform: Option<&Platform>)
        ensures
            match platform {
                Some(p) => self@.platform_with(id) == Some(p@),
                None => self@.platform_with(id) is None,
            },
            platform is Some <==> self@.has_platform(id),
    {
        match self.platform_index(id) {
            Some(i) => Some(&self.platforms[i]),
            None => None,
        }
    }

    /// Where a platform of that name goes among the platforms: behind those
    /// whose names do not come after its own.
    fn place_for(&self, name: &str) -> (place: usize)
        ensures
            place == self@.place_for(name@, 0),
            place <= self.platforms@.len(),
    {
        let n = self.platforms.len();
        let mut i: usize = 0;
        while i < n
            invariant
                n == self.platforms@.len(),
                i <= n,
                self@.place_for(name@, 0) == self@.place_for(name@, i as int),
            decreases n - i,
        {
            proof {
                assert(self@.platforms[i as int] == self.platforms@[i as int]@);
            }
            if !text_not_after(self.platforms[i].name.as_str(), name) {
                return i;
            }
            i += 1;
        }
        n
    }

    /// Registers `platform`, unless a platform with its identifier is
    /// registered already. The platforms are kept in the order of their
    /// names; of two with the same name the one registered first comes
    /// first.
    pub fn register_platform(&mut self, platform: Platform) -> (result: Result<(), StoreError>)
        ensures
            final(self)@ == old(self)@.register(platform@),
            old(self)@.has_platform(platform.id) ==> result == Err::<(), StoreError>(
                StoreError::DuplicatePlatform,
            ),
            !old(self)@.has_platform(platform.id) ==> result is Ok,
    {
        proof {
            use_type_invariant(&*self);
            register_keeps_wf(self@, platform@);
        }
        if self.platform_index(platform.id).is_some() {
            return Err(StoreError::DuplicatePlatform);
        }
        let ghost before = self@;
        let mut platforms: Vec<Platform> = Vec::new();
        proof {
            assert(platform_views(platforms@) =~= Seq::empty());
            empty_archive_keeps_rules(
                ArchiveView { platforms: Seq::empty(), ..before },
            );
        }
        let place = self.place_for(platform.name.as_str());
        std::mem::swap(&mut self.platforms, &mut platforms);
        platforms.insert(place, platform);
        proof {
            assert(platform_views(platforms@) =~= before.platforms.insert(
                place as int,
                platform@,
            ));
        }
        std::mem::swap(&mut self.platforms, &mut platforms);
        Ok(())
    }

    /// The platforms that are monitored, each once, in the order of their
    /// names.
    pub fn get_active_platforms(&self) -> (active: Vec<&Platform>)
        ensures
            platform_ref_views(active@) == self@.active_platforms(),
            forall|i: int, j: int|
                0 <= i < j < active@.len() ==> text_le(
                    (#[trigger] active@[i]).name@,
                    (#[trigger] active@[j]).name@,
                ) && active@[i].id != active@[j].id,
    {
        proof {
            use_type_invariant(self);
            active_platforms_in_order(self@);
        }
        let mut active: Vec<&Platform> = Vec::new();
        let n = self.platforms.len();
        let mut i: usize = 0;
        proof {
            assert(self@.platforms.take(0) =~= Seq::empty());
            assert(platform_ref_views(active@) =~= Seq::empty());
        }
        while i < n
            invariant
                n == self.platforms@.len(),
                i <= n,
                platform_ref_views(active@) == self@.platforms.take(i as int).filter(monitored()),
            decreases n - i,
        {
            let platform = &self.platforms[i];
            proof {
                let seen = self@.platforms.take(i as int);
                assert(self@.platforms.take(i + 1) =~= seen.push(platform@));
                seen.lemma_filter_push(platform@, monitored());
            }
            if platform.monitoring_active {
                proof {
                    assert(platform_ref_views(active@.push(platform)) =~= platform_ref_views(
                        active@,
                    ).push(platform@));
                }
                active.push(platform);
            }
            i += 1;
        }
        proof {
            assert(self@.platforms.take(n as int) =~= self@.platforms);
            assert forall|i: int, j: int| 0 <= i < j < active@.len() implies text_le(
                (#[trigger] active@[i]).name@,
                (#[trigger] active@[j]).name@,
            ) && active@[i].id != active@[j].id by {
                assert(platform_ref_views(active@)[i] == active@[i]@);
                assert(platform_ref_views(active@)[j] == active@[j]@);
            }
        }
        active
    }

    /// Stamps the platform with identifier `id` as checked at `now`. Where no
    /// such platform is registered nothing changes.
    pub fn update_platform_last_checked(&mut self, id: Id, now: Timestamp)
        ensures
            final(self)@ == old(self)@.touch(id, now),
    {
        proof {
            use_type_invariant(&*self);
            touch_keeps_wf(self@, id, now);
        }
        let ghost before = self@;
        match self.platform_index(id) {
            Some(i) => {
                let mut platforms: Vec<Platform> = Vec::new();
                proof {
                    assert(platform_views(platforms@) =~= Seq::empty());
                    empty_archive_keeps_rules(
                        ArchiveView { platforms: Seq::empty(), ..before },
                    );
                }
                std::mem::swap(&mut self.platforms, &mut platforms);
                stamp(&mut platforms, i, now);
                proof {
                    assert forall|j: int| 0 <= j < before.platforms.len() && j != i implies (
                    #[trigger] before.platforms[j]).id != id by {
                        if j < i {
                            assert(before.in_order(j, i as int));
                        } else {
                            assert(before.in_order(i as int, j));
                        }
                    }
                    assert(platform_views(platforms@) =~= before.touch(id, now).platforms);
                }
                std::mem::swap(&mut self.platforms, &mut platforms);
            },
            None => {
                proof {
                    assert(self@.platforms =~= before.touch(id, now).platforms);
                }
            },
        }
    }

    /// Where the history of the document at `url` of the platform stands, or
    /// the number of histories where it is not tracked yet.
    fn find_document(&self, platform_id: Id, url: &str) -> (index: usize)
        ensures
            index == self@.document_index(platform_id, url@),
            index <= self.histories@.len(),
    {
        let n = self.histories.len();
        let mut i: usize = 0;
        while i < n
            invariant
                n == self.histories@.len(),
                i <= n,
                self@.document_index(platform_id, url@) == self@.index_from(
                    platform_id,
                    url@,
                    i as int,
                ),
            decreases n - i,
        {
            let document = &self.histories[i].document;
            proof {
                assert(self@.histories[i as int].document == document@);
            }
            if document.platform_id == platform_id && same_text(document.url.as_str(), url) {
                return i;
            }
            i += 1;
        }
        n
    }

    /// The youngest capture of the document with identifier `document_id`,
    /// if the document is tracked.
    pub fn get_latest_snapshot(&self, document_id: Id) -> (snapshot: Option<&PolicySnapshot>)
        ensures
            match snapshot {
                Some(s) => self@.latest_of(document_id) == Some(s@),
                None => self@.latest_of(document_id) is None,
            },
    {
        proof {
            use_type_invariant(self);
        }
        let n = self.histories.len();
        let mut i: usize = 0;
        while i < n
            invariant
                n == self.histories@.len(),
                self@.wf(),
                i <= n,
                self@.history_from(document_id, 0) == self@.history_from(document_id, i as int),
            decreases n - i,
        {
            let history = &self.histories[i];
            proof {
                assert(self@.histories[i as int] == history@);
                assert(self@.histories[i as int].wf(self@.first_capture));
            }
            if history.document.id == document_id {
                let snapshot = &history.captures[history.captures.len() - 1].snapshot;
                proof {
                    assert(self@.latest(i as int) == Some(snapshot@));
                }
                return Some(snapshot);
            }
            i += 1;
        }
        None
    }

    /// Records a fetched text: the document at `url` of the platform is seen
    /// again, or tracked from now on; a capture of `content` is added to its
    /// history, linked to the one before; and a change record is made where
    /// the content is new or has another fingerprint than the capture before.
    /// Where the text cannot be recorded the archive stays as it is.
    pub fn record(
        &mut self,
        platform_id: Id,
        document_type: &str,
        url: &str,
        title: Option<String>,
        content: &str,
        capture_method: &str,
        now: Timestamp,
    ) -> (result: Result<CollectionResult, StoreError>)
        ensures
            final(self)@ == old(self)@.record(
                recording(platform_id, document_type, url, title, content, capture_method, now),
            ),
            match old(self)@.record_error(
                recording(platform_id, document_type, url, title, content, capture_method, now),
            ) {
                Some(e) => result == Err::<CollectionResult, StoreError>(e),
                None => result matches Ok(r) && r@ == old(self)@.record_result(
                    recording(platform_id, document_type, url, title, content, capture_method, now),
                ),
            },
    {
        let ghost r = recording(
            platform_id,
            document_type,
            url,
            title,
            content,
            capture_method,
            now,
        );
        let ghost before = self@;
        proof {
            use_type_invariant(&*self);
            record_keeps_wf(before, r);
            index_from_finds_first(before, platform_id, url@, 0);
        }
        if self.platform_index(platform_id).is_none() {
            return Err(StoreError::UnknownPlatform);
        }
        if self.next_id > u128::MAX - 3 {
            return Err(StoreError::IdentifiersExhausted);
        }
        let k = self.find_document(platform_id, url);
        let mut previous_id: Option<Id> = None;
        let mut previous_checksum: Option<String> = None;
        let mut document_id = self.next_id;
        if k < self.histories.len() {
            let history = &self.histories[k];
            proof {
                assert(before.histories[k as int] == history@);
                assert(before.histories[k as int].wf(before.first_capture));
            }
            let last = &history.captures[history.captures.len() - 1].snapshot;
            proof {
                assert(before.previous(r) == Some(last@));
            }
            if last.captured_at >= now {
                return Err(StoreError::StaleTimestamp);
            }
            previous_id = Some(last.id);
            previous_checksum = Some(last.checksum.clone());
            document_id = history.document.id;
        }
        let checksum = PolicySnapshot::calculate_checksum(content);
        let changed = change_detected(self.first_capture, &previous_checksum, checksum.as_str());
        let snapshot_id = self.next_id + 1;
        let snapshot = PolicySnapshot {
            id: snapshot_id,
            policy_document_id: document_id,
            captured_at: now,
            content_text: content.to_owned(),
            content_html: None,
            content_markdown: None,
            word_count: Some(PolicySnapshot::calculate_word_count(content)),
            char_count: Some(PolicySnapshot::calculate_char_count(content)),
            checksum: checksum.clone(),
            previous_snapshot_id: previous_id,
            diff_summary: None,
            capture_method: capture_method.to_owned(),
            metadata: "{}".to_owned(),
        };
        let change = if changed {
            Some(
                PolicyChange {
                    id: self.next_id + 2,
                    policy_document_id: document_id,
                    previous_snapshot_id: previous_id,
                    current_snapshot_id: Some(snapshot_id),
                    detected_at: now,
                    change_type: "modification".to_owned(),
                    severity: "unknown".to_owned(),
                    confidence_score: DecimalValue { mantissa: 0, scale: 2 },
                    affected_sections: "[]".to_owned(),
                    change_summary: Some(change_summary(&previous_checksum, checksum.as_str())),
                    impact_assessment: None,
                    requires_member_notification: false,
                    notification_sent_at: None,
                    reviewed_by: None,
                    reviewed_at: None,
                    review_notes: None,
                    false_positive: false,
                    metadata: "{}".to_owned(),
                },
            )
        } else {
            None
        };
        let capture = Capture { snapshot, change };
        proof {
            assert(capture@ == before.recorded_capture(r));
        }
        let result = CollectionResult {
            platform_id,
            document_id,
            snapshot_id,
            content: content.to_owned(),
            checksum,
            change_detected: changed,
            previous_checksum,
        };
        proof {
            assert(result@ == before.record_result(r));
        }
        let mut histories: Vec<DocumentHistory> = Vec::new();
        proof {
            assert(history_views(histories@) =~= Seq::empty());
            empty_archive_keeps_rules(
                ArchiveView { histories: Seq::empty(), ..before },
            );
            empty_archive_keeps_rules(
                ArchiveView {
                    histories: Seq::empty(),
                    next_id: (before.next_id + 3) as Id,
                    ..before
                },
            );
        }
        std::mem::swap(&mut self.histories, &mut histories);
        self.next_id = self.next_id + 3;
        if k < histories.len() {
            extend_history(&mut histories, k, title, now, capture);
        } else {
            let document = PolicyDocument {
                id: document_id,
                platform_id,
                document_type: document_type.to_owned(),
                url: url.to_owned(),
                title,
                language: "en".to_owned(),
                version: None,
                is_current: true,
                discovered_at: now,
                first_seen_at: now,
                last_seen_at: now,
                archived_at: None,
                checksum: None,
                metadata: "{}".to_owned(),
            };
            proof {
                assert(document@ == before.recorded_document(r));
            }
            open_history(&mut histories, document, capture);
        }
        proof {
            assert(history_views(histories@) =~= before.record(r).histories);
        }
        std::mem::swap(&mut self.histories, &mut histories);
        Ok(result)
    }
}

/// An archive without histories, or without platforms, keeps the rules that
/// speak of what it has no more.
proof fn empty_archive_keeps_rules(a: ArchiveView)
    requires
        a.histories.len() == 0 || a.platforms.len() == 0,
        a.histories.len() == 0 || exists|b: ArchiveView|
            b.wf() && b.histories == a.histories && b.next_id == a.next_id && b.first_capture
                == a.first_capture,
        a.platforms.len() == 0 || exists|b: ArchiveView| b.wf() && b.platforms == a.platforms,
    ensures
        a.wf(),
{
    if a.histories.len() != 0 {
        let b = choose|b: ArchiveView|
            b.wf() && b.histories == a.histories && b.next_id == a.next_id && b.first_capture
                == a.first_capture;
        assert forall|k: int| 0 <= k < a.histories.len() implies #[trigger] a.ids_given(k) by {
            assert(b.ids_given(k));
        }
        assert forall|x: int, y: int|
            0 <= x < y < a.histories.len() implies #[trigger] a.distinct_documents(x, y) by {
            assert(b.distinct_documents(x, y));
        }
        assert forall|x: int, i: int, y: int, j: int|
            a.is_capture(x, i) && a.is_capture(y, j) && #[trigger] a.snapshot_id(x, i)
                == #[trigger] a.snapshot_id(y, j) implies x == y && i == j by {
            assert(b.is_capture(x, i) && b.is_capture(y, j));
            assert(b.snapshot_id(x, i) == b.snapshot_id(y, j));
        }
    }
    if a.platforms.len() != 0 {
        let b = choose|b: ArchiveView| b.wf() && b.platforms == a.platforms;
        assert forall|x: int, y: int| 0 <= x < y < a.platforms.len() implies #[trigger] a.in_order(
            x,
            y,
        ) by {
            assert(b.in_order(x, y));
        }
    }
}

/// Stamps platform `i` of the list as checked at `now`.
fn stamp(platforms: &mut Vec<Platform>, i: usize, now: Timestamp)
    requires
        i < old(platforms)@.len(),
    ensures
        final(platforms)@.len() == old(platforms)@.len(),
        forall|j: int|
            0 <= j < old(platforms)@.len() && j != i ==> final(platforms)@[j] == old(platforms)@[j],
        final(platforms)@[i as int]@ == (PlatformView {
            updated_at: now,
            last_checked_at: Some(now),
            ..old(platforms)@[i as int]@
        }),
{
    platforms[i].updated_at = now;
    platforms[i].last_checked_at = Some(now);
}

/// Adds `capture` to history `k`, whose document is seen again at `now`.
fn extend_history(
    histories: &mut Vec<DocumentHistory>,
    k: usize,
    title: Option<String>,
    now: Timestamp,
    capture: Capture,
)
    requires
        k < old(histories)@.len(),
    ensures
        final(histories)@.len() == old(histories)@.len(),
        forall|j: int|
            0 <= j < old(histories)@.len() && j != k ==> final(histories)@[j] == old(histories)@[j],
        final(histories)@[k as int]@.captures == old(histories)@[k as int]@.captures.push(capture@),
        final(histories)@[k as int]@.document == (DocumentView {
            last_seen_at: now,
            is_current: true,
            title: if title is Some {
                opt_text(title)
            } else {
                old(histories)@[k as int]@.document.title
            },
            ..old(histories)@[k as int]@.document
        }),
{
    let ghost captures_before = histories@[k as int].captures@;
    histories[k].document.last_seen_at = now;
    histories[k].document.is_current = true;
    if title.is_some() {
        histories[k].document.title = title;
    }
    histories[k].captures.push(capture);
    proof {
        assert(capture_views(histories@[k as int].captures@) =~= capture_views(
            captures_before,
        ).push(capture@));
    }
}

/// Starts the history of `document` with `capture`.
fn open_history(
    histories: &mut Vec<DocumentHistory>,
    document: PolicyDocument,
    capture: Capture,
)
    ensures
        final(histories)@.len() == old(histories)@.len() + 1,
        forall|j: int|
            0 <= j < old(histories)@.len() ==> final(histories)@[j] == old(histories)@[j],
        final(histories)@.last()@ == (HistoryView {
            document: document@,
            captures: seq![capture@],
        }),
{
    let mut captures: Vec<Capture> = Vec::new();
    captures.push(capture);
    proof {
        assert(capture_views(captures@) =~= seq![capture@]);
    }
    histories.push(DocumentHistory { document, captures });
}

} // verus!
