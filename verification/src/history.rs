//! The archive as a mathematical value: platforms, and for each tracked
//! document the captures taken of it, oldest first, each with the change it
//! gave rise to. What recording a fetched text does to the archive is a
//! function on these values, and the rules of the archive are proved of it.

use crate::checksum::checksum_of;
use crate::detector::differs;
use crate::detector::FirstCapture;
use crate::detector::summary_text;
use crate::models::ChangeView;
use crate::models::DecimalValue;
use crate::models::DocumentView;
use crate::models::Id;
use crate::models::PlatformView;
use crate::models::ResultView;
use crate::models::SnapshotView;
use crate::models::Timestamp;
use crate::text::text_le;
use crate::text::text_le_total;
use crate::text::text_le_transitive;
use crate::text::words;
use vstd::prelude::*;

verus! {

/// Why the archive did not take a record.
#[derive(Clone, Copy, Debug, PartialEq, Eq, Structural)]
pub enum StoreError {
    /// No platform with the given identifier is registered.
    UnknownPlatform,
    /// A platform with the given identifier is registered already.
    DuplicatePlatform,
    /// The archive has no identifiers left to give out.
    IdentifiersExhausted,
    /// The document has a capture that is as young as the new one or
    /// younger.
    StaleTimestamp,
    /// The store could not be reached or did not take the write. The
    /// archive in memory never fails so; a store behind a connection may.
    Unavailable,
}

/// One capture of a document, with the change that it gave rise to.
pub struct CaptureView {
    pub snapshot: SnapshotView,
    pub change: Option<ChangeView>,
}

/// A document and its captures, oldest first.
pub struct HistoryView {
    pub document: DocumentView,
    pub captures: Seq<CaptureView>,
}

/// The whole archive. Every identifier given out so far is below `next_id`.
pub struct ArchiveView {
    pub platforms: Seq<PlatformView>,
    pub histories: Seq<HistoryView>,
    pub next_id: Id,
    pub first_capture: FirstCapture,
}

/// A fetched text on its way into the archive.
pub struct Recording {
    pub platform_id: Id,
    pub document_type: Seq<char>,
    pub url: Seq<char>,
    pub title: Option<Seq<char>>,
    pub content: Seq<char>,
    pub capture_method: Seq<char>,
    pub now: Timestamp,
}

/// The test that picks the platforms with monitoring switched on.
pub open spec fn monitored() -> spec_fn(PlatformView) -> bool {
    |p: PlatformView| p.monitoring_active
}

impl HistoryView {
    /// Capture `i` belongs to the document and points back at the capture
    /// just before it, which is older and has the smaller identifier; the
    /// first capture points at nothing.
    pub open spec fn linked(self, i: int) -> bool {
        let s = self.captures[i].snapshot;
        &&& s.policy_document_id == self.document.id
        &&& if i == 0 {
            s.previous_snapshot_id is None
        } else {
            let p = self.captures[i - 1].snapshot;
            &&& s.previous_snapshot_id == Some(p.id)
            &&& p.captured_at < s.captured_at
            &&& p.id < s.id
        }
    }

    /// Whether capture `i` calls for a change record: its fingerprint is
    /// not that of the capture before it; or it is the first, and the policy
    /// counts that as a change.
    pub open spec fn change_due(self, i: int, policy: FirstCapture) -> bool {
        if i == 0 {
            policy == FirstCapture::CountsAsChange
        } else {
            self.captures[i - 1].snapshot.checksum != self.captures[i].snapshot.checksum
        }
    }

    /// Capture `i` has a change record exactly when one is due, and the
    /// record names this document, this capture and the one before it.
    pub open spec fn change_kept(self, i: int, policy: FirstCapture) -> bool {
        let c = self.captures[i];
        &&& c.change is Some <==> self.change_due(i, policy)
        &&& c.change matches Some(change) ==> {
            &&& change.policy_document_id == self.document.id
            &&& change.current_snapshot_id == Some(c.snapshot.id)
            &&& change.previous_snapshot_id == c.snapshot.previous_snapshot_id
        }
    }

    /// The rules of one document's history under a policy for first
    /// captures.
    pub open spec fn wf(self, policy: FirstCapture) -> bool {
        &&& self.captures.len() > 0
        &&& self.document.first_seen_at == self.captures[0].snapshot.captured_at
        &&& self.document.last_seen_at == self.captures.last().snapshot.captured_at
        &&& forall|i: int| 0 <= i < self.captures.len() ==> #[trigger] self.linked(i)
        &&& forall|i: int| 0 <= i < self.captures.len() ==> #[trigger] self.change_kept(i, policy)
    }
}

impl ArchiveView {
    /// The archive with nothing in it, which gives out the identifiers from
    /// `first_id` on and goes by `policy`.
    pub open spec fn empty_with(first_id: Id, policy: FirstCapture) -> ArchiveView {
        ArchiveView {
            platforms: Seq::empty(),
            histories: Seq::empty(),
            next_id: first_id,
            first_capture: policy,
        }
    }

    /// The archive with nothing in it, in which a first capture counts as a
    /// change.
    pub open spec fn empty() -> ArchiveView {
        ArchiveView::empty_with(0, FirstCapture::CountsAsChange)
    }

    /// Whether a platform with identifier `id` is registered.
    pub open spec fn has_platform(self, id: Id) -> bool {
        exists|i: int| 0 <= i < self.platforms.len() && (#[trigger] self.platforms[i]).id == id
    }

    /// Where the first platform with identifier `id` stands from `from` on,
    /// or the number of platforms where there is none.
    pub open spec fn platform_from(self, id: Id, from: int) -> int
        decreases self.platforms.len() - from,
    {
        if from < 0 || from >= self.platforms.len() {
            self.platforms.len() as int
        } else if self.platforms[from].id == id {
            from
        } else {
            self.platform_from(id, from + 1)
        }
    }

    /// The platform with identifier `id`, if it is registered.
    pub open spec fn platform_with(self, id: Id) -> Option<PlatformView> {
        let i = self.platform_from(id, 0);
        if 0 <= i < self.platforms.len() {
            Some(self.platforms[i])
        } else {
            None
        }
    }

    /// Whether history `k` is that of the document at `url` of the platform.
    pub open spec fn tracks_at(self, k: int, platform_id: Id, url: Seq<char>) -> bool {
        &&& self.histories[k].document.platform_id == platform_id
        &&& self.histories[k].document.url == url
    }

    /// The first history from `from` on that is the document's, or the
    /// number of histories where there is none.
    pub open spec fn index_from(self, platform_id: Id, url: Seq<char>, from: int) -> int
        decreases self.histories.len() - from,
    {
        if from < 0 || from >= self.histories.len() {
            self.histories.len() as int
        } else if self.tracks_at(from, platform_id, url) {
            from
        } else {
            self.index_from(platform_id, url, from + 1)
        }
    }

    /// Where the document's history stands, or the number of histories where
    /// the document is not tracked yet.
    pub open spec fn document_index(self, platform_id: Id, url: Seq<char>) -> int {
        self.index_from(platform_id, url, 0)
    }

    /// The youngest capture of history `k`, if `k` is a history.
    pub open spec fn latest(self, k: int) -> Option<SnapshotView> {
        if 0 <= k < self.histories.len() && self.histories[k].captures.len() > 0 {
            Some(self.histories[k].captures.last().snapshot)
        } else {
            None
        }
    }

    /// Where the history of the document with identifier `document_id`
    /// stands from `from` on, or the number of histories where there is
    /// none.
    pub open spec fn history_from(self, document_id: Id, from: int) -> int
        decreases self.histories.len() - from,
    {
        if from < 0 || from >= self.histories.len() {
            self.histories.len() as int
        } else if self.histories[from].document.id == document_id {
            from
        } else {
            self.history_from(document_id, from + 1)
        }
    }

    /// The youngest capture of the document with identifier `document_id`,
    /// if the document is tracked.
    pub open spec fn latest_of(self, document_id: Id) -> Option<SnapshotView> {
        self.latest(self.history_from(document_id, 0))
    }

    /// The youngest capture of the document that `r` is about.
    pub open spec fn previous(self, r: Recording) -> Option<SnapshotView> {
        self.latest(self.document_index(r.platform_id, r.url))
    }

    /// The fingerprint of that capture.
    pub open spec fn previous_checksum(self, r: Recording) -> Option<Seq<char>> {
        match self.previous(r) {
            Some(s) => Some(s.checksum),
            None => None,
        }
    }

    /// Why `r` cannot be recorded, if it cannot.
    pub open spec fn record_error(self, r: Recording) -> Option<StoreError> {
        if !self.has_platform(r.platform_id) {
            Some(StoreError::UnknownPlatform)
        } else if self.next_id > u128::MAX - 3 {
            Some(StoreError::IdentifiersExhausted)
        } else if self.previous(r) matches Some(s) && s.captured_at >= r.now {
            Some(StoreError::StaleTimestamp)
        } else {
            None
        }
    }

    /// The document after `r`: the tracked one, seen again, or a new one.
    pub open spec fn recorded_document(self, r: Recording) -> DocumentView {
        let k = self.document_index(r.platform_id, r.url);
        if 0 <= k < self.histories.len() {
            let d = self.histories[k].document;
            DocumentView {
                last_seen_at: r.now,
                is_current: true,
                title: if r.title is Some {
                    r.title
                } else {
                    d.title
                },
                ..d
            }
        } else {
            DocumentView {
                id: self.next_id,
                platform_id: r.platform_id,
                document_type: r.document_type,
                url: r.url,
                title: r.title,
                language: "en"@,
                version: None,
                is_current: true,
                discovered_at: r.now,
                first_seen_at: r.now,
                last_seen_at: r.now,
                archived_at: None,
                checksum: None,
                metadata: "{}"@,
            }
        }
    }

    /// The capture that `r` adds.
    pub open spec fn recorded_snapshot(self, r: Recording) -> SnapshotView {
        SnapshotView {
            id: (self.next_id + 1) as Id,
            policy_document_id: self.recorded_document(r).id,
            captured_at: r.now,
            content_text: r.content,
            content_html: None,
            content_markdown: None,
            word_count: Some(words(r.content).len() as i32),
            char_count: Some(r.content.len() as i32),
            checksum: checksum_of(r.content),
            previous_snapshot_id: match self.previous(r) {
                Some(s) => Some(s.id),
                None => None,
            },
            diff_summary: None,
            capture_method: r.capture_method,
            metadata: "{}"@,
        }
    }

    /// Whether `r` counts as a change.
    pub open spec fn change_detected(self, r: Recording) -> bool {
        differs(self.first_capture, self.previous_checksum(r), checksum_of(r.content))
    }

    /// The change record that `r` adds, if it counts as a change: a
    /// modification, not assessed and not reviewed yet.
    pub open spec fn recorded_change(self, r: Recording) -> Option<ChangeView> {
        if self.change_detected(r) {
            Some(
                ChangeView {
                    id: (self.next_id + 2) as Id,
                    policy_document_id: self.recorded_document(r).id,
                    previous_snapshot_id: self.recorded_snapshot(r).previous_snapshot_id,
                    current_snapshot_id: Some(self.recorded_snapshot(r).id),
                    detected_at: r.now,
                    change_type: "modification"@,
                    severity: "unknown"@,
                    confidence_score: DecimalValue { mantissa: 0, scale: 2 },
                    affected_sections: "[]"@,
                    change_summary: Some(
                        summary_text(self.previous_checksum(r), checksum_of(r.content)),
                    ),
                    impact_assessment: None,
                    requires_member_notification: false,
                    notification_sent_at: None,
                    reviewed_by: None,
                    reviewed_at: None,
                    review_notes: None,
                    false_positive: false,
                    metadata: "{}"@,
                },
            )
        } else {
            None
        }
    }

    /// The capture and its change together.
    pub open spec fn recorded_capture(self, r: Recording) -> CaptureView {
        CaptureView { snapshot: self.recorded_snapshot(r), change: self.recorded_change(r) }
    }

    /// The archive after `r`: the document's history is one capture longer,
    /// or a new history stands at the end; nothing else has moved. Where `r`
    /// cannot be recorded the archive stays as it is.
    pub open spec fn record(self, r: Recording) -> ArchiveView {
        let k = self.document_index(r.platform_id, r.url);
        if self.record_error(r) is Some {
            self
        } else if 0 <= k < self.histories.len() {
            ArchiveView {
                histories: self.histories.update(
                    k,
                    HistoryView {
                        document: self.recorded_document(r),
                        captures: self.histories[k].captures.push(self.recorded_capture(r)),
                    },
                ),
                next_id: (self.next_id + 3) as Id,
                ..self
            }
        } else {
            ArchiveView {
                histories: self.histories.push(
                    HistoryView {
                        document: self.recorded_document(r),
                        captures: seq![self.recorded_capture(r)],
                    },
                ),
                next_id: (self.next_id + 3) as Id,
                ..self
            }
        }
    }

    /// What recording `r` reports.
    pub open spec fn record_result(self, r: Recording) -> ResultView {
        ResultView {
            platform_id: r.platform_id,
            document_id: self.recorded_document(r).id,
            snapshot_id: self.recorded_snapshot(r).id,
            content: r.content,
            checksum: checksum_of(r.content),
            change_detected: self.change_detected(r),
            previous_checksum: self.previous_checksum(r),
        }
    }

    /// The archive with `platform` registered, if its identifier is free.
    /// The platforms are kept in the order of their names.
    pub open spec fn register(self, platform: PlatformView) -> ArchiveView {
        if self.has_platform(platform.id) {
            self
        } else {
            ArchiveView {
                platforms: self.platforms.insert(self.place_for(platform.name, 0), platform),
                ..self
            }
        }
    }

    /// Where a platform of that name goes among the platforms from `from`
    /// on: before the first whose name comes after its own, and so behind
    /// those of the same name.
    pub open spec fn place_for(self, name: Seq<char>, from: int) -> int
        decreases self.platforms.len() - from,
    {
        if from < 0 || from >= self.platforms.len() {
            self.platforms.len() as int
        } else if !text_le(self.platforms[from].name, name) {
            from
        } else {
            self.place_for(name, from + 1)
        }
    }

    /// Platforms `x` and `y` are different platforms, and the name of `x`
    /// does not come after that of `y`.
    pub open spec fn in_order(self, x: int, y: int) -> bool {
        &&& self.platforms[x].id != self.platforms[y].id
        &&& text_le(self.platforms[x].name, self.platforms[y].name)
    }

    /// The platforms that are monitored, in the order of their names.
    pub open spec fn active_platforms(self) -> Seq<PlatformView> {
        self.platforms.filter(monitored())
    }

    /// The archive after a collection pass went over the platform at `now`.
    pub open spec fn touch(self, platform_id: Id, now: Timestamp) -> ArchiveView {
        ArchiveView {
            platforms: Seq::new(
                self.platforms.len(),
                |i: int|
                    if self.platforms[i].id == platform_id {
                        PlatformView {
                            updated_at: now,
                            last_checked_at: Some(now),
                            ..self.platforms[i]
                        }
                    } else {
                        self.platforms[i]
                    },
            ),
            ..self
        }
    }

    /// Every identifier in history `k` has been given out: it is below
    /// `next_id`.
    pub open spec fn ids_given(self, k: int) -> bool {
        let h = self.histories[k];
        &&& h.document.id < self.next_id
        &&& forall|i: int|
            0 <= i < h.captures.len() ==> {
                &&& (#[trigger] h.captures[i]).snapshot.id < self.next_id
                &&& h.captures[i].change matches Some(c) ==> c.id < self.next_id
            }
    }

    /// The identifier of capture `i` of history `k`.
    pub open spec fn snapshot_id(self, k: int, i: int) -> Id {
        self.histories[k].captures[i].snapshot.id
    }

    /// Whether `i` is a capture of history `k`.
    pub open spec fn is_capture(self, k: int, i: int) -> bool {
        0 <= k < self.histories.len() && 0 <= i < self.histories[k].captures.len()
    }

    /// Histories `a` and `b` are of different documents: they differ in
    /// identifier, and in platform or URL.
    pub open spec fn distinct_documents(self, a: int, b: int) -> bool {
        &&& self.histories[a].document.id != self.histories[b].document.id
        &&& !self.tracks_at(
            a,
            self.histories[b].document.platform_id,
            self.histories[b].document.url,
        )
    }

    /// The rules of the archive.
    pub open spec fn wf(self) -> bool {
        &&& forall|k: int|
            0 <= k < self.histories.len() ==> (#[trigger] self.histories[k]).wf(self.first_capture)
        &&& forall|k: int| 0 <= k < self.histories.len() ==> #[trigger] self.ids_given(k)
        &&& forall|a: int, b: int|
            0 <= a < b < self.histories.len() ==> #[trigger] self.distinct_documents(a, b)
        &&& forall|k: int, i: int, l: int, j: int|
            self.is_capture(k, i) && self.is_capture(l, j) && #[trigger] self.snapshot_id(k, i)
                == #[trigger] self.snapshot_id(l, j) ==> k == l && i == j
        &&& forall|a: int, b: int|
            0 <= a < b < self.platforms.len() ==> #[trigger] self.in_order(a, b)
    }
}

/// What `index_from` finds: a history of the document with none of the
/// document before it, or the end of the histories with none at all.
pub proof fn index_from_finds_first(a: ArchiveView, platform_id: Id, url: Seq<char>, from: int)
    requires
        0 <= from <= a.histories.len(),
    ensures
        from <= a.index_from(platform_id, url, from) <= a.histories.len(),
        a.index_from(platform_id, url, from) < a.histories.len() ==> a.tracks_at(
            a.index_from(platform_id, url, from),
            platform_id,
            url,
        ),
        forall|j: int|
            from <= j < a.index_from(platform_id, url, from) ==> !#[trigger] a.tracks_at(
                j,
                platform_id,
                url,
            ),
    decreases a.histories.len() - from,
{
    if from < a.histories.len() && !a.tracks_at(from, platform_id, url) {
        index_from_finds_first(a, platform_id, url, from + 1);
    }
}

/// Recording keeps the rules of the archive.
pub proof fn record_keeps_wf(a: ArchiveView, r: Recording)
    requires
        a.wf(),
    ensures
        a.record(r).wf(),
{
    let b = a.record(r);
    let k = a.document_index(r.platform_id, r.url);
    let n = a.histories.len() as int;
    index_from_finds_first(a, r.platform_id, r.url, 0);
    if a.record_error(r) is None {
        let capture = a.recorded_capture(r);
        let document = a.recorded_document(r);
        assert(b.histories.len() == if k < n { n } else { n + 1 });
        assert forall|x: int| 0 <= x < n && x != k implies b.histories[x] == a.histories[x] by {}
        assert(b.histories[k].document == document);
        if k < n {
            let old_history = a.histories[k];
            let m = old_history.captures.len() as int;
            assert(old_history.wf(a.first_capture));
            assert(a.ids_given(k));
            assert(b.histories[k].captures == old_history.captures.push(capture));
            assert(old_history.linked(m - 1));
            assert(old_history.captures[m - 1].snapshot.id < a.next_id);
        } else {
            assert(b.histories[k].captures == seq![capture]);
        }
        let history = b.histories[k];
        let m = history.captures.len() - 1;
        assert forall|i: int| 0 <= i < history.captures.len() implies #[trigger] history.linked(
            i,
        ) by {
            if i < m {
                assert(a.histories[k].linked(i));
                assert(history.captures[i] == a.histories[k].captures[i]);
            }
            if i > 0 {
                assert(history.captures[i - 1] == a.histories[k].captures[i - 1]);
            }
        }
        assert forall|i: int|
            0 <= i < history.captures.len() implies #[trigger] history.change_kept(
            i,
            a.first_capture,
        ) by {
            if i < m {
                assert(a.histories[k].change_kept(i, a.first_capture));
                assert(history.captures[i] == a.histories[k].captures[i]);
            }
            if i > 0 {
                assert(history.captures[i - 1] == a.histories[k].captures[i - 1]);
            }
        }
        assert(history.captures.last() == capture);
        if k < n {
            assert(history.captures[0] == a.histories[k].captures[0]);
        }
        assert(history.wf(a.first_capture));
        assert forall|x: int| 0 <= x < b.histories.len() implies (#[trigger] b.histories[x]).wf(
            b.first_capture,
        ) by {
            if x != k {
                assert(a.histories[x].wf(a.first_capture));
            }
        }
        assert forall|x: int| 0 <= x < b.histories.len() implies #[trigger] b.ids_given(x) by {
            if x != k {
                assert(a.ids_given(x));
            } else if k < n {
                assert(a.ids_given(k));
                assert forall|i: int| 0 <= i < history.captures.len() implies {
                    &&& (#[trigger] history.captures[i]).snapshot.id < b.next_id
                    &&& history.captures[i].change matches Some(c) ==> c.id < b.next_id
                } by {
                    if i < m {
                        assert(history.captures[i] == a.histories[k].captures[i]);
                    }
                }
            }
        }
        assert forall|x: int, y: int|
            0 <= x < y < b.histories.len() implies #[trigger] b.distinct_documents(x, y) by {
            if y < n {
                assert(a.distinct_documents(x, y));
            } else {
                assert(a.ids_given(x));
                assert(!a.tracks_at(x, r.platform_id, r.url));
            }
        }
        assert forall|x: int, i: int, y: int, j: int|
            b.is_capture(x, i) && b.is_capture(y, j) && #[trigger] b.snapshot_id(x, i)
                == #[trigger] b.snapshot_id(y, j) implies x == y && i == j by {
            let fresh_x = x == k && i == m;
            let fresh_y = y == k && j == m;
            if !fresh_x {
                assert(a.is_capture(x, i));
                assert(a.ids_given(x));
                assert(b.snapshot_id(x, i) == a.snapshot_id(x, i));
                assert(a.histories[x].captures[i].snapshot.id < a.next_id);
            }
            if !fresh_y {
                assert(a.is_capture(y, j));
                assert(a.ids_given(y));
                assert(b.snapshot_id(y, j) == a.snapshot_id(y, j));
                assert(a.histories[y].captures[j].snapshot.id < a.next_id);
            }
        }
        assert forall|x: int, y: int| 0 <= x < y < b.platforms.len() implies #[trigger] b.in_order(
            x,
            y,
        ) by {
            assert(a.in_order(x, y));
        }
    }
}

/// What `place_for` finds: a place behind every platform whose name does not
/// come after the new name, and before one whose name does.
pub proof fn place_for_finds(a: ArchiveView, name: Seq<char>, from: int)
    requires
        0 <= from <= a.platforms.len(),
    ensures
        from <= a.place_for(name, from) <= a.platforms.len(),
        forall|j: int|
            from <= j < a.place_for(name, from) ==> text_le((#[trigger] a.platforms[j]).name, name),
        a.place_for(name, from) < a.platforms.len() ==> !text_le(
            a.platforms[a.place_for(name, from)].name,
            name,
        ),
    decreases a.platforms.len() - from,
{
    if from < a.platforms.len() && text_le(a.platforms[from].name, name) {
        place_for_finds(a, name, from + 1);
    }
}

/// Registering a platform keeps the rules of the archive.
pub proof fn register_keeps_wf(a: ArchiveView, platform: PlatformView)
    requires
        a.wf(),
    ensures
        a.register(platform).wf(),
{
    let b = a.register(platform);
    if !a.has_platform(platform.id) {
        assert forall|k: int| 0 <= k < b.histories.len() implies #[trigger] b.ids_given(k) by {
            assert(a.ids_given(k));
        }
        assert forall|x: int, y: int|
            0 <= x < y < b.histories.len() implies #[trigger] b.distinct_documents(x, y) by {
            assert(a.distinct_documents(x, y));
        }
        assert forall|x: int, i: int, y: int, j: int|
            b.is_capture(x, i) && b.is_capture(y, j) && #[trigger] b.snapshot_id(x, i)
                == #[trigger] b.snapshot_id(y, j) implies x == y && i == j by {
            assert(a.is_capture(x, i) && a.is_capture(y, j));
            assert(a.snapshot_id(x, i) == a.snapshot_id(y, j));
        }
        let place = a.place_for(platform.name, 0);
        place_for_finds(a, platform.name, 0);
        assert forall|x: int, y: int| 0 <= x < y < b.platforms.len() implies #[trigger] b.in_order(
            x,
            y,
        ) by {
            let old_x = if x < place { x } else { x - 1 };
            let old_y = if y < place { y } else { y - 1 };
            if x != place {
                assert(b.platforms[x] == a.platforms[old_x]);
            }
            if y != place {
                assert(b.platforms[y] == a.platforms[old_y]);
            }
            if x != place && y != place {
                assert(a.in_order(old_x, old_y));
            } else if y == place {
                assert(text_le(a.platforms[x].name, platform.name));
            } else {
                text_le_total(a.platforms[place].name, platform.name);
                if old_y > place {
                    assert(a.in_order(place, old_y));
                    text_le_transitive(
                        platform.name,
                        a.platforms[place].name,
                        a.platforms[old_y].name,
                    );
                }
            }
        }
    }
}

/// Stamping a platform keeps the rules of the archive.
pub proof fn touch_keeps_wf(a: ArchiveView, platform_id: Id, now: Timestamp)
    requires
        a.wf(),
    ensures
        a.touch(platform_id, now).wf(),
{
    let b = a.touch(platform_id, now);
    assert forall|k: int| 0 <= k < b.histories.len() implies #[trigger] b.ids_given(k) by {
        assert(a.ids_given(k));
    }
    assert forall|x: int, y: int|
        0 <= x < y < b.histories.len() implies #[trigger] b.distinct_documents(x, y) by {
        assert(a.distinct_documents(x, y));
    }
    assert forall|x: int, i: int, y: int, j: int|
        b.is_capture(x, i) && b.is_capture(y, j) && #[trigger] b.snapshot_id(x, i)
            == #[trigger] b.snapshot_id(y, j) implies x == y && i == j by {
        assert(a.is_capture(x, i) && a.is_capture(y, j));
        assert(a.snapshot_id(x, i) == a.snapshot_id(y, j));
    }
    assert forall|x: int, y: int| 0 <= x < y < b.platforms.len() implies #[trigger] b.in_order(
        x,
        y,
    ) by {
        assert(a.in_order(x, y));
    }
}

/// What `platform_from` finds: a platform with the identifier, or the end of
/// the platforms with none such from `from` on.
pub proof fn platform_from_finds(a: ArchiveView, id: Id, from: int)
    requires
        0 <= from <= a.platforms.len(),
    ensures
        from <= a.platform_from(id, from) <= a.platforms.len(),
        a.platform_from(id, from) < a.platforms.len() ==> a.platforms[a.platform_from(
            id,
            from,
        )].id == id,
        forall|j: int|
            from <= j < a.platform_from(id, from) ==> (#[trigger] a.platforms[j]).id != id,
        from == 0 ==> (a.platform_with(id) is Some <==> a.has_platform(id)),
    decreases a.platforms.len() - from,
{
    if from < a.platforms.len() && a.platforms[from].id != id {
        platform_from_finds(a, id, from + 1);
    }
    if from == 0 {
        let i = a.platform_from(id, 0);
        if i < a.platforms.len() {
            assert(a.platforms[i].id == id);
        }
    }
}

/// The history that tracks a document is the first one that `index_from`
/// meets.
pub proof fn index_from_is(a: ArchiveView, platform_id: Id, url: Seq<char>, from: int, k: int)
    requires
        0 <= from <= k < a.histories.len(),
        a.tracks_at(k, platform_id, url),
        forall|j: int| from <= j < k ==> !#[trigger] a.tracks_at(j, platform_id, url),
    ensures
        a.index_from(platform_id, url, from) == k,
    decreases k - from,
{
    if from < k {
        assert(!a.tracks_at(from, platform_id, url));
        index_from_is(a, platform_id, url, from + 1, k);
    }
}

/// Once a text is recorded its document is tracked, at the place where the
/// archive looked for it, and the recorded capture is its youngest.
pub proof fn recorded_document_is_tracked(a: ArchiveView, r: Recording)
    requires
        a.wf(),
        a.record_error(r) is None,
    ensures
        a.record(r).document_index(r.platform_id, r.url) == a.document_index(r.platform_id, r.url),
        a.document_index(r.platform_id, r.url) < a.record(r).histories.len(),
        a.record(r).latest(a.document_index(r.platform_id, r.url)) == Some(a.recorded_snapshot(r)),
{
    let b = a.record(r);
    let k = a.document_index(r.platform_id, r.url);
    index_from_finds_first(a, r.platform_id, r.url, 0);
    assert forall|j: int| 0 <= j < k implies !#[trigger] b.tracks_at(j, r.platform_id, r.url) by {
        assert(!a.tracks_at(j, r.platform_id, r.url));
        assert(b.histories[j] == a.histories[j]);
    }
    assert(b.tracks_at(k, r.platform_id, r.url));
    index_from_is(b, r.platform_id, r.url, 0, k);
}

/// The captures of a document are ordered by capture time and by identifier:
/// an earlier capture is older and has the smaller identifier.
pub proof fn captures_ordered(a: ArchiveView, k: int, i: int, j: int)
    requires
        a.wf(),
        a.is_capture(k, i),
        a.is_capture(k, j),
        i < j,
    ensures
        a.histories[k].captures[i].snapshot.captured_at
            < a.histories[k].captures[j].snapshot.captured_at,
        a.histories[k].captures[i].snapshot.id < a.histories[k].captures[j].snapshot.id,
    decreases j - i,
{
    let h = a.histories[k];
    assert(h.wf(a.first_capture));
    assert(h.linked(j));
    if i < j - 1 {
        captures_ordered(a, k, i, j - 1);
    }
}

/// The capture that `latest` gives is the youngest of its document: no
/// capture of the document was taken after it.
pub proof fn latest_is_youngest(a: ArchiveView, k: int, i: int)
    requires
        a.wf(),
        a.is_capture(k, i),
    ensures
        a.latest(k) is Some,
        a.histories[k].captures[i].snapshot.captured_at <= a.latest(k)->0.captured_at,
        a.histories[k].captures[i].snapshot.captured_at == a.latest(k)->0.captured_at ==> i
            == a.histories[k].captures.len() - 1,
{
    let last = a.histories[k].captures.len() - 1;
    if i < last {
        captures_ordered(a, k, i, last);
    }
}

/// The chain of captures is intact. The first capture of a document points
/// back at nothing. Every later one points at the capture taken just before
/// it, of the same document, and at no other capture in the archive. A
/// back-link therefore always leads to an older capture, and following the
/// links never returns to where it started.
pub proof fn snapshot_chain_intact(a: ArchiveView, k: int, i: int, l: int, j: int)
    requires
        a.wf(),
        a.is_capture(k, i),
        a.is_capture(l, j),
    ensures
        a.histories[k].captures[i].snapshot.policy_document_id == a.histories[k].document.id,
        i == 0 <==> a.histories[k].captures[i].snapshot.previous_snapshot_id is None,
        a.histories[k].captures[i].snapshot.previous_snapshot_id == Some(a.snapshot_id(l, j)) <==> l
            == k && j == i - 1,
        a.histories[k].captures[i].snapshot.previous_snapshot_id == Some(a.snapshot_id(l, j))
            ==> a.histories[l].captures[j].snapshot.captured_at
            < a.histories[k].captures[i].snapshot.captured_at,
{
    let h = a.histories[k];
    assert(h.wf(a.first_capture));
    assert(h.linked(i));
    if i > 0 {
        assert(a.is_capture(k, i - 1));
        assert(h.captures[i - 1].snapshot.id == a.snapshot_id(k, i - 1));
    }
}

/// A change record exists for a capture exactly when its fingerprint is not
/// that of the capture before it. The first capture of a document, which has
/// none before it, has one exactly when the policy counts it as a change.
pub proof fn change_recorded_iff_checksum_differs(a: ArchiveView, k: int, i: int)
    requires
        a.wf(),
        a.is_capture(k, i),
    ensures
        i == 0 ==> (a.histories[k].captures[i].change is Some <==> a.first_capture
            == FirstCapture::CountsAsChange),
        i > 0 ==> (a.histories[k].captures[i].change is Some
            <==> a.histories[k].captures[i - 1].snapshot.checksum
            != a.histories[k].captures[i].snapshot.checksum),
{
    assert(a.histories[k].wf(a.first_capture));
    assert(a.histories[k].change_kept(i, a.first_capture));
}

/// A change record names the capture that it was made for as its current
/// one, the capture before that as its previous one, and the document of
/// both as its own.
pub proof fn change_names_its_captures(a: ArchiveView, k: int, i: int)
    requires
        a.wf(),
        a.is_capture(k, i),
        a.histories[k].captures[i].change is Some,
    ensures
        a.histories[k].captures[i].change->0.current_snapshot_id == Some(a.snapshot_id(k, i)),
        a.histories[k].captures[i].change->0.policy_document_id
            == a.histories[k].captures[i].snapshot.policy_document_id,
        a.histories[k].captures[i].change->0.previous_snapshot_id == if i == 0 {
            None
        } else {
            Some(a.snapshot_id(k, i - 1))
        },
{
    assert(a.histories[k].wf(a.first_capture));
    assert(a.histories[k].change_kept(i, a.first_capture));
    assert(a.histories[k].linked(i));
}

/// No two documents of the archive share platform and URL.
pub proof fn one_document_per_url(a: ArchiveView, x: int, y: int)
    requires
        a.wf(),
        0 <= x < a.histories.len(),
        0 <= y < a.histories.len(),
        a.histories[x].document.platform_id == a.histories[y].document.platform_id,
        a.histories[x].document.url == a.histories[y].document.url,
    ensures
        x == y,
{
    if x < y {
        assert(a.distinct_documents(x, y));
    } else if y < x {
        assert(a.distinct_documents(y, x));
    }
}

/// Fetching a URL of a platform a second time makes no second document: the
/// record goes to the document that the first fetch made or found, which
/// keeps its identifier.
pub proof fn second_record_updates_document(a: ArchiveView, first: Recording, second: Recording)
    requires
        a.wf(),
        first.platform_id == second.platform_id,
        first.url == second.url,
        a.record_error(first) is None,
        a.record(first).record_error(second) is None,
    ensures
        a.record(first).record(second).histories.len() == a.record(first).histories.len(),
        a.record(first).record_result(second).document_id == a.record_result(first).document_id,
        a.record(first).recorded_snapshot(second).previous_snapshot_id == Some(
            a.recorded_snapshot(first).id,
        ),
{
    recorded_document_is_tracked(a, first);
}

/// A second fetch that brings the same content still adds a capture, but it
/// counts as no change and no change record is made.
pub proof fn same_content_is_no_change(a: ArchiveView, first: Recording, second: Recording)
    requires
        a.wf(),
        first.platform_id == second.platform_id,
        first.url == second.url,
        first.content == second.content,
        a.record_error(first) is None,
        a.record(first).record_error(second) is None,
    ensures
        !a.record(first).record_result(second).change_detected,
        a.record(first).recorded_change(second) is None,
        a.record(first).record(second).histories[a.document_index(
            first.platform_id,
            first.url,
        )].captures.len() == a.record(first).histories[a.document_index(
            first.platform_id,
            first.url,
        )].captures.len() + 1,
{
    recorded_document_is_tracked(a, first);
}

/// A second fetch that brings other content counts as a change exactly when
/// the fingerprints differ.
pub proof fn changed_content_is_change(a: ArchiveView, first: Recording, second: Recording)
    requires
        a.wf(),
        first.platform_id == second.platform_id,
        first.url == second.url,
        a.record_error(first) is None,
        a.record(first).record_error(second) is None,
    ensures
        a.record(first).record_result(second).change_detected <==> checksum_of(first.content)
            != checksum_of(second.content),
        a.record(first).recorded_change(second) is Some <==> checksum_of(first.content)
            != checksum_of(second.content),
{
    recorded_document_is_tracked(a, first);
}

/// Monitored platforms that stand in the order of their names, each once,
/// still do so when the others are left out.
pub proof fn monitored_keep_order(platforms: Seq<PlatformView>)
    requires
        forall|x: int, y: int|
            0 <= x < y < platforms.len() ==> text_le(
                (#[trigger] platforms[x]).name,
                (#[trigger] platforms[y]).name,
            ) && platforms[x].id != platforms[y].id,
    ensures
        forall|i: int, j: int|
            0 <= i < j < platforms.filter(monitored()).len() ==> text_le(
                (#[trigger] platforms.filter(monitored())[i]).name,
                (#[trigger] platforms.filter(monitored())[j]).name,
            ) && platforms.filter(monitored())[i].id != platforms.filter(monitored())[j].id,
    decreases platforms.len(),
{
    let kept = platforms.filter(monitored());
    if platforms.len() == 0 {
        platforms.lemma_filter_len(monitored());
    } else {
        let front = platforms.drop_last();
        let last = platforms.last();
        assert(platforms =~= front.push(last));
        assert forall|x: int, y: int| 0 <= x < y < front.len() implies text_le(
            (#[trigger] front[x]).name,
            (#[trigger] front[y]).name,
        ) && front[x].id != front[y].id by {
            assert(front[x] == platforms[x]);
            assert(front[y] == platforms[y]);
        }
        monitored_keep_order(front);
        front.lemma_filter_push(last, monitored());
        let kept_front = front.filter(monitored());
        assert forall|i: int, j: int| 0 <= i < j < kept.len() implies text_le(
            (#[trigger] kept[i]).name,
            (#[trigger] kept[j]).name,
        ) && kept[i].id != kept[j].id by {
            if j < kept_front.len() {
                assert(kept[i] == kept_front[i]);
                assert(kept[j] == kept_front[j]);
            } else {
                assert(kept[j] == last);
                assert(kept[i] == kept_front[i]);
                assert(kept_front.contains(kept_front[i]));
                front.lemma_filter_contains_rev(monitored(), kept_front[i]);
                let x = choose|x: int| 0 <= x < front.len() && front[x] == kept_front[i];
                assert(front[x] == platforms[x]);
                assert(last == platforms[platforms.len() - 1]);
            }
        }
    }
}

/// The active platforms stand in the order of their names, each once.
pub proof fn active_platforms_in_order(a: ArchiveView)
    requires
        a.wf(),
    ensures
        forall|i: int, j: int|
            0 <= i < j < a.active_platforms().len() ==> text_le(
                (#[trigger] a.active_platforms()[i]).name,
                (#[trigger] a.active_platforms()[j]).name,
            ) && a.active_platforms()[i].id != a.active_platforms()[j].id,
{
    assert forall|x: int, y: int| 0 <= x < y < a.platforms.len() implies text_le(
        (#[trigger] a.platforms[x]).name,
        (#[trigger] a.platforms[y]).name,
    ) && a.platforms[x].id != a.platforms[y].id by {
        assert(a.in_order(x, y));
    }
    monitored_keep_order(a.platforms);
}

/// A document that is seen again keeps its identifier, its category and
/// the time at which it was first seen; it is current; its title is the new
/// one, or the old one where none came; and the time at which it was last
/// seen moves on, never back.
pub proof fn seen_again_moves_on(a: ArchiveView, r: Recording)
    requires
        a.wf(),
        a.record_error(r) is None,
        a.document_index(r.platform_id, r.url) < a.histories.len(),
    ensures
        a.recorded_document(r).id == a.histories[a.document_index(
            r.platform_id,
            r.url,
        )].document.id,
        a.recorded_document(r).document_type == a.histories[a.document_index(
            r.platform_id,
            r.url,
        )].document.document_type,
        a.recorded_document(r).first_seen_at == a.histories[a.document_index(
            r.platform_id,
            r.url,
        )].document.first_seen_at,
        a.recorded_document(r).last_seen_at > a.histories[a.document_index(
            r.platform_id,
            r.url,
        )].document.last_seen_at,
        a.recorded_document(r).first_seen_at <= a.recorded_document(r).last_seen_at,
        a.recorded_document(r).is_current,
        a.recorded_document(r).title == if r.title is Some {
            r.title
        } else {
            a.histories[a.document_index(r.platform_id, r.url)].document.title
        },
        a.record(r).histories[a.document_index(r.platform_id, r.url)].document
            == a.recorded_document(r),
{
    let k = a.document_index(r.platform_id, r.url);
    index_from_finds_first(a, r.platform_id, r.url, 0);
    let h = a.histories[k];
    assert(h.wf(a.first_capture));
    if h.captures.len() > 1 {
        captures_ordered(a, k, 0, h.captures.len() - 1);
    }
}

/// A platform that is not monitored is not among the active ones, and every
/// active one is registered and monitored.
pub proof fn inactive_platform_never_listed(a: ArchiveView, i: int)
    requires
        0 <= i < a.active_platforms().len(),
    ensures
        a.active_platforms()[i].monitoring_active,
        a.platforms.contains(a.active_platforms()[i]),
{
    let listed = a.active_platforms()[i];
    a.platforms.lemma_filter_pred(monitored(), i);
    assert(a.platforms.filter(monitored()).contains(listed));
    a.platforms.lemma_filter_contains_rev(monitored(), listed);
}

} // verus!
