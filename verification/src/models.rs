//! The records of the monitor: platforms, the documents they publish, the
//! captures of those documents and the changes found between captures.
//!
//! Identifiers are 128-bit numbers and points in time are microseconds since
//! the Unix epoch, so that every field is a plain value.

use crate::checksum::checksum;
use crate::checksum::checksum_of;
use crate::text::chars_of;
use crate::text::split_whitespace;
use crate::text::words;
use crate::text::views;
use vstd::prelude::*;
use vstd::string::StrSliceExecFns;

verus! {

/// The identifier of a record.
pub type Id = u128;

/// A point in time: microseconds since the Unix epoch.
pub type Timestamp = i64;

/// One element of a JSON array, as far as a list of URLs reads it: a string,
/// or a value of another kind.
#[derive(Clone, Debug, PartialEq, Eq)]
pub enum JsonItem {
    String(String),
    Other,
}

/// A JSON column that is meant to hold a list of URLs: an array, or a value
/// of another kind.
#[derive(Clone, Debug, PartialEq, Eq)]
pub enum JsonColumn {
    Array(Vec<JsonItem>),
    Other,
}

/// A decimal number: `mantissa` divided by ten to the power of `scale`.
#[derive(Clone, Copy, Debug, PartialEq, Eq)]
pub struct DecimalValue {
    pub mantissa: i128,
    pub scale: u32,
}

/// A monitored platform.
#[derive(Clone, Debug)]
pub struct Platform {
    pub id: Id,
    pub name: String,
    pub display_name: String,
    pub url: String,
    pub api_endpoint: Option<String>,
    pub api_enabled: bool,
    pub scraping_enabled: bool,
    pub monitoring_active: bool,
    pub check_frequency_minutes: i32,
    pub policy_urls: JsonColumn,
    pub terms_urls: JsonColumn,
    pub community_guidelines_urls: JsonColumn,
    /// Free-form JSON text, carried along unread.
    pub metadata: String,
    pub created_at: Timestamp,
    pub updated_at: Timestamp,
    /// When a collection pass last went over the platform, whatever came of
    /// it.
    pub last_checked_at: Option<Timestamp>,
}

/// A tracked document: one URL of one platform, whatever its content is at
/// a given time.
#[derive(Clone, Debug)]
pub struct PolicyDocument {
    pub id: Id,
    pub platform_id: Id,
    pub document_type: String,
    pub url: String,
    pub title: Option<String>,
    pub language: String,
    pub version: Option<String>,
    pub is_current: bool,
    pub discovered_at: Timestamp,
    pub first_seen_at: Timestamp,
    pub last_seen_at: Timestamp,
    pub archived_at: Option<Timestamp>,
    pub checksum: Option<String>,
    /// Free-form JSON text, carried along unread.
    pub metadata: String,
}

/// One capture of a document's content.
#[derive(Clone, Debug)]
pub struct PolicySnapshot {
    pub id: Id,
    pub policy_document_id: Id,
    pub captured_at: Timestamp,
    pub content_text: String,
    pub content_html: Option<String>,
    pub content_markdown: Option<String>,
    pub word_count: Option<i32>,
    pub char_count: Option<i32>,
    pub checksum: String,
    pub previous_snapshot_id: Option<Id>,
    /// Free-form JSON text, carried along unread.
    pub diff_summary: Option<String>,
    pub capture_method: String,
    /// Free-form JSON text, carried along unread.
    pub metadata: String,
}

/// A difference found between two captures of a document that follow each
/// other.
#[derive(Clone, Debug)]
pub struct PolicyChange {
    pub id: Id,
    pub policy_document_id: Id,
    pub previous_snapshot_id: Option<Id>,
    pub current_snapshot_id: Option<Id>,
    pub detected_at: Timestamp,
    pub change_type: String,
    pub severity: String,
    pub confidence_score: DecimalValue,
    /// A JSON array as text, carried along unread.
    pub affected_sections: String,
    pub change_summary: Option<String>,
    pub impact_assessment: Option<String>,
    pub requires_member_notification: bool,
    pub notification_sent_at: Option<Timestamp>,
    pub reviewed_by: Option<String>,
    pub reviewed_at: Option<Timestamp>,
    pub review_notes: Option<String>,
    pub false_positive: bool,
    /// Free-form JSON text, carried along unread.
    pub metadata: String,
}

/// Where a collection job stands.
#[derive(Clone, Copy, Debug, PartialEq, Eq, Structural)]
pub enum JobStatus {
    Pending,
    Running,
    Completed,
    Failed,
}

/// A collection pass over one platform, as it is queued and reported.
#[derive(Clone, Debug)]
pub struct CollectionJob {
    pub platform_id: Id,
    pub platform_name: String,
    pub scheduled_at: Timestamp,
    pub started_at: Option<Timestamp>,
    pub completed_at: Option<Timestamp>,
    pub status: JobStatus,
    pub documents_collected: u32,
    pub changes_detected: u32,
    pub errors: Vec<String>,
}

/// What collecting one document gave.
#[derive(Clone, Debug)]
pub struct CollectionResult {
    pub platform_id: Id,
    pub document_id: Id,
    pub snapshot_id: Id,
    pub content: String,
    pub checksum: String,
    pub change_detected: bool,
    pub previous_checksum: Option<String>,
}

/// The characters of a text that may be absent.
pub open spec fn opt_text(text: Option<String>) -> Option<Seq<char>> {
    match text {
        Some(t) => Some(t@),
        None => None,
    }
}

/// The texts of a list.
pub open spec fn texts(list: Seq<String>) -> Seq<Seq<char>> {
    list.map_values(|t: String| t@)
}

/// A platform as the contracts see it.
pub struct PlatformView {
    pub id: Id,
    pub name: Seq<char>,
    pub display_name: Seq<char>,
    pub url: Seq<char>,
    pub api_endpoint: Option<Seq<char>>,
    pub api_enabled: bool,
    pub scraping_enabled: bool,
    pub monitoring_active: bool,
    pub check_frequency_minutes: i32,
    pub policy_urls: Seq<Seq<char>>,
    pub terms_urls: Seq<Seq<char>>,
    pub community_guidelines_urls: Seq<Seq<char>>,
    pub metadata: Seq<char>,
    pub created_at: Timestamp,
    pub updated_at: Timestamp,
    pub last_checked_at: Option<Timestamp>,
}

/// A document as the contracts see it.
pub struct DocumentView {
    pub id: Id,
    pub platform_id: Id,
    pub document_type: Seq<char>,
    pub url: Seq<char>,
    pub title: Option<Seq<char>>,
    pub language: Seq<char>,
    pub version: Option<Seq<char>>,
    pub is_current: bool,
    pub discovered_at: Timestamp,
    pub first_seen_at: Timestamp,
    pub last_seen_at: Timestamp,
    pub archived_at: Option<Timestamp>,
    pub checksum: Option<Seq<char>>,
    pub metadata: Seq<char>,
}

/// A capture as the contracts see it.
pub struct SnapshotView {
    pub id: Id,
    pub policy_document_id: Id,
    pub captured_at: Timestamp,
    pub content_text: Seq<char>,
    pub content_html: Option<Seq<char>>,
    pub content_markdown: Option<Seq<char>>,
    pub word_count: Option<i32>,
    pub char_count: Option<i32>,
    pub checksum: Seq<char>,
    pub previous_snapshot_id: Option<Id>,
    pub diff_summary: Option<Seq<char>>,
    pub capture_method: Seq<char>,
    pub metadata: Seq<char>,
}

/// A change as the contracts see it.
pub struct ChangeView {
    pub id: Id,
    pub policy_document_id: Id,
    pub previous_snapshot_id: Option<Id>,
    pub current_snapshot_id: Option<Id>,
    pub detected_at: Timestamp,
    pub change_type: Seq<char>,
    pub severity: Seq<char>,
    pub confidence_score: DecimalValue,
    pub affected_sections: Seq<char>,
    pub change_summary: Option<Seq<char>>,
    pub impact_assessment: Option<Seq<char>>,
    pub requires_member_notification: bool,
    pub notification_sent_at: Option<Timestamp>,
    pub reviewed_by: Option<Seq<char>>,
    pub reviewed_at: Option<Timestamp>,
    pub review_notes: Option<Seq<char>>,
    pub false_positive: bool,
    pub metadata: Seq<char>,
}

/// A collection result as the contracts see it.
pub struct ResultView {
    pub platform_id: Id,
    pub document_id: Id,
    pub snapshot_id: Id,
    pub content: Seq<char>,
    pub checksum: Seq<char>,
    pub change_detected: bool,
    pub previous_checksum: Option<Seq<char>>,
}

/// The texts among the elements of a JSON array, in order.
pub open spec fn item_texts(items: Seq<JsonItem>) -> Seq<Seq<char>>
    decreases items.len(),
{
    if items.len() == 0 {
        Seq::empty()
    } else {
        let front = item_texts(items.drop_last());
        match items.last() {
            JsonItem::String(text) => front.push(text@),
            JsonItem::Other => front,
        }
    }
}

impl View for JsonColumn {
    type V = Seq<Seq<char>>;

    /// The URLs that the column lists: the strings of the array, in order;
    /// none where the column is no array.
    open spec fn view(&self) -> Seq<Seq<char>> {
        match self {
            JsonColumn::Array(items) => item_texts(items@),
            JsonColumn::Other => Seq::empty(),
        }
    }
}

impl View for Platform {
    type V = PlatformView;

    open spec fn view(&self) -> PlatformView {
        PlatformView {
            id: self.id,
            name: self.name@,
            display_name: self.display_name@,
            url: self.url@,
            api_endpoint: opt_text(self.api_endpoint),
            api_enabled: self.api_enabled,
            scraping_enabled: self.scraping_enabled,
            monitoring_active: self.monitoring_active,
            check_frequency_minutes: self.check_frequency_minutes,
            policy_urls: self.policy_urls@,
            terms_urls: self.terms_urls@,
            community_guidelines_urls: self.community_guidelines_urls@,
            metadata: self.metadata@,
            created_at: self.created_at,
            updated_at: self.updated_at,
            last_checked_at: self.last_checked_at,
        }
    }
}

impl View for PolicyDocument {
    type V = DocumentView;

    open spec fn view(&self) -> DocumentView {
        DocumentView {
            id: self.id,
            platform_id: self.platform_id,
            document_type: self.document_type@,
            url: self.url@,
            title: opt_text(self.title),
            language: self.language@,
            version: opt_text(self.version),
            is_current: self.is_current,
            discovered_at: self.discovered_at,
            first_seen_at: self.first_seen_at,
            last_seen_at: self.last_seen_at,
            archived_at: self.archived_at,
            checksum: opt_text(self.checksum),
            metadata: self.metadata@,
        }
    }
}

impl View for PolicySnapshot {
    type V = SnapshotView;

    open spec fn view(&self) -> SnapshotView {
        SnapshotView {
            id: self.id,
            policy_document_id: self.policy_document_id,
            captured_at: self.captured_at,
            content_text: self.content_text@,
            content_html: opt_text(self.content_html),
            content_markdown: opt_text(self.content_markdown),
            word_count: self.word_count,
            char_count: self.char_count,
            checksum: self.checksum@,
            previous_snapshot_id: self.previous_snapshot_id,
            diff_summary: opt_text(self.diff_summary),
            capture_method: self.capture_method@,
            metadata: self.metadata@,
        }
    }
}

impl View for PolicyChange {
    type V = ChangeView;

    open spec fn view(&self) -> ChangeView {
        ChangeView {
            id: self.id,
            policy_document_id: self.policy_document_id,
            previous_snapshot_id: self.previous_snapshot_id,
            current_snapshot_id: self.current_snapshot_id,
            detected_at: self.detected_at,
            change_type: self.change_type@,
            severity: self.severity@,
            confidence_score: self.confidence_score,
            affected_sections: self.affected_sections@,
            change_summary: opt_text(self.change_summary),
            impact_assessment: opt_text(self.impact_assessment),
            requires_member_notification: self.requires_member_notification,
            notification_sent_at: self.notification_sent_at,
            reviewed_by: opt_text(self.reviewed_by),
            reviewed_at: self.reviewed_at,
            review_notes: opt_text(self.review_notes),
            false_positive: self.false_positive,
            metadata: self.metadata@,
        }
    }
}

impl View for CollectionResult {
    type V = ResultView;

    open spec fn view(&self) -> ResultView {
        ResultView {
            platform_id: self.platform_id,
            document_id: self.document_id,
            snapshot_id: self.snapshot_id,
            content: self.content@,
            checksum: self.checksum@,
            change_detected: self.change_detected,
            previous_checksum: opt_text(self.previous_checksum),
        }
    }
}

impl JsonColumn {
    /// A copy of the column that lists the same URLs.
    pub fn duplicate(&self) -> (copy: JsonColumn)
        ensures
            copy@ == self@,
    {
        match self {
            JsonColumn::Other => JsonColumn::Other,
            JsonColumn::Array(items) => {
                let mut copied: Vec<JsonItem> = Vec::new();
                let n = items.len();
                let mut i: usize = 0;
                proof {
                    assert(items@.take(0) =~= copied@);
                }
                while i < n
                    invariant
                        n == items@.len(),
                        i <= n,
                        copied@.len() == i,
                        item_texts(copied@) == item_texts(items@.take(i as int)),
                    decreases n - i,
                {
                    let item = match &items[i] {
                        JsonItem::String(text) => JsonItem::String(text.clone()),
                        JsonItem::Other => JsonItem::Other,
                    };
                    proof {
                        assert(items@.take(i + 1).drop_last() =~= items@.take(i as int));
                        assert(items@.take(i + 1).last() == items@[i as int]);
                        assert(copied@.push(item).drop_last() =~= copied@);
                    }
                    copied.push(item);
                    i += 1;
                }
                proof {
                    assert(items@.take(n as int) =~= items@);
                }
                JsonColumn::Array(copied)
            },
        }
    }
}

impl Platform {
    /// A copy of the platform.
    pub fn duplicate(&self) -> (copy: Platform)
        ensures
            copy@ == self@,
    {
        Platform {
            id: self.id,
            name: self.name.clone(),
            display_name: self.display_name.clone(),
            url: self.url.clone(),
            api_endpoint: self.api_endpoint.clone(),
            api_enabled: self.api_enabled,
            scraping_enabled: self.scraping_enabled,
            monitoring_active: self.monitoring_active,
            check_frequency_minutes: self.check_frequency_minutes,
            policy_urls: self.policy_urls.duplicate(),
            terms_urls: self.terms_urls.duplicate(),
            community_guidelines_urls: self.community_guidelines_urls.duplicate(),
            metadata: self.metadata.clone(),
            created_at: self.created_at,
            updated_at: self.updated_at,
            last_checked_at: self.last_checked_at,
        }
    }
}

impl JobStatus {
    /// The name of the status in lower case, as it is written out.
    pub open spec fn name(self) -> Seq<char> {
        match self {
            JobStatus::Pending => "pending"@,
            JobStatus::Running => "running"@,
            JobStatus::Completed => "completed"@,
            JobStatus::Failed => "failed"@,
        }
    }

    /// The name of the status in lower case.
    pub fn as_str(self) -> (name: &'static str)
        ensures
            name@ == self.name(),
    {
        match self {
            JobStatus::Pending => "pending",
            JobStatus::Running => "running",
            JobStatus::Completed => "completed",
            JobStatus::Failed => "failed",
        }
    }
}

impl CollectionJob {
    /// The job for a collection pass over `platform` that was asked for at
    /// `now` and has not started yet.
    pub fn pending(platform: &Platform, now: Timestamp) -> (job: CollectionJob)
        ensures
            job.platform_id == platform.id,
            job.platform_name@ == platform.name@,
            job.scheduled_at == now,
            job.started_at is None,
            job.completed_at is None,
            job.status == JobStatus::Pending,
            job.documents_collected == 0,
            job.changes_detected == 0,
            job.errors@.len() == 0,
    {
        CollectionJob {
            platform_id: platform.id,
            platform_name: platform.name.clone(),
            scheduled_at: now,
            started_at: None,
            completed_at: None,
            status: JobStatus::Pending,
            documents_collected: 0,
            changes_detected: 0,
            errors: Vec::new(),
        }
    }
}

impl PolicySnapshot {
    /// The fingerprint of `content`.
    pub fn calculate_checksum(content: &str) -> (text: String)
        ensures
            text@ == checksum_of(content@),
            text@.len() == 64,
    {
        checksum(content)
    }

    /// The number of words of `content`, as a 32-bit number.
    pub fn calculate_word_count(content: &str) -> (count: i32)
        ensures
            count == words(content@).len() as i32,
    {
        let chars = chars_of(content);
        let found = split_whitespace(&chars);
        proof {
            assert(views(found@).len() == found@.len());
        }
        #[verifier::truncate]
        (found.len() as i32)
    }

    /// The number of characters of `content`, as a 32-bit number.
    pub fn calculate_char_count(content: &str) -> (count: i32)
        ensures
            count == content@.len() as i32,
    {
        #[verifier::truncate]
        (content.unicode_len() as i32)
    }
}

} // verus!
