use policy_monitor::history::StoreError;
use policy_monitor::models::DecimalValue;
use policy_monitor::models::JsonColumn;
use policy_monitor::models::JsonItem;
use policy_monitor::models::Platform;
use policy_monitor::detector::change_detected;
use policy_monitor::detector::change_summary;
use policy_monitor::detector::FirstCapture;
use policy_monitor::repository::Repository;

fn urls(list: &[&str]) -> JsonColumn {
    JsonColumn::Array(list.iter().map(|u| JsonItem::String(u.to_string())).collect())
}

fn platform(id: u128, name: &str, active: bool) -> Platform {
    Platform {
        id,
        name: name.to_string(),
        display_name: name.to_uppercase(),
        url: format!("https://{}.example", name),
        api_endpoint: None,
        api_enabled: false,
        scraping_enabled: true,
        monitoring_active: active,
        check_frequency_minutes: 60,
        policy_urls: urls(&[]),
        terms_urls: urls(&[]),
        community_guidelines_urls: urls(&[]),
        metadata: "{}".to_string(),
        created_at: 0,
        updated_at: 0,
        last_checked_at: None,
    }
}

fn repository_with(id: u128) -> Repository {
    let mut repository = Repository::new();
    assert_eq!(repository.register_platform(platform(id, "alpha", true)), Ok(()));
    repository
}

#[test]
fn new_repository_is_empty() {
    let repository = Repository::new();
    assert!(repository.platforms().is_empty());
    assert!(repository.histories().is_empty());
    assert!(repository.get_active_platforms().is_empty());
    assert!(repository.get_platform_by_id(1).is_none());
    assert!(repository.get_latest_snapshot(1).is_none());
    repository.rules_hold();
}

#[test]
fn first_capture_is_a_change() {
    let mut repository = repository_with(7);
    let result = repository
        .record(7, "policy", "https://alpha.example/privacy", None, "First text", "scraper", 100)
        .unwrap();
    assert_eq!(result.platform_id, 7);
    assert_eq!(result.content, "First text");
    assert_eq!(result.checksum, policy_monitor::checksum::checksum("First text"));
    assert!(result.change_detected);
    assert_eq!(result.previous_checksum, None);

    let histories = repository.histories();
    assert_eq!(histories.len(), 1);
    let document = &histories[0].document;
    assert_eq!(document.id, result.document_id);
    assert_eq!(document.platform_id, 7);
    assert_eq!(document.document_type, "policy");
    assert_eq!(document.url, "https://alpha.example/privacy");
    assert_eq!(document.title, None);
    assert_eq!(document.language, "en");
    assert!(document.is_current);
    assert_eq!(document.discovered_at, 100);
    assert_eq!(document.first_seen_at, 100);
    assert_eq!(document.last_seen_at, 100);
    assert_eq!(document.metadata, "{}");

    assert_eq!(histories[0].captures.len(), 1);
    let snapshot = &histories[0].captures[0].snapshot;
    assert_eq!(snapshot.id, result.snapshot_id);
    assert_eq!(snapshot.policy_document_id, document.id);
    assert_eq!(snapshot.captured_at, 100);
    assert_eq!(snapshot.content_text, "First text");
    assert_eq!(snapshot.content_html, None);
    assert_eq!(snapshot.word_count, Some(2));
    assert_eq!(snapshot.char_count, Some(10));
    assert_eq!(snapshot.checksum, result.checksum);
    assert_eq!(snapshot.previous_snapshot_id, None);
    assert_eq!(snapshot.capture_method, "scraper");

    let change = histories[0].captures[0].change.as_ref().unwrap();
    assert_eq!(change.policy_document_id, document.id);
    assert_eq!(change.previous_snapshot_id, None);
    assert_eq!(change.current_snapshot_id, Some(snapshot.id));
    assert_eq!(change.detected_at, 100);
    assert_eq!(change.change_type, "modification");
    assert_eq!(change.severity, "unknown");
    assert_eq!(change.confidence_score, DecimalValue { mantissa: 0, scale: 2 });
    assert_eq!(change.affected_sections, "[]");
    assert_eq!(
        change.change_summary,
        Some(format!("Content changed from checksum none to {}", result.checksum))
    );
    assert_eq!(change.impact_assessment, None);
    assert!(!change.requires_member_notification);
    assert_eq!(change.notification_sent_at, None);
    assert_eq!(change.reviewed_by, None);
    assert_eq!(change.reviewed_at, None);
    assert_eq!(change.review_notes, None);
    assert!(!change.false_positive);
    assert_ne!(change.id, snapshot.id);
    assert_ne!(change.id, document.id);
    assert_ne!(snapshot.id, document.id);
}

#[test]
fn same_content_again_is_a_capture_and_no_change() {
    let mut repository = repository_with(7);
    let url = "https://alpha.example/terms";
    let first = repository.record(7, "terms", url, None, "Same text", "scraper", 100).unwrap();
    let second = repository.record(7, "terms", url, None, "Same text", "scraper", 200).unwrap();
    assert!(first.change_detected);
    assert!(!second.change_detected);
    assert_eq!(second.document_id, first.document_id);
    assert_ne!(second.snapshot_id, first.snapshot_id);
    assert_eq!(second.previous_checksum, Some(first.checksum.clone()));
    assert_eq!(second.checksum, first.checksum);

    let histories = repository.histories();
    assert_eq!(histories.len(), 1);
    assert_eq!(histories[0].captures.len(), 2);
    assert!(histories[0].captures[0].change.is_some());
    assert!(histories[0].captures[1].change.is_none());
    assert_eq!(histories[0].captures[1].snapshot.previous_snapshot_id, Some(first.snapshot_id));
    assert_eq!(histories[0].document.first_seen_at, 100);
    assert_eq!(histories[0].document.last_seen_at, 200);
}

#[test]
fn changed_content_is_a_change() {
    let mut repository = repository_with(7);
    let url = "https://alpha.example/terms";
    let first = repository.record(7, "terms", url, None, "Version one", "api", 100).unwrap();
    let second = repository.record(7, "terms", url, None, "Version two", "api", 200).unwrap();
    assert!(second.change_detected);
    assert_eq!(second.previous_checksum, Some(first.checksum.clone()));
    let capture = &repository.histories()[0].captures[1];
    let change = capture.change.as_ref().unwrap();
    assert_eq!(change.previous_snapshot_id, Some(first.snapshot_id));
    assert_eq!(change.current_snapshot_id, Some(second.snapshot_id));
    assert_eq!(change.policy_document_id, first.document_id);
    assert_eq!(
        change.change_summary,
        Some(format!("Content changed from checksum {} to {}", first.checksum, second.checksum))
    );
    assert_eq!(capture.snapshot.capture_method, "api");
}

#[test]
fn snapshot_chain_links_each_capture_to_the_one_before() {
    let mut repository = repository_with(7);
    let url = "https://alpha.example/rules";
    let texts = ["a", "b", "b", "c", "a"];
    let mut ids = Vec::new();
    for (i, text) in texts.iter().enumerate() {
        let result = repository
            .record(7, "community_guidelines", url, None, text, "scraper", 10 * (i as i64 + 1))
            .unwrap();
        ids.push(result.snapshot_id);
    }
    let captures = &repository.histories()[0].captures;
    assert_eq!(captures.len(), 5);
    assert_eq!(captures[0].snapshot.previous_snapshot_id, None);
    for i in 1..captures.len() {
        assert_eq!(captures[i].snapshot.previous_snapshot_id, Some(ids[i - 1]));
        assert!(captures[i - 1].snapshot.captured_at < captures[i].snapshot.captured_at);
        assert_eq!(
            captures[i].change.is_some(),
            captures[i - 1].snapshot.checksum != captures[i].snapshot.checksum
        );
    }
    let changes: Vec<bool> = captures.iter().map(|c| c.change.is_some()).collect();
    assert_eq!(changes, vec![true, true, false, true, true]);
    let mut sorted = ids.clone();
    sorted.sort();
    sorted.dedup();
    assert_eq!(sorted.len(), 5);
    assert_eq!(repository.get_latest_snapshot(captures[0].snapshot.policy_document_id).unwrap().id, ids[4]);
}

#[test]
fn one_document_for_each_platform_and_url() {
    let mut repository = repository_with(7);
    assert_eq!(repository.register_platform(platform(8, "beta", true)), Ok(()));
    let a = repository.record(7, "policy", "https://x.example/p", None, "one", "scraper", 1).unwrap();
    let b = repository.record(8, "policy", "https://x.example/p", None, "one", "scraper", 2).unwrap();
    let c = repository.record(7, "policy", "https://x.example/q", None, "one", "scraper", 3).unwrap();
    let d = repository.record(7, "terms", "https://x.example/p", None, "two", "scraper", 4).unwrap();
    assert_ne!(a.document_id, b.document_id);
    assert_ne!(a.document_id, c.document_id);
    assert_eq!(a.document_id, d.document_id);
    assert!(b.change_detected);
    assert!(c.change_detected);
    let histories = repository.histories();
    assert_eq!(histories.len(), 3);
    assert_eq!(histories[0].document.document_type, "policy");
    assert_eq!(histories[0].captures.len(), 2);
}

#[test]
fn title_is_kept_unless_a_new_one_comes() {
    let mut repository = repository_with(7);
    let url = "https://alpha.example/p";
    repository.record(7, "policy", url, Some("Privacy".to_string()), "one", "scraper", 1).unwrap();
    assert_eq!(repository.histories()[0].document.title, Some("Privacy".to_string()));
    repository.record(7, "policy", url, None, "two", "scraper", 2).unwrap();
    assert_eq!(repository.histories()[0].document.title, Some("Privacy".to_string()));
    repository.record(7, "policy", url, Some("Privacy notice".to_string()), "three", "scraper", 3).unwrap();
    assert_eq!(repository.histories()[0].document.title, Some("Privacy notice".to_string()));
}

#[test]
fn record_for_unknown_platform_is_refused() {
    let mut repository = repository_with(7);
    let result = repository.record(9, "policy", "https://x.example", None, "text", "scraper", 1);
    assert_eq!(result.unwrap_err(), StoreError::UnknownPlatform);
    assert!(repository.histories().is_empty());
}

#[test]
fn record_that_is_not_younger_is_refused() {
    let mut repository = repository_with(7);
    let url = "https://alpha.example/p";
    repository.record(7, "policy", url, None, "one", "scraper", 50).unwrap();
    let same = repository.record(7, "policy", url, None, "two", "scraper", 50);
    assert_eq!(same.unwrap_err(), StoreError::StaleTimestamp);
    let older = repository.record(7, "policy", url, None, "two", "scraper", 49);
    assert_eq!(older.unwrap_err(), StoreError::StaleTimestamp);
    assert_eq!(repository.histories()[0].captures.len(), 1);
    assert_eq!(repository.histories()[0].document.last_seen_at, 50);
    assert!(repository.record(7, "policy", "https://alpha.example/other", None, "two", "scraper", 49).is_ok());
}

#[test]
fn record_without_identifiers_left_is_refused() {
    let mut repository = Repository::with_settings(u128::MAX - 2, FirstCapture::CountsAsChange);
    assert_eq!(repository.register_platform(platform(7, "alpha", true)), Ok(()));
    let result = repository.record(7, "policy", "https://x.example", None, "text", "scraper", 1);
    assert_eq!(result.unwrap_err(), StoreError::IdentifiersExhausted);
    assert!(repository.histories().is_empty());

    let mut repository = Repository::with_settings(u128::MAX - 3, FirstCapture::CountsAsChange);
    assert_eq!(repository.register_platform(platform(7, "alpha", true)), Ok(()));
    let result = repository.record(7, "policy", "https://x.example", None, "text", "scraper", 1).unwrap();
    assert_eq!(result.document_id, u128::MAX - 3);
    assert_eq!(result.snapshot_id, u128::MAX - 2);
}

#[test]
fn platform_is_registered_once() {
    let mut repository = repository_with(7);
    assert_eq!(
        repository.register_platform(platform(7, "again", true)),
        Err(StoreError::DuplicatePlatform)
    );
    assert_eq!(repository.platforms().len(), 1);
    assert_eq!(repository.get_platform_by_id(7).unwrap().name, "alpha");
}

#[test]
fn inactive_platform_is_never_listed() {
    let mut repository = Repository::new();
    repository.register_platform(platform(1, "alpha", true)).unwrap();
    repository.register_platform(platform(2, "beta", false)).unwrap();
    repository.register_platform(platform(3, "gamma", true)).unwrap();
    let active: Vec<u128> = repository.get_active_platforms().iter().map(|p| p.id).collect();
    assert_eq!(active, vec![1, 3]);
    assert!(repository.get_platform_by_id(2).is_some());
    assert!(repository.get_active_platforms().iter().all(|p| p.monitoring_active));
}

#[test]
fn last_checked_stamps_one_platform() {
    let mut repository = Repository::new();
    repository.register_platform(platform(1, "alpha", true)).unwrap();
    repository.register_platform(platform(2, "beta", true)).unwrap();
    repository.update_platform_last_checked(2, 777);
    assert_eq!(repository.get_platform_by_id(1).unwrap().last_checked_at, None);
    assert_eq!(repository.get_platform_by_id(1).unwrap().updated_at, 0);
    assert_eq!(repository.get_platform_by_id(2).unwrap().last_checked_at, Some(777));
    assert_eq!(repository.get_platform_by_id(2).unwrap().updated_at, 777);
    repository.update_platform_last_checked(5, 888);
    assert_eq!(repository.get_platform_by_id(2).unwrap().last_checked_at, Some(777));
}

#[test]
fn latest_snapshot_goes_by_document() {
    let mut repository = repository_with(7);
    let a = repository.record(7, "policy", "https://x.example/a", None, "a1", "scraper", 1).unwrap();
    let b = repository.record(7, "policy", "https://x.example/b", None, "b1", "scraper", 2).unwrap();
    let a2 = repository.record(7, "policy", "https://x.example/a", None, "a2", "scraper", 3).unwrap();
    assert_eq!(repository.get_latest_snapshot(a.document_id).unwrap().id, a2.snapshot_id);
    assert_eq!(repository.get_latest_snapshot(b.document_id).unwrap().id, b.snapshot_id);
    assert_eq!(repository.get_latest_snapshot(b.document_id).unwrap().content_text, "b1");
    assert!(repository.get_latest_snapshot(a2.snapshot_id).is_none());
}

#[test]
fn change_is_detected_by_checksum() {
    for policy in [FirstCapture::CountsAsChange, FirstCapture::IsNoChange] {
        assert!(change_detected(policy, &Some("abd".to_string()), "abc"));
        assert!(!change_detected(policy, &Some("abc".to_string()), "abc"));
    }
    assert!(change_detected(FirstCapture::CountsAsChange, &None, "abc"));
    assert!(!change_detected(FirstCapture::IsNoChange, &None, "abc"));
}

#[test]
fn first_capture_is_no_change_where_the_policy_says_so() {
    let mut repository = Repository::with_settings(10, FirstCapture::IsNoChange);
    assert_eq!(repository.first_capture(), FirstCapture::IsNoChange);
    assert_eq!(Repository::new().first_capture(), FirstCapture::CountsAsChange);
    repository.register_platform(platform(7, "alpha", true)).unwrap();
    let url = "https://alpha.example/p";
    let first = repository.record(7, "policy", url, None, "one", "scraper", 1).unwrap();
    assert!(!first.change_detected);
    assert_eq!(first.document_id, 10);
    assert_eq!(first.snapshot_id, 11);
    let second = repository.record(7, "policy", url, None, "one", "scraper", 2).unwrap();
    assert!(!second.change_detected);
    let third = repository.record(7, "policy", url, None, "two", "scraper", 3).unwrap();
    assert!(third.change_detected);
    let captures = &repository.histories()[0].captures;
    assert!(captures[0].change.is_none());
    assert!(captures[1].change.is_none());
    let change = captures[2].change.as_ref().unwrap();
    assert_eq!(change.previous_snapshot_id, Some(second.snapshot_id));
    assert_eq!(change.current_snapshot_id, Some(third.snapshot_id));
}

#[test]
fn change_summary_names_both_checksums() {
    assert_eq!(change_summary(&None, "bbb"), "Content changed from checksum none to bbb");
    assert_eq!(
        change_summary(&Some("aaa".to_string()), "bbb"),
        "Content changed from checksum aaa to bbb"
    );
}

#[test]
fn active_platforms_come_by_name() {
    let mut repository = Repository::new();
    repository.register_platform(platform(1, "b", true)).unwrap();
    repository.register_platform(platform(2, "a", true)).unwrap();
    repository.register_platform(platform(3, "c", false)).unwrap();
    repository.register_platform(platform(4, "ab", true)).unwrap();
    repository.register_platform(platform(5, "a", true)).unwrap();
    repository.register_platform(platform(6, "B", true)).unwrap();
    let active: Vec<(u128, String)> =
        repository.get_active_platforms().iter().map(|p| (p.id, p.name.clone())).collect();
    assert_eq!(
        active,
        vec![
            (6, "B".to_string()),
            (2, "a".to_string()),
            (5, "a".to_string()),
            (4, "ab".to_string()),
            (1, "b".to_string()),
        ]
    );
    let all: Vec<u128> = repository.platforms().iter().map(|p| p.id).collect();
    assert_eq!(all, vec![6, 2, 5, 4, 1, 3]);
    let mut names: Vec<String> = repository.platforms().iter().map(|p| p.name.clone()).collect();
    let listed = names.clone();
    names.sort();
    assert_eq!(listed, names);
    assert_eq!(repository.get_platform_by_id(4).unwrap().name, "ab");
}

#[test]
fn last_seen_never_moves_back() {
    let mut repository = repository_with(7);
    let url = "https://alpha.example/p";
    repository.record(7, "policy", url, None, "one", "scraper", 10).unwrap();
    assert!(repository.record(7, "policy", url, None, "two", "scraper", 5).is_err());
    assert_eq!(repository.histories()[0].document.last_seen_at, 10);
    repository.record(7, "policy", url, None, "two", "scraper", 11).unwrap();
    let history = &repository.histories()[0];
    assert_eq!(history.document.first_seen_at, 10);
    assert_eq!(history.document.last_seen_at, 11);
    assert_eq!(history.document.last_seen_at, history.captures[1].snapshot.captured_at);
    assert_eq!(history.document.first_seen_at, history.captures[0].snapshot.captured_at);
    assert_eq!(history.document.document_type, "policy");
    assert!(history.document.is_current);
}
