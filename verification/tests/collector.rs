use policy_monitor::detector::capture_method;
use policy_monitor::collector::collect_document;
use policy_monitor::collector::collect_platform_policies;
use policy_monitor::collector::document_targets;
use policy_monitor::collector::extract_urls;
use policy_monitor::collector::CollectError;
use policy_monitor::collector::DocumentType;
use policy_monitor::fetcher::FetchError;
use policy_monitor::collector::Fetched;
use policy_monitor::history::StoreError;
use policy_monitor::models::JsonColumn;
use policy_monitor::models::JsonItem;
use policy_monitor::models::Platform;
use policy_monitor::repository::Repository;

fn urls(list: &[&str]) -> JsonColumn {
    JsonColumn::Array(list.iter().map(|u| JsonItem::String(u.to_string())).collect())
}

fn platform(id: u128, policy: JsonColumn, terms: JsonColumn, community: JsonColumn) -> Platform {
    Platform {
        id,
        name: "alpha".to_string(),
        display_name: "Alpha".to_string(),
        url: "https://alpha.example".to_string(),
        api_endpoint: None,
        api_enabled: false,
        scraping_enabled: true,
        monitoring_active: true,
        check_frequency_minutes: 60,
        policy_urls: policy,
        terms_urls: terms,
        community_guidelines_urls: community,
        metadata: "{}".to_string(),
        created_at: 0,
        updated_at: 0,
        last_checked_at: None,
    }
}

fn ok(text: &str, at: i64) -> Fetched {
    Fetched { outcome: Ok(text.to_string()), at }
}

fn failed(e: FetchError, at: i64) -> Fetched {
    Fetched { outcome: Err(e), at }
}

#[test]
fn extract_urls_takes_the_strings_of_an_array() {
    assert_eq!(extract_urls(&urls(&["a", "b"])), vec!["a".to_string(), "b".to_string()]);
    assert_eq!(extract_urls(&urls(&[])), Vec::<String>::new());
    assert_eq!(extract_urls(&JsonColumn::Other), Vec::<String>::new());
    let mixed = JsonColumn::Array(vec![
        JsonItem::Other,
        JsonItem::String("a".to_string()),
        JsonItem::Other,
        JsonItem::String("b".to_string()),
        JsonItem::String("a".to_string()),
    ]);
    assert_eq!(extract_urls(&mixed), vec!["a".to_string(), "b".to_string(), "a".to_string()]);
}

#[test]
fn targets_come_by_category_and_in_order() {
    let p = platform(1, urls(&["privacy", "cookies"]), urls(&["terms"]), urls(&["rules", "conduct"]));
    let targets: Vec<(String, DocumentType)> =
        document_targets(&p).into_iter().map(|t| (t.url, t.document_type)).collect();
    assert_eq!(
        targets,
        vec![
            ("privacy".to_string(), DocumentType::Policy),
            ("cookies".to_string(), DocumentType::Policy),
            ("terms".to_string(), DocumentType::Terms),
            ("rules".to_string(), DocumentType::CommunityGuidelines),
            ("conduct".to_string(), DocumentType::CommunityGuidelines),
        ]
    );
    let none = platform(1, urls(&[]), JsonColumn::Other, urls(&[]));
    assert!(document_targets(&none).is_empty());
}

#[test]
fn document_type_tags() {
    assert_eq!(DocumentType::Policy.as_str(), "policy");
    assert_eq!(DocumentType::Terms.as_str(), "terms");
    assert_eq!(DocumentType::CommunityGuidelines.as_str(), "community_guidelines");
}

#[test]
fn capture_method_goes_by_the_api_switch() {
    assert_eq!(capture_method(true), "api");
    assert_eq!(capture_method(false), "scraper");
}

#[test]
fn failed_fetch_of_one_document_does_not_stop_the_pass() {
    let p = platform(1, urls(&["A", "B"]), urls(&[]), urls(&["C"]));
    let mut repository = Repository::new();
    repository.register_platform(p.duplicate()).unwrap();
    let fetched = vec![failed(FetchError::Transport, 10), ok("text of B", 11), ok("text of C", 12)];
    let results = collect_platform_policies(&mut repository, &p, &fetched, 20).unwrap();
    assert_eq!(results.len(), 2);
    assert_eq!(results[0].content, "text of B");
    assert_eq!(results[1].content, "text of C");
    assert!(results[0].change_detected);
    assert!(results[1].change_detected);
    let histories = repository.histories();
    assert_eq!(histories.len(), 2);
    assert_eq!(histories[0].document.url, "B");
    assert_eq!(histories[0].document.document_type, "policy");
    assert_eq!(histories[0].document.id, results[0].document_id);
    assert_eq!(histories[1].document.url, "C");
    assert_eq!(histories[1].document.document_type, "community_guidelines");
    assert!(histories.iter().all(|h| h.document.url != "A"));
    assert_eq!(repository.get_platform_by_id(1).unwrap().last_checked_at, Some(20));
}

#[test]
fn platform_is_stamped_even_if_every_fetch_fails() {
    let p = platform(1, urls(&["A"]), urls(&["B"]), urls(&[]));
    let mut repository = Repository::new();
    repository.register_platform(p.duplicate()).unwrap();
    let fetched = vec![failed(FetchError::Status(503), 10), failed(FetchError::ContentNotExtractable, 11)];
    let results = collect_platform_policies(&mut repository, &p, &fetched, 20).unwrap();
    assert!(results.is_empty());
    assert!(repository.histories().is_empty());
    assert_eq!(repository.get_platform_by_id(1).unwrap().last_checked_at, Some(20));
    assert_eq!(repository.get_platform_by_id(1).unwrap().updated_at, 20);
}

#[test]
fn platform_without_documents_is_stamped() {
    let p = platform(1, urls(&[]), urls(&[]), JsonColumn::Other);
    let mut repository = Repository::new();
    repository.register_platform(p.duplicate()).unwrap();
    let results = collect_platform_policies(&mut repository, &p, &Vec::new(), 5).unwrap();
    assert!(results.is_empty());
    assert_eq!(repository.get_platform_by_id(1).unwrap().last_checked_at, Some(5));
}

#[test]
fn second_pass_with_the_same_content_finds_no_change() {
    let p = platform(1, urls(&["A"]), urls(&[]), urls(&[]));
    let mut repository = Repository::new();
    repository.register_platform(p.duplicate()).unwrap();
    let first = collect_platform_policies(&mut repository, &p, &vec![ok("same", 10)], 11).unwrap();
    let second = collect_platform_policies(&mut repository, &p, &vec![ok("same", 20)], 21).unwrap();
    assert!(first[0].change_detected);
    assert!(!second[0].change_detected);
    assert_eq!(second[0].document_id, first[0].document_id);
    assert_eq!(second[0].previous_checksum, Some(first[0].checksum.clone()));
    let captures = &repository.histories()[0].captures;
    assert_eq!(captures.len(), 2);
    assert!(captures[1].change.is_none());
    assert_eq!(repository.get_platform_by_id(1).unwrap().last_checked_at, Some(21));
}

#[test]
fn pass_needs_one_outcome_for_each_document() {
    let p = platform(1, urls(&["A", "B"]), urls(&[]), urls(&[]));
    let mut repository = Repository::new();
    repository.register_platform(p.duplicate()).unwrap();
    let result = collect_platform_policies(&mut repository, &p, &vec![ok("a", 1)], 2);
    assert_eq!(result.unwrap_err(), CollectError::OutcomesMismatch);
    assert!(repository.histories().is_empty());
    assert_eq!(repository.get_platform_by_id(1).unwrap().last_checked_at, None);
}

#[test]
fn document_that_the_archive_refuses_is_passed_over() {
    let p = platform(1, urls(&["A", "A", "B"]), urls(&[]), urls(&[]));
    let mut repository = Repository::new();
    repository.register_platform(p.duplicate()).unwrap();
    let fetched = vec![ok("a", 10), ok("a again", 10), ok("b", 10)];
    let results = collect_platform_policies(&mut repository, &p, &fetched, 11).unwrap();
    assert_eq!(results.len(), 2);
    assert_eq!(results[0].content, "a");
    assert_eq!(results[1].content, "b");
}

#[test]
fn collect_document_reports_why_it_failed() {
    let p = platform(1, urls(&[]), urls(&[]), urls(&[]));
    let mut repository = Repository::new();
    let unknown = collect_document(&mut repository, &p, "u", "policy", &ok("text", 1));
    assert_eq!(unknown.unwrap_err(), CollectError::Store(StoreError::UnknownPlatform));
    repository.register_platform(p.duplicate()).unwrap();
    let fetch = collect_document(&mut repository, &p, "u", "policy", &failed(FetchError::Status(404), 1));
    assert_eq!(fetch.unwrap_err(), CollectError::Fetch(FetchError::Status(404)));
    assert!(repository.histories().is_empty());
    let good = collect_document(&mut repository, &p, "u", "policy", &ok("text", 1)).unwrap();
    assert_eq!(good.platform_id, 1);
    assert_eq!(repository.histories()[0].captures[0].snapshot.capture_method, "scraper");
    let stale = collect_document(&mut repository, &p, "u", "policy", &ok("text", 1));
    assert_eq!(stale.unwrap_err(), CollectError::Store(StoreError::StaleTimestamp));
}

#[test]
fn capture_method_of_an_api_platform() {
    let mut p = platform(1, urls(&["A"]), urls(&[]), urls(&[]));
    p.api_enabled = true;
    let mut repository = Repository::new();
    repository.register_platform(p.duplicate()).unwrap();
    collect_platform_policies(&mut repository, &p, &vec![ok("text", 1)], 2).unwrap();
    assert_eq!(repository.histories()[0].captures[0].snapshot.capture_method, "api");
}

#[test]
fn duplicate_keeps_the_platform() {
    let mut p = platform(
        9,
        JsonColumn::Array(vec![JsonItem::String("a".to_string()), JsonItem::Other]),
        JsonColumn::Other,
        urls(&["c"]),
    );
    p.api_endpoint = Some("https://api.alpha.example".to_string());
    p.last_checked_at = Some(5);
    let copy = p.duplicate();
    assert_eq!(copy.id, 9);
    assert_eq!(copy.name, p.name);
    assert_eq!(copy.display_name, p.display_name);
    assert_eq!(copy.url, p.url);
    assert_eq!(copy.api_endpoint, p.api_endpoint);
    assert_eq!(copy.monitoring_active, p.monitoring_active);
    assert_eq!(copy.policy_urls, p.policy_urls);
    assert_eq!(copy.terms_urls, p.terms_urls);
    assert_eq!(copy.community_guidelines_urls, p.community_guidelines_urls);
    assert_eq!(copy.metadata, p.metadata);
    assert_eq!(copy.last_checked_at, Some(5));
    assert_eq!(extract_urls(&copy.policy_urls), vec!["a".to_string()]);
}
