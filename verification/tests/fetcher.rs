use policy_monitor::fetcher::FetchError;
use policy_monitor::fetcher::api_routine;
use policy_monitor::fetcher::choose_content;
use policy_monitor::fetcher::extract_main_content;
use policy_monitor::fetcher::is_implemented;
use policy_monitor::fetcher::is_substantial;
use policy_monitor::fetcher::join_lines;
use policy_monitor::fetcher::plan_fetch;
use policy_monitor::fetcher::scraped_content;
use policy_monitor::fetcher::ApiRoutine;
use policy_monitor::fetcher::Fallback;
use policy_monitor::fetcher::FetchPlan;
use policy_monitor::fetcher::FetchStrategy;
use policy_monitor::fetcher::MIN_CONTENT_LENGTH;
use scraper::Html;

fn long(word: &str) -> String {
    let mut text = String::new();
    while text.chars().count() <= 100 {
        text.push_str(word);
        text.push(' ');
    }
    text
}

#[test]
fn main_container_is_taken_when_long_enough() {
    let main = long("policy");
    let page = format!(
        "<html><body><nav>menu</nav><main>{}</main><article>{}</article></body></html>",
        main,
        long("article")
    );
    let document = Html::parse_document(&page);
    assert_eq!(extract_main_content(&document), Ok(main));
}

#[test]
fn short_container_is_passed_over() {
    let article = long("article");
    let page = format!(
        "<html><body><main>too short</main><article>{}</article></body></html>",
        article
    );
    let document = Html::parse_document(&page);
    assert_eq!(extract_main_content(&document), Ok(article));
}

#[test]
fn containers_are_found_by_class_and_id() {
    let text = long("content");
    let by_class = format!("<html><body><div class=\"content\">{}</div></body></html>", text);
    assert_eq!(extract_main_content(&Html::parse_document(&by_class)), Ok(text.clone()));
    let by_id = format!("<html><body><p>x</p><div id=\"content\">{}</div></body></html>", text);
    assert_eq!(extract_main_content(&Html::parse_document(&by_id)), Ok(text.clone()));
    let by_main_class =
        format!("<html><body><p>x</p><div class=\"main-content\">{}</div></body></html>", text);
    assert_eq!(extract_main_content(&Html::parse_document(&by_main_class)), Ok(text));
}

#[test]
fn text_nodes_are_joined_by_line_feeds() {
    let a = long("first");
    let b = long("second");
    let page = format!("<html><body><main><p>{}</p><p>{}</p></main></body></html>", a, b);
    let document = Html::parse_document(&page);
    assert_eq!(extract_main_content(&document), Ok(format!("{}\n{}", a, b)));
}

#[test]
fn body_is_the_fallback() {
    let document = Html::parse_document("<html><body><p>short page</p></body></html>");
    assert_eq!(extract_main_content(&document), Ok("short page".to_string()));
    assert_eq!(scraped_content(200, "<p>short page</p>"), Ok("short page".to_string()));
}

#[test]
fn page_without_text_is_an_error() {
    for page in ["", "<html><body></body></html>", "<html><body>  \n </body></html>"] {
        let document = Html::parse_document(page);
        assert_eq!(extract_main_content(&document), Err(FetchError::ContentNotExtractable));
        assert_eq!(scraped_content(200, page), Err(FetchError::ContentNotExtractable));
    }
}

#[test]
fn status_other_than_success_is_an_error() {
    let page = "<html><body><p>text</p></body></html>";
    assert_eq!(scraped_content(404, page), Err(FetchError::Status(404)));
    assert_eq!(scraped_content(500, page), Err(FetchError::Status(500)));
    assert_eq!(scraped_content(199, page), Err(FetchError::Status(199)));
    assert_eq!(scraped_content(300, page), Err(FetchError::Status(300)));
    assert_eq!(scraped_content(200, page), Ok("text".to_string()));
    assert_eq!(scraped_content(299, page), Ok("text".to_string()));
}

#[test]
fn threshold_counts_characters() {
    assert_eq!(MIN_CONTENT_LENGTH, 100);
    let exactly = "x".repeat(100);
    let above = "x".repeat(101);
    assert!(!is_substantial(&Some(exactly)));
    assert!(is_substantial(&Some(above)));
    assert!(!is_substantial(&Some("é".repeat(100))));
    assert!(is_substantial(&Some("é".repeat(101))));
    assert!(!is_substantial(&Some(" ".repeat(200))));
    assert!(!is_substantial(&None));
}

#[test]
fn choose_content_takes_the_first_that_qualifies() {
    let a = "a".repeat(150);
    let b = "b".repeat(150);
    let candidates = vec![None, Some("short".to_string()), Some(a.clone()), Some(b)];
    assert_eq!(choose_content(&candidates, &Some("body".to_string())), Ok(a));
    let none = vec![None, Some("short".to_string())];
    assert_eq!(choose_content(&none, &Some("body".to_string())), Ok("body".to_string()));
    assert_eq!(choose_content(&none, &Some("  ".to_string())), Err(FetchError::ContentNotExtractable));
    assert_eq!(choose_content(&none, &None), Err(FetchError::ContentNotExtractable));
    assert_eq!(choose_content(&Vec::new(), &None), Err(FetchError::ContentNotExtractable));
}

#[test]
fn routines_go_by_platform_name() {
    assert_eq!(api_routine("twitter"), Some(ApiRoutine::Twitter));
    assert_eq!(api_routine("facebook"), Some(ApiRoutine::Meta));
    assert_eq!(api_routine("instagram"), Some(ApiRoutine::Meta));
    assert_eq!(api_routine("linkedin"), Some(ApiRoutine::LinkedIn));
    assert_eq!(api_routine("youtube"), Some(ApiRoutine::YouTube));
    assert_eq!(api_routine("bluesky"), Some(ApiRoutine::Bluesky));
    assert_eq!(api_routine("Twitter"), None);
    assert_eq!(api_routine("mastodon"), None);
    assert_eq!(api_routine(""), None);
    for routine in [
        ApiRoutine::Twitter,
        ApiRoutine::Meta,
        ApiRoutine::LinkedIn,
        ApiRoutine::YouTube,
        ApiRoutine::Bluesky,
    ] {
        assert!(!is_implemented(routine));
    }
}

#[test]
fn every_plan_falls_back_to_the_scraper() {
    assert_eq!(
        plan_fetch(false, "twitter"),
        FetchPlan { strategy: FetchStrategy::Scraper, fallback: None }
    );
    assert_eq!(
        plan_fetch(true, "twitter"),
        FetchPlan {
            strategy: FetchStrategy::Scraper,
            fallback: Some(Fallback::NotImplemented(ApiRoutine::Twitter)),
        }
    );
    assert_eq!(
        plan_fetch(true, "instagram"),
        FetchPlan {
            strategy: FetchStrategy::Scraper,
            fallback: Some(Fallback::NotImplemented(ApiRoutine::Meta)),
        }
    );
    assert_eq!(
        plan_fetch(true, "mastodon"),
        FetchPlan { strategy: FetchStrategy::Scraper, fallback: Some(Fallback::NoRoutine) }
    );
}

#[test]
fn join_lines_puts_a_line_feed_between_the_texts() {
    assert_eq!(join_lines(&Vec::new()), "");
    assert_eq!(join_lines(&vec!["one".to_string()]), "one");
    assert_eq!(join_lines(&vec!["one".to_string(), "two".to_string()]), "one\ntwo");
    assert_eq!(
        join_lines(&vec!["".to_string(), "a".to_string(), "".to_string()]),
        "\na\n"
    );
    let nodes = vec!["a".to_string(), "b\n".to_string(), "c".to_string()];
    assert_eq!(join_lines(&nodes), nodes.join("\n"));
}
