//! Fetching a document: which way to take, and what of a fetched page is
//! kept as the document's text.

use crate::models::opt_text;
use crate::models::texts;
use crate::text::chars_of;
use crate::text::is_blank;
use crate::text::is_blank_text;
use crate::text::same_text;
use scraper::Html;
use scraper::Selector;
use vstd::prelude::*;

verus! {

/// Why a fetch gave no text.
#[derive(Clone, Copy, Debug, PartialEq, Eq, Structural)]
pub enum FetchError {
    /// The request did not come through.
    Transport,
    /// The server answered with a status other than success.
    Status(u16),
    /// The page held no text worth keeping.
    ContentNotExtractable,
}

/// A parsed HTML document of the `scraper` crate. Its tree is not visible to
/// the verifier.
#[verifier::external_type_specification]
#[verifier::external_body]
pub struct ExHtml(Html);

/// The text nodes under the first element of `document` that the CSS
/// selector `selector` matches, in the order in which `scraper` walks them.
/// Among the elements that match, the first is the one that the parser added
/// to the tree first. `None` where the selector does not parse or no element
/// matches.
pub uninterp spec fn first_match_nodes(document: Html, selector: Seq<char>) -> Option<
    Seq<Seq<char>>,
>;

/// What `first_match_nodes` finds for `selector` in the document that
/// `scraper` builds from a page's markup.
pub uninterp spec fn page_nodes(markup: Seq<char>, selector: Seq<char>) -> Option<Seq<Seq<char>>>;

/// `parts` in one text, with `separator` between each two of them.
pub open spec fn joined(parts: Seq<Seq<char>>, separator: char) -> Seq<char>
    decreases parts.len(),
{
    if parts.len() == 0 {
        Seq::empty()
    } else if parts.len() == 1 {
        parts[0]
    } else {
        joined(parts.drop_last(), separator) + seq![separator] + parts.last()
    }
}

/// The text of an element: its text nodes, each on a line of its own.
pub open spec fn lines_of(nodes: Option<Seq<Seq<char>>>) -> Option<Seq<char>> {
    match nodes {
        Some(parts) => Some(joined(parts, '\n')),
        None => None,
    }
}

/// The text of the first element of `document` that `selector` matches.
pub open spec fn first_match_text(document: Html, selector: Seq<char>) -> Option<Seq<char>> {
    lines_of(first_match_nodes(document, selector))
}

/// The text of the first element that `selector` matches in the page with
/// that markup.
pub open spec fn page_text(markup: Seq<char>, selector: Seq<char>) -> Option<Seq<char>> {
    lines_of(page_nodes(markup, selector))
}

/// The texts of a list that may be absent.
pub open spec fn opt_texts(nodes: Option<Vec<String>>) -> Option<Seq<Seq<char>>> {
    match nodes {
        Some(list) => Some(texts(list@)),
        None => None,
    }
}

/// `Selector::parse`, `Html::select` and `ElementRef::text` of the `scraper`
/// crate, one after the other. The contract only gives the result a name: it
/// depends on the document and the selector alone.
#[verifier::external_body]
fn select_first_nodes(document: &Html, selector: &str) -> (nodes: Option<Vec<String>>)
    ensures
        opt_texts(nodes) == first_match_nodes(*document, selector@),
{
    let parsed = Selector::parse(selector).ok()?;
    let element = document.select(&parsed).next()?;
    Some(element.text().map(str::to_owned).collect())
}

/// The texts of `nodes` in one text, each on a line of its own: a line feed
/// stands between each two of them.
pub fn join_lines(nodes: &Vec<String>) -> (text: String)
    ensures
        text@ == joined(texts(nodes@), '\n'),
{
    let mut text = String::new();
    let n = nodes.len();
    let ghost parts = texts(nodes@);
    let mut i: usize = 0;
    proof {
        reveal_strlit("\n");
        assert("\n"@ =~= seq!['\n']);
    }
    while i < n
        invariant
            n == nodes@.len(),
            i <= n,
            parts == texts(nodes@),
            "\n"@ == seq!['\n'],
            text@ == joined(parts.take(i as int), '\n'),
        decreases n - i,
    {
        proof {
            assert(parts.take(i + 1).drop_last() =~= parts.take(i as int));
            assert(parts.take(i + 1).last() == nodes@[i as int]@);
        }
        if i > 0 {
            text.append("\n");
        }
        text.append(nodes[i].as_str());
        i += 1;
    }
    proof {
        assert(parts.take(n as int) =~= parts);
    }
    text
}

/// The text of the first element of `document` that `selector` matches.
fn select_first_text(document: &Html, selector: &str) -> (text: Option<String>)
    ensures
        opt_text(text) == first_match_text(*document, selector@),
{
    match select_first_nodes(document, selector) {
        Some(nodes) => Some(join_lines(&nodes)),
        None => None,
    }
}

/// `Html::parse_document` of the `scraper` crate, which takes any text and
/// does not fail. Nothing is said of the tree that it builds but this: what
/// a selector finds in it depends on the markup and the selector alone.
#[verifier::external_body]
fn parse_page(markup: &str) -> (document: Html)
    ensures
        forall|selector: Seq<char>| #[trigger]
            first_match_nodes(document, selector) == page_nodes(markup@, selector),
{
    Html::parse_document(markup)
}

/// The characters of each text of a list.
pub open spec fn candidate_views(candidates: Seq<Option<String>>) -> Seq<Option<Seq<char>>> {
    candidates.map_values(|c: Option<String>| opt_text(c))
}

/// A container's text is taken only if it has more characters than this.
pub const MIN_CONTENT_LENGTH: usize = 100;

/// The containers that are tried for a page's main text, in this order.
pub open spec fn content_selectors() -> Seq<Seq<char>> {
    seq!["main"@, "article"@, ".content"@, "#content"@, ".main-content"@, "body"@]
}

/// Whether a container's text is taken as the main text: it is there, it is
/// not blank and it is long enough.
pub open spec fn qualifies(text: Option<Seq<char>>) -> bool {
    text matches Some(t) && !is_blank(t) && t.len() > MIN_CONTENT_LENGTH
}

/// The first of `candidates` that qualifies, counted from `from`, or the
/// number of candidates if none does.
pub open spec fn first_qualifying(candidates: Seq<Option<Seq<char>>>, from: int) -> int
    decreases candidates.len() - from,
{
    if from < 0 || from >= candidates.len() {
        candidates.len() as int
    } else if qualifies(candidates[from]) {
        from
    } else {
        first_qualifying(candidates, from + 1)
    }
}

/// The text that is kept of a page: the first container's text that
/// qualifies; failing that the whole body's text, if it is not blank;
/// failing that nothing.
pub open spec fn main_content(
    candidates: Seq<Option<Seq<char>>>,
    body: Option<Seq<char>>,
) -> Option<Seq<char>> {
    let k = first_qualifying(candidates, 0);
    if 0 <= k < candidates.len() {
        candidates[k]
    } else if body matches Some(b) && !is_blank(b) {
        body
    } else {
        None
    }
}

/// The texts of the containers of `document`, in the order of
/// `content_selectors`.
pub open spec fn container_texts(document: Html) -> Seq<Option<Seq<char>>> {
    content_selectors().map_values(|s: Seq<char>| first_match_text(document, s))
}

/// Whether a container's text is taken as the main text.
pub fn is_substantial(text: &Option<String>) -> (taken: bool)
    ensures
        taken == qualifies(opt_text(*text)),
{
    match text {
        Some(t) => {
            let chars = chars_of(t.as_str());
            !is_blank_text(&chars) && chars.len() > MIN_CONTENT_LENGTH
        },
        None => false,
    }
}

/// Picks the text that is kept of a page from the texts of its containers
/// and of its body.
pub fn choose_content(candidates: &Vec<Option<String>>, body: &Option<String>) -> (result: Result<
    String,
    FetchError,
>)
    ensures
        match main_content(candidate_views(candidates@), opt_text(*body)) {
            Some(t) => result matches Ok(s) && s@ == t,
            None => result == Err::<String, FetchError>(FetchError::ContentNotExtractable),
        },
{
    let n = candidates.len();
    let mut i: usize = 0;
    let ghost views = candidate_views(candidates@);
    while i < n
        invariant
            n == candidates@.len(),
            i <= n,
            views == candidate_views(candidates@),
            first_qualifying(views, 0) == first_qualifying(views, i as int),
        decreases n - i,
    {
        proof {
            assert(views[i as int] == opt_text(candidates@[i as int]));
        }
        if is_substantial(&candidates[i]) {
            match &candidates[i] {
                Some(t) => {
                    return Ok(t.clone());
                },
                None => {},
            }
        }
        i += 1;
    }
    match body {
        Some(b) => {
            let chars = chars_of(b.as_str());
            if !is_blank_text(&chars) {
                return Ok(b.clone());
            }
        },
        None => {},
    }
    Err(FetchError::ContentNotExtractable)
}

/// The main text of a parsed page.
pub fn extract_main_content(document: &Html) -> (result: Result<String, FetchError>)
    ensures
        match main_content(container_texts(*document), first_match_text(*document, "body"@)) {
            Some(t) => result matches Ok(s) && s@ == t,
            None => result == Err::<String, FetchError>(FetchError::ContentNotExtractable),
        },
{
    let mut candidates: Vec<Option<String>> = Vec::new();
    candidates.push(select_first_text(document, "main"));
    candidates.push(select_first_text(document, "article"));
    candidates.push(select_first_text(document, ".content"));
    candidates.push(select_first_text(document, "#content"));
    candidates.push(select_first_text(document, ".main-content"));
    candidates.push(select_first_text(document, "body"));
    let body = select_first_text(document, "body");
    proof {
        assert(candidate_views(candidates@) =~= container_texts(*document));
    }
    choose_content(&candidates, &body)
}

/// The texts of the containers of the page with that markup, in the order
/// of `content_selectors`.
pub open spec fn page_container_texts(markup: Seq<char>) -> Seq<Option<Seq<char>>> {
    content_selectors().map_values(|s: Seq<char>| page_text(markup, s))
}

/// What is kept of an answer to a request for a page.
pub open spec fn page_content(status: u16, markup: Seq<char>) -> Result<Seq<char>, FetchError> {
    if !(200 <= status < 300) {
        Err(FetchError::Status(status))
    } else {
        match main_content(page_container_texts(markup), page_text(markup, "body"@)) {
            Some(t) => Ok(t),
            None => Err(FetchError::ContentNotExtractable),
        }
    }
}

/// The text of a page from the answer to the request for it. A status other
/// than success is an error, whatever the body holds.
pub fn scraped_content(status: u16, markup: &str) -> (result: Result<String, FetchError>)
    ensures
        match page_content(status, markup@) {
            Ok(t) => result matches Ok(s) && s@ == t,
            Err(e) => result == Err::<String, FetchError>(e),
        },
{
    if status < 200 || status >= 300 {
        return Err(FetchError::Status(status));
    }
    let document = parse_page(markup);
    proof {
        assert(container_texts(document) =~= page_container_texts(markup@));
    }
    extract_main_content(&document)
}

/// The fetch routines that speak a platform's structured API.
#[derive(Clone, Copy, Debug, PartialEq, Eq, Structural)]
pub enum ApiRoutine {
    Twitter,
    Meta,
    LinkedIn,
    YouTube,
    Bluesky,
}

/// How a document is fetched.
#[derive(Clone, Copy, Debug, PartialEq, Eq, Structural)]
pub enum FetchStrategy {
    /// Through the platform's structured API.
    Api(ApiRoutine),
    /// By reading the published page.
    Scraper,
}

/// Why a platform with its API switched on is scraped all the same.
#[derive(Clone, Copy, Debug, PartialEq, Eq, Structural)]
pub enum Fallback {
    /// No routine is known for the platform.
    NoRoutine,
    /// The platform's routine is not implemented.
    NotImplemented(ApiRoutine),
}

/// The way to fetch a platform's documents, and the fallback that led to it,
/// if there was one, so that it can be logged.
#[derive(Clone, Copy, Debug, PartialEq, Eq, Structural)]
pub struct FetchPlan {
    pub strategy: FetchStrategy,
    pub fallback: Option<Fallback>,
}

/// The routine for the platform of that name.
pub open spec fn routine_for(name: Seq<char>) -> Option<ApiRoutine> {
    if name == "twitter"@ {
        Some(ApiRoutine::Twitter)
    } else if name == "facebook"@ || name == "instagram"@ {
        Some(ApiRoutine::Meta)
    } else if name == "linkedin"@ {
        Some(ApiRoutine::LinkedIn)
    } else if name == "youtube"@ {
        Some(ApiRoutine::YouTube)
    } else if name == "bluesky"@ {
        Some(ApiRoutine::Bluesky)
    } else {
        None
    }
}

/// Whether a routine is implemented. None is yet.
pub open spec fn implemented(routine: ApiRoutine) -> bool {
    false
}

/// The plan for a platform: its API where that is switched on and the
/// platform's routine is implemented, the scraper otherwise.
pub open spec fn plan_for(api_enabled: bool, name: Seq<char>) -> FetchPlan {
    if !api_enabled {
        FetchPlan { strategy: FetchStrategy::Scraper, fallback: None }
    } else {
        match routine_for(name) {
            None => FetchPlan {
                strategy: FetchStrategy::Scraper,
                fallback: Some(Fallback::NoRoutine),
            },
            Some(routine) => if implemented(routine) {
                FetchPlan { strategy: FetchStrategy::Api(routine), fallback: None }
            } else {
                FetchPlan {
                    strategy: FetchStrategy::Scraper,
                    fallback: Some(Fallback::NotImplemented(routine)),
                }
            },
        }
    }
}

/// The routine for the platform of that name.
pub fn api_routine(name: &str) -> (routine: Option<ApiRoutine>)
    ensures
        routine == routine_for(name@),
{
    if same_text(name, "twitter") {
        Some(ApiRoutine::Twitter)
    } else if same_text(name, "facebook") || same_text(name, "instagram") {
        Some(ApiRoutine::Meta)
    } else if same_text(name, "linkedin") {
        Some(ApiRoutine::LinkedIn)
    } else if same_text(name, "youtube") {
        Some(ApiRoutine::YouTube)
    } else if same_text(name, "bluesky") {
        Some(ApiRoutine::Bluesky)
    } else {
        None
    }
}

/// Whether a routine is implemented.
pub fn is_implemented(routine: ApiRoutine) -> (yes: bool)
    ensures
        yes == implemented(routine),
{
    match routine {
        ApiRoutine::Twitter => false,
        ApiRoutine::Meta => false,
        ApiRoutine::LinkedIn => false,
        ApiRoutine::YouTube => false,
        ApiRoutine::Bluesky => false,
    }
}

/// Plans the fetches for a platform.
pub fn plan_fetch(api_enabled: bool, platform_name: &str) -> (plan: FetchPlan)
    ensures
        plan == plan_for(api_enabled, platform_name@),
{
    if !api_enabled {
        return FetchPlan { strategy: FetchStrategy::Scraper, fallback: None };
    }
    match api_routine(platform_name) {
        None => FetchPlan { strategy: FetchStrategy::Scraper, fallback: Some(Fallback::NoRoutine) },
        Some(routine) => {
            if is_implemented(routine) {
                FetchPlan { strategy: FetchStrategy::Api(routine), fallback: None }
            } else {
                FetchPlan {
                    strategy: FetchStrategy::Scraper,
                    fallback: Some(Fallback::NotImplemented(routine)),
                }
            }
        },
    }
}

/// As long as no routine is implemented every platform is scraped, and the
/// plan names a fallback exactly for the platforms whose API is switched
/// on.
pub proof fn every_plan_scrapes(api_enabled: bool, name: Seq<char>)
    ensures
        plan_for(api_enabled, name).strategy == FetchStrategy::Scraper,
        plan_for(api_enabled, name).fallback is Some <==> api_enabled,
{
}

} // verus!
