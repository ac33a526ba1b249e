//! The wiki: its addresses, the pages it answers with and the order in which
//! they are asked for.

use crate::text;
use crate::text_laws;
use crate::wiki_laws;
use vstd::prelude::*;
use vstd::slice::slice_subrange;

verus! {

/// The address that the wiki's paths are relative to.
pub const WIKI_ORIGIN: &'static str = "https://helldivers.wiki.gg";

/// The page that lists the stratagems.
pub const WIKI_PAGE_URL: &'static str = "https://helldivers.wiki.gg/wiki/Stratagems";

/// The same page, asked for through the wiki's API.
pub const WIKI_API_URL: &'static str =
    "https://helldivers.wiki.gg/api.php?action=parse&page=Stratagems&prop=text&format=json";

/// `path` without the `./` that it begins with, however often repeated.
pub open spec fn without_dot_slashes(path: Seq<char>) -> Seq<char>
    decreases path.len(),
{
    if path.len() >= 2 && path[0] == '.' && path[1] == '/' {
        without_dot_slashes(path.skip(2))
    } else {
        path
    }
}

/// The full address of `path` on the wiki.
pub open spec fn wiki_url(path: Seq<char>) -> Seq<char> {
    if text::begins(path, "http://"@) || text::begins(path, "https://"@) {
        path
    } else if text::begins(path, "//"@) {
        "https:"@ + path
    } else if text::begins(path, "/"@) {
        WIKI_ORIGIN@ + path
    } else {
        WIKI_ORIGIN@ + "/"@ + without_dot_slashes(path)
    }
}

/// Removes the `./` that `path` begins with, however often repeated.
fn strip_dot_slashes(path: &str) -> (result: String)
    ensures
        result@ == without_dot_slashes(path@),
{
    let chars = text::chars_of(path);
    let length = chars.len();
    let mut i: usize = 0;
    assert(chars@.skip(0) == path@);
    while length - i >= 2 && chars[i] == '.' && chars[i + 1] == '/'
        invariant
            i <= length,
            length == chars@.len(),
            without_dot_slashes(path@) == without_dot_slashes(chars@.skip(i as int)),
        decreases length - i,
    {
        assert(chars@.skip(i as int).skip(2) == chars@.skip(i + 2));
        i += 2;
    }
    assert(chars@.subrange(i as int, length as int) == chars@.skip(i as int));
    text::string_of(slice_subrange(chars.as_slice(), i, length))
}

/// The full address of an image path that the wiki gives: addresses with a
/// scheme stay, the others are relative to the wiki.
pub fn resolve_wiki_url(path: &str) -> (url: String)
    ensures
        url@ == wiki_url(path@),
{
    if text::starts_with(path, "http://") || text::starts_with(path, "https://") {
        path.to_string()
    } else if text::starts_with(path, "//") {
        "https:".to_string().concat(path)
    } else if text::starts_with(path, "/") {
        WIKI_ORIGIN.to_string().concat(path)
    } else {
        let relative = strip_dot_slashes(path);
        WIKI_ORIGIN.to_string().concat("/").concat(relative.as_str())
    }
}

/// The page is a challenge of the wiki's proxy and not the page asked for.
pub open spec fn is_challenge(html: Seq<char>) -> bool {
    ||| text::occurs(html, "__cf_chl"@)
    ||| text::occurs(html, "Just a moment..."@)
    ||| text::occurs(html, "challenge-platform"@)
    ||| text::occurs(html, "Enable JavaScript and cookies to continue"@)
}

/// The page is one of the wiki, with contents.
pub open spec fn is_wiki_page(html: Seq<char>) -> bool {
    !is_challenge(html) && text::occurs(html, "mw-parser-output"@)
}

/// Tells whether the page is a challenge of the wiki's proxy.
pub fn looks_like_cloudflare_challenge(html: &str) -> (result: bool)
    ensures
        result == is_challenge(html@),
        result <==> wiki_laws::bears_challenge_mark(html@),
{
    proof {
        wiki_laws::lemma_wiki_page(html@);
    }
    text::contains(html, "__cf_chl") || text::contains(html, "Just a moment...")
        || text::contains(html, "challenge-platform") || text::contains(
        html,
        "Enable JavaScript and cookies to continue",
    )
}

/// Tells whether the page is one of the wiki, with contents.
pub fn is_valid_wiki_html(html: &str) -> (result: bool)
    ensures
        result == is_wiki_page(html@),
        result <==> text_laws::holds(html@, "mw-parser-output"@)
            && !wiki_laws::bears_challenge_mark(html@),
{
    proof {
        wiki_laws::lemma_wiki_page(html@);
    }
    !looks_like_cloudflare_challenge(html) && text::contains(html, "mw-parser-output")
}

/// How the request to the wiki's API ended.
#[derive(Debug)]
pub enum ApiOutcome {
    /// The request failed, with this error.
    Failed(String),
    /// The answer was not the expected JSON, with this error.
    Malformed(String),
    /// The answer held this page.
    Html(String),
}

/// What to do after the request to the wiki's API.
#[derive(Debug)]
pub enum ApiStep {
    /// Use this page.
    Use(String),
    /// Ask for the page itself, for the reason given.
    AskForPage(String),
}

/// How the request for the page itself ended.
#[derive(Debug)]
pub enum PageOutcome {
    /// The request failed, with this error.
    Failed(String),
    /// The wiki answered with this status, which is not one of success.
    Refused(String),
    /// The body of the answer could not be read, with this error.
    Unreadable(String),
    /// The answer was this page.
    Html(String),
}

/// The reason for which the answer of the wiki's API is not used, where it is
/// not.
pub open spec fn api_rejection(outcome: ApiOutcome) -> Option<Seq<char>> {
    match outcome {
        ApiOutcome::Failed(error) => Some(error@),
        ApiOutcome::Malformed(error) => Some("Invalid wiki API response: "@ + error@),
        ApiOutcome::Html(html) => if is_wiki_page(html@) {
            None
        } else {
            Some("Wiki API response did not include expected stratagem markup."@)
        },
    }
}

/// The reason for which the page is not used, where it is not.
pub open spec fn page_rejection(outcome: PageOutcome) -> Option<Seq<char>> {
    match outcome {
        PageOutcome::Failed(error) => Some("Failed to fetch wiki page directly: "@ + error@),
        PageOutcome::Refused(status) => Some("Wiki page returned status "@ + status@ + "."@),
        PageOutcome::Unreadable(error) => Some(error@),
        PageOutcome::Html(html) => if is_wiki_page(html@) {
            None
        } else {
            Some("Wiki page response did not include expected stratagem markup."@)
        },
    }
}

/// Decides what follows the request to the wiki's API: a page of the wiki is
/// used; whatever else came, the page itself is asked for.
pub fn after_api_request(outcome: ApiOutcome) -> (step: ApiStep)
    ensures
        match step {
            ApiStep::Use(html) => api_rejection(outcome) is None && outcome == ApiOutcome::Html(
                html,
            ),
            ApiStep::AskForPage(reason) => api_rejection(outcome) == Some(reason@),
        },
{
    match outcome {
        ApiOutcome::Failed(error) => ApiStep::AskForPage(error),
        ApiOutcome::Malformed(error) => ApiStep::AskForPage(
            "Invalid wiki API response: ".to_string().concat(error.as_str()),
        ),
        ApiOutcome::Html(html) => {
            if is_valid_wiki_html(html.as_str()) {
                ApiStep::Use(html)
            } else {
                ApiStep::AskForPage(
                    "Wiki API response did not include expected stratagem markup.".to_string(),
                )
            }
        },
    }
}

/// Decides what follows the request for the page itself: a page of the wiki is
/// used; whatever else came is an error.
pub fn after_page_request(outcome: PageOutcome) -> (result: Result<String, String>)
    ensures
        match result {
            Ok(html) => page_rejection(outcome) is None && outcome == PageOutcome::Html(html),
            Err(reason) => page_rejection(outcome) == Some(reason@),
        },
{
    match outcome {
        PageOutcome::Failed(error) => Err(
            "Failed to fetch wiki page directly: ".to_string().concat(error.as_str()),
        ),
        PageOutcome::Refused(status) => Err(
            "Wiki page returned status ".to_string().concat(status.as_str()).concat("."),
        ),
        PageOutcome::Unreadable(error) => Err(error),
        PageOutcome::Html(html) => {
            if is_valid_wiki_html(html.as_str()) {
                Ok(html)
            } else {
                Err("Wiki page response did not include expected stratagem markup.".to_string())
            }
        },
    }
}

} // verus!
