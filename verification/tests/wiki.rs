use hellcall_stratagems::wiki::{
    ApiOutcome, ApiStep, PageOutcome, WIKI_API_URL, WIKI_ORIGIN, WIKI_PAGE_URL,
};
use hellcall_stratagems::{
    after_api_request, after_page_request, is_valid_wiki_html, looks_like_cloudflare_challenge,
    resolve_wiki_url,
};

const PAGE: &str = "<div class=\"mw-parser-output\"></div>";
const CHALLENGE: &str = "<p>Just a moment...</p><div class=\"mw-parser-output\"></div>";

#[test]
fn addresses() {
    assert_eq!(WIKI_ORIGIN, "https://helldivers.wiki.gg");
    assert_eq!(WIKI_PAGE_URL, "https://helldivers.wiki.gg/wiki/Stratagems");
    assert_eq!(
        WIKI_API_URL,
        "https://helldivers.wiki.gg/api.php?action=parse&page=Stratagems&prop=text&format=json"
    );
    let cases = [
        ("http://a.b/c", "http://a.b/c"),
        ("https://a.b/c", "https://a.b/c"),
        ("//a.b/c", "https://a.b/c"),
        ("/images/a.png", "https://helldivers.wiki.gg/images/a.png"),
        ("images/a.png", "https://helldivers.wiki.gg/images/a.png"),
        ("./images/a.png", "https://helldivers.wiki.gg/images/a.png"),
        ("././a.png", "https://helldivers.wiki.gg/a.png"),
        (".//a.png", "https://helldivers.wiki.gg//a.png"),
        ("../a.png", "https://helldivers.wiki.gg/../a.png"),
        ("HTTP://a", "https://helldivers.wiki.gg/HTTP://a"),
        ("", "https://helldivers.wiki.gg/"),
        (".", "https://helldivers.wiki.gg/."),
    ];
    for (path, url) in cases {
        assert_eq!(resolve_wiki_url(path), url);
        assert_eq!(resolve_wiki_url(url), url);
    }
}

#[test]
fn challenges_are_recognized() {
    assert!(looks_like_cloudflare_challenge("x __cf_chl_opt y"));
    assert!(looks_like_cloudflare_challenge("Just a moment..."));
    assert!(looks_like_cloudflare_challenge("/cdn-cgi/challenge-platform/"));
    assert!(looks_like_cloudflare_challenge("Enable JavaScript and cookies to continue"));
    assert!(!looks_like_cloudflare_challenge("just a moment..."));
    assert!(!looks_like_cloudflare_challenge(""));
}

#[test]
fn pages_of_the_wiki_are_recognized() {
    assert!(is_valid_wiki_html(PAGE));
    assert!(!is_valid_wiki_html(CHALLENGE));
    assert!(!is_valid_wiki_html("<p></p>"));
}

fn reason(step: ApiStep) -> String {
    match step {
        ApiStep::Use(html) => panic!("used {}", html),
        ApiStep::AskForPage(reason) => reason,
    }
}

#[test]
fn after_the_api() {
    match after_api_request(ApiOutcome::Html(PAGE.to_string())) {
        ApiStep::Use(html) => assert_eq!(html, PAGE),
        ApiStep::AskForPage(reason) => panic!("{}", reason),
    }
    let rejected = "Wiki API response did not include expected stratagem markup.";
    assert_eq!(reason(after_api_request(ApiOutcome::Html(CHALLENGE.to_string()))), rejected);
    assert_eq!(reason(after_api_request(ApiOutcome::Html(String::new()))), rejected);
    assert_eq!(reason(after_api_request(ApiOutcome::Failed("no route".to_string()))), "no route");
    assert_eq!(
        reason(after_api_request(ApiOutcome::Malformed("EOF".to_string()))),
        "Invalid wiki API response: EOF"
    );
}

#[test]
fn after_the_page() {
    let after = |outcome: PageOutcome| after_page_request(outcome);
    assert_eq!(after(PageOutcome::Html(PAGE.to_string())), Ok(PAGE.to_string()));
    assert_eq!(
        after(PageOutcome::Html(CHALLENGE.to_string())),
        Err("Wiki page response did not include expected stratagem markup.".to_string())
    );
    assert_eq!(
        after(PageOutcome::Refused("403 Forbidden".to_string())),
        Err("Wiki page returned status 403 Forbidden.".to_string())
    );
    assert_eq!(
        after(PageOutcome::Failed("timeout".to_string())),
        Err("Failed to fetch wiki page directly: timeout".to_string())
    );
    assert_eq!(
        after(PageOutcome::Unreadable("reset".to_string())),
        Err("reset".to_string())
    );
}
