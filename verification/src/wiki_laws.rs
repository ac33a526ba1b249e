//! Which answers of the wiki are used, and where its images stand.

use crate::text;
use crate::text_laws;
use crate::wiki;
use crate::wiki::{ApiOutcome, PageOutcome, WIKI_API_URL, WIKI_ORIGIN, WIKI_PAGE_URL};
use vstd::prelude::*;

verus! {

/// Where the wiki, its page of stratagems and the answer of its API stand.
pub proof fn law_addresses()
    ensures
        WIKI_ORIGIN@ == "https://helldivers.wiki.gg"@,
        WIKI_PAGE_URL@ == "https://helldivers.wiki.gg/wiki/Stratagems"@,
        WIKI_API_URL@
            == "https://helldivers.wiki.gg/api.php?action=parse&page=Stratagems&prop=text&format=json"@,
{
}

/// The page holds one of the marks of a challenge.
pub open spec fn bears_challenge_mark(html: Seq<char>) -> bool {
    ||| text_laws::holds(html, "__cf_chl"@)
    ||| text_laws::holds(html, "Just a moment..."@)
    ||| text_laws::holds(html, "challenge-platform"@)
    ||| text_laws::holds(html, "Enable JavaScript and cookies to continue"@)
}

/// Which pages are challenges, and which are those of the wiki.
pub proof fn lemma_wiki_page(html: Seq<char>)
    ensures
        wiki::is_challenge(html) <==> bears_challenge_mark(html),
        wiki::is_wiki_page(html) <==> text_laws::holds(html, "mw-parser-output"@)
            && !bears_challenge_mark(html),
{
    text_laws::law_occurrence(html, "__cf_chl"@);
    text_laws::law_occurrence(html, "Just a moment..."@);
    text_laws::law_occurrence(html, "challenge-platform"@);
    text_laws::law_occurrence(html, "Enable JavaScript and cookies to continue"@);
    text_laws::law_occurrence(html, "mw-parser-output"@);
}

/// Every page that holds the mark of contents and none of a challenge is used,
/// whichever request it answers, and no other page is.
pub proof fn law_usable_pages(html: String)
    ensures
        wiki::is_challenge(html@) <==> bears_challenge_mark(html@),
        wiki::is_wiki_page(html@) <==> text_laws::holds(html@, "mw-parser-output"@)
            && !bears_challenge_mark(html@),
        wiki::api_rejection(ApiOutcome::Html(html)) is None <==> text_laws::holds(
            html@,
            "mw-parser-output"@,
        ) && !bears_challenge_mark(html@),
        wiki::page_rejection(PageOutcome::Html(html)) is None <==> text_laws::holds(
            html@,
            "mw-parser-output"@,
        ) && !bears_challenge_mark(html@),
        wiki::api_rejection(ApiOutcome::Html(html)) is Some ==> wiki::api_rejection(
            ApiOutcome::Html(html),
        )->0 == "Wiki API response did not include expected stratagem markup."@,
        wiki::page_rejection(PageOutcome::Html(html)) is Some ==> wiki::page_rejection(
            PageOutcome::Html(html),
        )->0 == "Wiki page response did not include expected stratagem markup."@,
{
    lemma_wiki_page(html@);
}

/// A request that gave no page is never used, and the reason names its error.
pub proof fn law_failed_requests(error: String)
    ensures
        wiki::api_rejection(ApiOutcome::Failed(error)) == Some(error@),
        wiki::api_rejection(ApiOutcome::Malformed(error)) == Some(
            "Invalid wiki API response: "@ + error@,
        ),
        wiki::page_rejection(PageOutcome::Unreadable(error)) == Some(error@),
        wiki::page_rejection(PageOutcome::Failed(error)) == Some(
            "Failed to fetch wiki page directly: "@ + error@,
        ),
        wiki::page_rejection(PageOutcome::Refused(error)) == Some(
            "Wiki page returned status "@ + error@ + "."@,
        ),
{
}

/// Addresses with a scheme stay as they are.
pub proof fn law_full_addresses_stay(rest: Seq<char>)
    ensures
        wiki::wiki_url("http://"@ + rest) == "http://"@ + rest,
        wiki::wiki_url("https://"@ + rest) == "https://"@ + rest,
{
    text_laws::law_occurrence("http://"@ + rest, "http://"@);
    text_laws::law_occurrence("https://"@ + rest, "https://"@);
    assert("http://"@.is_prefix_of("http://"@ + rest));
    assert("https://"@.is_prefix_of("https://"@ + rest));
}

/// An address without a scheme gets one; a path from the root gets the wiki in
/// front of it.
pub proof fn law_rooted_addresses(rest: Seq<char>)
    ensures
        wiki::wiki_url("//"@ + rest) == "https://"@ + rest,
        rest.len() == 0 || rest[0] != '/' ==> wiki::wiki_url("/"@ + rest)
            == "https://helldivers.wiki.gg/"@ + rest,
{
    reveal_strlit("/");
    reveal_strlit("//");
    reveal_strlit("http://");
    reveal_strlit("https:");
    reveal_strlit("https://");
    reveal_strlit("https://helldivers.wiki.gg");
    reveal_strlit("https://helldivers.wiki.gg/");
    let double = "//"@ + rest;
    lemma_does_not_begin(double, "http://"@, 0);
    lemma_does_not_begin(double, "https://"@, 0);
    assert(double.subrange(0, 2) == "//"@);
    assert("https:"@ + double == "https://"@ + rest);
    if rest.len() == 0 || rest[0] != '/' {
        let single = "/"@ + rest;
        lemma_does_not_begin(single, "http://"@, 0);
        lemma_does_not_begin(single, "https://"@, 0);
        lemma_does_not_begin(single, "//"@, 1);
        assert(single.subrange(0, 1) == "/"@);
        assert("https://helldivers.wiki.gg"@ + single == "https://helldivers.wiki.gg/"@ + rest);
    }
}

/// A path that differs from `prefix` at a place, or ends before it, does not
/// begin with it.
proof fn lemma_does_not_begin(path: Seq<char>, prefix: Seq<char>, at: int)
    requires
        0 <= at < prefix.len(),
        at >= path.len() || path[at] != prefix[at],
    ensures
        !text::begins(path, prefix),
{
    if text::begins(path, prefix) {
        assert(path.subrange(0, prefix.len() as int)[at] == path[at]);
    }
}

/// A relative path gets the wiki and a slash in front of it; the `./` that it
/// begins with are dropped, however many there are, and nothing else of it.
pub proof fn law_relative_addresses(path: Seq<char>)
    requires
        path.len() < 2 || path[0] != '.' || path[1] != '/',
    ensures
        (path.len() == 0 || path[0] != '/') && !"http://"@.is_prefix_of(path)
            && !"https://"@.is_prefix_of(path) ==> wiki::wiki_url(path)
            == "https://helldivers.wiki.gg/"@ + path,
        wiki::wiki_url("./"@ + path) == "https://helldivers.wiki.gg/"@ + path,
{
    reveal_strlit("/");
    reveal_strlit("./");
    reveal_strlit("//");
    reveal_strlit("http://");
    reveal_strlit("https://");
    reveal_strlit("https://helldivers.wiki.gg");
    reveal_strlit("https://helldivers.wiki.gg/");
    assert("https://helldivers.wiki.gg"@ + "/"@ + path == "https://helldivers.wiki.gg/"@ + path);
    text_laws::law_occurrence(path, "http://"@);
    text_laws::law_occurrence(path, "https://"@);
    if path.len() == 0 || path[0] != '/' {
        lemma_does_not_begin(path, "/"@, 0);
        lemma_does_not_begin(path, "//"@, 0);
    }
    let dotted = "./"@ + path;
    lemma_does_not_begin(dotted, "/"@, 0);
    lemma_does_not_begin(dotted, "//"@, 0);
    lemma_does_not_begin(dotted, "http://"@, 0);
    lemma_does_not_begin(dotted, "https://"@, 0);
    assert(dotted.skip(2) == path);
    assert(wiki::without_dot_slashes(path) == path);
    assert(wiki::without_dot_slashes(dotted) == path);
}

/// A second `./` in front of a path changes nothing.
pub proof fn law_repeated_dots(path: Seq<char>)
    ensures
        wiki::wiki_url("./"@ + ("./"@ + path)) == wiki::wiki_url("./"@ + path),
{
    reveal_strlit("/");
    reveal_strlit("./");
    reveal_strlit("//");
    reveal_strlit("http://");
    reveal_strlit("https://");
    let once = "./"@ + path;
    let twice = "./"@ + once;
    lemma_does_not_begin(once, "/"@, 0);
    lemma_does_not_begin(once, "//"@, 0);
    lemma_does_not_begin(once, "http://"@, 0);
    lemma_does_not_begin(once, "https://"@, 0);
    lemma_does_not_begin(twice, "/"@, 0);
    lemma_does_not_begin(twice, "//"@, 0);
    lemma_does_not_begin(twice, "http://"@, 0);
    lemma_does_not_begin(twice, "https://"@, 0);
    assert(twice.skip(2) == once);
}

} // verus!
