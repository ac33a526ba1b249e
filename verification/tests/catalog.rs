use hellcall_stratagems::clock::timestamp_of;
use hellcall_stratagems::{
    build_catalog, compute_stratagem_id, current_unix_timestamp, fill_missing_ids,
    has_complete_stratagem_sections, load_catalog, refresh_catalog, CachedCatalog, Stratagem,
    StratagemCatalog, CURRENT_STRATAGEMS_SECTION, MISSION_STRATAGEMS_SECTION,
};

const PAGE_URL: &str = "https://helldivers.wiki.gg/wiki/Stratagems";
const INCOMPLETE: &str =
    "Parsed stratagem data was incomplete; keeping the existing cached catalog.";

fn strings(parts: &[&str]) -> Vec<String> {
    parts.iter().map(|part| part.to_string()).collect()
}

fn item(id: &str, section: &str, name: &str, command: &[&str]) -> Stratagem {
    Stratagem {
        id: id.to_string(),
        section: section.to_string(),
        category: "category".to_string(),
        name: name.to_string(),
        icon_url: "icon".to_string(),
        command: strings(command),
    }
}

fn catalog(items: Vec<Stratagem>) -> StratagemCatalog {
    StratagemCatalog { updated_at_unix: Some(7), source_url: "source".to_string(), items }
}

fn page(blocks: &[(&str, &str, &str)]) -> String {
    let mut html = String::from("<div class=\"mw-parser-output\">");
    for (summary, name, code) in blocks {
        html.push_str(&format!(
            "<details><summary>{}</summary><table class=\"wikitable\">\
             <tr><th>Icon</th><th>Name</th><th>Stratagem Code</th></tr>\
             <tr><td></td><td>{}</td><td>{}</td></tr></table></details>",
            summary, name, code
        ));
    }
    html.push_str("</div>");
    html
}

#[test]
fn the_default_catalog_is_empty() {
    let catalog = StratagemCatalog::default();
    assert_eq!(catalog.updated_at_unix, None);
    assert_eq!(catalog.source_url, PAGE_URL);
    assert!(catalog.items.is_empty());
}

#[test]
fn ids_encode_the_command() {
    assert_eq!(compute_stratagem_id(&strings(&["UP", "DOWN"])), "VVAsRE9XTg==");
    assert_eq!(compute_stratagem_id(&strings(&["UP"])), "VVA=");
    assert_eq!(compute_stratagem_id(&strings(&["RIGHT", "RIGHT", "UP"])), "UklHSFQsUklHSFQsVVA=");
    assert_eq!(compute_stratagem_id(&[]), "");
    assert_eq!(compute_stratagem_id(&strings(&[""])), "");
    assert_eq!(compute_stratagem_id(&strings(&["\u{2191}"])), "4oaR");
    assert_eq!(compute_stratagem_id(&strings(&["~~>"])), "fn4+");
    assert_eq!(compute_stratagem_id(&strings(&["~~?"])), "fn4/");
    assert_eq!(compute_stratagem_id(&strings(&["", ""])), "LA==");
}

#[test]
fn ids_tell_commands_apart() {
    let directions = ["UP", "DOWN", "LEFT", "RIGHT"];
    let mut seen: Vec<String> = Vec::new();
    for first in directions {
        seen.push(compute_stratagem_id(&strings(&[first])));
        for second in directions {
            seen.push(compute_stratagem_id(&strings(&[first, second])));
        }
    }
    let count = seen.len();
    seen.sort();
    seen.dedup();
    assert_eq!(seen.len(), count);
    assert!(seen.iter().all(|id| !id.is_empty()));
}

#[test]
fn missing_ids_are_filled_in() {
    let mut filled = catalog(vec![
        item("kept", "s", "one", &["UP"]),
        item("", "s", "two", &["UP"]),
        item("", "s", "three", &[]),
    ]);
    assert!(fill_missing_ids(&mut filled));
    assert_eq!(filled.items[0].id, "kept");
    assert_eq!(filled.items[1].id, "VVA=");
    assert_eq!(filled.items[1].name, "two");
    assert_eq!(filled.items[2].id, "");
    assert_eq!(filled.updated_at_unix, Some(7));
    assert_eq!(filled.source_url, "source");

    let mut again = filled.clone();
    assert!(fill_missing_ids(&mut again));
    assert_eq!(again.items[1].id, filled.items[1].id);

    let mut complete = catalog(vec![item("kept", "s", "one", &["UP"])]);
    assert!(!fill_missing_ids(&mut complete));
    assert!(!fill_missing_ids(&mut StratagemCatalog::default()));
}

#[test]
fn loading() {
    let missing = load_catalog(CachedCatalog::Missing);
    assert_eq!(missing.catalog.source_url, PAGE_URL);
    assert!(missing.catalog.items.is_empty());
    assert!(missing.save && !missing.back_up);

    let invalid = load_catalog(CachedCatalog::Invalid);
    assert_eq!(invalid.catalog.updated_at_unix, None);
    assert!(invalid.save && invalid.back_up);

    let old = load_catalog(CachedCatalog::Valid(catalog(vec![item("", "s", "one", &["UP"])])));
    assert!(old.save && !old.back_up);
    assert_eq!(old.catalog.items[0].id, "VVA=");
    assert_eq!(old.catalog.updated_at_unix, Some(7));

    let again = load_catalog(CachedCatalog::Valid(old.catalog));
    assert!(!again.save && !again.back_up);
    assert_eq!(again.catalog.items[0].id, "VVA=");
    assert_eq!(again.catalog.source_url, "source");
}

#[test]
fn completeness_with_others() {
    let current = item("", CURRENT_STRATAGEMS_SECTION, "one", &["UP"]);
    let mission = item("", MISSION_STRATAGEMS_SECTION, "two", &["UP"]);
    let other = item("", "other", "three", &["UP"]);
    assert!(!has_complete_stratagem_sections(&[]));
    assert!(!has_complete_stratagem_sections(&[current.clone(), other.clone()]));
    assert!(has_complete_stratagem_sections(&[other, mission, current]));
}

#[test]
fn building_a_catalog() {
    let current = item("old", CURRENT_STRATAGEMS_SECTION, "one", &["UP"]);
    let mission = item("", MISSION_STRATAGEMS_SECTION, "two", &["UP", "DOWN"]);
    let built = build_catalog(Ok(vec![current.clone(), mission]), 42).unwrap();
    assert_eq!(built.updated_at_unix, Some(42));
    assert_eq!(built.source_url, PAGE_URL);
    assert_eq!(built.items[0].id, "VVA=");
    assert_eq!(built.items[0].icon_url, "icon");
    assert_eq!(built.items[1].id, "VVAsRE9XTg==");
    assert_eq!(built.items[1].name, "two");

    assert_eq!(build_catalog(Ok(vec![current]), 42).unwrap_err(), INCOMPLETE);
    assert_eq!(build_catalog(Err("broken".to_string()), 42).unwrap_err(), "broken");
}

#[test]
fn refreshing_from_a_page() {
    let html = page(&[
        ("Supply", "Resupply", "down down up right"),
        ("Mission Stratagems", "Reinforce", "up"),
        ("Supply", "Other", "up"),
    ]);
    let catalog = refresh_catalog(&html, 9).unwrap();
    assert_eq!(catalog.updated_at_unix, Some(9));
    assert_eq!(catalog.items.len(), 3);
    assert_eq!(catalog.items[0].id, "RE9XTixET1dOLFVQLFJJR0hU");
    assert_eq!(catalog.items[1].id, "VVA=");
    assert_eq!(catalog.items[2].id, catalog.items[1].id);

    let names = catalog.items.iter().map(|item| item.name.clone()).collect::<Vec<_>>();
    let loaded = load_catalog(CachedCatalog::Valid(catalog));
    assert!(!loaded.save && !loaded.back_up);
    assert_eq!(loaded.catalog.items.iter().map(|item| item.name.clone()).collect::<Vec<_>>(), names);
}

#[test]
fn refreshing_refuses_incomplete_pages() {
    let supply = page(&[("Supply", "Resupply", "down down up right")]);
    assert_eq!(refresh_catalog(&supply, 9).unwrap_err(), INCOMPLETE);
    assert_eq!(refresh_catalog(&page(&[]), 9).unwrap_err(), INCOMPLETE);
    assert_eq!(
        refresh_catalog("<p></p>", 9).unwrap_err(),
        "Wiki response did not include .mw-parser-output"
    );
}

#[test]
fn timestamps() {
    assert_eq!(timestamp_of(Some((12, 999_999_999))), 12);
    assert_eq!(timestamp_of(None), 0);
    assert!(current_unix_timestamp() > 1_600_000_000);
}
