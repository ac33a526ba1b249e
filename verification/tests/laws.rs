use hellcall_stratagems::page::{Cell, Row, Table};
use hellcall_stratagems::text::{join, normalize_whitespace, split_words};
use hellcall_stratagems::{
    classify_stratagem_summary, direction_from_alt, extract_command, find_column_index,
    parse_stratagems_from_html, table_has_required_columns, CURRENT_STRATAGEMS_SECTION,
    MISSION_STRATAGEMS_SECTION,
};

fn cell(text: &str) -> Cell {
    Cell { texts: vec![text.to_string()], link_texts: None, images: Vec::new() }
}

#[test]
fn words_have_characters_and_no_white_space() {
    let content = "\u{2003} Eagle\u{85}500kg\n\nBomb ";
    let words = split_words(content);
    assert_eq!(words, vec!["Eagle", "500kg", "Bomb"]);
    assert!(words.iter().all(|word| !word.is_empty() && !word.contains(char::is_whitespace)));
    let solid = content.chars().filter(|c| !c.is_whitespace()).collect::<String>();
    assert_eq!(words.concat(), solid);
    assert_eq!(split_words(&join(&words, " ")), words);
}

#[test]
fn normalized_text_has_single_inner_spaces() {
    let normal = normalize_whitespace("\t Eagle \u{a0} 500kg\n");
    assert_eq!(normal, "Eagle 500kg");
    assert_eq!(normalize_whitespace(" \u{3000} "), "");
}

#[test]
fn letter_case_does_not_matter() {
    assert_eq!(direction_from_alt("ARROW LEFT"), direction_from_alt("arrow left"));
    assert_eq!(extract_command(&cell("uP")), extract_command(&cell("Up")));
    assert_eq!(find_column_index(&[cell("ICON")], "icon"), find_column_index(&[cell("icon")], "ICON"));
    assert_eq!(
        classify_stratagem_summary("MISSION STRATAGEMS"),
        classify_stratagem_summary("mission stratagems")
    );
}

#[test]
fn summary_white_space_does_not_matter() {
    for summary in ["", " ", "Mission\n\nStratagems ", "  Supply  Drops"] {
        assert_eq!(
            classify_stratagem_summary(&normalize_whitespace(summary)),
            classify_stratagem_summary(summary)
        );
    }
}

#[test]
fn required_columns_are_those_of_the_titles() {
    let cells = vec![cell("Source"), cell("stratagem code"), cell("ICON"), cell("name"), cell("Name")];
    assert_eq!(find_column_index(&cells, "Icon"), Some(2));
    assert_eq!(find_column_index(&cells, "Name"), Some(3));
    assert_eq!(find_column_index(&cells, "Stratagem Code"), Some(1));
    assert!(table_has_required_columns(&Table { rows: vec![Row { cells }] }));
}

#[test]
fn extracted_items_are_complete() {
    let html = r#"<div class="mw-parser-output"><details><summary> Eagle
 Strikes</summary><table class="wikitable">
<tr><th>Icon</th><th>Name</th><th>Stratagem Code</th></tr>
<tr><td><img src="//cdn/a.png"></td><td> Eagle <b>Airstrike</b></td><td>up right down right</td></tr>
<tr><td></td><td>Eagle Smoke</td><td>UP RIGHT UP DOWN</td></tr>
<tr><td></td><td></td><td>UP</td></tr>
<tr><td></td><td>Rearm</td><td>soon</td></tr></table></details>
<details><summary>Mission Stratagems</summary><table class="wikitable">
<tr><th>Icon</th><th>Name</th><th>Stratagem Code</th></tr>
<tr><td></td><td>SOS</td><td>up</td></tr></table></details></div>"#;
    let items = parse_stratagems_from_html(html).unwrap();
    assert_eq!(items.len(), 3);
    for item in &items {
        assert!(item.id.is_empty());
        assert_eq!(normalize_whitespace(&item.name), item.name);
        assert!(!item.name.is_empty() && !item.command.is_empty());
        assert!(item.icon_url.is_empty() || item.icon_url.starts_with("https://"));
        for step in &item.command {
            assert!(["UP", "DOWN", "LEFT", "RIGHT"].contains(&step.as_str()));
        }
    }
    assert_eq!(items[0].name, "Eagle Airstrike");
    assert_eq!(items[0].icon_url, "https://cdn/a.png");
    assert_eq!(items[0].category, "Eagle Strikes");
    assert_eq!(items[0].section, CURRENT_STRATAGEMS_SECTION);
    assert_eq!(items[2].category, MISSION_STRATAGEMS_SECTION);
}

#[test]
fn elements_in_templates_and_nested_tables_count() {
    let html = r#"<div class="mw-parser-output"><details><summary>Nested</summary>
<table class="wikitable"><tr><th>Icon</th><th>Name</th><th>Stratagem Code</th></tr>
<tr><td></td><td>Outer</td><td>UP<template><img alt="Arrow Down"></template></td></tr>
<tr><td><table><tr><td></td><td>Inner</td><td>LEFT</td></tr></table></td></tr></table>
</details></div>"#;
    let items = parse_stratagems_from_html(html).unwrap();
    assert_eq!(items.len(), 2);
    assert_eq!(items[0].name, "Outer");
    assert_eq!(items[0].command, vec!["DOWN"]);
    assert_eq!(items[1].name, "Inner");
    assert_eq!(items[1].command, vec!["LEFT"]);
}
