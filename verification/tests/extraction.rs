use hellcall_stratagems::extract::{parse_stratagem_blocks, parse_stratagems_from_document};
use hellcall_stratagems::page::{direct_cells, read_blocks, Block, Cell, Image, Row, Table};
use hellcall_stratagems::{
    classify_stratagem_summary, direction_from_alt, extract_command, extract_image_url,
    extract_name, extract_text, find_column_index, has_complete_stratagem_sections,
    parse_stratagem_table, parse_stratagems_from_html, table_has_required_columns, Stratagem,
    CURRENT_STRATAGEMS_SECTION, MISSION_STRATAGEMS_SECTION,
};
use scraper::{Html, Selector};

const DETAILS_FIXTURE: &str = r#"
<div class="mw-parser-output">
  <details>
    <summary>Orbital Strikes</summary>
    <table class="wikitable sortable">
      <tbody>
        <tr>
          <th>Icon</th>
          <th>Name</th>
          <th>Stratagem Code</th>
          <th>Base Cooldown</th>
          <th>Source</th>
        </tr>
        <tr>
          <td><img src="/images/orbital.png" /></td>
          <td><a href="/wiki/Orbital_Precision_Strike">Orbital Precision Strike</a></td>
          <td>
            <img alt="Stratagem Arrow Right.svg" src="/images/right.svg" />
            <img alt="Stratagem Arrow Right.svg" src="/images/right.svg" />
            <img alt="Stratagem Arrow Up.svg" src="/images/up.svg" />
          </td>
          <td>90s</td>
          <td>Bridge</td>
        </tr>
      </tbody>
    </table>
  </details>
  <details>
    <summary>Mission Stratagems</summary>
    <table class="wikitable sortable">
      <tbody>
        <tr>
          <th>Icon</th>
          <th>Name</th>
          <th>Stratagem Code</th>
        </tr>
        <tr>
          <td><img src="/images/reinforce.png" /></td>
          <td><a href="/wiki/Reinforce">Reinforce</a></td>
          <td>UP DOWN RIGHT LEFT UP</td>
        </tr>
      </tbody>
    </table>
  </details>
</div>
"#;

#[test]
fn parse_stratagems_uses_details_summary_grouping() {
    let items = parse_stratagems_from_html(DETAILS_FIXTURE).expect("fixture should parse");

    assert_eq!(items.len(), 2);
    assert_eq!(items[0].section, CURRENT_STRATAGEMS_SECTION);
    assert_eq!(items[0].category, "Orbital Strikes");
    assert_eq!(items[1].section, MISSION_STRATAGEMS_SECTION);
    assert_eq!(items[1].category, MISSION_STRATAGEMS_SECTION);
}

#[test]
fn parse_stratagems_extracts_direction_from_image_alt_and_text_fallback() {
    let items = parse_stratagems_from_html(DETAILS_FIXTURE).expect("fixture should parse");

    assert_eq!(items[0].command, vec!["RIGHT", "RIGHT", "UP"]);
    assert_eq!(items[1].command, vec!["UP", "DOWN", "RIGHT", "LEFT", "UP"]);
}

#[test]
fn parse_stratagems_preserves_name_and_icon_with_extra_columns() {
    let items = parse_stratagems_from_html(DETAILS_FIXTURE).expect("fixture should parse");

    assert_eq!(items[0].name, "Orbital Precision Strike");
    assert_eq!(
        items[0].icon_url,
        "https://helldivers.wiki.gg/images/orbital.png"
    );
}

#[test]
fn completeness_check_requires_current_and_mission_sections() {
    let current_only = vec![Stratagem {
        id: String::new(),
        section: CURRENT_STRATAGEMS_SECTION.to_string(),
        category: "Orbital Strikes".to_string(),
        name: "Orbital Precision Strike".to_string(),
        icon_url: String::new(),
        command: vec!["RIGHT".to_string()],
    }];
    let mission_only = vec![Stratagem {
        id: String::new(),
        section: MISSION_STRATAGEMS_SECTION.to_string(),
        category: MISSION_STRATAGEMS_SECTION.to_string(),
        name: "Reinforce".to_string(),
        icon_url: String::new(),
        command: vec!["UP".to_string()],
    }];

    assert!(!has_complete_stratagem_sections(&current_only));
    assert!(!has_complete_stratagem_sections(&mission_only));
    assert!(has_complete_stratagem_sections(
        &parse_stratagems_from_html(DETAILS_FIXTURE).expect("fixture should parse")
    ));
}

fn strings(parts: &[&str]) -> Vec<String> {
    parts.iter().map(|part| part.to_string()).collect()
}

fn text_cell(text: &str) -> Cell {
    Cell { texts: strings(&[text]), link_texts: None, images: Vec::new() }
}

fn image(src: Option<&str>, data_src: Option<&str>, srcset: Option<&str>, alt: Option<&str>) -> Image {
    Image {
        src: src.map(String::from),
        data_src: data_src.map(String::from),
        srcset: srcset.map(String::from),
        alt: alt.map(String::from),
    }
}

fn row(texts: &[&str]) -> Row {
    Row { cells: texts.iter().map(|text| text_cell(text)).collect() }
}

#[test]
fn page_without_contents_is_an_error() {
    let error = parse_stratagems_from_html("<p>nothing here</p>").unwrap_err();
    assert_eq!(error, "Wiki response did not include .mw-parser-output");
    assert!(parse_stratagems_from_html("").is_err());
    let classless = r#"<div id="mw-parser-output"></div><div class="mw-parser-output-x"></div>"#;
    assert!(parse_stratagems_from_html(classless).is_err());
}

#[test]
fn page_with_empty_contents_lists_nothing() {
    let items = parse_stratagems_from_html(r#"<div class="a mw-parser-output b"></div>"#).unwrap();
    assert!(items.is_empty());
}

#[test]
fn class_names_are_matched_with_their_case() {
    assert!(parse_stratagems_from_html(r#"<div class="MW-PARSER-OUTPUT"></div>"#).is_err());
}

#[test]
fn only_the_first_contents_are_read() {
    let html = format!(r#"<div class="mw-parser-output"></div>{}"#, DETAILS_FIXTURE);
    assert!(parse_stratagems_from_html(&html).unwrap().is_empty());
}

#[test]
fn blocks_outside_the_contents_are_not_read() {
    let html = r#"
<details><summary>Outside</summary><table class="wikitable">
<tr><th>Icon</th><th>Name</th><th>Stratagem Code</th></tr>
<tr><td></td><td>Stray</td><td>UP</td></tr></table></details>
<div class="mw-parser-output"><p>text</p></div>"#;
    assert!(parse_stratagems_from_html(html).unwrap().is_empty());
}

#[test]
fn tables_of_another_class_or_without_the_columns_are_skipped() {
    let html = r#"<div class="mw-parser-output"><details><summary>Supply</summary>
<table><tr><th>Icon</th><th>Name</th><th>Stratagem Code</th></tr>
<tr><td></td><td>Plain</td><td>UP</td></tr></table>
<table class="wikitable"><tr><th>Icon</th><th>Name</th><th>Code</th></tr>
<tr><td></td><td>Untitled</td><td>UP</td></tr></table>
<table class="wikitable"></table>
<table class="wikitable"><tr><th>NAME</th><th> stratagem  CODE </th><th>icon</th></tr>
<tr><td>Listed</td><td>up, &#8594; Down left</td><td><img data-src="./a.png"></td></tr></table>
</details></div>"#;
    let items = parse_stratagems_from_html(html).unwrap();
    assert_eq!(items.len(), 1);
    assert_eq!(items[0].name, "Listed");
    assert_eq!(items[0].command, vec!["RIGHT", "DOWN", "LEFT"]);
    assert_eq!(items[0].icon_url, "https://helldivers.wiki.gg/a.png");
    assert_eq!(items[0].category, "Supply");
    assert_eq!(items[0].id, "");
}

#[test]
fn blocks_without_a_shown_summary_are_skipped() {
    let table = r#"<table class="wikitable"><tr><th>Icon</th><th>Name</th><th>Stratagem Code</th></tr>
<tr><td></td><td>Listed</td><td>UP</td></tr></table>"#;
    let html = format!(
        r#"<div class="mw-parser-output"><details>{t}</details>
<details><summary> <b> </b> </summary>{t}</details>
<details><summary><b>mission</b>  STRATAGEMS</summary>{t}</details></div>"#,
        t = table
    );
    let items = parse_stratagems_from_html(&html).unwrap();
    assert_eq!(items.len(), 1);
    assert_eq!(items[0].section, MISSION_STRATAGEMS_SECTION);
    assert_eq!(items[0].category, MISSION_STRATAGEMS_SECTION);
}

#[test]
fn cells_are_the_direct_children_of_a_row() {
    let html = r#"<table><tr><td>a</td><th>b</th><td><table><tr><td>inner</td></tr></table></td></tr></table>"#;
    let document = Html::parse_document(html);
    let rows = document.select(&Selector::parse("tr").unwrap()).collect::<Vec<_>>();
    let cells = direct_cells(&rows[0]);
    assert_eq!(cells.len(), 3);
    assert_eq!(cells[0].value().name(), "td");
    assert_eq!(cells[1].value().name(), "th");
    assert_eq!(cells[1].text().collect::<String>(), "b");
}

#[test]
fn a_document_is_read_into_blocks() {
    let document = Html::parse_document(DETAILS_FIXTURE);
    let blocks = read_blocks(&document).expect("contents");
    assert_eq!(blocks.len(), 2);
    assert_eq!(blocks[0].summary_texts, Some(strings(&["Orbital Strikes"])));
    assert_eq!(blocks[0].tables.len(), 1);
    let rows = &blocks[0].tables[0].rows;
    assert_eq!(rows.len(), 2);
    assert_eq!(rows[0].cells.len(), 5);
    assert_eq!(rows[0].cells[2].texts, strings(&["Stratagem Code"]));
    let cells = &rows[1].cells;
    assert_eq!(cells[0].images.len(), 1);
    assert_eq!(cells[0].images[0].src, Some("/images/orbital.png".to_string()));
    assert_eq!(cells[0].images[0].alt, None);
    assert_eq!(cells[1].link_texts, Some(strings(&["Orbital Precision Strike"])));
    assert_eq!(cells[2].images.len(), 3);
    assert_eq!(cells[2].images[2].alt, Some("Stratagem Arrow Up.svg".to_string()));
    assert_eq!(cells[3].link_texts, None);
    assert!(read_blocks(&Html::parse_document("<p></p>")).is_none());
    assert_eq!(parse_stratagems_from_document(&document).unwrap().len(), 2);
    assert_eq!(parse_stratagem_blocks(&blocks).len(), 2);
}

#[test]
fn text_is_joined_by_spaces_and_normalized() {
    assert_eq!(extract_text(&strings(&[" Orbital\n", "\tStrike", ""])), "Orbital Strike");
    assert_eq!(extract_text(&strings(&["a", "b"])), "a b");
    assert_eq!(extract_text(&[]), "");
}

#[test]
fn columns_are_found_by_their_title() {
    let cells = row(&["Icon", " stratagem\u{a0}CODE ", "icon"]).cells;
    assert_eq!(find_column_index(&cells, "ICON"), Some(0));
    assert_eq!(find_column_index(&cells, "Stratagem Code"), Some(1));
    assert_eq!(find_column_index(&cells, "Name"), None);
    assert_eq!(find_column_index(&[], "Icon"), None);
}

#[test]
fn required_columns() {
    let full = Table { rows: vec![row(&["Stratagem Code", "Name", "Icon"])] };
    let short = Table { rows: vec![row(&["Stratagem Code", "Name"])] };
    let late = Table { rows: vec![row(&["x"]), row(&["Stratagem Code", "Name", "Icon"])] };
    assert!(table_has_required_columns(&full));
    assert!(!table_has_required_columns(&short));
    assert!(!table_has_required_columns(&late));
    assert!(!table_has_required_columns(&Table { rows: Vec::new() }));
}

#[test]
fn table_rows_become_items() {
    let table = Table {
        rows: vec![
            row(&["Name", "Stratagem Code", "Icon"]),
            row(&["Resupply", "down down up right", ""]),
            row(&["Short", "up"]),
            row(&["", "up", ""]),
            row(&["No code", "none", ""]),
            row(&["Hellbomb", "\u{2193}\u{2191}\u{2190}\u{2192}", "", "extra"]),
        ],
    };
    let items = parse_stratagem_table(&table, "S", "C");
    assert_eq!(items.len(), 2);
    assert_eq!(items[0].name, "Resupply");
    assert_eq!(items[0].command, vec!["DOWN", "DOWN", "UP", "RIGHT"]);
    assert_eq!(items[0].icon_url, "");
    assert_eq!(items[0].section, "S");
    assert_eq!(items[0].category, "C");
    assert_eq!(items[0].id, "");
    assert_eq!(items[1].name, "Hellbomb");
    assert_eq!(items[1].command, vec!["DOWN", "UP", "LEFT", "RIGHT"]);
    assert!(parse_stratagem_table(&Table { rows: Vec::new() }, "S", "C").is_empty());
}

#[test]
fn columns_without_a_title_stand_at_their_usual_place() {
    let table = Table { rows: vec![row(&["", "", ""]), row(&["icon", "Resupply", "down up"])] };
    let items = parse_stratagem_table(&table, "S", "C");
    assert_eq!(items.len(), 1);
    assert_eq!(items[0].name, "Resupply");
    assert_eq!(items[0].command, vec!["DOWN", "UP"]);
}

#[test]
fn extra_columns_change_nothing() {
    let narrow = Table {
        rows: vec![row(&["Icon", "Name", "Stratagem Code"]), row(&["", "Resupply", "down up"])],
    };
    let wide = Table {
        rows: vec![
            row(&["Icon", "Name", "Stratagem Code", "Name", "Source"]),
            row(&["", "Resupply", "down up", "Other", "Ship"]),
        ],
    };
    let left = parse_stratagem_table(&narrow, "S", "C");
    let right = parse_stratagem_table(&wide, "S", "C");
    assert_eq!(left.len(), right.len());
    assert_eq!(left[0].name, right[0].name);
    assert_eq!(left[0].command, right[0].command);
}

#[test]
fn blocks_are_read_in_order() {
    let block = |summary: Option<&str>, name: &str| Block {
        summary_texts: summary.map(|summary| strings(&[summary])),
        tables: vec![Table {
            rows: vec![row(&["Icon", "Name", "Stratagem Code"]), row(&["", name, "up"])],
        }],
    };
    let blocks = vec![
        block(Some("Supply"), "one"),
        block(None, "hidden"),
        block(Some("  "), "blank"),
        block(Some("Mission  stratagems"), "two"),
    ];
    let items = parse_stratagem_blocks(&blocks);
    assert_eq!(items.len(), 2);
    assert_eq!((items[0].name.as_str(), items[0].category.as_str()), ("one", "Supply"));
    assert_eq!(items[0].section, CURRENT_STRATAGEMS_SECTION);
    assert_eq!(
        (items[1].name.as_str(), items[1].category.as_str()),
        ("two", MISSION_STRATAGEMS_SECTION)
    );
}

#[test]
fn summaries_are_classified() {
    assert_eq!(classify_stratagem_summary(""), None);
    assert_eq!(classify_stratagem_summary(" \n "), None);
    assert_eq!(
        classify_stratagem_summary(" mission\tSTRATAGEMS"),
        Some(MISSION_STRATAGEMS_SECTION)
    );
    assert_eq!(classify_stratagem_summary("Mission"), Some(CURRENT_STRATAGEMS_SECTION));
}

#[test]
fn names_come_from_the_first_link() {
    let mut cell = text_cell("cell text");
    assert_eq!(extract_name(&cell), "cell text");
    cell.link_texts = Some(strings(&[" link ", "text"]));
    assert_eq!(extract_name(&cell), "link text");
    cell.link_texts = Some(strings(&["  "]));
    assert_eq!(extract_name(&cell), "cell text");
}

#[test]
fn image_addresses() {
    let url = |first: Image| {
        extract_image_url(&Cell {
            texts: Vec::new(),
            link_texts: None,
            images: vec![first, image(Some("/second.png"), None, None, None)],
        })
    };
    let origin = "https://helldivers.wiki.gg";
    assert_eq!(
        url(image(Some("/a"), Some("/b"), Some("/c 1x"), None)),
        Some(format!("{}/a", origin))
    );
    assert_eq!(
        url(image(None, Some("b"), Some("/c 1x"), None)),
        Some(format!("{}/b", origin))
    );
    assert_eq!(
        url(image(None, None, Some("  /c.png 1x, /d.png 2x"), None)),
        Some(format!("{}/c.png", origin))
    );
    assert_eq!(url(image(None, None, Some(" , /d.png 2x"), None)), None);
    assert_eq!(url(image(None, None, Some(""), None)), None);
    assert_eq!(url(image(None, None, None, None)), None);
    assert_eq!(url(image(Some(""), Some("/b"), None, None)), Some(format!("{}/", origin)));
    assert_eq!(extract_image_url(&text_cell("x")), None);
}

#[test]
fn directions_from_alternative_texts() {
    assert_eq!(direction_from_alt("Stratagem ARROW Up.svg"), Some("UP"));
    assert_eq!(direction_from_alt("arrow down"), Some("DOWN"));
    assert_eq!(direction_from_alt("xArrow Leftx"), Some("LEFT"));
    assert_eq!(direction_from_alt("arrow right"), Some("RIGHT"));
    assert_eq!(direction_from_alt("arrow right arrow up"), Some("UP"));
    assert_eq!(direction_from_alt("arrow"), None);
    assert_eq!(direction_from_alt("arrowup"), None);
    assert_eq!(direction_from_alt(""), None);
}

#[test]
fn images_win_over_text() {
    let mut cell = text_cell("up up");
    assert_eq!(extract_command(&cell), vec!["UP", "UP"]);
    cell.images = vec![
        image(None, None, None, Some("logo")),
        image(None, None, None, None),
        image(None, None, None, Some("Arrow Left")),
    ];
    assert_eq!(extract_command(&cell), vec!["LEFT"]);
    cell.images.pop();
    assert_eq!(extract_command(&cell), vec!["UP", "UP"]);
}

#[test]
fn commands_from_text() {
    let command = |text: &str| extract_command(&text_cell(text));
    assert_eq!(command("Up\u{2193}LEFT \u{2192}\u{2190} downup right."), vec!["UP", "DOWN", "LEFT", "RIGHT", "LEFT"]);
    assert_eq!(command("\u{2191}\u{2191}"), vec!["UP", "UP"]);
    assert!(command("nothing").is_empty());
}
