use ama_archiver::ama_indexer::{
    compile_ama_index, extract_records, find_marker, normalize_references, strip_group_separator,
    AmaRecord,
    ExtractError,
};
use ama_archiver::document::Block;
use ama_archiver::locator::{get_url, get_urlid, locator_from_template};

fn get_raw_index() -> String {
    let raw_index: &str = r#"
            <p><strong>cc_name1:</strong></p>

            <p><a href="1">fan_name1</a></p>
            <p><a href="2">fan_name2</a></p>
            <p><a href="1">fan_name3</a></p>
            <hr />
            <p><strong>cc_name2:</strong></p>
            <p><a href="3">fan_name4</a></p>
            <p><a href="4">fan_name5</a></p>
        "#;
    raw_index.to_string()
}

fn get_ama_index() -> Vec<AmaRecord> {
    let index_tup: Vec<(&str, &str, &str)> = vec![
        ("cc_name1", "fan_name1", "1"),
        ("cc_name1", "fan_name2", "2"),
        ("cc_name1", "fan_name3", "1"),
        ("cc_name2", "fan_name4", "3"),
        ("cc_name2", "fan_name5", "4"),
    ];
    let mut expected: Vec<AmaRecord> = Vec::new();
    for (cc_name, fan_name, url_id) in index_tup {
        expected.push(AmaRecord {
            cc_name: cc_name.to_string(),
            fan_name: fan_name.to_string(),
            url_id: url_id.to_string(),
        });
    }
    expected
}

fn element(tag: &str, text: &str, link: Option<&str>) -> Block {
    Block::Element {
        tag: tag.to_string(),
        text: text.to_string(),
        link: link.map(|l| l.to_string()),
    }
}

#[test]
fn test_get_url() {
    let url_id: String = "nyet".to_string();
    let expected: String = format!(
        "{}/{}/{}",
        "https://old.reddit.com/r/StarVStheForcesofEvil/comments/cll9u5/star_vs_the_forces_of_evil_ask_me_anything",
        url_id,
        "?context=3"
    );
    let actual: String = get_url(url_id);
    assert_eq!(actual, expected);
}

#[test]
fn test_get_urlid() {
    let expected: String = "nyet".to_string();
    let url: String = format!(
        "{}/{}/{}",
        "https://www.reddit.com/r/StarVStheForcesofEvil/comments/cll9u5/star_vs_the_forces_of_evil_ask_me_anything",
        expected,
        "?context=3"
    );
    let actual: String = get_urlid(url);
    assert_eq!(actual, expected);
}

#[test]
fn test_compile_ama_index() {
    let expected: Vec<AmaRecord> = get_ama_index();
    let start_text: &str = "cc_name1:";
    let raw_index: &str = &get_raw_index();
    let actual: Vec<AmaRecord> = compile_ama_index(raw_index.to_string(), start_text).unwrap();
    assert_eq!(actual, expected);
}

#[test]
fn groups_split_records_by_label() {
    let actual = compile_ama_index(get_raw_index(), "cc_name1:").unwrap();
    assert_eq!(actual.len(), 5);
    for record in &actual[..3] {
        assert_eq!(record.cc_name, "cc_name1");
    }
    for record in &actual[3..] {
        assert_eq!(record.cc_name, "cc_name2");
    }
}

#[test]
fn references_are_kept_verbatim() {
    let actual = compile_ama_index(get_raw_index(), "cc_name1:").unwrap();
    let ids: Vec<&str> = actual.iter().map(|r| r.url_id.as_str()).collect();
    assert_eq!(ids, vec!["1", "2", "1", "3", "4"]);
}

#[test]
fn missing_marker_gives_no_records() {
    let actual = compile_ama_index(get_raw_index(), "nobody:");
    assert_eq!(actual, Err(ExtractError::MarkerNotFound));
}

#[test]
fn marker_must_match_exactly() {
    let actual = compile_ama_index(get_raw_index(), "cc_name1");
    assert_eq!(actual, Err(ExtractError::MarkerNotFound));
}

#[test]
fn later_marker_starts_later() {
    let actual = compile_ama_index(get_raw_index(), "cc_name2:").unwrap();
    let ids: Vec<&str> = actual.iter().map(|r| r.url_id.as_str()).collect();
    assert_eq!(ids, vec!["3", "4"]);
    assert_eq!(actual[0].cc_name, "cc_name2");
}

#[test]
fn group_without_separator_is_refused() {
    let html = "<p><strong>start:</strong></p><p><strong>broken</strong></p><p><a href=\"9\">x</a></p>";
    assert_eq!(
        compile_ama_index(html.to_string(), "start:"),
        Err(ExtractError::MalformedGroupLabel)
    );
}

#[test]
fn link_without_href_is_refused() {
    let html = "<p><strong>start:</strong></p><p><a href=\"9\">x</a></p><p><a>y</a></p>";
    assert_eq!(compile_ama_index(html.to_string(), "start:"), Err(ExtractError::MissingLink));
}

#[test]
fn unexpected_block_ends_the_walk() {
    let html = "<p><strong>start:</strong></p><p><a href=\"9\">x</a></p><p><em>end</em></p><p><a href=\"8\">y</a></p>";
    let actual = compile_ama_index(html.to_string(), "start:").unwrap();
    assert_eq!(
        actual,
        vec![AmaRecord {
            cc_name: "start".to_string(),
            fan_name: "x".to_string(),
            url_id: "9".to_string()
        }]
    );
}

#[test]
fn text_block_ends_the_walk() {
    let html = "<p><strong>start:</strong></p><p><a href=\"9\">x</a></p><p>plain</p><p><a href=\"8\">y</a></p>";
    let actual = compile_ama_index(html.to_string(), "start:").unwrap();
    assert_eq!(actual.len(), 1);
}

#[test]
fn empty_group_gives_no_records() {
    let blocks = vec![
        element("strong", "g1:", None),
        element("strong", "g2:", None),
        element("a", "fan", Some("7")),
    ];
    let actual = extract_records("g0:", &blocks).unwrap();
    assert_eq!(
        actual,
        vec![AmaRecord {
            cc_name: "g2".to_string(),
            fan_name: "fan".to_string(),
            url_id: "7".to_string()
        }]
    );
}

#[test]
fn items_before_any_group_use_the_start_label() {
    let blocks = vec![Block::Childless, element("a", "fan", Some("7")), Block::Unmarked];
    let actual = extract_records("g0:", &blocks).unwrap();
    assert_eq!(actual[0].cc_name, "g0");
    assert_eq!(actual.len(), 1);
}

#[test]
fn start_marker_without_separator_is_refused() {
    let blocks = vec![element("a", "fan", Some("7"))];
    assert_eq!(extract_records("g0", &blocks), Err(ExtractError::MalformedGroupLabel));
    assert_eq!(extract_records(":", &blocks), Err(ExtractError::MalformedGroupLabel));
}

#[test]
fn error_after_records_gives_no_records() {
    let blocks = vec![element("a", "fan", Some("7")), element("a", "other", None)];
    assert_eq!(extract_records("g0:", &blocks), Err(ExtractError::MissingLink));
}

#[test]
fn separator_is_stripped_once() {
    assert_eq!(strip_group_separator("Daron Nefcy:"), Some("Daron Nefcy".to_string()));
    assert_eq!(strip_group_separator("a::"), Some("a:".to_string()));
    assert_eq!(strip_group_separator(":"), None);
    assert_eq!(strip_group_separator("none"), None);
    assert_eq!(strip_group_separator(""), None);
}

#[test]
fn marker_is_the_first_equal_text() {
    let texts = vec!["a".to_string(), "b".to_string(), "b".to_string()];
    assert_eq!(find_marker(&texts, "b"), Some(1));
    assert_eq!(find_marker(&texts, "c"), None);
}

#[test]
fn locator_round_trip() {
    for id in ["evw3fne", "", "x"] {
        assert_eq!(get_urlid(get_url(id.to_string())), id);
    }
}

#[test]
fn locator_keeps_template_around_id() {
    assert_eq!(locator_from_template("a/b//c", "id"), "a/b/id/c");
    assert_eq!(locator_from_template("x/y", "id"), "id/y");
}

#[test]
fn reference_id_is_segment_before_last() {
    assert_eq!(get_urlid("a/b/c".to_string()), "b");
    assert_eq!(get_urlid("only/".to_string()), "only");
    assert_eq!(get_urlid("/tail".to_string()), "");
}

#[test]
fn references_are_normalized_from_locators() {
    let index = vec![
        AmaRecord {
            cc_name: "c".to_string(),
            fan_name: "f".to_string(),
            url_id: get_url("evw3fne".to_string()),
        },
        AmaRecord { cc_name: "d".to_string(), fan_name: "g".to_string(), url_id: "a/b/".to_string() },
    ];
    let normal = normalize_references(index).unwrap();
    assert_eq!(normal[0].url_id, "evw3fne");
    assert_eq!(normal[0].cc_name, "c");
    assert_eq!(normal[0].fan_name, "f");
    assert_eq!(normal[1].url_id, "b");
}

#[test]
fn locator_without_separator_is_not_normalized() {
    let index = vec![AmaRecord { cc_name: "c".to_string(), fan_name: "f".to_string(), url_id: "1".to_string() }];
    let back = normalize_references(index.clone()).unwrap_err();
    assert_eq!(back, index);
}
