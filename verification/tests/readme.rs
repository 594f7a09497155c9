use oxml_wasm::logic::{is_well_formed, parse, query_count, query_text, query_value, root_name, Document};

const CATALOGUE: &str = r#"<catalogue>
        <book lang="en"><title>Dune</title><price>9.99</price></book>
        <book lang="fr"><title>Germinal</title><price>7.50</price></book>
    </catalogue>"#;

fn refusal(result: Result<Document, String>, why: &str) -> String {
    match result {
        Ok(_) => panic!("{why}"),
        Err(message) => message,
    }
}

#[test]
fn the_quick_start_returns_what_the_readme_says() {
    let doc = parse(CATALOGUE).expect("well-formed");
    assert_eq!(root_name(&doc).as_deref(), Some("catalogue"));
    assert_eq!(
        query_text(&doc, "//title", &[]).expect("valid"),
        ["Dune", "Germinal"]
    );
    assert_eq!(query_count(&doc, "//book", &[]).expect("valid"), 2);
    assert_eq!(
        query_value(&doc, "sum(//price)", &[]).expect("valid"),
        "17.49"
    );
    assert!(!is_well_formed("<a>"));
}

#[test]
fn query_text_on_a_non_node_set_returns_one_element() {
    let doc = parse(CATALOGUE).expect("well-formed");
    assert_eq!(
        query_text(&doc, "count(//book)", &[]).expect("valid"),
        ["2"]
    );
    assert_eq!(query_count(&doc, "count(//book)", &[]).expect("valid"), 0);
}

#[test]
fn a_parse_error_leads_with_line_and_column() {
    let message = refusal(parse("<a></b>"), "mismatched tags");
    assert!(
        message.starts_with("1:4: "),
        "the README shows a leading line:column -- got {message:?}"
    );
    assert!(message.contains("</b> closes <a>"), "{message}");
}

#[test]
fn an_invalid_expression_fails_at_query_time_not_parse_time() {
    let doc = parse(CATALOGUE).expect("well-formed");
    assert!(query_value(&doc, "//[", &[]).is_err());
    assert!(query_text(&doc, "//[", &[]).is_err());
    assert!(query_count(&doc, "//[", &[]).is_err());
}
