use oxml_wasm::bindings::parse_bindings;
use oxml_wasm::decimal::to_decimal;
use oxml_wasm::logic::{
    count_or_zero, describe_rejection, texts_or_value, is_well_formed, parse, query_count, query_text, query_value, root_name,
    to_xml, Document,
};

const DOC: &str = "<library count=\"2\">\
    <book lang=\"en\"><title>Dune</title></book>\
    <book lang=\"fr\"><title>Germinal</title></book>\
    </library>";

fn refusal(result: Result<Document, String>) -> String {
    match result {
        Ok(_) => panic!("expected a refusal"),
        Err(message) => message,
    }
}

#[test]
fn decimal_spelling_of_counts() {
    assert_eq!(to_decimal(0), "0");
    assert_eq!(to_decimal(9), "9");
    assert_eq!(to_decimal(10), "10");
    assert_eq!(to_decimal(1_234_567_890), "1234567890");
    assert_eq!(to_decimal(usize::MAX), usize::MAX.to_string());
}

#[test]
fn a_refusal_is_written_line_colon_column() {
    assert_eq!(describe_rejection(1, 4, "why"), "1:4: why");
    assert_eq!(describe_rejection(120, 37, ""), "120:37: ");
}

#[test]
fn the_readme_error_message_in_full() {
    let message = refusal(parse("<a></b>"));
    assert_eq!(message, "1:4: at byte 3: </b> closes <a>");
}

#[test]
fn a_position_on_a_later_line_counts_characters() {
    let message = refusal(parse("<a>\né<b></a>"));
    assert!(message.starts_with("2:5: "), "{message}");
}

#[test]
fn an_empty_source_is_refused_by_both_entry_points() {
    assert!(!is_well_formed(""));
    assert!(parse("").is_err());
    assert!(is_well_formed("<a/>"));
}

#[test]
fn a_binding_without_equals_names_the_entry() {
    let entries = [String::from("bogus")];
    assert_eq!(
        parse_bindings(&entries),
        Err(String::from(
            "`bogus` is not a namespace binding; write PREFIX=URI"
        ))
    );
}

#[test]
fn a_binding_without_prefix_and_a_rebound_xml_are_refused_by_name() {
    assert_eq!(
        parse_bindings(&[String::from("=urn:u")]),
        Err(String::from("a namespace binding needs a prefix"))
    );
    assert_eq!(
        parse_bindings(&[String::from("xml=urn:u")]),
        Err(String::from(
            "`xml` is bound by the specification and may not be rebound"
        ))
    );
}

#[test]
fn prefixes_that_merely_start_with_xml_are_bindable() {
    let entries = [String::from("xmlx=urn:a"), String::from("xm=urn:b")];
    assert_eq!(
        parse_bindings(&entries).expect("valid"),
        vec![("xmlx", "urn:a"), ("xm", "urn:b")]
    );
}

#[test]
fn the_first_bad_entry_is_the_one_reported() {
    let entries = [
        String::from("a=urn:a"),
        String::from("=urn:b"),
        String::from("nothing"),
    ];
    assert_eq!(
        parse_bindings(&entries),
        Err(String::from("a namespace binding needs a prefix"))
    );
}

#[test]
fn a_rebinding_moves_to_the_end_and_keeps_one_entry() {
    let entries = [
        String::from("a=urn:1"),
        String::from("b=urn:2"),
        String::from("a=urn:3"),
        String::from("c="),
    ];
    assert_eq!(
        parse_bindings(&entries).expect("valid"),
        vec![("b", "urn:2"), ("a", "urn:3"), ("c", "")]
    );
    assert_eq!(parse_bindings(&[]).expect("valid"), Vec::<(&str, &str)>::new());
}

#[test]
fn the_entry_points_give_the_same_message_for_a_bad_expression() {
    let d = parse(DOC).expect("well-formed");
    let text = query_text(&d, "//[", &[]).unwrap_err();
    let value = query_value(&d, "//[", &[]).unwrap_err();
    let count = query_count(&d, "//[", &[]).unwrap_err();
    assert_eq!(text, value);
    assert_eq!(text, count);
    let bad = [String::from("bogus")];
    assert_eq!(
        query_count(&d, "//book", &bad).unwrap_err(),
        "`bogus` is not a namespace binding; write PREFIX=URI"
    );
}

#[test]
fn the_count_is_the_number_of_texts() {
    let d = parse(DOC).expect("well-formed");
    for expression in ["//book", "//title", "//@lang", "/library", "//missing"] {
        let texts = query_text(&d, expression, &[]).expect("valid");
        let count = query_count(&d, expression, &[]).expect("valid");
        assert_eq!(texts.len(), count, "{expression}");
    }
}

#[test]
fn a_scalar_comes_back_alone_as_its_value() {
    let d = parse(DOC).expect("well-formed");
    for expression in ["count(//book)", "1 div 4", "string(//title)", "2 > 1", "'x'"] {
        let value = query_value(&d, expression, &[]).expect("valid");
        assert_eq!(query_text(&d, expression, &[]).expect("valid"), vec![value]);
        assert_eq!(query_count(&d, expression, &[]).expect("valid"), 0);
    }
}

#[test]
fn query_value_of_a_node_set_is_its_first_node() {
    let d = parse(DOC).expect("well-formed");
    assert_eq!(query_value(&d, "//title", &[]).expect("valid"), "Dune");
    assert_eq!(query_value(&d, "//missing", &[]).expect("valid"), "");
}

#[test]
fn the_size_counts_every_node_and_the_root() {
    let one = parse("<a/>").expect("well-formed");
    let two = parse("<a><b/></a>").expect("well-formed");
    assert!(one.size() >= 2);
    assert_eq!(two.size(), one.size() + 1);
    assert!(parse(DOC).expect("well-formed").size() > 1);
}

#[test]
fn root_name_is_the_local_part() {
    let d = parse(r#"<p:top xmlns:p="urn:p"/>"#).expect("well-formed");
    assert_eq!(root_name(&d).as_deref(), Some("top"));
    assert_eq!(d.root_name().as_deref(), Some("top"));
}

#[test]
fn serialisation_is_a_fixed_point() {
    let d = parse("<a><b></b>  <c x='1'/></a>").expect("well-formed");
    let xml = to_xml(&d);
    assert_eq!(xml, d.to_xml());
    let again = parse(&xml).expect("the output parses");
    assert_eq!(to_xml(&again), xml);
    assert!(xml.contains("<b/>"), "{xml}");
}

#[test]
fn escaping_survives_the_round_trip() {
    let tricky = parse(r#"<a note="x &lt; y">p &amp; q</a>"#).expect("well-formed");
    let out = to_xml(&tricky);
    assert!(out.contains("&amp;"), "{out}");
    assert!(out.contains("&lt;"), "{out}");
    let back = parse(&out).expect("reparses");
    assert_eq!(query_value(&back, "string(//a)", &[]).expect("valid"), "p & q");
}

#[test]
fn the_methods_take_optional_bindings() {
    let d = parse(r#"<r xmlns:m="urn:u"><m:item>ns</m:item><item>plain</item></r>"#)
        .expect("well-formed");
    assert_eq!(d.query_text("//item", None).expect("valid"), ["plain"]);
    let bound = Some(vec![String::from("m=urn:u")]);
    assert_eq!(d.query_text("//m:item", bound.clone()).expect("valid"), ["ns"]);
    assert_eq!(d.query_count("//m:item", bound.clone()).expect("valid"), 1);
    assert_eq!(d.query_value("string(//m:item)", bound).expect("valid"), "ns");
    assert!(d.query_count("//m:item", None).is_err());
    assert!(d.query_value("//[", Some(Vec::new())).is_err());
}

#[test]
fn a_failed_query_leaves_the_document_usable() {
    let d = parse(DOC).expect("well-formed");
    assert!(d.query_text("//[", None).is_err());
    assert_eq!(d.query_text("//title", None).expect("valid").len(), 2);
}

#[test]
fn non_ascii_content_comes_back_whole() {
    let d = parse("<a><b>Germinal 😀 é 中</b></a>").expect("well-formed");
    assert_eq!(d.query_text("//b", None).expect("valid"), ["Germinal 😀 é 中"]);
}

#[test]
fn the_example_document_answers_as_documented() {
    const DOCUMENT: &str = r#"<?xml version="1.0"?>
<catalogue xmlns:m="urn:example:media">
  <book><title>Dune</title><year>1965</year></book>
  <book><title>Solaris</title><year>1961</year></book>
  <m:disc><title>Blade Runner</title></m:disc>
</catalogue>"#;
    assert!(is_well_formed(DOCUMENT));
    assert!(!is_well_formed("<a><b></a>"));
    let doc = parse(DOCUMENT).expect("well-formed");
    assert_eq!(root_name(&doc).as_deref(), Some("catalogue"));
    assert_eq!(query_text(&doc, "//book/title", &[]).expect("valid"), ["Dune", "Solaris"]);
    assert_eq!(query_count(&doc, "//book", &[]).expect("valid"), 2);
    assert_eq!(query_value(&doc, "string(//book[2]/year)", &[]).expect("valid"), "1961");
    let bindings = vec!["m=urn:example:media".to_owned()];
    assert_eq!(query_text(&doc, "//m:disc/title", &bindings).expect("valid"), ["Blade Runner"]);
    assert!(query_text(&doc, "//m:disc", &[]).is_err());
}

#[test]
fn repeating_the_bindings_changes_nothing() {
    let entries = [
        String::from("a=urn:1"),
        String::from("b=urn:2"),
        String::from("a=urn:3"),
    ];
    let twice = [entries.clone(), entries.clone()].concat();
    assert_eq!(parse_bindings(&twice), parse_bindings(&entries));
    let bad = [String::from("a=urn:1"), String::from("oops")];
    let bad_twice = [bad.clone(), bad.clone()].concat();
    assert_eq!(parse_bindings(&bad_twice), parse_bindings(&bad));
}

#[test]
fn a_node_set_value_is_its_first_string_value() {
    let d = parse("<a><b>one</b><b>two</b><!--note--><?pi data?></a>").expect("well-formed");
    let texts = query_text(&d, "//b", &[]).expect("valid");
    assert_eq!(texts, ["one", "two"]);
    assert_eq!(query_value(&d, "//b", &[]).expect("valid"), texts[0]);
    // A comment's and a processing instruction's string-value is their
    // content.
    assert_eq!(query_text(&d, "//comment()", &[]).expect("valid"), ["note"]);
    assert_eq!(query_value(&d, "//comment()", &[]).expect("valid"), "note");
    assert_eq!(query_text(&d, "//processing-instruction()", &[]).expect("valid"), ["data"]);
    assert_eq!(query_text(&d, "/a", &[]).expect("valid"), ["onetwo"]);
}

#[test]
fn the_answer_shapes() {
    assert_eq!(
        texts_or_value(Some(vec![String::from("a"), String::from("b")]), String::from("x")),
        ["a", "b"]
    );
    assert_eq!(texts_or_value(Some(Vec::new()), String::from("x")), Vec::<String>::new());
    assert_eq!(texts_or_value(None, String::from("x")), ["x"]);
    assert_eq!(count_or_zero(Some(3)), 3);
    assert_eq!(count_or_zero(None), 0);
}

#[test]
fn root_name_drops_the_prefix() {
    let d = parse(r#"<m:r xmlns:m="urn:u"/>"#).expect("well-formed");
    assert_eq!(root_name(&d), Some("r".to_owned()));
}
