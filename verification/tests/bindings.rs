use oxml_wasm::bindings::parse_bindings;
use oxml_wasm::logic::{parse, query_count, query_text};

const NS: &str = r#"<r xmlns:m="urn:u"><m:item>ns</m:item><item>plain</item></r>"#;

#[test]
fn a_bound_prefix_selects_only_that_namespace() {
    let doc = parse(NS).expect("well-formed");
    let bound = [String::from("m=urn:u")];
    assert_eq!(
        query_text(&doc, "//m:item", &bound).expect("valid"),
        ["ns"]
    );
}

#[test]
fn only_the_uri_matters_never_the_prefix() {
    let doc = parse(NS).expect("well-formed");
    let bound = [String::from("q=urn:u")];
    assert_eq!(
        query_text(&doc, "//q:item", &bound).expect("valid"),
        ["ns"]
    );
}

#[test]
fn an_unprefixed_name_matches_no_namespace_only() {
    let doc = parse(NS).expect("well-formed");
    assert_eq!(query_text(&doc, "//item", &[]).expect("valid"), ["plain"]);
}

#[test]
fn an_unbound_prefix_is_an_error() {
    let doc = parse(NS).expect("well-formed");
    assert!(query_count(&doc, "//m:item", &[]).is_err());
}

#[test]
fn later_bindings_win() {
    let entries = [String::from("a=urn:one"), String::from("a=urn:two")];
    let got = parse_bindings(&entries).expect("valid");
    assert_eq!(got, vec![("a", "urn:two")]);
}

#[test]
fn a_malformed_binding_is_rejected() {
    for bad in ["bogus", "=urn:u", "xml=urn:u"] {
        let entries = [bad.to_owned()];
        assert!(
            parse_bindings(&entries).is_err(),
            "{bad} should be rejected"
        );
    }
}

#[test]
fn a_uri_may_contain_an_equals_sign() {
    let entries = [String::from("m=urn:u?a=b")];
    let got = parse_bindings(&entries).expect("valid");
    assert_eq!(got[0].1, "urn:u?a=b");
}
