use rweb_helper::content_type::{content_kind_of_value, content_type_of, ContentKind};
use rweb_helper::response_attrs::{derive_plan_of, parse_response_attrs, AttrPair, MacroError};
use rweb_helper::status_code::{status_code_of, status_kind_of_value, StatusKind};

fn pair(key: &str, value: &str) -> AttrPair {
    AttrPair { key: key.to_string(), value: value.to_string() }
}

#[test]
fn it_works() {
    assert_eq!(2 + 2, 4);
}

#[test]
fn parses_all_known_keys() {
    let pairs = vec![
        pair("description", "json test"),
        pair("content", "html"),
        pair("status", "CREATED"),
        pair("error", "MyError"),
    ];
    let attrs = parse_response_attrs(&pairs).unwrap();
    assert_eq!(attrs.description.as_deref(), Some("json test"));
    assert_eq!(attrs.content.as_deref(), Some("html"));
    assert_eq!(attrs.status.as_deref(), Some("CREATED"));
    assert_eq!(attrs.error.as_deref(), Some("MyError"));
}

#[test]
fn absent_keys_stay_empty() {
    let pairs = vec![pair("description", "0")];
    let attrs = parse_response_attrs(&pairs).unwrap();
    assert_eq!(attrs.description.as_deref(), Some("0"));
    assert!(attrs.content.is_none());
    assert!(attrs.status.is_none());
    assert!(attrs.error.is_none());
}

#[test]
fn later_pair_overwrites_earlier() {
    let pairs = vec![pair("description", "first"), pair("description", "second")];
    let attrs = parse_response_attrs(&pairs).unwrap();
    assert_eq!(attrs.description.as_deref(), Some("second"));
}

#[test]
fn unknown_key_is_an_error() {
    let pairs = vec![pair("description", "0"), pair("colour", "red"), pair("shape", "round")];
    let err = parse_response_attrs(&pairs).unwrap_err();
    assert_eq!(err, MacroError::UnknownKey("colour".to_string()));
}

#[test]
fn content_values_map_to_their_constants() {
    assert_eq!(content_kind_of_value(&"html".to_string()), Some(ContentKind::Html));
    assert_eq!(content_kind_of_value(&"css".to_string()), Some(ContentKind::Css));
    assert_eq!(content_kind_of_value(&"js".to_string()), Some(ContentKind::Js));
    assert_eq!(content_kind_of_value(&"xml".to_string()), None);
    assert_eq!(content_type_of(ContentKind::Html), "text/html");
    assert_eq!(content_type_of(ContentKind::Css), "text/css");
    assert_eq!(content_type_of(ContentKind::Js), "text/javascript");
}

#[test]
fn status_values_map_to_their_codes() {
    assert_eq!(status_kind_of_value(&"OK".to_string()), Some(StatusKind::Okay));
    assert_eq!(status_kind_of_value(&"200".to_string()), Some(StatusKind::Okay));
    assert_eq!(status_kind_of_value(&"CREATED".to_string()), Some(StatusKind::Created));
    assert_eq!(status_kind_of_value(&"201".to_string()), Some(StatusKind::Created));
    assert_eq!(status_kind_of_value(&"TEAPOT".to_string()), None);
    assert_eq!(status_code_of(StatusKind::Okay), 200);
    assert_eq!(status_code_of(StatusKind::Created), 201);
}

#[test]
fn unsupported_content_value_fails_the_derive() {
    let pairs = vec![pair("content", "xml")];
    let attrs = parse_response_attrs(&pairs).unwrap();
    let err = derive_plan_of(&attrs).unwrap_err();
    assert_eq!(err, MacroError::UnknownContent("xml".to_string()));
}

#[test]
fn unsupported_status_value_is_ignored() {
    let pairs = vec![pair("status", "TEAPOT")];
    let attrs = parse_response_attrs(&pairs).unwrap();
    let plan = derive_plan_of(&attrs).unwrap();
    assert!(plan.status.is_none());
}

#[test]
fn plan_resolves_content_and_status() {
    let pairs = vec![pair("description", "0"), pair("content", "html"), pair("status", "OK")];
    let attrs = parse_response_attrs(&pairs).unwrap();
    let plan = derive_plan_of(&attrs).unwrap();
    assert_eq!(plan.description.as_deref(), Some("0"));
    assert_eq!(plan.content, Some(ContentKind::Html));
    assert_eq!(plan.status, Some(StatusKind::Okay));
    assert!(plan.error.is_none());
}
