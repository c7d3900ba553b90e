use rweb_helper::json::{responses_json, schema_json};
use rweb_helper::openapi::{
    patch_responses, ContentEntry, Property, ResponseEntry, ResponseObject, Responses, Schema,
    SchemaType,
};
use rweb_helper::response_attrs::{derive_plan_of, parse_response_attrs, AttrPair};

fn pair(key: &str, value: &str) -> AttrPair {
    AttrPair { key: key.to_string(), value: value.to_string() }
}

fn bare_schema(schema_type: Option<SchemaType>) -> Schema {
    Schema {
        description: String::new(),
        format: String::new(),
        properties: Vec::new(),
        example: None,
        schema_type,
        required: Vec::new(),
    }
}

fn string_entry(content_type: &str) -> ContentEntry {
    ContentEntry {
        content_type: content_type.to_string(),
        schema: bare_schema(Some(SchemaType::StringType)),
    }
}

fn delegate_with(content_type: &str, schema: Schema) -> Responses {
    Responses {
        entries: vec![ResponseEntry {
            code: 200,
            response: ResponseObject {
                description: String::new(),
                content: vec![ContentEntry { content_type: content_type.to_string(), schema }],
            },
        }],
    }
}

#[test]
fn html_route_fragment() {
    // A text payload described under 200/text/plain, with
    // description = "0", content = "html", status = "OK".
    let delegate = delegate_with("text/plain", bare_schema(Some(SchemaType::StringType)));
    let pairs = vec![pair("description", "0"), pair("content", "html"), pair("status", "OK")];
    let plan = derive_plan_of(&parse_response_attrs(&pairs).unwrap()).unwrap();
    let patched = patch_responses(delegate, &plan);
    assert_eq!(
        responses_json(&patched),
        r#"{"200":{"description":"0","content":{"text/html":{"schema":{"type":"string"}}}}}"#
    );
}

#[test]
fn json_route_fragment() {
    // An object payload described under 200/application/json, with
    // description = "json test", status = "CREATED".
    let object_schema = Schema {
        description: String::new(),
        format: String::new(),
        properties: vec![Property {
            name: "field".to_string(),
            format: String::new(),
            schema_type: Some(SchemaType::StringType),
        }],
        example: None,
        schema_type: Some(SchemaType::ObjectType),
        required: vec!["field".to_string()],
    };
    let delegate = delegate_with("application/json", object_schema);
    let pairs = vec![pair("description", "json test"), pair("status", "CREATED")];
    let plan = derive_plan_of(&parse_response_attrs(&pairs).unwrap()).unwrap();
    let patched = patch_responses(delegate, &plan);
    assert_eq!(
        responses_json(&patched),
        r#"{"201":{"description":"json test","content":{"application/json":{"schema":{"properties":{"field":{"type":"string"}},"type":"object","required":["field"]}}}}}"#
    );
}

#[test]
fn status_renames_the_200_key_and_sorts() {
    let delegate = Responses {
        entries: vec![
            ResponseEntry {
                code: 404,
                response: ResponseObject {
                    description: "Not Found".to_string(),
                    content: Vec::new(),
                },
            },
            ResponseEntry {
                code: 200,
                response: ResponseObject {
                    description: "fine".to_string(),
                    content: vec![string_entry("text/plain")],
                },
            },
        ],
    };
    let plan = derive_plan_of(
        &parse_response_attrs(&vec![pair("status", "CREATED")]).unwrap(),
    ).unwrap();
    let patched = patch_responses(delegate, &plan);
    let codes: Vec<u16> = patched.entries.iter().map(|e| e.code).collect();
    assert_eq!(codes, vec![201, 404]);
    assert_eq!(patched.entries[0].response.description, "fine");
}

#[test]
fn without_a_status_the_200_key_stays() {
    let delegate = delegate_with("text/plain", bare_schema(Some(SchemaType::StringType)));
    let plan = derive_plan_of(
        &parse_response_attrs(&vec![pair("description", "kept")]).unwrap(),
    ).unwrap();
    let patched = patch_responses(delegate, &plan);
    let codes: Vec<u16> = patched.entries.iter().map(|e| e.code).collect();
    assert_eq!(codes, vec![200]);
    assert_eq!(patched.entries[0].response.description, "kept");
}

#[test]
fn content_override_without_text_plain_changes_nothing() {
    let delegate = delegate_with("application/json", bare_schema(Some(SchemaType::ObjectType)));
    let plan = derive_plan_of(
        &parse_response_attrs(&vec![pair("content", "js")]).unwrap(),
    ).unwrap();
    let patched = patch_responses(delegate, &plan);
    assert_eq!(patched.entries[0].response.content[0].content_type, "application/json");
}

#[test]
fn responses_render_in_sorted_code_order() {
    let entries = vec![500u16, 201, 404]
        .into_iter()
        .map(|code| ResponseEntry {
            code,
            response: ResponseObject { description: format!("c{}", code), content: Vec::new() },
        })
        .collect();
    let plan = derive_plan_of(&parse_response_attrs(&Vec::new()).unwrap()).unwrap();
    let patched = patch_responses(Responses { entries }, &plan);
    assert_eq!(
        responses_json(&patched),
        r#"{"201":{"description":"c201"},"404":{"description":"c404"},"500":{"description":"c500"}}"#
    );
}

#[test]
fn json_strings_are_escaped() {
    let mut schema = bare_schema(None);
    schema.description = "a\"b\\c\nd\u{1}e".to_string();
    assert_eq!(schema_json(&schema), r#"{"description":"a\"b\\c\nd\u0001e"}"#);
}
