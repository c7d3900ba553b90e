use rweb_helper::content_type::ContentKind;
use rweb_helper::html_response::HtmlResponse;
use rweb_helper::json_response::JsonResponse;
use rweb_helper::reply::{patch_reply, Header, HttpResponse};
use rweb_helper::response_attrs::{derive_plan_of, parse_response_attrs, AttrPair};
use rweb_helper::status_code::StatusKind;

fn base_response() -> HttpResponse {
    HttpResponse {
        status: 200,
        headers: vec![Header { name: "content-type".to_string(), value: "text/plain".to_string() }],
        body: b"test".to_vec(),
    }
}

fn header_pairs(resp: &HttpResponse) -> Vec<(String, String)> {
    resp.headers.iter().map(|h| (h.name.clone(), h.value.clone())).collect()
}

#[test]
fn cookies_appear_in_attachment_order() {
    let wrapped = HtmlResponse::new("payload").with_cookie("a=1").with_cookie("b=2");
    let rendered = wrapped.into_response(base_response());
    assert_eq!(rendered.status, 200);
    assert_eq!(rendered.body, b"test".to_vec());
    assert_eq!(
        header_pairs(&rendered),
        vec![
            ("content-type".to_string(), "text/plain".to_string()),
            ("set-cookie".to_string(), "a=1".to_string()),
            ("set-cookie".to_string(), "b=2".to_string()),
        ]
    );
}

#[test]
fn json_wrapper_attaches_cookies_too() {
    let wrapped = JsonResponse::new(41u64).with_cookie("session=abc");
    let (data, cookies) = wrapped.into_parts();
    assert_eq!(data, 41u64);
    assert_eq!(cookies, vec!["session=abc".to_string()]);
}

#[test]
fn invalid_cookie_is_skipped() {
    let wrapped = HtmlResponse::new(()).with_cookie("good=1").with_cookie("bad\nvalue");
    let rendered = wrapped.into_response(base_response());
    assert_eq!(
        header_pairs(&rendered),
        vec![
            ("content-type".to_string(), "text/plain".to_string()),
            ("set-cookie".to_string(), "good=1".to_string()),
        ]
    );
}

#[test]
fn tab_is_a_valid_cookie_character() {
    let wrapped = HtmlResponse::new(()).with_cookie("a\tb");
    let rendered = wrapped.into_response(base_response());
    assert_eq!(rendered.headers.last().unwrap().value, "a\tb");
}

#[test]
fn cookies_follow_existing_set_cookie_headers() {
    let base = HttpResponse {
        status: 200,
        headers: vec![Header { name: "set-cookie".to_string(), value: "old=0".to_string() }],
        body: Vec::new(),
    };
    let rendered = HtmlResponse::new(()).with_cookie("new=1").into_response(base);
    assert_eq!(
        header_pairs(&rendered),
        vec![
            ("set-cookie".to_string(), "old=0".to_string()),
            ("set-cookie".to_string(), "new=1".to_string()),
        ]
    );
}

#[test]
fn no_cookies_leave_headers_alone() {
    let wrapped: HtmlResponse<&str> = HtmlResponse::new("x");
    let rendered = wrapped.into_response(base_response());
    assert_eq!(header_pairs(&rendered), header_pairs(&base_response()));
}

#[test]
fn content_override_replaces_the_header() {
    let pairs = vec![
        AttrPair { key: "content".to_string(), value: "css".to_string() },
        AttrPair { key: "status".to_string(), value: "201".to_string() },
    ];
    let plan = derive_plan_of(&parse_response_attrs(&pairs).unwrap()).unwrap();
    assert_eq!(plan.content, Some(ContentKind::Css));
    assert_eq!(plan.status, Some(StatusKind::Created));
    let patched = patch_reply(base_response(), &plan);
    assert_eq!(patched.status, 201);
    assert_eq!(
        header_pairs(&patched),
        vec![("content-type".to_string(), "text/css".to_string())]
    );
}

#[test]
fn empty_plan_changes_nothing() {
    let plan = derive_plan_of(&parse_response_attrs(&Vec::new()).unwrap()).unwrap();
    let patched = patch_reply(base_response(), &plan);
    assert_eq!(patched.status, 200);
    assert_eq!(header_pairs(&patched), header_pairs(&base_response()));
}
