//! Content-type markers selected by the derive attribute `content = "..."`.

use vstd::prelude::*;

verus! {

/// The closed set of content kinds that the `content` attribute may select.
#[derive(Clone, Copy, PartialEq, Eq, Structural, Debug)]
pub enum ContentKind {
    Html,
    Css,
    Js,
}

/// The fixed content-type constant for each kind.
pub open spec fn spec_content_type(kind: ContentKind) -> Seq<char> {
    match kind {
        ContentKind::Html => "text/html"@,
        ContentKind::Css => "text/css"@,
        ContentKind::Js => "text/javascript"@,
    }
}

/// The content-type string for a kind: used both as the overriding
/// `Content-Type` header value and as the content key of the OpenAPI
/// response object.
pub fn content_type_of(kind: ContentKind) -> (r: &'static str)
    ensures
        r@ == spec_content_type(kind),
{
    match kind {
        ContentKind::Html => "text/html",
        ContentKind::Css => "text/css",
        ContentKind::Js => "text/javascript",
    }
}

/// The kind that a `content = "..."` attribute value selects, if any.
pub open spec fn spec_content_kind(s: Seq<char>) -> Option<ContentKind> {
    if s == "html"@ {
        Some(ContentKind::Html)
    } else if s == "css"@ {
        Some(ContentKind::Css)
    } else if s == "js"@ {
        Some(ContentKind::Js)
    } else {
        None
    }
}

/// Map a `content` attribute value to its kind; any value outside the
/// supported set yields `None`, which the derive reports as an error.
pub fn content_kind_of_value(v: &String) -> (r: Option<ContentKind>)
    ensures
        r == spec_content_kind(v@),
{
    proof {
        lemma_content_values_distinct();
    }
    if crate::strutil::str_is(v, "html") {
        Some(ContentKind::Html)
    } else if crate::strutil::str_is(v, "css") {
        Some(ContentKind::Css)
    } else if crate::strutil::str_is(v, "js") {
        Some(ContentKind::Js)
    } else {
        None
    }
}

/// The three supported `content` values are pairwise different.
pub proof fn lemma_content_values_distinct()
    ensures
        "html"@ != "css"@,
        "html"@ != "js"@,
        "css"@ != "js"@,
{
    reveal_strlit("html");
    reveal_strlit("css");
    reveal_strlit("js");
    assert("html"@.len() == 4);
    assert("css"@.len() == 3);
    assert("js"@.len() == 2);
}

/// Every supported `content` value maps to its fixed content-type constant,
/// and every other value maps to nothing: on those the derive fails.
pub proof fn lemma_content_value_mapping()
    ensures
        spec_content_kind("html"@) == Some(ContentKind::Html),
        spec_content_kind("css"@) == Some(ContentKind::Css),
        spec_content_kind("js"@) == Some(ContentKind::Js),
        spec_content_type(ContentKind::Html) == "text/html"@,
        spec_content_type(ContentKind::Css) == "text/css"@,
        spec_content_type(ContentKind::Js) == "text/javascript"@,
        forall|s: Seq<char>|
            s != "html"@ && s != "css"@ && s != "js"@ ==> spec_content_kind(s) == None::<
                ContentKind,
            >,
{
    lemma_content_values_distinct();
}

} // verus!
