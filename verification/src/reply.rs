//! A plain model of an HTTP response — status code, header list, body — and
//! the header edits that the response wrappers and the generated code make.

use vstd::prelude::*;

use crate::content_type::{content_type_of, spec_content_type, ContentKind};
use crate::response_attrs::DerivePlan;
use crate::status_code::{spec_status_code, status_code_of, StatusKind};
use crate::strutil::str_is;

verus! {

/// One response header: a lower-case name and its value.
#[derive(Clone, Debug)]
pub struct Header {
    pub name: String,
    pub value: String,
}

/// The mathematical face of a header: its name and value as character
/// sequences.
pub ghost struct HeaderV {
    pub name: Seq<char>,
    pub value: Seq<char>,
}

impl View for Header {
    type V = HeaderV;

    open spec fn view(&self) -> HeaderV {
        HeaderV { name: self.name@, value: self.value@ }
    }
}

/// An HTTP response, reduced to what the wrappers read and edit. The body
/// bytes are carried through untouched.
#[derive(Clone, Debug)]
pub struct HttpResponse {
    pub status: u16,
    pub headers: Vec<Header>,
    pub body: Vec<u8>,
}

/// The views of a header sequence, in order.
pub open spec fn spec_headers_view(headers: Seq<Header>) -> Seq<HeaderV>
    decreases headers.len(),
{
    if headers.len() == 0 {
        Seq::empty()
    } else {
        spec_headers_view(headers.drop_last()).push(headers.last()@)
    }
}

/// A character that a header value may hold: horizontal tab, or a visible
/// character that is not delete. A value with any other character is refused
/// when it is turned into a real header, and the wrapper skips it.
pub open spec fn spec_valid_header_char(c: char) -> bool {
    c == '\t' || (32 <= c as int && c as int != 127)
}

/// A string that can stand as a header value.
pub open spec fn spec_valid_header_value(s: Seq<char>) -> bool {
    forall|i: int| 0 <= i < s.len() ==> spec_valid_header_char(#[trigger] s[i])
}

/// Check a cookie string for header-value validity.
pub fn is_valid_header_value(s: &String) -> (r: bool)
    ensures
        r == spec_valid_header_value(s@),
{
    let sl: &str = s.as_str();
    let n: usize = sl.unicode_len();
    let mut i: usize = 0;
    while i < n
        invariant
            i <= n,
            n == sl@.len(),
            sl@ == s@,
            forall|l: int| 0 <= l < i ==> spec_valid_header_char(#[trigger] s@[l]),
        decreases n - i,
    {
        let c = sl.get_char(i);
        let code: u32 = c as u32;
        if !(code == 9 || (32 <= code && code != 127)) {
            return false;
        }
        i += 1;
    }
    true
}

/// The values of the headers with the given name, in order.
pub open spec fn spec_values_of(headers: Seq<HeaderV>, name: Seq<char>) -> Seq<Seq<char>>
    decreases headers.len(),
{
    if headers.len() == 0 {
        Seq::empty()
    } else if headers.last().name == name {
        spec_values_of(headers.drop_last(), name).push(headers.last().value)
    } else {
        spec_values_of(headers.drop_last(), name)
    }
}

/// The `Set-Cookie` headers that a cookie list yields: one header per valid
/// cookie, its value the cookie unchanged, in the order the cookies were
/// attached; an invalid one is skipped.
pub open spec fn spec_cookie_headers(cookies: Seq<String>) -> Seq<HeaderV>
    decreases cookies.len(),
{
    if cookies.len() == 0 {
        Seq::empty()
    } else if spec_valid_header_value(cookies.last()@) {
        spec_cookie_headers(cookies.drop_last()).push(
            HeaderV { name: "set-cookie"@, value: cookies.last()@ },
        )
    } else {
        spec_cookie_headers(cookies.drop_last())
    }
}

/// The values of the valid cookies of a list, in order.
pub open spec fn spec_cookie_values(cookies: Seq<String>) -> Seq<Seq<char>>
    decreases cookies.len(),
{
    if cookies.len() == 0 {
        Seq::empty()
    } else if spec_valid_header_value(cookies.last()@) {
        spec_cookie_values(cookies.drop_last()).push(cookies.last()@)
    } else {
        spec_cookie_values(cookies.drop_last())
    }
}

/// Law: the cookies attached to a wrapper appear, character for character and
/// in attachment order, as the `Set-Cookie` header values of the rendered
/// response, after those that the base response already had; a cookie that
/// cannot stand as a header value is skipped.
pub proof fn lemma_cookie_values_appear(base: Seq<HeaderV>, cookies: Seq<String>)
    ensures
        spec_values_of(base + spec_cookie_headers(cookies), "set-cookie"@) == spec_values_of(
            base,
            "set-cookie"@,
        ) + spec_cookie_values(cookies),
    decreases cookies.len(),
{
    if cookies.len() == 0 {
        assert(base + spec_cookie_headers(cookies) =~= base);
        assert(spec_values_of(base, "set-cookie"@) + spec_cookie_values(cookies)
            =~= spec_values_of(base, "set-cookie"@));
    } else {
        let rest = cookies.drop_last();
        lemma_cookie_values_appear(base, rest);
        if spec_valid_header_value(cookies.last()@) {
            let h = HeaderV { name: "set-cookie"@, value: cookies.last()@ };
            assert(base + spec_cookie_headers(cookies) =~= (base + spec_cookie_headers(
                rest,
            )).push(h));
            assert((base + spec_cookie_headers(rest)).push(h).drop_last() =~= base
                + spec_cookie_headers(rest));
            assert(spec_values_of(base, "set-cookie"@) + spec_cookie_values(cookies)
                =~= (spec_values_of(base, "set-cookie"@) + spec_cookie_values(rest)).push(
                cookies.last()@,
            ));
        } else {
            assert(base + spec_cookie_headers(cookies) =~= base + spec_cookie_headers(rest));
            assert(spec_values_of(base, "set-cookie"@) + spec_cookie_values(cookies)
                =~= spec_values_of(base, "set-cookie"@) + spec_cookie_values(rest));
        }
    }
}

/// Law: when every attached cookie is a valid header value, the rendered
/// `Set-Cookie` values are exactly the attached cookies, byte for byte and in
/// order: none is dropped, reordered or changed.
pub proof fn lemma_valid_cookies_kept(cookies: Seq<String>)
    requires
        forall|i: int| 0 <= i < cookies.len() ==> spec_valid_header_value(#[trigger] cookies[i]@),
    ensures
        spec_cookie_values(cookies) =~= Seq::new(cookies.len(), |i: int| cookies[i]@),
    decreases cookies.len(),
{
    if cookies.len() > 0 {
        let rest = cookies.drop_last();
        assert(forall|i: int|
            0 <= i < rest.len() ==> spec_valid_header_value(#[trigger] rest[i]@));
        lemma_valid_cookies_kept(rest);
        assert(spec_valid_header_value(cookies.last()@));
    }
}

/// The headers that are not content-type headers, in order.
pub open spec fn spec_strip_content_type(headers: Seq<HeaderV>) -> Seq<HeaderV>
    decreases headers.len(),
{
    if headers.len() == 0 {
        Seq::empty()
    } else if headers.last().name == "content-type"@ {
        spec_strip_content_type(headers.drop_last())
    } else {
        spec_strip_content_type(headers.drop_last()).push(headers.last())
    }
}

/// Copy a header, keeping its name and value.
fn clone_header(h: &Header) -> (r: Header)
    ensures
        r@ == h@,
{
    Header { name: h.name.clone(), value: h.value.clone() }
}

/// Append one `Set-Cookie` header for each valid cookie, in order. This is
/// the render step that both response wrappers share: every valid cookie
/// value appears unchanged as a `Set-Cookie` header value.
pub fn append_cookie_headers(resp: HttpResponse, cookies: &Vec<String>) -> (r: HttpResponse)
    ensures
        r.status == resp.status,
        r.body@ == resp.body@,
        spec_headers_view(r.headers@) == spec_headers_view(resp.headers@) + spec_cookie_headers(
            cookies@,
        ),
{
    let ghost base = spec_headers_view(resp.headers@);
    let mut out = resp;
    let mut i: usize = 0;
    while i < cookies.len()
        invariant
            i <= cookies@.len(),
            out.status == resp.status,
            out.body@ == resp.body@,
            base == spec_headers_view(resp.headers@),
            spec_headers_view(out.headers@) == base + spec_cookie_headers(cookies@.take(i as int)),
        decreases cookies@.len() - i,
    {
        let c = &cookies[i];
        proof {
            assert(cookies@.take(i as int + 1).drop_last() =~= cookies@.take(i as int));
            assert(cookies@.take(i as int + 1).last() == cookies@[i as int]);
        }
        if is_valid_header_value(c) {
            let ghost before = out.headers@;
            let h = Header { name: "set-cookie".to_owned(), value: c.clone() };
            out.headers.push(h);
            proof {
                assert(out.headers@.drop_last() =~= before);
                assert(spec_headers_view(out.headers@) == spec_headers_view(before).push(
                    out.headers@.last()@,
                ));
                assert(spec_headers_view(out.headers@) =~= base + spec_cookie_headers(
                    cookies@.take(i as int + 1),
                ));
            }
        }
        i += 1;
    }
    proof {
        assert(cookies@.take(cookies@.len() as int) =~= cookies@);
    }
    out
}

/// Replace the content-type header: every header of that name goes, and one
/// with the kind's constant value stands at the end. This is what the
/// generated reply code does for a `content` attribute.
pub fn set_content_type(resp: HttpResponse, kind: ContentKind) -> (r: HttpResponse)
    ensures
        r.status == resp.status,
        r.body@ == resp.body@,
        spec_headers_view(r.headers@) == spec_strip_content_type(
            spec_headers_view(resp.headers@),
        ).push(HeaderV { name: "content-type"@, value: spec_content_type(kind) }),
{
    let ghost full = spec_headers_view(resp.headers@);
    let mut kept: Vec<Header> = Vec::new();
    let n = resp.headers.len();
    let mut i: usize = 0;
    while i < n
        invariant
            i <= n,
            n == resp.headers@.len(),
            full == spec_headers_view(resp.headers@),
            spec_headers_view(kept@) == spec_strip_content_type(
                spec_headers_view(resp.headers@.take(i as int)),
            ),
        decreases n - i,
    {
        let h = &resp.headers[i];
        proof {
            assert(resp.headers@.take(i as int + 1).drop_last() =~= resp.headers@.take(i as int));
            assert(resp.headers@.take(i as int + 1).last() == resp.headers@[i as int]);
            assert(spec_headers_view(resp.headers@.take(i as int + 1)) == spec_headers_view(
                resp.headers@.take(i as int),
            ).push(resp.headers@[i as int]@));
            assert(spec_headers_view(resp.headers@.take(i as int + 1)).drop_last()
                =~= spec_headers_view(resp.headers@.take(i as int)));
            assert(spec_headers_view(resp.headers@.take(i as int + 1)).last()
                == resp.headers@[i as int]@);
        }
        let ghost kept_before = kept@;
        if !str_is(&h.name, "content-type") {
            kept.push(clone_header(h));
            proof {
                assert(kept@.drop_last() =~= kept_before);
                assert(spec_headers_view(kept@) == spec_headers_view(kept_before).push(
                    kept@.last()@,
                ));
                assert(kept@.last()@ == resp.headers@[i as int]@);
            }
        }
        proof {
            assert(spec_headers_view(kept@) == spec_strip_content_type(
                spec_headers_view(resp.headers@.take(i as int + 1)),
            ));
        }
        i += 1;
    }
    proof {
        assert(resp.headers@.take(n as int) =~= resp.headers@);
    }
    let ghost kept_stripped = kept@;
    let value: String = content_type_of(kind).to_owned();
    kept.push(Header { name: "content-type".to_owned(), value });
    proof {
        assert(kept@.drop_last() =~= kept_stripped);
    }
    HttpResponse { status: resp.status, headers: kept, body: resp.body }
}

/// Set the status code to the kind's constant, leaving the rest alone. This
/// is what the generated reply code does for a `status` attribute.
pub fn set_status(resp: HttpResponse, kind: StatusKind) -> (r: HttpResponse)
    ensures
        r.status == spec_status_code(kind),
        r.headers@ == resp.headers@,
        r.body@ == resp.body@,
{
    HttpResponse { status: status_code_of(kind), headers: resp.headers, body: resp.body }
}

/// Apply a plan's reply-side overrides: the content-type header when the
/// `content` attribute is present, then the status code when the `status`
/// attribute is present; with neither, the response is returned unchanged.
pub fn patch_reply(resp: HttpResponse, plan: &DerivePlan) -> (r: HttpResponse)
    ensures
        plan.status matches Some(st) ==> r.status == spec_status_code(st),
        plan.status is None ==> r.status == resp.status,
        r.body@ == resp.body@,
        plan.content is None ==> r.headers@ == resp.headers@,
        plan.content matches Some(k) ==> spec_headers_view(r.headers@) == spec_strip_content_type(
            spec_headers_view(resp.headers@),
        ).push(HeaderV { name: "content-type"@, value: spec_content_type(k) }),
{
    let step1 = match plan.content {
        Some(k) => set_content_type(resp, k),
        None => resp,
    };
    match plan.status {
        Some(st) => set_status(step1, st),
        None => step1,
    }
}

} // verus!
