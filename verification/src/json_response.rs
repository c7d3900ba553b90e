//! A wrapper that carries a JSON payload together with cookies to set on
//! the rendered response.

use vstd::prelude::*;

use crate::reply::{append_cookie_headers, spec_cookie_headers, spec_headers_view, HttpResponse};

verus! {

/// A JSON response: a payload and the cookies attached so far. The payload
/// is rendered outside and handed back as the base response; the wrapper
/// then appends one `Set-Cookie` header per valid cookie.
pub struct JsonResponse<T> {
    data: T,
    cookies: Option<Vec<String>>,
}

impl<T> JsonResponse<T> {
    /// The wrapped payload.
    pub closed spec fn spec_data(self) -> T {
        self.data
    }

    /// The cookies attached so far, in order.
    pub closed spec fn spec_cookies(self) -> Seq<String> {
        match self.cookies {
            Some(v) => v@,
            None => Seq::empty(),
        }
    }

    /// Wrap a payload, with no cookies attached.
    pub fn new(data: T) -> (r: Self)
        ensures
            r.spec_data() == data,
            r.spec_cookies() == Seq::<String>::empty(),
    {
        JsonResponse { data, cookies: None }
    }

    /// Attach one more cookie after those already attached.
    pub fn with_cookie(self, cookie: &str) -> (r: Self)
        ensures
            r.spec_data() == self.spec_data(),
            r.spec_cookies().len() == self.spec_cookies().len() + 1,
            r.spec_cookies().drop_last() == self.spec_cookies(),
            r.spec_cookies().last()@ == cookie@,
    {
        let JsonResponse { data, cookies } = self;
        let mut list: Vec<String> = match cookies {
            Some(v) => v,
            None => Vec::new(),
        };
        let ghost before = list@;
        list.push(cookie.to_owned());
        proof {
            assert(list@.drop_last() =~= before);
        }
        JsonResponse { data, cookies: Some(list) }
    }

    /// Hand out the payload and the cookie list, for the caller that renders
    /// the payload.
    pub fn into_parts(self) -> (p: (T, Vec<String>))
        ensures
            p.0 == self.spec_data(),
            p.1@ == self.spec_cookies(),
    {
        let JsonResponse { data, cookies } = self;
        let list: Vec<String> = match cookies {
            Some(v) => v,
            None => Vec::new(),
        };
        (data, list)
    }

    /// Turn the wrapper into a response: take the rendered base response and
    /// append one `Set-Cookie` header per valid attached cookie, in order.
    pub fn into_response(self, rendered: HttpResponse) -> (r: HttpResponse)
        ensures
            r.status == rendered.status,
            r.body@ == rendered.body@,
            spec_headers_view(r.headers@) == spec_headers_view(rendered.headers@)
                + spec_cookie_headers(self.spec_cookies()),
    {
        let (_, list) = self.into_parts();
        append_cookie_headers(rendered, &list)
    }
}

} // verus!
