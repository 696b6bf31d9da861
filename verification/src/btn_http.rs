//! Requests to and replies of a BTN server.

use vstd::prelude::*;
use crate::text::{ascii_lower_of, chars_of, eq_ignore_ascii_case, text_le};
use crate::textmap::TextMap;

verus! {

/// The method of a request.
#[derive(Clone, Copy, PartialEq, Eq, Structural, Debug)]
pub enum BtnHttpMethod {
    Get,
    Post,
}

impl Default for BtnHttpMethod {
    fn default() -> (v: Self)
        ensures
            v == BtnHttpMethod::Get,
    {
        BtnHttpMethod::Get
    }
}

/// A request; a body is compressed already where it is to be.
#[derive(Debug, PartialEq, Eq)]
pub struct BtnHttpRequest {
    pub url: String,
    pub method: BtnHttpMethod,
    pub headers: Vec<(String, String)>,
    pub body: Option<Vec<u8>>,
}

/// A request as a value.
pub ghost struct RequestView {
    pub url: Seq<char>,
    pub method: BtnHttpMethod,
    pub headers: Seq<(Seq<char>, Seq<char>)>,
    pub body: Option<Seq<u8>>,
}

impl BtnHttpRequest {
    /// The request as a value.
    pub open spec fn view(&self) -> RequestView {
        RequestView {
            url: self.url@,
            method: self.method,
            headers: Seq::new(
                self.headers@.len(),
                |i: int| (self.headers@[i].0@, self.headers@[i].1@),
            ),
            body: match self.body {
                Some(b) => Some(b@),
                None => None,
            },
        }
    }

    /// A request for a document.
    pub fn get(url: &str) -> (r: Self)
        ensures
            r@ == (RequestView {
                url: url@,
                method: BtnHttpMethod::Get,
                headers: Seq::empty(),
                body: None,
            }),
    {
        let r = BtnHttpRequest {
            url: url.to_string(),
            method: BtnHttpMethod::Get,
            headers: Vec::new(),
            body: None,
        };
        assert(r@.headers =~= Seq::empty());
        r
    }

    /// A request that sends a body.
    pub fn post(url: &str, body: Vec<u8>) -> (r: Self)
        ensures
            r@ == (RequestView {
                url: url@,
                method: BtnHttpMethod::Post,
                headers: Seq::empty(),
                body: Some(body@),
            }),
    {
        let r = BtnHttpRequest {
            url: url.to_string(),
            method: BtnHttpMethod::Post,
            headers: Vec::new(),
            body: Some(body),
        };
        assert(r@.headers =~= Seq::empty());
        r
    }

    /// The request with one more header.
    pub fn header(self, name: &str, value: &str) -> (r: Self)
        ensures
            r@ == (RequestView { headers: self@.headers.push((name@, value@)), ..self@ }),
    {
        let mut headers = self.headers;
        headers.push((name.to_string(), value.to_string()));
        let r = BtnHttpRequest { url: self.url, method: self.method, headers, body: self.body };
        assert(r@.headers =~= self@.headers.push((name@, value@)));
        r
    }
}

/// A reply.
#[derive(Debug)]
pub struct BtnHttpResponse {
    pub status: u16,
    pub body: String,
    pub headers: TextMap<String>,
}

impl Default for BtnHttpResponse {
    fn default() -> (v: Self)
        ensures
            v.status == 0,
            v.body@.len() == 0,
            v.headers@ == Map::<Seq<char>, String>::empty(),
    {
        BtnHttpResponse {
            status: 0,
            body: String::new(),
            headers: TextMap::new(),
        }
    }
}

/// Whether a header's name is the given one; case does not matter.
pub open spec fn same_header(a: Seq<char>, b: Seq<char>) -> bool {
    ascii_lower_of(a) == ascii_lower_of(b)
}

impl BtnHttpResponse {
    /// A reply without headers.
    pub fn new(status: u16, body: &str) -> (r: Self)
        ensures
            r.status == status,
            r.body@ == body@,
            r.headers@ == Map::<Seq<char>, String>::empty(),
    {
        BtnHttpResponse { status, body: body.to_string(), headers: TextMap::new() }
    }

    /// Whether the status is one of success.
    pub open spec fn successful(self) -> bool {
        200 <= self.status < 300
    }

    /// Whether the status is one of success.
    pub fn is_successful(&self) -> (yes: bool)
        ensures
            yes == self.successful(),
    {
        self.status >= 200 && self.status < 300
    }

    /// Whether the reply says that nothing changed.
    pub fn is_no_content(&self) -> (yes: bool)
        ensures
            yes == (self.status == 204),
    {
        self.status == 204
    }

    /// The value of a header, whatever the case of its name; of several that differ in case alone,
    /// the one that comes first in dictionary order.
    pub fn header(&self, name: &str) -> (r: Option<&String>)
        ensures
            match r {
                Some(value) => exists|key: Seq<char>|
                    {
                        &&& #[trigger] self.headers@.contains_key(key)
                        &&& same_header(key, name@)
                        &&& *value == self.headers@[key]
                        &&& forall|other: Seq<char>| #[trigger]
                            self.headers@.contains_key(other) && same_header(other, name@)
                                ==> text_le(key, other)
                    },
                None => forall|key: Seq<char>| #[trigger]
                    self.headers@.contains_key(key) ==> !same_header(key, name@),
            },
    {
        let wanted = chars_of(name);
        let keys = self.headers.keys_sorted();
        let mut i: usize = 0;
        while i < keys.len()
            invariant
                i <= keys.len(),
                wanted@ == name@,
                forall|k: int|
                    0 <= k < keys.len() ==> self.headers@.contains_key((#[trigger] keys@[k])@),
                forall|a: int, b: int|
                    0 <= a < b < keys.len() ==> text_le(
                        (#[trigger] keys@[a])@,
                        (#[trigger] keys@[b])@,
                    ),
                forall|key: Seq<char>| #[trigger]
                    self.headers@.contains_key(key) ==> exists|k: int|
                        0 <= k < keys.len() && (#[trigger] keys@[k])@ == key,
                forall|k: int| 0 <= k < i ==> !same_header((#[trigger] keys@[k])@, name@),
            decreases keys.len() - i,
        {
            let key = chars_of(keys[i].as_str());
            if eq_ignore_ascii_case(key.as_slice(), wanted.as_slice()) {
                proof {
                    let k0 = keys@[i as int]@;
                    assert(self.headers@.contains_key(k0));
                    assert forall|other: Seq<char>| #[trigger]
                        self.headers@.contains_key(other) && same_header(
                            other,
                            name@,
                        ) implies text_le(k0, other) by {
                        let k = choose|k: int|
                            0 <= k < keys.len() && (#[trigger] keys@[k])@ == other;
                        if k < i {
                            assert(!same_header(keys@[k]@, name@));
                        } else if k == i {
                            crate::text::text_order_is_total(k0, k0, k0);
                        } else {
                            assert(text_le(keys@[i as int]@, keys@[k]@));
                        }
                    }
                }
                return self.headers.get(keys[i].as_str());
            }
            i += 1;
        }
        proof {
            assert forall|key: Seq<char>| #[trigger]
                self.headers@.contains_key(key) implies !same_header(key, name@) by {
                let k = choose|k: int| 0 <= k < keys.len() && (#[trigger] keys@[k])@ == key;
                assert(!same_header(keys@[k]@, name@));
            }
        }
        None
    }
}

/// Whatever sends requests and waits for their replies. An error tells why no reply came.
pub trait BtnHttpClient {
    /// Whether a reply may come to a request: any, where nothing else is said.
    open spec fn answers(
        &self,
        request: RequestView,
        reply: Result<BtnHttpResponse, String>,
    ) -> bool {
        true
    }

    /// Sends a request and gives the reply.
    fn execute(&self, request: BtnHttpRequest) -> (r: Result<BtnHttpResponse, String>)
        ensures
            self.answers(request@, r),
    ;
}

/// Sends requests with a function.
pub struct ClosureHttpClient<F: Fn(&BtnHttpRequest) -> Result<BtnHttpResponse, String>> {
    f: F,
}

impl<F: Fn(&BtnHttpRequest) -> Result<BtnHttpResponse, String>> ClosureHttpClient<F> {
    #[verifier::type_invariant]
    spec fn inv(&self) -> bool {
        forall|r: &BtnHttpRequest| self.f.requires((r,))
    }

    /// The function.
    pub closed spec fn function(&self) -> F {
        self.f
    }

    /// Sends requests with the function.
    pub fn new(f: F) -> (c: Self)
        requires
            forall|r: &BtnHttpRequest| f.requires((r,)),
        ensures
            c.function() == f,
    {
        ClosureHttpClient { f }
    }
}

impl<F: Fn(&BtnHttpRequest) -> Result<BtnHttpResponse, String>> BtnHttpClient for ClosureHttpClient<F> {
    open spec fn answers(
        &self,
        request: RequestView,
        reply: Result<BtnHttpResponse, String>,
    ) -> bool {
        exists|r: BtnHttpRequest|
            r@ == request && #[trigger] self.function().ensures((&r,), reply)
    }

    fn execute(&self, request: BtnHttpRequest) -> (r: Result<BtnHttpResponse, String>) {
        proof {
            use_type_invariant(self);
        }
        let r = (self.f)(&request);
        assert(self.function().ensures((&request,), r));
        r
    }
}

} // verus!
