//! A mock request for exercising handlers and middleware in tests.
//!
//! Headers here follow the harness's own historical behaviour: exact,
//! case-sensitive names, and setting a name again replaces its value.

use vstd::prelude::*;
use crate::message::{Method, Scheme};

verus! {

/// First value stored under `key`, by exact match.
pub open spec fn mock_find(hs: Seq<(Seq<char>, Seq<char>)>, key: Seq<char>) -> Option<Seq<char>>
    decreases hs.len()
{
    if hs.len() == 0 {
        None
    } else if hs[0].0 == key {
        Some(hs[0].1)
    } else {
        mock_find(hs.skip(1), key)
    }
}

/// Replace the first entry under `key`, or add one at the end.
pub open spec fn mock_set(hs: Seq<(Seq<char>, Seq<char>)>, key: Seq<char>, value: Seq<char>)
    -> Seq<(Seq<char>, Seq<char>)>
    decreases hs.len()
{
    if hs.len() == 0 {
        seq![(key, value)]
    } else if hs[0].0 == key {
        seq![(key, value)] + hs.skip(1)
    } else {
        seq![hs[0]] + mock_set(hs.skip(1), key, value)
    }
}

/// The char-sequence view of a list of string pairs.
pub open spec fn pairs_view(v: Seq<(String, String)>) -> Seq<(Seq<char>, Seq<char>)> {
    v.map(|i: int, e: (String, String)| (e.0@, e.1@))
}

/// The headers of a mock request: an ordered list with replace-on-set.
pub struct MockHeaders {
    headers: Vec<(String, String)>,
}

impl View for MockHeaders {
    type V = Seq<(Seq<char>, Seq<char>)>;

    closed spec fn view(&self) -> Seq<(Seq<char>, Seq<char>)> {
        pairs_view(self.headers@)
    }
}

impl MockHeaders {
    pub fn new() -> (r: MockHeaders)
        ensures
            r@ == Seq::<(Seq<char>, Seq<char>)>::empty(),
    {
        let r = MockHeaders { headers: Vec::new() };
        proof {
            assert(r@ =~= Seq::<(Seq<char>, Seq<char>)>::empty());
        }
        r
    }

    /// The value under `key`, wrapped in a one-element list as the
    /// harness has always returned it.
    pub fn find(&self, key: &str) -> (r: Option<Vec<String>>)
        ensures
            ({
                let sp = mock_find(self@, key@);
                match r {
                    Some(vs) => sp matches Some(v) && vs@.len() == 1 && vs@[0]@ == v,
                    None => sp is None,
                }
            }),
    {
        let k: String = key.to_owned();
        let n = self.headers.len();
        let mut i: usize = 0;
        proof {
            assert(self@.skip(0) =~= self@);
        }
        while i < n
            invariant
                n == self.headers.len(),
                i <= n,
                k@ == key@,
                mock_find(self@, key@) == mock_find(self@.skip(i as int), key@),
            decreases n - i,
        {
            proof {
                assert(self@.skip(i as int).skip(1) =~= self@.skip(i as int + 1));
                assert(self@.skip(i as int)[0] == self@[i as int]);
            }
            let e = &self.headers[i];
            if e.0 == k {
                let found = e.1.clone();
                let mut vs: Vec<String> = Vec::new();
                vs.push(found);
                return Some(vs);
            }
            i = i + 1;
        }
        proof {
            assert(self@.skip(n as int) =~= Seq::<(Seq<char>, Seq<char>)>::empty());
        }
        None
    }

    /// Whether `key` is present, by exact match.
    pub fn has(&self, key: &str) -> (r: bool)
        ensures
            r == (mock_find(self@, key@) is Some),
    {
        self.find(key).is_some()
    }

    /// The entries, cloned, in stored order.
    pub fn iter(&self) -> (r: Vec<(String, String)>)
        ensures
            pairs_view(r@) == self@,
    {
        let n = self.headers.len();
        let mut out: Vec<(String, String)> = Vec::new();
        let mut i: usize = 0;
        while i < n
            invariant
                n == self.headers.len(),
                i <= n,
                pairs_view(out@) == self@.take(i as int),
            decreases n - i,
        {
            let e = &self.headers[i];
            let item = (e.0.clone(), e.1.clone());
            let ghost pre_out = out@;
            out.push(item);
            i = i + 1;
            proof {
                assert(pairs_view(pre_out).len() == pre_out.len());
                assert(pre_out.len() == i as int - 1);
                assert(out@.len() == i as int);
                assert(self@.len() == n as int);
                assert forall|t: int| 0 <= t < out@.len()
                    implies pairs_view(out@)[t] == self@.take(i as int)[t] by {
                    assert(pairs_view(out@)[t] == (out@[t].0@, out@[t].1@));
                    assert(self@[t] == (self.headers@[t].0@, self.headers@[t].1@));
                    if t < pre_out.len() {
                        assert(pairs_view(pre_out)[t] == (pre_out[t].0@, pre_out[t].1@));
                        assert(pairs_view(pre_out)[t] == self@.take(i as int - 1)[t]);
                        assert(out@[t] == pre_out[t]);
                    } else {
                        assert(out@[t].0@ == self.headers@[t].0@);
                        assert(out@[t].1@ == self.headers@[t].1@);
                    }
                }
                assert(pairs_view(out@) =~= self@.take(i as int));
            }
        }
        proof {
            assert(self@.take(n as int) =~= self@);
        }
        out
    }

    fn set(&mut self, name: String, value: String)
        ensures
            final(self)@ == mock_set(old(self)@, name@, value@),
    {
        let n = self.headers.len();
        let mut i: usize = 0;
        proof {
            assert(self@.skip(0) =~= self@);
            assert(self@.take(0) =~= Seq::<(Seq<char>, Seq<char>)>::empty());
        }
        while i < n
            invariant
                n == self.headers.len(),
                self@ == old(self)@,
                i <= n,
                mock_set(old(self)@, name@, value@)
                    == old(self)@.take(i as int)
                        + mock_set(old(self)@.skip(i as int), name@, value@),
                forall|k: int| 0 <= k < i ==> (#[trigger] old(self)@[k]).0 != name@,
            decreases n - i,
        {
            proof {
                assert(self@.skip(i as int).skip(1) =~= self@.skip(i as int + 1));
                assert(self@.skip(i as int)[0] == self@[i as int]);
            }
            if self.headers[i].0 == name {
                let ghost pre = self@;
                self.headers.set(i, (name, value));
                proof {
                    assert(self@ =~= pre.take(i as int) + seq![(name@, value@)]
                        + pre.skip(i as int + 1));
                    assert(mock_set(pre.skip(i as int), name@, value@)
                        =~= seq![(name@, value@)] + pre.skip(i as int).skip(1));
                    assert(pre.skip(i as int).skip(1) =~= pre.skip(i as int + 1));
                    assert(self@ =~= mock_set(old(self)@, name@, value@));
                }
                return;
            }
            i = i + 1;
            proof {
                assert(old(self)@.take(i as int)
                    =~= old(self)@.take(i as int - 1) + seq![old(self)@[i as int - 1]]);
            }
        }
        proof {
            assert(self@.skip(n as int) =~= Seq::<(Seq<char>, Seq<char>)>::empty());
        }
        let ghost pre = self@;
        self.headers.push((name, value));
        proof {
            assert(self@ =~= pre + seq![(name@, value@)]);
            assert(pre.take(n as int) =~= pre);
        }
    }
}

/// A request built by hand for tests: method, path, optional query
/// string and body, and headers.
pub struct MockRequest {
    path: String,
    method: Method,
    query_string: Option<String>,
    string_body: Option<String>,
    headers: MockHeaders,
}

impl MockRequest {
    /// The request method.
    pub closed spec fn spec_method(&self) -> Method {
        self.method
    }

    /// The request path.
    pub closed spec fn spec_path(&self) -> Seq<char> {
        self.path@
    }

    /// The query string, if one was attached.
    pub closed spec fn spec_query(&self) -> Option<Seq<char>> {
        match self.query_string {
            Some(q) => Some(q@),
            None => None,
        }
    }

    /// The body, if one was attached.
    pub closed spec fn spec_body(&self) -> Option<Seq<char>> {
        match self.string_body {
            Some(b) => Some(b@),
            None => None,
        }
    }

    /// The headers.
    pub closed spec fn spec_headers(&self) -> Seq<(Seq<char>, Seq<char>)> {
        self.headers@
    }

    pub fn new(method: Method, path: &str) -> (r: MockRequest)
        ensures
            r.spec_method() == method,
            r.spec_path() == path@,
            r.spec_query() is None,
            r.spec_body() is None,
            r.spec_headers() == Seq::<(Seq<char>, Seq<char>)>::empty(),
    {
        MockRequest {
            path: path.to_owned(),
            method,
            query_string: None,
            string_body: None,
            headers: MockHeaders::new(),
        }
    }

    /// Attach a query string.
    pub fn with_query(&mut self, string: &str)
        ensures
            final(self).spec_query() == Some(string@),
            final(self).spec_path() == old(self).spec_path(),
            final(self).spec_method() == old(self).spec_method(),
            final(self).spec_body() == old(self).spec_body(),
            final(self).spec_headers() == old(self).spec_headers(),
    {
        self.query_string = Some(string.to_owned());
    }

    /// Attach a body.
    pub fn with_body(&mut self, string: &str)
        ensures
            final(self).spec_body() == Some(string@),
            final(self).spec_path() == old(self).spec_path(),
            final(self).spec_method() == old(self).spec_method(),
            final(self).spec_query() == old(self).spec_query(),
            final(self).spec_headers() == old(self).spec_headers(),
    {
        self.string_body = Some(string.to_owned());
    }

    /// Set a header, replacing any earlier value under the same name.
    pub fn header(&mut self, name: &str, value: &str)
        ensures
            final(self).spec_headers() == mock_set(old(self).spec_headers(), name@, value@),
            final(self).spec_path() == old(self).spec_path(),
            final(self).spec_method() == old(self).spec_method(),
            final(self).spec_query() == old(self).spec_query(),
            final(self).spec_body() == old(self).spec_body(),
    {
        self.headers.set(name.to_owned(), value.to_owned());
    }

    pub fn method(&self) -> (r: Method)
        ensures
            r == self.spec_method(),
    {
        self.method
    }

    pub fn scheme(&self) -> (r: Scheme)
        ensures
            r == Scheme::Http,
    {
        Scheme::Http
    }

    pub fn virtual_root(&self) -> (r: Option<&str>)
        ensures
            r is None,
    {
        None
    }

    pub fn path(&self) -> (r: &str)
        ensures
            r@ == self.spec_path(),
    {
        self.path.as_str()
    }

    pub fn query_string(&self) -> (r: Option<&str>)
        ensures
            match r {
                Some(q) => self.spec_query() == Some(q@),
                None => self.spec_query() is None,
            },
    {
        match &self.query_string {
            Some(s) => Some(s.as_str()),
            None => None,
        }
    }

    /// The byte length of the body, if one was attached.
    pub fn content_length(&self) -> (r: Option<u64>)
        ensures
            match r {
                Some(n) => self.spec_body() matches Some(b)
                    && n == (vstd::utf8::encode_utf8(b).len() as usize) as u64,
                None => self.spec_body() is None,
            },
    {
        match &self.string_body {
            Some(b) => Some(b.as_str().len() as u64),
            None => None,
        }
    }

    pub fn headers(&self) -> (r: &MockHeaders)
        ensures
            r@ == self.spec_headers(),
    {
        &self.headers
    }

    /// The body as text; empty when none was attached.
    pub fn body(&self) -> (r: String)
        ensures
            match self.spec_body() {
                Some(b) => r@ == b,
                None => r@ == Seq::<char>::empty(),
            },
    {
        match &self.string_body {
            Some(b) => b.clone(),
            None => String::new(),
        }
    }
}

} // verus!
