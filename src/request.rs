//! An HTTP/1.1 request: method, target, headers and body, and its wire form.
use vstd::prelude::*;
use vstd::utf8::encode_utf8;

use crate::address::Url;
use crate::error::HttpError;
use crate::headers::{header_line, header_lines, lemma_entry_of_name, lemma_line_of_entry, Headers};
use crate::method::Method;
use crate::text::{
    ascii_upper, chars_of, crlf, decimal, push_ascii_upper, push_crlf, push_range, push_text,
    push_decimal,
};

verus! {

/// `Host`.
pub open spec fn host_key() -> Seq<char> {
    seq!['H', 'o', 's', 't']
}

/// `Accept`.
pub open spec fn accept_key() -> Seq<char> {
    seq!['A', 'c', 'c', 'e', 'p', 't']
}

/// `*/*`.
pub open spec fn accept_any() -> Seq<char> {
    seq!['*', '/', '*']
}

/// `Connection`.
pub open spec fn connection_key() -> Seq<char> {
    seq!['C', 'o', 'n', 'n', 'e', 'c', 't', 'i', 'o', 'n']
}

/// `close`.
pub open spec fn close_value() -> Seq<char> {
    seq!['c', 'l', 'o', 's', 'e']
}

/// The headers that a fresh request holds for `host`.
pub open spec fn default_headers(host: Seq<char>) -> Map<Seq<char>, Seq<char>> {
    Map::empty().insert(host_key(), host).insert(accept_key(), accept_any()).insert(
        connection_key(),
        close_value(),
    )
}

/// A fresh request holds exactly the names Host, Accept and Connection.
pub proof fn lemma_default_names(host: Seq<char>)
    ensures
        default_headers(host).dom() == set![host_key(), accept_key(), connection_key()],
        default_headers(host)[host_key()] == host,
        default_headers(host)[accept_key()] == accept_any(),
        default_headers(host)[connection_key()] == close_value(),
{
    assert(host_key() != accept_key());
    assert(host_key() != connection_key());
    assert(accept_key() != connection_key());
    assert(default_headers(host).dom() =~= set![host_key(), accept_key(), connection_key()]);
}

/// `i` is the position of the first colon of `s`.
pub open spec fn is_first_colon(s: Seq<char>, i: int) -> bool {
    0 <= i < s.len() && s[i] == ':' && forall|j: int| 0 <= j < i ==> s[j] != ':'
}

/// `s` without its trailing semicolons.
pub open spec fn strip_semicolons(s: Seq<char>) -> Seq<char>
    decreases s.len(),
{
    if s.len() > 0 && s.last() == ';' {
        strip_semicolons(s.drop_last())
    } else {
        s
    }
}

/// The text after a colon, without the one space that customarily follows it.
pub open spec fn value_after_colon(r: Seq<char>) -> Seq<char> {
    if r.len() > 0 && r[0] == ' ' {
        r.drop_first()
    } else {
        r
    }
}

/// The (name, value) that a command-line header specification stands for:
/// `"Name: Value"` split at its first colon, or `"Name;"` for an empty value;
/// nothing for any other form.
pub open spec fn header_spec(s: Seq<char>) -> Option<(Seq<char>, Seq<char>)> {
    if exists|i: int| is_first_colon(s, i) {
        let i = choose|i: int| is_first_colon(s, i);
        Some((s.take(i), value_after_colon(s.skip(i + 1))))
    } else if s.len() > 0 && s.last() == ';' {
        Some((strip_semicolons(s), Seq::empty()))
    } else {
        None
    }
}

/// The request line: verb, path and upper-cased scheme with the protocol version.
pub open spec fn request_line(verb: Seq<char>, path: Seq<char>, scheme: Seq<char>) -> Seq<char> {
    verb + seq![' '] + path + seq![' '] + ascii_upper(scheme) + seq!['/', '1', '.', '1'] + crlf()
}

/// `Content-Length: `.
pub open spec fn content_length_prefix() -> Seq<char> {
    seq![
        'C', 'o', 'n', 't', 'e', 'n', 't', '-', 'L', 'e', 'n', 'g', 't', 'h', ':', ' ',
    ]
}

/// The number of bytes of the UTF-8 encoding of `s`, as a machine size.
pub open spec fn byte_len(s: Seq<char>) -> nat {
    (encode_utf8(s).len() as usize) as nat
}

/// The whole request as sent: request line, header lines, a Content-Length
/// line for a non-empty body, one blank line, then the body and a line end.
pub open spec fn wire_form(
    verb: Seq<char>,
    path: Seq<char>,
    scheme: Seq<char>,
    headers: Seq<(Seq<char>, Seq<char>)>,
    body: Seq<char>,
) -> Seq<char> {
    if body.len() == 0 {
        request_line(verb, path, scheme) + header_lines(headers) + crlf()
    } else {
        request_line(verb, path, scheme) + header_lines(headers) + content_length_prefix()
            + decimal(byte_len(body)) + crlf() + crlf() + body + crlf()
    }
}

/// A request under construction.
#[derive(Debug)]
pub struct HttpRequest {
    method: Method,
    scheme: String,
    host: String,
    path: String,
    headers: Headers,
    body: String,
}

impl HttpRequest {
    /// The verb of the request line.
    pub closed spec fn verb(&self) -> Seq<char> {
        self.method.text()
    }

    /// The scheme of the URL the request was built from.
    pub closed spec fn scheme_view(&self) -> Seq<char> {
        self.scheme@
    }

    /// The host of the URL the request was built from.
    pub closed spec fn host_view(&self) -> Seq<char> {
        self.host@
    }

    /// The path of the URL the request was built from.
    pub closed spec fn path_view(&self) -> Seq<char> {
        self.path@
    }

    /// The header set.
    pub closed spec fn header_set(&self) -> Headers {
        self.headers
    }

    /// The body accumulated so far.
    pub closed spec fn body_view(&self) -> Seq<char> {
        self.body@
    }

    /// The host is not empty and the header names are unique.
    pub open spec fn wf(&self) -> bool {
        self.host_view().len() > 0 && self.header_set().wf()
    }

    /// The text that `serialize` produces.
    pub open spec fn wire(&self) -> Seq<char> {
        wire_form(
            self.verb(),
            self.path_view(),
            self.scheme_view(),
            self.header_set().entries(),
            self.body_view(),
        )
    }

    /// Builds a request for `url`, with the default headers Host, Accept and
    /// Connection and an empty body; fails where the URL has no host.
    pub fn new(method: Method, url: &Url) -> (r: Result<HttpRequest, HttpError>)
        ensures
            match r {
                Ok(q) => {
                    &&& url.host is Some && url.host->0@.len() > 0
                    &&& q.wf()
                    &&& q.verb() == method.text()
                    &&& q.scheme_view() == url.scheme@
                    &&& q.host_view() == url.host->0@
                    &&& q.path_view() == url.path@
                    &&& q.header_set()@ == default_headers(url.host->0@)
                    &&& q.body_view().len() == 0
                },
                Err(e) => e == HttpError::MissingHost && (url.host is None || url.host->0@.len()
                    == 0),
            },
    {
        let host = match &url.host {
            Some(h) => h,
            None => {
                return Err(HttpError::MissingHost);
            },
        };
        if host.as_str().is_empty() {
            return Err(HttpError::MissingHost);
        }
        let mut headers = Headers::new();
        headers.insert("Host", host.as_str());
        headers.insert("Accept", "*/*");
        headers.insert("Connection", "close");
        proof {
            reveal_strlit("Host");
            reveal_strlit("Accept");
            reveal_strlit("*/*");
            reveal_strlit("Connection");
            reveal_strlit("close");
            assert("Host"@ =~= host_key());
            assert("Accept"@ =~= accept_key());
            assert("*/*"@ =~= accept_any());
            assert("Connection"@ =~= connection_key());
            assert("close"@ =~= close_value());
            assert(headers@ =~= default_headers(host@));
        }
        let mut scheme = String::new();
        push_text(&mut scheme, url.scheme.as_str());
        let mut h = String::new();
        push_text(&mut h, host.as_str());
        let mut path = String::new();
        push_text(&mut path, url.path.as_str());
        Ok(HttpRequest { method, scheme, host: h, path, headers, body: String::new() })
    }

    /// The host that the request goes to.
    pub fn host(&self) -> (r: &str)
        ensures
            r@ == self.host_view(),
    {
        self.host.as_str()
    }

    /// Sets header `key` to `value`, replacing a default or earlier value.
    pub fn add_header(&mut self, key: &str, value: &str)
        requires
            old(self).wf(),
        ensures
            final(self).wf(),
            final(self).header_set()@ == old(self).header_set()@.insert(key@, value@),
            final(self).verb() == old(self).verb(),
            final(self).scheme_view() == old(self).scheme_view(),
            final(self).host_view() == old(self).host_view(),
            final(self).path_view() == old(self).path_view(),
            final(self).body_view() == old(self).body_view(),
    {
        self.headers.insert(key, value);
    }

    /// Reads a command-line header specification: `"Name: Value"` sets Name
    /// to Value, `"Name;"` sets Name to the empty value, and any other form
    /// leaves the request as it was.
    pub fn parse_header(&mut self, header_string: &str)
        requires
            old(self).wf(),
        ensures
            final(self).wf(),
            match header_spec(header_string@) {
                Some(kv) => {
                    &&& final(self).header_set()@ == old(self).header_set()@.insert(kv.0, kv.1)
                    &&& final(self).verb() == old(self).verb()
                    &&& final(self).scheme_view() == old(self).scheme_view()
                    &&& final(self).host_view() == old(self).host_view()
                    &&& final(self).path_view() == old(self).path_view()
                    &&& final(self).body_view() == old(self).body_view()
                },
                None => *final(self) == *old(self),
            },
    {
        let cs = chars_of(header_string);
        let n = cs.len();
        let mut i: usize = 0;
        while i < n && cs[i] != ':'
            invariant
                n == cs.len(),
                i <= n,
                forall|j: int| 0 <= j < i ==> cs@[j] != ':',
            decreases n - i,
        {
            i = i + 1;
        }
        if i < n {
            let mut key = String::new();
            push_range(&mut key, &cs, 0, i);
            let start: usize = if i + 1 < n && cs[i + 1] == ' ' {
                i + 2
            } else {
                i + 1
            };
            let mut value = String::new();
            push_range(&mut value, &cs, start, n);
            proof {
                assert(is_first_colon(cs@, i as int));
                let c = choose|c: int| is_first_colon(cs@, c);
                assert(c == i);
                assert(key@ =~= cs@.take(i as int));
                assert(value@ =~= value_after_colon(cs@.skip(i + 1)));
                assert(header_spec(header_string@) == Some((key@, value@)));
            }
            self.add_header(key.as_str(), value.as_str());
        } else if n > 0 && cs[n - 1] == ';' {
            let mut j: usize = n;
            assert(cs@.take(n as int) =~= cs@);
            while j > 0 && cs[j - 1] == ';'
                invariant
                    n == cs.len(),
                    j <= n,
                    cs@ == header_string@,
                    strip_semicolons(cs@.take(j as int)) == strip_semicolons(cs@),
                decreases j,
            {
                assert(cs@.take(j as int).drop_last() =~= cs@.take(j - 1));
                j = j - 1;
            }
            let mut key = String::new();
            push_range(&mut key, &cs, 0, j);
            proof {
                assert(cs@.take(n as int) =~= cs@);
                assert(!exists|c: int| is_first_colon(cs@, c));
                assert(key@ =~= cs@.take(j as int));
            }
            proof {
                reveal_strlit("");
                assert(""@ =~= Seq::<char>::empty());
                assert(header_spec(header_string@) == Some((key@, ""@)));
            }
            self.add_header(key.as_str(), "");
        } else {
            proof {
                assert(!exists|c: int| is_first_colon(cs@, c));
            }
        }
    }

    /// Appends `data` to the body.
    pub fn add_data(&mut self, data: &str)
        requires
            old(self).wf(),
        ensures
            final(self).wf(),
            final(self).body_view() == old(self).body_view() + data@,
            final(self).header_set() == old(self).header_set(),
            final(self).verb() == old(self).verb(),
            final(self).scheme_view() == old(self).scheme_view(),
            final(self).host_view() == old(self).host_view(),
            final(self).path_view() == old(self).path_view(),
    {
        push_text(&mut self.body, data);
    }

    /// The request as it goes on the wire.
    pub fn serialize(&self) -> (r: String)
        ensures
            r@ == self.wire(),
    {
        let mut out = String::new();
        let verb = self.method.to_text();
        push_text(&mut out, verb.as_str());
        push_text(&mut out, " ");
        push_text(&mut out, self.path.as_str());
        push_text(&mut out, " ");
        push_ascii_upper(&mut out, self.scheme.as_str());
        push_text(&mut out, "/1.1");
        push_crlf(&mut out);
        proof {
            reveal_strlit(" ");
            reveal_strlit("/1.1");
            assert(out@ =~= request_line(self.verb(), self.path_view(), self.scheme_view()));
        }
        self.headers.write_lines(&mut out);
        let ghost head = out@;
        if self.body.as_str().is_empty() {
            push_crlf(&mut out);
        } else {
            push_text(&mut out, "Content-Length: ");
            push_decimal(&mut out, self.body.as_str().len());
            push_crlf(&mut out);
            push_crlf(&mut out);
            push_text(&mut out, self.body.as_str());
            push_crlf(&mut out);
            proof {
                reveal_strlit("Content-Length: ");
                assert(out@ =~= head + content_length_prefix() + decimal(byte_len(self.body_view()))
                    + crlf() + crlf() + self.body_view() + crlf());
            }
        }
        out
    }
}

/// With an empty body the wire form is the request line, the header lines
/// and one blank line: no Content-Length line and no body section.
pub proof fn lemma_empty_body_wire(q: &HttpRequest)
    requires
        q.body_view().len() == 0,
    ensures
        q.wire() == request_line(q.verb(), q.path_view(), q.scheme_view()) + header_lines(
            q.header_set().entries(),
        ) + crlf(),
{
}

/// With a non-empty body the header block ends with a Content-Length line
/// that gives the body's length in bytes, and the body follows the blank line.
pub proof fn lemma_body_wire(q: &HttpRequest)
    requires
        q.body_view().len() > 0,
    ensures
        q.wire() == request_line(q.verb(), q.path_view(), q.scheme_view()) + header_lines(
            q.header_set().entries(),
        ) + content_length_prefix() + decimal(byte_len(q.body_view())) + crlf() + crlf()
            + q.body_view() + crlf(),
{
}

/// Every header of a well-formed request goes on the wire as one
/// `"{name}: {value}\r\n"` line, whatever its place among the others.
pub proof fn lemma_header_emitted(q: &HttpRequest, name: Seq<char>)
    requires
        q.wf(),
        q.header_set()@.contains_key(name),
    ensures
        exists|a: Seq<char>, b: Seq<char>| q.wire() == a + header_line(name, q.header_set()@[name]) + b,
{
    let s = q.header_set().entries();
    lemma_entry_of_name(s, name);
    let i = choose|i: int| 0 <= i < s.len() && s[i] == (name, q.header_set()@[name]);
    lemma_line_of_entry(s, i);
    let (a, b) = choose|a: Seq<char>, b: Seq<char>| header_lines(s) == a + header_line(s[i].0, s[i].1) + b;
    let head = request_line(q.verb(), q.path_view(), q.scheme_view());
    let tail = q.wire().skip((head + header_lines(s)).len() as int);
    assert(q.wire() =~= (head + a) + header_line(name, q.header_set()@[name]) + (b + tail));
}

/// The wire form starts with the method's verb exactly as held, then a space.
pub proof fn lemma_verb_verbatim(q: &HttpRequest)
    ensures
        q.wire().take(q.verb().len() + 1 as int) == q.verb().push(' '),
{
    assert(q.wire().take(q.verb().len() + 1 as int) =~= q.verb().push(' '));
}

} // verus!
