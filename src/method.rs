//! Request methods: the four common verbs and a verbatim custom one.
use vstd::prelude::*;

use crate::text::{chars_of, push_text};

verus! {

/// An HTTP request method.
#[derive(Debug, PartialEq, Eq)]
pub enum Method {
    GET,
    POST,
    PUT,
    DELETE,
    /// Any other verb, sent exactly as given.
    Custom(String),
}

impl Method {
    /// The verb as it stands on the request line.
    pub open spec fn text(&self) -> Seq<char> {
        match self {
            Method::GET => seq!['G', 'E', 'T'],
            Method::POST => seq!['P', 'O', 'S', 'T'],
            Method::PUT => seq!['P', 'U', 'T'],
            Method::DELETE => seq!['D', 'E', 'L', 'E', 'T', 'E'],
            Method::Custom(s) => s@,
        }
    }

    /// Reads a verb: the four common ones by exact, case-sensitive match,
    /// anything else kept verbatim as a custom verb.
    pub fn parse(s: &str) -> (r: Method)
        ensures
            r.text() == s@,
            s@ == seq!['G', 'E', 'T'] <==> r is GET,
            s@ == seq!['P', 'O', 'S', 'T'] <==> r is POST,
            s@ == seq!['P', 'U', 'T'] <==> r is PUT,
            s@ == seq!['D', 'E', 'L', 'E', 'T', 'E'] <==> r is DELETE,
    {
        let cs = chars_of(s);
        if cs.len() == 3 && cs[0] == 'G' && cs[1] == 'E' && cs[2] == 'T' {
            assert(cs@ =~= seq!['G', 'E', 'T']);
            Method::GET
        } else if cs.len() == 4 && cs[0] == 'P' && cs[1] == 'O' && cs[2] == 'S' && cs[3] == 'T' {
            assert(cs@ =~= seq!['P', 'O', 'S', 'T']);
            Method::POST
        } else if cs.len() == 3 && cs[0] == 'P' && cs[1] == 'U' && cs[2] == 'T' {
            assert(cs@ =~= seq!['P', 'U', 'T']);
            Method::PUT
        } else if cs.len() == 6 && cs[0] == 'D' && cs[1] == 'E' && cs[2] == 'L' && cs[3] == 'E'
            && cs[4] == 'T' && cs[5] == 'E' {
            assert(cs@ =~= seq!['D', 'E', 'L', 'E', 'T', 'E']);
            Method::DELETE
        } else {
            let mut t = String::new();
            push_text(&mut t, s);
            assert(t@ =~= s@);
            Method::Custom(t)
        }
    }

    /// The verb as it stands on the request line.
    pub fn to_text(&self) -> (r: String)
        ensures
            r@ == self.text(),
    {
        let mut r = String::new();
        match self {
            Method::GET => {
                push_text(&mut r, "GET");
                proof { reveal_strlit("GET"); }
            },
            Method::POST => {
                push_text(&mut r, "POST");
                proof { reveal_strlit("POST"); }
            },
            Method::PUT => {
                push_text(&mut r, "PUT");
                proof { reveal_strlit("PUT"); }
            },
            Method::DELETE => {
                push_text(&mut r, "DELETE");
                proof { reveal_strlit("DELETE"); }
            },
            Method::Custom(s) => {
                push_text(&mut r, s.as_str());
            },
        }
        assert(r@ =~= self.text());
        r
    }
}

} // verus!
