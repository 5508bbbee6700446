//! Framing of a raw response into its header block and its body.
use vstd::prelude::*;

use crate::error::HttpError;
use crate::text::{chars_of, push_range};

verus! {

/// The blank line `"\r\n\r\n"` starts at position `k` of `s`.
pub open spec fn blank_line_at(s: Seq<char>, k: int) -> bool {
    0 <= k && k + 4 <= s.len() && s[k] == '\r' && s[k + 1] == '\n' && s[k + 2] == '\r' && s[k + 3]
        == '\n'
}

/// `s` holds the blank line somewhere.
pub open spec fn has_blank_line(s: Seq<char>) -> bool {
    exists|k: int| blank_line_at(s, k)
}

/// Splits a response after the first `"\r\n\r\n"`: the header block keeps the
/// delimiter, the body is everything after it. A response without the
/// delimiter is a framing error.
pub fn parse_response(response_string: &str) -> (r: Result<(String, String), HttpError>)
    ensures
        match r {
            Ok((head, body)) => {
                &&& head@.len() >= 4
                &&& blank_line_at(response_string@, head@.len() - 4)
                &&& forall|j: int| 0 <= j < head@.len() - 4 ==> !blank_line_at(response_string@, j)
                &&& head@ + body@ == response_string@
            },
            Err(e) => e == HttpError::Framing && !has_blank_line(response_string@),
        },
{
    let rs = chars_of(response_string);
    let n = rs.len();
    let mut i: usize = 0;
    while n >= 4 && i <= n - 4
        invariant
            n == rs.len(),
            i <= n,
            rs@ == response_string@,
            forall|j: int| 0 <= j < i ==> !blank_line_at(rs@, j),
        decreases n - i,
    {
        if rs[i] == '\r' && rs[i + 1] == '\n' && rs[i + 2] == '\r' && rs[i + 3] == '\n' {
            let mut head = String::new();
            push_range(&mut head, &rs, 0, i + 4);
            let mut body = String::new();
            push_range(&mut body, &rs, i + 4, n);
            assert(head@ + body@ =~= rs@);
            return Ok((head, body));
        }
        i = i + 1;
    }
    assert(forall|k: int| !blank_line_at(rs@, k)) by {
        assert(forall|k: int| #![trigger blank_line_at(rs@, k)] i <= k ==> k + 4 > n);
    }
    Err(HttpError::Framing)
}

} // verus!
