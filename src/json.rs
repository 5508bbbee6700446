//! A toy JSON front end: a tokenizer and the first step of an object parser.
use std::collections::VecDeque;
use vstd::prelude::*;

use crate::text::{chars_of, push_range};

verus! {

/// Whether `char::is_numeric` holds of `c` (Unicode categories Nd, Nl and No).
pub uninterp spec fn numeric_char(c: char) -> bool;

/// Whether `char::is_whitespace` holds of `c` (the Unicode White_Space property).
pub uninterp spec fn white_char(c: char) -> bool;

/// Relies on char::is_numeric: true of the Unicode numeric characters, among
/// them the ASCII digits.
pub assume_specification[ char::is_numeric ](c: char) -> (r: bool)
    ensures
        r == numeric_char(c),
        '0' <= c <= '9' ==> r,
;

/// Relies on char::is_whitespace: true of the Unicode White_Space characters,
/// among them space, tab, line feed and carriage return.
pub assume_specification[ char::is_whitespace ](c: char) -> (r: bool)
    ensures
        r == white_char(c),
        c == ' ' || c == '\t' || c == '\n' || c == '\r' ==> r,
;

/// A lexical token.
#[derive(Debug, PartialEq, Eq)]
pub enum Token {
    OpenBrace,
    ClosedBrace,
    OpenBracket,
    ClosedBracket,
    Colon,
    True,
    False,
    Null,
    /// A string's text between its quotes, escapes kept as written.
    Str(String),
    /// A run of numeric characters.
    Number(String),
}

/// A token with its text as characters.
pub enum TokenView {
    OpenBrace,
    ClosedBrace,
    OpenBracket,
    ClosedBracket,
    Colon,
    True,
    False,
    Null,
    Str(Seq<char>),
    Number(Seq<char>),
}

impl View for Token {
    type V = TokenView;

    open spec fn view(&self) -> TokenView {
        match self {
            Token::OpenBrace => TokenView::OpenBrace,
            Token::ClosedBrace => TokenView::ClosedBrace,
            Token::OpenBracket => TokenView::OpenBracket,
            Token::ClosedBracket => TokenView::ClosedBracket,
            Token::Colon => TokenView::Colon,
            Token::True => TokenView::True,
            Token::False => TokenView::False,
            Token::Null => TokenView::Null,
            Token::Str(s) => TokenView::Str(s@),
            Token::Number(s) => TokenView::Number(s@),
        }
    }
}

/// Position of the quote that closes a string whose text starts at `i`,
/// where `escaped` says that the character at `i` follows a backslash.
pub open spec fn closing_quote(s: Seq<char>, i: int, escaped: bool) -> Option<int>
    decreases s.len() - i,
{
    if i < 0 || i >= s.len() {
        None
    } else if escaped {
        closing_quote(s, i + 1, false)
    } else if s[i] == '"' {
        Some(i)
    } else {
        closing_quote(s, i + 1, s[i] == '\\')
    }
}

/// The text of the string literal that `s` starts with, if it starts with one.
pub open spec fn quoted(s: Seq<char>) -> Option<Seq<char>> {
    if s.len() > 0 && s[0] == '"' {
        match closing_quote(s, 1, false) {
            Some(q) => Some(s.subrange(1, q)),
            None => None,
        }
    } else {
        None
    }
}

/// The longest run of numeric characters that `s` starts with.
pub open spec fn numeric_prefix(s: Seq<char>) -> Seq<char>
    decreases s.len(),
{
    if s.len() > 0 && numeric_char(s[0]) {
        seq![s[0]] + numeric_prefix(s.drop_first())
    } else {
        Seq::empty()
    }
}

/// The punctuation token of `c`, if it is one.
pub open spec fn punctuation(c: char) -> Option<TokenView> {
    if c == '{' {
        Some(TokenView::OpenBrace)
    } else if c == '}' {
        Some(TokenView::ClosedBrace)
    } else if c == '[' {
        Some(TokenView::OpenBracket)
    } else if c == ']' {
        Some(TokenView::ClosedBracket)
    } else if c == ':' {
        Some(TokenView::Colon)
    } else {
        None
    }
}

/// Position `j` of `s`, or the end of `s` where `j` lies past it.
pub open spec fn resume_at(s: Seq<char>, j: int) -> int {
    if j <= s.len() {
        j
    } else {
        s.len() as int
    }
}

/// The tokens of `s` from position `i` on. After a string the scan resumes
/// right after its closing quote; after a number it passes over one more
/// character, the one that ends the number. Any other character is passed over.
pub open spec fn tokens_from(s: Seq<char>, i: int) -> Seq<TokenView>
    decreases s.len() - i,
{
    if i < 0 || i >= s.len() {
        Seq::empty()
    } else if punctuation(s[i]) is Some {
        seq![punctuation(s[i])->0] + tokens_from(s, i + 1)
    } else if quoted(s.skip(i)) is Some {
        let t = quoted(s.skip(i))->0;
        seq![TokenView::Str(t)] + tokens_from(s, resume_at(s, i + t.len() + 2))
    } else if numeric_prefix(s.skip(i)).len() > 0 {
        let t = numeric_prefix(s.skip(i));
        seq![TokenView::Number(t)] + tokens_from(s, resume_at(s, i + t.len() + 2))
    } else {
        tokens_from(s, i + 1)
    }
}

/// Why a text is not taken as a JSON object.
#[derive(Debug, Clone, Copy, PartialEq, Eq, Structural)]
pub enum JsonError {
    /// The text does not start with `{`.
    NotAnObject,
}

/// The views of a sequence of tokens.
pub open spec fn token_views(s: Seq<Token>) -> Seq<TokenView> {
    s.map_values(|t: Token| t@)
}

/// Where the string literal starting at `i` closes, counted from `i`.
fn closing_quote_at(cs: &Vec<char>, i: usize) -> (r: Option<usize>)
    requires
        i < cs.len(),
        cs@[i as int] == '"',
    ensures
        match r {
            Some(q) => {
                &&& 1 <= q
                &&& i + q < cs.len()
                &&& quoted(cs@.skip(i as int)) == Some(cs@.subrange(i + 1, i + q))
            },
            None => quoted(cs@.skip(i as int)) is None,
        },
{
    let ghost t = cs@.skip(i as int);
    let n = cs.len();
    let mut j: usize = i + 1;
    let mut escaped = false;
    assert(t[0] == cs@[i as int]);
    while j < n
        invariant
            n == cs.len(),
            i < j <= n,
            t == cs@.skip(i as int),
            t[0] == '"',
            closing_quote(t, j - i, escaped) == closing_quote(t, 1, false),
        decreases n - j,
    {
        let c = cs[j];
        assert(t[j - i] == c);
        if escaped {
            escaped = false;
        } else if c == '"' {
            assert(t.subrange(1, (j - i) as int) =~= cs@.subrange(i + 1, j as int));
            assert(t[0] == '"');
            assert(closing_quote(t, (j - i) as int, false) == Some((j - i) as int));
            return Some(j - i);
        } else {
            escaped = c == '\\';
        }
        j = j + 1;
    }
    None
}

/// The length of the run of numeric characters starting at `i`.
fn numeric_run_at(cs: &Vec<char>, i: usize) -> (r: usize)
    requires
        i <= cs.len(),
    ensures
        i + r <= cs.len(),
        numeric_prefix(cs@.skip(i as int)) == cs@.subrange(i as int, i + r),
{
    let n = cs.len();
    let mut j: usize = i;
    while j < n && cs[j].is_numeric()
        invariant
            n == cs.len(),
            i <= j <= n,
            numeric_prefix(cs@.skip(i as int)) == cs@.subrange(i as int, j as int)
                + numeric_prefix(cs@.skip(j as int)),
        decreases n - j,
    {
        assert(cs@.skip(j as int).drop_first() =~= cs@.skip(j + 1));
        assert(cs@.subrange(i as int, j + 1) =~= cs@.subrange(i as int, j as int) + seq![cs@[j as int]]);
        j = j + 1;
    }
    assert(cs@.subrange(i as int, j as int) + Seq::<char>::empty() =~= cs@.subrange(i as int, j as int));
    j - i
}

impl Token {
    /// The tokens of `input`; this never fails.
    pub fn tokenize(input: &str) -> (r: Result<VecDeque<Token>, JsonError>)
        ensures
            match r {
                Ok(ts) => token_views(ts@) == tokens_from(input@, 0),
                Err(_) => false,
            },
    {
        let cs = chars_of(input);
        let n = cs.len();
        let mut tokens: VecDeque<Token> = VecDeque::new();
        let mut i: usize = 0;
        while i < n
            invariant
                n == cs.len(),
                cs@ == input@,
                i <= n,
                token_views(tokens@) + tokens_from(cs@, i as int) == tokens_from(cs@, 0),
            decreases n - i,
        {
            let ghost before = token_views(tokens@);
            let c = cs[i];
            let tok: Option<Token> = if c == '{' {
                Some(Token::OpenBrace)
            } else if c == '}' {
                Some(Token::ClosedBrace)
            } else if c == '[' {
                Some(Token::OpenBracket)
            } else if c == ']' {
                Some(Token::ClosedBracket)
            } else if c == ':' {
                Some(Token::Colon)
            } else {
                None
            };
            match tok {
                Some(t) => {
                    tokens.push_back(t);
                    i = i + 1;
                    assert(token_views(tokens@) =~= before + seq![punctuation(c)->0]);
                },
                None => {
                    let q = if c == '"' {
                        closing_quote_at(&cs, i)
                    } else {
                        None
                    };
                    match q {
                        Some(q) => {
                            let mut text = String::new();
                            push_range(&mut text, &cs, i + 1, i + q);
                            tokens.push_back(Token::Str(text));
                            assert(token_views(tokens@) =~= before + seq![TokenView::Str(text@)]);
                            i = i + q + 1;
                        },
                        None => {
                            let len = numeric_run_at(&cs, i);
                            if len > 0 {
                                let mut text = String::new();
                                push_range(&mut text, &cs, i, i + len);
                                tokens.push_back(Token::Number(text));
                                assert(token_views(tokens@) =~= before + seq![TokenView::Number(text@)]);
                                i = if n - i - len >= 2 {
                                    i + len + 2
                                } else {
                                    n
                                };
                            } else {
                                i = i + 1;
                            }
                        },
                    }
                },
            }
        }
        Ok(tokens)
    }

    /// The text of the string literal that `input` starts with, without its
    /// quotes; `None` where `input` does not start with a closed literal.
    pub fn parse_str(input: &str) -> (r: Option<String>)
        ensures
            match r {
                Some(t) => quoted(input@) == Some(t@),
                None => quoted(input@) is None,
            },
    {
        let cs = chars_of(input);
        if cs.len() == 0 || cs[0] != '"' {
            return None;
        }
        assert(cs@.skip(0) =~= cs@);
        match closing_quote_at(&cs, 0) {
            Some(q) => {
                let mut text = String::new();
                push_range(&mut text, &cs, 1, q);
                Some(text)
            },
            None => None,
        }
    }

    /// The run of numeric characters that `input` starts with; `None` where
    /// it starts with none.
    pub fn parse_number(input: &str) -> (r: Option<String>)
        ensures
            match r {
                Some(t) => t@.len() > 0 && t@ == numeric_prefix(input@),
                None => numeric_prefix(input@).len() == 0,
            },
    {
        let cs = chars_of(input);
        let len = numeric_run_at(&cs, 0);
        assert(cs@.skip(0) =~= cs@);
        if len > 0 {
            let mut text = String::new();
            push_range(&mut text, &cs, 0, len);
            Some(text)
        } else {
            None
        }
    }
}

/// A JSON value.
#[derive(Debug, PartialEq, Eq)]
pub enum JsonValue {
    Object(JsonObject),
    Array(Vec<JsonValue>),
    Str(String),
    Number(i32),
    Bool(bool),
    Null,
}

/// A JSON object: its members, each name held once.
#[derive(Debug, PartialEq, Eq)]
pub struct JsonObject {
    members: Vec<(String, JsonValue)>,
}

/// The first character of `s` that is not white space is an opening brace.
pub open spec fn starts_object(s: Seq<char>) -> bool
    decreases s.len(),
{
    if s.len() == 0 {
        false
    } else if white_char(s[0]) {
        starts_object(s.drop_first())
    } else {
        s[0] == '{'
    }
}

impl JsonObject {
    /// The number of members.
    pub closed spec fn size(&self) -> nat {
        self.members@.len()
    }

    /// An object without members.
    pub fn new() -> (r: JsonObject)
        ensures
            r.size() == 0,
    {
        JsonObject { members: Vec::new() }
    }

    /// The number of members.
    pub fn len(&self) -> (r: usize)
        ensures
            r == self.size(),
    {
        self.members.len()
    }

    /// Reads `input` as an object: it must start, after white space, with
    /// `{`. Members are not read yet, so the object is empty.
    pub fn from_str(input: &str) -> (r: Result<JsonObject, JsonError>)
        ensures
            match r {
                Ok(o) => starts_object(input@) && o.size() == 0,
                Err(e) => e == JsonError::NotAnObject && !starts_object(input@),
            },
    {
        let cs = chars_of(input);
        let n = cs.len();
        let mut i: usize = 0;
        assert(cs@.skip(0) =~= cs@);
        while i < n && cs[i].is_whitespace()
            invariant
                n == cs.len(),
                i <= n,
                starts_object(cs@) == starts_object(cs@.skip(i as int)),
            decreases n - i,
        {
            assert(cs@.skip(i as int).drop_first() =~= cs@.skip(i + 1));
            i = i + 1;
        }
        if i < n && cs[i] == '{' {
            Ok(JsonObject::new())
        } else {
            Err(JsonError::NotAnObject)
        }
    }

    /// Builds an object from tokens; objects are not read from tokens yet,
    /// so this always fails.
    pub fn parse(tokens: VecDeque<Token>) -> (r: Result<JsonObject, JsonError>)
        ensures
            r == Err::<JsonObject, JsonError>(JsonError::NotAnObject),
    {
        Err(JsonError::NotAnObject)
    }
}

} // verus!
