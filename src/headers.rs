//! A header set: unique names, each mapped to one value, the latest insert winning.
use vstd::prelude::*;

use crate::text::{chars_of, crlf, push_chars, push_crlf, push_text};

verus! {

/// The map that a sequence of (name, value) entries describes, a later entry
/// overriding an earlier one of the same name.
pub open spec fn entries_map(s: Seq<(Seq<char>, Seq<char>)>) -> Map<Seq<char>, Seq<char>>
    decreases s.len(),
{
    if s.len() == 0 {
        Map::empty()
    } else {
        entries_map(s.drop_last()).insert(s.last().0, s.last().1)
    }
}

/// No two entries share a name.
pub open spec fn unique_names(s: Seq<(Seq<char>, Seq<char>)>) -> bool {
    forall|i: int, j: int| 0 <= i < j < s.len() ==> s[i].0 != s[j].0
}

/// The header lines `"{name}: {value}\r\n"` of the entries, in order.
pub open spec fn header_lines(s: Seq<(Seq<char>, Seq<char>)>) -> Seq<char>
    decreases s.len(),
{
    if s.len() == 0 {
        Seq::empty()
    } else {
        header_lines(s.drop_last()) + header_line(s.last().0, s.last().1)
    }
}

/// One header line.
pub open spec fn header_line(name: Seq<char>, value: Seq<char>) -> Seq<char> {
    name + seq![':', ' '] + value + crlf()
}

/// Replacing the entry at `i` by one of the same name updates the map at that name.
proof fn lemma_update_entry(s: Seq<(Seq<char>, Seq<char>)>, i: int, v: Seq<char>)
    requires
        unique_names(s),
        0 <= i < s.len(),
    ensures
        entries_map(s.update(i, (s[i].0, v))) == entries_map(s).insert(s[i].0, v),
    decreases s.len(),
{
    let t = s.update(i, (s[i].0, v));
    assert(t.drop_last() =~= if i == s.len() - 1 {
        s.drop_last()
    } else {
        s.drop_last().update(i, (s[i].0, v))
    });
    if i < s.len() - 1 {
        lemma_update_entry(s.drop_last(), i, v);
        assert(s.last().0 != s[i].0);
    }
    assert(entries_map(t) =~= entries_map(s).insert(s[i].0, v));
}

/// A name that the map holds comes with an entry that carries its value.
pub proof fn lemma_entry_of_name(s: Seq<(Seq<char>, Seq<char>)>, k: Seq<char>)
    requires
        entries_map(s).contains_key(k),
    ensures
        exists|i: int| 0 <= i < s.len() && s[i] == (k, entries_map(s)[k]),
    decreases s.len(),
{
    if s.last().0 == k {
        assert(s[s.len() - 1] == (k, entries_map(s)[k]));
    } else {
        lemma_entry_of_name(s.drop_last(), k);
        let i = choose|i: int| 0 <= i < s.len() - 1 && s.drop_last()[i] == (k, entries_map(s.drop_last())[k]);
        assert(s[i] == (k, entries_map(s)[k]));
    }
}

/// The line of each entry stands, whole, within the header lines.
pub proof fn lemma_line_of_entry(s: Seq<(Seq<char>, Seq<char>)>, i: int)
    requires
        0 <= i < s.len(),
    ensures
        exists|a: Seq<char>, b: Seq<char>| header_lines(s) == a + header_line(s[i].0, s[i].1) + b,
    decreases s.len(),
{
    if i == s.len() - 1 {
        let a = header_lines(s.drop_last());
        let b = Seq::<char>::empty();
        assert(header_lines(s) =~= a + header_line(s[i].0, s[i].1) + b);
    } else {
        lemma_line_of_entry(s.drop_last(), i);
        let (a, b) = choose|a: Seq<char>, b: Seq<char>| header_lines(s.drop_last()) == a + header_line(s.drop_last()[i].0, s.drop_last()[i].1) + b;
        let b2 = b + header_line(s.last().0, s.last().1);
        assert(header_lines(s) =~= a + header_line(s[i].0, s[i].1) + b2);
    }
}

/// A set of request headers.
#[derive(Debug)]
pub struct Headers {
    entries: Vec<(String, String)>,
}

impl Headers {
    /// The entries, in the order in which they are emitted.
    pub closed spec fn entries(&self) -> Seq<(Seq<char>, Seq<char>)> {
        self.entries@.map_values(|e: (String, String)| (e.0@, e.1@))
    }

    /// Each name is held once.
    pub open spec fn wf(&self) -> bool {
        unique_names(self.entries())
    }

    /// An empty header set.
    pub fn new() -> (r: Headers)
        ensures
            r.wf(),
            r@ == Map::<Seq<char>, Seq<char>>::empty(),
            r.entries().len() == 0,
    {
        let r = Headers { entries: Vec::new() };
        assert(r.entries() =~= Seq::empty());
        r
    }

    /// Number of headers held.
    pub fn len(&self) -> (r: usize)
        ensures
            r == self.entries().len(),
    {
        self.entries.len()
    }

    /// Sets `name` to `value`, replacing any value it had.
    pub fn insert(&mut self, name: &str, value: &str)
        requires
            old(self).wf(),
        ensures
            final(self).wf(),
            final(self)@ == old(self)@.insert(name@, value@),
    {
        let key = chars_of(name);
        let mut v = String::new();
        push_text(&mut v, value);
        let n = self.entries.len();
        let mut i: usize = 0;
        while i < n
            invariant
                n == self.entries.len(),
                i <= n,
                key@ == name@,
                v@ == value@,
                self == old(self),
                unique_names(self.entries()),
                forall|j: int| 0 <= j < i ==> self.entries()[j].0 != name@,
            decreases n - i,
        {
            if eq_chars(&self.entries[i].0, &key) {
                let ghost s = self.entries();
                proof {
                    lemma_update_entry(s, i as int, value@);
                }
                let mut k = String::new();
                push_chars(&mut k, &key);
                let ghost raw = self.entries@;
                assert(k@ == name@ && v@ == value@);
                self.entries.set(i, (k, v));
                assert(s[i as int].0 == name@);
                assert(forall|j: int| 0 <= j < raw.len() && j != i ==> self.entries@[j] == raw[j]);
                assert(self.entries() =~= s.update(i as int, (s[i as int].0, value@)));
                return;
            }
            i = i + 1;
        }
        let ghost s = self.entries();
        let mut k = String::new();
        push_chars(&mut k, &key);
        self.entries.push((k, v));
        assert(self.entries() =~= s.push((name@, value@)));
        assert(self.entries().drop_last() =~= s);
    }

    /// Appends every header line to `out`, in the order of `entries`.
    pub fn write_lines(&self, out: &mut String)
        ensures
            final(out)@ == old(out)@ + header_lines(self.entries()),
    {
        let mut i: usize = 0;
        while i < self.entries.len()
            invariant
                i <= self.entries.len(),
                out@ == old(out)@ + header_lines(self.entries().take(i as int)),
            decreases self.entries.len() - i,
        {
            let ghost before = out@;
            push_chars(out, &chars_of(self.entries[i].0.as_str()));
            push_char_pair(out);
            push_chars(out, &chars_of(self.entries[i].1.as_str()));
            push_crlf(out);
            i = i + 1;
            let ghost e = self.entries().take(i as int);
            assert(e.drop_last() =~= self.entries().take(i - 1));
            assert(out@ =~= before + header_line(e.last().0, e.last().1));
        }
        assert(self.entries().take(self.entries.len() as int) =~= self.entries());
    }
}

/// Appends `": "` to `out`.
fn push_char_pair(out: &mut String)
    ensures
        final(out)@ == old(out)@ + seq![':', ' '],
{
    crate::text::push_char(out, ':');
    crate::text::push_char(out, ' ');
    assert(old(out)@.push(':').push(' ') =~= old(out)@ + seq![':', ' ']);
}

/// Whether the characters of `a` are exactly `b`.
fn eq_chars(a: &String, b: &Vec<char>) -> (r: bool)
    ensures
        r == (a@ == b@),
{
    let cs = chars_of(a.as_str());
    if cs.len() != b.len() {
        return false;
    }
    let mut i: usize = 0;
    while i < cs.len()
        invariant
            cs.len() == b.len(),
            cs@ == a@,
            i <= cs.len(),
            forall|j: int| 0 <= j < i ==> cs@[j] == b@[j],
        decreases cs.len() - i,
    {
        if cs[i] != b[i] {
            return false;
        }
        i = i + 1;
    }
    assert(cs@ =~= b@);
    true
}

impl View for Headers {
    type V = Map<Seq<char>, Seq<char>>;

    open spec fn view(&self) -> Map<Seq<char>, Seq<char>> {
        entries_map(self.entries())
    }
}

} // verus!
