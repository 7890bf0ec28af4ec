//! Notes: free text whose links are the bracketed spans inside it.

use vstd::prelude::*;
use crate::text::{char_vec, find_char, index_of, lemma_strs_push, strs, substring};

verus! {

/// The links of `s`, left to right: each one is what stands between an
/// opening bracket and the next closing bracket after it (newlines included).
/// An opening bracket with no closing bracket after it starts no link.
pub open spec fn links_of(s: Seq<char>) -> Seq<Seq<char>>
    decreases s.len(),
{
    let i = index_of(s, '[');
    if 0 <= i < s.len() {
        let rest = s.skip(i + 1);
        let j = index_of(rest, ']');
        if 0 <= j < rest.len() {
            seq![rest.take(j)] + links_of(rest.skip(j + 1))
        } else {
            seq![]
        }
    } else {
        seq![]
    }
}

/// The links found in `s`.
pub fn extract_links(s: &str) -> (r: Vec<String>)
    ensures
        strs(r@) == links_of(s@),
{
    let v = char_vec(s);
    let n = v.len();
    let mut acc: Vec<String> = Vec::new();
    let mut i: usize = 0;
    proof {
        assert(strs(acc@) =~= Seq::<Seq<char>>::empty());
        assert(v@.subrange(0, n as int) =~= v@);
    }
    while i < n
        invariant
            i <= n,
            n == v@.len(),
            v@ == s@,
            strs(acc@) + links_of(v@.subrange(i as int, n as int)) == links_of(s@),
        decreases n - i,
    {
        let t = Ghost(v@.subrange(i as int, n as int));
        let a = find_char(&v, '[', i, n);
        if a == n {
            assert(links_of(t@) =~= Seq::<Seq<char>>::empty());
            assert(strs(acc@) =~= links_of(s@));
            return acc;
        }
        let b = find_char(&v, ']', a + 1, n);
        proof {
            assert(t@.skip(a - i + 1) =~= v@.subrange(a + 1, n as int));
        }
        if b == n {
            assert(links_of(t@) =~= Seq::<Seq<char>>::empty());
            assert(strs(acc@) =~= links_of(s@));
            return acc;
        }
        let link = substring(s, a + 1, b);
        proof {
            let rest = t@.skip(a - i + 1);
            assert(rest.take(b - a - 1) =~= v@.subrange(a + 1, b as int));
            assert(rest.skip(b - a) =~= v@.subrange(b + 1, n as int));
            assert(links_of(t@) == seq![link@] + links_of(v@.subrange(b + 1, n as int)));
            lemma_strs_push(acc@, link);
        }
        acc.push(link);
        i = b + 1;
        assert(strs(acc@) + links_of(v@.subrange(i as int, n as int)) =~= links_of(s@));
    }
    assert(links_of(v@.subrange(i as int, n as int)) =~= Seq::<Seq<char>>::empty());
    assert(strs(acc@) =~= links_of(s@));
    acc
}

/// A free-text note; `links` always holds the links of `text`.
pub struct Note {
    pub title: String,
    pub text: String,
    pub links: Vec<String>,
}

impl Note {
    /// The links agree with the text.
    pub open spec fn wf(&self) -> bool {
        strs(self.links@) == links_of(self.text@)
    }

    /// A note with no title and no text.
    pub fn new() -> (r: Note)
        ensures
            r.title@.len() == 0,
            r.text@.len() == 0,
            r.links@.len() == 0,
            r.wf(),
    {
        let r = Note { title: String::new(), text: String::new(), links: Vec::new() };
        assert(strs(r.links@) =~= links_of(r.text@));
        r
    }

    /// The note called `name` whose text is `text`.
    pub fn from_str(name: &str, text: String) -> (r: Note)
        ensures
            r.title@ == name@,
            r.text@ == text@,
            strs(r.links@) == links_of(text@),
            r.wf(),
    {
        let links = extract_links(text.as_str());
        Note { title: String::from_str(name), text, links }
    }

    /// Recomputes the links from the text.
    pub fn parse_links(&mut self)
        ensures
            final(self).title@ == old(self).title@,
            final(self).text@ == old(self).text@,
            strs(final(self).links@) == links_of(old(self).text@),
            final(self).wf(),
    {
        self.links = extract_links(self.text.as_str());
    }
}

} // verus!
