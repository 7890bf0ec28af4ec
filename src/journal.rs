//! Journal pages: one per calendar date, a description and the sorted list of
//! note titles referenced that day.

use vstd::prelude::*;
use vstd::string::*;
use crate::date::{date_text, todays_date};
use crate::error::FileError;
use crate::text::{
    char_vec, find_char, find_seq, index_of, index_of_seq, lemma_index_of_seq, lemma_lines_cons, lemma_lines_single,
    lemma_strs_push, lemma_str_lt_total, lemma_str_lt_transitive, lines, str_less, str_lt, strs, substring,
};

verus! {

/// The separator between a description and the list that follows it.
pub open spec fn dashes() -> Seq<char> {
    seq!['-', '-', '-']
}

/// `s` without one newline at its end.
pub open spec fn chomp(s: Seq<char>) -> Seq<char> {
    if s.len() > 0 && s.last() == '\n' {
        s.drop_last()
    } else {
        s
    }
}

/// `s` without one newline at its start.
pub open spec fn unlead(s: Seq<char>) -> Seq<char> {
    if s.len() > 0 && s[0] == '\n' {
        s.drop_first()
    } else {
        s
    }
}

/// The page title that a line of a journal file names: what follows its first
/// `[` (or the whole line, when it has none), up to the next `]`.
pub open spec fn page_of(line: Seq<char>) -> Seq<char> {
    let i = index_of(line, '[');
    let rest = line.skip(if i >= 0 { i + 1 } else { 0 });
    let j = index_of(rest, ']');
    if j >= 0 {
        rest.take(j)
    } else {
        rest
    }
}

/// The description and page titles that journal text holds, or `None` when
/// it has no `---`. The text is split at its first `---`; a newline right
/// before it belongs to the separator, as does one right after it.
pub open spec fn parse_journal(s: Seq<char>) -> Option<(Seq<char>, Seq<Seq<char>>)> {
    let k = index_of_seq(s, dashes());
    if k < 0 {
        None
    } else {
        Some(
            (
                chomp(s.take(k)),
                lines(unlead(s.skip(k + 3))).map_values(|l: Seq<char>| page_of(l)),
            ),
        )
    }
}

/// The file line of one page title.
pub open spec fn page_line(p: Seq<char>) -> Seq<char> {
    seq!['['] + p + seq![']', '\n']
}

/// The page lines of a list of titles, in order.
pub open spec fn pages_text(ps: Seq<Seq<char>>) -> Seq<char>
    decreases ps.len(),
{
    if ps.len() == 0 {
        seq![]
    } else {
        page_line(ps[0]) + pages_text(ps.drop_first())
    }
}

/// The text of a journal page with this description and these titles.
pub open spec fn journal_text(description: Seq<char>, pages: Seq<Seq<char>>) -> Seq<char> {
    description + seq!['\n'] + dashes() + seq!['\n'] + pages_text(pages)
}

pub proof fn lemma_pages_text_push(ps: Seq<Seq<char>>, p: Seq<char>)
    ensures
        pages_text(ps.push(p)) == pages_text(ps) + page_line(p),
    decreases ps.len(),
{
    if ps.len() == 0 {
        assert(ps.push(p).drop_first() =~= ps);
        assert(pages_text(ps.push(p)) =~= pages_text(ps) + page_line(p));
    } else {
        lemma_pages_text_push(ps.drop_first(), p);
        assert(ps.push(p).drop_first() =~= ps.drop_first().push(p));
        assert(pages_text(ps.push(p)) =~= pages_text(ps) + page_line(p));
    }
}

/// Where `t` goes in a sorted list: after every leading entry that comes before it.
pub open spec fn insert_pos(s: Seq<Seq<char>>, t: Seq<char>) -> int
    decreases s.len(),
{
    if s.len() > 0 && str_lt(s[0], t) {
        1 + insert_pos(s.drop_first(), t)
    } else {
        0
    }
}

pub proof fn lemma_insert_pos_bound(s: Seq<Seq<char>>, t: Seq<char>)
    ensures
        0 <= insert_pos(s, t) <= s.len(),
    decreases s.len(),
{
    if s.len() > 0 {
        lemma_insert_pos_bound(s.drop_first(), t);
    }
}

/// `new` is `old` with the title `t` added: unchanged when `t` is already
/// there, else with `t` inserted at its sorted place.
pub open spec fn page_added(old: Seq<Seq<char>>, t: Seq<char>, new: Seq<Seq<char>>) -> bool {
    if old.contains(t) {
        new == old
    } else {
        new == old.insert(insert_pos(old, t), t)
    }
}

/// Strictly increasing titles: sorted, and none twice.
pub open spec fn sorted_titles(s: Seq<Seq<char>>) -> bool {
    forall|i: int, j: int| 0 <= i < j < s.len() ==> str_lt(#[trigger] s[i], #[trigger] s[j])
}

proof fn lemma_insert_pos(s: Seq<Seq<char>>, t: Seq<char>)
    ensures
        0 <= insert_pos(s, t) <= s.len(),
        forall|k: int| 0 <= k < insert_pos(s, t) ==> str_lt(#[trigger] s[k], t),
        insert_pos(s, t) < s.len() ==> !str_lt(s[insert_pos(s, t)], t),
    decreases s.len(),
{
    if s.len() > 0 && str_lt(s[0], t) {
        lemma_insert_pos(s.drop_first(), t);
        assert forall|k: int| 0 <= k < insert_pos(s, t) implies str_lt(#[trigger] s[k], t) by {
            if k > 0 {
                assert(s[k] == s.drop_first()[k - 1]);
            }
        }
    }
}

/// Adding a title to a sorted list keeps it sorted.
pub proof fn lemma_page_added_sorted(old: Seq<Seq<char>>, t: Seq<char>, new: Seq<Seq<char>>)
    requires
        sorted_titles(old),
        page_added(old, t, new),
    ensures
        sorted_titles(new),
{
    if !old.contains(t) {
        let p = insert_pos(old, t);
        lemma_insert_pos(old, t);
        assert forall|k: int| p <= k < old.len() implies str_lt(t, #[trigger] old[k]) by {
            assert(old[p] != t);
            lemma_str_lt_total(old[p], t);
            if k > p {
                lemma_str_lt_transitive(t, old[p], old[k]);
            }
        }
        assert forall|i: int, j: int| 0 <= i < j < new.len() implies str_lt(
            #[trigger] new[i],
            #[trigger] new[j],
        ) by {
            if j < p {
                assert(new[i] == old[i] && new[j] == old[j]);
            } else if j == p {
                assert(new[i] == old[i] && new[j] == t);
            } else if i < p {
                assert(new[i] == old[i] && new[j] == old[j - 1]);
            } else if i == p {
                assert(new[i] == t && new[j] == old[j - 1]);
            } else {
                assert(new[i] == old[i - 1] && new[j] == old[j - 1]);
            }
        }
    }
}

/// A journal page.
pub struct Journal {
    pub date: String,
    pub description: String,
    pub pages: Vec<String>,
}

/// The title of the line `v[a..b]`.
fn page_in(s: &str, v: &Vec<char>, a: usize, b: usize) -> (r: String)
    requires
        v@ == s@,
        a <= b <= v@.len(),
    ensures
        r@ == page_of(v@.subrange(a as int, b as int)),
{
    let l = Ghost(v@.subrange(a as int, b as int));
    let i = find_char(v, '[', a, b);
    let st = if i < b {
        i + 1
    } else {
        a
    };
    let e = find_char(v, ']', st, b);
    proof {
        let rest = l@.skip(if index_of(l@, '[') >= 0 { index_of(l@, '[') + 1 } else { 0 });
        assert(rest =~= v@.subrange(st as int, b as int));
        if e < b {
            assert(rest.take(e - st) =~= v@.subrange(st as int, e as int));
        }
    }
    substring(s, st, e)
}

impl Journal {
    /// A journal that no date names yet: the sentinel for "no journal page".
    pub fn new() -> (r: Journal)
        ensures
            r.date@.len() == 0,
            r.description@.len() == 0,
            r.pages@.len() == 0,
    {
        Journal { date: String::new(), description: String::new(), pages: Vec::new() }
    }

    /// An empty journal page for today.
    pub fn todays_journal() -> (r: Journal)
        ensures
            exists|y: i32, m: u32, d: u32|
                1 <= m <= 12 && 1 <= d <= 31 && r.date@ == date_text(y as int, m as nat, d as nat),
            r.description@.len() == 0,
            r.pages@.len() == 0,
    {
        Journal::dated(todays_date())
    }

    /// An empty journal page for `date`.
    pub fn dated(date: String) -> (r: Journal)
        ensures
            r.date@ == date@,
            r.description@.len() == 0,
            r.pages@.len() == 0,
    {
        Journal { date, description: String::new(), pages: Vec::new() }
    }

    /// Adds `title` to the page titles at its sorted place, unless it is
    /// already there.
    pub fn add_page(&mut self, title: String)
        ensures
            final(self).date@ == old(self).date@,
            final(self).description@ == old(self).description@,
            strs(old(self).pages@).contains(title@) ==> strs(final(self).pages@) == strs(
                old(self).pages@,
            ),
            page_added(strs(old(self).pages@), title@, strs(final(self).pages@)),
            sorted_titles(strs(old(self).pages@)) ==> sorted_titles(strs(final(self).pages@)),
    {
        let ghost s = strs(self.pages@);
        let n = self.pages.len();
        let mut k: usize = 0;
        while k < n
            invariant
                n == self.pages@.len(),
                s == strs(self.pages@),
                k <= n,
                forall|j: int| 0 <= j < k ==> s[j] != title@,
            decreases n - k,
        {
            if self.pages[k] == title {
                assert(s[k as int] == title@);
                return;
            }
            k = k + 1;
        }
        proof {
            if s.contains(title@) {
                let j = choose|j: int| 0 <= j < s.len() && s[j] == title@;
                assert(s[j] != title@);
            }
        }
        let mut i: usize = 0;
        proof {
            assert(s.skip(0) =~= s);
        }
        while i < n && str_less(self.pages[i].as_str(), title.as_str())
            invariant
                n == self.pages@.len(),
                s == strs(self.pages@),
                i <= n,
                insert_pos(s, title@) == i + insert_pos(s.skip(i as int), title@),
            decreases n - i,
        {
            proof {
                assert(s.skip(i as int).drop_first() =~= s.skip(i + 1));
            }
            i = i + 1;
        }
        self.pages.insert(i, title);
        proof {
            assert(strs(self.pages@) =~= s.insert(i as int, title@));
            if sorted_titles(s) {
                lemma_page_added_sorted(s, title@, strs(self.pages@));
            }
        }
    }

    /// Reads the journal page called `name` from its text; fails with
    /// `FormatError` exactly when the text holds no `---`.
    pub fn from_str(name: &str, text: &str) -> (r: Result<Journal, FileError>)
        ensures
            match parse_journal(text@) {
                None => r == Err::<Journal, FileError>(FileError::FormatError),
                Some((d, ps)) => r matches Ok(j) && j.date@ == name@ && j.description@ == d
                    && strs(j.pages@) == ps,
            },
    {
        let v = char_vec(text);
        let n = v.len();
        let sep: Vec<char> = vec!['-', '-', '-'];
        let k = match find_seq(&v, &sep) {
            Some(k) => k,
            None => {
                return Err(FileError::FormatError);
            },
        };
        proof {
            assert(sep@ =~= dashes());
            lemma_index_of_seq(v@, sep@);
        }
        let dend = if k > 0 && v[k - 1] == '\n' {
            k - 1
        } else {
            k
        };
        proof {
            assert(chomp(text@.take(k as int)) =~= v@.subrange(0, dend as int));
        }
        let description = substring(text, 0, dend);
        let mut bs = k + 3;
        if bs < n && v[bs] == '\n' {
            bs = bs + 1;
        }
        let ghost block = v@.subrange(bs as int, n as int);
        proof {
            assert(unlead(text@.skip(k + 3)) =~= block);
        }
        let mut pages: Vec<String> = Vec::new();
        let mut i = bs;
        proof {
            assert(v@.subrange(i as int, n as int) == block);
            assert(strs(pages@) =~= Seq::<Seq<char>>::empty());
        }
        while i < n
            invariant
                bs <= i <= n,
                n == v@.len(),
                v@ == text@,
                block == v@.subrange(bs as int, n as int),
                strs(pages@) + lines(v@.subrange(i as int, n as int)).map_values(
                    |l: Seq<char>| page_of(l),
                ) == lines(block).map_values(|l: Seq<char>| page_of(l)),
            decreases n - i,
        {
            let j = find_char(&v, '\n', i, n);
            let p = page_in(text, &v, i, j);
            proof {
                let t = v@.subrange(i as int, n as int);
                let x = v@.subrange(i as int, j as int);
                if j < n {
                    assert(t =~= x + seq!['\n'] + v@.subrange(j + 1, n as int));
                    lemma_lines_cons(x, v@.subrange(j + 1, n as int));
                } else {
                    assert(x =~= t);
                    lemma_lines_single(x);
                }
                lemma_strs_push(pages@, p);
            }
            pages.push(p);
            i = if j < n {
                j + 1
            } else {
                n
            };
            proof {
                let rest = lines(v@.subrange(i as int, n as int));
                if j == n {
                    assert(v@.subrange(i as int, n as int) =~= Seq::<char>::empty());
                    assert(rest =~= Seq::<Seq<char>>::empty());
                }
                assert(strs(pages@) + rest.map_values(|l: Seq<char>| page_of(l)) =~= lines(
                    block,
                ).map_values(|l: Seq<char>| page_of(l)));
            }
        }
        proof {
            assert(v@.subrange(i as int, n as int) =~= Seq::<char>::empty());
            assert(strs(pages@) =~= lines(block).map_values(|l: Seq<char>| page_of(l)));
        }
        Ok(Journal { date: String::from_str(name), description, pages })
    }

    /// The text of this journal page as it is stored.
    pub fn to_str(&self) -> (r: String)
        ensures
            r@ == journal_text(self.description@, strs(self.pages@)),
    {
        let mut out = self.description.clone();
        out.append("\n---\n");
        proof {
            reveal_strlit("\n---\n");
            assert(strs(self.pages@).take(0) =~= Seq::<Seq<char>>::empty());
            assert(out@ =~= self.description@ + seq!['\n'] + dashes() + seq!['\n'] + pages_text(
                strs(self.pages@).take(0),
            ));
        }
        let mut i: usize = 0;
        while i < self.pages.len()
            invariant
                i <= self.pages@.len(),
                out@ == self.description@ + seq!['\n'] + dashes() + seq!['\n'] + pages_text(
                    strs(self.pages@).take(i as int),
                ),
            decreases self.pages@.len() - i,
        {
            out.append("[");
            out.append(self.pages[i].as_str());
            out.append("]\n");
            proof {
                reveal_strlit("[");
                reveal_strlit("]\n");
                let ps = strs(self.pages@);
                assert(ps.take(i + 1) =~= ps.take(i as int).push(ps[i as int]));
                lemma_pages_text_push(ps.take(i as int), ps[i as int]);
                assert(out@ =~= self.description@ + seq!['\n'] + dashes() + seq!['\n']
                    + pages_text(ps.take(i + 1)));
            }
            i = i + 1;
        }
        proof {
            assert(strs(self.pages@).take(i as int) =~= strs(self.pages@));
        }
        out
    }
}

} // verus!
