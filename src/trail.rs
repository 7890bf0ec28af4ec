//! Trails: a named, described, ordered path of hops, each a link to a note and
//! a short annotation.

use vstd::prelude::*;
use vstd::string::*;
use crate::error::{FileError, TrailError};
use crate::text::{
    char_vec, find_char, find_seq, index_of, index_of_seq, lemma_index_of_seq, lemma_lines_cons,
    lemma_lines_single, lemma_str_lt_total, lemma_str_lt_transitive, lines, str_less, str_lt,
    substring,
};

verus! {

/// The line that closes a trail's description, with the newlines around it.
pub open spec fn trail_sep() -> Seq<char> {
    seq!['\n', '-', '-', '-', '\n']
}

/// The line that closes a hop block.
pub open spec fn arrow() -> Seq<char> {
    seq!['-', '>']
}

/// Whether three lines form a hop block: a line ending in `]` with a `[`
/// before it, a line `(...)`, and a line `->`.
pub open spec fn is_block(a: Seq<char>, b: Seq<char>, c: Seq<char>) -> bool {
    &&& a.len() >= 2 && a.last() == ']' && 0 <= index_of(a, '[') < a.len() - 1
    &&& b.len() >= 2 && b[0] == '(' && b.last() == ')'
    &&& c == arrow()
}

/// The link of a block's first line: what stands between its first `[` and its final `]`.
pub open spec fn block_link(a: Seq<char>) -> Seq<char> {
    a.subrange(index_of(a, '[') + 1, a.len() - 1)
}

/// The annotation of a block's second line: what stands inside its parentheses.
pub open spec fn block_desc(b: Seq<char>) -> Seq<char> {
    b.subrange(1, b.len() - 1)
}

/// The hops that the blocks among `ls` give, in order; lines outside blocks
/// are passed over. `None` when a block has an empty link or annotation.
pub open spec fn hops_of(ls: Seq<Seq<char>>) -> Option<Seq<(Seq<char>, Seq<char>)>>
    decreases ls.len(),
{
    if ls.len() < 3 {
        Some(seq![])
    } else if is_block(ls[0], ls[1], ls[2]) {
        let link = block_link(ls[0]);
        let d = block_desc(ls[1]);
        if link.len() == 0 || d.len() == 0 {
            None
        } else {
            match hops_of(ls.skip(3)) {
                Some(h) => Some(seq![(link, d)] + h),
                None => None,
            }
        }
    } else {
        hops_of(ls.drop_first())
    }
}

/// What a trail's text holds: its description and hops, or why it holds none.
/// The description is everything before the first line `---`.
pub open spec fn parse_trail(s: Seq<char>) -> Result<
    (Seq<char>, Seq<(Seq<char>, Seq<char>)>),
    TrailError,
> {
    if s.len() == 0 {
        Err(TrailError::FileError(FileError::EmptyFileError))
    } else {
        let k = index_of_seq(s.push('\n'), trail_sep());
        if k < 0 {
            Err(TrailError::DescriptionError)
        } else {
            let body = if k + 5 <= s.len() {
                s.skip(k + 5)
            } else {
                seq![]
            };
            match hops_of(lines(body)) {
                None => Err(TrailError::BodyFormatError),
                Some(h) => Ok((s.take(k), h)),
            }
        }
    }
}

/// The block of one hop.
pub open spec fn hop_block(h: (Seq<char>, Seq<char>)) -> Seq<char> {
    seq!['['] + h.0 + seq![']', '\n', '('] + h.1 + seq![')', '\n', '-', '>', '\n']
}

/// The blocks of a list of hops, in order.
pub open spec fn hops_text(hs: Seq<(Seq<char>, Seq<char>)>) -> Seq<char>
    decreases hs.len(),
{
    if hs.len() == 0 {
        seq![]
    } else {
        hop_block(hs[0]) + hops_text(hs.drop_first())
    }
}

/// The text of a trail with this description and these hops.
pub open spec fn trail_text(description: Seq<char>, hs: Seq<(Seq<char>, Seq<char>)>) -> Seq<
    char,
> {
    description + trail_sep() + hops_text(hs)
}

/// The character sequences of a list of hops.
pub open spec fn pairs(v: Seq<(String, String)>) -> Seq<(Seq<char>, Seq<char>)> {
    v.map_values(|h: (String, String)| (h.0@, h.1@))
}

pub proof fn lemma_hops_text_push(hs: Seq<(Seq<char>, Seq<char>)>, h: (Seq<char>, Seq<char>))
    ensures
        hops_text(hs.push(h)) == hops_text(hs) + hop_block(h),
    decreases hs.len(),
{
    if hs.len() == 0 {
        assert(hs.push(h).drop_first() =~= hs);
        assert(hops_text(hs.push(h)) =~= hops_text(hs) + hop_block(h));
    } else {
        lemma_hops_text_push(hs.drop_first(), h);
        assert(hs.push(h).drop_first() =~= hs.drop_first().push(h));
        assert(hops_text(hs.push(h)) =~= hops_text(hs) + hop_block(h));
    }
}

/// The pieces of `v` that `r` marks.
pub open spec fn spans(v: Seq<char>, r: Seq<(usize, usize)>) -> Seq<Seq<char>> {
    r.map_values(|p: (usize, usize)| v.subrange(p.0 as int, p.1 as int))
}

/// Where each line of `v[from..n]` stands.
fn line_spans(v: &Vec<char>, from: usize, n: usize) -> (r: Vec<(usize, usize)>)
    requires
        from <= n <= v@.len(),
    ensures
        forall|i: int| 0 <= i < r@.len() ==> from <= (#[trigger] r@[i]).0 <= r@[i].1 <= n,
        spans(v@, r@) == lines(v@.subrange(from as int, n as int)),
{
    let mut acc: Vec<(usize, usize)> = Vec::new();
    let mut i = from;
    proof {
        assert(spans(v@, acc@) =~= Seq::<Seq<char>>::empty());
    }
    while i < n
        invariant
            from <= i <= n <= v@.len(),
            forall|k: int| 0 <= k < acc@.len() ==> from <= (#[trigger] acc@[k]).0 <= acc@[k].1 <= n,
            spans(v@, acc@) + lines(v@.subrange(i as int, n as int)) == lines(
                v@.subrange(from as int, n as int),
            ),
        decreases n - i,
    {
        let j = find_char(v, '\n', i, n);
        proof {
            let t = v@.subrange(i as int, n as int);
            let x = v@.subrange(i as int, j as int);
            if j < n {
                assert(t =~= x + seq!['\n'] + v@.subrange(j + 1, n as int));
                lemma_lines_cons(x, v@.subrange(j + 1, n as int));
            } else {
                assert(x =~= t);
                lemma_lines_single(x);
            }
            assert(spans(v@, acc@.push((i, j))) =~= spans(v@, acc@).push(x));
        }
        acc.push((i, j));
        i = if j < n {
            j + 1
        } else {
            n
        };
        proof {
            if j == n {
                assert(v@.subrange(i as int, n as int) =~= Seq::<char>::empty());
            }
            assert(spans(v@, acc@) + lines(v@.subrange(i as int, n as int)) =~= lines(
                v@.subrange(from as int, n as int),
            ));
        }
    }
    proof {
        assert(v@.subrange(i as int, n as int) =~= Seq::<char>::empty());
        assert(spans(v@, acc@) =~= lines(v@.subrange(from as int, n as int)));
    }
    acc
}

/// Whether the lines at `a`, `b` and `c` of `v` form a hop block.
fn is_block_at(v: &Vec<char>, a: (usize, usize), b: (usize, usize), c: (usize, usize)) -> (r: bool)
    requires
        a.0 <= a.1 <= v@.len(),
        b.0 <= b.1 <= v@.len(),
        c.0 <= c.1 <= v@.len(),
    ensures
        r == is_block(
            v@.subrange(a.0 as int, a.1 as int),
            v@.subrange(b.0 as int, b.1 as int),
            v@.subrange(c.0 as int, c.1 as int),
        ),
{
    let ghost la = v@.subrange(a.0 as int, a.1 as int);
    let ghost lb = v@.subrange(b.0 as int, b.1 as int);
    let ghost lc = v@.subrange(c.0 as int, c.1 as int);
    if a.1 - a.0 < 2 || v[a.1 - 1] != ']' {
        return false;
    }
    let i = find_char(v, '[', a.0, a.1);
    if i >= a.1 - 1 {
        return false;
    }
    if b.1 - b.0 < 2 || v[b.0] != '(' || v[b.1 - 1] != ')' {
        return false;
    }
    if c.1 - c.0 != 2 || v[c.0] != '-' || v[c.0 + 1] != '>' {
        assert(c.1 - c.0 != 2 ==> lc.len() != arrow().len());
        assert(c.1 - c.0 == 2 ==> lc[0] != arrow()[0] || lc[1] != arrow()[1]);
        return false;
    }
    assert(lc =~= arrow());
    true
}

/// Order on hops: by link, then by annotation.
pub open spec fn hop_lt(a: (Seq<char>, Seq<char>), b: (Seq<char>, Seq<char>)) -> bool {
    str_lt(a.0, b.0) || (a.0 == b.0 && str_lt(a.1, b.1))
}

/// Where `h` goes in a sorted list of hops: after every leading hop that comes before it.
pub open spec fn hop_pos(s: Seq<(Seq<char>, Seq<char>)>, h: (Seq<char>, Seq<char>)) -> int
    decreases s.len(),
{
    if s.len() > 0 && hop_lt(s[0], h) {
        1 + hop_pos(s.drop_first(), h)
    } else {
        0
    }
}

/// `new` is `old` with the hop `h` added: unchanged when `h` is already
/// there, else with `h` inserted at its sorted place.
pub open spec fn hop_added(
    old: Seq<(Seq<char>, Seq<char>)>,
    h: (Seq<char>, Seq<char>),
    new: Seq<(Seq<char>, Seq<char>)>,
) -> bool {
    if old.contains(h) {
        new == old
    } else {
        new == old.insert(hop_pos(old, h), h)
    }
}

/// Strictly increasing hops: sorted, and none twice.
pub open spec fn sorted_hops(s: Seq<(Seq<char>, Seq<char>)>) -> bool {
    forall|i: int, j: int| 0 <= i < j < s.len() ==> hop_lt(#[trigger] s[i], #[trigger] s[j])
}

proof fn lemma_hop_lt_transitive(
    a: (Seq<char>, Seq<char>),
    b: (Seq<char>, Seq<char>),
    c: (Seq<char>, Seq<char>),
)
    requires
        hop_lt(a, b),
        hop_lt(b, c),
    ensures
        hop_lt(a, c),
{
    if str_lt(a.0, b.0) && str_lt(b.0, c.0) {
        lemma_str_lt_transitive(a.0, b.0, c.0);
    } else if a.0 == b.0 && b.0 == c.0 {
        lemma_str_lt_transitive(a.1, b.1, c.1);
    }
}

proof fn lemma_hop_lt_total(a: (Seq<char>, Seq<char>), b: (Seq<char>, Seq<char>))
    requires
        a != b,
    ensures
        hop_lt(a, b) || hop_lt(b, a),
{
    if a.0 != b.0 {
        lemma_str_lt_total(a.0, b.0);
    } else {
        lemma_str_lt_total(a.1, b.1);
    }
}

proof fn lemma_hop_pos(s: Seq<(Seq<char>, Seq<char>)>, h: (Seq<char>, Seq<char>))
    ensures
        0 <= hop_pos(s, h) <= s.len(),
        forall|k: int| 0 <= k < hop_pos(s, h) ==> hop_lt(#[trigger] s[k], h),
        hop_pos(s, h) < s.len() ==> !hop_lt(s[hop_pos(s, h)], h),
    decreases s.len(),
{
    if s.len() > 0 && hop_lt(s[0], h) {
        lemma_hop_pos(s.drop_first(), h);
        assert forall|k: int| 0 <= k < hop_pos(s, h) implies hop_lt(#[trigger] s[k], h) by {
            if k > 0 {
                assert(s[k] == s.drop_first()[k - 1]);
            }
        }
    }
}

/// Adding a hop to a sorted list keeps it sorted.
pub proof fn lemma_hop_added_sorted(
    old: Seq<(Seq<char>, Seq<char>)>,
    h: (Seq<char>, Seq<char>),
    new: Seq<(Seq<char>, Seq<char>)>,
)
    requires
        sorted_hops(old),
        hop_added(old, h, new),
    ensures
        sorted_hops(new),
{
    if !old.contains(h) {
        let p = hop_pos(old, h);
        lemma_hop_pos(old, h);
        assert forall|k: int| p <= k < old.len() implies hop_lt(h, #[trigger] old[k]) by {
            assert(old[p] != h);
            lemma_hop_lt_total(old[p], h);
            if k > p {
                lemma_hop_lt_transitive(h, old[p], old[k]);
            }
        }
        assert forall|i: int, j: int| 0 <= i < j < new.len() implies hop_lt(
            #[trigger] new[i],
            #[trigger] new[j],
        ) by {
            if j < p {
                assert(new[i] == old[i] && new[j] == old[j]);
            } else if j == p {
                assert(new[i] == old[i] && new[j] == h);
            } else if i < p {
                assert(new[i] == old[i] && new[j] == old[j - 1]);
            } else if i == p {
                assert(new[i] == h && new[j] == old[j - 1]);
            } else {
                assert(new[i] == old[i - 1] && new[j] == old[j - 1]);
            }
        }
    }
}

fn hop_less(a: &(String, String), link: &String, desc: &String) -> (r: bool)
    ensures
        r == hop_lt((a.0@, a.1@), (link@, desc@)),
{
    str_less(a.0.as_str(), link.as_str()) || (a.0.eq(link) && str_less(a.1.as_str(), desc.as_str()))
}

/// A trail.
pub struct Trail {
    pub name: String,
    pub description: String,
    pub hops: Vec<(String, String)>,
}

impl Trail {
    /// A trail with no name: the sentinel for "no trail loaded".
    pub fn new() -> (r: Trail)
        ensures
            r.name@.len() == 0,
            r.description@.len() == 0,
            r.hops@.len() == 0,
    {
        Trail { name: String::new(), description: String::new(), hops: Vec::new() }
    }

    /// An empty trail called `name`.
    pub fn named(name: String) -> (r: Trail)
        ensures
            r.name@ == name@,
            r.description@.len() == 0,
            r.hops@.len() == 0,
    {
        Trail { name, description: String::new(), hops: Vec::new() }
    }

    /// Adds the hop `(link, desc)` at its sorted place, unless it is already there.
    pub fn add_hop(&mut self, link: String, desc: String)
        ensures
            final(self).name@ == old(self).name@,
            final(self).description@ == old(self).description@,
            pairs(old(self).hops@).contains((link@, desc@)) ==> pairs(final(self).hops@) == pairs(
                old(self).hops@,
            ),
            hop_added(pairs(old(self).hops@), (link@, desc@), pairs(final(self).hops@)),
            sorted_hops(pairs(old(self).hops@)) ==> sorted_hops(pairs(final(self).hops@)),
    {
        let ghost s = pairs(self.hops@);
        let ghost h = (link@, desc@);
        let n = self.hops.len();
        let mut k: usize = 0;
        while k < n
            invariant
                n == self.hops@.len(),
                s == pairs(self.hops@),
                h == (link@, desc@),
                k <= n,
                forall|j: int| 0 <= j < k ==> s[j] != h,
            decreases n - k,
        {
            assert(s[k as int] == (self.hops@[k as int].0@, self.hops@[k as int].1@));
            let cur = &self.hops[k];
            if cur.0.eq(&link) && cur.1.eq(&desc) {
                assert(s[k as int] == h);
                return;
            }
            k = k + 1;
        }
        proof {
            if s.contains(h) {
                let j = choose|j: int| 0 <= j < s.len() && s[j] == h;
                assert(s[j] != h);
            }
        }
        let mut i: usize = 0;
        proof {
            assert(s.skip(0) =~= s);
        }
        while i < n && hop_less(&self.hops[i], &link, &desc)
            invariant
                n == self.hops@.len(),
                s == pairs(self.hops@),
                h == (link@, desc@),
                i <= n,
                hop_pos(s, h) == i + hop_pos(s.skip(i as int), h),
            decreases n - i,
        {
            proof {
                assert(s[i as int] == (self.hops@[i as int].0@, self.hops@[i as int].1@));
                assert(s.skip(i as int).drop_first() =~= s.skip(i + 1));
            }
            i = i + 1;
        }
        self.hops.insert(i, (link, desc));
        proof {
            assert(pairs(self.hops@) =~= s.insert(i as int, h));
            if sorted_hops(s) {
                lemma_hop_added_sorted(s, h, pairs(self.hops@));
            }
        }
    }

    /// Reads the trail called `title` from its text.
    pub fn from_str(title: &str, trail: &str) -> (r: Result<Trail, TrailError>)
        ensures
            match parse_trail(trail@) {
                Err(e) => r == Err::<Trail, TrailError>(e),
                Ok((d, hs)) => r matches Ok(t) && t.name@ == title@ && t.description@ == d
                    && pairs(t.hops@) == hs,
            },
    {
        let mut w = char_vec(trail);
        let n = w.len();
        if n == 0 {
            return Err(TrailError::FileError(FileError::EmptyFileError));
        }
        w.push('\n');
        let wl = w.len();
        let sep: Vec<char> = vec!['\n', '-', '-', '-', '\n'];
        proof {
            assert(sep@ =~= trail_sep());
            lemma_index_of_seq(w@, sep@);
        }
        let k = match find_seq(&w, &sep) {
            Some(k) => k,
            None => {
                return Err(TrailError::DescriptionError);
            },
        };
        let description = substring(trail, 0, k);
        let bs = if k + 5 <= n {
            k + 5
        } else {
            n
        };
        let ghost body = if k + 5 <= n {
            trail@.skip(k + 5)
        } else {
            Seq::<char>::empty()
        };
        proof {
            assert(body =~= w@.subrange(bs as int, n as int));
            assert(trail@.take(k as int) =~= w@.subrange(0, k as int));
        }
        let ls = line_spans(&w, bs, n);
        let ghost all = lines(body);
        let mut hops: Vec<(String, String)> = Vec::new();
        let mut li: usize = 0;
        proof {
            assert(w@ =~= trail@.push('\n'));
            assert(all.skip(0) =~= all);
            assert(pairs(hops@) =~= Seq::<(Seq<char>, Seq<char>)>::empty());
        }
        while li < ls.len() && ls.len() - li >= 3
            invariant
                li <= ls@.len(),
                w@.len() == n + 1,
                n == trail@.len(),
                w@.take(n as int) == trail@,
                forall|i: int| 0 <= i < ls@.len() ==> bs <= (#[trigger] ls@[i]).0 <= ls@[i].1 <= n,
                spans(w@, ls@) == all,
                parse_trail(trail@) == match hops_of(all) {
                    None => Err(TrailError::BodyFormatError),
                    Some(h) => Ok((description@, h)),
                },
                hops_of(all) == match hops_of(all.skip(li as int)) {
                    Some(h) => Some(pairs(hops@) + h),
                    None => None::<Seq<(Seq<char>, Seq<char>)>>,
                },
            decreases ls@.len() - li,
        {
            let ghost rest = all.skip(li as int);
            let a = ls[li];
            let b = ls[li + 1];
            let c = ls[li + 2];
            proof {
                assert(rest[0] == all[li as int]);
                assert(rest[1] == all[li + 1]);
                assert(rest[2] == all[li + 2]);
                assert(all[li as int] == w@.subrange(a.0 as int, a.1 as int));
                assert(all[li + 1] == w@.subrange(b.0 as int, b.1 as int));
                assert(all[li + 2] == w@.subrange(c.0 as int, c.1 as int));
            }
            if is_block_at(&w, a, b, c) {
                let i = find_char(&w, '[', a.0, a.1);
                proof {
                    assert(rest.skip(3) =~= all.skip(li + 3));
                    assert(w@.subrange(i + 1, a.1 - 1) =~= block_link(rest[0]));
                    assert(w@.subrange(b.0 + 1, b.1 - 1) =~= block_desc(rest[1]));
                    assert(w@.subrange(i + 1, a.1 - 1) =~= trail@.subrange(i + 1, a.1 - 1));
                    assert(w@.subrange(b.0 + 1, b.1 - 1) =~= trail@.subrange(b.0 + 1, b.1 - 1));
                }
                if a.1 - 1 == i + 1 || b.1 - 1 == b.0 + 1 {
                    proof {
                        assert(index_of(rest[0], '[') == i - a.0);
                        assert(block_link(rest[0]).len() == 0 || block_desc(rest[1]).len() == 0);
                        assert(hops_of(rest) is None);
                    }
                    return Err(TrailError::BodyFormatError);
                }
                let link = substring(trail, i + 1, a.1 - 1);
                let d = substring(trail, b.0 + 1, b.1 - 1);
                proof {
                    assert(pairs(hops@.push((link, d))) =~= pairs(hops@).push((link@, d@)));
                }
                hops.push((link, d));
                li = li + 3;
                proof {
                    match hops_of(all.skip(li as int)) {
                        Some(h) => {
                            assert(pairs(hops@) + h =~= pairs(hops@.drop_last()) + (seq![
                                (link@, d@),
                            ] + h));
                        },
                        None => {},
                    }
                }
            } else {
                proof {
                    assert(rest.drop_first() =~= all.skip(li + 1));
                }
                li = li + 1;
            }
        }
        proof {
            assert(all.skip(li as int).len() < 3);
            assert(pairs(hops@) + Seq::<(Seq<char>, Seq<char>)>::empty() =~= pairs(hops@));
        }
        Ok(Trail { name: String::from_str(title), description, hops })
    }

    /// The text of this trail as it is stored.
    pub fn to_str(&self) -> (r: String)
        ensures
            r@ == trail_text(self.description@, pairs(self.hops@)),
    {
        let mut out = self.description.clone();
        out.append("\n---\n");
        proof {
            reveal_strlit("\n---\n");
            assert(pairs(self.hops@).take(0) =~= Seq::<(Seq<char>, Seq<char>)>::empty());
            assert(out@ =~= self.description@ + trail_sep() + hops_text(
                pairs(self.hops@).take(0),
            ));
        }
        let mut i: usize = 0;
        while i < self.hops.len()
            invariant
                i <= self.hops@.len(),
                out@ == self.description@ + trail_sep() + hops_text(
                    pairs(self.hops@).take(i as int),
                ),
            decreases self.hops@.len() - i,
        {
            out.append("[");
            out.append(self.hops[i].0.as_str());
            out.append("]\n(");
            out.append(self.hops[i].1.as_str());
            out.append(")\n->\n");
            proof {
                reveal_strlit("[");
                reveal_strlit("]\n(");
                reveal_strlit(")\n->\n");
                let hs = pairs(self.hops@);
                assert(hs.take(i + 1) =~= hs.take(i as int).push(hs[i as int]));
                lemma_hops_text_push(hs.take(i as int), hs[i as int]);
                assert(out@ =~= self.description@ + trail_sep() + hops_text(hs.take(i + 1)));
            }
            i = i + 1;
        }
        proof {
            assert(pairs(self.hops@).take(i as int) =~= pairs(self.hops@));
        }
        out
    }
}

} // verus!
