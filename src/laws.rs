//! Laws that relate several functions of the library: reading back what was
//! written gives back the entity.

use vstd::prelude::*;
use crate::journal::{
    chomp, dashes, journal_text, page_line, page_of, pages_text, parse_journal, unlead, Journal,
};
use crate::text::{
    index_of, index_of_seq, lemma_index_of_found, lemma_index_of_seq, lemma_lines_cons, lines,
    no_char, strs,
};
use crate::trail::{
    arrow, block_desc, block_link, hop_block, hops_of, hops_text, is_block, pairs, parse_trail,
    trail_sep, trail_text, Trail,
};

verus! {

/// A page title that its file line gives back: no brackets, no newline.
pub open spec fn plain_title(p: Seq<char>) -> bool {
    no_char(p, '[') && no_char(p, ']') && no_char(p, '\n')
}

/// A journal description that holds no `---`, so that the separator written
/// after it is the first one.
pub open spec fn plain_journal_description(d: Seq<char>) -> bool {
    forall|k: int| 0 <= k && k + 3 <= d.len() ==> #[trigger] d.subrange(k, k + 3) != dashes()
}

/// A trail description that holds no line `---`, so that the separator line
/// written after it is the first one.
pub open spec fn plain_trail_description(d: Seq<char>) -> bool {
    forall|k: int|
        0 <= k && k + 5 <= d.len() + 1 ==> #[trigger] d.push('\n').subrange(k, k + 5)
            != trail_sep()
}

/// A hop that its block gives back: a link and an annotation, neither empty
/// nor holding a newline.
pub open spec fn plain_hop(h: (Seq<char>, Seq<char>)) -> bool {
    h.0.len() > 0 && h.1.len() > 0 && no_char(h.0, '\n') && no_char(h.1, '\n')
}

proof fn lemma_page_line(p: Seq<char>)
    requires
        plain_title(p),
    ensures
        page_of(seq!['['] + p + seq![']']) == p,
{
    let x = seq!['['] + p + seq![']'];
    assert(x.take(0) =~= Seq::<char>::empty());
    lemma_index_of_found(x, '[', 0);
    let rest = x.skip(1);
    assert(rest =~= p + seq![']']);
    assert(rest.take(p.len() as int) =~= p);
    lemma_index_of_found(rest, ']', p.len() as int);
}

proof fn lemma_pages_lines(ps: Seq<Seq<char>>)
    requires
        forall|i: int| 0 <= i < ps.len() ==> plain_title(#[trigger] ps[i]),
    ensures
        lines(pages_text(ps)).map_values(|l: Seq<char>| page_of(l)) == ps,
    decreases ps.len(),
{
    if ps.len() > 0 {
        let p = ps[0];
        let x = seq!['['] + p + seq![']'];
        let r = pages_text(ps.drop_first());
        assert(plain_title(p));
        assert forall|k: int| 0 <= k < x.len() implies #[trigger] x[k] != '\n' by {
            if 0 < k < x.len() - 1 {
                assert(x[k] == p[k - 1]);
            }
        }
        assert(page_line(p) + r =~= x + seq!['\n'] + r);
        lemma_lines_cons(x, r);
        lemma_pages_lines(ps.drop_first());
        lemma_page_line(p);
        assert(pages_text(ps) == page_line(p) + r);
        let ls = lines(pages_text(ps));
        assert(ls == seq![x] + lines(r));
        let mr = lines(r).map_values(|l: Seq<char>| page_of(l));
        let ml = ls.map_values(|l: Seq<char>| page_of(l));
        assert forall|k: int| 0 <= k < ps.len() implies #[trigger] ml[k] == ps[k] by {
            if k > 0 {
                assert(ls[k] == lines(r)[k - 1]);
                assert(mr[k - 1] == ps.drop_first()[k - 1]);
            }
        }
        assert(ml =~= ps);
    } else {
        assert(lines(pages_text(ps)) =~= Seq::<Seq<char>>::empty());
        assert(lines(pages_text(ps)).map_values(|l: Seq<char>| page_of(l)) =~= ps);
    }
}

/// Reading back the text that a journal page is written as gives back its
/// description and its page titles, whenever the description holds no `---`
/// and no title holds a bracket or a newline.
pub proof fn law_journal_round_trip(j: &Journal)
    requires
        plain_journal_description(j.description@),
        forall|i: int| 0 <= i < j.pages@.len() ==> plain_title(#[trigger] j.pages@[i]@),
    ensures
        parse_journal(journal_text(j.description@, strs(j.pages@))) == Some(
            (j.description@, strs(j.pages@)),
        ),
{
    let d = j.description@;
    let ps = strs(j.pages@);
    let s = journal_text(d, ps);
    let m: int = d.len() + 1int;
    assert(s.subrange(m, m + 3) =~= dashes());
    assert forall|k: int| 0 <= k < m implies #[trigger] s.subrange(k, k + 3) != dashes() by {
        if k + 3 <= d.len() {
            assert(s.subrange(k, k + 3) =~= d.subrange(k, k + 3));
        } else {
            assert(s.subrange(k, k + 3)[d.len() - k] == '\n');
        }
    }
    lemma_index_of_seq(s, dashes());
    let i = index_of_seq(s, dashes());
    if i != m {
        if 0 <= i < m {
            assert(s.subrange(i, i + 3) != dashes());
        } else {
            assert(s.subrange(m, m + 3) != dashes());
        }
    }
    assert(chomp(s.take(m)) =~= d);
    assert(unlead(s.skip(m + 3)) =~= pages_text(ps));
    assert forall|k: int| 0 <= k < ps.len() implies plain_title(#[trigger] ps[k]) by {
        assert(ps[k] == j.pages@[k]@);
    }
    lemma_pages_lines(ps);
}

proof fn lemma_hops_lines(hs: Seq<(Seq<char>, Seq<char>)>)
    requires
        forall|i: int| 0 <= i < hs.len() ==> plain_hop(#[trigger] hs[i]),
    ensures
        hops_of(lines(hops_text(hs))) == Some(hs),
    decreases hs.len(),
{
    if hs.len() > 0 {
        let h = hs[0];
        assert(plain_hop(h));
        let a = seq!['['] + h.0 + seq![']'];
        let b = seq!['('] + h.1 + seq![')'];
        let c = arrow();
        let r = hops_text(hs.drop_first());
        assert forall|k: int| 0 <= k < a.len() implies #[trigger] a[k] != '\n' by {
            if 0 < k < a.len() - 1 {
                assert(a[k] == h.0[k - 1]);
            }
        }
        assert forall|k: int| 0 <= k < b.len() implies #[trigger] b[k] != '\n' by {
            if 0 < k < b.len() - 1 {
                assert(b[k] == h.1[k - 1]);
            }
        }
        assert(no_char(c, '\n'));
        assert(hop_block(h) + r =~= a + seq!['\n'] + (b + seq!['\n'] + (c + seq!['\n'] + r)));
        lemma_lines_cons(c, r);
        lemma_lines_cons(b, c + seq!['\n'] + r);
        lemma_lines_cons(a, b + seq!['\n'] + (c + seq!['\n'] + r));
        let ls = lines(hops_text(hs));
        assert(ls =~= seq![a, b, c] + lines(r));
        assert(a.take(0) =~= Seq::<char>::empty());
        lemma_index_of_found(a, '[', 0);
        assert(is_block(ls[0], ls[1], ls[2]));
        assert(block_link(a) =~= h.0);
        assert(block_desc(b) =~= h.1);
        assert(ls.skip(3) =~= lines(r));
        lemma_hops_lines(hs.drop_first());
        assert(seq![h] + hs.drop_first() =~= hs);
    } else {
        assert(lines(hops_text(hs)) =~= Seq::<Seq<char>>::empty());
        assert(hs =~= Seq::<(Seq<char>, Seq<char>)>::empty());
    }
}

/// Reading back the text that a trail is written as gives back its
/// description and its hops, whenever the description holds no line `---`
/// and every link and annotation is non-empty and holds no newline.
pub proof fn law_trail_round_trip(t: &Trail)
    requires
        plain_trail_description(t.description@),
        forall|i: int| 0 <= i < t.hops@.len() ==> plain_hop(#[trigger] pairs(t.hops@)[i]),
    ensures
        parse_trail(trail_text(t.description@, pairs(t.hops@))) == Ok::<
            (Seq<char>, Seq<(Seq<char>, Seq<char>)>),
            crate::error::TrailError,
        >((t.description@, pairs(t.hops@))),
{
    let d = t.description@;
    let hs = pairs(t.hops@);
    let s = trail_text(d, hs);
    let w = s.push('\n');
    let m: int = d.len() as int;
    assert(w.subrange(m, m + 5) =~= trail_sep());
    assert forall|k: int| 0 <= k < m implies #[trigger] w.subrange(k, k + 5) != trail_sep() by {
        if k + 4 <= m {
            assert(w.subrange(k, k + 5) =~= d.push('\n').subrange(k, k + 5));
        } else {
            assert(w.subrange(k, k + 5)[m - k] == '\n');
            assert(trail_sep()[m - k] == '-');
        }
    }
    lemma_index_of_seq(w, trail_sep());
    let i = index_of_seq(w, trail_sep());
    if i != m {
        if 0 <= i < m {
            assert(w.subrange(i, i + 5) != trail_sep());
        } else {
            assert(w.subrange(m, m + 5) != trail_sep());
        }
    }
    assert(s.skip(m + 5) =~= hops_text(hs));
    assert(s.take(m) =~= d);
    lemma_hops_lines(hs);
}

} // verus!
