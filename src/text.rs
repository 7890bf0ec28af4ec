//! Character-level primitives shared by the codecs: the spec functions that
//! define searching and line splitting, and executable searches proved
//! against them.

use vstd::prelude::*;
use vstd::string::*;

verus! {

/// Index of the first `c` in `s`, or -1 when `s` holds none.
pub open spec fn index_of(s: Seq<char>, c: char) -> int
    decreases s.len(),
{
    if s.len() == 0 {
        -1
    } else if s[0] == c {
        0
    } else {
        let k = index_of(s.drop_first(), c);
        if k < 0 {
            -1
        } else {
            k + 1
        }
    }
}

/// Index of the first occurrence of `p` inside `s`, or -1 when there is none.
pub open spec fn index_of_seq(s: Seq<char>, p: Seq<char>) -> int
    decreases s.len(),
{
    if s.len() < p.len() {
        -1
    } else if s.take(p.len() as int) == p {
        0
    } else if s.len() == 0 {
        -1
    } else {
        let k = index_of_seq(s.drop_first(), p);
        if k < 0 {
            -1
        } else {
            k + 1
        }
    }
}

/// The lines of `s`: the pieces between newline characters, where a newline
/// that ends the text closes the last line instead of opening an empty one.
pub open spec fn lines(s: Seq<char>) -> Seq<Seq<char>>
    decreases s.len(),
{
    if s.len() == 0 {
        seq![]
    } else {
        let rest = lines(s.drop_first());
        if s[0] == '\n' {
            seq![Seq::<char>::empty()] + rest
        } else if rest.len() == 0 {
            seq![seq![s[0]]]
        } else {
            rest.update(0, seq![s[0]] + rest[0])
        }
    }
}

pub open spec fn no_char(s: Seq<char>, c: char) -> bool {
    forall|k: int| 0 <= k < s.len() ==> s[k] != c
}

pub proof fn lemma_index_of(s: Seq<char>, c: char)
    ensures
        ({
            let i = index_of(s, c);
            ||| (i == -1 && no_char(s, c))
            ||| (0 <= i < s.len() && s[i] == c && no_char(s.take(i), c))
        }),
    decreases s.len(),
{
    if s.len() > 0 && s[0] != c {
        lemma_index_of(s.drop_first(), c);
        let k = index_of(s.drop_first(), c);
        if k >= 0 {
            assert forall|j: int| 0 <= j < k + 1 implies #[trigger] s.take(k + 1)[j] != c by {
                if j > 0 {
                    assert(s.take(k + 1)[j] == s.drop_first().take(k)[j - 1]);
                }
            }
        } else {
            assert forall|j: int| 0 <= j < s.len() implies #[trigger] s[j] != c by {
                if j > 0 {
                    assert(s[j] == s.drop_first()[j - 1]);
                }
            }
        }
    }
}

/// `index_of` is fixed by where the first `c` stands.
pub proof fn lemma_index_of_found(s: Seq<char>, c: char, i: int)
    requires
        0 <= i < s.len(),
        s[i] == c,
        no_char(s.take(i), c),
    ensures
        index_of(s, c) == i,
{
    lemma_index_of(s, c);
    let r = index_of(s, c);
    if r != i {
        if r == -1 {
            assert(s[i] != c);
        } else if r < i {
            assert(s.take(i)[r] == c);
        } else {
            assert(s.take(r)[i] == c);
        }
    }
}

pub proof fn lemma_index_of_absent(s: Seq<char>, c: char)
    requires
        no_char(s, c),
    ensures
        index_of(s, c) == -1,
{
    lemma_index_of(s, c);
    if index_of(s, c) != -1 {
        assert(s[index_of(s, c)] == c);
    }
}

pub proof fn lemma_index_of_seq(s: Seq<char>, p: Seq<char>)
    ensures
        ({
            let i = index_of_seq(s, p);
            ||| (i == -1 && forall|k: int|
                0 <= k && k + p.len() <= s.len() ==> #[trigger] s.subrange(k, k + p.len()) != p)
            ||| (0 <= i && i + p.len() <= s.len() && s.subrange(i, i + p.len()) == p
                && forall|k: int| 0 <= k < i ==> #[trigger] s.subrange(k, k + p.len()) != p)
        }),
    decreases s.len(),
{
    if s.len() < p.len() {
    } else if s.take(p.len() as int) == p {
    } else if s.len() == 0 {
    } else {
        let t = s.drop_first();
        lemma_index_of_seq(t, p);
        let k = index_of_seq(t, p);
        assert forall|j: int| 1 <= j && j + p.len() <= s.len() implies #[trigger] s.subrange(j, j + p.len())
            == t.subrange(j - 1, j - 1 + p.len()) by {
            assert(s.subrange(j, j + p.len()) =~= t.subrange(j - 1, j - 1 + p.len()));
        }
        assert(s.subrange(0, p.len() as int) == s.take(p.len() as int));
        if k >= 0 {
            assert(s.subrange(k + 1, k + 1 + p.len()) == t.subrange(k, k + p.len()));
            assert forall|j: int| 0 <= j < k + 1 implies #[trigger] s.subrange(j, j + p.len())
                != p by {
                if j > 0 {
                    assert(s.subrange(j, j + p.len()) == t.subrange(j - 1, j - 1 + p.len()));
                }
            }
        } else {
            assert forall|j: int| 0 <= j && j + p.len() <= s.len() implies #[trigger] s.subrange(
                j,
                j + p.len(),
            ) != p by {
                if j > 0 {
                    assert(s.subrange(j, j + p.len()) == t.subrange(j - 1, j - 1 + p.len()));
                }
            }
        }
    }
}

/// A line without a newline, then a newline, starts the lines of the text.
pub proof fn lemma_lines_cons(x: Seq<char>, r: Seq<char>)
    requires
        no_char(x, '\n'),
    ensures
        lines(x + seq!['\n'] + r) == seq![x] + lines(r),
    decreases x.len(),
{
    let s = x + seq!['\n'] + r;
    if x.len() == 0 {
        assert(s.drop_first() =~= r);
        assert(s[0] == '\n');
        assert(x =~= Seq::<char>::empty());
    } else {
        let x1 = x.drop_first();
        assert(s.drop_first() =~= x1 + seq!['\n'] + r);
        lemma_lines_cons(x1, r);
        assert(s[0] == x[0]);
        assert(seq![x[0]] + x1 =~= x);
        assert(lines(s) =~= seq![x] + lines(r));
    }
}

/// Text without a newline is one line.
pub proof fn lemma_lines_single(x: Seq<char>)
    requires
        x.len() > 0,
        no_char(x, '\n'),
    ensures
        lines(x) == seq![x],
    decreases x.len(),
{
    let x1 = x.drop_first();
    assert(x[0] != '\n');
    assert forall|k: int| 0 <= k < x1.len() implies #[trigger] x1[k] != '\n' by {
        assert(x1[k] == x[k + 1]);
    }
    if x1.len() > 0 {
        lemma_lines_single(x1);
        assert(seq![x[0]] + x1 =~= x);
        let rest = lines(x1);
        assert(rest == seq![x1]);
        assert(lines(x) == rest.update(0, seq![x[0]] + rest[0]));
        assert(lines(x) =~= seq![x]);
    } else {
        assert(seq![x[0]] =~= x);
        assert(lines(x1) =~= Seq::<Seq<char>>::empty());
    }
}

/// The characters of `s`, one by one.
pub fn char_vec(s: &str) -> (r: Vec<char>)
    ensures
        r@ == s@,
{
    let n = s.unicode_len();
    let mut v: Vec<char> = Vec::new();
    let mut i: usize = 0;
    while i < n
        invariant
            i <= n,
            n == s@.len(),
            v@ == s@.take(i as int),
        decreases n - i,
    {
        let c = s.get_char(i);
        v.push(c);
        i = i + 1;
        assert(v@ =~= s@.take(i as int));
    }
    assert(v@ =~= s@);
    v
}

/// The characters of `s` from `from` up to `to`, as a new string.
pub fn substring(s: &str, from: usize, to: usize) -> (r: String)
    requires
        from <= to <= s@.len(),
    ensures
        r@ == s@.subrange(from as int, to as int),
{
    String::from_str(s.substring_char(from, to))
}

/// Position of the first `c` in `v[from..to]`, or `to` when it holds none.
pub fn find_char(v: &Vec<char>, c: char, from: usize, to: usize) -> (r: usize)
    requires
        from <= to <= v@.len(),
    ensures
        from <= r <= to,
        r < to ==> v@[r as int] == c,
        forall|k: int| from <= k < r ==> v@[k] != c,
        index_of(v@.subrange(from as int, to as int), c) == if r < to {
            r - from
        } else {
            -1
        },
{
    let mut i = from;
    while i < to && v[i] != c
        invariant
            from <= i <= to <= v@.len(),
            forall|k: int| from <= k < i ==> v@[k] != c,
        decreases to - i,
    {
        i = i + 1;
    }
    proof {
        let s = v@.subrange(from as int, to as int);
        if i < to {
            assert(s.take(i - from) =~= v@.subrange(from as int, i as int));
            lemma_index_of_found(s, c, i - from);
        } else {
            lemma_index_of_absent(s, c);
        }
    }
    i
}

/// Whether `p` occurs in `v` at position `k`.
fn matches_at(v: &Vec<char>, p: &Vec<char>, k: usize) -> (r: bool)
    requires
        k + p@.len() <= v@.len(),
    ensures
        r == (v@.subrange(k as int, k + p@.len()) == p@),
{
    let n = v.len();
    let mut j: usize = 0;
    while j < p.len()
        invariant
            n == v@.len(),
            j <= p@.len(),
            k + p@.len() <= v@.len(),
            v@.subrange(k as int, k + j) == p@.take(j as int),
        decreases p@.len() - j,
    {
        if v[k + j] != p[j] {
            assert(v@.subrange(k as int, k + p@.len())[j as int] != p@[j as int]);
            return false;
        }
        j = j + 1;
        assert(v@.subrange(k as int, k + j) =~= p@.take(j as int));
    }
    assert(p@.take(j as int) =~= p@);
    true
}

/// Position of the first occurrence of `p` in `v`, if there is one.
pub fn find_seq(v: &Vec<char>, p: &Vec<char>) -> (r: Option<usize>)
    ensures
        match r {
            Some(k) => index_of_seq(v@, p@) == k,
            None => index_of_seq(v@, p@) == -1,
        },
{
    proof {
        lemma_index_of_seq(v@, p@);
    }
    if p.len() > v.len() {
        return None;
    }
    let last = v.len() - p.len();
    let mut k: usize = 0;
    loop
        invariant
            k <= last,
            last + p@.len() == v@.len(),
            forall|j: int| 0 <= j < k ==> #[trigger] v@.subrange(j, j + p@.len()) != p@,
        decreases last - k,
    {
        if matches_at(v, p, k) {
            proof {
                lemma_index_of_seq(v@, p@);
                let i = index_of_seq(v@, p@);
                assert(v@.subrange(k as int, k + p@.len()) == p@);
                if i != k {
                    if 0 <= i < k {
                        assert(v@.subrange(i, i + p@.len()) != p@);
                    } else {
                        assert(v@.subrange(k as int, k + p@.len()) != p@);
                    }
                }
            }
            return Some(k);
        }
        if k == last {
            proof {
                lemma_index_of_seq(v@, p@);
                let i = index_of_seq(v@, p@);
                if i >= 0 {
                    assert(v@.subrange(i, i + p@.len()) != p@);
                }
            }
            return None;
        }
        k = k + 1;
    }
}

} // verus!

verus! {

/// The character sequences held by a list of strings.
pub open spec fn strs(v: Seq<String>) -> Seq<Seq<char>> {
    v.map_values(|s: String| s@)
}

/// `strs` of a list with one more string at the end.
pub proof fn lemma_strs_push(v: Seq<String>, s: String)
    ensures
        strs(v.push(s)) == strs(v).push(s@),
{
    assert(strs(v.push(s)) =~= strs(v).push(s@));
}

} // verus!

verus! {

/// Lexicographic order on character sequences, by code point; the order in
/// which std compares the UTF-8 bytes of two strings.
pub open spec fn str_lt(a: Seq<char>, b: Seq<char>) -> bool
    decreases a.len(),
{
    if a.len() == 0 {
        b.len() > 0
    } else if b.len() == 0 {
        false
    } else if a[0] != b[0] {
        a[0] < b[0]
    } else {
        str_lt(a.drop_first(), b.drop_first())
    }
}

/// Whether `a` comes strictly before `b`.
pub fn str_less(a: &str, b: &str) -> (r: bool)
    ensures
        r == str_lt(a@, b@),
{
    let va = char_vec(a);
    let vb = char_vec(b);
    let mut i: usize = 0;
    proof {
        assert(va@ =~= va@.skip(0));
        assert(vb@ =~= vb@.skip(0));
    }
    while i < va.len() && i < vb.len() && va[i] == vb[i]
        invariant
            i <= va@.len(),
            i <= vb@.len(),
            str_lt(va@.skip(i as int), vb@.skip(i as int)) == str_lt(a@, b@),
        decreases va@.len() - i,
    {
        proof {
            assert(va@.skip(i as int).drop_first() =~= va@.skip(i + 1));
            assert(vb@.skip(i as int).drop_first() =~= vb@.skip(i + 1));
        }
        i = i + 1;
    }
    if i == va.len() {
        i < vb.len()
    } else if i == vb.len() {
        false
    } else {
        va[i] < vb[i]
    }
}

} // verus!

verus! {

pub proof fn lemma_str_lt_transitive(a: Seq<char>, b: Seq<char>, c: Seq<char>)
    requires
        str_lt(a, b),
        str_lt(b, c),
    ensures
        str_lt(a, c),
    decreases a.len(),
{
    if a.len() > 0 && b.len() > 0 && c.len() > 0 && a[0] == b[0] && b[0] == c[0] {
        lemma_str_lt_transitive(a.drop_first(), b.drop_first(), c.drop_first());
    }
}

pub proof fn lemma_str_lt_total(a: Seq<char>, b: Seq<char>)
    requires
        a != b,
    ensures
        str_lt(a, b) || str_lt(b, a),
    decreases a.len(),
{
    if a.len() == 0 && b.len() == 0 {
        assert(a =~= b);
    }
    if a.len() > 0 && b.len() > 0 && a[0] == b[0] {
        if a.drop_first() == b.drop_first() {
            assert(a =~= seq![a[0]] + a.drop_first());
            assert(b =~= seq![b[0]] + b.drop_first());
        }
        lemma_str_lt_total(a.drop_first(), b.drop_first());
    }
}

} // verus!
