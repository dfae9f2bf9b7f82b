use vstd::prelude::*;
use vstd::string::StrSliceExecFns;
use vstd::string::StringExecFns;

verus! {

// A full command name encodes up to three hierarchy levels by embedding up
// to two single-space separators. This module gives the mathematical model
// of that encoding: the positions of the spaces, the boundary after each
// level, the prefix that covers the first k levels, and the text of each
// level on its own.

/// The indices of the space characters of `s`, in increasing order.
pub open spec fn space_positions(s: Seq<char>) -> Seq<int>
    decreases s.len(),
{
    if s.len() == 0 {
        Seq::empty()
    } else {
        let rest = space_positions(s.drop_last());
        if s[s.len() - 1] == ' ' {
            rest.push(s.len() - 1)
        } else {
            rest
        }
    }
}

/// The end position of each level of `s`: every space index, then the full
/// length. A name with k embedded spaces has k + 1 levels.
pub open spec fn boundaries(s: Seq<char>) -> Seq<int> {
    space_positions(s).push(s.len() as int)
}

/// How many levels `s` encodes.
pub open spec fn seg_count(s: Seq<char>) -> int {
    boundaries(s).len() as int
}

/// The prefix of `s` covering its first `k` levels; the empty sequence for
/// `k == 0`, and `s` itself for `k == seg_count(s)`.
pub open spec fn level_prefix(s: Seq<char>, k: int) -> Seq<char>
    recommends
        0 <= k <= seg_count(s),
{
    if k == 0 {
        Seq::empty()
    } else {
        s.take(boundaries(s)[k - 1])
    }
}

/// Where the text of level `k` (1-based) starts: position zero for the
/// first level, one past the separating space for the others.
pub open spec fn seg_start(s: Seq<char>, k: int) -> int
    recommends
        1 <= k <= seg_count(s),
{
    if k == 1 {
        0
    } else {
        boundaries(s)[k - 2] + 1
    }
}

/// The text of level `k` of `s` (1-based), without its separators.
pub open spec fn segment(s: Seq<char>, k: int) -> Seq<char>
    recommends
        1 <= k <= seg_count(s),
{
    s.subrange(seg_start(s, k), boundaries(s)[k - 1])
}

/// Space positions are in bounds, hold spaces, are strictly increasing,
/// and cover every space of `s`.
pub proof fn lemma_space_positions(s: Seq<char>)
    ensures
        forall|i: int|
            0 <= i < space_positions(s).len() ==> 0 <= #[trigger] space_positions(s)[i] < s.len()
                && s[space_positions(s)[i]] == ' ',
        forall|i: int, j: int|
            0 <= i < j < space_positions(s).len() ==> #[trigger] space_positions(s)[i]
                < #[trigger] space_positions(s)[j],
        forall|p: int| 0 <= p < s.len() && s[p] == ' ' ==> space_positions(s).contains(p),
    decreases s.len(),
{
    if s.len() > 0 {
        let s0 = s.drop_last();
        lemma_space_positions(s0);
        assert forall|p: int| 0 <= p < s.len() && s[p] == ' ' implies space_positions(
            s,
        ).contains(p) by {
            if p < s.len() - 1 {
                assert(s0[p] == ' ');
                let i = choose|i: int| 0 <= i < space_positions(s0).len() && space_positions(s0)[i] == p;
                assert(space_positions(s)[i] == p);
            } else {
                assert(space_positions(s).last() == p);
            }
        }
    }
}

/// Extending a prefix of `s` by one character extends its space positions
/// by that character's index exactly when the character is a space.
pub proof fn lemma_space_positions_step(s: Seq<char>, i: int)
    requires
        0 <= i < s.len(),
    ensures
        space_positions(s.take(i + 1)) == if s[i] == ' ' {
            space_positions(s.take(i)).push(i)
        } else {
            space_positions(s.take(i))
        },
{
    assert(s.take(i + 1).drop_last() =~= s.take(i));
    assert(s.take(i + 1)[i] == s[i]);
}

/// How many entries of `ps` lie strictly below `m`.
pub open spec fn count_below(ps: Seq<int>, m: int) -> int
    decreases ps.len(),
{
    if ps.len() == 0 {
        0
    } else {
        count_below(ps.drop_last(), m) + if ps.last() < m {
            1int
        } else {
            0int
        }
    }
}

proof fn lemma_count_below_split(ps: Seq<int>, m: int, j: int)
    requires
        0 <= j <= ps.len(),
        forall|i: int| 0 <= i < j ==> #[trigger] ps[i] < m,
        forall|i: int| j <= i < ps.len() ==> #[trigger] ps[i] >= m,
    ensures
        count_below(ps, m) == j,
    decreases ps.len(),
{
    if ps.len() > 0 {
        if ps.last() >= m {
            assert(j <= ps.len() - 1) by {
                if j == ps.len() {
                    assert(ps[ps.len() - 1] < m);
                }
            }
            lemma_count_below_split(ps.drop_last(), m, j);
        } else {
            assert(j == ps.len()) by {
                if j < ps.len() {
                    assert(ps[ps.len() - 1] >= m);
                }
            }
            lemma_count_below_split(ps.drop_last(), m, j - 1);
        }
    }
}

/// Truncating `s` keeps exactly the space positions below the cut.
pub proof fn lemma_space_positions_take(s: Seq<char>, m: int)
    requires
        0 <= m <= s.len(),
    ensures
        space_positions(s.take(m)) == space_positions(s).take(count_below(space_positions(s), m)),
        0 <= count_below(space_positions(s), m) <= space_positions(s).len(),
    decreases s.len(),
{
    lemma_space_positions(s);
    let ps = space_positions(s);
    if m == s.len() {
        lemma_count_below_split(ps, m, ps.len() as int);
        assert(s.take(m) =~= s);
        assert(ps.take(ps.len() as int) =~= ps);
    } else {
        let s0 = s.drop_last();
        lemma_space_positions_take(s0, m);
        let ps0 = space_positions(s0);
        assert(s.take(m) =~= s0.take(m));
        if s[s.len() - 1] == ' ' {
            assert(ps =~= ps0.push(s.len() - 1));
            assert(ps.drop_last() =~= ps0);
            assert(count_below(ps, m) == count_below(ps0, m));
            assert(ps.take(count_below(ps0, m)) =~= ps0.take(count_below(ps0, m)));
        } else {
            assert(ps =~= ps0);
        }
    }
}

/// The boundaries of a level prefix are the first `k` boundaries of the
/// full name, so the prefix encodes exactly `k` levels and its own levels
/// agree with those of the full name.
pub proof fn lemma_level_prefix_structure(s: Seq<char>, k: int)
    requires
        1 <= k <= seg_count(s),
    ensures
        boundaries(level_prefix(s, k)) == boundaries(s).take(k),
        seg_count(level_prefix(s, k)) == k,
        level_prefix(s, k).len() == boundaries(s)[k - 1],
        forall|j: int| 1 <= j <= k ==> level_prefix(level_prefix(s, k), j) == level_prefix(s, j),
        forall|j: int| 1 <= j <= k ==> segment(level_prefix(s, k), j) == segment(s, j),
{
    lemma_space_positions(s);
    let ps = space_positions(s);
    let cut = boundaries(s)[k - 1];
    let p = level_prefix(s, k);
    assert(0 <= cut <= s.len());
    lemma_space_positions_take(s, cut);
    if k - 1 < ps.len() {
        lemma_count_below_split(ps, cut, k - 1);
    } else {
        lemma_count_below_split(ps, cut, ps.len() as int);
    }
    assert(space_positions(p) == ps.take(k - 1));
    assert(boundaries(p) =~= boundaries(s).take(k));
    assert forall|j: int| 1 <= j <= k implies level_prefix(p, j) == level_prefix(s, j) by {
        assert(boundaries(p)[j - 1] == boundaries(s)[j - 1]);
        assert(p.take(boundaries(p)[j - 1]) =~= s.take(boundaries(s)[j - 1]));
    }
    assert forall|j: int| 1 <= j <= k implies segment(p, j) == segment(s, j) by {
        assert(boundaries(p)[j - 1] == boundaries(s)[j - 1]);
        assert(seg_start(p, j) == seg_start(s, j));
        assert(p.subrange(seg_start(p, j), boundaries(p)[j - 1]) =~= s.subrange(
            seg_start(s, j),
            boundaries(s)[j - 1],
        ));
    }
}

/// Boundaries strictly increase, so deeper level prefixes are strictly
/// longer; and the deepest prefix is the whole name.
pub proof fn lemma_level_prefix_grows(s: Seq<char>)
    ensures
        forall|j: int, k: int|
            1 <= j < k <= seg_count(s) ==> #[trigger] level_prefix(s, j).len()
                < #[trigger] level_prefix(s, k).len(),
        forall|k: int|
            1 <= k <= seg_count(s) ==> #[trigger] level_prefix(s, k).len() == boundaries(s)[k - 1],
        level_prefix(s, seg_count(s)) == s,
        seg_count(s) >= 1,
{
    lemma_space_positions(s);
    let bs = boundaries(s);
    let ps = space_positions(s);
    assert(level_prefix(s, seg_count(s)) =~= s);
    assert forall|k: int| 1 <= k <= seg_count(s) implies #[trigger] level_prefix(s, k).len()
        == boundaries(s)[k - 1] by {
        if k - 1 < ps.len() {
            assert(bs[k - 1] == ps[k - 1]);
        }
    }
    assert forall|j: int, k: int|
        1 <= j < k <= seg_count(s) implies #[trigger] level_prefix(s, j).len()
        < #[trigger] level_prefix(s, k).len() by {
        assert(bs[j - 1] == ps[j - 1]);
        if k - 1 < ps.len() {
            assert(ps[j - 1] < ps[k - 1]);
        } else {
            assert(bs[k - 1] == s.len());
        }
    }
}

/// A deeper level prefix is the shallower one, a space, and the deeper
/// level's own text.
pub proof fn lemma_level_prefix_extend(s: Seq<char>, k: int)
    requires
        1 <= k < seg_count(s),
    ensures
        level_prefix(s, k + 1) == level_prefix(s, k) + seq![' '] + segment(s, k + 1),
        s[boundaries(s)[k - 1]] == ' ',
{
    lemma_space_positions(s);
    let bs = boundaries(s);
    assert(bs[k - 1] == space_positions(s)[k - 1]);
    assert(s[bs[k - 1]] == ' ');
    assert(bs[k - 1] < bs[k]) by {
        if k < space_positions(s).len() {
            assert(space_positions(s)[k - 1] < space_positions(s)[k]);
        } else {
            assert(bs[k] == s.len());
        }
    }
    assert(level_prefix(s, k + 1) =~= level_prefix(s, k) + seq![' '] + segment(s, k + 1));
}

/// The indices of the space characters of `s`, in increasing order.
pub fn find_spaces(s: &str) -> (r: Vec<usize>)
    ensures
        r@.len() == space_positions(s@).len(),
        forall|i: int| 0 <= i < r@.len() ==> r@[i] as int == space_positions(s@)[i],
        forall|i: int| 0 <= i < r@.len() ==> r@[i] < s@.len(),
{
    let n = s.unicode_len();
    let mut r: Vec<usize> = Vec::new();
    let mut i: usize = 0;
    while i < n
        invariant
            i <= n,
            n == s@.len(),
            r@.len() == space_positions(s@.take(i as int)).len(),
            forall|j: int| 0 <= j < r@.len() ==> r@[j] as int == space_positions(s@.take(i as int))[j],
            forall|j: int| 0 <= j < r@.len() ==> r@[j] < i,
        decreases n - i,
    {
        let c = s.get_char(i);
        proof {
            lemma_space_positions_step(s@, i as int);
        }
        if c == ' ' {
            r.push(i);
        }
        i += 1;
    }
    proof {
        assert(s@.take(n as int) =~= s@);
    }
    r
}

/// The first `end` characters of `s` as an owned string.
pub fn prefix_to(s: &str, end: usize) -> (r: String)
    requires
        end <= s@.len(),
    ensures
        r@ == s@.take(end as int),
{
    String::from_str(s.substring_char(0, end))
}

/// The characters of `s` from `start` on, as an owned string.
pub fn suffix_from(s: &str, start: usize) -> (r: String)
    requires
        start <= s@.len(),
    ensures
        r@ == s@.subrange(start as int, s@.len() as int),
{
    let n = s.unicode_len();
    String::from_str(s.substring_char(start, n))
}

} // verus!
