//! Lexicographic order of texts by code point (the order `String`'s `Ord`
//! gives: UTF-8 byte order coincides with code-point order), and sorting
//! lists of distinct texts under it.
use vstd::prelude::*;
use crate::text::texts;

verus! {

pub open spec fn text_lt(a: Seq<char>, b: Seq<char>) -> bool
    decreases a.len(),
{
    if a.len() == 0 {
        b.len() > 0
    } else if b.len() == 0 {
        false
    } else if a[0] != b[0] {
        a[0] < b[0]
    } else {
        text_lt(a.drop_first(), b.drop_first())
    }
}

pub proof fn lemma_lt_irreflexive(a: Seq<char>)
    ensures
        !text_lt(a, a),
    decreases a.len(),
{
    if a.len() > 0 {
        lemma_lt_irreflexive(a.drop_first());
    }
}

pub proof fn lemma_lt_transitive(a: Seq<char>, b: Seq<char>, c: Seq<char>)
    requires
        text_lt(a, b),
        text_lt(b, c),
    ensures
        text_lt(a, c),
    decreases a.len(),
{
    if a.len() > 0 && b.len() > 0 && c.len() > 0 && a[0] == b[0] && b[0] == c[0] {
        lemma_lt_transitive(a.drop_first(), b.drop_first(), c.drop_first());
    }
}

pub proof fn lemma_lt_total(a: Seq<char>, b: Seq<char>)
    ensures
        a == b || text_lt(a, b) || text_lt(b, a),
    decreases a.len(),
{
    if a.len() > 0 && b.len() > 0 && a[0] == b[0] {
        lemma_lt_total(a.drop_first(), b.drop_first());
        if a.drop_first() == b.drop_first() {
            assert(a =~= seq![a[0]] + a.drop_first());
            assert(b =~= seq![b[0]] + b.drop_first());
        }
    } else if a.len() == 0 && b.len() == 0 {
        assert(a =~= b);
    }
}

pub proof fn lemma_lt_asymmetric(a: Seq<char>, b: Seq<char>)
    requires
        text_lt(a, b),
    ensures
        !text_lt(b, a),
{
    if text_lt(b, a) {
        lemma_lt_transitive(a, b, a);
        lemma_lt_irreflexive(a);
    }
}

/// `a` sorts strictly before `b`.
pub fn text_less(a: &Vec<char>, b: &Vec<char>) -> (r: bool)
    ensures
        r == text_lt(a@, b@),
{
    let mut i: usize = 0;
    assert(a@.skip(0) =~= a@);
    assert(b@.skip(0) =~= b@);
    while i < a.len() && i < b.len()
        invariant
            i <= a.len(),
            i <= b.len(),
            text_lt(a@, b@) == text_lt(a@.skip(i as int), b@.skip(i as int)),
        decreases a.len() - i,
    {
        if a[i] != b[i] {
            return a[i] < b[i];
        }
        assert(a@.skip(i as int).drop_first() =~= a@.skip(i + 1));
        assert(b@.skip(i as int).drop_first() =~= b@.skip(i + 1));
        i += 1;
    }
    i < b.len()
}

/// Strictly increasing.
pub open spec fn sorted(s: Seq<Seq<char>>) -> bool {
    forall|i: int, j: int| 0 <= i < j < s.len() ==> text_lt(#[trigger] s[i], #[trigger] s[j])
}

pub proof fn lemma_sorted_unique(s1: Seq<Seq<char>>, s2: Seq<Seq<char>>)
    requires
        sorted(s1),
        sorted(s2),
        s1.to_set() == s2.to_set(),
    ensures
        s1 == s2,
    decreases s1.len(),
{
    if s1.len() == 0 {
        if s2.len() > 0 {
            assert(s2.to_set().contains(s2[0]));
        }
        assert(s1 =~= s2);
    } else {
        assert(s1.to_set().contains(s1[0]));
        assert(s2.len() > 0);
        assert(s2.to_set().contains(s2[0]));
        let j = choose|j: int| 0 <= j < s2.len() && s2[j] == s1[0];
        let k = choose|k: int| 0 <= k < s1.len() && s1[k] == s2[0];
        if s1[0] != s2[0] {
            assert(j > 0 && k > 0);
            assert(text_lt(s2[0], s2[j]));
            assert(text_lt(s1[0], s1[k]));
            lemma_lt_asymmetric(s1[0], s2[0]);
        }
        let t1 = s1.drop_first();
        let t2 = s2.drop_first();
        assert forall|x: Seq<char>| t1.to_set().contains(x) implies t2.to_set().contains(x) by {
            let a = choose|a: int| 0 <= a < t1.len() && t1[a] == x;
            assert(s1[a + 1] == x);
            assert(s1.to_set().contains(x));
            let b = choose|b: int| 0 <= b < s2.len() && s2[b] == x;
            assert(text_lt(s1[0], s1[a + 1]));
            if b == 0 {
                lemma_lt_irreflexive(x);
            }
            assert(t2[b - 1] == x);
        }
        assert forall|x: Seq<char>| t2.to_set().contains(x) implies t1.to_set().contains(x) by {
            let a = choose|a: int| 0 <= a < t2.len() && t2[a] == x;
            assert(s2[a + 1] == x);
            assert(s2.to_set().contains(x));
            let b = choose|b: int| 0 <= b < s1.len() && s1[b] == x;
            assert(text_lt(s2[0], s2[a + 1]));
            if b == 0 {
                lemma_lt_irreflexive(x);
            }
            assert(t1[b - 1] == x);
        }
        assert(t1.to_set() =~= t2.to_set());
        lemma_sorted_unique(t1, t2);
        assert(s1 =~= seq![s1[0]] + t1);
        assert(s2 =~= seq![s2[0]] + t2);
    }
}

/// The list of the elements of a finite set of texts in increasing order.
pub open spec fn sorted_list(s: Set<Seq<char>>) -> Seq<Seq<char>> {
    choose|l: Seq<Seq<char>>| sorted(l) && l.to_set() == s
}

pub proof fn lemma_sorted_list(l: Seq<Seq<char>>)
    requires
        sorted(l),
    ensures
        sorted_list(l.to_set()) == l,
{
    let s = l.to_set();
    assert(exists|m: Seq<Seq<char>>| sorted(m) && m.to_set() == s);
    let m = sorted_list(s);
    lemma_sorted_unique(m, l);
}

/// Sorts distinct texts into increasing order.
pub fn sort_texts(v: Vec<Vec<char>>) -> (r: Vec<Vec<char>>)
    requires
        texts(v@).no_duplicates(),
    ensures
        sorted(texts(r@)),
        texts(r@).to_set() == texts(v@).to_set(),
{
    let mut r: Vec<Vec<char>> = Vec::new();
    let n = v.len();
    let mut src = v;
    let ghost orig = texts(src@);
    // take items from the back of `src`
    while src.len() > 0
        invariant
            sorted(texts(r@)),
            src.len() <= n,
            orig.len() == n,
            texts(src@) == orig.take(src.len() as int),
            texts(r@).to_set() == orig.skip(src.len() as int).to_set(),
            orig.no_duplicates(),
        decreases src.len(),
    {
        let ghost old_src = src@;
        let x = src.pop().unwrap();
        let ghost i = src.len() as int;
        proof {
            assert(texts(old_src)[i] == old_src[i]@);
            assert(orig.take(i + 1)[i] == orig[i]);
            assert(texts(src@) =~= orig.take(i));
            assert(orig[i] == x@);
        }
        // find the first position whose text is not below x
        let mut k: usize = 0;
        while k < r.len() && text_less(&r[k], &x)
            invariant
                k <= r.len(),
                forall|j: int| 0 <= j < k ==> text_lt(#[trigger] texts(r@)[j], x@),
            decreases r.len() - k,
        {
            k += 1;
        }
        let ghost old_r = texts(r@);
        let ghost tail = orig.skip(i + 1);
        let ghost cur = orig.skip(i);
        proof {
            // x is not yet in r: r holds orig[i+1..], and orig has no duplicates
            if old_r.to_set().contains(x@) {
                assert(tail.to_set().contains(x@));
                let a = choose|a: int| 0 <= a < tail.len() && tail[a] == x@;
                assert(orig[i + 1 + a] == orig[i]);
            }
            if k < old_r.len() {
                lemma_lt_total(old_r[k as int], x@);
                assert(old_r[k as int] != x@);
                assert(text_lt(x@, old_r[k as int]));
            }
        }
        r.insert(k, x);
        proof {
            let nr = texts(r@);
            assert(nr =~= old_r.insert(k as int, x@));
            assert forall|a: int, b: int| 0 <= a < b < nr.len() implies text_lt(
                #[trigger] nr[a],
                #[trigger] nr[b],
            ) by {
                if a < k && b == k {
                } else if a < k && b > k {
                    assert(nr[b] == old_r[b - 1]);
                    if k < old_r.len() {
                        assert(text_lt(x@, old_r[k as int]));
                        if b - 1 > k {
                            lemma_lt_transitive(x@, old_r[k as int], old_r[b - 1]);
                        }
                        lemma_lt_transitive(nr[a], x@, nr[b]);
                    }
                } else if a == k {
                    assert(nr[b] == old_r[b - 1]);
                    if b - 1 > k {
                        lemma_lt_transitive(x@, old_r[k as int], old_r[b - 1]);
                    }
                } else if a > k {
                    assert(nr[a] == old_r[a - 1]);
                    assert(nr[b] == old_r[b - 1]);
                }
            }
            assert(cur =~= seq![x@] + tail);
            assert forall|y: Seq<char>| nr.to_set().contains(y) <==> cur.to_set().contains(
                y,
            ) by {
                if nr.to_set().contains(y) {
                    let a = choose|a: int| 0 <= a < nr.len() && nr[a] == y;
                    if a < k {
                        assert(old_r[a] == y);
                        assert(old_r.to_set().contains(y));
                    } else if a > k {
                        assert(old_r[a - 1] == y);
                        assert(old_r.to_set().contains(y));
                    }
                    if y == x@ {
                        assert(cur[0] == y);
                    } else {
                        let b = choose|b: int|
                            0 <= b < tail.len() && tail[b] == y;
                        assert(cur[b + 1] == y);
                    }
                }
                if cur.to_set().contains(y) {
                    let b = choose|b: int| 0 <= b < cur.len() && cur[b] == y;
                    if b == 0 {
                        assert(nr[k as int] == y);
                    } else {
                        assert(tail[b - 1] == y);
                        assert(old_r.to_set().contains(y));
                        let a = choose|a: int| 0 <= a < old_r.len() && old_r[a] == y;
                        if a < k {
                            assert(nr[a] == y);
                        } else {
                            assert(nr[a + 1] == y);
                        }
                    }
                }
            }
            assert(nr.to_set() =~= cur.to_set());
        }
    }
    assert(orig.skip(0) =~= orig);
    r
}


/// `x` put into the increasing list `l` at its place.
pub open spec fn insert_sorted(l: Seq<Seq<char>>, x: Seq<char>) -> Seq<Seq<char>>
    decreases l.len(),
{
    if l.len() == 0 {
        seq![x]
    } else if text_lt(x, l[0]) {
        seq![x] + l
    } else {
        seq![l[0]] + insert_sorted(l.drop_first(), x)
    }
}

proof fn lemma_insert_sorted(l: Seq<Seq<char>>, x: Seq<char>)
    requires
        sorted(l),
        !l.contains(x),
    ensures
        sorted(insert_sorted(l, x)),
        insert_sorted(l, x).to_set() == l.to_set().insert(x),
        insert_sorted(l, x).len() > 0,
        insert_sorted(l, x)[0] == x || (l.len() > 0 && insert_sorted(l, x)[0] == l[0]),
    decreases l.len(),
{
    let r = insert_sorted(l, x);
    if l.len() == 0 {
        assert(r.to_set() =~= l.to_set().insert(x)) by {
            assert(r[0] == x);
        }
    } else if text_lt(x, l[0]) {
        assert forall|i: int, j: int| 0 <= i < j < r.len() implies text_lt(
            #[trigger] r[i],
            #[trigger] r[j],
        ) by {
            if i == 0 && j > 1 {
                assert(r[j] == l[j - 1]);
                lemma_lt_transitive(x, l[0], l[j - 1]);
            } else if i > 0 {
                assert(r[i] == l[i - 1] && r[j] == l[j - 1]);
            }
        }
        assert forall|y: Seq<char>| r.to_set().contains(y) <==> l.to_set().insert(x).contains(
            y,
        ) by {
            if r.to_set().contains(y) {
                let a = choose|a: int| 0 <= a < r.len() && r[a] == y;
                if a > 0 {
                    assert(l[a - 1] == y);
                }
            }
            if l.to_set().contains(y) {
                let a = choose|a: int| 0 <= a < l.len() && l[a] == y;
                assert(r[a + 1] == y);
            }
            if y == x {
                assert(r[0] == y);
            }
        }
        assert(r.to_set() =~= l.to_set().insert(x));
    } else {
        let t = l.drop_first();
        assert(!t.contains(x)) by {
            if t.contains(x) {
                let a = choose|a: int| 0 <= a < t.len() && t[a] == x;
                assert(l[a + 1] == x);
            }
        }
        assert(sorted(t)) by {
            assert forall|i: int, j: int| 0 <= i < j < t.len() implies text_lt(
                #[trigger] t[i],
                #[trigger] t[j],
            ) by {
                assert(t[i] == l[i + 1] && t[j] == l[j + 1]);
            }
        }
        lemma_insert_sorted(t, x);
        let rt = insert_sorted(t, x);
        lemma_lt_total(x, l[0]);
        assert(x != l[0]);
        assert(text_lt(l[0], x));
        assert forall|i: int, j: int| 0 <= i < j < r.len() implies text_lt(
            #[trigger] r[i],
            #[trigger] r[j],
        ) by {
            if i == 0 {
                assert(r[j] == rt[j - 1]);
                assert(rt.to_set().contains(rt[j - 1]));
                assert(l.to_set().insert(x).contains(rt[j - 1]) || t.to_set().insert(x).contains(
                    rt[j - 1],
                ));
                if rt[j - 1] == x {
                } else {
                    assert(t.to_set().contains(rt[j - 1]));
                    let a = choose|a: int| 0 <= a < t.len() && t[a] == rt[j - 1];
                    assert(l[a + 1] == rt[j - 1]);
                }
            } else {
                assert(r[i] == rt[i - 1] && r[j] == rt[j - 1]);
            }
        }
        assert forall|y: Seq<char>| r.to_set().contains(y) <==> l.to_set().insert(x).contains(
            y,
        ) by {
            if r.to_set().contains(y) {
                let a = choose|a: int| 0 <= a < r.len() && r[a] == y;
                if a > 0 {
                    assert(rt[a - 1] == y);
                    assert(rt.to_set().contains(y));
                    if y != x {
                        assert(t.to_set().contains(y));
                        let b = choose|b: int| 0 <= b < t.len() && t[b] == y;
                        assert(l[b + 1] == y);
                    }
                } else {
                    assert(l[0] == y);
                }
            }
            if l.to_set().insert(x).contains(y) {
                if y == x {
                    assert(rt.to_set().contains(y));
                    let a = choose|a: int| 0 <= a < rt.len() && rt[a] == y;
                    assert(r[a + 1] == y);
                } else {
                    let a = choose|a: int| 0 <= a < l.len() && l[a] == y;
                    if a == 0 {
                        assert(r[0] == y);
                    } else {
                        assert(t[a - 1] == y);
                        assert(rt.to_set().contains(y));
                        let b = choose|b: int| 0 <= b < rt.len() && rt[b] == y;
                        assert(r[b + 1] == y);
                    }
                }
            }
        }
        assert(r.to_set() =~= l.to_set().insert(x));
    }
}

/// Every finite set of texts has an increasing list of its elements.
pub proof fn lemma_sorted_exists(s: Set<Seq<char>>)
    requires
        s.finite(),
    ensures
        sorted(sorted_list(s)),
        sorted_list(s).to_set() == s,
    decreases s.len(),
{
    if s.len() == 0 {
        let e = Seq::<Seq<char>>::empty();
        assert(e.to_set() =~= s);
        lemma_sorted_list(e);
    } else {
        let x = s.choose();
        let rest = s.remove(x);
        lemma_sorted_exists(rest);
        let l = sorted_list(rest);
        assert(!l.contains(x)) by {
            if l.contains(x) {
                let a = choose|a: int| 0 <= a < l.len() && l[a] == x;
                assert(l.to_set().contains(x));
            }
        }
        lemma_insert_sorted(l, x);
        assert(l.to_set().insert(x) =~= s);
        lemma_sorted_list(insert_sorted(l, x));
    }
}

/// An increasing list holds no element twice.
pub proof fn lemma_sorted_no_duplicates(l: Seq<Seq<char>>)
    requires
        sorted(l),
    ensures
        l.no_duplicates(),
{
    assert forall|i: int, j: int| 0 <= i < l.len() && 0 <= j < l.len() && i != j implies l[i]
        != l[j] by {
        if i < j {
            lemma_lt_irreflexive(l[i]);
        } else {
            lemma_lt_irreflexive(l[j]);
        }
    }
}

} // verus!
