use vstd::prelude::*;

use crate::text::{chars_of, views};

verus! {

/// `a` comes before `b`, or equals it, in the order of strings: character by
/// character, by code point, a text before its extensions.
pub open spec fn at_most(a: Seq<char>, b: Seq<char>) -> bool
    decreases a.len(),
{
    if a.len() == 0 {
        true
    } else if b.len() == 0 {
        false
    } else if a[0] == b[0] {
        at_most(a.skip(1), b.skip(1))
    } else {
        a[0] < b[0]
    }
}

/// `a` comes strictly before `b`.
pub open spec fn before(a: Seq<char>, b: Seq<char>) -> bool {
    at_most(a, b) && a != b
}

/// Where two texts first differ decides which comes before the other.
pub proof fn lemma_before_at(a: Seq<char>, b: Seq<char>, k: int)
    requires
        0 <= k < b.len(),
        k <= a.len(),
        forall|i: int| 0 <= i < k ==> #[trigger] a[i] == b[i],
        k < a.len() ==> a[k] < b[k],
    ensures
        before(a, b),
    decreases k,
{
    if k > 0 {
        let a1 = a.skip(1);
        let b1 = b.skip(1);
        assert forall|i: int| 0 <= i < k - 1 implies #[trigger] a1[i] == b1[i] by {
            assert(a1[i] == a[i + 1]);
        }
        lemma_before_at(a1, b1, k - 1);
        assert(a[0] == b[0]);
        assert(at_most(a, b) == at_most(a1, b1));
    } else if a.len() == 0 {
        assert(a != b);
    }
}

/// Each text comes before the next ones, or equals them.
pub open spec fn ascending(ss: Seq<Seq<char>>) -> bool {
    forall|i: int, j: int| 0 <= i <= j < ss.len() ==> at_most(#[trigger] ss[i], #[trigger] ss[j])
}

pub proof fn lemma_at_most_refl(a: Seq<char>)
    ensures
        at_most(a, a),
    decreases a.len(),
{
    if a.len() > 0 {
        lemma_at_most_refl(a.skip(1));
    }
}

pub proof fn lemma_at_most_total(a: Seq<char>, b: Seq<char>)
    ensures
        at_most(a, b) || at_most(b, a),
    decreases a.len(),
{
    if a.len() > 0 && b.len() > 0 && a[0] == b[0] {
        lemma_at_most_total(a.skip(1), b.skip(1));
    }
}

pub proof fn lemma_at_most_trans(a: Seq<char>, b: Seq<char>, c: Seq<char>)
    requires
        at_most(a, b),
        at_most(b, c),
    ensures
        at_most(a, c),
    decreases a.len(),
{
    if a.len() > 0 && b.len() > 0 && c.len() > 0 && a[0] == b[0] && b[0] == c[0] {
        lemma_at_most_trans(a.skip(1), b.skip(1), c.skip(1));
    }
}

pub proof fn lemma_at_most_antisymmetric(a: Seq<char>, b: Seq<char>)
    requires
        at_most(a, b),
        at_most(b, a),
    ensures
        a == b,
    decreases a.len(),
{
    if a.len() == 0 || b.len() == 0 {
        assert(a =~= b);
    } else {
        lemma_at_most_antisymmetric(a.skip(1), b.skip(1));
        assert(a =~= seq![a[0]] + a.skip(1));
        assert(b =~= seq![b[0]] + b.skip(1));
    }
}

/// Whether `a` comes before `b` or equals it.
pub fn text_at_most(a: &str, b: &str) -> (r: bool)
    ensures
        r == at_most(a@, b@),
{
    let x = chars_of(a);
    let y = chars_of(b);
    let mut i: usize = 0;
    proof {
        assert(x@.skip(0) =~= x@);
        assert(y@.skip(0) =~= y@);
    }
    while i < x.len() && i < y.len() && x[i] == y[i]
        invariant
            i <= x@.len(),
            i <= y@.len(),
            at_most(x@.skip(i as int), y@.skip(i as int)) == at_most(x@, y@),
        decreases x@.len() - i,
    {
        proof {
            assert(x@.skip(i as int).skip(1) =~= x@.skip(i + 1));
            assert(y@.skip(i as int).skip(1) =~= y@.skip(i + 1));
        }
        i = i + 1;
    }
    if i == x.len() {
        true
    } else if i == y.len() {
        false
    } else {
        x[i] < y[i]
    }
}

/// The position in ascending `v` at which `s` keeps it ascending.
fn place(v: &Vec<String>, s: &str) -> (k: usize)
    requires
        ascending(views(v@)),
    ensures
        k <= v@.len(),
        forall|j: int| 0 <= j < k ==> at_most(#[trigger] views(v@)[j], s@),
        forall|j: int| k <= j < v@.len() ==> at_most(s@, #[trigger] views(v@)[j]),
{
    let mut k: usize = 0;
    while k < v.len()
        invariant
            k <= v@.len(),
            ascending(views(v@)),
            forall|j: int| 0 <= j < k ==> at_most(#[trigger] views(v@)[j], s@),
        ensures
            k <= v@.len(),
            forall|j: int| 0 <= j < k ==> at_most(#[trigger] views(v@)[j], s@),
            forall|j: int| k <= j < v@.len() ==> at_most(s@, #[trigger] views(v@)[j]),
        decreases v@.len() - k,
    {
        if !text_at_most(v[k].as_str(), s) {
            proof {
                let ss = views(v@);
                lemma_at_most_total(ss[k as int], s@);
                assert forall|j: int| k <= j < v@.len() implies at_most(s@, #[trigger] ss[j]) by {
                    assert(at_most(ss[k as int], ss[j]));
                    lemma_at_most_trans(s@, ss[k as int], ss[j]);
                }
            }
            break ;
        }
        k = k + 1;
    }
    k
}

/// The strings of `v` in ascending order.
pub fn sorted(v: &Vec<String>) -> (r: Vec<String>)
    ensures
        ascending(views(r@)),
        views(r@).to_multiset() == views(v@).to_multiset(),
{
    let mut out: Vec<String> = Vec::new();
    proof {
        assert(v@.take(0) =~= Seq::<String>::empty());
        assert(views(out@) =~= views(v@.take(0)));
    }
    for i in 0..v.len()
        invariant
            ascending(views(out@)),
            views(out@).to_multiset() == views(v@.take(i as int)).to_multiset(),
    {
        let s = v[i].clone();
        let k = place(&out, s.as_str());
        let ghost ss = views(out@);
        let ghost sv = s@;
        out.insert(k, s);
        proof {
            broadcast use vstd::seq_lib::group_to_multiset_ensures;

            assert(views(out@) =~= ss.insert(k as int, sv));
            assert(views(v@.take(i + 1)) =~= views(v@.take(i as int)).push(sv));
            lemma_insert_ascending(ss, k as int, sv);
            assert(ss.insert(k as int, sv).to_multiset() =~= ss.to_multiset().insert(sv));
        }
    }
    proof {
        assert(v@.take(v@.len() as int) =~= v@);
    }
    out
}

proof fn lemma_insert_ascending(ss: Seq<Seq<char>>, k: int, s: Seq<char>)
    requires
        ascending(ss),
        0 <= k <= ss.len(),
        forall|j: int| 0 <= j < k ==> at_most(#[trigger] ss[j], s),
        forall|j: int| k <= j < ss.len() ==> at_most(s, #[trigger] ss[j]),
    ensures
        ascending(ss.insert(k, s)),
{
    let t = ss.insert(k, s);
    assert forall|i: int, j: int| 0 <= i <= j < t.len() implies at_most(
        #[trigger] t[i],
        #[trigger] t[j],
    ) by {
        let a = if i < k { i } else { i - 1 };
        let b = if j < k { j } else { j - 1 };
        if i == k && j == k {
            lemma_at_most_refl(s);
        } else if i == k {
            assert(at_most(s, ss[b]));
        } else if j == k {
            assert(at_most(ss[a], s));
        } else {
            assert(at_most(ss[a], ss[b]));
        }
    }
}

/// Ascending sequences of the same texts are the same sequence: how a directory is
/// walked does not show in a list of what is in it.
pub proof fn law_ascending_is_unique(a: Seq<Seq<char>>, b: Seq<Seq<char>>)
    requires
        ascending(a),
        ascending(b),
        a.to_multiset() == b.to_multiset(),
    ensures
        a == b,
    decreases a.len(),
{
    broadcast use vstd::seq_lib::group_to_multiset_ensures;

    assert(a.len() == a.to_multiset().len());
    assert(b.len() == b.to_multiset().len());
    if a.len() == 0 {
        assert(a =~= b);
    } else {
        assert(b.contains(a[0])) by {
            assert(a.contains(a[0]));
            assert(a.to_multiset().count(a[0]) > 0);
        }
        assert(a.contains(b[0])) by {
            assert(b.contains(b[0]));
            assert(b.to_multiset().count(b[0]) > 0);
        }
        let i = choose|i: int| 0 <= i < b.len() && b[i] == a[0];
        let j = choose|j: int| 0 <= j < a.len() && a[j] == b[0];
        assert(at_most(b[0], b[i]));
        assert(at_most(a[0], a[j]));
        lemma_at_most_antisymmetric(a[0], b[0]);
        assert(a.remove(0) =~= a.skip(1));
        assert(b.remove(0) =~= b.skip(1));
        assert(a.skip(1).to_multiset() =~= a.to_multiset().remove(a[0]));
        assert(b.skip(1).to_multiset() =~= b.to_multiset().remove(b[0]));
        law_ascending_is_unique(a.skip(1), b.skip(1));
        assert(a =~= seq![a[0]] + a.skip(1));
        assert(b =~= seq![b[0]] + b.skip(1));
    }
}

} // verus!
