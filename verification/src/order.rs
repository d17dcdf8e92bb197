//! Texts in alphabetical order.

use vstd::prelude::*;

use crate::text::chars_of;
use crate::text::texts;

verus! {

/// Whether `a` stands no later than `b` where texts are ordered by their
/// characters.
pub open spec fn precedes(a: Seq<char>, b: Seq<char>) -> bool
    decreases a.len(),
{
    if a.len() == 0 {
        true
    } else if b.len() == 0 {
        false
    } else if a[0] == b[0] {
        precedes(a.skip(1), b.skip(1))
    } else {
        a[0] < b[0]
    }
}

/// Whether each text stands no later than those behind it.
pub open spec fn in_order(s: Seq<Seq<char>>) -> bool {
    forall|i: int, j: int| 0 <= i < j < s.len() ==> precedes(#[trigger] s[i], #[trigger] s[j])
}

/// Of two texts, one precedes the other; if each does, they are the same.
pub proof fn lemma_precedes_total(a: Seq<char>, b: Seq<char>)
    ensures
        precedes(a, b) || precedes(b, a),
        precedes(a, b) && precedes(b, a) ==> a == b,
    decreases a.len(),
{
    if a.len() > 0 && b.len() > 0 && a[0] == b[0] {
        lemma_precedes_total(a.skip(1), b.skip(1));
        if precedes(a, b) && precedes(b, a) {
            assert(a =~= seq![a[0]] + a.skip(1));
            assert(b =~= seq![b[0]] + b.skip(1));
        }
    } else if a.len() == 0 && b.len() == 0 {
        assert(a =~= b);
    }
}

/// The order is transitive.
pub proof fn lemma_precedes_transitive(a: Seq<char>, b: Seq<char>, c: Seq<char>)
    requires
        precedes(a, b),
        precedes(b, c),
    ensures
        precedes(a, c),
    decreases a.len(),
{
    if a.len() > 0 && b.len() > 0 && c.len() > 0 && a[0] == b[0] && b[0] == c[0] {
        lemma_precedes_transitive(a.skip(1), b.skip(1), c.skip(1));
    }
}

/// Whether `a` stands no later than `b`.
fn is_before(a: &str, b: &str) -> (r: bool)
    ensures
        r == precedes(a@, b@),
{
    let x = chars_of(a);
    let y = chars_of(b);
    let mut i: usize = 0;
    proof {
        assert(a@.skip(0) =~= a@);
        assert(b@.skip(0) =~= b@);
    }
    while i < x.len() && i < y.len()
        invariant
            x@ == a@,
            y@ == b@,
            i <= x.len(),
            i <= y.len(),
            precedes(a@, b@) == precedes(a@.skip(i as int), b@.skip(i as int)),
        decreases x.len() - i,
    {
        if x[i] != y[i] {
            return x[i] < y[i];
        }
        proof {
            assert(a@.skip(i as int).skip(1) =~= a@.skip(i + 1));
            assert(b@.skip(i as int).skip(1) =~= b@.skip(i + 1));
        }
        i = i + 1;
    }
    i == x.len()
}

/// Puts a text into its place among texts in order.
fn insert_text(sorted: &mut Vec<String>, s: String)
    requires
        in_order(texts(old(sorted)@)),
    ensures
        in_order(texts(final(sorted)@)),
        texts(final(sorted)@).to_multiset() == texts(old(sorted)@).to_multiset().insert(s@),
{
    let ghost before = texts(sorted@);
    let mut at: usize = sorted.len();
    while at > 0 && !is_before(sorted[at - 1].as_str(), s.as_str())
        invariant
            before == texts(sorted@),
            in_order(before),
            at <= sorted.len(),
            forall|i: int| at <= i < before.len() ==> precedes(s@, #[trigger] before[i]),
        decreases at,
    {
        proof {
            lemma_precedes_total(before[at - 1], s@);
        }
        at = at - 1;
    }
    let ghost text = s@;
    sorted.insert(at, s);
    proof {
        let after = texts(sorted@);
        assert(after =~= before.insert(at as int, text));
        after.to_multiset_ensures();
        assert(after.remove(at as int) =~= before);
        assert(after.contains(after[at as int]));
        assert(after.to_multiset() =~= before.to_multiset().insert(text));
        assert forall|i: int, j: int| 0 <= i < j < after.len() implies precedes(
            #[trigger] after[i],
            #[trigger] after[j],
        ) by {
            if i < at && j == at {
                if i < at - 1 {
                    lemma_precedes_transitive(before[i], before[at - 1], text);
                }
            } else if i < at && j > at {
                assert(after[j] == before[j - 1]);
            } else if i == at {
                assert(after[j] == before[j - 1]);
            } else if i > at {
                assert(after[i] == before[i - 1] && after[j] == before[j - 1]);
            }
        }
    }
}

/// Puts texts in order.
pub fn sort_texts(v: Vec<String>) -> (r: Vec<String>)
    ensures
        in_order(texts(r@)),
        texts(r@).to_multiset() == texts(v@).to_multiset(),
{
    let mut out: Vec<String> = Vec::new();
    let mut i: usize = 0;
    assert(texts(out@) =~= texts(v@).take(0));
    while i < v.len()
        invariant
            i <= v.len(),
            in_order(texts(out@)),
            texts(out@).to_multiset() == texts(v@).take(i as int).to_multiset(),
        decreases v.len() - i,
    {
        let s = v[i].clone();
        proof {
            let t = texts(v@);
            assert(t.take(i + 1) =~= t.take(i as int).push(s@));
            t.take(i as int).to_multiset_ensures();
        }
        insert_text(&mut out, s);
        i = i + 1;
    }
    assert(texts(v@).take(v@.len() as int) =~= texts(v@));
    out
}

/// Order leaves no choice: texts in order that hold the same texts as often are
/// the same sequence.
pub proof fn law_order_is_unique(a: Seq<Seq<char>>, b: Seq<Seq<char>>)
    requires
        in_order(a),
        in_order(b),
        a.to_multiset() == b.to_multiset(),
    ensures
        a == b,
    decreases a.len(),
{
    a.to_multiset_ensures();
    b.to_multiset_ensures();
    assert(a.len() == b.len());
    if a.len() > 0 {
        assert(b.to_multiset().count(a[0]) > 0 && a.to_multiset().count(b[0]) > 0) by {
            assert(a.contains(a[0]));
            assert(b.contains(b[0]));
        }
        let i = choose|i: int| 0 <= i < b.len() && b[i] == a[0];
        let j = choose|j: int| 0 <= j < a.len() && a[j] == b[0];
        lemma_precedes_total(a[0], a[0]);
        assert(precedes(b[0], b[i]));
        assert(precedes(a[0], a[j]));
        lemma_precedes_total(a[0], b[0]);
        assert(a.remove(0).to_multiset() == b.remove(0).to_multiset());
        law_order_is_unique(a.remove(0), b.remove(0));
        assert(a =~= a.remove(0).insert(0, a[0]));
        assert(b =~= b.remove(0).insert(0, b[0]));
    } else {
        assert(a =~= b);
    }
}

} // verus!
