//! The canonical form of a list of labels: sorted, each label once.

use vstd::prelude::*;
use crate::backend::Token;

verus! {

/// Each element is smaller than the next.
pub open spec fn strictly_sorted(s: Seq<Token>) -> bool {
    forall|i: int, j: int| 0 <= i < j < s.len() ==> s[i] < s[j]
}

/// The sorted sequence `s` with `x` at its place, if it is not there yet.
pub open spec fn insert_sorted(s: Seq<Token>, x: Token) -> Seq<Token>
    decreases s.len(),
{
    if s.len() == 0 {
        seq![x]
    } else if s.last() < x {
        s.push(x)
    } else if s.last() == x {
        s
    } else {
        insert_sorted(s.drop_last(), x).push(s.last())
    }
}

/// The labels in canonical form.
pub open spec fn canonical(labels: Seq<Token>) -> Seq<Token>
    decreases labels.len(),
{
    if labels.len() == 0 {
        Seq::empty()
    } else {
        insert_sorted(canonical(labels.drop_last()), labels.last())
    }
}

/// Inserting keeps a sequence sorted and adds the one element.
pub proof fn lemma_insert_sorted(s: Seq<Token>, x: Token)
    requires
        strictly_sorted(s),
    ensures
        strictly_sorted(insert_sorted(s, x)),
        forall|y: Token|
            #![trigger insert_sorted(s, x).contains(y)]
            #![trigger s.contains(y)]
            insert_sorted(s, x).contains(y) <==> (s.contains(y) || y == x),
    decreases s.len(),
{
    let r = insert_sorted(s, x);
    if s.len() == 0 {
        assert(r[0] == x);
    } else if s.last() < x {
        assert(r.last() == x);
        assert forall|y: Token| r.contains(y) <==> (s.contains(y) || y == x) by {
            if r.contains(y) {
                let k = choose|k: int| 0 <= k < r.len() && r[k] == y;
                if k < s.len() {
                    assert(s[k] == y);
                }
            }
            if s.contains(y) {
                let k = choose|k: int| 0 <= k < s.len() && s[k] == y;
                assert(r[k] == y);
            }
        }
    } else if s.last() == x {
        assert(s[s.len() - 1] == x);
    } else {
        let front = s.drop_last();
        let inner = insert_sorted(front, x);
        lemma_insert_sorted(front, x);
        assert forall|i: int, j: int| 0 <= i < j < r.len() implies r[i] < r[j] by {
            if j == r.len() - 1 {
                assert(inner.contains(r[i]));
                if front.contains(r[i]) {
                    let k = choose|k: int| 0 <= k < front.len() && front[k] == r[i];
                    assert(s[k] == r[i]);
                }
            }
        }
        assert forall|y: Token| r.contains(y) <==> (s.contains(y) || y == x) by {
            if r.contains(y) {
                let k = choose|k: int| 0 <= k < r.len() && r[k] == y;
                if k < inner.len() {
                    assert(inner.contains(y));
                    if front.contains(y) {
                        let m = choose|m: int| 0 <= m < front.len() && front[m] == y;
                        assert(s[m] == y);
                    }
                } else {
                    assert(s[s.len() - 1] == y);
                }
            }
            if s.contains(y) {
                let k = choose|k: int| 0 <= k < s.len() && s[k] == y;
                if k < front.len() {
                    assert(front[k] == y);
                    assert(front.contains(y));
                    assert(inner.contains(y));
                    let m = choose|m: int| 0 <= m < inner.len() && inner[m] == y;
                    assert(r[m] == y);
                } else {
                    assert(r[r.len() - 1] == y);
                }
            }
            if y == x {
                assert(inner.contains(x));
                let m = choose|m: int| 0 <= m < inner.len() && inner[m] == x;
                assert(r[m] == x);
            }
        }
    }
}

/// The canonical form is sorted and holds the labels of the list, each once.
pub proof fn lemma_canonical(labels: Seq<Token>)
    ensures
        strictly_sorted(canonical(labels)),
        forall|y: Token|
            #![trigger canonical(labels).contains(y)]
            #![trigger labels.contains(y)]
            canonical(labels).contains(y) <==> labels.contains(y),
    decreases labels.len(),
{
    if labels.len() > 0 {
        let front = labels.drop_last();
        lemma_canonical(front);
        lemma_insert_sorted(canonical(front), labels.last());
        assert forall|y: Token| canonical(labels).contains(y) <==> labels.contains(y) by {
            if labels.contains(y) {
                let k = choose|k: int| 0 <= k < labels.len() && labels[k] == y;
                if k < front.len() {
                    assert(front[k] == y);
                    assert(front.contains(y));
                }
            }
            if front.contains(y) {
                let k = choose|k: int| 0 <= k < front.len() && front[k] == y;
                assert(labels[k] == y);
            }
            assert(labels[labels.len() - 1] == labels.last());
        }
    }
}

/// Two sorted sequences with the same elements are the same sequence.
pub proof fn lemma_sorted_unique(a: Seq<Token>, b: Seq<Token>)
    requires
        strictly_sorted(a),
        strictly_sorted(b),
        forall|y: Token| a.contains(y) <==> b.contains(y),
    ensures
        a == b,
    decreases a.len(),
{
    if a.len() == 0 {
        if b.len() > 0 {
            assert(b.contains(b[0]));
        }
        assert(a =~= b);
    } else {
        assert(a.contains(a[a.len() - 1]));
        let kb = choose|k: int| 0 <= k < b.len() && b[k] == a.last();
        assert(b.contains(b[b.len() - 1]));
        let ka = choose|k: int| 0 <= k < a.len() && a[k] == b.last();
        assert(a.last() == b.last());
        let af = a.drop_last();
        let bf = b.drop_last();
        assert forall|y: Token| af.contains(y) <==> bf.contains(y) by {
            if af.contains(y) {
                let k = choose|k: int| 0 <= k < af.len() && af[k] == y;
                assert(a[k] == y);
                assert(a.contains(y));
                let m = choose|m: int| 0 <= m < b.len() && b[m] == y;
                assert(y < a.last());
                assert(bf[m] == y);
            }
            if bf.contains(y) {
                let k = choose|k: int| 0 <= k < bf.len() && bf[k] == y;
                assert(b[k] == y);
                assert(b.contains(y));
                let m = choose|m: int| 0 <= m < a.len() && a[m] == y;
                assert(y < b.last());
                assert(af[m] == y);
            }
        }
        lemma_sorted_unique(af, bf);
        assert(a =~= af.push(a.last()));
        assert(b =~= bf.push(b.last()));
    }
}

/// Label canonicalization: lists that hold the same labels, in whatever order
/// and however often, have the same canonical form.
pub proof fn lemma_canonical_same_labels(l1: Seq<Token>, l2: Seq<Token>)
    requires
        forall|y: Token| l1.contains(y) <==> l2.contains(y),
    ensures
        canonical(l1) == canonical(l2),
{
    lemma_canonical(l1);
    lemma_canonical(l2);
    assert forall|y: Token| canonical(l1).contains(y) <==> canonical(l2).contains(y) by {
        assert(canonical(l1).contains(y) <==> l1.contains(y));
        assert(canonical(l2).contains(y) <==> l2.contains(y));
    }
    lemma_sorted_unique(canonical(l1), canonical(l2));
}

/// Inserting at the place that a scan from the end finds.
proof fn lemma_insert_at(s: Seq<Token>, x: Token, j: int)
    requires
        strictly_sorted(s),
        0 <= j <= s.len(),
        forall|k: int| j <= k < s.len() ==> s[k] > x,
        j > 0 ==> s[j - 1] <= x,
    ensures
        insert_sorted(s, x) == if j > 0 && s[j - 1] == x {
            s
        } else {
            s.insert(j, x)
        },
    decreases s.len(),
{
    if s.len() == 0 {
        assert(s.insert(0, x) =~= seq![x]);
    } else if j == s.len() {
        if s.last() < x {
            assert(s.insert(j, x) =~= s.push(x));
        }
    } else {
        let front = s.drop_last();
        lemma_insert_at(front, x, j);
        if j > 0 && s[j - 1] == x {
            assert(front.push(s.last()) =~= s);
        } else {
            assert(front.insert(j, x).push(s.last()) =~= s.insert(j, x));
        }
    }
}

/// The canonical form of a list of labels.
pub fn canonicalize(labels: &Vec<Token>) -> (out: Vec<Token>)
    ensures
        out@ == canonical(labels@),
{
    let mut out: Vec<Token> = Vec::new();
    let mut i: usize = 0;
    while i < labels.len()
        invariant
            i <= labels.len(),
            out@ == canonical(labels@.subrange(0, i as int)),
        decreases labels.len() - i,
    {
        let x = labels[i];
        proof {
            lemma_canonical(labels@.subrange(0, i as int));
            assert(labels@.subrange(0, i + 1).drop_last() =~= labels@.subrange(0, i as int));
        }
        let mut j: usize = out.len();
        while j > 0 && out[j - 1] > x
            invariant
                j <= out.len(),
                forall|k: int| j <= k < out.len() ==> out@[k] > x,
            decreases j,
        {
            j -= 1;
        }
        proof {
            lemma_insert_at(out@, x, j as int);
        }
        if j == 0 || out[j - 1] != x {
            out.insert(j, x);
        }
        i += 1;
    }
    assert(labels@.subrange(0, labels.len() as int) =~= labels@);
    out
}

} // verus!
