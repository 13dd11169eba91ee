//! Facts about sequences without duplicates, as the keyed collections of
//! this crate use them.

use vstd::prelude::*;

verus! {

/// In a sequence without duplicates, an element is found where it stands.
pub proof fn lemma_index_of_unique<A>(s: Seq<A>, k: int)
    requires
        s.no_duplicates(),
        0 <= k < s.len(),
    ensures
        s.contains(s[k]),
        s.index_of(s[k]) == k,
{
    assert(s.contains(s[k]));
    let j = s.index_of(s[k]);
    assert(0 <= j < s.len() && s[j] == s[k]);
}

/// An element that a sequence holds is found at a valid index.
pub proof fn lemma_index_of_contained<A>(s: Seq<A>, x: A)
    requires
        s.contains(x),
    ensures
        0 <= s.index_of(x) < s.len(),
        s[s.index_of(x)] == x,
{
    let j = s.index_of(x);
    assert(0 <= j < s.len() && s[j] == x);
}

/// Appending an element that is not yet there keeps a sequence free of
/// duplicates, and keeps every element where it stood.
pub proof fn lemma_push_new<A>(s: Seq<A>, x: A)
    requires
        s.no_duplicates(),
        !s.contains(x),
    ensures
        s.push(x).no_duplicates(),
        s.push(x).contains(x),
        s.push(x).index_of(x) == s.len(),
        forall|y: A| y != x ==> s.push(x).contains(y) == s.contains(y),
        forall|y: A| #[trigger] s.contains(y) ==> s.push(x).index_of(y) == s.index_of(y),
{
    let t = s.push(x);
    let n = s.len() as int;
    assert forall|a: int, b: int| 0 <= a < t.len() && 0 <= b < t.len() && a != b implies t[a]
        != t[b] by {
        if a < n && b < n {
            assert(s[a] != s[b]);
        } else if a < n {
            assert(s.contains(s[a]));
        } else {
            assert(s.contains(s[b]));
        }
    }
    assert(t[n] == x);
    lemma_index_of_unique(t, n);
    assert forall|y: A| y != x implies t.contains(y) == s.contains(y) by {
        if s.contains(y) {
            lemma_index_of_contained(s, y);
            assert(t[s.index_of(y)] == y);
        } else if t.contains(y) {
            lemma_index_of_contained(t, y);
            assert(t.index_of(y) < n);
            assert(s[t.index_of(y)] == y);
        }
    }
    assert forall|y: A| #[trigger] s.contains(y) implies t.index_of(y) == s.index_of(y) by {
        lemma_index_of_contained(s, y);
        let k = s.index_of(y);
        assert(t[k] == y);
        lemma_index_of_unique(t, k);
    }
}

/// Inserting an element that is not yet there at `i` keeps a sequence free
/// of duplicates; every other element stays and moves up by one if it
/// stood at or behind `i`.
pub proof fn lemma_insert_new<A>(s: Seq<A>, i: int, x: A)
    requires
        s.no_duplicates(),
        !s.contains(x),
        0 <= i <= s.len(),
    ensures
        s.insert(i, x).no_duplicates(),
        s.insert(i, x).contains(x),
        s.insert(i, x).index_of(x) == i,
        forall|y: A| y != x ==> s.insert(i, x).contains(y) == s.contains(y),
        forall|y: A|
            #[trigger] s.contains(y) ==> s.insert(i, x).index_of(y) == if s.index_of(y) < i {
                s.index_of(y)
            } else {
                s.index_of(y) + 1
            },
{
    let t = s.insert(i, x);
    assert forall|a: int, b: int| 0 <= a < t.len() && 0 <= b < t.len() && a != b implies t[a]
        != t[b] by {
        if a == i {
            let b2 = if b < i {
                b
            } else {
                b - 1
            };
            assert(s.contains(s[b2]));
        } else if b == i {
            let a2 = if a < i {
                a
            } else {
                a - 1
            };
            assert(s.contains(s[a2]));
        } else {
            let a2 = if a < i {
                a
            } else {
                a - 1
            };
            let b2 = if b < i {
                b
            } else {
                b - 1
            };
            assert(s[a2] != s[b2]);
        }
    }
    assert(t[i] == x);
    lemma_index_of_unique(t, i);
    assert forall|y: A| y != x implies t.contains(y) == s.contains(y) by {
        if s.contains(y) {
            lemma_index_of_contained(s, y);
            let k = s.index_of(y);
            let k2 = if k < i {
                k
            } else {
                k + 1
            };
            assert(t[k2] == y);
        } else if t.contains(y) {
            lemma_index_of_contained(t, y);
            let k = t.index_of(y);
            let k2 = if k < i {
                k
            } else {
                k - 1
            };
            assert(s[k2] == y);
        }
    }
    assert forall|y: A| #[trigger] s.contains(y) implies t.index_of(y) == if s.index_of(y) < i {
        s.index_of(y)
    } else {
        s.index_of(y) + 1
    } by {
        lemma_index_of_contained(s, y);
        let k = s.index_of(y);
        let k2 = if k < i {
            k
        } else {
            k + 1
        };
        assert(t[k2] == y);
        lemma_index_of_unique(t, k2);
    }
}

/// Removing the element at `i` keeps a sequence free of duplicates; the
/// removed element is gone, every other element stays and moves down by
/// one if it stood behind `i`.
pub proof fn lemma_remove_at<A>(s: Seq<A>, i: int)
    requires
        s.no_duplicates(),
        0 <= i < s.len(),
    ensures
        s.remove(i).no_duplicates(),
        !s.remove(i).contains(s[i]),
        forall|y: A| y != s[i] ==> s.remove(i).contains(y) == s.contains(y),
        forall|y: A|
            y != s[i] && #[trigger] s.contains(y) ==> s.remove(i).index_of(y) == if s.index_of(y)
                < i {
                s.index_of(y)
            } else {
                s.index_of(y) - 1
            },
{
    let t = s.remove(i);
    assert forall|a: int, b: int| 0 <= a < t.len() && 0 <= b < t.len() && a != b implies t[a]
        != t[b] by {
        let a2 = if a < i {
            a
        } else {
            a + 1
        };
        let b2 = if b < i {
            b
        } else {
            b + 1
        };
        assert(s[a2] != s[b2]);
    }
    if t.contains(s[i]) {
        lemma_index_of_contained(t, s[i]);
        let k = t.index_of(s[i]);
        let k2 = if k < i {
            k
        } else {
            k + 1
        };
        assert(s[k2] == s[i]);
        assert(false);
    }
    assert forall|y: A| y != s[i] implies t.contains(y) == s.contains(y) by {
        if s.contains(y) {
            lemma_index_of_contained(s, y);
            let k = s.index_of(y);
            let k2 = if k < i {
                k
            } else {
                k - 1
            };
            assert(t[k2] == y);
        } else if t.contains(y) {
            lemma_index_of_contained(t, y);
            let k = t.index_of(y);
            let k2 = if k < i {
                k
            } else {
                k + 1
            };
            assert(s[k2] == y);
        }
    }
    assert forall|y: A| y != s[i] && #[trigger] s.contains(y) implies t.index_of(y) == if s.index_of(
        y,
    ) < i {
        s.index_of(y)
    } else {
        s.index_of(y) - 1
    } by {
        lemma_index_of_contained(s, y);
        let k = s.index_of(y);
        let k2 = if k < i {
            k
        } else {
            k - 1
        };
        assert(t[k2] == y);
        lemma_index_of_unique(t, k2);
    }
}

} // verus!
