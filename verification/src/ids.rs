use vstd::prelude::*;

verus! {

// Small verified utilities over lists of reference identifiers.

/// Whether `v` holds `x`.
pub fn contains_u64(v: &Vec<u64>, x: u64) -> (b: bool)
    ensures
        b == v@.contains(x),
{
    let n = v.len();
    let mut i: usize = 0;
    while i < n
        invariant
            i <= n == v@.len(),
            forall|j: int| 0 <= j < i ==> v@[j] != x,
        decreases n - i,
    {
        if v[i] == x {
            return true;
        }
        i = i + 1;
    }
    false
}

/// The index of the first occurrence of `x` in `v`, if any.
pub fn find_index_u64(v: &Vec<u64>, x: u64) -> (r: Option<usize>)
    ensures
        r is Some ==> 0 <= r->0 < v@.len() && v@[r->0 as int] == x && (forall|j: int|
            0 <= j < r->0 ==> v@[j] != x),
        r is None ==> !v@.contains(x),
{
    let n = v.len();
    let mut i: usize = 0;
    while i < n
        invariant
            i <= n == v@.len(),
            forall|j: int| 0 <= j < i ==> v@[j] != x,
        decreases n - i,
    {
        if v[i] == x {
            return Some(i);
        }
        i = i + 1;
    }
    None
}

/// `s` with duplicates dropped: the first occurrence of each value is
/// kept, in order.
pub open spec fn dedup(s: Seq<u64>) -> Seq<u64>
    decreases s.len(),
{
    if s.len() == 0 {
        Seq::empty()
    } else {
        let rest = dedup(s.drop_last());
        if rest.contains(s.last()) {
            rest
        } else {
            rest.push(s.last())
        }
    }
}

/// Deduplication keeps exactly the values of the input, once each.
pub proof fn lemma_dedup_props(s: Seq<u64>)
    ensures
        dedup(s).no_duplicates(),
        forall|y: u64| dedup(s).contains(y) == s.contains(y),
        dedup(s).len() <= s.len(),
        s.len() > 0 ==> dedup(s).len() > 0,
    decreases s.len(),
{
    if s.len() > 0 {
        lemma_dedup_props(s.drop_last());
        let rest = dedup(s.drop_last());
        assert forall|y: u64| dedup(s).contains(y) == s.contains(y) by {
            if s.contains(y) {
                let w = choose|k: int| 0 <= k < s.len() && s[k] == y;
                if w < s.len() - 1 {
                    assert(s.drop_last()[w] == y);
                    assert(s.drop_last().contains(y));
                }
                if rest.contains(y) {
                    assert(dedup(s) == rest || dedup(s) == rest.push(s.last()));
                    if dedup(s) == rest.push(s.last()) {
                        let u = choose|k: int| 0 <= k < rest.len() && rest[k] == y;
                        assert(rest.push(s.last())[u] == y);
                    }
                } else {
                    // y occurs only as the last element
                    assert(!s.drop_last().contains(y));
                    assert(s.last() == y);
                    assert(rest.push(y)[rest.len() as int] == y);
                }
            } else {
                if dedup(s).contains(y) {
                    let u = choose|k: int| 0 <= k < dedup(s).len() && dedup(s)[k] == y;
                    if rest.contains(y) {
                        assert(s.drop_last().contains(y));
                        let w = choose|k: int| 0 <= k < s.drop_last().len() && s.drop_last()[k]
                            == y;
                        assert(s[w] == y);
                    } else {
                        assert(dedup(s) == rest.push(s.last()));
                        if u < rest.len() {
                            assert(rest[u] == y);
                        } else {
                            assert(s.last() == y);
                            assert(s[s.len() - 1] == y);
                        }
                    }
                }
            }
        }
        if !rest.contains(s.last()) {
            assert(dedup(s) == rest.push(s.last()));
            assert(dedup(s).no_duplicates()) by {
                assert forall|i: int, j: int|
                    0 <= i < j < dedup(s).len() implies dedup(s)[i] != dedup(s)[j] by {
                    if j < rest.len() {
                    } else {
                        assert(dedup(s)[j] == s.last());
                        assert(rest[i] == dedup(s)[i]);
                        assert(rest.contains(rest[i]));
                    }
                }
            }
        }
    }
}

/// `s` with the first occurrence of `x` dropped.
pub open spec fn remove_first(s: Seq<u64>, x: u64) -> Seq<u64>
    decreases s.len(),
{
    if s.len() == 0 {
        s
    } else if s[0] == x {
        s.drop_first()
    } else {
        seq![s[0]] + remove_first(s.drop_first(), x)
    }
}

/// Removing the sole occurrence of `x` from a duplicate-free list keeps
/// every other value and drops `x`.
pub proof fn lemma_remove_first_props(s: Seq<u64>, x: u64)
    requires
        s.no_duplicates(),
        s.contains(x),
    ensures
        remove_first(s, x).no_duplicates(),
        !remove_first(s, x).contains(x),
        remove_first(s, x).len() == s.len() - 1,
        forall|y: u64| y != x ==> remove_first(s, x).contains(y) == s.contains(y),
    decreases s.len(),
{
    let r = remove_first(s, x);
    if s[0] == x {
        assert(r == s.drop_first());
        assert(r.no_duplicates()) by {
            assert forall|i: int, j: int| 0 <= i < j < r.len() implies r[i] != r[j] by {
                assert(r[i] == s[i + 1] && r[j] == s[j + 1]);
            }
        }
        assert(!r.contains(x)) by {
            if r.contains(x) {
                let w = choose|k: int| 0 <= k < r.len() && r[k] == x;
                assert(s[w + 1] == x && s[0] == x);
            }
        }
        assert forall|y: u64| y != x implies r.contains(y) == s.contains(y) by {
            if s.contains(y) {
                let w = choose|k: int| 0 <= k < s.len() && s[k] == y;
                assert(w != 0);
                assert(r[w - 1] == y);
            }
            if r.contains(y) {
                let w = choose|k: int| 0 <= k < r.len() && r[k] == y;
                assert(s[w + 1] == y);
            }
        }
    } else {
        let d = s.drop_first();
        assert(d.no_duplicates()) by {
            assert forall|i: int, j: int| 0 <= i < j < d.len() implies d[i] != d[j] by {
                assert(d[i] == s[i + 1] && d[j] == s[j + 1]);
            }
        }
        assert(d.contains(x)) by {
            let w = choose|k: int| 0 <= k < s.len() && s[k] == x;
            assert(d[w - 1] == x);
        }
        lemma_remove_first_props(d, x);
        let t = remove_first(d, x);
        assert(r == seq![s[0]] + t);
        assert(!r.contains(x)) by {
            if r.contains(x) {
                let w = choose|k: int| 0 <= k < r.len() && r[k] == x;
                if w == 0 {
                    assert(s[0] == x);
                } else {
                    assert(t[w - 1] == x);
                    assert(t.contains(x));
                }
            }
        }
        assert(r.no_duplicates()) by {
            assert forall|i: int, j: int| 0 <= i < j < r.len() implies r[i] != r[j] by {
                if i == 0 {
                    assert(t[j - 1] == r[j]);
                    assert(t.contains(t[j - 1]));
                    let y = t[j - 1];
                    assert(d.contains(y) || y == x) by {
                        if y != x {
                            assert(t.contains(y) == d.contains(y));
                        }
                    }
                    if r[0] == r[j] {
                        if y == x {
                            assert(s[0] == x);
                        } else {
                            let w = choose|k: int| 0 <= k < d.len() && d[k] == y;
                            assert(s[w + 1] == y && s[0] == y);
                        }
                    }
                } else {
                    assert(r[i] == t[i - 1] && r[j] == t[j - 1]);
                }
            }
        }
        assert forall|y: u64| y != x implies r.contains(y) == s.contains(y) by {
            if s.contains(y) {
                let w = choose|k: int| 0 <= k < s.len() && s[k] == y;
                if w == 0 {
                    assert(r[0] == y);
                } else {
                    assert(d[w - 1] == y);
                    assert(d.contains(y));
                    assert(t.contains(y));
                    let u = choose|k: int| 0 <= k < t.len() && t[k] == y;
                    assert(r[u + 1] == y);
                }
            }
            if r.contains(y) {
                let w = choose|k: int| 0 <= k < r.len() && r[k] == y;
                if w == 0 {
                    assert(s[0] == y);
                } else {
                    assert(t[w - 1] == y);
                    assert(t.contains(y));
                    assert(d.contains(y));
                    let u = choose|k: int| 0 <= k < d.len() && d[k] == y;
                    assert(s[u + 1] == y);
                }
            }
        }
    }
}

/// Removing the first occurrence found by a scan is removing the first
/// occurrence.
pub proof fn lemma_remove_first_at(s: Seq<u64>, k: int, x: u64)
    requires
        0 <= k < s.len(),
        s[k] == x,
        forall|j: int| 0 <= j < k ==> s[j] != x,
    ensures
        remove_first(s, x) == s.remove(k),
    decreases k,
{
    if k == 0 {
        assert(s.drop_first() =~= s.remove(0));
    } else {
        let d = s.drop_first();
        assert(d[k - 1] == x);
        assert(forall|j: int| 0 <= j < k - 1 ==> d[j] == s[j + 1] && #[trigger] d[j] != x);
        lemma_remove_first_at(d, k - 1, x);
        assert(seq![s[0]] + d.remove(k - 1) =~= s.remove(k));
    }
}

} // verus!
