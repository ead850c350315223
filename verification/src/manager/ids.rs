//! Lists of window ids.
use vstd::prelude::*;

verus! {

/// What holds of every id but `id`.
pub open spec fn other_than(id: u64) -> spec_fn(u64) -> bool {
    |x: u64| x != id
}

/// The ids of `s` but `id`.
pub open spec fn without(s: Seq<u64>, id: u64) -> Seq<u64> {
    s.filter(other_than(id))
}

/// Adding one id to a list filters as far as the list, and then the id.
pub proof fn lemma_filter_push(s: Seq<u64>, x: u64, p: spec_fn(u64) -> bool)
    ensures
        s.push(x).filter(p) == (if p(x) { s.filter(p).push(x) } else { s.filter(p) }),
{
    reveal(Seq::filter);
    assert(s.push(x).drop_last() =~= s);
}

/// Filtering the empty list leaves the empty list.
pub proof fn lemma_filter_empty(p: spec_fn(u64) -> bool)
    ensures
        Seq::<u64>::empty().filter(p) == Seq::<u64>::empty(),
{
    reveal(Seq::filter);
}

/// What a filtered list holds.
pub proof fn lemma_filter(s: Seq<u64>, p: spec_fn(u64) -> bool)
    ensures
        forall|x: u64| #[trigger] s.filter(p).contains(x) <==> s.contains(x) && p(x),
        s.no_duplicates() ==> s.filter(p).no_duplicates(),
        s.filter(p).len() <= s.len(),
    decreases s.len(),
{
    let f = s.filter(p);
    if s.len() == 0 {
        lemma_filter_empty(p);
        assert(s =~= Seq::<u64>::empty());
    } else {
        let front = s.drop_last();
        let x = s.last();
        assert(front.push(x) =~= s);
        lemma_filter(front, p);
        lemma_filter_push(front, x, p);
        assert forall|y: u64| #[trigger] f.contains(y) <==> s.contains(y) && p(y) by {
            if f.contains(y) {
                let i = choose|i: int| 0 <= i < f.len() && f[i] == y;
                if i < front.filter(p).len() {
                    assert(front.filter(p)[i] == y);
                    assert(front.filter(p).contains(y));
                    let k = choose|k: int| 0 <= k < front.len() && front[k] == y;
                    assert(s[k] == y);
                } else {
                    assert(s[s.len() - 1] == y);
                }
            }
            if s.contains(y) && p(y) {
                let k = choose|k: int| 0 <= k < s.len() && s[k] == y;
                if k < front.len() {
                    assert(front[k] == y);
                    assert(front.filter(p).contains(y));
                    let i = choose|i: int| 0 <= i < front.filter(p).len() && front.filter(p)[i] == y;
                    assert(f[i] == y);
                } else {
                    assert(f[f.len() - 1] == y);
                }
            }
        }
        if s.no_duplicates() {
            assert(front.no_duplicates());
            if p(x) {
                assert(!front.contains(x)) by {
                    if front.contains(x) {
                        let k = choose|k: int| 0 <= k < front.len() && front[k] == x;
                        assert(s[k] == s[s.len() - 1]);
                    }
                }
                assert(!front.filter(p).contains(x));
                assert forall|i: int, j: int| 0 <= i < f.len() && 0 <= j < f.len() && i != j implies f[i] != f[j] by {
                    let a = front.filter(p);
                    if i < a.len() && j < a.len() {
                        assert(a[i] != a[j]);
                    } else if i < a.len() {
                        assert(a.contains(a[i]));
                    } else if j < a.len() {
                        assert(a.contains(a[j]));
                    }
                }
            }
        }
    }
}

/// Filtering by what holds of all keeps the list.
pub proof fn lemma_filter_all(s: Seq<u64>, p: spec_fn(u64) -> bool)
    requires
        forall|i: int| 0 <= i < s.len() ==> p(#[trigger] s[i]),
    ensures
        s.filter(p) == s,
    decreases s.len(),
{
    if s.len() == 0 {
        lemma_filter_empty(p);
        assert(s =~= Seq::<u64>::empty());
    } else {
        lemma_filter_all(s.drop_last(), p);
        assert(s.drop_last().push(s.last()) =~= s);
        lemma_filter_push(s.drop_last(), s.last(), p);
    }
}

/// Filtering by what holds of none empties the list.
pub proof fn lemma_filter_none(s: Seq<u64>, p: spec_fn(u64) -> bool)
    requires
        forall|i: int| 0 <= i < s.len() ==> !p(#[trigger] s[i]),
    ensures
        s.filter(p) == Seq::<u64>::empty(),
    decreases s.len(),
{
    if s.len() == 0 {
        lemma_filter_empty(p);
        assert(s =~= Seq::<u64>::empty());
    } else {
        lemma_filter_none(s.drop_last(), p);
        assert(s.drop_last().push(s.last()) =~= s);
        lemma_filter_push(s.drop_last(), s.last(), p);
    }
}

/// Two predicates that agree on the list filter it the same.
pub proof fn lemma_filter_same(s: Seq<u64>, p: spec_fn(u64) -> bool, q: spec_fn(u64) -> bool)
    requires
        forall|i: int| 0 <= i < s.len() ==> p(#[trigger] s[i]) == q(s[i]),
    ensures
        s.filter(p) == s.filter(q),
    decreases s.len(),
{
    if s.len() == 0 {
        lemma_filter_empty(p);
        lemma_filter_empty(q);
        assert(s =~= Seq::<u64>::empty());
    } else {
        lemma_filter_same(s.drop_last(), p, q);
        assert(s.drop_last().push(s.last()) =~= s);
        lemma_filter_push(s.drop_last(), s.last(), p);
        lemma_filter_push(s.drop_last(), s.last(), q);
    }
}

/// What [`without`] holds.
pub proof fn lemma_without(s: Seq<u64>, id: u64)
    ensures
        forall|x: u64| #[trigger] without(s, id).contains(x) <==> s.contains(x) && x != id,
        s.no_duplicates() ==> without(s, id).no_duplicates(),
        !s.contains(id) ==> without(s, id) == s,
{
    lemma_filter(s, other_than(id));
    if !s.contains(id) {
        assert forall|i: int| 0 <= i < s.len() implies #[trigger] s[i] != id by {
            assert(s.contains(s[i]));
        }
        lemma_filter_all(s, other_than(id));
    }
}

/// The first position of `id` in a list, or -1.
pub open spec fn position_in(s: Seq<u64>, id: u64) -> int
    decreases s.len(),
{
    if s.len() == 0 {
        -1
    } else if s.last() == id && !s.drop_last().contains(id) {
        s.len() - 1
    } else {
        position_in(s.drop_last(), id)
    }
}

/// What [`position_in`] finds.
pub proof fn lemma_position(s: Seq<u64>, id: u64)
    ensures
        s.contains(id) ==> 0 <= position_in(s, id) < s.len() && s[position_in(s, id)] == id,
        !s.contains(id) ==> position_in(s, id) == -1,
        forall|k: int| 0 <= k < s.len() && s[k] == id ==> position_in(s, id) <= k,
    decreases s.len(),
{
    if s.len() > 0 {
        let front = s.drop_last();
        lemma_position(front, id);
        if s.contains(id) && !front.contains(id) {
            let k = choose|k: int| 0 <= k < s.len() && s[k] == id;
            if k < front.len() {
                assert(front[k] == id);
            }
        }
        if front.contains(id) {
            let k = choose|k: int| 0 <= k < front.len() && front[k] == id;
            assert(s[k] == id);
        }
        assert forall|k: int| 0 <= k < s.len() && s[k] == id implies position_in(s, id) <= k by {
            if k < front.len() {
                assert(front[k] == id);
            }
        }
    }
}

/// The ids of `s` but the first `id`.
pub open spec fn without_first(s: Seq<u64>, id: u64) -> Seq<u64> {
    s.remove(position_in(s, id))
}

/// What [`without_first`] holds: the other ids, and `id` only if it occurs
/// again.
pub proof fn lemma_without_first(s: Seq<u64>, id: u64)
    requires
        s.contains(id),
    ensures
        forall|x: u64| x != id ==> (#[trigger] without_first(s, id).contains(x) <==> s.contains(x)),
        without_first(s, id).len() == s.len() - 1,
{
    let p = position_in(s, id);
    lemma_position(s, id);
    let r = s.remove(p);
    assert forall|x: u64| x != id implies (#[trigger] r.contains(x) <==> s.contains(x)) by {
        if r.contains(x) {
            let i = choose|i: int| 0 <= i < r.len() && r[i] == x;
            assert(s[if i < p { i } else { i + 1 }] == x);
        }
        if s.contains(x) {
            let i = choose|i: int| 0 <= i < s.len() && s[i] == x;
            assert(r[if i < p { i } else { i - 1 }] == x);
        }
    }
}

/// What a list with an id put at its end holds. An id that the list lacked
/// keeps ids apart.
pub proof fn lemma_push(s: Seq<u64>, id: u64)
    ensures
        forall|x: u64| #[trigger] s.push(id).contains(x) <==> s.contains(x) || x == id,
        s.no_duplicates() && !s.contains(id) ==> s.push(id).no_duplicates(),
{
    assert forall|x: u64| #[trigger] s.push(id).contains(x) <==> s.contains(x) || x == id by {
        if s.push(id).contains(x) {
            let i = choose|i: int| 0 <= i < s.push(id).len() && s.push(id)[i] == x;
            if i < s.len() {
                assert(s[i] == x);
            }
        }
        if s.contains(x) {
            let i = choose|i: int| 0 <= i < s.len() && s[i] == x;
            assert(s.push(id)[i] == x);
        }
        assert(s.push(id)[s.len() as int] == id);
    }
    if s.no_duplicates() && !s.contains(id) {
        assert forall|i: int, j: int|
            0 <= i < s.push(id).len() && 0 <= j < s.push(id).len() && i != j implies s.push(id)[i] != s.push(
            id,
        )[j] by {
            if i < s.len() && j == s.len() {
                assert(s.contains(s[i]));
            }
            if j < s.len() && i == s.len() {
                assert(s.contains(s[j]));
            }
        }
    }
}

/// What two lists put together hold.
pub proof fn lemma_concat(a: Seq<u64>, b: Seq<u64>)
    ensures
        forall|x: u64| #[trigger] (a + b).contains(x) <==> a.contains(x) || b.contains(x),
{
    let c = a + b;
    assert forall|x: u64| #[trigger] c.contains(x) <==> a.contains(x) || b.contains(x) by {
        if c.contains(x) {
            let i = choose|i: int| 0 <= i < c.len() && c[i] == x;
            if i < a.len() {
                assert(a[i] == x);
            } else {
                assert(b[i - a.len()] == x);
            }
        }
        if a.contains(x) {
            let i = choose|i: int| 0 <= i < a.len() && a[i] == x;
            assert(c[i] == x);
        }
        if b.contains(x) {
            let i = choose|i: int| 0 <= i < b.len() && b[i] == x;
            assert(c[a.len() + i] == x);
        }
    }
}

/// The list without `id`.
pub fn without_id(v: &Vec<u64>, id: u64) -> (r: Vec<u64>)
    ensures
        r@ == without(v@, id),
{
    let mut r: Vec<u64> = Vec::new();
    let ghost p = other_than(id);
    let mut i: usize = 0;
    proof {
        lemma_filter_empty(p);
        assert(v@.take(0) =~= Seq::<u64>::empty());
    }
    while i < v.len()
        invariant
            i <= v.len(),
            p == other_than(id),
            r@ == v@.take(i as int).filter(p),
        decreases v.len() - i,
    {
        proof {
            assert(v@.take(i + 1) =~= v@.take(i as int).push(v@[i as int]));
            lemma_filter_push(v@.take(i as int), v@[i as int], p);
        }
        if v[i] != id {
            r.push(v[i]);
        }
        i = i + 1;
    }
    assert(v@.take(v.len() as int) =~= v@);
    r
}

/// The first position of `id`.
pub fn position(v: &Vec<u64>, id: u64) -> (r: Option<usize>)
    ensures
        match r {
            Some(i) => i < v.len() && v[i as int] == id && forall|k: int| 0 <= k < i ==> v[k] != id,
            None => !v@.contains(id),
        },
{
    let mut i: usize = 0;
    while i < v.len()
        invariant
            i <= v.len(),
            forall|k: int| 0 <= k < i ==> v[k] != id,
        decreases v.len() - i,
    {
        if v[i] == id {
            return Some(i);
        }
        i = i + 1;
    }
    None
}

/// The list without the first `id`.
pub fn without_first_id(v: &Vec<u64>, id: u64) -> (r: Vec<u64>)
    requires
        v@.contains(id),
    ensures
        r@ == without_first(v@, id),
{
    let mut r: Vec<u64> = v.clone();
    proof {
        lemma_position(v@, id);
    }
    if let Some(i) = position(v, id) {
        r.remove(i);
    }
    r
}

/// The list from its end to its start.
pub fn reversed(v: &Vec<u64>) -> (r: Vec<u64>)
    ensures
        r@ == v@.reverse(),
{
    let mut r: Vec<u64> = Vec::new();
    let mut i: usize = v.len();
    while i > 0
        invariant
            i <= v.len(),
            r@ == v@.reverse().take(v.len() - i),
        decreases i,
    {
        assert(v@.reverse().take(v.len() - i + 1) =~= v@.reverse().take(v.len() - i).push(v@[i - 1]));
        i = i - 1;
        r.push(v[i]);
    }
    assert(v@.reverse().take(v.len() as int) =~= v@.reverse());
    r
}

} // verus!
