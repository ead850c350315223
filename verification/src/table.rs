//! A table with texts as keys, in the order of its keys.
use crate::text::{chars_of, views};
use vstd::prelude::*;

verus! {

/// Whether the text `a` comes before `b`, character by character.
pub open spec fn text_less(a: Seq<char>, b: Seq<char>) -> bool
    decreases a.len(),
{
    if b.len() == 0 {
        false
    } else if a.len() == 0 {
        true
    } else if a[0] != b[0] {
        a[0] < b[0]
    } else {
        text_less(a.skip(1), b.skip(1))
    }
}

/// The order of texts is a strict total order.
pub proof fn lemma_text_order(a: Seq<char>, b: Seq<char>)
    ensures
        !text_less(a, a),
        text_less(a, b) ==> !text_less(b, a) && a != b,
        a == b || text_less(a, b) || text_less(b, a),
    decreases a.len(),
{
    if a.len() > 0 {
        lemma_text_order(a.skip(1), a.skip(1));
    }
    if a.len() > 0 && b.len() > 0 {
        lemma_text_order(a.skip(1), b.skip(1));
        if a[0] == b[0] && a.skip(1) == b.skip(1) {
            assert(a =~= seq![a[0]] + a.skip(1));
            assert(b =~= seq![b[0]] + b.skip(1));
        }
    } else if a.len() == 0 && b.len() == 0 {
        assert(a =~= b);
    }
}

/// The order of texts is transitive.
pub proof fn lemma_text_transitive(a: Seq<char>, b: Seq<char>, c: Seq<char>)
    requires
        text_less(a, b),
        text_less(b, c),
    ensures
        text_less(a, c),
    decreases a.len(),
{
    if a.len() > 0 && a[0] == b[0] && b[0] == c[0] {
        lemma_text_transitive(a.skip(1), b.skip(1), c.skip(1));
    }
}

/// How two texts are ordered.
#[derive(Debug, Clone, Copy, PartialEq, Eq, Structural)]
pub enum TextOrder {
    Before,
    Same,
    After,
}

/// Compares two texts, character by character.
pub fn order_texts(a: &str, b: &str) -> (r: TextOrder)
    ensures
        match r {
            TextOrder::Before => text_less(a@, b@),
            TextOrder::Same => a@ == b@,
            TextOrder::After => text_less(b@, a@),
        },
{
    let x = chars_of(a);
    let y = chars_of(b);
    let mut i: usize = 0;
    assert(a@.skip(0) =~= a@ && b@.skip(0) =~= b@);
    while i < x.len() && i < y.len()
        invariant
            x@ == a@,
            y@ == b@,
            i <= x.len(),
            i <= y.len(),
            a@.take(i as int) == b@.take(i as int),
            text_less(a@, b@) == text_less(a@.skip(i as int), b@.skip(i as int)),
            text_less(b@, a@) == text_less(b@.skip(i as int), a@.skip(i as int)),
        decreases x.len() - i,
    {
        if x[i] < y[i] {
            return TextOrder::Before;
        }
        if x[i] > y[i] {
            return TextOrder::After;
        }
        proof {
            assert(a@.skip(i as int).skip(1) =~= a@.skip(i + 1));
            assert(b@.skip(i as int).skip(1) =~= b@.skip(i + 1));
            assert(a@.take(i + 1) =~= a@.take(i as int).push(a@[i as int]));
            assert(b@.take(i + 1) =~= b@.take(i as int).push(b@[i as int]));
        }
        i = i + 1;
    }
    if x.len() == y.len() {
        assert(a@.take(i as int) =~= a@ && b@.take(i as int) =~= b@);
        TextOrder::Same
    } else if i == x.len() {
        TextOrder::Before
    } else {
        TextOrder::After
    }
}

/// Values by text, in the order of the texts.
pub struct TextTable<V> {
    entries: Vec<(String, V)>,
}

/// The pairs of a table as a map.
pub open spec fn map_of<V>(pairs: Seq<(Seq<char>, V)>) -> Map<Seq<char>, V>
    decreases pairs.len(),
{
    if pairs.len() == 0 {
        Map::empty()
    } else {
        map_of(pairs.drop_last()).insert(pairs.last().0, pairs.last().1)
    }
}

/// Whether the keys of the pairs ascend.
pub open spec fn keys_ascend<V>(pairs: Seq<(Seq<char>, V)>) -> bool {
    forall|i: int, j: int| 0 <= i < j < pairs.len() ==> text_less((#[trigger] pairs[i]).0, (#[trigger] pairs[j]).0)
}

/// A table with ascending keys holds each pair, and nothing else.
pub proof fn lemma_map_of<V>(pairs: Seq<(Seq<char>, V)>)
    requires
        keys_ascend(pairs),
    ensures
        forall|i: int|
            0 <= i < pairs.len() ==> #[trigger] map_of(pairs).contains_key(pairs[i].0) && map_of(pairs)[pairs[i].0]
                == pairs[i].1,
        forall|k: Seq<char>|
            #[trigger] map_of(pairs).contains_key(k) ==> exists|i: int| 0 <= i < pairs.len() && pairs[i].0 == k,
    decreases pairs.len(),
{
    if pairs.len() > 0 {
        let front = pairs.drop_last();
        assert(keys_ascend(front));
        lemma_map_of(front);
        assert forall|i: int| 0 <= i < pairs.len() implies #[trigger] map_of(pairs).contains_key(pairs[i].0)
            && map_of(pairs)[pairs[i].0] == pairs[i].1 by {
            if i < pairs.len() - 1 {
                assert(front[i] == pairs[i]);
                assert(map_of(front).contains_key(front[i].0));
                assert(text_less(pairs[i].0, pairs[pairs.len() - 1].0));
                lemma_text_order(pairs[i].0, pairs.last().0);
            }
        }
        assert forall|k: Seq<char>| #[trigger] map_of(pairs).contains_key(k) implies exists|i: int|
            0 <= i < pairs.len() && pairs[i].0 == k by {
            if map_of(front).contains_key(k) {
                let i = choose|i: int| 0 <= i < front.len() && front[i].0 == k;
                assert(pairs[i].0 == k);
            } else {
                assert(pairs[pairs.len() - 1].0 == k);
            }
        }
    }
}

/// A table with ascending keys has as many keys as pairs.
pub proof fn lemma_count<V>(pairs: Seq<(Seq<char>, V)>)
    requires
        keys_ascend(pairs),
    ensures
        map_of(pairs).dom().finite(),
        map_of(pairs).dom().len() == pairs.len(),
    decreases pairs.len(),
{
    if pairs.len() > 0 {
        let front = pairs.drop_last();
        lemma_count(front);
        lemma_map_of(front);
        let key = pairs.last().0;
        if map_of(front).contains_key(key) {
            let i = choose|i: int| 0 <= i < front.len() && front[i].0 == key;
            assert(text_less(pairs[i].0, pairs[pairs.len() - 1].0));
            lemma_text_order(key, key);
        }
        assert(map_of(pairs).dom() =~= map_of(front).dom().insert(key));
    } else {
        assert(map_of(pairs).dom() =~= Set::empty());
    }
}

/// Whether a list is that of the keys of a map, in their order.
pub open spec fn lists_keys<V>(list: Seq<Seq<char>>, map: Map<Seq<char>, V>) -> bool {
    &&& forall|i: int, j: int| 0 <= i < j < list.len() ==> text_less(#[trigger] list[i], #[trigger] list[j])
    &&& forall|k: Seq<char>| #[trigger] map.contains_key(k) <==> list.contains(k)
}

/// The pairs whose keys have a property, as a map.
pub open spec fn kept<V>(pairs: Seq<(Seq<char>, V)>, keep: spec_fn(Seq<char>) -> bool) -> Map<Seq<char>, V>
    decreases pairs.len(),
{
    if pairs.len() == 0 {
        Map::empty()
    } else if keep(pairs.last().0) {
        kept(pairs.drop_last(), keep).insert(pairs.last().0, pairs.last().1)
    } else {
        kept(pairs.drop_last(), keep)
    }
}

/// Keeping pairs by their keys restricts the map to those keys.
pub proof fn lemma_kept<V>(pairs: Seq<(Seq<char>, V)>, keep: spec_fn(Seq<char>) -> bool)
    ensures
        forall|k: Seq<char>| #[trigger] kept(pairs, keep).contains_key(k) <==> map_of(pairs).contains_key(k) && keep(k),
        forall|k: Seq<char>| #[trigger] kept(pairs, keep).contains_key(k) ==> kept(pairs, keep)[k] == map_of(pairs)[k],
    decreases pairs.len(),
{
    if pairs.len() > 0 {
        let front = pairs.drop_last();
        lemma_kept(front, keep);
        assert forall|k: Seq<char>| #[trigger] kept(pairs, keep).contains_key(k) <==> map_of(pairs).contains_key(k)
            && keep(k) by {
            assert(kept(front, keep).contains_key(k) <==> map_of(front).contains_key(k) && keep(k));
        }
        assert forall|k: Seq<char>| #[trigger] kept(pairs, keep).contains_key(k) implies kept(pairs, keep)[k]
            == map_of(pairs)[k] by {
            assert(kept(front, keep).contains_key(k) ==> kept(front, keep)[k] == map_of(front)[k]);
        }
    }
}

impl<V> TextTable<V> {
    /// The entries in order.
    pub closed spec fn pairs(self) -> Seq<(Seq<char>, V)> {
        self.entries@.map_values(|e: (String, V)| (e.0@, e.1))
    }

    /// Whether the keys ascend; all operations keep it so.
    pub open spec fn wf(self) -> bool {
        keys_ascend(self.pairs())
    }

    /// The values by text.
    pub open spec fn view(&self) -> Map<Seq<char>, V> {
        map_of(self.pairs())
    }

    pub fn new() -> (r: Self)
        ensures
            r.wf(),
            r@ == Map::<Seq<char>, V>::empty(),
            r.pairs() == Seq::<(Seq<char>, V)>::empty(),
    {
        let r = TextTable { entries: Vec::new() };
        assert(r.pairs() =~= Seq::empty());
        r
    }

    /// How many entries there are.
    pub fn len(&self) -> (r: usize)
        ensures
            r == self.pairs().len(),
    {
        self.entries.len()
    }

    /// The key of entry `i`.
    /// How many keys the table has.
    pub fn count(&self) -> (r: usize)
        requires
            self.wf(),
        ensures
            r == self@.dom().len(),
    {
        proof {
            lemma_count(self.pairs());
        }
        self.len()
    }

    /// The keys, in their order.
    pub fn keys(&self) -> (r: Vec<String>)
        requires
            self.wf(),
        ensures
            lists_keys(views(r@), self@),
    {
        let mut r: Vec<String> = Vec::new();
        let mut i: usize = 0;
        while i < self.len()
            invariant
                i <= self.pairs().len(),
                r.len() == i,
                forall|k: int| 0 <= k < i ==> (#[trigger] r@[k])@ == self.pairs()[k].0,
            decreases self.pairs().len() - i,
        {
            r.push(self.key_at(i).clone());
            i = i + 1;
        }
        proof {
            let list = views(r@);
            lemma_map_of(self.pairs());
            assert forall|k: Seq<char>| #[trigger] self@.contains_key(k) <==> list.contains(k) by {
                if self@.contains_key(k) {
                    let n = choose|n: int| 0 <= n < self.pairs().len() && self.pairs()[n].0 == k;
                    assert(list[n] == k);
                }
                if list.contains(k) {
                    let n = choose|n: int| 0 <= n < list.len() && list[n] == k;
                    assert(self.pairs()[n].0 == k);
                }
            }
            assert forall|a: int, b: int| 0 <= a < b < list.len() implies text_less(#[trigger] list[a], #[trigger] list[b]) by {
                assert(text_less(self.pairs()[a].0, self.pairs()[b].0));
            }
        }
        r
    }

    pub fn key_at(&self, i: usize) -> (r: &String)
        requires
            i < self.pairs().len(),
        ensures
            r@ == self.pairs()[i as int].0,
    {
        &self.entries[i].0
    }

    /// The value of entry `i`.
    pub fn value_at(&self, i: usize) -> (r: &V)
        requires
            i < self.pairs().len(),
        ensures
            *r == self.pairs()[i as int].1,
    {
        &self.entries[i].1
    }

    /// The first entry whose key is not before `key`, and whether it has it.
    fn place_of(&self, key: &str) -> (r: (usize, bool))
        requires
            self.wf(),
        ensures
            r.0 <= self.entries@.len(),
            forall|i: int| 0 <= i < r.0 ==> text_less((#[trigger] self.pairs()[i]).0, key@),
            r.1 ==> r.0 < self.entries@.len() && self.pairs()[r.0 as int].0 == key@,
            !r.1 ==> (r.0 < self.entries@.len() ==> text_less(key@, self.pairs()[r.0 as int].0)),
            r.1 == self@.contains_key(key@),
    {
        let mut i: usize = 0;
        while i < self.entries.len()
            invariant
                self.wf(),
                i <= self.entries@.len(),
                forall|k: int| 0 <= k < i ==> text_less((#[trigger] self.pairs()[k]).0, key@),
            decreases self.entries.len() - i,
        {
            match order_texts(self.entries[i].0.as_str(), key) {
                TextOrder::Before => {},
                TextOrder::Same => {
                    proof {
                        lemma_map_of(self.pairs());
                        assert(self.pairs()[i as int].0 == key@);
                    }
                    return (i, true);
                },
                TextOrder::After => {
                    proof {
                        self.lemma_absent(key@, i as int);
                    }
                    return (i, false);
                },
            }
            i = i + 1;
        }
        proof {
            self.lemma_absent(key@, i as int);
        }
        (i, false)
    }

    proof fn lemma_absent(&self, key: Seq<char>, at: int)
        requires
            self.wf(),
            0 <= at <= self.pairs().len(),
            forall|k: int| 0 <= k < at ==> text_less((#[trigger] self.pairs()[k]).0, key),
            at < self.pairs().len() ==> text_less(key, self.pairs()[at].0),
        ensures
            !self@.contains_key(key),
    {
        lemma_map_of(self.pairs());
        if self@.contains_key(key) {
            let i = choose|i: int| 0 <= i < self.pairs().len() && self.pairs()[i].0 == key;
            if i < at {
                lemma_text_order(self.pairs()[i].0, key);
            } else {
                if i > at {
                    assert(text_less(self.pairs()[at].0, self.pairs()[i].0));
                    lemma_text_transitive(key, self.pairs()[at].0, key);
                }
                lemma_text_order(key, key);
            }
        }
    }

    /// The value of `key`, if it has one.
    pub fn get(&self, key: &str) -> (r: Option<&V>)
        requires
            self.wf(),
        ensures
            match r {
                Some(v) => self@.contains_key(key@) && *v == self@[key@],
                None => !self@.contains_key(key@),
            },
    {
        let (i, found) = self.place_of(key);
        if found {
            proof {
                lemma_map_of(self.pairs());
            }
            Some(&self.entries[i].1)
        } else {
            None
        }
    }

    /// Gives `key` a value, in place of one that it may have.
    pub fn set(&mut self, key: &str, value: V)
        requires
            old(self).wf(),
        ensures
            final(self).wf(),
            final(self)@ == old(self)@.insert(key@, value),
    {
        let (i, found) = self.place_of(key);
        let ghost before = self.pairs();
        let entry = (key.to_string(), value);
        if found {
            self.entries.set(i, entry);
            proof {
                let after = self.pairs();
                assert(after =~= before.update(i as int, (key@, value)));
                assert(keys_ascend(after));
                lemma_map_of(before);
                lemma_map_of(after);
                assert(self@ =~= map_of(before).insert(key@, value)) by {
                    lemma_same_but(before, after, i as int, key@, value);
                }
            }
        } else {
            self.entries.insert(i, entry);
            proof {
                let after = self.pairs();
                assert(after =~= before.insert(i as int, (key@, value)));
                assert forall|a: int, b: int| 0 <= a < b < after.len() implies text_less(
                    (#[trigger] after[a]).0,
                    (#[trigger] after[b]).0,
                ) by {
                    if a == i {
                        assert(after[b] == before[b - 1]);
                        if b - 1 > i {
                            assert(text_less(before[i as int].0, before[b - 1].0));
                            lemma_text_transitive(key@, before[i as int].0, before[b - 1].0);
                        }
                    } else if b == i {
                        assert(after[a] == before[a]);
                    } else if a < i && b > i {
                        assert(text_less(before[a].0, before[b - 1].0));
                    } else if a > i {
                        assert(text_less(before[a - 1].0, before[b - 1].0));
                    } else {
                        assert(text_less(before[a].0, before[b].0));
                    }
                }
                lemma_map_of(before);
                lemma_map_of(after);
                assert forall|k: Seq<char>| #[trigger] map_of(after).contains_key(k) == map_of(before).insert(
                    key@,
                    value,
                ).contains_key(k) by {
                    if map_of(after).contains_key(k) {
                        let a = choose|a: int| 0 <= a < after.len() && after[a].0 == k;
                        if a < i {
                            assert(before[a].0 == k);
                        } else if a > i {
                            assert(before[a - 1].0 == k);
                        }
                    }
                    if map_of(before).contains_key(k) {
                        let a = choose|a: int| 0 <= a < before.len() && before[a].0 == k;
                        if a < i {
                            assert(after[a].0 == k);
                        } else {
                            assert(after[a + 1].0 == k);
                        }
                    }
                    assert(after[i as int].0 == key@);
                }
                assert forall|k: Seq<char>| #[trigger] map_of(after).contains_key(k) implies map_of(after)[k]
                    == map_of(before).insert(key@, value)[k] by {
                    let a = choose|a: int| 0 <= a < after.len() && after[a].0 == k;
                    if a < i {
                        assert(before[a] == after[a]);
                    } else if a > i {
                        assert(before[a - 1] == after[a]);
                    }
                }
                assert(self@ =~= map_of(before).insert(key@, value));
            }
        }
    }

    /// Takes `key` and its value out.
    pub fn remove(&mut self, key: &str)
        requires
            old(self).wf(),
        ensures
            final(self).wf(),
            final(self)@ == old(self)@.remove(key@),
    {
        let (i, found) = self.place_of(key);
        let ghost before = self.pairs();
        if found {
            self.entries.remove(i);
            proof {
                let after = self.pairs();
                assert(after =~= before.remove(i as int));
                assert forall|a: int, b: int| 0 <= a < b < after.len() implies text_less(
                    (#[trigger] after[a]).0,
                    (#[trigger] after[b]).0,
                ) by {
                    let x = if a < i { a } else { a + 1 };
                    let y = if b < i { b } else { b + 1 };
                    assert(after[a] == before[x] && after[b] == before[y]);
                }
                lemma_map_of(before);
                lemma_map_of(after);
                assert forall|k: Seq<char>| #[trigger] map_of(after).contains_key(k) == map_of(before).remove(
                    key@,
                ).contains_key(k) by {
                    if map_of(after).contains_key(k) {
                        let a = choose|a: int| 0 <= a < after.len() && after[a].0 == k;
                        let x = if a < i { a } else { a + 1 };
                        assert(before[x].0 == k);
                        if x < i {
                            lemma_text_order(before[x].0, before[i as int].0);
                        } else {
                            lemma_text_order(before[i as int].0, before[x].0);
                        }
                    }
                    if map_of(before).contains_key(k) && k != key@ {
                        let x = choose|x: int| 0 <= x < before.len() && before[x].0 == k;
                        let a = if x < i { x } else { x - 1 };
                        assert(after[a].0 == k);
                    }
                }
                assert forall|k: Seq<char>| #[trigger] map_of(after).contains_key(k) implies map_of(after)[k]
                    == map_of(before).remove(key@)[k] by {
                    let a = choose|a: int| 0 <= a < after.len() && after[a].0 == k;
                    let x = if a < i { a } else { a + 1 };
                    assert(before[x] == after[a]);
                }
                assert(self@ =~= map_of(before).remove(key@));
            }
        } else {
            assert(self@ =~= self@.remove(key@));
        }
    }
}

/// Replacing the value of one entry replaces it in the map.
proof fn lemma_same_but<V>(
    before: Seq<(Seq<char>, V)>,
    after: Seq<(Seq<char>, V)>,
    i: int,
    key: Seq<char>,
    value: V,
)
    requires
        0 <= i < before.len(),
        before[i].0 == key,
        after == before.update(i, (key, value)),
        keys_ascend(before),
        keys_ascend(after),
    ensures
        map_of(after) == map_of(before).insert(key, value),
{
    lemma_map_of(before);
    lemma_map_of(after);
    assert forall|k: Seq<char>| #[trigger] map_of(after).contains_key(k) == map_of(before).insert(
        key,
        value,
    ).contains_key(k) by {
        if map_of(after).contains_key(k) {
            let a = choose|a: int| 0 <= a < after.len() && after[a].0 == k;
            assert(before[a].0 == k);
        }
        if map_of(before).contains_key(k) {
            let a = choose|a: int| 0 <= a < before.len() && before[a].0 == k;
            assert(after[a].0 == k);
        }
        assert(after[i].0 == key);
    }
    assert forall|k: Seq<char>| #[trigger] map_of(after).contains_key(k) implies map_of(after)[k] == map_of(
        before,
    ).insert(key, value)[k] by {
        let a = choose|a: int| 0 <= a < after.len() && after[a].0 == k;
        if a != i {
            assert(before[a] == after[a]);
            if a < i {
                lemma_text_order(before[a].0, before[i].0);
            } else {
                lemma_text_order(before[i].0, before[a].0);
            }
        }
    }
    assert(map_of(after) =~= map_of(before).insert(key, value));
}

/// Of two texts the one that has the lesser character where they first differ
/// comes first, or the one that ends there.
pub proof fn lemma_text_less_where_they_differ(a: Seq<char>, b: Seq<char>, k: int)
    requires
        0 <= k <= a.len(),
        k < b.len(),
        forall|i: int| 0 <= i < k ==> a[i] == b[i],
        k == a.len() || a[k] < b[k],
    ensures
        text_less(a, b),
    decreases k,
{
    if k > 0 {
        lemma_text_less_where_they_differ(a.skip(1), b.skip(1), k - 1);
    }
}

} // verus!
