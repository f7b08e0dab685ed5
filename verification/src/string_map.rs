//! [`StringMap`]: a map from strings to strings whose entries are kept in
//! ascending key order, each key at most once.

use vstd::prelude::*;
use vstd::string::*;

use crate::debug_text::{debug_str, joined, lemma_joined_step, str_debug};
use crate::text::{
    less_than, lemma_text_less_total, lemma_text_less_transitive,
    text_less,
};

verus! {

/// The entries after `k` is set to `v` in the ordered entries `es`: the value
/// of an entry with an equal key is replaced (the key itself is kept);
/// otherwise a new entry goes before the first key that comes after `k`.
pub open spec fn sorted_insert(es: Seq<(Seq<char>, Seq<char>)>, k: Seq<char>, v: Seq<char>) -> Seq<(Seq<char>, Seq<char>)>
    decreases es.len(),
{
    if es.len() == 0 {
        seq![(k, v)]
    } else if es[0].0 == k {
        es.update(0, (es[0].0, v))
    } else if text_less(k, es[0].0) {
        seq![(k, v)] + es
    } else {
        seq![es[0]] + sorted_insert(es.drop_first(), k, v)
    }
}

/// The entries after each pair of `pairs` is inserted into `es`, in order:
/// for a key given more than once, the last value wins.
pub open spec fn insert_all(es: Seq<(Seq<char>, Seq<char>)>, pairs: Seq<(Seq<char>, Seq<char>)>) -> Seq<(Seq<char>, Seq<char>)>
    decreases pairs.len(),
{
    if pairs.len() == 0 {
        es
    } else {
        let rest = insert_all(es, pairs.drop_last());
        sorted_insert(rest, pairs.last().0, pairs.last().1)
    }
}

/// The value of the first entry whose key is `k`.
pub open spec fn lookup(es: Seq<(Seq<char>, Seq<char>)>, k: Seq<char>) -> Option<Seq<char>>
    decreases es.len(),
{
    if es.len() == 0 {
        None
    } else if es[0].0 == k {
        Some(es[0].1)
    } else {
        lookup(es.drop_first(), k)
    }
}

/// The keys of `es` are strictly ascending.
pub open spec fn keys_sorted(es: Seq<(Seq<char>, Seq<char>)>) -> bool {
    forall|i: int, j: int| 0 <= i < j < es.len() ==> text_less(#[trigger] es[i].0, #[trigger] es[j].0)
}

/// A stored pair, seen as the two texts it holds.
pub open spec fn pair_view(e: (String, String)) -> (Seq<char>, Seq<char>) {
    (e.0@, e.1@)
}

/// Stored pairs, seen as texts.
pub open spec fn pairs_view(es: Seq<(String, String)>) -> Seq<(Seq<char>, Seq<char>)> {
    es.map_values(|e: (String, String)| pair_view(e))
}

/// A map from strings to strings, iterated in ascending key order. Keys are
/// compared character by character; for UTF-8 text this is the same order as
/// comparing their bytes, the order of `str`'s `Ord`.
#[derive(Debug, PartialEq, Eq)]
pub struct StringMap {
    entries: Vec<(String, String)>,
}

impl View for StringMap {
    type V = Seq<(Seq<char>, Seq<char>)>;

    closed spec fn view(&self) -> Seq<(Seq<char>, Seq<char>)> {
        pairs_view(self.entries@)
    }
}

impl Clone for StringMap {
    /// A copy with the same entries.
    fn clone(&self) -> (r: StringMap)
        ensures
            r@ == self@,
    {
        proof {
            use_type_invariant(self);
        }
        let n = self.entries.len();
        let mut v: Vec<(String, String)> = Vec::new();
        let mut i: usize = 0;
        while i < n
            invariant
                n == self.entries@.len(),
                i <= n,
                v@ == self.entries@.subrange(0, i as int),
            decreases n - i,
        {
            let k = self.entries[i].0.clone();
            let x = self.entries[i].1.clone();
            v.push((k, x));
            assert(v@ =~= self.entries@.subrange(0, i + 1));
            i = i + 1;
        }
        assert(v@ =~= self.entries@);
        StringMap { entries: v }
    }
}

proof fn lemma_insert_step(es: Seq<(Seq<char>, Seq<char>)>, k: Seq<char>, v: Seq<char>, i: int)
    requires
        0 <= i < es.len(),
        es[i].0 != k,
        !text_less(k, es[i].0),
    ensures
        sorted_insert(es.skip(i), k, v) == seq![es[i]] + sorted_insert(es.skip(i + 1), k, v),
{
    assert(es.skip(i).drop_first() =~= es.skip(i + 1));
}

/// Setting a key changes what that key finds and nothing else.
pub proof fn lemma_lookup_insert(es: Seq<(Seq<char>, Seq<char>)>, k: Seq<char>, v: Seq<char>, key: Seq<char>)
    ensures
        lookup(sorted_insert(es, k, v), key) == if key == k {
            Some(v)
        } else {
            lookup(es, key)
        },
    decreases es.len(),
{
    let r = sorted_insert(es, k, v);
    let goal = if key == k {
        Some(v)
    } else {
        lookup(es, key)
    };
    if es.len() == 0 {
        assert(r == seq![(k, v)]);
        assert(r[0] == (k, v));
        assert(r.drop_first() =~= Seq::<(Seq<char>, Seq<char>)>::empty());
        assert(lookup(r.drop_first(), key) == None::<Seq<char>>);
    } else if es[0].0 == k {
        assert(r.drop_first() =~= es.drop_first());
        assert(lookup(r, key) == goal);
    } else if text_less(k, es[0].0) {
        assert(r.drop_first() =~= es);
        assert(lookup(r, key) == goal);
    } else {
        lemma_lookup_insert(es.drop_first(), k, v, key);
        assert(r.drop_first() =~= sorted_insert(es.drop_first(), k, v));
        assert(lookup(r, key) == goal);
    }
}

proof fn lemma_insert_lower_bound(es: Seq<(Seq<char>, Seq<char>)>, k: Seq<char>, v: Seq<char>, b: Seq<char>)
    requires
        text_less(b, k),
        forall|j: int| 0 <= j < es.len() ==> text_less(b, #[trigger] es[j].0),
    ensures
        forall|j: int| 0 <= j < sorted_insert(es, k, v).len() ==> text_less(b, #[trigger] sorted_insert(es, k, v)[j].0),
    decreases es.len(),
{
    let r = sorted_insert(es, k, v);
    if es.len() == 0 {
    } else if es[0].0 == k {
    } else if text_less(k, es[0].0) {
        assert forall|j: int| 0 <= j < r.len() implies text_less(b, #[trigger] r[j].0) by {
            if j > 0 {
                assert(r[j] == es[j - 1]);
            }
        }
    } else {
        lemma_insert_lower_bound(es.drop_first(), k, v, b);
        let t = sorted_insert(es.drop_first(), k, v);
        assert forall|j: int| 0 <= j < r.len() implies text_less(b, #[trigger] r[j].0) by {
            if j > 0 {
                assert(r[j] == t[j - 1]);
            }
        }
    }
}

/// Setting a key keeps the keys strictly ascending.
pub proof fn lemma_insert_sorted(es: Seq<(Seq<char>, Seq<char>)>, k: Seq<char>, v: Seq<char>)
    requires
        keys_sorted(es),
    ensures
        keys_sorted(sorted_insert(es, k, v)),
    decreases es.len(),
{
    let r = sorted_insert(es, k, v);
    if es.len() == 0 {
    } else if es[0].0 == k {
        assert forall|i: int, j: int| 0 <= i < j < r.len() implies text_less(#[trigger] r[i].0, #[trigger] r[j].0) by {
            assert(r[i].0 == es[i].0);
            assert(r[j].0 == es[j].0);
        }
    } else if text_less(k, es[0].0) {
        assert forall|i: int, j: int| 0 <= i < j < r.len() implies text_less(#[trigger] r[i].0, #[trigger] r[j].0) by {
            if i == 0 {
                if j > 1 {
                    lemma_text_less_transitive(k, es[0].0, es[j - 1].0);
                }
            }
        }
    } else {
        lemma_text_less_total(k, es[0].0);
        let rest = es.drop_first();
        assert(keys_sorted(rest)) by {
            assert forall|i: int, j: int| 0 <= i < j < rest.len() implies text_less(#[trigger] rest[i].0, #[trigger] rest[j].0) by {
                assert(rest[i] == es[i + 1]);
                assert(rest[j] == es[j + 1]);
            }
        }
        lemma_insert_sorted(rest, k, v);
        assert forall|j: int| 0 <= j < rest.len() implies text_less(es[0].0, #[trigger] rest[j].0) by {
            assert(rest[j] == es[j + 1]);
        }
        lemma_insert_lower_bound(rest, k, v, es[0].0);
        let t = sorted_insert(rest, k, v);
        assert forall|i: int, j: int| 0 <= i < j < r.len() implies text_less(#[trigger] r[i].0, #[trigger] r[j].0) by {
            if i == 0 {
                assert(r[j] == t[j - 1]);
            } else {
                assert(r[i] == t[i - 1]);
                assert(r[j] == t[j - 1]);
            }
        }
    }
}

/// The value of the last pair of `pairs` whose key is `k`.
pub open spec fn last_value(pairs: Seq<(Seq<char>, Seq<char>)>, k: Seq<char>) -> Option<Seq<char>>
    decreases pairs.len(),
{
    if pairs.len() == 0 {
        None
    } else if pairs.last().0 == k {
        Some(pairs.last().1)
    } else {
        last_value(pairs.drop_last(), k)
    }
}

/// After inserting pairs in order, a key finds the value of the last pair
/// that has it, or what it found before when no pair has it.
pub proof fn lemma_insert_all_lookup(es: Seq<(Seq<char>, Seq<char>)>, pairs: Seq<(Seq<char>, Seq<char>)>, k: Seq<char>)
    ensures
        lookup(insert_all(es, pairs), k) == match last_value(pairs, k) {
            Some(v) => Some(v),
            None => lookup(es, k),
        },
    decreases pairs.len(),
{
    if pairs.len() > 0 {
        lemma_insert_all_lookup(es, pairs.drop_last(), k);
        lemma_lookup_insert(insert_all(es, pairs.drop_last()), pairs.last().0, pairs.last().1, k);
    }
}

/// No pair has key `k`, so none gives it a value.
pub proof fn lemma_last_value_absent(pairs: Seq<(Seq<char>, Seq<char>)>, k: Seq<char>)
    requires
        forall|i: int| 0 <= i < pairs.len() ==> #[trigger] pairs[i].0 != k,
    ensures
        last_value(pairs, k) is None,
    decreases pairs.len(),
{
    if pairs.len() > 0 {
        let p = pairs.drop_last();
        assert forall|i: int| 0 <= i < p.len() implies #[trigger] p[i].0 != k by {
            assert(p[i] == pairs[i]);
        }
        lemma_last_value_absent(p, k);
    }
}

/// The last pair with key `k` is the one at `i` when no later pair has `k`.
pub proof fn lemma_last_value_at(pairs: Seq<(Seq<char>, Seq<char>)>, i: int)
    requires
        0 <= i < pairs.len(),
        forall|j: int| i < j < pairs.len() ==> #[trigger] pairs[j].0 != pairs[i].0,
    ensures
        last_value(pairs, pairs[i].0) == Some(pairs[i].1),
    decreases pairs.len(),
{
    if i < pairs.len() - 1 {
        let p = pairs.drop_last();
        assert(p[i] == pairs[i]);
        assert forall|j: int| i < j < p.len() implies #[trigger] p[j].0 != p[i].0 by {
            assert(p[j] == pairs[j]);
        }
        lemma_last_value_at(p, i);
    }
}

impl StringMap {
    #[verifier::type_invariant]
    spec fn entries_sorted(self) -> bool {
        keys_sorted(pairs_view(self.entries@))
    }

    /// An empty map.
    pub fn new() -> (m: StringMap)
        ensures
            m@ == Seq::<(Seq<char>, Seq<char>)>::empty(),
            keys_sorted(m@),
    {
        let m = StringMap { entries: Vec::new() };
        assert(m@ =~= Seq::<(Seq<char>, Seq<char>)>::empty());
        m
    }

    /// The map holding `pairs`, inserted in order (a repeated key keeps its
    /// last value).
    pub fn from_pairs(pairs: Vec<(String, String)>) -> (m: StringMap)
        ensures
            m@ == insert_all(Seq::empty(), pairs_view(pairs@)),
            keys_sorted(m@),
    {
        let mut m = StringMap::new();
        let n = pairs.len();
        let mut i: usize = 0;
        let ghost all = pairs_view(pairs@);
        while i < n
            invariant
                n == pairs@.len(),
                all == pairs_view(pairs@),
                i <= n,
                m@ == insert_all(Seq::empty(), all.subrange(0, i as int)),
                keys_sorted(m@),
            decreases n - i,
        {
            let k = pairs[i].0.clone();
            let v = pairs[i].1.clone();
            proof {
                assert(all.subrange(0, i + 1).drop_last() =~= all.subrange(0, i as int));
                assert(all[i as int] == (k@, v@));
            }
            m.insert(k, v);
            i = i + 1;
        }
        assert(all.subrange(0, n as int) =~= all);
        m
    }

    /// Where `key` goes among the entries: the index of the first entry whose
    /// key is `key` (with `true`), or else of the first whose key comes after
    /// it (with `false`; the length when there is none).
    fn place(&self, key: &String) -> (r: (usize, bool))
        ensures
            r.0 <= self@.len(),
            r.1 ==> r.0 < self@.len() && self@[r.0 as int].0 == key@,
            forall|v: Seq<char>|
                #[trigger] sorted_insert(self@, key@, v) == self@.take(r.0 as int) + sorted_insert(
                    self@.skip(r.0 as int),
                    key@,
                    v,
                ),
            !r.1 && r.0 < self@.len() ==> text_less(key@, self@[r.0 as int].0) && self@[r.0 as int].0
                != key@,
    {
        let ghost es = self@;
        let n = self.entries.len();
        let mut i: usize = 0;
        assert forall|v: Seq<char>| #[trigger] sorted_insert(es, key@, v) == es.take(0) + sorted_insert(es.skip(0), key@, v) by {
            assert(es.skip(0) =~= es);
            assert(es.take(0) + sorted_insert(es.skip(0), key@, v) =~= sorted_insert(es, key@, v));
        }
        while i < n
            invariant
                n == es.len(),
                i <= n,
                es == pairs_view(self.entries@),
                forall|v: Seq<char>|
                    #[trigger] sorted_insert(es, key@, v) == es.take(i as int) + sorted_insert(es.skip(i as int), key@, v),
            decreases n - i,
        {
            assert(es[i as int] == pair_view(self.entries@[i as int]));
            if self.entries[i].0 == *key {
                return (i, true);
            }
            if less_than(key.as_str(), self.entries[i].0.as_str()) {
                return (i, false);
            }
            assert forall|v: Seq<char>| #[trigger] sorted_insert(es, key@, v) == es.take(i + 1) + sorted_insert(es.skip(i + 1), key@, v) by {
                lemma_insert_step(es, key@, v, i as int);
                assert(es.take(i + 1) =~= es.take(i as int) + seq![es[i as int]]);
                assert(es.take(i as int) + (seq![es[i as int]] + sorted_insert(es.skip(i + 1), key@, v))
                    =~= es.take(i + 1) + sorted_insert(es.skip(i + 1), key@, v));
            }
            i = i + 1;
        }
        (n, false)
    }

    /// Set `key` to `value`.
    pub fn insert(&mut self, key: String, value: String)
        ensures
            final(self)@ == sorted_insert(old(self)@, key@, value@),
            keys_sorted(final(self)@),
    {
        proof {
            use_type_invariant(&*self);
        }
        let ghost es = self@;
        let ghost raw = self.entries@;
        proof {
            lemma_insert_sorted(es, key@, value@);
        }
        let (i, same) = self.place(&key);
        let ghost tail = es.skip(i as int);
        let ghost kv = (key@, value@);
        assert(sorted_insert(es, key@, value@) == es.take(i as int) + sorted_insert(tail, key@, value@));
        let mut v: Vec<(String, String)> = Vec::new();
        std::mem::swap(&mut v, &mut self.entries);
        if same {
            let kept = v[i].0.clone();
            v.set(i, (kept, value));
            assert(tail[0] == es[i as int]);
            assert(sorted_insert(tail, key@, value@) == tail.update(0, (es[i as int].0, value@)));
            assert(pairs_view(v@) =~= es.take(i as int) + tail.update(0, (es[i as int].0, value@)));
        } else if i < v.len() {
            v.insert(i, (key, value));
            assert(tail[0] == es[i as int]);
            assert(sorted_insert(tail, kv.0, kv.1) == seq![kv] + tail);
            assert(pairs_view(v@) =~= es.take(i as int) + (seq![kv] + tail));
        } else {
            assert(tail =~= Seq::<(Seq<char>, Seq<char>)>::empty());
            v.push((key, value));
            assert(pairs_view(v@) =~= es.take(i as int) + seq![kv]);
        }
        self.entries = v;
    }

    /// The value stored under `key`, if any.
    pub fn get(&self, key: &str) -> (r: Option<&String>)
        ensures
            match r {
                Some(v) => lookup(self@, key@) == Some(v@),
                None => lookup(self@, key@) is None,
            },
    {
        let k = String::from_str(key);
        let ghost es = self@;
        let n = self.entries.len();
        let mut i: usize = 0;
        assert(es.skip(0) =~= es);
        while i < n
            invariant
                n == es.len(),
                es == pairs_view(self.entries@),
                i <= n,
                k@ == key@,
                lookup(es, key@) == lookup(es.skip(i as int), key@),
            decreases n - i,
        {
            let ghost s = es.skip(i as int);
            assert(s[0] == es[i as int]);
            assert(es[i as int] == pair_view(self.entries@[i as int]));
            if self.entries[i].0 == k {
                return Some(&self.entries[i].1);
            }
            assert(s.drop_first() =~= es.skip(i + 1));
            i = i + 1;
        }
        None
    }

    /// A debug text in the form of a map: `{"k": "v", "k2": "v2"}`, keys in
    /// ascending order.
    pub fn debug_text(&self) -> (r: String)
        ensures
            r@ == "{"@ + joined(self@.map_values(|e: (Seq<char>, Seq<char>)| str_debug(e.0) + ": "@ + str_debug(e.1)))
                + "}"@,
    {
        let ghost items = self@.map_values(|e: (Seq<char>, Seq<char>)| str_debug(e.0) + ": "@ + str_debug(e.1));
        let mut s = String::from_str("{");
        let n = self.entries.len();
        let mut i: usize = 0;
        assert(items.subrange(0, 0) =~= Seq::<Seq<char>>::empty());
        while i < n
            invariant
                n == self.entries@.len(),
                items == self@.map_values(|e: (Seq<char>, Seq<char>)| str_debug(e.0) + ": "@ + str_debug(e.1)),
                self@ == pairs_view(self.entries@),
                i <= n,
                s@ == "{"@ + joined(items.subrange(0, i as int)),
            decreases n - i,
        {
            proof {
                lemma_joined_step(items, i as int);
            }
            if i > 0 {
                s.append(", ");
            }
            let key = debug_str(self.entries[i].0.as_str());
            s.append(key.as_str());
            s.append(": ");
            let value = debug_str(self.entries[i].1.as_str());
            s.append(value.as_str());
            i = i + 1;
        }
        assert(items.subrange(0, n as int) =~= items);
        s.append("}");
        s
    }

    /// The number of entries.
    pub fn len(&self) -> (r: usize)
        ensures
            r == self@.len(),
    {
        self.entries.len()
    }

    /// Whether the map has no entries.
    pub fn is_empty(&self) -> (r: bool)
        ensures
            r == (self@.len() == 0),
    {
        self.entries.len() == 0
    }

    /// The entries, in ascending key order.
    pub fn entries(&self) -> (r: &Vec<(String, String)>)
        ensures
            pairs_view(r@) == self@,
            keys_sorted(self@),
    {
        proof {
            use_type_invariant(self);
        }
        &self.entries
    }
}

} // verus!
