//! [`DualNumber`] with sparse dual components keyed by opaque unique keys.
//!
//! The derivative is a mapping from keys to partials; absent keys read as
//! implicit zero.  Merging two mappings unions their keys and sums the
//! values present in both operands; keys are never removed, even when a
//! summed value is exactly zero.  Merging is proved commutative and
//! associative, so derivative contributions may arrive in any order.

use vstd::prelude::*;

use crate::fluid::Value;

verus! {

/// A bound for keys used with [`Grad`]: copyable, with decidable equality.
pub trait GradKey: Sized + Copy {
    /// Equality of keys.
    fn key_eq(&self, other: &Self) -> (b: bool)
        ensures
            b == (*self == *other),
    ;
}

impl GradKey for u128 {
    fn key_eq(&self, other: &Self) -> (b: bool) {
        *self == *other
    }
}

impl GradKey for u64 {
    fn key_eq(&self, other: &Self) -> (b: bool) {
        *self == *other
    }
}

/// No two entries share a key.
pub open spec fn distinct_keys<K, V>(s: Seq<(K, V)>) -> bool {
    forall|i: int, j: int| 0 <= i < j < s.len() ==> s[i].0 != s[j].0
}

/// The mapping a sequence of entries stands for.
pub open spec fn map_of<K, V>(s: Seq<(K, V)>) -> Map<K, V>
    decreases s.len(),
{
    if s.len() == 0 {
        Map::empty()
    } else {
        map_of(s.drop_last()).insert(s.last().0, s.last().1)
    }
}

/// The merge of two sparse derivatives: a key in exactly one operand
/// passes through unchanged; a key in both sums the values.
pub open spec fn merge_model<K, V: Value>(a: Map<K, V>, b: Map<K, V>) -> Map<K, V> {
    Map::new(
        |key: K| a.dom().contains(key) || b.dom().contains(key),
        |key: K|
            if a.dom().contains(key) && b.dom().contains(key) {
                a[key].add_spec(b[key])
            } else if a.dom().contains(key) {
                a[key]
            } else {
                b[key]
            },
    )
}

/// A sparse derivative with every partial transformed in place.
pub open spec fn map_transform<K, V: Value>(a: Map<K, V>, f: spec_fn(V) -> V) -> Map<K, V> {
    Map::new(|key: K| a.dom().contains(key), |key: K| f(a[key]))
}

/// Merging sparse derivatives is commutative.
pub proof fn lemma_merge_model_commutes<K, V: Value>(a: Map<K, V>, b: Map<K, V>)
    ensures
        merge_model(a, b) == merge_model(b, a),
{
    assert forall|key: K| #[trigger] merge_model(a, b).dom().contains(key) implies merge_model(
        a,
        b,
    )[key] == merge_model(b, a)[key] by {
        if a.dom().contains(key) && b.dom().contains(key) {
            V::lemma_add_commutes(a[key], b[key]);
        }
    }
    assert(merge_model(a, b) =~= merge_model(b, a));
}

/// Merging sparse derivatives is associative.
pub proof fn lemma_merge_model_associates<K, V: Value>(a: Map<K, V>, b: Map<K, V>, c: Map<K, V>)
    ensures
        merge_model(merge_model(a, b), c) == merge_model(a, merge_model(b, c)),
{
    let lhs = merge_model(merge_model(a, b), c);
    let rhs = merge_model(a, merge_model(b, c));
    assert forall|key: K| #[trigger] lhs.dom().contains(key) implies lhs[key] == rhs[key] by {
        if a.dom().contains(key) && b.dom().contains(key) && c.dom().contains(key) {
            V::lemma_add_associates(a[key], b[key], c[key]);
        }
    }
    assert(lhs =~= rhs);
}

/// A key is in the mapping exactly when some entry carries it.
proof fn lemma_map_of_contains<K, V>(s: Seq<(K, V)>, key: K)
    ensures
        map_of(s).dom().contains(key) <==> exists|i: int| 0 <= i < s.len() && s[i].0 == key,
    decreases s.len(),
{
    if s.len() > 0 {
        let t = s.drop_last();
        lemma_map_of_contains(t, key);
        if map_of(s).dom().contains(key) {
            if s.last().0 == key {
                assert(s[s.len() - 1].0 == key);
            } else {
                let i = choose|i: int| 0 <= i < t.len() && t[i].0 == key;
                assert(s[i].0 == key);
            }
        }
        if exists|i: int| 0 <= i < s.len() && s[i].0 == key {
            let i = choose|i: int| 0 <= i < s.len() && s[i].0 == key;
            if i < s.len() - 1 {
                assert(t[i].0 == key);
            }
        }
    }
}

/// With distinct keys, the mapping reads each entry's value at its key.
proof fn lemma_map_of_index<K, V>(s: Seq<(K, V)>, i: int)
    requires
        distinct_keys(s),
        0 <= i < s.len(),
    ensures
        map_of(s).dom().contains(s[i].0),
        map_of(s)[s[i].0] == s[i].1,
    decreases s.len(),
{
    if i < s.len() - 1 {
        let t = s.drop_last();
        lemma_map_of_index(t, i);
        assert(s.last().0 != s[i].0);
    }
}

/// With distinct keys, replacing the value of the entry at `i` replaces
/// exactly one binding of the mapping.
proof fn lemma_map_of_update<K, V>(s: Seq<(K, V)>, i: int, v: V)
    requires
        distinct_keys(s),
        0 <= i < s.len(),
    ensures
        map_of(s.update(i, (s[i].0, v))) == map_of(s).insert(s[i].0, v),
    decreases s.len(),
{
    let key = s[i].0;
    let s2 = s.update(i, (key, v));
    if i == s.len() - 1 {
        assert(s2.drop_last() =~= s.drop_last());
        assert(map_of(s2) =~= map_of(s).insert(key, v));
    } else {
        let t = s.drop_last();
        lemma_map_of_update(t, i, v);
        assert(s2.drop_last() =~= t.update(i, (key, v)));
        assert(s.last().0 != key);
        assert(map_of(s2) == map_of(t.update(i, (key, v))).insert(s.last().0, s.last().1));
        assert(map_of(s2) =~= map_of(s).insert(key, v));
    }
}

/// Appending a fresh entry inserts one binding.
proof fn lemma_map_of_push<K, V>(s: Seq<(K, V)>, key: K, v: V)
    ensures
        map_of(s.push((key, v))) == map_of(s).insert(key, v),
{
    assert(s.push((key, v)).drop_last() =~= s);
    assert(s.push((key, v)).last() == (key, v));
}

/// Entry-wise transformed entries stand for the transformed mapping.
proof fn lemma_map_of_transform<K, V: Value>(s: Seq<(K, V)>, t: Seq<(K, V)>, f: spec_fn(V) -> V)
    requires
        s.len() == t.len(),
        forall|j: int| #![all_triggers] 0 <= j < s.len() ==> t[j].0 == s[j].0 && t[j].1 == f(
            s[j].1,
        ),
    ensures
        map_of(t) == map_transform(map_of(s), f),
    decreases s.len(),
{
    if s.len() == 0 {
        assert(map_of(t) =~= map_transform(map_of(s), f));
    } else {
        lemma_map_of_transform(s.drop_last(), t.drop_last(), f);
        assert(t.last().0 == s.last().0 && t.last().1 == f(s.last().1));
        assert(map_of(t) =~= map_transform(map_of(s), f));
    }
}

/// Sparse storage of partial derivatives: a list of key and value pairs
/// with no key repeated.
#[derive(Debug, PartialEq)]
pub struct Grad<Key, V> {
    /// The entries, one per key.
    entries: Vec<(Key, V)>,
}

/// For sparse derivatives.
pub type DualNumber<V, Key> = crate::solid::DualNumber<V, Grad<Key, V>>;

impl<Key, V> Grad<Key, V> {
    #[verifier::type_invariant]
    spec fn wf(self) -> bool {
        distinct_keys(self.entries@)
    }

    /// The mapping this derivative stands for.
    pub closed spec fn map_spec(self) -> Map<Key, V> {
        map_of(self.entries@)
    }
}

impl<Key: GradKey, V: Value> Grad<Key, V> {
    /// A derivative holding one key with one partial.
    pub fn singleton(key: Key, v: V) -> (r: Self)
        ensures
            r.map_spec() == Map::empty().insert(key, v),
    {
        let mut entries: Vec<(Key, V)> = Vec::new();
        entries.push((key, v));
        proof {
            assert(entries@.len() == 1);
            assert(entries@.drop_last() =~= Seq::<(Key, V)>::empty());
            assert(entries@.last() == (key, v));
            assert(map_of(entries@.drop_last()) == Map::<Key, V>::empty());
            assert(map_of(entries@) == Map::<Key, V>::empty().insert(key, v));
        }
        Grad { entries }
    }

    /// The number of keys held.
    pub fn key_count(&self) -> (n: usize)
        ensures
            n == self.map_spec().dom().len(),
            self.map_spec().dom().finite(),
    {
        proof {
            use_type_invariant(&*self);
            lemma_map_of_len(self.entries@);
        }
        self.entries.len()
    }

    /// The partial stored under a key, or zero for an absent key.
    pub fn partial_for(&self, key: Key) -> (v: V)
        ensures
            v == if self.map_spec().dom().contains(key) {
                self.map_spec()[key]
            } else {
                V::zero_spec()
            },
    {
        proof {
            use_type_invariant(&*self);
            lemma_map_of_contains(self.entries@, key);
        }
        match find_key(&self.entries, key) {
            Some(i) => {
                proof {
                    lemma_map_of_index(self.entries@, i as int);
                }
                self.entries[i].1
            },
            None => V::zero(),
        }
    }
}

/// With distinct keys the mapping is finite, with one binding per entry.
proof fn lemma_map_of_len<K, V>(s: Seq<(K, V)>)
    requires
        distinct_keys(s),
    ensures
        map_of(s).dom().finite(),
        map_of(s).dom().len() == s.len(),
    decreases s.len(),
{
    if s.len() > 0 {
        let t = s.drop_last();
        lemma_map_of_len(t);
        lemma_map_of_contains(t, s.last().0);
    }
}

/// The position of a key among the entries, if it is present.
fn find_key<Key: GradKey, V: Value>(entries: &Vec<(Key, V)>, key: Key) -> (r: Option<usize>)
    ensures
        match r {
            Some(i) => i < entries@.len() && entries@[i as int].0 == key,
            None => forall|i: int| 0 <= i < entries@.len() ==> entries@[i].0 != key,
        },
{
    let mut i: usize = 0;
    while i < entries.len()
        invariant
            i <= entries@.len(),
            forall|j: int| 0 <= j < i ==> entries@[j].0 != key,
        decreases entries@.len() - i,
    {
        if entries[i].0.key_eq(&key) {
            return Some(i);
        }
        i = i + 1;
    }
    None
}

/// Merge two sparse derivatives: for a key held by both, the partials are
/// summed; all other keys pass through unchanged.
pub fn merge_assign<Key: GradKey, V: Value>(map1: &mut Grad<Key, V>, map2: &Grad<Key, V>)
    ensures
        final(map1).map_spec() == merge_model(old(map1).map_spec(), map2.map_spec()),
{
    proof {
        use_type_invariant(&*map1);
        use_type_invariant(map2);
    }
    let ghost m: Map<Key, V> = map1.map_spec();
    let src: &Vec<(Key, V)> = &map2.entries;
    let mut out: Vec<(Key, V)> = Vec::new();
    let mut i: usize = 0;
    // copy the receiver's entries
    while i < map1.entries.len()
        invariant
            i <= map1.entries@.len(),
            out@ =~= map1.entries@.take(i as int),
        decreases map1.entries@.len() - i,
    {
        out.push(map1.entries[i]);
        i = i + 1;
    }
    proof {
        assert(out@ =~= map1.entries@);
    }
    let mut j: usize = 0;
    while j < src.len()
        invariant
            j <= src@.len(),
            distinct_keys(src@),
            distinct_keys(out@),
            map_of(out@) == merge_model(m, map_of(src@.take(j as int))),
        decreases src@.len() - j,
    {
        let (key, v) = src[j];
        proof {
            lemma_map_of_contains(out@, key);
            lemma_map_of_contains(src@.take(j as int), key);
        }
        let ghost out_before: Seq<(Key, V)> = out@;
        let ghost taken: Map<Key, V> = map_of(src@.take(j as int));
        match find_key(&out, key) {
            Some(idx) => {
                proof {
                    lemma_map_of_index(out@, idx as int);
                    lemma_map_of_update(out@, idx as int, out@[idx as int].1.add_spec(v));
                }
                let cur: V = out[idx].1;
                out[idx] = (key, cur.add(v));
                proof {
                    assert(distinct_keys(out@)) by {
                        assert forall|p: int, q: int| 0 <= p < q < out@.len() implies out@[p].0
                            != out@[q].0 by {
                            assert(out@[p].0 == out_before[p].0);
                            assert(out@[q].0 == out_before[q].0);
                        }
                    }
                    assert(map_of(out@) =~= merge_model(m, taken.insert(key, v)));
                }
            },
            None => {
                proof {
                    lemma_map_of_push(out@, key, v);
                }
                out.push((key, v));
                proof {
                    assert(distinct_keys(out@)) by {
                        assert forall|p: int, q: int| 0 <= p < q < out@.len() implies out@[p].0
                            != out@[q].0 by {
                            if q < out@.len() - 1 {
                                assert(out@[p].0 == out_before[p].0);
                                assert(out@[q].0 == out_before[q].0);
                            } else {
                                assert(out@[p].0 == out_before[p].0);
                                assert(!map_of(out_before).dom().contains(key));
                            }
                        }
                    }
                    assert(!m.dom().contains(key) && !taken.dom().contains(key));
                    assert(map_of(out@) =~= merge_model(m, taken.insert(key, v)));
                }
            },
        }
        proof {
            assert(src@.take(j + 1 as int) =~= src@.take(j as int).push(src@[j as int]));
            lemma_map_of_push(src@.take(j as int), key, v);
        }
        j = j + 1;
    }
    proof {
        assert(src@.take(src@.len() as int) =~= src@);
    }
    map1.entries = out;
}

impl<Key: GradKey, V: Value> crate::fluid::Grad<V> for Grad<Key, V> {
    type Model = Map<Key, V>;

    open spec fn model(self) -> Map<Key, V> {
        self.map_spec()
    }

    open spec fn zero_model() -> Map<Key, V> {
        Map::empty()
    }

    open spec fn add_model(a: Map<Key, V>, b: Map<Key, V>) -> Map<Key, V> {
        merge_model(a, b)
    }

    open spec fn scale_model(a: Map<Key, V>, k: V) -> Map<Key, V> {
        map_transform(a, |v: V| v.mul_spec(k))
    }

    open spec fn div_scale_model(a: Map<Key, V>, k: V) -> Map<Key, V> {
        map_transform(a, |v: V| v.div_spec(k))
    }

    open spec fn neg_model(a: Map<Key, V>) -> Map<Key, V> {
        map_transform(a, |v: V| v.neg_spec())
    }

    fn zero() -> (r: Self) {
        Grad { entries: Vec::new() }
    }

    fn duplicate(&self) -> (r: Self) {
        proof {
            use_type_invariant(&*self);
        }
        let mut out: Vec<(Key, V)> = Vec::new();
        let mut i: usize = 0;
        while i < self.entries.len()
            invariant
                i <= self.entries@.len(),
                out@ =~= self.entries@.take(i as int),
            decreases self.entries@.len() - i,
        {
            out.push(self.entries[i]);
            i = i + 1;
        }
        proof {
            assert(out@ =~= self.entries@);
        }
        Grad { entries: out }
    }

    fn add(self, rhs: Self) -> (r: Self) {
        let mut out: Self = self;
        merge_assign(&mut out, &rhs);
        out
    }

    fn add_assign(&mut self, rhs: Self) {
        merge_assign(self, &rhs);
    }

    fn mul(self, rhs: V) -> (r: Self) {
        transform_entries(
            self,
            (|v: V| -> (w: V)
                ensures
                    w == v.mul_spec(rhs),
                {
                    v.mul(rhs)
                }),
            Ghost(|v: V| v.mul_spec(rhs)),
        )
    }

    fn mul_assign(&mut self, rhs: V) {
        let mut taken: Self = Grad { entries: Vec::new() };
        std::mem::swap(self, &mut taken);
        let scaled: Self = transform_entries(
            taken,
            (|v: V| -> (w: V)
                ensures
                    w == v.mul_spec(rhs),
                {
                    v.mul(rhs)
                }),
            Ghost(|v: V| v.mul_spec(rhs)),
        );
        *self = scaled;
    }

    fn div_scale(self, rhs: V) -> (r: Self) {
        transform_entries(
            self,
            (|v: V| -> (w: V)
                ensures
                    w == v.div_spec(rhs),
                {
                    v.div(rhs)
                }),
            Ghost(|v: V| v.div_spec(rhs)),
        )
    }

    fn neg(self) -> (r: Self) {
        transform_entries(
            self,
            (|v: V| -> (w: V)
                ensures
                    w == v.neg_spec(),
                {
                    v.neg()
                }),
            Ghost(|v: V| v.neg_spec()),
        )
    }

    fn eq_grad(&self, rhs: &Self) -> (b: bool) {
        proof {
            use_type_invariant(&*self);
            use_type_invariant(rhs);
        }
        if self.entries.len() != rhs.entries.len() {
            proof {
                lemma_map_of_len(self.entries@);
                lemma_map_of_len(rhs.entries@);
            }
            return false;
        }
        let mut i: usize = 0;
        while i < self.entries.len()
            invariant
                distinct_keys(self.entries@),
                distinct_keys(rhs.entries@),
                self.entries@.len() == rhs.entries@.len(),
                i <= self.entries@.len(),
                forall|j: int| #![all_triggers]
                    0 <= j < i ==> map_of(rhs.entries@).dom().contains(self.entries@[j].0)
                        && map_of(rhs.entries@)[self.entries@[j].0] == self.entries@[j].1,
            decreases self.entries@.len() - i,
        {
            let (key, v) = self.entries[i];
            proof {
                lemma_map_of_contains(rhs.entries@, key);
                lemma_map_of_index(self.entries@, i as int);
            }
            match find_key(&rhs.entries, key) {
                Some(idx) => {
                    proof {
                        lemma_map_of_index(rhs.entries@, idx as int);
                    }
                    let w: V = rhs.entries[idx].1;
                    if !v.eq_val(w) {
                        return false;
                    }
                },
                None => {
                    return false;
                },
            }
            i = i + 1;
        }
        proof {
            lemma_map_of_len(self.entries@);
            lemma_map_of_len(rhs.entries@);
            assert forall|key: Key| #[trigger] map_of(self.entries@).dom().contains(key) implies
                map_of(rhs.entries@).dom().contains(key) && map_of(rhs.entries@)[key] == map_of(
                self.entries@,
            )[key] by {
                lemma_map_of_contains(self.entries@, key);
                let j = choose|j: int| 0 <= j < self.entries@.len() && self.entries@[j].0 == key;
                lemma_map_of_index(self.entries@, j);
            }
            assert forall|key: Key| #[trigger] map_of(rhs.entries@).dom().contains(key) implies
                map_of(self.entries@).dom().contains(key) by {
                if !map_of(self.entries@).dom().contains(key) {
                    assert(map_of(self.entries@).dom() <= map_of(rhs.entries@).dom());
                    map_of(self.entries@).dom().lemma_subset_not_in_lt(
                        map_of(rhs.entries@).dom(),
                        key,
                    );
                }
            }
            assert(map_of(self.entries@) =~= map_of(rhs.entries@));
        }
        true
    }

    proof fn lemma_add_model_commutes(a: Map<Key, V>, b: Map<Key, V>) {
        lemma_merge_model_commutes::<Key, V>(a, b);
    }

    proof fn lemma_add_model_associates(a: Map<Key, V>, b: Map<Key, V>, c: Map<Key, V>) {
        lemma_merge_model_associates::<Key, V>(a, b, c);
    }
}

/// Apply an operation to every partial, keeping the keys.
fn transform_entries<Key: GradKey, V: Value, F: Fn(V) -> V>(
    g: Grad<Key, V>,
    f: F,
    spec_f: Ghost<spec_fn(V) -> V>,
) -> (r: Grad<Key, V>)
    requires
        forall|v: V| #[trigger] call_requires(f, (v,)),
        forall|v: V, w: V| call_ensures(f, (v,), w) ==> w == spec_f@(v),
    ensures
        r.map_spec() == map_transform(g.map_spec(), spec_f@),
{
    proof {
        use_type_invariant(&g);
    }
    let mut out: Vec<(Key, V)> = Vec::new();
    let mut i: usize = 0;
    while i < g.entries.len()
        invariant
            forall|v: V| #[trigger] call_requires(f, (v,)),
            forall|v: V, w: V| call_ensures(f, (v,), w) ==> w == spec_f@(v),
            i <= g.entries@.len(),
            out@.len() == i,
            forall|j: int| #![all_triggers]
                0 <= j < i ==> out@[j].0 == g.entries@[j].0 && out@[j].1 == spec_f@(
                    g.entries@[j].1,
                ),
        decreases g.entries@.len() - i,
    {
        let (key, v) = g.entries[i];
        out.push((key, f(v)));
        i = i + 1;
    }
    proof {
        assert(distinct_keys(out@)) by {
            assert forall|p: int, q: int| 0 <= p < q < out@.len() implies out@[p].0 != out@[q].0
                by {
                assert(out@[p].0 == g.entries@[p].0);
                assert(out@[q].0 == g.entries@[q].0);
            }
        }
        lemma_map_of_transform(g.entries@, out@, spec_f@);
    }
    Grad { entries: out }
}

} // verus!

pub mod uuid;
