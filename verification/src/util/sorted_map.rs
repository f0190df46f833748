use vstd::prelude::*;
use vstd::std_specs::iter::IteratorSpec;

use super::text::{compare_str, lemma_lex_lt_irreflexive, lemma_lex_lt_total, lemma_lex_lt_transitive, lex_lt, KeyOrder};

verus! {

/// Values that can be copied with their model preserved.
pub trait Duplicate: View + Sized {
    fn duplicate(&self) -> (r: Self)
        ensures
            r@ == self@,
    ;
}

/// Keys with a strict total order on their models.
pub trait OrdKey: View + Sized {
    spec fn key_lt(a: Self::V, b: Self::V) -> bool;

    proof fn lemma_key_lt_irreflexive(a: Self::V)
        ensures
            !Self::key_lt(a, a),
    ;

    proof fn lemma_key_lt_transitive(a: Self::V, b: Self::V, c: Self::V)
        requires
            Self::key_lt(a, b),
            Self::key_lt(b, c),
        ensures
            Self::key_lt(a, c),
    ;

    proof fn lemma_key_lt_total(a: Self::V, b: Self::V)
        ensures
            a == b || Self::key_lt(a, b) || Self::key_lt(b, a),
    ;

    fn compare_keys(&self, other: &Self) -> (r: KeyOrder)
        ensures
            r == KeyOrder::Less <==> Self::key_lt(self@, other@),
            r == KeyOrder::Equal <==> self@ == other@,
            r == KeyOrder::Greater <==> Self::key_lt(other@, self@),
    ;
}

impl Duplicate for String {
    fn duplicate(&self) -> (r: String) {
        self.clone()
    }
}

impl Duplicate for u32 {
    fn duplicate(&self) -> (r: u32) {
        *self
    }
}

impl OrdKey for String {
    open spec fn key_lt(a: Seq<char>, b: Seq<char>) -> bool {
        lex_lt(a, b)
    }

    proof fn lemma_key_lt_irreflexive(a: Seq<char>) {
        lemma_lex_lt_irreflexive(a);
    }

    proof fn lemma_key_lt_transitive(a: Seq<char>, b: Seq<char>, c: Seq<char>) {
        lemma_lex_lt_transitive(a, b, c);
    }

    proof fn lemma_key_lt_total(a: Seq<char>, b: Seq<char>) {
        lemma_lex_lt_total(a, b);
    }

    fn compare_keys(&self, other: &String) -> (r: KeyOrder) {
        compare_str(self.as_str(), other.as_str())
    }
}

impl OrdKey for u32 {
    open spec fn key_lt(a: u32, b: u32) -> bool {
        a < b
    }

    proof fn lemma_key_lt_irreflexive(a: u32) {
    }

    proof fn lemma_key_lt_transitive(a: u32, b: u32, c: u32) {
    }

    proof fn lemma_key_lt_total(a: u32, b: u32) {
    }

    fn compare_keys(&self, other: &u32) -> (r: KeyOrder) {
        if *self < *other {
            KeyOrder::Less
        } else if *self == *other {
            KeyOrder::Equal
        } else {
            KeyOrder::Greater
        }
    }
}

/// Keys in strictly increasing order.
pub open spec fn keys_increasing<K: OrdKey, V: View>(s: Seq<(K::V, V::V)>) -> bool {
    forall|i: int, j: int| 0 <= i < j < s.len() ==> K::key_lt(#[trigger] s[i].0, #[trigger] s[j].0)
}

/// An ordered map: its entries are kept sorted by key, each key occurring once.
/// Iteration yields the entries in increasing key order.
#[derive(Debug, PartialEq, Eq)]
pub struct SortedMap<K: OrdKey, V: View> {
    entries: Vec<(K, V)>,
}

impl<K: OrdKey, V: View> View for SortedMap<K, V> {
    type V = Seq<(K::V, V::V)>;

    closed spec fn view(&self) -> Seq<(K::V, V::V)> {
        self.entries@.map_values(|e: (K, V)| (e.0@, e.1@))
    }
}

/// Index of `k` among the keys of `s`, if present.
pub open spec fn key_index<K, V>(s: Seq<(K, V)>, k: K) -> int {
    choose|i: int| 0 <= i < s.len() && s[i].0 == k
}

pub open spec fn has_key<K, V>(s: Seq<(K, V)>, k: K) -> bool {
    exists|i: int| 0 <= i < s.len() && s[i].0 == k
}

/// The model of a map: its entries are sorted by key.
pub open spec fn map_lookup<K, V>(s: Seq<(K, V)>, k: K) -> Option<V> {
    if has_key(s, k) {
        Some(s[key_index(s, k)].1)
    } else {
        None
    }
}

/// The entries after inserting `(k, v)`: in place of an entry with key `k`,
/// or else before the first entry whose key is greater.
pub open spec fn insert_spec<K: OrdKey, V: View>(s: Seq<(K::V, V::V)>, k: K::V, v: V::V) -> Seq<(K::V, V::V)> {
    if has_key(s, k) {
        s.update(key_index(s, k), (k, v))
    } else {
        let p = insert_position::<K, V>(s, k);
        s.insert(p, (k, v))
    }
}

/// The number of entries whose key is less than `k`.
pub open spec fn insert_position<K: OrdKey, V: View>(s: Seq<(K::V, V::V)>, k: K::V) -> int
    decreases s.len(),
{
    if s.len() == 0 {
        0
    } else if K::key_lt(s.last().0, k) {
        s.len() as int
    } else {
        insert_position::<K, V>(s.drop_last(), k)
    }
}

impl<K: OrdKey, V: View> SortedMap<K, V> {
    #[verifier::type_invariant]
    spec fn inv(self) -> bool {
        keys_increasing::<K, V>(self@)
    }

    pub fn new() -> (m: Self)
        ensures
            m@ == Seq::<(K::V, V::V)>::empty(),
    {
        let m = SortedMap { entries: Vec::new() };
        assert(m@ =~= Seq::<(K::V, V::V)>::empty());
        m
    }

    pub fn len(&self) -> (n: usize)
        ensures
            n == self@.len(),
            keys_increasing::<K, V>(self@),
    {
        proof {
            use_type_invariant(self);
        }
        self.entries.len()
    }

    pub fn is_empty(&self) -> (b: bool)
        ensures
            b == (self@.len() == 0),
    {
        self.entries.len() == 0
    }

    /// The key and value of the entry at position `i` in key order.
    pub fn entry(&self, i: usize) -> (r: (&K, &V))
        requires
            i < self@.len(),
        ensures
            r.0@ == self@[i as int].0,
            r.1@ == self@[i as int].1,
    {
        let e = &self.entries[i];
        (&e.0, &e.1)
    }

    /// Position of key `k`, if present.
    pub fn find(&self, k: &K) -> (r: Option<usize>)
        ensures
            match r {
                Some(i) => i < self@.len() && self@[i as int].0 == k@,
                None => !has_key(self@, k@),
            },
    {
        let mut i: usize = 0;
        while i < self.entries.len()
            invariant
                i <= self.entries.len(),
                forall|j: int| 0 <= j < i ==> self@[j].0 != k@,
            decreases self.entries.len() - i,
        {
            if matches!(self.entries[i].0.compare_keys(k), KeyOrder::Equal) {
                return Some(i);
            }
            i = i + 1;
        }
        None
    }

    pub fn contains_key(&self, k: &K) -> (b: bool)
        ensures
            b == has_key(self@, k@),
    {
        self.find(k).is_some()
    }

    pub fn get(&self, k: &K) -> (r: Option<&V>)
        ensures
            match r {
                Some(v) => map_lookup(self@, k@) == Some(v@),
                None => map_lookup(self@, k@) == None::<V::V>,
            },
    {
        proof {
            use_type_invariant(self);
        }
        match self.find(k) {
            Some(i) => {
                proof {
                    let j = key_index(self@, k@);
                    assert(has_key(self@, k@));
                    if j != i {
                        if j < i {
                            assert(K::key_lt(self@[j].0, self@[i as int].0));
                        } else {
                            assert(K::key_lt(self@[i as int].0, self@[j].0));
                        }
                        K::lemma_key_lt_irreflexive(k@);
                    }
                }
                Some(&self.entries[i].1)
            },
            None => None,
        }
    }

    /// Inserts `v` under `k`, returning the value it replaces.
    pub fn insert(&mut self, k: K, v: V) -> (old_value: Option<V>)
        ensures
            final(self)@ == insert_spec::<K, V>(old(self)@, k@, v@),
            keys_increasing::<K, V>(final(self)@),
            match old_value {
                Some(o) => map_lookup(old(self)@, k@) == Some(o@),
                None => !has_key(old(self)@, k@),
            },
    {
        proof {
            use_type_invariant(&*self);
        }
        let ghost s = self@;
        let mut entries: Vec<(K, V)> = Vec::new();
        std::mem::swap(&mut entries, &mut self.entries);
        assert(entries@.map_values(|e: (K, V)| (e.0@, e.1@)) == s);
        let mut i: usize = 0;
        while i < entries.len()
            invariant
                i <= entries.len(),
                entries@.map_values(|e: (K, V)| (e.0@, e.1@)) == s,
                s == old(self)@,
                keys_increasing::<K, V>(s),
                forall|j: int| 0 <= j < i ==> K::key_lt(#[trigger] s[j].0, k@),
                insert_position::<K, V>(s.take(i as int), k@) == i,
            ensures
                i <= entries.len(),
                entries@.map_values(|e: (K, V)| (e.0@, e.1@)) == s,
                forall|j: int| 0 <= j < i ==> K::key_lt(#[trigger] s[j].0, k@),
                insert_position::<K, V>(s.take(i as int), k@) == i,
                i < entries.len() ==> K::key_lt(k@, s[i as int].0),
            decreases entries.len() - i,
        {
            let o = entries[i].0.compare_keys(&k);
            assert(s[i as int].0 == entries@[i as int].0@);
            match o {
                KeyOrder::Less => {
                    assert(s.take(i + 1).drop_last() =~= s.take(i as int));
                    i = i + 1;
                },
                KeyOrder::Equal => {
                    let ghost kv = k@;
                    let old_entry = entries.remove(i);
                    entries.insert(i, (k, v));
                    proof {
                        assert(has_key(s, kv));
                        let j = key_index(s, kv);
                        if j != i {
                            if j < i {
                                assert(K::key_lt(s[j].0, s[i as int].0));
                            } else {
                                assert(K::key_lt(s[i as int].0, s[j].0));
                            }
                            K::lemma_key_lt_irreflexive(kv);
                        }
                        assert(key_index(s, kv) == i);
                        assert(entries@.map_values(|e: (K, V)| (e.0@, e.1@)) =~= s.update(i as int, (kv, v@)));
                    }
                    self.entries = entries;
                    return Some(old_entry.1);
                },
                KeyOrder::Greater => {
                    break;
                },
            }
        }
        let ghost kv = k@;
        let ghost vv = v@;
        proof {
            assert forall|j: int| 0 <= j < s.len() implies s[j].0 != kv by {
                K::lemma_key_lt_irreflexive(kv);
                if j >= i && s[j].0 == kv {
                    if j > i {
                        assert(K::key_lt(s[i as int].0, s[j].0));
                        K::lemma_key_lt_transitive(kv, s[i as int].0, kv);
                    }
                }
            }
            if i < s.len() {
                K::lemma_key_lt_irreflexive(kv);
                if K::key_lt(s[i as int].0, kv) {
                    K::lemma_key_lt_transitive(kv, s[i as int].0, kv);
                }
            }
            assert(!has_key(s, kv));
            assert forall|j: int| i <= j < s.len() implies K::key_lt(kv, #[trigger] s[j].0) by {
                if j > i {
                    assert(K::key_lt(s[i as int].0, s[j].0));
                    K::lemma_key_lt_transitive(kv, s[i as int].0, s[j].0);
                }
            }
            lemma_insert_position_prefix::<K, V>(s, kv, i as int);
        }
        entries.insert(i, (k, v));
        proof {
            let t = s.insert(i as int, (kv, vv));
            assert(entries@.map_values(|e: (K, V)| (e.0@, e.1@)) =~= t);
            assert forall|a: int, b: int| 0 <= a < b < t.len() implies K::key_lt(#[trigger] t[a].0, #[trigger] t[b].0) by {
                if b < i {
                } else if b == i {
                } else if a < i {
                    assert(K::key_lt(kv, s[b - 1].0));
                    K::lemma_key_lt_transitive(t[a].0, kv, s[b - 1].0);
                } else if a == i {
                    assert(K::key_lt(kv, s[b - 1].0));
                } else {
                    assert(K::key_lt(s[a - 1].0, s[b - 1].0));
                }
            }
        }
        self.entries = entries;
        None
    }
}

/// What an insertion leaves in the map: the keys before it and the new key; under the new
/// key the new value; every other entry unchanged.
pub proof fn lemma_insert_spec<K: OrdKey, V: View>(s: Seq<(K::V, V::V)>, k: K::V, v: V::V)
    requires
        keys_increasing::<K, V>(s),
    ensures
        forall|x: K::V| has_key(insert_spec::<K, V>(s, k, v), x) <==> (has_key(s, x) || x == k),
        forall|i: int| 0 <= i < insert_spec::<K, V>(s, k, v).len() && (#[trigger] insert_spec::<K, V>(s, k, v)[i]).0 == k
            ==> insert_spec::<K, V>(s, k, v)[i].1 == v,
        forall|i: int| 0 <= i < insert_spec::<K, V>(s, k, v).len() && (#[trigger] insert_spec::<K, V>(s, k, v)[i]).0 != k
            ==> exists|j: int| 0 <= j < s.len() && s[j] == insert_spec::<K, V>(s, k, v)[i],
{
    let t = insert_spec::<K, V>(s, k, v);
    if has_key(s, k) {
        let p = key_index(s, k);
        assert forall|i: int| 0 <= i < s.len() && s[i].0 == k implies i == p by {
            if i != p {
                if i < p {
                    assert(K::key_lt(s[i].0, s[p].0));
                } else {
                    assert(K::key_lt(s[p].0, s[i].0));
                }
                K::lemma_key_lt_irreflexive(k);
            }
        }
        assert forall|x: K::V| has_key(t, x) <==> (has_key(s, x) || x == k) by {
            if has_key(s, x) {
                let j = choose|j: int| 0 <= j < s.len() && s[j].0 == x;
                assert(t[j].0 == x);
            }
            if has_key(t, x) {
                let j = choose|j: int| 0 <= j < t.len() && t[j].0 == x;
                if j != p {
                    assert(s[j].0 == x);
                }
            }
            if x == k {
                assert(t[p].0 == x);
            }
        }
        assert forall|i: int| 0 <= i < t.len() && (#[trigger] t[i]).0 != k implies exists|j: int| 0 <= j < s.len() && s[j] == t[i] by {
            assert(s[i] == t[i]);
        }
    } else {
        let p = insert_position::<K, V>(s, k);
        lemma_insert_position_bounds::<K, V>(s, k);
        assert forall|x: K::V| has_key(t, x) <==> (has_key(s, x) || x == k) by {
            if has_key(s, x) {
                let j = choose|j: int| 0 <= j < s.len() && s[j].0 == x;
                if j < p {
                    assert(t[j].0 == x);
                } else {
                    assert(t[j + 1].0 == x);
                }
            }
            if has_key(t, x) {
                let j = choose|j: int| 0 <= j < t.len() && t[j].0 == x;
                if j < p {
                    assert(s[j].0 == x);
                } else if j > p {
                    assert(s[j - 1].0 == x);
                }
            }
            if x == k {
                assert(t[p].0 == x);
            }
        }
        assert forall|i: int| 0 <= i < t.len() && (#[trigger] t[i]).0 != k implies exists|j: int| 0 <= j < s.len() && s[j] == t[i] by {
            if i < p {
                assert(s[i] == t[i]);
            } else if i > p {
                assert(s[i - 1] == t[i]);
            }
        }
    }
}

proof fn lemma_insert_position_bounds<K: OrdKey, V: View>(s: Seq<(K::V, V::V)>, k: K::V)
    ensures
        0 <= insert_position::<K, V>(s, k) <= s.len(),
    decreases s.len(),
{
    if s.len() > 0 {
        lemma_insert_position_bounds::<K, V>(s.drop_last(), k);
    }
}

/// Inserting a key greater than every key appends the entry.
pub proof fn lemma_insert_spec_greatest<K: OrdKey, V: View>(s: Seq<(K::V, V::V)>, k: K::V, v: V::V)
    requires
        forall|j: int| 0 <= j < s.len() ==> K::key_lt(#[trigger] s[j].0, k),
    ensures
        insert_spec::<K, V>(s, k, v) == s.push((k, v)),
{
    K::lemma_key_lt_irreflexive(k);
    assert(!has_key(s, k));
    if s.len() > 0 {
        assert(K::key_lt(s.last().0, k));
    }
    assert(s.insert(s.len() as int, (k, v)) =~= s.push((k, v)));
}

/// Every key before position `i` is less than `k`, and the key at `i` (if any) is not:
/// then `i` is where `k` goes.
proof fn lemma_insert_position_prefix<K: OrdKey, V: View>(s: Seq<(K::V, V::V)>, k: K::V, i: int)
    requires
        0 <= i <= s.len(),
        insert_position::<K, V>(s.take(i), k) == i,
        i < s.len() ==> !K::key_lt(s[i].0, k),
        keys_increasing::<K, V>(s),
    ensures
        insert_position::<K, V>(s, k) == i,
    decreases s.len() - i,
{
    if i < s.len() {
        let t = s.drop_last();
        if s.len() - 1 > i {
            assert(K::key_lt(s[i].0, s.last().0));
            K::lemma_key_lt_total(k, s.last().0);
            if K::key_lt(s.last().0, k) {
                K::lemma_key_lt_total(k, s[i].0);
                K::lemma_key_lt_transitive(s[i].0, s.last().0, k);
            }
            assert(t.take(i) =~= s.take(i));
            assert forall|a: int, b: int| 0 <= a < b < t.len() implies K::key_lt(#[trigger] t[a].0, #[trigger] t[b].0) by {
                assert(t[a] == s[a] && t[b] == s[b]);
            }
            lemma_insert_position_prefix::<K, V>(t, k, i);
        } else {
            assert(t =~= s.take(i));
        }
    } else {
        assert(s.take(i) =~= s);
    }
}

} // verus!

verus! {

impl<K: OrdKey + Duplicate, V: Duplicate> Duplicate for SortedMap<K, V> {
    fn duplicate(&self) -> (r: SortedMap<K, V>) {
        proof {
            use_type_invariant(self);
        }
        let mut out: Vec<(K, V)> = Vec::new();
        let mut i: usize = 0;
        while i < self.entries.len()
            invariant
                i <= self.entries.len(),
                out.len() == i,
                forall|j: int| 0 <= j < i ==> out@[j].0@ == self.entries@[j].0@ && out@[j].1@ == self.entries@[j].1@,
            decreases self.entries.len() - i,
        {
            let e = &self.entries[i];
            out.push((e.0.duplicate(), e.1.duplicate()));
            i = i + 1;
        }
        assert(out@.map_values(|e: (K, V)| (e.0@, e.1@)) =~= self@);
        let r = SortedMap { entries: out };
        r
    }
}

impl<K: OrdKey + Duplicate, V: Duplicate> Clone for SortedMap<K, V> {
    fn clone(&self) -> (r: Self)
        ensures
            r@ == self@,
    {
        self.duplicate()
    }
}

} // verus!

verus! {

impl<K: OrdKey, V: View> SortedMap<K, V> {
    /// Replaces the value of the entry at position `i`, keeping its key.
    pub fn set_value(&mut self, i: usize, v: V)
        requires
            i < old(self)@.len(),
        ensures
            final(self)@ == old(self)@.update(i as int, (old(self)@[i as int].0, v@)),
    {
        proof {
            use_type_invariant(&*self);
        }
        let ghost s = self@;
        let mut entries: Vec<(K, V)> = Vec::new();
        std::mem::swap(&mut entries, &mut self.entries);
        let (k, _old) = entries.remove(i);
        let ghost kv = k@;
        entries.insert(i, (k, v));
        assert(entries@.map_values(|e: (K, V)| (e.0@, e.1@)) =~= s.update(i as int, (kv, v@)));
        self.entries = entries;
    }
}

} // verus!

verus! {

impl<K: OrdKey, V: View> SortedMap<K, V> {
    /// The entries, in increasing key order.
    pub fn iter(&self) -> (it: std::slice::Iter<'_, (K, V)>)
        ensures
            it.remaining().len() == self@.len(),
            forall|i: int| 0 <= i < self@.len() ==> (#[trigger] it.remaining()[i]).0@ == self@[i].0 && it.remaining()[i].1@ == self@[i].1,
    {
        let it = self.entries.as_slice().iter();
        proof {
            broadcast use vstd::std_specs::slice::axiom_spec_slice_iter;
        }
        it
    }
}

} // verus!

verus! {

/// In a map with increasing keys, the key of an entry finds that entry.
pub proof fn lemma_map_lookup_at<K: OrdKey, V: View>(s: Seq<(K::V, V::V)>, i: int)
    requires
        keys_increasing::<K, V>(s),
        0 <= i < s.len(),
    ensures
        map_lookup(s, s[i].0) == Some(s[i].1),
{
    let k = s[i].0;
    assert(has_key(s, k));
    let j = key_index(s, k);
    if j != i {
        if j < i {
            assert(K::key_lt(s[j].0, s[i].0));
        } else {
            assert(K::key_lt(s[i].0, s[j].0));
        }
        K::lemma_key_lt_irreflexive(k);
    }
}

} // verus!

verus! {

/// After an insertion, the new key finds the new value and every other key what it found
/// before.
pub proof fn lemma_insert_lookup<K: OrdKey, V: View>(s: Seq<(K::V, V::V)>, k: K::V, v: V::V, x: K::V)
    requires
        keys_increasing::<K, V>(s),
        keys_increasing::<K, V>(insert_spec::<K, V>(s, k, v)),
    ensures
        map_lookup(insert_spec::<K, V>(s, k, v), x) == if x == k { Some(v) } else { map_lookup(s, x) },
{
    let t = insert_spec::<K, V>(s, k, v);
    lemma_insert_spec::<K, V>(s, k, v);
    if has_key(t, x) {
        let i = key_index(t, x);
        lemma_map_lookup_at::<K, V>(t, i);
        if x != k {
            let j = choose|j: int| 0 <= j < s.len() && s[j] == t[i];
            lemma_map_lookup_at::<K, V>(s, j);
        }
    }
}

} // verus!
