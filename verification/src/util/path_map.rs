use vstd::prelude::*;

use super::sorted_map::Duplicate;
use super::text::{str_eq, strings_view};

verus! {

/// The model of a path: its segments.
pub open spec fn path_view(p: Seq<String>) -> Seq<Seq<char>> {
    strings_view(p)
}

/// Whether no two entries of `s` have the same path.
pub open spec fn paths_unique<V>(s: Seq<(Seq<Seq<char>>, V)>) -> bool {
    forall|i: int, j: int| 0 <= i < j < s.len() ==> #[trigger] s[i].0 != #[trigger] s[j].0
}

/// The value stored under `path`, if any.
pub open spec fn path_lookup<V>(s: Seq<(Seq<Seq<char>>, V)>, path: Seq<Seq<char>>) -> Option<V>
    decreases s.len(),
{
    if s.len() == 0 {
        None
    } else if s.last().0 == path {
        Some(s.last().1)
    } else {
        path_lookup(s.drop_last(), path)
    }
}

/// A map keyed by paths of names (such as a namespace followed by a type name), each path
/// occurring once; entries keep the order in which their paths were first inserted.
#[derive(Debug)]
pub struct PathMap<V: View> {
    entries: Vec<(Vec<String>, V)>,
}

impl<V: View> View for PathMap<V> {
    type V = Seq<(Seq<Seq<char>>, V::V)>;

    closed spec fn view(&self) -> Seq<(Seq<Seq<char>>, V::V)> {
        self.entries@.map_values(|e: (Vec<String>, V)| (path_view(e.0@), e.1@))
    }
}

/// Whether the segments of `a` and `b` are equal.
fn same_path(a: &Vec<String>, b: &Vec<String>) -> (r: bool)
    ensures
        r == (path_view(a@) == path_view(b@)),
{
    if a.len() != b.len() {
        return false;
    }
    let mut i: usize = 0;
    while i < a.len()
        invariant
            i <= a.len() == b.len(),
            forall|j: int| 0 <= j < i ==> a@[j]@ == b@[j]@,
        decreases a.len() - i,
    {
        if !str_eq(a[i].as_str(), b[i].as_str()) {
            assert(path_view(a@)[i as int] != path_view(b@)[i as int]);
            return false;
        }
        i = i + 1;
    }
    assert(path_view(a@) =~= path_view(b@));
    true
}

proof fn lemma_lookup_at<V>(s: Seq<(Seq<Seq<char>>, V)>, i: int)
    requires
        paths_unique(s),
        0 <= i < s.len(),
    ensures
        path_lookup(s, s[i].0) == Some(s[i].1),
    decreases s.len(),
{
    if i < s.len() - 1 {
        assert(s.last().0 != s[i].0);
        assert(s.drop_last()[i] == s[i]);
        lemma_lookup_at(s.drop_last(), i);
    }
}

proof fn lemma_lookup_absent<V>(s: Seq<(Seq<Seq<char>>, V)>, path: Seq<Seq<char>>)
    requires
        forall|j: int| 0 <= j < s.len() ==> s[j].0 != path,
    ensures
        path_lookup(s, path) == None::<V>,
    decreases s.len(),
{
    if s.len() > 0 {
        assert(s.last().0 != path);
        lemma_lookup_absent(s.drop_last(), path);
    }
}

impl<V: View> PathMap<V> {
    #[verifier::type_invariant]
    spec fn inv(self) -> bool {
        paths_unique(self@)
    }

    pub fn new() -> (m: Self)
        ensures
            m@ == Seq::<(Seq<Seq<char>>, V::V)>::empty(),
    {
        let m = PathMap { entries: Vec::new() };
        assert(m@ =~= Seq::<(Seq<Seq<char>>, V::V)>::empty());
        m
    }

    pub fn len(&self) -> (n: usize)
        ensures
            n == self@.len(),
    {
        self.entries.len()
    }

    pub fn is_empty(&self) -> (b: bool)
        ensures
            b == (self@.len() == 0),
    {
        self.entries.len() == 0
    }

    /// The path and value of the entry at position `i`.
    pub fn entry(&self, i: usize) -> (r: (&Vec<String>, &V))
        requires
            i < self@.len(),
        ensures
            path_view(r.0@) == self@[i as int].0,
            r.1@ == self@[i as int].1,
    {
        let e = &self.entries[i];
        (&e.0, &e.1)
    }

    /// Position of `path`, if present.
    fn find(&self, path: &Vec<String>) -> (r: Option<usize>)
        ensures
            match r {
                Some(i) => i < self@.len() && self@[i as int].0 == path_view(path@),
                None => forall|j: int| 0 <= j < self@.len() ==> self@[j].0 != path_view(path@),
            },
    {
        let mut i: usize = 0;
        while i < self.entries.len()
            invariant
                i <= self.entries.len(),
                forall|j: int| 0 <= j < i ==> self@[j].0 != path_view(path@),
            decreases self.entries.len() - i,
        {
            if same_path(&self.entries[i].0, path) {
                return Some(i);
            }
            i = i + 1;
        }
        None
    }

    /// The value stored under `path`.
    pub fn get(&self, path: &Vec<String>) -> (r: Option<&V>)
        ensures
            match r {
                Some(v) => path_lookup(self@, path_view(path@)) == Some(v@),
                None => path_lookup(self@, path_view(path@)) == None::<V::V>,
            },
    {
        proof {
            use_type_invariant(self);
        }
        match self.find(path) {
            Some(i) => {
                proof {
                    lemma_lookup_at(self@, i as int);
                }
                Some(&self.entries[i].1)
            },
            None => {
                proof {
                    lemma_lookup_absent(self@, path_view(path@));
                }
                None
            },
        }
    }

    /// Stores `v` under `path`, in place of the value stored there before, which it
    /// returns.
    pub fn insert(&mut self, path: Vec<String>, v: V) -> (old_value: Option<V>)
        ensures
            path_lookup(final(self)@, path_view(path@)) == Some(v@),
            forall|p: Seq<Seq<char>>| p != path_view(path@) ==> path_lookup(final(self)@, p) == path_lookup(old(self)@, p),
            match old_value {
                Some(o) => path_lookup(old(self)@, path_view(path@)) == Some(o@),
                None => path_lookup(old(self)@, path_view(path@)) == None::<V::V>,
            },
    {
        proof {
            use_type_invariant(&*self);
        }
        let ghost s = self@;
        let ghost k = path_view(path@);
        match self.find(&path) {
            Some(i) => {
                let mut entries: Vec<(Vec<String>, V)> = Vec::new();
                std::mem::swap(&mut entries, &mut self.entries);
                let (p, old) = entries.remove(i);
                entries.insert(i, (p, v));
                let ghost t = entries@.map_values(|e: (Vec<String>, V)| (path_view(e.0@), e.1@));
                proof {
                    assert(t =~= s.update(i as int, (k, v@)));
                    assert(paths_unique(t));
                    lemma_lookup_at(s, i as int);
                    lemma_lookup_at(t, i as int);
                    assert forall|q: Seq<Seq<char>>| q != k implies path_lookup(t, q) == path_lookup(s, q) by {
                        if exists|j: int| 0 <= j < s.len() && s[j].0 == q {
                            let j = choose|j: int| 0 <= j < s.len() && s[j].0 == q;
                            lemma_lookup_at(s, j);
                            assert(t[j] == s[j]);
                            lemma_lookup_at(t, j);
                        } else {
                            lemma_lookup_absent(s, q);
                            assert forall|j: int| 0 <= j < t.len() implies t[j].0 != q by {
                                if j != i {
                                    assert(t[j] == s[j]);
                                }
                            }
                            lemma_lookup_absent(t, q);
                        }
                    }
                }
                self.entries = entries;
                Some(old)
            },
            None => {
                let mut entries: Vec<(Vec<String>, V)> = Vec::new();
                std::mem::swap(&mut entries, &mut self.entries);
                entries.push((path, v));
                proof {
                    let t = entries@.map_values(|e: (Vec<String>, V)| (path_view(e.0@), e.1@));
                    assert(t =~= s.push((k, v@)));
                    assert(path_lookup(t, k) == Some(v@));
                    assert forall|q: Seq<Seq<char>>| q != k implies path_lookup(t, q) == path_lookup(s, q) by {
                        assert(t.drop_last() =~= s);
                    }
                    lemma_lookup_absent(s, k);
                    assert forall|i: int, j: int| 0 <= i < j < t.len() implies #[trigger] t[i].0 != #[trigger] t[j].0 by {
                        if j == t.len() - 1 {
                            assert(t[i] == s[i]);
                        } else {
                            assert(t[i] == s[i] && t[j] == s[j]);
                        }
                    }
                }
                self.entries = entries;
                None
            },
        }
    }
}

/// A copy of a path.
fn copy_path(p: &Vec<String>) -> (q: Vec<String>)
    ensures
        path_view(q@) == path_view(p@),
{
    let mut q: Vec<String> = Vec::new();
    let mut j: usize = 0;
    while j < p.len()
        invariant
            j <= p.len(),
            q@.len() == j,
            forall|x: int| 0 <= x < j ==> (#[trigger] q@[x])@ == p@[x]@,
        decreases p.len() - j,
    {
        q.push(p[j].clone());
        j = j + 1;
    }
    assert(path_view(q@) =~= path_view(p@));
    q
}

impl<V: View + Duplicate> PathMap<V> {
    pub fn duplicate(&self) -> (r: PathMap<V>)
        ensures
            r@ == self@,
    {
        proof {
            use_type_invariant(self);
        }
        let mut entries: Vec<(Vec<String>, V)> = Vec::new();
        let mut i: usize = 0;
        while i < self.entries.len()
            invariant
                i <= self.entries.len(),
                entries@.len() == i,
                forall|x: int| 0 <= x < i ==> path_view((#[trigger] entries@[x]).0@) == self@[x].0 && entries@[x].1@ == self@[x].1,
            decreases self.entries.len() - i,
        {
            let (p, v) = &self.entries[i];
            entries.push((copy_path(p), v.duplicate()));
            i = i + 1;
        }
        let r = PathMap { entries };
        assert(r@ =~= self@);
        r
    }
}

} // verus!
