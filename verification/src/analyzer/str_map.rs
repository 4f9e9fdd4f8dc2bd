//! Maps keyed by strings, and copies that keep a value's deep view.

use vstd::prelude::*;

verus! {

/// Values that can be copied so that the copy has the same deep view.
pub trait DeepCopy: DeepView + Sized {
    fn deep_copy(&self) -> (r: Self)
        ensures
            r.deep_view() == self.deep_view(),
    ;
}

/// Copies every element of a vector.
pub fn copy_vec<T: DeepCopy>(v: &Vec<T>) -> (r: Vec<T>)
    ensures
        r@.len() == v@.len(),
        forall|i: int| 0 <= i < v@.len() ==> #[trigger] r@[i].deep_view() == v@[i].deep_view(),
        r.deep_view() == v.deep_view(),
{
    let mut out: Vec<T> = Vec::new();
    let mut i: usize = 0;
    while i < v.len()
        invariant
            i <= v@.len(),
            out@.len() == i,
            forall|j: int| 0 <= j < i ==> #[trigger] out@[j].deep_view() == v@[j].deep_view(),
        decreases v.len() - i,
    {
        let x = v[i].deep_copy();
        out.push(x);
        i = i + 1;
    }
    proof {
        assert(out.deep_view() =~= v.deep_view());
    }
    out
}

/// A map from strings to values. A later entry for a key replaces the earlier ones.
pub struct StrMap<V> {
    pub entries: Vec<(String, V)>,
}

/// The map that a list of entries stands for: each entry, in order, is inserted.
pub open spec fn entries_view<V: DeepView>(e: Seq<(String, V)>) -> Map<Seq<char>, V::V>
    decreases e.len(),
{
    if e.len() == 0 {
        Map::empty()
    } else {
        entries_view(e.drop_last()).insert(e.last().0@, e.last().1.deep_view())
    }
}

impl<V: DeepView> View for StrMap<V> {
    type V = Map<Seq<char>, V::V>;

    open spec fn view(&self) -> Map<Seq<char>, V::V> {
        entries_view(self.entries@)
    }
}

impl<V: DeepView> DeepView for StrMap<V> {
    type V = Map<Seq<char>, V::V>;

    open spec fn deep_view(&self) -> Map<Seq<char>, V::V> {
        self@
    }
}

proof fn lemma_entries_view_last<V: DeepView>(e: Seq<(String, V)>, k: Seq<char>, j: int)
    requires
        0 <= j < e.len(),
        e[j].0@ == k,
        forall|i: int| j < i < e.len() ==> e[i].0@ != k,
    ensures
        entries_view(e).contains_key(k),
        entries_view(e)[k] == e[j].1.deep_view(),
    decreases e.len(),
{
    if j < e.len() - 1 {
        lemma_entries_view_last(e.drop_last(), k, j);
    }
}

proof fn lemma_entries_view_absent<V: DeepView>(e: Seq<(String, V)>, k: Seq<char>)
    requires
        forall|i: int| 0 <= i < e.len() ==> e[i].0@ != k,
    ensures
        !entries_view(e).contains_key(k),
    decreases e.len(),
{
    if e.len() > 0 {
        lemma_entries_view_absent(e.drop_last(), k);
    }
}

proof fn lemma_entries_view_same<V: DeepView>(a: Seq<(String, V)>, b: Seq<(String, V)>)
    requires
        a.len() == b.len(),
        forall|i: int|
            0 <= i < a.len() ==> a[i].0@ == b[i].0@ && a[i].1.deep_view() == b[i].1.deep_view(),
    ensures
        entries_view(a) == entries_view(b),
    decreases a.len(),
{
    if a.len() > 0 {
        lemma_entries_view_same(a.drop_last(), b.drop_last());
    }
}

impl<V: DeepView> StrMap<V> {
    /// An empty map.
    pub fn new() -> (r: Self)
        ensures
            r@ == Map::<Seq<char>, V::V>::empty(),
    {
        StrMap { entries: Vec::new() }
    }

    /// Maps `key` to `value`, replacing what it was mapped to.
    pub fn insert(&mut self, key: String, value: V)
        ensures
            final(self)@ == old(self)@.insert(key@, value.deep_view()),
    {
        let ghost before = self.entries@;
        self.entries.push((key, value));
        proof {
            assert(self.entries@.drop_last() =~= before);
        }
    }

    /// The position of the entry that holds the key's value.
    fn find(&self, key: &str) -> (r: Option<usize>)
        ensures
            match r {
                Some(i) => {
                    &&& i < self.entries@.len()
                    &&& self@.contains_key(key@)
                    &&& self@[key@] == self.entries@[i as int].1.deep_view()
                },
                None => !self@.contains_key(key@),
            },
    {
        let target = key.to_owned();
        let mut i: usize = self.entries.len();
        while i > 0
            invariant
                i <= self.entries@.len(),
                target@ == key@,
                forall|j: int| i <= j < self.entries@.len() ==> self.entries@[j].0@ != key@,
            decreases i,
        {
            i = i - 1;
            if self.entries[i].0 == target {
                proof {
                    lemma_entries_view_last(self.entries@, key@, i as int);
                }
                return Some(i);
            }
        }
        proof {
            lemma_entries_view_absent(self.entries@, key@);
        }
        None
    }

    /// The value the key is mapped to, if any.
    pub fn get(&self, key: &str) -> (r: Option<&V>)
        ensures
            match r {
                Some(v) => self@.contains_key(key@) && v.deep_view() == self@[key@],
                None => !self@.contains_key(key@),
            },
    {
        match self.find(key) {
            Some(i) => Some(&self.entries[i].1),
            None => None,
        }
    }

    /// Whether the key is mapped to a value.
    pub fn contains_key(&self, key: &str) -> (r: bool)
        ensures
            r == self@.contains_key(key@),
    {
        self.find(key).is_some()
    }
}

impl<V: DeepCopy> DeepCopy for StrMap<V> {
    fn deep_copy(&self) -> (r: Self) {
        let mut entries: Vec<(String, V)> = Vec::new();
        let mut i: usize = 0;
        while i < self.entries.len()
            invariant
                i <= self.entries@.len(),
                entries@.len() == i,
                forall|j: int|
                    0 <= j < i ==> (#[trigger] entries@[j]).0@ == self.entries@[j].0@
                        && entries@[j].1.deep_view() == self.entries@[j].1.deep_view(),
            decreases self.entries.len() - i,
        {
            let key = self.entries[i].0.clone();
            let value = self.entries[i].1.deep_copy();
            entries.push((key, value));
            assert(entries@[i as int].0@ == self.entries@[i as int].0@);
            i = i + 1;
        }
        proof {
            lemma_entries_view_same(entries@, self.entries@);
        }
        StrMap { entries }
    }
}

/// Whether a name occurs in a list of names.
pub fn contains_name(names: &Vec<String>, name: &str) -> (r: bool)
    ensures
        r == exists|i: int| 0 <= i < names@.len() && #[trigger] names@[i]@ == name@,
{
    let target = name.to_owned();
    let mut i: usize = 0;
    while i < names.len()
        invariant
            i <= names@.len(),
            target@ == name@,
            forall|j: int| 0 <= j < i ==> #[trigger] names@[j]@ != name@,
        decreases names.len() - i,
    {
        if names[i] == target {
            return true;
        }
        i = i + 1;
    }
    false
}

} // verus!
