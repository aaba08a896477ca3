//! Values found by name.

use rustc_hash::{FxBuildHasher, FxHashMap};
use vstd::prelude::*;
use crate::text;

verus! {

/// The hasher of the `rustc_hash` maps.
#[verifier::external_type_specification]
#[verifier::external_body]
pub struct ExFxBuildHasher(FxBuildHasher);

/// The number that each name in the map has.
pub uninterp spec fn slots(index: FxHashMap<String, usize>) -> Map<Seq<char>, usize>;

/// `FxHashMap::default`: a map that holds nothing.
#[verifier::external_body]
fn index_new() -> (r: FxHashMap<String, usize>)
    ensures
        forall|name: Seq<char>| !slots(r).contains_key(name),
{
    FxHashMap::default()
}

/// `FxHashMap::get`: the number of the name, where the map holds the name.
#[verifier::external_body]
fn index_get(index: &FxHashMap<String, usize>, name: &str) -> (r: Option<usize>)
    ensures
        r == (if slots(*index).contains_key(name@) {
            Some(slots(*index)[name@])
        } else {
            None
        }),
{
    index.get(name).copied()
}

/// `FxHashMap::insert`: the name has the number from then on, and the other names keep theirs.
#[verifier::external_body]
fn index_insert(index: &mut FxHashMap<String, usize>, name: String, number: usize)
    ensures
        slots(*final(index)) == slots(*old(index)).insert(name@, number),
{
    index.insert(name, number);
}

/// Values found by name, walked in the order in which the names came in.
#[derive(Debug)]
pub struct NameMap<V> {
    index: FxHashMap<String, usize>,
    names: Vec<String>,
    values: Vec<V>,
}

impl<V> View for NameMap<V> {
    type V = Map<Seq<char>, V>;

    closed spec fn view(&self) -> Map<Seq<char>, V> {
        Map::new(
            |k: Seq<char>| slots(self.index).contains_key(k),
            |k: Seq<char>| self.values@[slots(self.index)[k] as int],
        )
    }
}

impl<V> NameMap<V> {
    /// Each name has the number of its place.
    pub closed spec fn wf(&self) -> bool {
        &&& self.names@.len() == self.values@.len()
        &&& forall|i: int|
            0 <= i < self.names@.len() ==> slots(self.index).contains_key(
                #[trigger] text::texts(self.names@)[i],
            ) && slots(self.index)[text::texts(self.names@)[i]] == i
        &&& forall|k: Seq<char>| #[trigger]
            slots(self.index).contains_key(k) ==> slots(self.index)[k] < self.names@.len()
                && text::texts(self.names@)[slots(self.index)[k] as int] == k
    }

    /// The names, in the order in which they came in.
    pub closed spec fn order(&self) -> Seq<Seq<char>> {
        text::texts(self.names@)
    }

    /// The walk meets each name once.
    pub proof fn order_covers(&self)
        requires
            self.wf(),
        ensures
            self.order().no_duplicates(),
            self.order().to_set() == self@.dom(),
            forall|i: int| 0 <= i < self.order().len() ==> self@.contains_key(#[trigger] self.order()[i]),
    {
        let o = self.order();
        assert forall|i: int, j: int| 0 <= i < o.len() && 0 <= j < o.len() && i != j implies o[i]
            != o[j] by {
            assert(slots(self.index)[o[i]] == i);
            assert(slots(self.index)[o[j]] == j);
        }
        assert(o.to_set() =~= self@.dom()) by {
            assert forall|k: Seq<char>| self@.dom().contains(k) implies o.to_set().contains(k) by {
                assert(slots(self.index).contains_key(k));
                assert(o[slots(self.index)[k] as int] == k);
            }
        }
    }

    pub fn new() -> (r: NameMap<V>)
        ensures
            r.wf(),
            r@ == Map::<Seq<char>, V>::empty(),
            r.order() == Seq::<Seq<char>>::empty(),
    {
        let r = NameMap { index: index_new(), names: Vec::new(), values: Vec::new() };
        assert(r@ =~= Map::<Seq<char>, V>::empty());
        assert(r.order() =~= Seq::<Seq<char>>::empty());
        r
    }

    /// The number of names.
    pub fn len(&self) -> (r: usize)
        requires
            self.wf(),
        ensures
            r == self.order().len(),
    {
        self.names.len()
    }

    pub fn contains(&self, name: &str) -> (r: bool)
        requires
            self.wf(),
        ensures
            r == self@.contains_key(name@),
    {
        index_get(&self.index, name).is_some()
    }

    pub fn get(&self, name: &str) -> (r: Option<&V>)
        requires
            self.wf(),
        ensures
            match r {
                Some(v) => self@.contains_key(name@) && *v == self@[name@],
                None => !self@.contains_key(name@),
            },
    {
        match index_get(&self.index, name) {
            Some(i) => {
                assert(slots(self.index).contains_key(name@));
                Some(&self.values[i])
            },
            None => None,
        }
    }

    /// The name at a place of the walk.
    pub fn name_at(&self, i: usize) -> (r: &str)
        requires
            self.wf(),
            i < self.order().len(),
        ensures
            r@ == self.order()[i as int],
    {
        self.names[i].as_str()
    }

    /// The value at a place of the walk.
    pub fn value_at(&self, i: usize) -> (r: &V)
        requires
            self.wf(),
            i < self.order().len(),
        ensures
            *r == self@[self.order()[i as int]],
    {
        assert(slots(self.index).contains_key(text::texts(self.names@)[i as int]));
        &self.values[i]
    }

    /// Gives the name the value. A name that is there already keeps its place.
    pub fn insert(&mut self, name: &str, value: V) -> (r: Option<V>)
        requires
            old(self).wf(),
        ensures
            final(self).wf(),
            final(self)@ == old(self)@.insert(name@, value),
            final(self).order() == if old(self)@.contains_key(name@) {
                old(self).order()
            } else {
                old(self).order().push(name@)
            },
            r == (if old(self)@.contains_key(name@) {
                Some(old(self)@[name@])
            } else {
                None
            }),
    {
        match index_get(&self.index, name) {
            Some(i) => {
                let ghost before = *self;
                assert(slots(self.index).contains_key(name@));
                let mut slot = value;
                std::mem::swap(&mut self.values[i], &mut slot);
                proof {
                    assert(self@ =~= before@.insert(name@, value)) by {
                        assert forall|k: Seq<char>| self@.contains_key(k) implies #[trigger] self@[k]
                            == before@.insert(name@, value)[k] by {
                            if k != name@ {
                                assert(slots(self.index)[k] != i);
                            }
                        }
                    }
                    assert(self.order() =~= before.order());
                }
                Some(slot)
            },
            None => {
                let i = self.names.len();
                let ghost before = *self;
                index_insert(&mut self.index, name.to_string(), i);
                self.names.push(name.to_string());
                self.values.push(value);
                proof {
                    let t = text::texts(self.names@);
                    let b = text::texts(before.names@);
                    text::texts_push(before.names@, self.names@[i as int]);
                    assert(self.names@ =~= before.names@.push(self.names@[i as int]));
                    assert(t == b.push(name@));
                    assert forall|j: int| 0 <= j < t.len() implies slots(self.index).contains_key(
                        #[trigger] t[j],
                    ) && slots(self.index)[t[j]] == j by {
                        if j < b.len() {
                            assert(t[j] == b[j]);
                            assert(slots(before.index).contains_key(b[j]));
                        }
                    }
                    assert forall|k: Seq<char>| #[trigger]
                        slots(self.index).contains_key(k) implies slots(self.index)[k]
                        < self.names@.len() && t[slots(self.index)[k] as int] == k by {
                        if k != name@ {
                            assert(slots(before.index).contains_key(k));
                        }
                    }
                    assert(self@ =~= before@.insert(name@, value)) by {
                        assert forall|k: Seq<char>| self@.contains_key(k) implies #[trigger] self@[k]
                            == before@.insert(name@, value)[k] by {
                            if k != name@ {
                                assert(slots(before.index).contains_key(k));
                            }
                        }
                    }
                }
                None
            },
        }
    }
}

/// What a map of lists holds under a name: nothing for a name that is not there.
pub open spec fn listed<X>(m: Map<Seq<char>, Vec<X>>, name: Seq<char>) -> Seq<X> {
    if m.contains_key(name) {
        m[name]@
    } else {
        Seq::empty()
    }
}

/// Adds an item to the list under the name.
pub fn push_to<X>(m: &mut NameMap<Vec<X>>, name: &str, item: X)
    requires
        old(m).wf(),
    ensures
        final(m).wf(),
        final(m)@.contains_key(name@),
        final(m)@[name@]@ == listed(old(m)@, name@).push(item),
        final(m)@ == old(m)@.insert(name@, final(m)@[name@]),
        final(m).order() == if old(m)@.contains_key(name@) {
            old(m).order()
        } else {
            old(m).order().push(name@)
        },
{
    let ghost before = m@;
    let mut list: Vec<X> = match m.insert(name, Vec::new()) {
        Some(v) => v,
        None => Vec::new(),
    };
    list.push(item);
    let ghost filled = list;
    m.insert(name, list);
    assert(m@ =~= before.insert(name@, filled));
}

} // verus!
