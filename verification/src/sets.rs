//! Sets of texts, walked in order.

use vstd::prelude::*;
use crate::order;
use crate::text;

verus! {

/// Whether each text stands before all that follow it.
pub open spec fn ascending(s: Seq<Seq<char>>) -> bool {
    forall|i: int, j: int| 0 <= i < j < s.len() ==> order::precedes(#[trigger] s[i], #[trigger] s[j])
}

/// A set of texts.
#[derive(Debug)]
pub struct TextSet {
    items: Vec<String>,
}

impl View for TextSet {
    type V = Set<Seq<char>>;

    closed spec fn view(&self) -> Set<Seq<char>> {
        text::texts(self.items@).to_set()
    }
}

/// Two rows of texts that ascend and hold the same texts are the same row.
pub proof fn ascending_is_determined(a: Seq<Seq<char>>, b: Seq<Seq<char>>)
    requires
        ascending(a),
        ascending(b),
        a.to_set() == b.to_set(),
    ensures
        a == b,
    decreases a.len(),
{
    if a.len() == 0 {
        if b.len() > 0 {
            assert(b.to_set().contains(b[0]));
            assert(a.to_set().contains(b[0]));
        }
        assert(a =~= b);
    } else {
        assert(a.to_set().contains(a.last()));
        assert(b.to_set().contains(a.last()));
        let k = choose|k: int| 0 <= k < b.len() && b[k] == a.last();
        assert(a.to_set().contains(b.last())) by {
            assert(b.to_set().contains(b.last()));
        }
        let m = choose|m: int| 0 <= m < a.len() && a[m] == b.last();
        if a.last() != b.last() {
            assert(order::precedes(b[k], b[b.len() - 1]));
            assert(order::precedes(a[m], a[a.len() - 1]));
            order::precedes_transitive(a.last(), b.last(), a.last());
            order::precedes_irreflexive(a.last());
        }
        let x = a.drop_last();
        let y = b.drop_last();
        assert(ascending(x)) by {
            assert forall|i: int, j: int| 0 <= i < j < x.len() implies order::precedes(
                #[trigger] x[i],
                #[trigger] x[j],
            ) by {
                assert(order::precedes(a[i], a[j]));
            }
        }
        assert(ascending(y)) by {
            assert forall|i: int, j: int| 0 <= i < j < y.len() implies order::precedes(
                #[trigger] y[i],
                #[trigger] y[j],
            ) by {
                assert(order::precedes(b[i], b[j]));
            }
        }
        assert(x.to_set() =~= y.to_set()) by {
            assert forall|t: Seq<char>| x.to_set().contains(t) implies y.to_set().contains(t) by {
                let i = choose|i: int| 0 <= i < x.len() && x[i] == t;
                assert(a[i] == t);
                assert(a.to_set().contains(t));
                assert(b.to_set().contains(t));
                let j = choose|j: int| 0 <= j < b.len() && b[j] == t;
                assert(order::precedes(a[i], a[a.len() - 1]));
                order::precedes_irreflexive(t);
                assert(y[j] == t);
            }
            assert forall|t: Seq<char>| y.to_set().contains(t) implies x.to_set().contains(t) by {
                let i = choose|i: int| 0 <= i < y.len() && y[i] == t;
                assert(b[i] == t);
                assert(b.to_set().contains(t));
                assert(a.to_set().contains(t));
                let j = choose|j: int| 0 <= j < a.len() && a[j] == t;
                assert(order::precedes(b[i], b[b.len() - 1]));
                order::precedes_irreflexive(t);
                assert(x[j] == t);
            }
        }
        ascending_is_determined(x, y);
        assert(x.push(a.last()) =~= a);
        assert(y.push(b.last()) =~= b);
    }
}

impl TextSet {
    /// The texts are kept in order, each once.
    pub closed spec fn wf(&self) -> bool {
        ascending(text::texts(self.items@))
    }

    pub fn new() -> (r: TextSet)
        ensures
            r.wf(),
            r@ == Set::<Seq<char>>::empty(),
    {
        let r = TextSet { items: Vec::new() };
        assert(r@ =~= Set::<Seq<char>>::empty());
        r
    }

    /// The number of texts that stand before `name`.
    fn place(&self, name: &str) -> (p: usize)
        requires
            self.wf(),
        ensures
            p <= self.items@.len(),
            forall|i: int|
                0 <= i < p ==> order::precedes(#[trigger] text::texts(self.items@)[i], name@),
            p < self.items@.len() ==> !order::precedes(text::texts(self.items@)[p as int], name@),
    {
        let mut p: usize = 0;
        while p < self.items.len()
            invariant
                p <= self.items@.len(),
                forall|i: int|
                    0 <= i < p ==> order::precedes(#[trigger] text::texts(self.items@)[i], name@),
            decreases self.items@.len() - p,
        {
            if !order::less(self.items[p].as_str(), name) {
                return p;
            }
            p = p + 1;
        }
        p
    }

    proof fn place_decides(&self, name: Seq<char>, p: int)
        requires
            self.wf(),
            0 <= p <= self.items@.len(),
            forall|i: int|
                0 <= i < p ==> order::precedes(#[trigger] text::texts(self.items@)[i], name),
            p < self.items@.len() ==> !order::precedes(text::texts(self.items@)[p], name),
        ensures
            self@.contains(name) <==> p < self.items@.len() && text::texts(self.items@)[p] == name,
            self@.contains(name) <==> text::texts(self.items@).contains(name),
    {
        let t = text::texts(self.items@);
        if t.contains(name) {
            let k = choose|k: int| 0 <= k < t.len() && t[k] == name;
            order::precedes_irreflexive(name);
            if k > p {
                assert(order::precedes(t[p], t[k]));
            }
            assert(k == p);
        }
        if p < t.len() && t[p] == name {
            assert(t.contains(name));
        }
    }

    pub fn contains(&self, name: &str) -> (r: bool)
        requires
            self.wf(),
        ensures
            r == self@.contains(name@),
    {
        let p = self.place(name);
        proof {
            self.place_decides(name@, p as int);
        }
        p < self.items.len() && text::same(self.items[p].as_str(), name)
    }

    /// Adds a text, and says whether it was not there before.
    pub fn insert(&mut self, name: String) -> (r: bool)
        requires
            old(self).wf(),
        ensures
            final(self).wf(),
            final(self)@ == old(self)@.insert(name@),
            r == !old(self)@.contains(name@),
    {
        let p = self.place(name.as_str());
        proof {
            self.place_decides(name@, p as int);
        }
        if p < self.items.len() && text::same(self.items[p].as_str(), name.as_str()) {
            assert(self@ =~= self@.insert(name@));
            return false;
        }
        let ghost before = text::texts(self.items@);
        let ghost n = name@;
        self.items.insert(p, name);
        proof {
            let t = text::texts(self.items@);
            assert(t =~= before.insert(p as int, n));
            assert forall|i: int, j: int| 0 <= i < j < t.len() implies order::precedes(
                #[trigger] t[i],
                #[trigger] t[j],
            ) by {
                order::precedes_total(before[p as int], n);
                if i == p {
                    assert(t[j] == before[j - 1]);
                    if j - 1 > p {
                        assert(order::precedes(before[p as int], before[j - 1]));
                        order::precedes_transitive(n, before[p as int], before[j - 1]);
                    }
                } else if j == p {
                    assert(t[i] == before[i]);
                } else {
                    let a = if i < p { i } else { i - 1 };
                    let b = if j < p { j } else { j - 1 };
                    assert(order::precedes(before[a], before[b]));
                }
            }
            assert(self@ =~= old(self)@.insert(n)) by {
                assert forall|x: Seq<char>| self@.contains(x) implies old(self)@.insert(n).contains(x) by {
                    let k = choose|k: int| 0 <= k < t.len() && t[k] == x;
                    if k != p {
                        let a = if k < p { k } else { k - 1 };
                        assert(before[a] == x);
                    }
                }
                assert forall|x: Seq<char>| old(self)@.insert(n).contains(x) implies self@.contains(x) by {
                    if x == n {
                        assert(t[p as int] == n);
                    } else {
                        let k = choose|k: int| 0 <= k < before.len() && before[k] == x;
                        let a = if k < p { k } else { k + 1 };
                        assert(t[a] == x);
                    }
                }
            }
        }
        true
    }

    /// Takes a text away, and says whether it was there before.
    pub fn remove(&mut self, name: &str) -> (r: bool)
        requires
            old(self).wf(),
        ensures
            final(self).wf(),
            final(self)@ == old(self)@.remove(name@),
            r == old(self)@.contains(name@),
    {
        let p = self.place(name);
        proof {
            self.place_decides(name@, p as int);
        }
        if !(p < self.items.len() && text::same(self.items[p].as_str(), name)) {
            assert(self@ =~= self@.remove(name@));
            return false;
        }
        let ghost before = text::texts(self.items@);
        let _ = self.items.remove(p);
        proof {
            let t = text::texts(self.items@);
            assert(t =~= before.remove(p as int));
            assert forall|i: int, j: int| 0 <= i < j < t.len() implies order::precedes(
                #[trigger] t[i],
                #[trigger] t[j],
            ) by {
                let a = if i < p { i } else { i + 1 };
                let b = if j < p { j } else { j + 1 };
                assert(order::precedes(before[a], before[b]));
            }
            assert(self@ =~= old(self)@.remove(name@)) by {
                assert forall|x: Seq<char>| self@.contains(x) implies old(self)@.remove(name@).contains(x) by {
                    let k = choose|k: int| 0 <= k < t.len() && t[k] == x;
                    let a = if k < p { k } else { k + 1 };
                    assert(before[a] == x);
                    order::precedes_irreflexive(x);
                    if a < p {
                        assert(order::precedes(before[a], before[p as int]));
                    } else {
                        assert(order::precedes(before[p as int], before[a]));
                    }
                }
                assert forall|x: Seq<char>| old(self)@.remove(name@).contains(x) implies self@.contains(x) by {
                    let k = choose|k: int| 0 <= k < before.len() && before[k] == x;
                    let a = if k < p { k } else { k - 1 };
                    assert(t[a] == x);
                }
            }
        }
        true
    }

    pub fn is_empty(&self) -> (r: bool)
        ensures
            r == (self@ == Set::<Seq<char>>::empty()),
    {
        let r = self.items.len() == 0;
        proof {
            if self.items@.len() > 0 {
                assert(text::texts(self.items@).contains(text::texts(self.items@)[0]));
                assert(self@.contains(text::texts(self.items@)[0]));
            } else {
                assert(self@ =~= Set::<Seq<char>>::empty());
            }
        }
        r
    }

    /// The texts in order.
    pub fn to_vec(&self) -> (r: Vec<String>)
        requires
            self.wf(),
        ensures
            ascending(text::texts(r@)),
            text::texts(r@).to_set() == self@,
    {
        text::clone_texts(self.items.as_slice())
    }

    /// A copy of the set.
    pub fn copy(&self) -> (r: TextSet)
        requires
            self.wf(),
        ensures
            r.wf(),
            r@ == self@,
    {
        TextSet { items: text::clone_texts(self.items.as_slice()) }
    }
}

} // verus!
