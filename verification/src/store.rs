//! In-memory loom registry.

use crate::entities::{Loom, LoomId, LoomView};
use crate::text;
use vstd::prelude::*;

verus! {

/// Whether the loom at `i` carries the name.
pub open spec fn named(looms: Seq<LoomView>, id: Seq<char>, i: int) -> bool {
    0 <= i < looms.len() && looms[i].id == id
}

/// Whether no two looms share a name.
pub open spec fn distinct(looms: Seq<LoomView>) -> bool {
    forall|i: int, j: int|
        0 <= i < j < looms.len() ==> (#[trigger] looms[i]).id != (#[trigger] looms[j]).id
}

/// The looms by name.
pub open spec fn by_name(looms: Seq<LoomView>) -> Map<Seq<char>, LoomView> {
    Map::new(
        |id: Seq<char>| exists|i: int| named(looms, id, i),
        |id: Seq<char>| looms[choose|i: int| named(looms, id, i)],
    )
}

proof fn by_name_at(looms: Seq<LoomView>, i: int)
    requires
        distinct(looms),
        0 <= i < looms.len(),
    ensures
        by_name(looms).contains_key(looms[i].id),
        by_name(looms)[looms[i].id] == looms[i],
{
    let id = looms[i].id;
    assert(named(looms, id, i));
    let k = choose|k: int| named(looms, id, k);
    assert(named(looms, id, k));
    assert(k == i) by {
        if k < i {
            assert(looms[k].id != looms[i].id);
        } else if i < k {
            assert(looms[i].id != looms[k].id);
        }
    }
}

proof fn by_name_update(looms: Seq<LoomView>, i: int, loom: LoomView)
    requires
        distinct(looms),
        0 <= i < looms.len(),
        looms[i].id == loom.id,
    ensures
        distinct(looms.update(i, loom)),
        by_name(looms.update(i, loom)) == by_name(looms).insert(loom.id, loom),
{
    let after = looms.update(i, loom);
    let left = by_name(after);
    let right = by_name(looms).insert(loom.id, loom);
    by_name_at(looms, i);
    by_name_at(after, i);
    assert forall|id: Seq<char>| left.contains_key(id) == right.contains_key(id) by {
        if left.contains_key(id) {
            let k = choose|k: int| named(after, id, k);
            assert(named(looms, id, k));
        }
        if right.contains_key(id) && id != loom.id {
            let k = choose|k: int| named(looms, id, k);
            assert(named(after, id, k));
        }
    }
    assert forall|id: Seq<char>| left.contains_key(id) implies left[id] == right[id] by {
        let k = choose|k: int| named(after, id, k);
        by_name_at(after, k);
        by_name_at(looms, k);
    }
    assert(left =~= right);
}

proof fn by_name_push(looms: Seq<LoomView>, loom: LoomView)
    requires
        distinct(looms),
        forall|i: int| 0 <= i < looms.len() ==> (#[trigger] looms[i]).id != loom.id,
    ensures
        distinct(looms.push(loom)),
        by_name(looms.push(loom)) == by_name(looms).insert(loom.id, loom),
{
    let after = looms.push(loom);
    let left = by_name(after);
    let right = by_name(looms).insert(loom.id, loom);
    by_name_at(after, looms.len() as int);
    assert forall|id: Seq<char>| left.contains_key(id) == right.contains_key(id) by {
        if left.contains_key(id) && id != loom.id {
            let k = choose|k: int| named(after, id, k);
            assert(named(looms, id, k));
        }
        if right.contains_key(id) && id != loom.id {
            let k = choose|k: int| named(looms, id, k);
            assert(named(after, id, k));
        }
    }
    assert forall|id: Seq<char>| left.contains_key(id) implies left[id] == right[id] by {
        let k = choose|k: int| named(after, id, k);
        by_name_at(after, k);
        if id != loom.id {
            by_name_at(looms, k);
        }
    }
    assert(left =~= right);
}

proof fn by_name_remove(looms: Seq<LoomView>, i: int)
    requires
        distinct(looms),
        0 <= i < looms.len(),
    ensures
        distinct(looms.remove(i)),
        by_name(looms.remove(i)) == by_name(looms).remove(looms[i].id),
{
    let after = looms.remove(i);
    let gone = looms[i].id;
    let left = by_name(after);
    let right = by_name(looms).remove(gone);
    assert forall|a: int, b: int| 0 <= a < b < after.len() implies (#[trigger] after[a]).id != (
    #[trigger] after[b]).id by {
        let a2 = if a < i { a } else { a + 1 };
        let b2 = if b < i { b } else { b + 1 };
        assert(after[a] == looms[a2] && after[b] == looms[b2]);
    }
    assert forall|id: Seq<char>| left.contains_key(id) == right.contains_key(id) by {
        if left.contains_key(id) {
            let k = choose|k: int| named(after, id, k);
            let k2 = if k < i { k } else { k + 1 };
            assert(after[k] == looms[k2]);
            assert(named(looms, id, k2));
            if k2 < i {
                assert(looms[k2].id != looms[i].id);
            } else {
                assert(looms[i].id != looms[k2].id);
            }
        }
        if right.contains_key(id) {
            let k = choose|k: int| named(looms, id, k);
            assert(k != i);
            let k2 = if k < i { k } else { k - 1 };
            assert(after[k2] == looms[k]);
            assert(named(after, id, k2));
        }
    }
    assert forall|id: Seq<char>| left.contains_key(id) implies left[id] == right[id] by {
        let k = choose|k: int| named(after, id, k);
        by_name_at(after, k);
        let k2 = if k < i { k } else { k + 1 };
        by_name_at(looms, k2);
    }
    assert(left =~= right);
}

/// In-memory registry of looms, by name.
#[derive(Debug)]
pub struct LoomStore {
    looms: Vec<Loom>,
}

impl LoomStore {
    #[verifier::type_invariant]
    closed spec fn well_formed(&self) -> bool {
        distinct(self.listing())
    }

    /// The looms in the order in which [`LoomStore::list`] gives them.
    pub closed spec fn listing(&self) -> Seq<LoomView> {
        text::views(self.looms@)
    }
}

impl View for LoomStore {
    type V = Map<Seq<char>, LoomView>;

    open spec fn view(&self) -> Map<Seq<char>, LoomView> {
        by_name(self.listing())
    }
}

impl Default for LoomStore {
    /// An empty loom store.
    fn default() -> (store: Self)
        ensures
            store.listing() == Seq::<LoomView>::empty(),
            store@ == Map::<Seq<char>, LoomView>::empty(),
    {
        let store = LoomStore { looms: Vec::new() };
        assert(store.listing() =~= Seq::<LoomView>::empty());
        assert(store@ =~= Map::empty()) by {
            assert forall|id: Seq<char>| !store@.contains_key(id) by {
                assert(!exists|i: int| named(store.listing(), id, i));
            }
        }
        store
    }
}

impl LoomStore {
    /// Create a new empty loom store.
    pub fn new() -> (store: Self)
        ensures
            store.listing() == Seq::<LoomView>::empty(),
            store@ == Map::<Seq<char>, LoomView>::empty(),
    {
        Self::default()
    }

    /// The position of the loom with the name, if there is one.
    fn position(&self, id: &LoomId) -> (pos: Option<usize>)
        ensures
            match pos {
                Some(i) => named(self.listing(), id@, i as int) && i < self.looms@.len(),
                None => forall|i: int|
                    0 <= i < self.listing().len() ==> (#[trigger] self.listing()[i]).id != id@,
            },
            pos is Some == self@.contains_key(id@),
            pos matches Some(i) ==> self@[id@] == self.looms@[i as int]@,
    {
        proof {
            use_type_invariant(self);
        }
        for i in 0..self.looms.len()
            invariant
                distinct(self.listing()),
                self.listing() == text::views(self.looms@),
                forall|j: int| 0 <= j < i ==> (#[trigger] self.listing()[j]).id != id@,
        {
            assert(self.listing()[i as int] == self.looms@[i as int]@);
            if self.looms[i].id.0 == id.0 {
                proof {
                    by_name_at(self.listing(), i as int);
                }
                return Some(i);
            }
        }
        assert(!exists|i: int| named(self.listing(), id@, i));
        None
    }

    /// Register a loom in the store.
    ///
    /// If a loom with the same ID already exists it is replaced.
    pub fn register(&mut self, loom: Loom)
        ensures
            final(self)@ == old(self)@.insert(loom@.id, loom@),
    {
        proof {
            use_type_invariant(&*self);
        }
        let ghost before = self.listing();
        let pos = self.position(&loom.id);
        let mut looms: Vec<Loom> = Vec::new();
        std::mem::swap(&mut looms, &mut self.looms);
        match pos {
            Some(i) => {
                proof {
                    by_name_update(before, i as int, loom@);
                }
                looms.set(i, loom);
                assert(text::views(looms@) =~= before.update(i as int, loom@));
            },
            None => {
                proof {
                    by_name_push(before, loom@);
                }
                looms.push(loom);
                assert(text::views(looms@) =~= before.push(loom@));
            },
        }
        self.looms = looms;
    }

    /// Unregister a loom by its ID.
    ///
    /// Returns `true` if the loom was present and removed.
    pub fn unregister(&mut self, id: &LoomId) -> (removed: bool)
        ensures
            removed == old(self)@.contains_key(id@),
            final(self)@ == old(self)@.remove(id@),
    {
        proof {
            use_type_invariant(&*self);
        }
        let ghost before = self.listing();
        match self.position(id) {
            Some(i) => {
                proof {
                    by_name_remove(before, i as int);
                }
                let mut looms: Vec<Loom> = Vec::new();
                std::mem::swap(&mut looms, &mut self.looms);
                looms.remove(i);
                assert(text::views(looms@) =~= before.remove(i as int));
                self.looms = looms;
                true
            },
            None => {
                assert(self@ =~= self@.remove(id@));
                false
            },
        }
    }

    /// Get a loom by its ID.
    ///
    /// Returns `Some(loom)` if present, `None` otherwise.
    pub fn get(&self, id: &LoomId) -> (loom: Option<Loom>)
        ensures
            text::opt_view(loom) == (if self@.contains_key(id@) {
                Some(self@[id@])
            } else {
                None
            }),
            loom matches Some(l) ==> l@.id == id@,
    {
        match self.position(id) {
            Some(i) => Some(self.looms[i].clone()),
            None => None,
        }
    }

    /// List all registered looms. The order is not guaranteed.
    pub fn list(&self) -> (looms: Vec<Loom>)
        ensures
            text::views(looms@) == self.listing(),
            distinct(self.listing()),
    {
        proof {
            use_type_invariant(self);
        }
        let looms = self.looms.clone();
        assert(text::views(looms@) =~= self.listing());
        looms
    }
}

/// A listing without repeated names holds exactly the registered looms.
pub proof fn listing_is_complete(store: LoomStore, id: Seq<char>)
    requires
        distinct(store.listing()),
    ensures
        store@.contains_key(id) <==> exists|i: int|
            0 <= i < store.listing().len() && (#[trigger] store.listing()[i]).id == id,
        store@.contains_key(id) ==> store.listing().contains(store@[id]),
        forall|i: int|
            0 <= i < store.listing().len() ==> store@.contains_key(
                (#[trigger] store.listing()[i]).id,
            ) && store@[store.listing()[i].id] == store.listing()[i],
{
    let looms = store.listing();
    if store@.contains_key(id) {
        let k = choose|k: int| named(looms, id, k);
        by_name_at(looms, k);
    }
    if exists|i: int| 0 <= i < looms.len() && (#[trigger] looms[i]).id == id {
        let k = choose|i: int| 0 <= i < looms.len() && (#[trigger] looms[i]).id == id;
        by_name_at(looms, k);
    }
    assert forall|i: int| 0 <= i < looms.len() implies store@.contains_key(
        (#[trigger] looms[i]).id,
    ) && store@[looms[i].id] == looms[i] by {
        by_name_at(looms, i);
    }
}

} // verus!
