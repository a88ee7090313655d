//! A collection whose items are owned once and seen by many modules.
//!
//! Every item sits in one store-wide list. Each module has a list of its
//! own that maps its local indices to handles into the store-wide list, so
//! that an import is one more handle and no copy.
use crate::address::ModuleIndex;
use std::collections::HashMap;
use vstd::prelude::*;

verus! {

broadcast use vstd::std_specs::hash::group_hash_axioms;

/// What a collection holds: the items in the order they were added, and for
/// every module that has local slots the handles behind them.
pub struct LinkableView<T> {
    pub items: Seq<T>,
    pub locals: Map<u32, Seq<usize>>,
}

impl<T> LinkableView<T> {
    /// The local slots of a module; none where it has no list.
    pub open spec fn slots(self, module: ModuleIndex) -> Seq<usize> {
        if self.locals.contains_key(module.0) {
            self.locals[module.0]
        } else {
            Seq::empty()
        }
    }

    /// The handle behind a local index, if the module has that slot.
    pub open spec fn resolve(self, module: ModuleIndex, index: usize) -> Option<usize> {
        if index < self.slots(module).len() {
            Some(self.slots(module)[index as int])
        } else {
            None
        }
    }

    /// Every handle in a local list points into the item list.
    pub open spec fn wf(self) -> bool {
        forall|m: u32, i: int|
            self.locals.contains_key(m) && 0 <= i < self.locals[m].len() ==> (
            #[trigger] self.locals[m][i]) < self.items.len()
    }

    /// The local lists after one more handle was added to a module's list.
    pub open spec fn linked(self, handle: usize, module: ModuleIndex) -> Map<u32, Seq<usize>> {
        self.locals.insert(module.0, self.slots(module).push(handle))
    }

    /// `later` has every item and every slot of `self` where `self` has it:
    /// what an address resolved to, it resolves to still.
    pub open spec fn stable_in(self, later: LinkableView<T>) -> bool {
        &&& self.items.len() <= later.items.len()
        &&& forall|m: u32| #[trigger]
            self.locals.contains_key(m) ==> later.locals.contains_key(m) && self.locals[m].len()
                <= later.locals[m].len()
        &&& forall|m: u32, i: int|
            self.locals.contains_key(m) && 0 <= i < self.locals[m].len() ==> (
            #[trigger] later.locals[m][i]) == self.locals[m][i]
    }
}

/// What is stable from a first view to a second, and from the second to a
/// third, is stable from the first to the third.
pub proof fn lemma_stable_in_transitive<T>(
    first: LinkableView<T>,
    second: LinkableView<T>,
    third: LinkableView<T>,
)
    requires
        first.stable_in(second),
        second.stable_in(third),
    ensures
        first.stable_in(third),
{
    assert forall|m: u32| #[trigger] first.locals.contains_key(m) implies third.locals.contains_key(
        m,
    ) && first.locals[m].len() <= third.locals[m].len() by {
        assert(second.locals.contains_key(m));
    }
    assert forall|m: u32, i: int|
        first.locals.contains_key(m) && 0 <= i < first.locals[m].len() implies (
    #[trigger] third.locals[m][i]) == first.locals[m][i] by {
        assert(second.locals.contains_key(m));
        assert(second.locals[m][i] == first.locals[m][i]);
    }
}

/// An address that resolves keeps resolving to the same handle.
pub proof fn lemma_stable_resolve<T>(
    old: LinkableView<T>,
    later: LinkableView<T>,
    module: ModuleIndex,
    index: usize,
)
    requires
        old.stable_in(later),
        old.resolve(module, index) is Some,
    ensures
        later.resolve(module, index) == old.resolve(module, index),
{
    assert(later.locals.contains_key(module.0));
    assert(later.locals[module.0][index as int] == old.locals[module.0][index as int]);
}

/// The items of one kind in a store, and every module's local slots for
/// them.
pub struct LinkableCollection<T> {
    items: Vec<T>,
    item_addrs_by_module: HashMap<u32, Vec<usize>>,
}

impl<T> View for LinkableCollection<T> {
    type V = LinkableView<T>;

    closed spec fn view(&self) -> LinkableView<T> {
        LinkableView {
            items: self.items@,
            locals: Map::new(
                |m: u32| self.item_addrs_by_module@.contains_key(m),
                |m: u32| self.item_addrs_by_module@[m]@,
            ),
        }
    }
}

impl<T> LinkableCollection<T> {
    pub fn new() -> (c: Self)
        ensures
            c@.items == Seq::<T>::empty(),
            c@.locals == Map::<u32, Seq<usize>>::empty(),
            c@.wf(),
    {
        let c = LinkableCollection { items: Vec::new(), item_addrs_by_module: HashMap::new() };
        assert(c@.locals =~= Map::<u32, Seq<usize>>::empty());
        c
    }

    /// Adds an item that no module lists: the way host items come in.
    /// Returns its handle.
    pub fn push_global(&mut self, item: T) -> (handle: usize)
        ensures
            handle == old(self)@.items.len(),
            final(self)@.items == old(self)@.items.push(item),
            final(self)@.locals == old(self)@.locals,
            old(self)@.wf() ==> final(self)@.wf(),
    {
        let handle = self.items.len();
        self.items.push(item);
        assert(final(self)@.locals =~= old(self)@.locals);
        handle
    }

    /// Gives `module` one more local slot, behind which stands the item
    /// with the given handle: the way an import comes in. Returns the local
    /// index of the new slot.
    pub fn link(&mut self, handle: usize, module: ModuleIndex) -> (index: usize)
        ensures
            index == old(self)@.slots(module).len(),
            final(self)@.items == old(self)@.items,
            final(self)@.locals == old(self)@.linked(handle, module),
            old(self)@.wf() && handle < old(self)@.items.len() ==> final(self)@.wf(),
    {
        let mut list = match self.item_addrs_by_module.remove(&module.0) {
            Some(l) => l,
            None => Vec::new(),
        };
        let index = list.len();
        list.push(handle);
        self.item_addrs_by_module.insert(module.0, list);
        assert(final(self)@.locals =~= old(self)@.linked(handle, module));
        index
    }

    /// Adds an item and gives `module` a local slot for it. Returns the
    /// local index of that slot.
    pub fn push(&mut self, module: ModuleIndex, item: T) -> (index: usize)
        ensures
            index == old(self)@.slots(module).len(),
            final(self)@.items == old(self)@.items.push(item),
            final(self)@.locals == old(self)@.linked(old(self)@.items.len() as usize, module),
            old(self)@.wf() ==> final(self)@.wf(),
    {
        let handle = self.push_global(item);
        self.link(handle, module)
    }

    /// The handle behind a local index; `None` where the module has no such
    /// slot.
    pub fn resolve(&self, module: ModuleIndex, index: usize) -> (r: Option<usize>)
        ensures
            r == self@.resolve(module, index),
    {
        match self.item_addrs_by_module.get(&module.0) {
            Some(l) => if index < l.len() {
                Some(l[index])
            } else {
                None
            },
            None => None,
        }
    }

    /// The item with the given handle.
    pub fn get_global(&self, handle: usize) -> (item: &T)
        requires
            handle < self@.items.len(),
        ensures
            *item == self@.items[handle as int],
    {
        &self.items[handle]
    }

    /// The item with the given handle, to be changed in place.
    pub fn get_global_mut(&mut self, handle: usize) -> (item: &mut T)
        requires
            handle < old(self)@.items.len(),
        ensures
            *item == old(self)@.items[handle as int],
            final(self)@.items == old(self)@.items.update(handle as int, *final(item)),
            final(self)@.locals == old(self)@.locals,
    {
        &mut self.items[handle]
    }

    /// The item behind a local index, with its handle.
    pub fn get(&self, module: ModuleIndex, index: usize) -> (r: Option<(&T, usize)>)
        requires
            self@.wf(),
        ensures
            match self@.resolve(module, index) {
                Some(handle) => r == Some((&self@.items[handle as int], handle)),
                None => r is None,
            },
    {
        match self.resolve(module, index) {
            Some(handle) => {
                assert(self@.locals[module.0][index as int] == handle);
                Some((&self.items[handle], handle))
            },
            None => None,
        }
    }

    /// The number of local slots of a module.
    pub fn count(&self, module: ModuleIndex) -> (n: usize)
        ensures
            n == self@.slots(module).len(),
    {
        match self.item_addrs_by_module.get(&module.0) {
            Some(l) => l.len(),
            None => 0,
        }
    }

    /// Whether a module has no local slot.
    pub fn is_empty(&self, module: ModuleIndex) -> (b: bool)
        ensures
            b == (self@.slots(module).len() == 0),
    {
        self.count(module) == 0
    }

    /// The number of items, whoever lists them.
    pub fn len(&self) -> (n: usize)
        ensures
            n == self@.items.len(),
    {
        self.items.len()
    }

    /// Forgets the local slots of a module. The items stay.
    pub fn remove_module(&mut self, module: ModuleIndex)
        ensures
            final(self)@.items == old(self)@.items,
            final(self)@.locals == old(self)@.locals.remove(module.0),
            old(self)@.wf() ==> final(self)@.wf(),
    {
        self.item_addrs_by_module.remove(&module.0);
        assert(final(self)@.locals =~= old(self)@.locals.remove(module.0));
    }

    /// Drops the items from handle `len` on. No local slot may point at one
    /// of them: the caller has removed the lists of the module that added
    /// them.
    pub fn discard_from(&mut self, len: usize)
        requires
            len <= old(self)@.items.len(),
        ensures
            final(self)@.items == old(self)@.items.take(len as int),
            final(self)@.locals == old(self)@.locals,
    {
        self.items.truncate(len);
        assert(final(self)@.locals =~= old(self)@.locals);
    }
}

} // verus!
