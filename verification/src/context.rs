//! The contexts of the embedder: state that the host stashes in the store
//! under tags of its own, and that its functions find there.
use vstd::prelude::*;

verus! {

/// What a list of contexts holds under a tag: the latest entry of it.
pub open spec fn context_of<C>(contexts: Seq<(u64, C)>, tag: u64) -> Option<C>
    decreases contexts.len(),
{
    if contexts.len() == 0 {
        None
    } else if contexts.last().0 == tag {
        Some(contexts.last().1)
    } else {
        context_of(contexts.drop_last(), tag)
    }
}

/// The contexts that were stashed, each under its tag.
pub struct EmbedContexts<C> {
    entries: Vec<(u64, C)>,
}

impl<C> View for EmbedContexts<C> {
    type V = Seq<(u64, C)>;

    closed spec fn view(&self) -> Seq<(u64, C)> {
        self.entries@
    }
}

impl<C> EmbedContexts<C> {
    /// No contexts.
    pub fn new() -> (c: Self)
        ensures
            c@ == Seq::<(u64, C)>::empty(),
    {
        EmbedContexts { entries: Vec::new() }
    }

    /// Stashes a context under a tag. A later context under the same tag
    /// replaces this one.
    pub fn add(&mut self, tag: u64, ctx: C)
        ensures
            final(self)@ == old(self)@.push((tag, ctx)),
    {
        self.entries.push((tag, ctx));
    }

    /// The context that was stashed under a tag; `None` where there is
    /// none.
    pub fn get(&self, tag: u64) -> (r: Option<&C>)
        ensures
            match context_of(self@, tag) {
                Some(c) => r == Some(&c),
                None => r is None,
            },
    {
        let mut i = self.entries.len();
        assert(self@.take(i as int) =~= self@);
        while i > 0
            invariant
                i <= self@.len(),
                context_of(self@, tag) == context_of(self@.take(i as int), tag),
            decreases i,
        {
            assert(self@.take(i as int).drop_last() =~= self@.take(i as int - 1));
            if self.entries[i - 1].0 == tag {
                return Some(&self.entries[i - 1].1);
            }
            i -= 1;
        }
        None
    }
}

} // verus!
