//! Lists of named entries, read as maps in which the latest entry of a
//! name stands for it.
use vstd::prelude::*;
use vstd::string::*;

verus! {

/// A value under a name.
#[derive(Clone, Debug, PartialEq, Eq)]
pub struct Named<V> {
    pub name: String,
    pub value: V,
}

impl<V> Named<V> {
    pub fn new(name: String, value: V) -> (n: Self)
        ensures
            n.name == name,
            n.value == value,
    {
        Named { name, value }
    }
}

/// What a list binds a name to: the value of its last entry of that name.
pub open spec fn bound<V>(entries: Seq<Named<V>>, name: Seq<char>) -> Option<V>
    decreases entries.len(),
{
    if entries.len() == 0 {
        None
    } else if entries.last().name@ == name {
        Some(entries.last().value)
    } else {
        bound(entries.drop_last(), name)
    }
}

/// Looks a name up.
pub fn lookup<'a, V>(entries: &'a Vec<Named<V>>, name: &String) -> (r: Option<&'a V>)
    ensures
        match bound(entries@, name@) {
            Some(v) => r == Some(&v),
            None => r is None,
        },
{
    let mut i = entries.len();
    assert(entries@.take(i as int) =~= entries@);
    while i > 0
        invariant
            i <= entries@.len(),
            bound(entries@, name@) == bound(entries@.take(i as int), name@),
        decreases i,
    {
        assert(entries@.take(i as int).drop_last() =~= entries@.take(i as int - 1));
        if entries[i - 1].name == *name {
            return Some(&entries[i - 1].value);
        }
        i -= 1;
    }
    None
}

/// What a list binds a name to is the value of one of its entries.
pub proof fn lemma_bound_is_entry<V>(entries: Seq<Named<V>>, name: Seq<char>)
    ensures
        bound(entries, name) matches Some(v) ==> exists|k: int|
            0 <= k < entries.len() && (#[trigger] entries[k]).value == v && entries[k].name@
                == name,
    decreases entries.len(),
{
    if entries.len() > 0 && entries.last().name@ != name {
        lemma_bound_is_entry(entries.drop_last(), name);
        if bound(entries, name) is Some {
            let k = choose|k: int|
                0 <= k < entries.drop_last().len() && (#[trigger] entries.drop_last()[k]).value
                    == bound(entries, name)->Some_0 && entries.drop_last()[k].name@ == name;
            assert(entries[k] == entries.drop_last()[k]);
        }
    } else if entries.len() > 0 {
        assert(entries[entries.len() - 1] == entries.last());
    }
}

/// One more entry decides its own name and leaves every other as it was.
pub proof fn lemma_bound_push<V>(entries: Seq<Named<V>>, entry: Named<V>, name: Seq<char>)
    ensures
        bound(entries.push(entry), name) == if entry.name@ == name {
            Some(entry.value)
        } else {
            bound(entries, name)
        },
{
    assert(entries.push(entry).drop_last() =~= entries);
}

} // verus!
