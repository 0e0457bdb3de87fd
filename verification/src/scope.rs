//! The local scope of function lowering: the locals declared so far, by
//! source name, and the id the next one gets. A name declared again
//! shadows the earlier declaration.
use vstd::prelude::*;

use crate::mir::LocalId;
use crate::strutil::{concat_str, decimal, str_eq, u64_to_decimal};

verus! {

pub struct LocalScope {
    pub locals: Vec<(String, LocalId)>,
    pub next_local: u32,
}

/// The id the latest declaration of `name` among `locals` got.
pub open spec fn lookup(locals: Seq<(String, LocalId)>, name: Seq<char>) -> Option<LocalId>
    decreases locals.len(),
{
    if locals.len() == 0 {
        None
    } else if locals.last().0@ == name {
        Some(locals.last().1)
    } else {
        lookup(locals.drop_last(), name)
    }
}

/// The name of the temporary declared when the next id is `n`.
pub open spec fn temp_name(n: nat) -> Seq<char> {
    "__tmp_"@ + decimal(n)
}

impl LocalScope {
    pub fn new() -> (r: Self)
        ensures
            r.locals@.len() == 0,
            r.next_local == 0,
    {
        LocalScope { locals: Vec::new(), next_local: 0 }
    }

    /// Declare a local under `name`: it gets the next id, and looking the
    /// name up now finds it; other names find what they found before.
    pub fn declare_local(&mut self, name: &str) -> (id: LocalId)
        requires
            old(self).next_local < u32::MAX,
        ensures
            id == LocalId(old(self).next_local),
            final(self).next_local == old(self).next_local + 1,
            final(self).locals@.len() == old(self).locals@.len() + 1,
            final(self).locals@.drop_last() == old(self).locals@,
            final(self).locals@.last().0@ == name@,
            final(self).locals@.last().1 == id,
            lookup(final(self).locals@, name@) == Some(id),
            forall|n: Seq<char>|
                n != name@ ==> #[trigger] lookup(final(self).locals@, n) == lookup(
                    old(self).locals@,
                    n,
                ),
    {
        let id = LocalId(self.next_local);
        self.next_local = self.next_local + 1;
        self.locals.push((name.to_owned(), id));
        proof {
            assert(self.locals@.drop_last() =~= old(self).locals@);
        }
        id
    }

    /// Declare a temporary, named after the id it gets.
    pub fn new_temp(&mut self) -> (id: LocalId)
        requires
            old(self).next_local < u32::MAX,
        ensures
            id == LocalId(old(self).next_local),
            final(self).next_local == old(self).next_local + 1,
            final(self).locals@.drop_last() == old(self).locals@,
            final(self).locals@.last().0@ == temp_name(old(self).next_local as nat),
            final(self).locals@.last().1 == id,
    {
        let name = concat_str("__tmp_", u64_to_decimal(self.next_local as u64).as_str());
        self.declare_local(name.as_str())
    }

    /// The id of the latest declaration of `name`, if any.
    pub fn lookup_local(&self, name: &str) -> (r: Option<LocalId>)
        ensures
            r == lookup(self.locals@, name@),
    {
        let mut i: usize = self.locals.len();
        proof {
            assert(self.locals@.take(i as int) =~= self.locals@);
        }
        while i > 0
            invariant
                i <= self.locals@.len(),
                lookup(self.locals@, name@) == lookup(self.locals@.take(i as int), name@),
            decreases i,
        {
            proof {
                assert(self.locals@.take(i as int).drop_last() =~= self.locals@.take(i - 1));
            }
            if str_eq(self.locals[i - 1].0.as_str(), name) {
                return Some(self.locals[i - 1].1);
            }
            i = i - 1;
        }
        None
    }
}

/// Declaring a name and then looking it up finds the new local, however
/// often the name was declared before.
pub proof fn law_declare_then_lookup(
    before: Seq<(String, LocalId)>,
    after: Seq<(String, LocalId)>,
    name: Seq<char>,
    id: LocalId,
)
    requires
        after.drop_last() == before,
        after.len() == before.len() + 1,
        after.last().0@ == name,
        after.last().1 == id,
    ensures
        lookup(after, name) == Some(id),
{
}

} // verus!
