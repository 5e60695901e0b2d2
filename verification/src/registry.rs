//! The store of mocks: callables kept under the identities of the functions
//! that they stand in for.

use vstd::prelude::*;
use vstd::string::StringExecFns;
use crate::error::Error;

verus! {

/// What stands under an identity: the callable and the type signature that
/// it was registered with.
pub struct Registered<C> {
    pub callable: C,
    pub descriptor: Seq<char>,
}

/// What looking up an identity with an expected type signature comes to.
pub enum Lookup<C> {
    /// The callable that is registered under the identity, with the expected
    /// signature.
    Found(C),
    /// Nothing is registered under the identity.
    Unregistered,
    /// What is registered under the identity has another signature.
    Mismatch,
}

/// What a registry holds after a callable was registered: the new entry has
/// taken the place of any entry with the same identity.
pub open spec fn registered<C>(
    entries: Map<Seq<char>, Registered<C>>,
    id: Seq<char>,
    callable: C,
    descriptor: Seq<char>,
) -> Map<Seq<char>, Registered<C>> {
    entries.insert(id, Registered { callable, descriptor })
}

/// What looking up `id` finds among `entries` when `expected` is the type
/// signature of the call.
pub open spec fn found<C>(
    entries: Map<Seq<char>, Registered<C>>,
    id: Seq<char>,
    expected: Seq<char>,
) -> Lookup<C> {
    if !entries.contains_key(id) {
        Lookup::Unregistered
    } else if entries[id].descriptor != expected {
        Lookup::Mismatch
    } else {
        Lookup::Found(entries[id].callable)
    }
}

struct Entry<C> {
    id: String,
    descriptor: String,
    callable: C,
}

impl<C> Entry<C> {
    /// What the entry registers.
    spec fn registered(self) -> Registered<C> {
        Registered { callable: self.callable, descriptor: self.descriptor@ }
    }
}

/// The entry at index `i` is the one for `id`.
spec fn holds_at<C>(entries: Seq<Entry<C>>, i: int, id: Seq<char>) -> bool {
    0 <= i < entries.len() && entries[i].id@ == id
}

/// No identity has two entries.
spec fn distinct<C>(entries: Seq<Entry<C>>) -> bool {
    forall|i: int, j: int| 0 <= i < j < entries.len() ==> entries[i].id@ != entries[j].id@
}

/// The map that a sequence of entries stands for.
spec fn as_map<C>(entries: Seq<Entry<C>>) -> Map<Seq<char>, Registered<C>> {
    Map::new(
        |id: Seq<char>| exists|i: int| holds_at(entries, i, id),
        |id: Seq<char>| entries[choose|i: int| holds_at(entries, i, id)].registered(),
    )
}

/// Under its identity, the map holds what the entry registers.
proof fn lemma_entry_in_map<C>(entries: Seq<Entry<C>>, i: int)
    requires
        distinct(entries),
        0 <= i < entries.len(),
    ensures
        as_map(entries).contains_key(entries[i].id@),
        as_map(entries)[entries[i].id@] == entries[i].registered(),
{
    let id = entries[i].id@;
    assert(holds_at(entries, i, id));
    let k = choose|k: int| holds_at(entries, k, id);
    assert(holds_at(entries, k, id));
    if k < i {
    } else if i < k {
    }
}

/// An entry with a new identity, put at the end, is inserted into the map.
proof fn lemma_push_inserts<C>(entries: Seq<Entry<C>>, entry: Entry<C>)
    requires
        distinct(entries),
        forall|i: int| !holds_at(entries, i, entry.id@),
    ensures
        distinct(entries.push(entry)),
        as_map(entries.push(entry)) == as_map(entries).insert(entry.id@, entry.registered()),
{
    let after = entries.push(entry);
    assert forall|i: int, j: int| 0 <= i < j < after.len() implies after[i].id@ != after[j].id@ by {
        if j == entries.len() {
            assert(!holds_at(entries, i, entry.id@));
        }
    }
    let expected = as_map(entries).insert(entry.id@, entry.registered());
    assert forall|id: Seq<char>| as_map(after).contains_key(id) == expected.contains_key(id) by {
        if as_map(after).contains_key(id) {
            let i = choose|i: int| holds_at(after, i, id);
            if i < entries.len() {
                assert(holds_at(entries, i, id));
            }
        }
        if expected.contains_key(id) {
            if id == entry.id@ {
                assert(holds_at(after, entries.len() as int, id));
            } else {
                let i = choose|i: int| holds_at(entries, i, id);
                assert(holds_at(after, i, id));
            }
        }
    }
    assert forall|id: Seq<char>| as_map(after).contains_key(id) implies as_map(after)[id]
        == expected[id] by {
        let i = choose|i: int| holds_at(after, i, id);
        lemma_entry_in_map(after, i);
        if i < entries.len() {
            assert(holds_at(entries, i, id));
            lemma_entry_in_map(entries, i);
        }
    }
    assert(as_map(after) =~= expected);
}

/// An entry put in the place of the one with its identity is inserted into
/// the map.
proof fn lemma_update_inserts<C>(entries: Seq<Entry<C>>, at: int, entry: Entry<C>)
    requires
        distinct(entries),
        holds_at(entries, at, entry.id@),
    ensures
        distinct(entries.update(at, entry)),
        as_map(entries.update(at, entry)) == as_map(entries).insert(
            entry.id@,
            entry.registered(),
        ),
{
    let after = entries.update(at, entry);
    assert forall|i: int, j: int| 0 <= i < j < after.len() implies after[i].id@ != after[j].id@ by {
        assert(after[i].id@ == entries[i].id@);
        assert(after[j].id@ == entries[j].id@);
    }
    let expected = as_map(entries).insert(entry.id@, entry.registered());
    assert forall|id: Seq<char>| as_map(after).contains_key(id) == expected.contains_key(id) by {
        if as_map(after).contains_key(id) {
            let i = choose|i: int| holds_at(after, i, id);
            assert(holds_at(entries, i, id));
        }
        if expected.contains_key(id) {
            if id == entry.id@ {
                assert(holds_at(after, at, id));
            } else {
                let i = choose|i: int| holds_at(entries, i, id);
                assert(holds_at(after, i, id));
            }
        }
    }
    assert forall|id: Seq<char>| as_map(after).contains_key(id) implies as_map(after)[id]
        == expected[id] by {
        let i = choose|i: int| holds_at(after, i, id);
        lemma_entry_in_map(after, i);
        if i != at {
            assert(holds_at(entries, i, id));
            lemma_entry_in_map(entries, i);
        }
    }
    assert(as_map(after) =~= expected);
}

/// The mocks of one test: a map from identities to callables, each with its
/// type signature. A registry belongs to the test that made it, and what it
/// holds ends with it.
pub struct Registry<C> {
    entries: Vec<Entry<C>>,
}

impl<C> View for Registry<C> {
    type V = Map<Seq<char>, Registered<C>>;

    closed spec fn view(&self) -> Map<Seq<char>, Registered<C>> {
        as_map(self.entries@)
    }
}

impl<C> Registry<C> {
    #[verifier::type_invariant]
    spec fn well_formed(&self) -> bool {
        distinct(self.entries@)
    }

    /// A registry that holds nothing.
    pub fn new() -> (r: Self)
        ensures
            r@ == Map::<Seq<char>, Registered<C>>::empty(),
    {
        let r = Registry { entries: Vec::new() };
        assert(r@ =~= Map::<Seq<char>, Registered<C>>::empty());
        r
    }

    /// The index of the entry for `id`.
    fn position(&self, id: &String) -> (r: Option<usize>)
        ensures
            match r {
                Some(i) => holds_at(self.entries@, i as int, id@),
                None => forall|i: int| !holds_at(self.entries@, i, id@),
            },
    {
        let mut i: usize = 0;
        while i < self.entries.len()
            invariant
                i <= self.entries.len(),
                forall|j: int| 0 <= j < i ==> !holds_at(self.entries@, j, id@),
            decreases self.entries.len() - i,
        {
            if self.entries[i].id == *id {
                return Some(i);
            }
            i += 1;
        }
        None
    }

    /// Registers `callable` under `id`, with the type signature `descriptor`.
    /// What was registered under `id` before is gone.
    pub fn register(&mut self, id: &str, callable: C, descriptor: &str)
        ensures
            final(self)@ == registered(old(self)@, id@, callable, descriptor@),
    {
        proof {
            use_type_invariant(&*self);
        }
        let entry = Entry {
            id: String::from_str(id),
            descriptor: String::from_str(descriptor),
            callable,
        };
        let place = self.position(&entry.id);
        let mut entries: Vec<Entry<C>> = Vec::new();
        core::mem::swap(&mut self.entries, &mut entries);
        match place {
            Some(at) => {
                proof {
                    lemma_update_inserts(entries@, at as int, entry);
                }
                entries.set(at, entry);
            },
            None => {
                proof {
                    lemma_push_inserts(entries@, entry);
                }
                entries.push(entry);
            },
        }
        self.entries = entries;
    }

    /// The callable that is registered under `id`, where its type signature
    /// is `expected`.
    pub fn find(&self, id: &str, expected: &str) -> (r: Result<&C, Error>)
        ensures
            match found(self@, id@, expected@) {
                Lookup::Found(callable) => r == Ok::<&C, Error>(&callable),
                Lookup::Unregistered => r matches Err(Error::UnregisteredCall(name)) && name@
                    == id@,
                Lookup::Mismatch => r matches Err(Error::TypeMismatch),
            },
    {
        proof {
            use_type_invariant(self);
        }
        let key = String::from_str(id);
        match self.position(&key) {
            Some(at) => {
                proof {
                    lemma_entry_in_map(self.entries@, at as int);
                }
                let entry = &self.entries[at];
                if entry.descriptor == String::from_str(expected) {
                    Ok(&entry.callable)
                } else {
                    Err(Error::TypeMismatch)
                }
            },
            None => Err(Error::UnregisteredCall(key)),
        }
    }

    /// Calls what is registered under `id` with `args` and hands back what it
    /// returns, where its type signature is `expected`.
    pub fn execute<A, R>(&self, id: &str, args: A, expected: &str) -> (r: Result<R, Error>) where
        C: Fn(A) -> R,

        requires
            found(self@, id@, expected@) matches Lookup::Found(callable) ==> call_requires(
                callable,
                (args,),
            ),
        ensures
            match found(self@, id@, expected@) {
                Lookup::Found(callable) => r matches Ok(value) && call_ensures(
                    callable,
                    (args,),
                    value,
                ),
                Lookup::Unregistered => r matches Err(Error::UnregisteredCall(name)) && name@
                    == id@,
                Lookup::Mismatch => r matches Err(Error::TypeMismatch),
            },
    {
        match self.find(id, expected) {
            Ok(callable) => Ok(callable(args)),
            Err(e) => Err(e),
        }
    }
}

/// The last registration wins: of two callables registered one after the
/// other under one identity, the second is found, and the registry is as if
/// the first had never been registered.
pub proof fn lemma_last_registration_wins<C>(
    entries: Map<Seq<char>, Registered<C>>,
    id: Seq<char>,
    first: C,
    first_descriptor: Seq<char>,
    second: C,
    second_descriptor: Seq<char>,
)
    ensures
        registered(registered(entries, id, first, first_descriptor), id, second, second_descriptor)
            == registered(entries, id, second, second_descriptor),
        found(
            registered(
                registered(entries, id, first, first_descriptor),
                id,
                second,
                second_descriptor,
            ),
            id,
            second_descriptor,
        ) == Lookup::Found(second),
{
    assert(registered(
        registered(entries, id, first, first_descriptor),
        id,
        second,
        second_descriptor,
    ) =~= registered(entries, id, second, second_descriptor));
}

/// What is registered is found under its identity, with its type signature
/// and with no other.
pub proof fn lemma_registered_is_found<C>(
    entries: Map<Seq<char>, Registered<C>>,
    id: Seq<char>,
    callable: C,
    descriptor: Seq<char>,
    expected: Seq<char>,
)
    ensures
        found(registered(entries, id, callable, descriptor), id, expected) == if expected
            == descriptor {
            Lookup::Found(callable)
        } else {
            Lookup::Mismatch
        },
{
}

/// A registration changes nothing under any other identity.
pub proof fn lemma_registration_keeps_others<C>(
    entries: Map<Seq<char>, Registered<C>>,
    id: Seq<char>,
    callable: C,
    descriptor: Seq<char>,
    other: Seq<char>,
    expected: Seq<char>,
)
    requires
        other != id,
    ensures
        found(registered(entries, id, callable, descriptor), other, expected) == found(
            entries,
            other,
            expected,
        ),
{
}

/// In a registry that holds nothing, every identity is unregistered: what one
/// test registered in its registry, the new registry of another does not
/// hold.
pub proof fn lemma_empty_registry_finds_nothing<C>(id: Seq<char>, expected: Seq<char>)
    ensures
        found(Map::<Seq<char>, Registered<C>>::empty(), id, expected) == Lookup::<C>::Unregistered,
{
}

} // verus!
