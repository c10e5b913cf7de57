//! The event-handler table of a channel: a map from event names to handlers
//! into which handlers can be inserted and never removed or replaced.

use crate::error::predeclared::QuickSocketError;
use vstd::prelude::*;

verus! {

struct EventEntry<H> {
    name: String,
    func: H,
}

/// A table of handlers by event name. `H` is whatever the embedding program
/// calls a handler; the table stores it and hands it back, nothing more.
pub struct EventTable<H> {
    entries: Vec<EventEntry<H>>,
}

spec fn entries_map<H>(entries: Seq<EventEntry<H>>) -> Map<Seq<char>, H>
    decreases entries.len(),
{
    if entries.len() == 0 {
        Map::empty()
    } else {
        entries_map(entries.drop_last()).insert(entries.last().name@, entries.last().func)
    }
}

spec fn names_distinct<H>(entries: Seq<EventEntry<H>>) -> bool {
    forall|i: int, j: int|
        #![trigger entries[i], entries[j]]
        0 <= i < j < entries.len() ==> entries[i].name@ != entries[j].name@
}

proof fn lemma_entries_map_domain<H>(entries: Seq<EventEntry<H>>, name: Seq<char>)
    ensures
        entries_map(entries).contains_key(name) <==> exists|i: int|
            0 <= i < entries.len() && (#[trigger] entries[i]).name@ == name,
    decreases entries.len(),
{
    if entries.len() > 0 {
        let front = entries.drop_last();
        lemma_entries_map_domain(front, name);
        if entries_map(entries).contains_key(name) {
            if entries.last().name@ == name {
                assert(entries[entries.len() - 1].name@ == name);
            } else {
                let i = choose|i: int| 0 <= i < front.len() && (#[trigger] front[i]).name@ == name;
                assert(entries[i].name@ == name);
            }
        }
        if exists|i: int| 0 <= i < entries.len() && (#[trigger] entries[i]).name@ == name {
            let i = choose|i: int| 0 <= i < entries.len() && (#[trigger] entries[i]).name@ == name;
            if i < front.len() {
                assert(front[i].name@ == name);
            }
        }
    }
}

proof fn lemma_entries_map_value<H>(entries: Seq<EventEntry<H>>, i: int)
    requires
        names_distinct(entries),
        0 <= i < entries.len(),
    ensures
        entries_map(entries).contains_key(entries[i].name@),
        entries_map(entries)[entries[i].name@] == entries[i].func,
    decreases entries.len(),
{
    let front = entries.drop_last();
    if i < entries.len() - 1 {
        assert(names_distinct(front)) by {
            assert forall|a: int, b: int|
                #![trigger front[a], front[b]]
                0 <= a < b < front.len() implies front[a].name@ != front[b].name@ by {
                assert(entries[a].name@ != entries[b].name@);
            }
        }
        lemma_entries_map_value(front, i);
        assert(front[i] == entries[i]);
        assert(entries[i].name@ != entries[entries.len() - 1].name@);
    }
}

/// What registering `func` under `event` does to a table and what it
/// answers: a name that is taken is refused and the table stays as it is.
pub open spec fn register_outcome<H>(table: Map<Seq<char>, H>, event: Seq<char>, func: H) -> (
    Map<Seq<char>, H>,
    Result<(), QuickSocketError>,
) {
    if table.contains_key(event) {
        (table, Err(QuickSocketError::EventAlreadyExists))
    } else {
        (table.insert(event, func), Ok(()))
    }
}

impl<H> View for EventTable<H> {
    type V = Map<Seq<char>, H>;

    closed spec fn view(&self) -> Map<Seq<char>, H> {
        entries_map(self.entries@)
    }
}

impl<H> EventTable<H> {
    #[verifier::type_invariant]
    spec fn well_formed(&self) -> bool {
        names_distinct(self.entries@)
    }

    /// A table without handlers.
    pub fn new() -> (table: Self)
        ensures
            table@ == Map::<Seq<char>, H>::empty(),
    {
        EventTable { entries: Vec::new() }
    }

    /// The handler registered under `event`, if there is one.
    pub fn get(&self, event: &str) -> (found: Option<&H>)
        ensures
            found == if self@.contains_key(event@) {
                Some(&self@[event@])
            } else {
                None::<&H>
            },
    {
        proof {
            use_type_invariant(self);
        }
        let key = String::from_str(event);
        let mut i: usize = 0;
        while i < self.entries.len()
            invariant
                i <= self.entries.len(),
                key@ == event@,
                names_distinct(self.entries@),
                forall|j: int| 0 <= j < i ==> (#[trigger] self.entries@[j]).name@ != event@,
            decreases self.entries.len() - i,
        {
            if self.entries[i].name == key {
                proof {
                    lemma_entries_map_value(self.entries@, i as int);
                }
                return Some(&self.entries[i].func);
            }
            i += 1;
        }
        proof {
            lemma_entries_map_domain(self.entries@, event@);
        }
        None
    }

    /// Registers `func` under `event`. Insertion only: where the name is
    /// taken the call fails with `EventAlreadyExists` and the handler that was
    /// there stays.
    pub fn insert(&mut self, event: String, func: H) -> (outcome: Result<(), QuickSocketError>)
        ensures
            (final(self)@, outcome) == register_outcome(old(self)@, event@, func),
    {
        proof {
            use_type_invariant(&*self);
        }
        if self.get(event.as_str()).is_some() {
            return Err(QuickSocketError::EventAlreadyExists);
        }
        proof {
            lemma_entries_map_domain(self.entries@, event@);
            let grown = self.entries@.push(EventEntry { name: event, func });
            assert(grown.drop_last() == self.entries@);
        }
        let mut entries: Vec<EventEntry<H>> = Vec::new();
        core::mem::swap(&mut self.entries, &mut entries);
        entries.push(EventEntry { name: event, func });
        self.entries = entries;
        Ok(())
    }

    /// How many handlers are registered.
    pub fn len(&self) -> (count: usize)
        ensures
            count == self@.dom().len(),
            self@.dom().finite(),
    {
        proof {
            use_type_invariant(self);
            lemma_entries_map_len(self.entries@);
        }
        self.entries.len()
    }
}

proof fn lemma_entries_map_len<H>(entries: Seq<EventEntry<H>>)
    requires
        names_distinct(entries),
    ensures
        entries_map(entries).dom().finite(),
        entries_map(entries).dom().len() == entries.len(),
    decreases entries.len(),
{
    if entries.len() > 0 {
        let front = entries.drop_last();
        assert(names_distinct(front)) by {
            assert forall|a: int, b: int|
                #![trigger front[a], front[b]]
                0 <= a < b < front.len() implies front[a].name@ != front[b].name@ by {
                assert(entries[a].name@ != entries[b].name@);
            }
        }
        lemma_entries_map_len(front);
        lemma_entries_map_domain(front, entries.last().name@);
        if entries_map(front).contains_key(entries.last().name@) {
            let i = choose|i: int|
                0 <= i < front.len() && (#[trigger] front[i]).name@ == entries.last().name@;
            assert(entries[i].name@ == entries[entries.len() - 1].name@);
        }
    }
}

} // verus!
