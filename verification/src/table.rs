//! The operator table: which symbols are binary operators, and how tightly
//! each binds.

use vstd::prelude::*;

verus! {

/// A mapping from operator symbols to precedence levels. A higher level
/// binds tighter.
#[derive(Clone, Debug)]
pub struct OperatorTable {
    entries: Vec<(String, i8)>,
}

/// The level of the first entry for `symbol`, if there is one.
spec fn lookup(entries: Seq<(String, i8)>, symbol: Seq<char>) -> Option<i8>
    decreases entries.len(),
{
    if entries.len() == 0 {
        None
    } else if entries[0].0@ == symbol {
        Some(entries[0].1)
    } else {
        lookup(entries.drop_first(), symbol)
    }
}

/// Replacing the first entry for a symbol changes the level of that symbol only.
proof fn lemma_lookup_update(entries: Seq<(String, i8)>, i: int, entry: (String, i8), symbol: Seq<char>)
    requires
        0 <= i < entries.len(),
        entries[i].0@ == entry.0@,
        forall|j: int| 0 <= j < i ==> (#[trigger] entries[j]).0@ != entry.0@,
    ensures
        lookup(entries.update(i, entry), symbol) == if symbol == entry.0@ {
            Some(entry.1)
        } else {
            lookup(entries, symbol)
        },
    decreases i,
{
    let after = entries.update(i, entry);
    if i > 0 {
        assert(entries[0].0@ != entry.0@);
        assert(after.drop_first() =~= entries.drop_first().update(i - 1, entry));
        assert forall|j: int| 0 <= j < i - 1 implies (#[trigger] entries.drop_first()[j]).0@
            != entry.0@ by {
            assert(entries.drop_first()[j] == entries[j + 1]);
        }
        lemma_lookup_update(entries.drop_first(), i - 1, entry, symbol);
    } else {
        assert(after.drop_first() =~= entries.drop_first());
    }
}

/// A new last entry gives its symbol a level if it had none, and changes nothing else.
proof fn lemma_lookup_push(entries: Seq<(String, i8)>, entry: (String, i8), symbol: Seq<char>)
    ensures
        lookup(entries.push(entry), symbol) == if lookup(entries, symbol) is Some {
            lookup(entries, symbol)
        } else if symbol == entry.0@ {
            Some(entry.1)
        } else {
            None
        },
    decreases entries.len(),
{
    let after = entries.push(entry);
    if entries.len() > 0 {
        assert(after.drop_first() =~= entries.drop_first().push(entry));
        lemma_lookup_push(entries.drop_first(), entry, symbol);
    } else {
        assert(after.drop_first() =~= entries);
    }
}

impl View for OperatorTable {
    type V = Map<Seq<char>, i8>;

    closed spec fn view(&self) -> Map<Seq<char>, i8> {
        Map::new(
            |symbol: Seq<char>| lookup(self.entries@, symbol) is Some,
            |symbol: Seq<char>| lookup(self.entries@, symbol)->0,
        )
    }
}

impl OperatorTable {
    /// The empty table.
    pub fn new() -> (table: OperatorTable)
        ensures
            table@ == Map::<Seq<char>, i8>::empty(),
    {
        let table = OperatorTable { entries: Vec::new() };
        assert(table@ =~= Map::<Seq<char>, i8>::empty());
        table
    }

    /// The index of the first entry for `symbol`, if there is one.
    fn position(&self, symbol: &String) -> (found: Option<usize>)
        ensures
            match found {
                Some(i) => {
                    &&& i < self.entries.len()
                    &&& self.entries[i as int].0@ == symbol@
                    &&& forall|j: int| 0 <= j < i ==> (#[trigger] self.entries[j]).0@ != symbol@
                    &&& lookup(self.entries@, symbol@) == Some(self.entries[i as int].1)
                },
                None => lookup(self.entries@, symbol@) is None,
            },
    {
        let mut i: usize = 0;
        assert(self.entries@.skip(0) =~= self.entries@);
        while i < self.entries.len()
            invariant
                i <= self.entries.len(),
                forall|j: int| 0 <= j < i ==> (#[trigger] self.entries[j]).0@ != symbol@,
                lookup(self.entries@, symbol@) == lookup(self.entries@.skip(i as int), symbol@),
            decreases self.entries.len() - i,
        {
            let ghost rest = self.entries@.skip(i as int);
            assert(rest[0] == self.entries[i as int]);
            if self.entries[i].0 == *symbol {
                return Some(i);
            }
            assert(rest.drop_first() =~= self.entries@.skip(i + 1));
            i += 1;
        }
        None
    }

    /// The precedence level of `symbol`, if it is an operator.
    pub fn get(&self, symbol: &String) -> (level: Option<i8>)
        ensures
            level == if self@.contains_key(symbol@) {
                Some(self@[symbol@])
            } else {
                None::<i8>
            },
    {
        match self.position(symbol) {
            Some(i) => Some(self.entries[i].1),
            None => None,
        }
    }

    /// Makes `symbol` an operator of level `level`, and returns the level it
    /// had before, if it was one.
    pub fn insert(&mut self, symbol: String, level: i8) -> (before: Option<i8>)
        ensures
            final(self)@ == old(self)@.insert(symbol@, level),
            before == if old(self)@.contains_key(symbol@) {
                Some(old(self)@[symbol@])
            } else {
                None::<i8>
            },
    {
        let ghost prior = self.entries@;
        let ghost key = symbol@;
        match self.position(&symbol) {
            Some(i) => {
                let before = self.entries[i].1;
                self.entries.set(i, (symbol, level));
                proof {
                    assert forall|k: Seq<char>|
                        lookup(self.entries@, k) == if k == key {
                            Some(level)
                        } else {
                            lookup(prior, k)
                        } by {
                        lemma_lookup_update(prior, i as int, self.entries[i as int], k);
                    }
                    assert(self@ =~= old(self)@.insert(key, level));
                }
                Some(before)
            },
            None => {
                self.entries.push((symbol, level));
                proof {
                    assert forall|k: Seq<char>|
                        lookup(self.entries@, k) == if k == key {
                            Some(level)
                        } else {
                            lookup(prior, k)
                        } by {
                        lemma_lookup_push(prior, self.entries[prior.len() as int], k);
                    }
                    assert(self@ =~= old(self)@.insert(key, level));
                }
                None
            },
        }
    }
}

} // verus!
