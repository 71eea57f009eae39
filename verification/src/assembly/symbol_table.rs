//! The table of labels: each name is entered once and looked up by name.

use crate::assembly::symbol::{Symbol, SymbolView};
use vstd::prelude::*;

verus! {

/// A map from label names to symbols in which no name occurs twice.
pub struct SymbolTable {
    table: Vec<Symbol>,
}

/// Refusal to enter a name a second time, with the symbol that was refused.
#[derive(Debug)]
pub enum SymbolTableErr {
    AlreadyExists(Symbol),
}

impl View for SymbolTable {
    type V = Map<Seq<char>, SymbolView>;

    closed spec fn view(&self) -> Map<Seq<char>, SymbolView> {
        Map::new(
            |name: Seq<char>| self.index_of(name) is Some,
            |name: Seq<char>| self.table@[self.index_of(name).unwrap()]@,
        )
    }
}

impl SymbolTable {
    #[verifier::type_invariant]
    spec fn names_are_unique(&self) -> bool {
        forall|i: int, j: int|
            0 <= i < j < self.table@.len() ==> self.table@[i].token.lexeme@
                != self.table@[j].token.lexeme@
    }

    /// The position of the entry with a name, if there is one.
    spec fn index_of(&self, name: Seq<char>) -> Option<int> {
        if exists|i: int| 0 <= i < self.table@.len() && self.table@[i].token.lexeme@ == name {
            Some(choose|i: int| 0 <= i < self.table@.len() && self.table@[i].token.lexeme@ == name)
        } else {
            None
        }
    }

    /// An empty table.
    pub fn new() -> (table: Self)
        ensures
            table@ == Map::<Seq<char>, SymbolView>::empty(),
    {
        let table = Self { table: Vec::new() };
        assert(table@ =~= Map::<Seq<char>, SymbolView>::empty());
        table
    }

    fn position(&self, string: &String) -> (found: Option<usize>)
        ensures
            match found {
                Some(i) => i < self.table@.len() && self.table@[i as int].token.lexeme@ == string@
                    && self.index_of(string@) == Some(i as int),
                None => self.index_of(string@) is None,
            },
    {
        let mut i: usize = 0;
        while i < self.table.len()
            invariant
                i <= self.table@.len(),
                forall|j: int| 0 <= j < i ==> self.table@[j].token.lexeme@ != string@,
            decreases self.table@.len() - i,
        {
            if self.table[i].token.lexeme == *string {
                proof {
                    use_type_invariant(self);
                }
                return Some(i);
            }
            i += 1;
        }
        None
    }

    /// Whether a name is in the table.
    pub fn contains(&self, string: &String) -> (found: bool)
        ensures
            found == self@.contains_key(string@),
    {
        self.position(string).is_some()
    }

    /// Enters a symbol under its name. A name that is already in the table is
    /// refused and the table stays as it was.
    pub fn insert(&mut self, symbol: &Symbol) -> (entered: Result<(), SymbolTableErr>)
        ensures
            old(self)@.contains_key(symbol.token.lexeme@) ==> entered == Err::<(), SymbolTableErr>(
                SymbolTableErr::AlreadyExists(*symbol),
            ) && final(self)@ == old(self)@,
            !old(self)@.contains_key(symbol.token.lexeme@) ==> entered is Ok && final(self)@
                == old(self)@.insert(symbol.token.lexeme@, symbol@),
    {
        proof {
            use_type_invariant(&*self);
        }
        match self.position(&symbol.token.lexeme) {
            Some(_) => Err(SymbolTableErr::AlreadyExists(symbol.clone())),
            None => {
                let ghost before = *self;
                let mut entries: Vec<Symbol> = Vec::new();
                core::mem::swap(&mut self.table, &mut entries);
                entries.push(symbol.clone());
                core::mem::swap(&mut self.table, &mut entries);
                proof {
                    let name = symbol.token.lexeme@;
                    let last = before.table@.len() as int;
                    assert(self.table@[last] == *symbol);
                    assert forall|i: int| 0 <= i < last implies self.table@[i]
                        == before.table@[i] by {}
                    assert forall|other: Seq<char>|
                        self@.contains_key(other) <==> #[trigger] before@.insert(
                            name,
                            symbol@,
                        ).contains_key(other) by {
                        if before.index_of(other) is Some {
                            let i = before.index_of(other).unwrap();
                            assert(self.table@[i].token.lexeme@ == other);
                        }
                        if other == name {
                            assert(self.table@[last].token.lexeme@ == other);
                        }
                    }
                    assert forall|other: Seq<char>| self@.contains_key(other) implies self@[other]
                        == before@.insert(name, symbol@)[other] by {
                        let i = self.index_of(other).unwrap();
                        if other != name {
                            assert(i < last);
                            assert(before.table@[i].token.lexeme@ == other);
                            let j = before.index_of(other).unwrap();
                            assert(self.table@[j].token.lexeme@ == other);
                            assert(i == j);
                        }
                    }
                    assert(self@ =~= before@.insert(name, symbol@));
                }
                Ok(())
            },
        }
    }

    /// The symbol entered under a name, if there is one.
    pub fn get(&self, string: &String) -> (found: Option<&Symbol>)
        ensures
            found is Some <==> self@.contains_key(string@),
            found matches Some(symbol) ==> symbol@ == self@[string@],
    {
        match self.position(string) {
            Some(i) => Some(&self.table[i]),
            None => None,
        }
    }

    /// Looks up a name that is known to be in the table.
    pub fn get_expect(&self, string: &String) -> (symbol: &Symbol)
        requires
            self@.contains_key(string@),
        ensures
            symbol@ == self@[string@],
    {
        match self.position(string) {
            Some(i) => &self.table[i],
            None => {
                proof {
                    assert(false);
                }
                &self.table[0]
            },
        }
    }
}

} // verus!
