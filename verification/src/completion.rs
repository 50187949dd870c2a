//! Completion scripts registered for commands with `complete -C`.
use vstd::prelude::*;

use crate::table::StrMap;

verus! {

/// A map from command names to the completion script registered for each.
pub struct Completions {
    table: StrMap,
}

impl View for Completions {
    type V = Map<Seq<char>, Seq<char>>;

    closed spec fn view(&self) -> Map<Seq<char>, Seq<char>> {
        self.table.map()
    }
}

impl Completions {
    /// No command has a completion script.
    pub fn new() -> (c: Self)
        ensures
            c@ == Map::<Seq<char>, Seq<char>>::empty(),
    {
        Completions { table: StrMap::new() }
    }

    /// Registers `script` for `command`, replacing any earlier one.
    pub fn register(&mut self, command: String, script: String)
        ensures
            final(self)@ == old(self)@.insert(command@, script@),
    {
        self.table.insert(command, script);
    }

    /// The script registered for `command`, if any.
    pub fn get(&self, command: &str) -> (r: Option<String>)
        ensures
            match r {
                Some(s) => self@.dom().contains(command@) && s@ == self@[command@],
                None => !self@.dom().contains(command@),
            },
    {
        self.table.get(command)
    }

    /// Forgets the script registered for `command`; nothing happens when there is none.
    pub fn remove(&mut self, command: &str)
        ensures
            final(self)@ == old(self)@.remove(command@),
    {
        self.table.remove(command);
    }
}

} // verus!
