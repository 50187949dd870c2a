//! The state that the builtins share: completions and variables.
use vstd::prelude::*;

use crate::completion::Completions;
use crate::variable::Variables;

verus! {

/// The shell's state that commands read and change.
pub struct Shell {
    pub completions: Completions,
    pub variables: Variables,
}

impl Shell {
    /// A shell with no completions and no variables.
    pub fn new() -> (s: Self)
        ensures
            s.completions@ == Map::<Seq<char>, Seq<char>>::empty(),
            s.variables@ == Map::<Seq<char>, Seq<char>>::empty(),
    {
        Shell { completions: Completions::new(), variables: Variables::new() }
    }
}

} // verus!
