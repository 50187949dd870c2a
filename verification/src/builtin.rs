//! The commands that the shell runs itself, and how a command name selects one.
use vstd::prelude::*;

use crate::text::char_vec;

verus! {

/// The code of `c` with ASCII upper-case letters taken to lower case.
pub open spec fn lower_code(c: char) -> int {
    if 'A' <= c && c <= 'Z' {
        (c as int) + 32
    } else {
        c as int
    }
}

/// `a` and `b` are equal when ASCII letters are compared without case.
pub open spec fn same_ignoring_ascii_case(a: Seq<char>, b: Seq<char>) -> bool {
    &&& a.len() == b.len()
    &&& forall|i: int| 0 <= i < a.len() ==> lower_code(#[trigger] a[i]) == lower_code(b[i])
}

/// A command that the shell runs itself.
#[derive(Clone, Copy, Debug, PartialEq, Eq, Structural)]
pub enum Builtin {
    Cd,
    Complete,
    Declare,
    Echo,
    Exit,
    History,
    Jobs,
    Pwd,
    Type,
}

impl Builtin {
    /// The builtin's name as it is written and shown: the variant's name.
    pub open spec fn name_of(self) -> Seq<char> {
        match self {
            Builtin::Cd => seq!['C', 'd'],
            Builtin::Complete => seq!['C', 'o', 'm', 'p', 'l', 'e', 't', 'e'],
            Builtin::Declare => seq!['D', 'e', 'c', 'l', 'a', 'r', 'e'],
            Builtin::Echo => seq!['E', 'c', 'h', 'o'],
            Builtin::Exit => seq!['E', 'x', 'i', 't'],
            Builtin::History => seq!['H', 'i', 's', 't', 'o', 'r', 'y'],
            Builtin::Jobs => seq!['J', 'o', 'b', 's'],
            Builtin::Pwd => seq!['P', 'w', 'd'],
            Builtin::Type => seq!['T', 'y', 'p', 'e'],
        }
    }

    /// The name, as text.
    pub fn name(&self) -> (r: &'static str)
        ensures
            r@ == self.name_of(),
    {
        match self {
            Builtin::Cd => {
                proof {
                    reveal_strlit("Cd");
                }
                "Cd"
            },
            Builtin::Complete => {
                proof {
                    reveal_strlit("Complete");
                }
                "Complete"
            },
            Builtin::Declare => {
                proof {
                    reveal_strlit("Declare");
                }
                "Declare"
            },
            Builtin::Echo => {
                proof {
                    reveal_strlit("Echo");
                }
                "Echo"
            },
            Builtin::Exit => {
                proof {
                    reveal_strlit("Exit");
                }
                "Exit"
            },
            Builtin::History => {
                proof {
                    reveal_strlit("History");
                }
                "History"
            },
            Builtin::Jobs => {
                proof {
                    reveal_strlit("Jobs");
                }
                "Jobs"
            },
            Builtin::Pwd => {
                proof {
                    reveal_strlit("Pwd");
                }
                "Pwd"
            },
            Builtin::Type => {
                proof {
                    reveal_strlit("Type");
                }
                "Type"
            },
        }
    }
}

/// The builtin that `s` names, ASCII case ignored, if any.
pub open spec fn builtin_named(s: Seq<char>) -> Option<Builtin> {
    if same_ignoring_ascii_case(s, Builtin::Cd.name_of()) {
        Some(Builtin::Cd)
    } else if same_ignoring_ascii_case(s, Builtin::Complete.name_of()) {
        Some(Builtin::Complete)
    } else if same_ignoring_ascii_case(s, Builtin::Declare.name_of()) {
        Some(Builtin::Declare)
    } else if same_ignoring_ascii_case(s, Builtin::Echo.name_of()) {
        Some(Builtin::Echo)
    } else if same_ignoring_ascii_case(s, Builtin::Exit.name_of()) {
        Some(Builtin::Exit)
    } else if same_ignoring_ascii_case(s, Builtin::History.name_of()) {
        Some(Builtin::History)
    } else if same_ignoring_ascii_case(s, Builtin::Jobs.name_of()) {
        Some(Builtin::Jobs)
    } else if same_ignoring_ascii_case(s, Builtin::Pwd.name_of()) {
        Some(Builtin::Pwd)
    } else if same_ignoring_ascii_case(s, Builtin::Type.name_of()) {
        Some(Builtin::Type)
    } else {
        None
    }
}

fn lower_char_code(c: char) -> (r: u32)
    ensures
        r == lower_code(c),
{
    if 'A' <= c && c <= 'Z' {
        (c as u32) + 32
    } else {
        c as u32
    }
}

/// Whether `v` spells `name`, ASCII case ignored.
fn spells(v: &Vec<char>, name: &str) -> (r: bool)
    ensures
        r == same_ignoring_ascii_case(v@, name@),
{
    let w = char_vec(name);
    if v.len() != w.len() {
        return false;
    }
    let mut i: usize = 0;
    while i < v.len()
        invariant
            w@ == name@,
            v.len() == w.len(),
            i <= v.len(),
            forall|j: int| 0 <= j < i ==> lower_code(#[trigger] v@[j]) == lower_code(w@[j]),
        decreases v.len() - i,
    {
        if lower_char_code(v[i]) != lower_char_code(w[i]) {
            return false;
        }
        i = i + 1;
    }
    true
}

impl Builtin {
    /// The builtin named `s`, ASCII case ignored: `echo`, `ECHO` and `Echo`
    /// all name [`Builtin::Echo`].
    pub fn from_name(s: &str) -> (r: Option<Builtin>)
        ensures
            r == builtin_named(s@),
    {
        let v = char_vec(s);
        if spells(&v, Builtin::Cd.name()) {
            Some(Builtin::Cd)
        } else if spells(&v, Builtin::Complete.name()) {
            Some(Builtin::Complete)
        } else if spells(&v, Builtin::Declare.name()) {
            Some(Builtin::Declare)
        } else if spells(&v, Builtin::Echo.name()) {
            Some(Builtin::Echo)
        } else if spells(&v, Builtin::Exit.name()) {
            Some(Builtin::Exit)
        } else if spells(&v, Builtin::History.name()) {
            Some(Builtin::History)
        } else if spells(&v, Builtin::Jobs.name()) {
            Some(Builtin::Jobs)
        } else if spells(&v, Builtin::Pwd.name()) {
            Some(Builtin::Pwd)
        } else if spells(&v, Builtin::Type.name()) {
            Some(Builtin::Type)
        } else {
            None
        }
    }
}

} // verus!
