//! Shell variables and `$NAME` / `${NAME}` expansion.
use vstd::prelude::*;

use crate::table::StrMap;
use crate::text::{
    char_vec, find_char, first_index_of, ident_end, ident_run, is_ident_start,
    is_identifier_start, lemma_first_index_of, lemma_ident_run, string_of,
};

verus! {

/// The value of `name` in `vars`, or the empty string when it is unset.
pub open spec fn lookup(vars: Map<Seq<char>, Seq<char>>, name: Seq<char>) -> Seq<char> {
    if vars.dom().contains(name) {
        vars[name]
    } else {
        Seq::empty()
    }
}

/// `s` with each variable reference replaced by the variable's value.
///
/// A `$` followed by `{` names everything up to the next `}` (or to the end
/// of the text); a `$` followed by a letter or `_` names the longest run of
/// letters, digits and `_`; any other `$` stands for itself. Unset variables
/// expand to nothing.
pub open spec fn expand_text(s: Seq<char>, vars: Map<Seq<char>, Seq<char>>) -> Seq<char>
    decreases s.len(),
{
    if s.len() == 0 {
        Seq::empty()
    } else if s[0] != '$' {
        seq![s[0]] + expand_text(s.drop_first(), vars)
    } else if s.len() >= 2 && s[1] == '{' {
        let body = s.skip(2);
        let k = first_index_of(body, '}');
        proof {
            lemma_first_index_of(body, '}');
        }
        lookup(vars, body.take(k)) + if k < body.len() {
            expand_text(body.skip(k + 1), vars)
        } else {
            Seq::empty()
        }
    } else if s.len() >= 2 && is_ident_start(s[1]) {
        let n = ident_run(s.drop_first());
        proof {
            lemma_ident_run(s.drop_first());
        }
        lookup(vars, s.subrange(1, n + 1)) + expand_text(s.skip(n + 1), vars)
    } else {
        seq!['$'] + expand_text(s.drop_first(), vars)
    }
}

/// The shell's variables: a map from names to values.
pub struct Variables {
    table: StrMap,
}

impl View for Variables {
    type V = Map<Seq<char>, Seq<char>>;

    closed spec fn view(&self) -> Map<Seq<char>, Seq<char>> {
        self.table.map()
    }
}

impl Variables {
    /// No variable is set.
    pub fn new() -> (v: Self)
        ensures
            v@ == Map::<Seq<char>, Seq<char>>::empty(),
    {
        Variables { table: StrMap::new() }
    }

    /// Sets `name` to `value`, replacing any earlier value.
    pub fn set(&mut self, name: String, value: String)
        ensures
            final(self)@ == old(self)@.insert(name@, value@),
    {
        self.table.insert(name, value);
    }

    /// The value of `name`, if it is set.
    pub fn get(&self, name: &str) -> (r: Option<String>)
        ensures
            match r {
                Some(v) => self@.dom().contains(name@) && v@ == self@[name@],
                None => !self@.dom().contains(name@),
            },
    {
        self.table.get(name)
    }

    /// Appends the value of `name` (nothing when it is unset) to `out`.
    fn append_value(&self, out: &mut String, name: &str)
        ensures
            final(out)@ == old(out)@ + lookup(self@, name@),
    {
        match self.get(name) {
            Some(val) => out.append(val.as_str()),
            None => {
                assert(old(out)@ + Seq::<char>::empty() =~= old(out)@);
            },
        }
    }

    /// Replaces the variable references in `s` by their values.
    pub fn expand(&self, s: &str) -> (r: String)
        ensures
            r@ == expand_text(s@, self@),
    {
        let v = char_vec(s);
        let n = v.len();
        let mut out = String::new();
        let mut i: usize = 0;
        assert(v@.skip(0) =~= v@);
        while i < n
            invariant
                v@ == s@,
                n == v.len(),
                i <= n,
                out@ + expand_text(v@.skip(i as int), self@) == expand_text(v@, self@),
            decreases n - i,
        {
            let ghost rest = v@.skip(i as int);
            let ghost before = out@;
            assert(rest[0] == v@[i as int]);
            let c = v[i];
            if c != '$' {
                out.push(c);
                assert(rest.drop_first() =~= v@.skip(i + 1));
                assert(out@ + expand_text(v@.skip(i + 1), self@) =~= before + expand_text(rest, self@));
                i = i + 1;
            } else if i + 1 < n && v[i + 1] == '{' {
                assert(rest[1] == v@[i + 1]);
                let j = find_char(&v, i + 2, '}');
                let ghost body = rest.skip(2);
                assert(body =~= v@.skip(i + 2));
                let name = string_of(&v, i + 2, j);
                assert(name@ =~= body.take(j - (i + 2)));
                self.append_value(&mut out, name.as_str());
                if j < n {
                    assert(body.skip(j - (i + 2) + 1) =~= v@.skip(j + 1));
                    i = j + 1;
                } else {
                    assert(v@.skip(n as int) =~= Seq::<char>::empty());
                    assert(out@ + Seq::<char>::empty() =~= out@);
                    i = n;
                }
                assert(out@ + expand_text(v@.skip(i as int), self@) =~= before + expand_text(rest, self@));
            } else if i + 1 < n && is_identifier_start(v[i + 1]) {
                assert(rest[1] == v@[i + 1]);
                let j = ident_end(&v, i + 1);
                assert(rest.drop_first() =~= v@.skip(i + 1));
                let name = string_of(&v, i + 1, j);
                assert(name@ =~= rest.subrange(1, j - i));
                self.append_value(&mut out, name.as_str());
                assert(rest.skip(j - i) =~= v@.skip(j as int));
                i = j;
                assert(out@ + expand_text(v@.skip(i as int), self@) =~= before + expand_text(rest, self@));
            } else {
                proof {
                    if i + 1 < n {
                        assert(rest[1] == v@[i + 1]);
                    }
                }
                out.push('$');
                assert(rest.drop_first() =~= v@.skip(i + 1));
                assert(out@ + expand_text(v@.skip(i + 1), self@) =~= before + expand_text(rest, self@));
                i = i + 1;
            }
        }
        assert(v@.skip(n as int) =~= Seq::<char>::empty());
        assert(out@ + Seq::<char>::empty() =~= out@);
        out
    }
}

} // verus!
