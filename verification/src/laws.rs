//! Properties of the builtins and of expansion that hold for every input.
use vstd::prelude::*;

use crate::action::{ActionView, HistoryRequestView};
use crate::builtin::{builtin_named, same_ignoring_ascii_case, Builtin};
use crate::command::{
    apply, complete_line, complete_missing, declare_invalid, declare_line, exec_outcome, line,
    split_assignment, CommandView,
};
use crate::text::{
    all_digits, decimal_value, first_index_of, ident_run, is_digit, is_ident_char,
    lemma_first_index_of, lemma_ident_run, valid_identifier,
};
use crate::variable::{expand_text, lookup};

verus! {

/// A builtin's own name selects it.
pub proof fn law_builtin_name_selects_it(b: Builtin)
    ensures
        builtin_named(b.name_of()) == Some(b),
{
    let n = b.name_of();
    match b {
        Builtin::Cd => {},
        Builtin::Complete => {
            assert(!same_ignoring_ascii_case(n, Builtin::Cd.name_of()));
        },
        Builtin::Declare => {
            assert(!same_ignoring_ascii_case(n, Builtin::Cd.name_of()));
            assert(!same_ignoring_ascii_case(n, Builtin::Complete.name_of()));
        },
        Builtin::Echo => {
            assert(!same_ignoring_ascii_case(n, Builtin::Cd.name_of()));
            assert(!same_ignoring_ascii_case(n, Builtin::Complete.name_of()));
            assert(!same_ignoring_ascii_case(n, Builtin::Declare.name_of()));
        },
        Builtin::Exit => {
            assert(!same_ignoring_ascii_case(n, Builtin::Echo.name_of())) by {
                assert(lower_code_differs(n[1], Builtin::Echo.name_of()[1]));
            }
        },
        Builtin::History => {},
        Builtin::Jobs => {
            assert(!same_ignoring_ascii_case(n, Builtin::Echo.name_of())) by {
                assert(lower_code_differs(n[0], Builtin::Echo.name_of()[0]));
            }
            assert(!same_ignoring_ascii_case(n, Builtin::Exit.name_of())) by {
                assert(lower_code_differs(n[0], Builtin::Exit.name_of()[0]));
            }
        },
        Builtin::Pwd => {},
        Builtin::Type => {
            assert(!same_ignoring_ascii_case(n, Builtin::Echo.name_of())) by {
                assert(lower_code_differs(n[0], Builtin::Echo.name_of()[0]));
            }
            assert(!same_ignoring_ascii_case(n, Builtin::Exit.name_of())) by {
                assert(lower_code_differs(n[0], Builtin::Exit.name_of()[0]));
            }
            assert(!same_ignoring_ascii_case(n, Builtin::Jobs.name_of())) by {
                assert(lower_code_differs(n[0], Builtin::Jobs.name_of()[0]));
            }
        },
    }
}

spec fn lower_code_differs(a: char, b: char) -> bool {
    crate::builtin::lower_code(a) != crate::builtin::lower_code(b)
}

/// Which builtin a name selects does not depend on the case of its ASCII letters.
pub proof fn law_builtin_ignores_case(s: Seq<char>, t: Seq<char>)
    requires
        same_ignoring_ascii_case(s, t),
    ensures
        builtin_named(s) == builtin_named(t),
{
    assert forall|n: Seq<char>| same_ignoring_ascii_case(s, n) == same_ignoring_ascii_case(t, n) by {
        if same_ignoring_ascii_case(s, n) {
            assert forall|i: int| 0 <= i < t.len() implies crate::builtin::lower_code(#[trigger] t[i])
                == crate::builtin::lower_code(n[i]) by {
                assert(crate::builtin::lower_code(s[i]) == crate::builtin::lower_code(t[i]));
            }
        }
        if same_ignoring_ascii_case(t, n) {
            assert forall|i: int| 0 <= i < s.len() implies crate::builtin::lower_code(#[trigger] s[i])
                == crate::builtin::lower_code(n[i]) by {
                assert(crate::builtin::lower_code(s[i]) == crate::builtin::lower_code(t[i]));
            }
        }
    }
}

/// Text with no `$` comes out of expansion unchanged, in front of whatever follows it.
pub proof fn law_expand_passes_plain_text(p: Seq<char>, s: Seq<char>, vars: Map<Seq<char>, Seq<char>>)
    requires
        !p.contains('$'),
    ensures
        expand_text(p + s, vars) == p + expand_text(s, vars),
    decreases p.len(),
{
    if p.len() > 0 {
        assert(p[0] != '$');
        assert((p + s)[0] == p[0]);
        assert((p + s).drop_first() =~= p.drop_first() + s);
        assert(!p.drop_first().contains('$')) by {
            if p.drop_first().contains('$') {
                let i = choose|i: int| 0 <= i < p.drop_first().len() && p.drop_first()[i] == '$';
                assert(p[i + 1] == '$');
            }
        }
        law_expand_passes_plain_text(p.drop_first(), s, vars);
        assert(seq![p[0]] + (p.drop_first() + expand_text(s, vars)) =~= p + expand_text(s, vars));
    } else {
        assert(p + s =~= s);
        assert(p + expand_text(s, vars) =~= expand_text(s, vars));
    }
}

/// Text with no `$` is its own expansion.
pub proof fn law_expand_plain_text(s: Seq<char>, vars: Map<Seq<char>, Seq<char>>)
    requires
        !s.contains('$'),
    ensures
        expand_text(s, vars) == s,
{
    law_expand_passes_plain_text(s, Seq::empty(), vars);
    assert(s + Seq::<char>::empty() =~= s);
}

/// `$NAME`, for an identifier `NAME`, expands to the variable's value, or to
/// nothing when it is unset.
pub proof fn law_expand_variable(name: Seq<char>, vars: Map<Seq<char>, Seq<char>>)
    requires
        valid_identifier(name),
    ensures
        expand_text(seq!['$'] + name, vars) == lookup(vars, name),
{
    let s = seq!['$'] + name;
    assert(s[0] == '$');
    assert(s[1] == name[0]);
    assert(s.drop_first() =~= name);
    lemma_ident_run(name);
    let n = ident_run(name);
    if n < name.len() {
        assert(is_ident_char(name[n]));
    }
    assert(n == name.len());
    assert(expand_text(Seq::<char>::empty(), vars) == Seq::<char>::empty());
    assert(s.subrange(1, n + 1) =~= name);
    assert(s.skip(n + 1) =~= Seq::<char>::empty());
    assert(lookup(vars, name) + Seq::<char>::empty() =~= lookup(vars, name));
}

/// `${NAME}`, for any `NAME` without `}`, expands to the variable's value, or
/// to nothing when it is unset.
pub proof fn law_expand_braced(name: Seq<char>, vars: Map<Seq<char>, Seq<char>>)
    requires
        !name.contains('}'),
    ensures
        expand_text(seq!['$', '{'] + name + seq!['}'], vars) == lookup(vars, name),
{
    let s = seq!['$', '{'] + name + seq!['}'];
    assert(s[0] == '$');
    assert(s[1] == '{');
    let body = s.skip(2);
    assert(body =~= name + seq!['}']);
    lemma_first_index_of(body, '}');
    let k = first_index_of(body, '}');
    if k < name.len() {
        assert(body[k] == name[k]);
    }
    assert(body[name.len() as int] == '}');
    assert(k == name.len());
    assert(body.take(k) =~= name);
    assert(body.skip(k + 1) =~= Seq::<char>::empty());
    assert(expand_text(Seq::<char>::empty(), vars) == Seq::<char>::empty());
    assert(lookup(vars, name) + Seq::<char>::empty() =~= lookup(vars, name));
}

/// `NAME=VALUE` splits at the `=` after an identifier.
proof fn lemma_split_identifier_assignment(name: Seq<char>, value: Seq<char>)
    requires
        valid_identifier(name),
    ensures
        split_assignment(name + seq!['='] + value) == (name, value),
{
    let s = name + seq!['='] + value;
    lemma_first_index_of(s, '=');
    let k = first_index_of(s, '=');
    if k < name.len() {
        assert(s[k] == name[k]);
        if k > 0 {
            assert(is_ident_char(name[k]));
        }
    }
    assert(s[name.len() as int] == '=');
    assert(k == name.len());
    assert(s.take(k) =~= name);
    assert(s.skip(k + 1) =~= value);
}

/// After `declare NAME=VALUE` for an identifier `NAME`, `declare -p NAME`
/// writes `declare -- NAME="VALUE"` to the output stream and nothing to the
/// error stream, whatever `NAME` held before.
pub proof fn law_declare_then_print(
    set: CommandView,
    query: CommandView,
    name: Seq<char>,
    value: Seq<char>,
)
    requires
        builtin_named(set.name) == Some(Builtin::Declare),
        set.args == seq![name + seq!['='] + value],
        valid_identifier(name),
        builtin_named(query.name) == Some(Builtin::Declare),
        query.args == seq!["-p"@, name],
        query.variables == apply(set, exec_outcome(set)).variables,
    ensures
        exec_outcome(query).out == line(declare_line(name, value)),
        exec_outcome(query).err == Seq::<char>::empty(),
        exec_outcome(query).variables == query.variables,
{
    lemma_split_identifier_assignment(name, value);
}

/// After `complete -C PATH CMD`, `complete -p CMD` writes
/// `complete -C 'PATH' CMD` to the output stream and nothing to the error stream.
pub proof fn law_complete_then_print(
    reg: CommandView,
    query: CommandView,
    path: Seq<char>,
    cmd: Seq<char>,
)
    requires
        builtin_named(reg.name) == Some(Builtin::Complete),
        reg.args == seq!["-C"@, path, cmd],
        builtin_named(query.name) == Some(Builtin::Complete),
        query.args == seq!["-p"@, cmd],
        query.completions == apply(reg, exec_outcome(reg)).completions,
    ensures
        exec_outcome(query).out == line(complete_line(path, cmd)),
        exec_outcome(query).err == Seq::<char>::empty(),
{
    lemma_flags_differ();
}

proof fn lemma_flags_differ()
    ensures
        "-p"@ != "-r"@,
        "-p"@ != "-C"@,
        "-r"@ != "-C"@,
{
    reveal_strlit("-p");
    reveal_strlit("-r");
    reveal_strlit("-C");
    assert("-p"@[1] != "-r"@[1]);
    assert("-p"@[1] != "-C"@[1]);
    assert("-r"@[1] != "-C"@[1]);
}

/// After `complete -r CMD`, `complete -p CMD` reports that `CMD` has no
/// completion, on the error stream only.
pub proof fn law_remove_then_print(rm: CommandView, query: CommandView, cmd: Seq<char>)
    requires
        builtin_named(rm.name) == Some(Builtin::Complete),
        rm.args == seq!["-r"@, cmd],
        builtin_named(query.name) == Some(Builtin::Complete),
        query.args == seq!["-p"@, cmd],
        query.completions == apply(rm, exec_outcome(rm)).completions,
    ensures
        exec_outcome(query).out == Seq::<char>::empty(),
        exec_outcome(query).err == line(complete_missing(cmd)),
{
    lemma_flags_differ();
}

/// Once a variable is set, reading it gives the value set; other variables
/// read as before.
pub proof fn law_set_then_lookup(
    vars: Map<Seq<char>, Seq<char>>,
    name: Seq<char>,
    value: Seq<char>,
    other: Seq<char>,
)
    ensures
        lookup(vars.insert(name, value), name) == value,
        other != name ==> lookup(vars.insert(name, value), other) == lookup(vars, other),
{
}

/// After `declare NAME=VALUE` for an identifier `NAME`, `$NAME` expands to `VALUE`.
pub proof fn law_declare_then_expand(set: CommandView, name: Seq<char>, value: Seq<char>)
    requires
        builtin_named(set.name) == Some(Builtin::Declare),
        set.args == seq![name + seq!['='] + value],
        valid_identifier(name),
    ensures
        expand_text(seq!['$'] + name, apply(set, exec_outcome(set)).variables) == value,
{
    lemma_split_identifier_assignment(name, value);
    law_expand_variable(name, apply(set, exec_outcome(set)).variables);
}

/// A builtin leaves the command's name, arguments and redirection as they were,
/// and only ever adds to its streams.
pub proof fn law_execute_keeps_command(c: CommandView)
    ensures
        apply(c, exec_outcome(c)).name == c.name,
        apply(c, exec_outcome(c)).args == c.args,
        apply(c, exec_outcome(c)).redirected == c.redirected,
        apply(c, exec_outcome(c)).output.subrange(0, c.output.len() as int) == c.output,
        apply(c, exec_outcome(c)).err.subrange(0, c.err.len() as int) == c.err,
{
    let o = exec_outcome(c);
    assert((c.output + o.out).subrange(0, c.output.len() as int) =~= c.output);
    assert((c.err + o.err).subrange(0, c.err.len() as int) =~= c.err);
}

/// A braced reference ends at its first `}`: `${NAME}` followed by any text
/// expands to the variable's value followed by the expansion of that text.
pub proof fn law_expand_braced_then(
    name: Seq<char>,
    t: Seq<char>,
    vars: Map<Seq<char>, Seq<char>>,
)
    requires
        !name.contains('}'),
    ensures
        expand_text(seq!['$', '{'] + name + seq!['}'] + t, vars) == lookup(vars, name)
            + expand_text(t, vars),
{
    let s = seq!['$', '{'] + name + seq!['}'] + t;
    assert(s[0] == '$');
    assert(s[1] == '{');
    let body = s.skip(2);
    assert(body =~= name + seq!['}'] + t);
    lemma_first_index_of(body, '}');
    let k = first_index_of(body, '}');
    if k < name.len() {
        assert(body[k] == name[k]);
    }
    assert(body[name.len() as int] == '}');
    assert(k == name.len());
    assert(body.take(k) =~= name);
    assert(body.skip(k + 1) =~= t);
}

/// A bare reference `$NAME` takes the whole identifier: followed by text that
/// does not continue the identifier, it expands to the variable's value
/// followed by the expansion of that text.
pub proof fn law_expand_variable_then(
    name: Seq<char>,
    t: Seq<char>,
    vars: Map<Seq<char>, Seq<char>>,
)
    requires
        valid_identifier(name),
        t.len() == 0 || !is_ident_char(t[0]),
    ensures
        expand_text(seq!['$'] + name + t, vars) == lookup(vars, name) + expand_text(t, vars),
{
    let s = seq!['$'] + name + t;
    assert(s[0] == '$');
    assert(s[1] == name[0]);
    let r = s.drop_first();
    assert(r =~= name + t);
    lemma_ident_run(r);
    let n = ident_run(r);
    if n < name.len() {
        assert(r[n] == name[n]);
        if n > 0 {
            assert(is_ident_char(name[n]));
        }
    }
    if n > name.len() {
        assert(r[name.len() as int] == t[0]);
        assert(is_ident_char(r[name.len() as int]));
    }
    assert(n == name.len());
    assert(s.subrange(1, n + 1) =~= name);
    assert(s.skip(n + 1) =~= t);
}

/// `NAME=VALUE` splits at the `=` when `NAME` holds none.
proof fn lemma_split_at_first_equals(name: Seq<char>, value: Seq<char>)
    requires
        !name.contains('='),
    ensures
        split_assignment(name + seq!['='] + value) == (name, value),
{
    let s = name + seq!['='] + value;
    lemma_first_index_of(s, '=');
    let k = first_index_of(s, '=');
    if k < name.len() {
        assert(s[k] == name[k]);
    }
    assert(s[name.len() as int] == '=');
    assert(k == name.len());
    assert(s.take(k) =~= name);
    assert(s.skip(k + 1) =~= value);
}

/// `declare NAME=VALUE` whose `NAME` is no identifier changes no variable and
/// writes `declare: `NAME=VALUE': not a valid identifier` to the error stream only.
pub proof fn law_declare_rejects_non_identifier(c: CommandView, name: Seq<char>, value: Seq<char>)
    requires
        builtin_named(c.name) == Some(Builtin::Declare),
        !name.contains('='),
        !valid_identifier(name),
        c.args == seq![name + seq!['='] + value],
    ensures
        exec_outcome(c).variables == c.variables,
        exec_outcome(c).completions == c.completions,
        exec_outcome(c).err == line(declare_invalid(name + seq!['='] + value)),
        exec_outcome(c).out == Seq::<char>::empty(),
        exec_outcome(c).action == ActionView::Finished,
{
    lemma_split_at_first_equals(name, value);
}

/// `declare NAME` with no `=` and a `NAME` that is no identifier changes no
/// variable and reports the argument on the error stream only.
pub proof fn law_declare_rejects_bare_non_identifier(c: CommandView, name: Seq<char>)
    requires
        builtin_named(c.name) == Some(Builtin::Declare),
        !name.contains('='),
        !valid_identifier(name),
        c.args == seq![name],
    ensures
        exec_outcome(c).variables == c.variables,
        exec_outcome(c).err == line(declare_invalid(name)),
        exec_outcome(c).out == Seq::<char>::empty(),
{
    lemma_first_index_of(name, '=');
    let k = first_index_of(name, '=');
    if k < name.len() {
        assert(name.contains('='));
    }
}

/// `declare NAME=VALUE` for an identifier `NAME` sets that variable to
/// `VALUE`, leaves every other variable as it was, and writes nothing.
pub proof fn law_declare_sets_identifier(c: CommandView, name: Seq<char>, value: Seq<char>)
    requires
        builtin_named(c.name) == Some(Builtin::Declare),
        valid_identifier(name),
        c.args == seq![name + seq!['='] + value],
    ensures
        exec_outcome(c).variables.dom().contains(name),
        exec_outcome(c).variables[name] == value,
        forall|k: Seq<char>|
            k != name ==> (#[trigger] exec_outcome(c).variables.dom().contains(k)
                == c.variables.dom().contains(k)),
        forall|k: Seq<char>|
            k != name && c.variables.dom().contains(k) ==> #[trigger] exec_outcome(c).variables[k]
                == c.variables[k],
        exec_outcome(c).err == Seq::<char>::empty(),
        exec_outcome(c).out == Seq::<char>::empty(),
{
    lemma_split_identifier_assignment(name, value);
}

proof fn lemma_history_flags()
    ensures
        "-c"@.len() > 0 && "-c"@[0] == '-',
        "-r"@.len() > 0 && "-r"@[0] == '-',
        "-w"@.len() > 0 && "-w"@[0] == '-',
        "-a"@.len() > 0 && "-a"@[0] == '-',
{
    reveal_strlit("-c");
    reveal_strlit("-r");
    reveal_strlit("-w");
    reveal_strlit("-a");
}

/// `history N`, for any string of decimal digits whose value `n` fits in a
/// `usize`, asks to print the last `n` entries and writes nothing.
pub proof fn law_history_count(c: CommandView, s: Seq<char>)
    requires
        builtin_named(c.name) == Some(Builtin::History),
        c.args == seq![s],
        s.len() > 0,
        all_digits(s),
        decimal_value(s) <= usize::MAX,
    ensures
        exec_outcome(c).action == ActionView::History(
            HistoryRequestView::Print(Some(decimal_value(s) as usize)),
        ),
        exec_outcome(c).out == Seq::<char>::empty(),
        exec_outcome(c).err == Seq::<char>::empty(),
{
    lemma_history_flags();
    assert(is_digit(s[0]));
    assert(s != "-c"@ && s != "-r"@ && s != "-w"@ && s != "-a"@);
}

/// `complete -C PATH CMD` registers `PATH` for `CMD` and leaves every other
/// command's registration as it was; it writes nothing.
pub proof fn law_complete_register_keeps_others(c: CommandView, path: Seq<char>, cmd: Seq<char>)
    requires
        builtin_named(c.name) == Some(Builtin::Complete),
        c.args == seq!["-C"@, path, cmd],
    ensures
        exec_outcome(c).completions.dom().contains(cmd),
        exec_outcome(c).completions[cmd] == path,
        forall|k: Seq<char>|
            k != cmd ==> (#[trigger] exec_outcome(c).completions.dom().contains(k)
                == c.completions.dom().contains(k)),
        forall|k: Seq<char>|
            k != cmd && c.completions.dom().contains(k) ==> #[trigger] exec_outcome(
                c,
            ).completions[k] == c.completions[k],
        exec_outcome(c).variables == c.variables,
        exec_outcome(c).out == Seq::<char>::empty(),
        exec_outcome(c).err == Seq::<char>::empty(),
{
}

/// `complete -r CMD` forgets `CMD`'s registration and leaves every other
/// command's registration as it was; it writes nothing.
pub proof fn law_complete_remove_keeps_others(c: CommandView, cmd: Seq<char>)
    requires
        builtin_named(c.name) == Some(Builtin::Complete),
        c.args == seq!["-r"@, cmd],
    ensures
        !exec_outcome(c).completions.dom().contains(cmd),
        forall|k: Seq<char>|
            k != cmd ==> (#[trigger] exec_outcome(c).completions.dom().contains(k)
                == c.completions.dom().contains(k)),
        forall|k: Seq<char>|
            k != cmd && c.completions.dom().contains(k) ==> #[trigger] exec_outcome(
                c,
            ).completions[k] == c.completions[k],
        exec_outcome(c).out == Seq::<char>::empty(),
        exec_outcome(c).err == Seq::<char>::empty(),
{
    lemma_flags_differ();
}

/// `type S`, where `S` spells a builtin's name in any ASCII case, writes
/// `S is a shell builtin` to the output stream and leaves nothing to look up.
pub proof fn law_type_reports_builtin(c: CommandView, s: Seq<char>, b: Builtin)
    requires
        builtin_named(c.name) == Some(Builtin::Type),
        c.args.len() > 0,
        c.args[0] == s,
        same_ignoring_ascii_case(s, b.name_of()),
    ensures
        exec_outcome(c).out == line(s + " is a shell builtin"@),
        exec_outcome(c).err == Seq::<char>::empty(),
        exec_outcome(c).action == ActionView::Finished,
{
    law_builtin_ignores_case(s, b.name_of());
    law_builtin_name_selects_it(b);
}

/// `type S`, where `S` spells no builtin's name, writes nothing and asks for
/// `S` to be looked up in `PATH`.
pub proof fn law_type_looks_up_other_names(c: CommandView, s: Seq<char>)
    requires
        builtin_named(c.name) == Some(Builtin::Type),
        c.args.len() > 0,
        c.args[0] == s,
        forall|b: Builtin| !same_ignoring_ascii_case(s, #[trigger] b.name_of()),
    ensures
        exec_outcome(c).out == Seq::<char>::empty(),
        exec_outcome(c).err == Seq::<char>::empty(),
        exec_outcome(c).action == ActionView::LocateType(s),
{
    assert(!same_ignoring_ascii_case(s, Builtin::Cd.name_of()));
    assert(!same_ignoring_ascii_case(s, Builtin::Complete.name_of()));
    assert(!same_ignoring_ascii_case(s, Builtin::Declare.name_of()));
    assert(!same_ignoring_ascii_case(s, Builtin::Echo.name_of()));
    assert(!same_ignoring_ascii_case(s, Builtin::Exit.name_of()));
    assert(!same_ignoring_ascii_case(s, Builtin::History.name_of()));
    assert(!same_ignoring_ascii_case(s, Builtin::Jobs.name_of()));
    assert(!same_ignoring_ascii_case(s, Builtin::Pwd.name_of()));
    assert(!same_ignoring_ascii_case(s, Builtin::Type.name_of()));
}

} // verus!
