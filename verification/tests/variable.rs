use shellcore::completion::Completions;
use shellcore::variable::Variables;

fn vars(pairs: &[(&str, &str)]) -> Variables {
    let mut v = Variables::new();
    for (k, val) in pairs {
        v.set((*k).to_string(), (*val).to_string());
    }
    v
}

#[test]
fn expand_replaces_known_variable() {
    let v = vars(&[("FOO", "bar")]);
    assert_eq!(v.expand("$FOO"), "bar");
}

#[test]
fn expand_replaces_unset_with_empty() {
    let v = Variables::new();
    assert_eq!(v.expand("[$MISSING]"), "[]");
}

#[test]
fn expand_stops_at_non_identifier_char() {
    let v = vars(&[("FOO", "bar")]);
    assert_eq!(v.expand("$FOO/$FOO.txt"), "bar/bar.txt");
}

#[test]
fn expand_leaves_dollar_without_identifier_literal() {
    let v = Variables::new();
    assert_eq!(v.expand("price: $5"), "price: $5");
    assert_eq!(v.expand("end$"), "end$");
}

#[test]
fn expand_handles_underscore_start() {
    let v = vars(&[("_X", "ok")]);
    assert_eq!(v.expand("$_X"), "ok");
}

#[test]
fn expand_multiple_in_one_string() {
    let v = vars(&[("A", "1"), ("B", "2")]);
    assert_eq!(v.expand("$A $B"), "1 2");
}

#[test]
fn expand_brace_form_appends_literal_suffix() {
    let v = vars(&[("Var1", "foo")]);
    assert_eq!(v.expand("${Var1}end"), "fooend");
}

#[test]
fn expand_brace_form_in_middle() {
    let v = vars(&[("Item", "widget")]);
    assert_eq!(v.expand("stock_${Item}_id"), "stock_widget_id");
}

#[test]
fn expand_mixed_brace_and_bare() {
    let v = vars(&[("A", "1"), ("B", "2")]);
    assert_eq!(v.expand("${A}-$B"), "1-2");
}

// Further cases.

#[test]
fn expand_unterminated_brace_takes_the_rest() {
    let v = vars(&[("abc", "X")]);
    assert_eq!(v.expand("${abc"), "X");
    assert_eq!(v.expand("a${ab"), "a");
}

#[test]
fn expand_dollar_corner_cases() {
    let v = vars(&[("", "E")]);
    assert_eq!(v.expand("$"), "$");
    assert_eq!(v.expand("$$"), "$$");
    assert_eq!(v.expand("${}"), "E");
    assert_eq!(v.expand("$-x"), "$-x");
    assert_eq!(v.expand(""), "");
}

#[test]
fn expand_brace_name_may_hold_any_character() {
    let v = vars(&[("a b", "sp")]);
    assert_eq!(v.expand("${a b}!"), "sp!");
}

#[test]
fn expand_plain_text_is_unchanged() {
    let v = vars(&[("A", "1")]);
    assert_eq!(v.expand("no references here, A"), "no references here, A");
    assert_eq!(v.expand("héllo wörld"), "héllo wörld");
}

#[test]
fn expand_value_is_not_expanded_again() {
    let v = vars(&[("A", "$B"), ("B", "no")]);
    assert_eq!(v.expand("$A"), "$B");
}

#[test]
fn variables_set_get_overwrite() {
    let mut v = Variables::new();
    assert_eq!(v.get("x"), None);
    v.set("x".to_string(), "1".to_string());
    v.set("y".to_string(), "2".to_string());
    v.set("x".to_string(), "3".to_string());
    assert_eq!(v.get("x"), Some("3".to_string()));
    assert_eq!(v.get("y"), Some("2".to_string()));
}

#[test]
fn completions_register_get_remove() {
    let mut c = Completions::new();
    assert_eq!(c.get("git"), None);
    c.register("git".to_string(), "/a".to_string());
    c.register("cargo".to_string(), "/b".to_string());
    c.register("git".to_string(), "/c".to_string());
    assert_eq!(c.get("git"), Some("/c".to_string()));
    c.remove("git");
    assert_eq!(c.get("git"), None);
    assert_eq!(c.get("cargo"), Some("/b".to_string()));
    c.remove("absent");
    assert_eq!(c.get("cargo"), Some("/b".to_string()));
}
