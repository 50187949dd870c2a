//! Character classes, decimal numbers, identifiers and small string helpers
//! shared by the builtins and by variable expansion.
use vstd::prelude::*;

verus! {

/// An ASCII letter.
pub open spec fn is_alpha(c: char) -> bool {
    ('a' <= c && c <= 'z') || ('A' <= c && c <= 'Z')
}

/// An ASCII decimal digit.
pub open spec fn is_digit(c: char) -> bool {
    '0' <= c && c <= '9'
}

/// A character that may start an identifier: an ASCII letter or `_`.
pub open spec fn is_ident_start(c: char) -> bool {
    is_alpha(c) || c == '_'
}

/// A character that may continue an identifier: an ASCII letter, digit or `_`.
pub open spec fn is_ident_char(c: char) -> bool {
    is_alpha(c) || is_digit(c) || c == '_'
}

/// A shell identifier: a letter or `_`, then letters, digits and `_`.
pub open spec fn valid_identifier(s: Seq<char>) -> bool {
    &&& s.len() > 0
    &&& is_ident_start(s[0])
    &&& forall|i: int| 1 <= i < s.len() ==> is_ident_char(#[trigger] s[i])
}

/// Index of the first `c` in `s`, or `s.len()` when `s` holds no `c`.
pub open spec fn first_index_of(s: Seq<char>, c: char) -> int
    decreases s.len(),
{
    if s.len() == 0 {
        0
    } else if s[0] == c {
        0
    } else {
        1 + first_index_of(s.drop_first(), c)
    }
}

/// Length of the longest prefix of `s` made of identifier characters.
pub open spec fn ident_run(s: Seq<char>) -> int
    decreases s.len(),
{
    if s.len() > 0 && is_ident_char(s[0]) {
        1 + ident_run(s.drop_first())
    } else {
        0
    }
}

/// The value of a digit character.
pub open spec fn digit_value(c: char) -> int {
    (c as int) - ('0' as int)
}

/// The value of a string of decimal digits (most significant first).
pub open spec fn decimal_value(s: Seq<char>) -> int
    decreases s.len(),
{
    if s.len() == 0 {
        0
    } else {
        decimal_value(s.drop_last()) * 10 + digit_value(s.last())
    }
}

pub open spec fn all_digits(s: Seq<char>) -> bool {
    forall|i: int| 0 <= i < s.len() ==> is_digit(#[trigger] s[i])
}

/// `s` without one leading `+`, if it has one.
pub open spec fn without_plus(s: Seq<char>) -> Seq<char> {
    if s.len() > 0 && s[0] == '+' {
        s.drop_first()
    } else {
        s
    }
}

/// What `str::parse::<usize>` gives for `s`: an optional `+`, then at least
/// one ASCII digit, with a value that fits.
pub open spec fn parse_usize_spec(s: Seq<char>) -> Option<usize> {
    let d = without_plus(s);
    if d.len() > 0 && all_digits(d) && decimal_value(d) <= usize::MAX {
        Some(decimal_value(d) as usize)
    } else {
        None
    }
}

/// What `str::parse::<i32>` gives for `s`: an optional sign, then at least
/// one ASCII digit, with a value in range.
pub open spec fn parse_i32_spec(s: Seq<char>) -> Option<i32> {
    if s.len() > 0 && s[0] == '-' {
        let d = s.drop_first();
        if d.len() > 0 && all_digits(d) && decimal_value(d) <= 0x8000_0000 {
            Some((-decimal_value(d)) as i32)
        } else {
            None
        }
    } else {
        let d = without_plus(s);
        if d.len() > 0 && all_digits(d) && decimal_value(d) <= 0x7fff_ffff {
            Some(decimal_value(d) as i32)
        } else {
            None
        }
    }
}

/// The strings of `parts`, with `sep` between neighbours.
pub open spec fn join(parts: Seq<Seq<char>>, sep: Seq<char>) -> Seq<char>
    decreases parts.len(),
{
    if parts.len() == 0 {
        Seq::empty()
    } else if parts.len() == 1 {
        parts[0]
    } else {
        join(parts.drop_last(), sep) + sep + parts.last()
    }
}

/// The views of a vector of strings.
pub open spec fn views(v: Seq<String>) -> Seq<Seq<char>> {
    v.map_values(|s: String| s@)
}

pub proof fn lemma_first_index_of(s: Seq<char>, c: char)
    ensures
        0 <= first_index_of(s, c) <= s.len(),
        forall|j: int| 0 <= j < first_index_of(s, c) ==> s[j] != c,
        first_index_of(s, c) < s.len() ==> s[first_index_of(s, c)] == c,
    decreases s.len(),
{
    if s.len() > 0 && s[0] != c {
        lemma_first_index_of(s.drop_first(), c);
        assert forall|j: int| 0 <= j < first_index_of(s, c) implies s[j] != c by {
            if j > 0 {
                assert(s[j] == s.drop_first()[j - 1]);
            }
        }
    }
}

pub proof fn lemma_ident_run(s: Seq<char>)
    ensures
        0 <= ident_run(s) <= s.len(),
        forall|j: int| 0 <= j < ident_run(s) ==> is_ident_char(#[trigger] s[j]),
        ident_run(s) < s.len() ==> !is_ident_char(s[ident_run(s)]),
    decreases s.len(),
{
    if s.len() > 0 && is_ident_char(s[0]) {
        lemma_ident_run(s.drop_first());
        assert forall|j: int| 0 <= j < ident_run(s) implies is_ident_char(#[trigger] s[j]) by {
            if j > 0 {
                assert(s[j] == s.drop_first()[j - 1]);
            }
        }
    }
}

proof fn lemma_decimal_prefix_le(s: Seq<char>, k: int)
    requires
        all_digits(s),
        0 <= k <= s.len(),
    ensures
        decimal_value(s.take(k)) <= decimal_value(s),
        0 <= decimal_value(s),
    decreases s.len(),
{
    if s.len() > 0 {
        assert(is_digit(s[s.len() - 1]));
        assert(all_digits(s.drop_last()));
        if k < s.len() {
            lemma_decimal_prefix_le(s.drop_last(), k);
            assert(s.take(k) =~= s.drop_last().take(k));
        } else {
            lemma_decimal_prefix_le(s.drop_last(), 0);
            assert(s.take(k) =~= s);
        }
    } else {
        assert(s.take(k) =~= s);
    }
}

pub fn is_ascii_alpha(c: char) -> (r: bool)
    ensures
        r == is_alpha(c),
{
    ('a' <= c && c <= 'z') || ('A' <= c && c <= 'Z')
}

pub fn is_ascii_digit(c: char) -> (r: bool)
    ensures
        r == is_digit(c),
{
    '0' <= c && c <= '9'
}

pub fn is_identifier_char(c: char) -> (r: bool)
    ensures
        r == is_ident_char(c),
{
    is_ascii_alpha(c) || is_ascii_digit(c) || c == '_'
}

pub fn is_identifier_start(c: char) -> (r: bool)
    ensures
        r == is_ident_start(c),
{
    is_ascii_alpha(c) || c == '_'
}

/// The characters of `s`.
pub fn char_vec(s: &str) -> (v: Vec<char>)
    ensures
        v@ == s@,
{
    let mut v: Vec<char> = Vec::new();
    for c in it: s.chars()
        invariant
            v@ == it.seq().take(it.index() as int),
    {
        v.push(c);
    }
    v
}

/// The string made of `v[lo..hi]`.
pub fn string_of(v: &Vec<char>, lo: usize, hi: usize) -> (r: String)
    requires
        lo <= hi <= v.len(),
    ensures
        r@ == v@.subrange(lo as int, hi as int),
{
    let mut r = String::new();
    let mut i = lo;
    while i < hi
        invariant
            lo <= i <= hi <= v.len(),
            r@ == v@.subrange(lo as int, i as int),
        decreases hi - i,
    {
        r.push(v[i]);
        assert(v@.subrange(lo as int, i + 1) =~= v@.subrange(lo as int, i as int).push(v@[i as int]));
        i = i + 1;
    }
    r
}

/// Whether two strings hold the same characters.
pub fn str_eq(a: &str, b: &str) -> (r: bool)
    ensures
        r == (a@ == b@),
{
    let va = char_vec(a);
    let vb = char_vec(b);
    if va.len() != vb.len() {
        return false;
    }
    let mut i: usize = 0;
    while i < va.len()
        invariant
            va@ == a@,
            vb@ == b@,
            va.len() == vb.len(),
            i <= va.len(),
            forall|j: int| 0 <= j < i ==> va@[j] == vb@[j],
        decreases va.len() - i,
    {
        if va[i] != vb[i] {
            return false;
        }
        i = i + 1;
    }
    assert(va@ =~= vb@);
    true
}

/// Whether `s` begins with `c`.
pub fn starts_with_char(s: &str, c: char) -> (r: bool)
    ensures
        r == (s@.len() > 0 && s@[0] == c),
{
    let v = char_vec(s);
    v.len() > 0 && v[0] == c
}

/// The index of the first `c` in `v[from..]`, or `v.len()` when there is none.
pub fn find_char(v: &Vec<char>, from: usize, c: char) -> (r: usize)
    requires
        from <= v.len(),
    ensures
        r == from + first_index_of(v@.skip(from as int), c),
        from <= r <= v.len(),
{
    let ghost rest = v@.skip(from as int);
    let mut i: usize = from;
    while i < v.len()
        invariant
            from <= i <= v.len(),
            rest == v@.skip(from as int),
            forall|j: int| from <= j < i ==> v@[j] != c,
        decreases v.len() - i,
    {
        if v[i] == c {
            proof {
                lemma_first_index_of(rest, c);
                let k = first_index_of(rest, c);
                assert(rest[i - from] == c);
                if k < i - from {
                    assert(rest[k] == v@[from + k]);
                }
            }
            return i;
        }
        i = i + 1;
    }
    proof {
        lemma_first_index_of(rest, c);
        let k = first_index_of(rest, c);
        if k < rest.len() {
            assert(rest[k] == v@[from + k]);
        }
    }
    i
}

/// The end of the run of identifier characters that starts at `v[from]`.
pub fn ident_end(v: &Vec<char>, from: usize) -> (r: usize)
    requires
        from <= v.len(),
    ensures
        r == from + ident_run(v@.skip(from as int)),
        from <= r <= v.len(),
{
    let ghost rest = v@.skip(from as int);
    let mut i: usize = from;
    while i < v.len()
        invariant
            from <= i <= v.len(),
            rest == v@.skip(from as int),
            forall|j: int| from <= j < i ==> is_ident_char(#[trigger] v@[j]),
        decreases v.len() - i,
    {
        if !is_identifier_char(v[i]) {
            proof {
                lemma_ident_run(rest);
                let k = ident_run(rest);
                assert(rest[i - from] == v@[i as int]);
                if k < i - from {
                    assert(rest[k] == v@[from + k]);
                }
                if k > i - from {
                    assert(is_ident_char(rest[i - from]));
                }
            }
            return i;
        }
        i = i + 1;
    }
    proof {
        lemma_ident_run(rest);
        let k = ident_run(rest);
        if k < rest.len() {
            assert(rest[k] == v@[from + k]);
        }
    }
    i
}

/// Whether `s` is a shell identifier.
pub fn is_valid_identifier(name: &str) -> (r: bool)
    ensures
        r == valid_identifier(name@),
{
    let v = char_vec(name);
    if v.len() == 0 || !is_identifier_start(v[0]) {
        return false;
    }
    let mut i: usize = 1;
    while i < v.len()
        invariant
            v@ == name@,
            1 <= i <= v.len(),
            forall|j: int| 1 <= j < i ==> is_ident_char(#[trigger] v@[j]),
        decreases v.len() - i,
    {
        if !is_identifier_char(v[i]) {
            assert(!is_ident_char(name@[i as int]));
            return false;
        }
        i = i + 1;
    }
    true
}

/// Reads the decimal digits `v[lo..]` into a number no larger than `limit`,
/// or gives `None` where a character is no digit or the value exceeds `limit`.
fn digits_value(v: &Vec<char>, lo: usize, limit: u64) -> (r: Option<u64>)
    requires
        lo <= v.len(),
    ensures
        ({
            let d = v@.skip(lo as int);
            match r {
                Some(n) => all_digits(d) && n == decimal_value(d) && n <= limit,
                None => !(all_digits(d) && decimal_value(d) <= limit),
            }
        }),
{
    let ghost d = v@.skip(lo as int);
    let mut acc: u128 = 0;
    let mut i = lo;
    while i < v.len()
        invariant
            lo <= i <= v.len(),
            d == v@.skip(lo as int),
            all_digits(d.take(i - lo)),
            acc == decimal_value(d.take(i - lo)),
            acc <= limit,
        decreases v.len() - i,
    {
        let c = v[i];
        if !is_ascii_digit(c) {
            assert(d[i - lo] == c);
            return None;
        }
        let digit = (c as u32) - ('0' as u32);
        assert(d.take(i - lo + 1).drop_last() =~= d.take(i - lo));
        assert(d.take(i - lo + 1).last() == c);
        acc = acc * 10 + digit as u128;
        assert(all_digits(d.take(i - lo + 1))) by {
            assert forall|j: int| 0 <= j < i - lo + 1 implies is_digit(#[trigger] d.take(i - lo + 1)[j]) by {
                if j < i - lo {
                    assert(d.take(i - lo + 1)[j] == d.take(i - lo)[j]);
                }
            }
        }
        if acc > limit as u128 {
            proof {
                if all_digits(d) {
                    lemma_decimal_prefix_le(d, i - lo + 1);
                }
            }
            return None;
        }
        i = i + 1;
    }
    assert(d.take(i - lo) =~= d);
    Some(acc as u64)
}

/// `str::parse::<usize>`, as the standard library documents it.
pub fn parse_usize(s: &str) -> (r: Option<usize>)
    ensures
        r == parse_usize_spec(s@),
{
    let v = char_vec(s);
    let lo: usize = if v.len() > 0 && v[0] == '+' { 1 } else { 0 };
    proof {
        if lo == 1 {
            assert(v@.skip(1) =~= without_plus(s@));
        } else {
            assert(v@.skip(0) =~= without_plus(s@));
        }
    }
    if lo == v.len() {
        return None;
    }
    match digits_value(&v, lo, usize::MAX as u64) {
        Some(n) => Some(n as usize),
        None => None,
    }
}

/// `str::parse::<i32>`, as the standard library documents it.
pub fn parse_i32(s: &str) -> (r: Option<i32>)
    ensures
        r == parse_i32_spec(s@),
{
    let v = char_vec(s);
    if v.len() > 0 && v[0] == '-' {
        assert(v@.skip(1) =~= s@.drop_first());
        if v.len() == 1 {
            return None;
        }
        match digits_value(&v, 1, 0x8000_0000) {
            Some(n) => Some((0 - (n as i64)) as i32),
            None => None,
        }
    } else {
        let lo: usize = if v.len() > 0 && v[0] == '+' { 1 } else { 0 };
        proof {
            if lo == 1 {
                assert(v@.skip(1) =~= without_plus(s@));
            } else {
                assert(v@.skip(0) =~= without_plus(s@));
            }
        }
        if lo == v.len() {
            return None;
        }
        match digits_value(&v, lo, 0x7fff_ffff) {
            Some(n) => Some(n as i32),
            None => None,
        }
    }
}

/// The strings of `parts` joined by `sep`.
pub fn join_strings(parts: &Vec<String>, sep: &str) -> (r: String)
    ensures
        r@ == join(views(parts@), sep@),
{
    let mut r = String::new();
    let ghost p = views(parts@);
    let mut i: usize = 0;
    while i < parts.len()
        invariant
            i <= parts.len(),
            p == views(parts@),
            p.len() == parts.len(),
            r@ == join(p.take(i as int), sep@),
        decreases parts.len() - i,
    {
        assert(p.take(i + 1).drop_last() =~= p.take(i as int));
        assert(p.take(i + 1).last() == parts@[i as int]@);
        if i > 0 {
            r.append(sep);
        }
        r.append(parts[i].as_str());
        proof {
            if i == 0 {
                assert(p.take(0) =~= Seq::<Seq<char>>::empty());
                assert(r@ =~= p.take(1)[0]);
            }
        }
        i = i + 1;
    }
    assert(p.take(parts.len() as int) =~= p);
    r
}

/// `String::push` from std, which vstd leaves unspecified: as its documentation
/// says, it appends `ch` to the end of the string, so the characters after the
/// call are the old ones followed by `ch`.
pub assume_specification[ String::push ](s: &mut String, ch: char)
    ensures
        final(s)@ == old(s)@.push(ch),
;

} // verus!
