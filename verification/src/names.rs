use vstd::prelude::*;

verus! {

/// A case transform inherited from a container-level rename-all rule.
///
/// A field name is assumed to be written in snake case, a variant name in
/// Pascal case; each rule rewrites such a name into the announced style.
#[derive(Clone, Copy, Debug, PartialEq, Eq, Structural)]
pub enum CaseRule {
    Lower,
    Upper,
    Pascal,
    Camel,
    Snake,
    ScreamingSnake,
    Kebab,
    ScreamingKebab,
}

/// The upper-case counterpart of an ASCII letter; any other character is unchanged.
pub open spec fn spec_upper_char(c: char) -> char {
    match c {
        'a' => 'A', 'b' => 'B', 'c' => 'C', 'd' => 'D', 'e' => 'E', 'f' => 'F',
        'g' => 'G', 'h' => 'H', 'i' => 'I', 'j' => 'J', 'k' => 'K', 'l' => 'L',
        'm' => 'M', 'n' => 'N', 'o' => 'O', 'p' => 'P', 'q' => 'Q', 'r' => 'R',
        's' => 'S', 't' => 'T', 'u' => 'U', 'v' => 'V', 'w' => 'W', 'x' => 'X',
        'y' => 'Y', 'z' => 'Z',
        _ => c,
    }
}

/// The lower-case counterpart of an ASCII letter; any other character is unchanged.
pub open spec fn spec_lower_char(c: char) -> char {
    match c {
        'A' => 'a', 'B' => 'b', 'C' => 'c', 'D' => 'd', 'E' => 'e', 'F' => 'f',
        'G' => 'g', 'H' => 'h', 'I' => 'i', 'J' => 'j', 'K' => 'k', 'L' => 'l',
        'M' => 'm', 'N' => 'n', 'O' => 'o', 'P' => 'p', 'Q' => 'q', 'R' => 'r',
        'S' => 's', 'T' => 't', 'U' => 'u', 'V' => 'v', 'W' => 'w', 'X' => 'x',
        'Y' => 'y', 'Z' => 'z',
        _ => c,
    }
}

/// Whether a character is an upper-case ASCII letter.
pub open spec fn spec_is_upper(c: char) -> bool {
    spec_lower_char(c) != c
}

fn upper_char(c: char) -> (r: char)
    ensures
        r == spec_upper_char(c),
{
    match c {
        'a' => 'A', 'b' => 'B', 'c' => 'C', 'd' => 'D', 'e' => 'E', 'f' => 'F',
        'g' => 'G', 'h' => 'H', 'i' => 'I', 'j' => 'J', 'k' => 'K', 'l' => 'L',
        'm' => 'M', 'n' => 'N', 'o' => 'O', 'p' => 'P', 'q' => 'Q', 'r' => 'R',
        's' => 'S', 't' => 'T', 'u' => 'U', 'v' => 'V', 'w' => 'W', 'x' => 'X',
        'y' => 'Y', 'z' => 'Z',
        _ => c,
    }
}

fn lower_char(c: char) -> (r: char)
    ensures
        r == spec_lower_char(c),
{
    match c {
        'A' => 'a', 'B' => 'b', 'C' => 'c', 'D' => 'd', 'E' => 'e', 'F' => 'f',
        'G' => 'g', 'H' => 'h', 'I' => 'i', 'J' => 'j', 'K' => 'k', 'L' => 'l',
        'M' => 'm', 'N' => 'n', 'O' => 'o', 'P' => 'p', 'Q' => 'q', 'R' => 'r',
        'S' => 's', 'T' => 't', 'U' => 'u', 'V' => 'v', 'W' => 'w', 'X' => 'x',
        'Y' => 'y', 'Z' => 'z',
        _ => c,
    }
}

fn is_upper(c: char) -> (r: bool)
    ensures
        r == spec_is_upper(c),
{
    let l = lower_char(c);
    l != c
}

/// Relies on String::push: it appends the given character at the end.
#[verifier::external_body]
fn push_char(s: &mut String, c: char)
    ensures
        final(s)@ == old(s)@.push(c),
{
    s.push(c);
}

/// Appends a period to a name under construction.
pub fn push_dot(s: &mut String)
    ensures
        final(s)@ == old(s)@.push('.'),
{
    push_char(s, '.');
}

/// Every character lowered.
pub open spec fn spec_lower_seq(s: Seq<char>) -> Seq<char> {
    Seq::new(s.len(), |i: int| spec_lower_char(s[i]))
}

/// Every character uppered.
pub open spec fn spec_upper_seq(s: Seq<char>) -> Seq<char> {
    Seq::new(s.len(), |i: int| spec_upper_char(s[i]))
}

/// Every underscore replaced by a dash.
pub open spec fn spec_dash_seq(s: Seq<char>) -> Seq<char> {
    Seq::new(s.len(), |i: int| if s[i] == '_' { '-' } else { s[i] })
}

/// The first character lowered, the rest unchanged.
pub open spec fn spec_lower_first(s: Seq<char>) -> Seq<char> {
    if s.len() == 0 {
        s
    } else {
        seq![spec_lower_char(s[0])] + s.skip(1)
    }
}

/// A snake-case name rewritten segment by segment into Pascal case: an
/// underscore is dropped and capitalizes the character that follows it.
pub open spec fn spec_pascal_of_snake(s: Seq<char>, capitalize: bool) -> Seq<char>
    decreases s.len(),
{
    if s.len() == 0 {
        Seq::empty()
    } else if s[0] == '_' {
        spec_pascal_of_snake(s.skip(1), true)
    } else if capitalize {
        seq![spec_upper_char(s[0])] + spec_pascal_of_snake(s.skip(1), false)
    } else {
        seq![s[0]] + spec_pascal_of_snake(s.skip(1), false)
    }
}

/// A Pascal-case name rewritten into snake case: an upper-case letter that
/// does not open the name is preceded by an underscore, and every letter is
/// lowered.
pub open spec fn spec_snake_of_pascal(s: Seq<char>, first: bool) -> Seq<char>
    decreases s.len(),
{
    if s.len() == 0 {
        Seq::empty()
    } else if !first && spec_is_upper(s[0]) {
        seq!['_', spec_lower_char(s[0])] + spec_snake_of_pascal(s.skip(1), false)
    } else {
        seq![spec_lower_char(s[0])] + spec_snake_of_pascal(s.skip(1), false)
    }
}

fn lower_string(s: &str) -> (r: String)
    ensures
        r@ == spec_lower_seq(s@),
{
    let n = s.unicode_len();
    let mut out = String::new();
    let mut i: usize = 0;
    while i < n
        invariant
            n == s@.len(),
            i <= n,
            out@.len() == i,
            forall|j: int| 0 <= j < i ==> out@[j] == spec_lower_char(s@[j]),
        decreases n - i,
    {
        let c = lower_char(s.get_char(i));
        push_char(&mut out, c);
        i += 1;
    }
    proof {
        assert(out@ =~= spec_lower_seq(s@));
    }
    out
}

fn upper_string(s: &str) -> (r: String)
    ensures
        r@ == spec_upper_seq(s@),
{
    let n = s.unicode_len();
    let mut out = String::new();
    let mut i: usize = 0;
    while i < n
        invariant
            n == s@.len(),
            i <= n,
            out@.len() == i,
            forall|j: int| 0 <= j < i ==> out@[j] == spec_upper_char(s@[j]),
        decreases n - i,
    {
        let c = upper_char(s.get_char(i));
        push_char(&mut out, c);
        i += 1;
    }
    proof {
        assert(out@ =~= spec_upper_seq(s@));
    }
    out
}

fn dash_string(s: &str) -> (r: String)
    ensures
        r@ == spec_dash_seq(s@),
{
    let n = s.unicode_len();
    let mut out = String::new();
    let mut i: usize = 0;
    while i < n
        invariant
            n == s@.len(),
            i <= n,
            out@.len() == i,
            forall|j: int| 0 <= j < i ==> out@[j] == (if s@[j] == '_' { '-' } else { s@[j] }),
        decreases n - i,
    {
        let c = s.get_char(i);
        let d = if c == '_' { '-' } else { c };
        push_char(&mut out, d);
        i += 1;
    }
    proof {
        assert(out@ =~= spec_dash_seq(s@));
    }
    out
}

fn lower_first_string(s: &str) -> (r: String)
    ensures
        r@ == spec_lower_first(s@),
{
    let n = s.unicode_len();
    let mut out = String::new();
    let mut i: usize = 0;
    while i < n
        invariant
            n == s@.len(),
            i <= n,
            out@.len() == i,
            forall|j: int| 0 <= j < i ==> out@[j] == (if j == 0 { spec_lower_char(s@[0]) } else { s@[j] }),
        decreases n - i,
    {
        let c = s.get_char(i);
        let d = if i == 0 { lower_char(c) } else { c };
        push_char(&mut out, d);
        i += 1;
    }
    proof {
        if s@.len() > 0 {
            assert(out@ =~= spec_lower_first(s@));
        } else {
            assert(out@ =~= s@);
        }
    }
    out
}

fn pascal_of_snake_string(s: &str) -> (r: String)
    ensures
        r@ == spec_pascal_of_snake(s@, true),
{
    let n = s.unicode_len();
    let mut out = String::new();
    let mut capitalize = true;
    let mut i: usize = 0;
    proof {
        assert(s@.skip(0) =~= s@);
        assert(out@ + spec_pascal_of_snake(s@, true) =~= spec_pascal_of_snake(s@, true));
    }
    while i < n
        invariant
            n == s@.len(),
            i <= n,
            spec_pascal_of_snake(s@, true) == out@ + spec_pascal_of_snake(s@.skip(i as int), capitalize),
        decreases n - i,
    {
        let ghost out0 = out@;
        let ghost cap0 = capitalize;
        let ghost rest = s@.skip(i as int);
        proof {
            assert(rest.len() == n - i);
            assert(rest[0] == s@[i as int]);
            assert(rest.skip(1) =~= s@.skip(i as int + 1));
        }
        let c = s.get_char(i);
        if c == '_' {
            capitalize = true;
        } else if capitalize {
            push_char(&mut out, upper_char(c));
            capitalize = false;
        } else {
            push_char(&mut out, c);
        }
        proof {
            let rest1 = s@.skip(i as int + 1);
            if rest[0] == '_' {
                assert(spec_pascal_of_snake(rest, cap0) == spec_pascal_of_snake(rest1, true));
            } else if cap0 {
                assert(spec_pascal_of_snake(rest, cap0) == seq![spec_upper_char(rest[0])]
                    + spec_pascal_of_snake(rest1, false));
                assert(out@ + spec_pascal_of_snake(rest1, false) =~= out0 + (seq![
                    spec_upper_char(rest[0]),
                ] + spec_pascal_of_snake(rest1, false)));
            } else {
                assert(spec_pascal_of_snake(rest, cap0) == seq![rest[0]] + spec_pascal_of_snake(
                    rest1,
                    false,
                ));
                assert(out@ + spec_pascal_of_snake(rest1, false) =~= out0 + (seq![rest[0]]
                    + spec_pascal_of_snake(rest1, false)));
            }
        }
        i += 1;
    }
    proof {
        assert(s@.skip(n as int) =~= Seq::<char>::empty());
        assert(out@ + Seq::<char>::empty() =~= out@);
    }
    out
}

fn snake_of_pascal_string(s: &str) -> (r: String)
    ensures
        r@ == spec_snake_of_pascal(s@, true),
{
    let n = s.unicode_len();
    let mut out = String::new();
    let mut i: usize = 0;
    proof {
        assert(s@.skip(0) =~= s@);
        assert(out@ + spec_snake_of_pascal(s@, true) =~= spec_snake_of_pascal(s@, true));
    }
    while i < n
        invariant
            n == s@.len(),
            i <= n,
            spec_snake_of_pascal(s@, true) == out@ + spec_snake_of_pascal(
                s@.skip(i as int),
                i == 0,
            ),
        decreases n - i,
    {
        let ghost out0 = out@;
        let ghost first0 = i == 0;
        let ghost rest = s@.skip(i as int);
        proof {
            assert(rest.len() == n - i);
            assert(rest[0] == s@[i as int]);
            assert(rest.skip(1) =~= s@.skip(i as int + 1));
        }
        let c = s.get_char(i);
        if i > 0 && is_upper(c) {
            push_char(&mut out, '_');
            push_char(&mut out, lower_char(c));
        } else {
            push_char(&mut out, lower_char(c));
        }
        proof {
            let rest1 = s@.skip(i as int + 1);
            if !first0 && spec_is_upper(rest[0]) {
                assert(spec_snake_of_pascal(rest, first0) == seq!['_', spec_lower_char(rest[0])]
                    + spec_snake_of_pascal(rest1, false));
                assert(out@ + spec_snake_of_pascal(rest1, false) =~= out0 + (seq![
                    '_',
                    spec_lower_char(rest[0]),
                ] + spec_snake_of_pascal(rest1, false)));
            } else {
                assert(spec_snake_of_pascal(rest, first0) == seq![spec_lower_char(rest[0])]
                    + spec_snake_of_pascal(rest1, false));
                assert(out@ + spec_snake_of_pascal(rest1, false) =~= out0 + (seq![
                    spec_lower_char(rest[0]),
                ] + spec_snake_of_pascal(rest1, false)));
            }
        }
        i += 1;
    }
    proof {
        assert(s@.skip(n as int) =~= Seq::<char>::empty());
        assert(out@ + Seq::<char>::empty() =~= out@);
    }
    out
}

/// A raw-identifier prefix, if present, stripped from the front of a name.
pub open spec fn spec_strip_raw(s: Seq<char>) -> Seq<char> {
    if s.len() >= 2 && s[0] == 'r' && s[1] == '#' {
        s.skip(2)
    } else {
        s
    }
}

/// Strips a raw-identifier prefix from a keyword-escaped name.
pub fn strip_raw(s: &str) -> (r: String)
    ensures
        r@ == spec_strip_raw(s@),
{
    let n = s.unicode_len();
    if n >= 2 {
        let c0 = s.get_char(0);
        let c1 = s.get_char(1);
        if c0 == 'r' && c1 == '#' {
            let rest = s.substring_char(2, n);
            proof {
                assert(rest@ =~= s@.skip(2));
            }
            return rest.to_owned();
        }
    }
    s.to_owned()
}

/// The case transform a rule applies to a (snake-case) field name.
pub open spec fn spec_apply_field_case(rule: CaseRule, s: Seq<char>) -> Seq<char> {
    match rule {
        CaseRule::Lower => spec_lower_seq(s),
        CaseRule::Upper => spec_upper_seq(s),
        CaseRule::Pascal => spec_pascal_of_snake(s, true),
        CaseRule::Camel => spec_lower_first(spec_pascal_of_snake(s, true)),
        CaseRule::Snake => s,
        CaseRule::ScreamingSnake => spec_upper_seq(s),
        CaseRule::Kebab => spec_dash_seq(s),
        CaseRule::ScreamingKebab => spec_dash_seq(spec_upper_seq(s)),
    }
}

/// The case transform a rule applies to a (Pascal-case) variant name.
pub open spec fn spec_apply_variant_case(rule: CaseRule, s: Seq<char>) -> Seq<char> {
    match rule {
        CaseRule::Lower => spec_lower_seq(s),
        CaseRule::Upper => spec_upper_seq(s),
        CaseRule::Pascal => s,
        CaseRule::Camel => spec_lower_first(s),
        CaseRule::Snake => spec_snake_of_pascal(s, true),
        CaseRule::ScreamingSnake => spec_upper_seq(spec_snake_of_pascal(s, true)),
        CaseRule::Kebab => spec_dash_seq(spec_snake_of_pascal(s, true)),
        CaseRule::ScreamingKebab => spec_dash_seq(spec_upper_seq(spec_snake_of_pascal(s, true))),
    }
}

/// Applies a rename-all rule to a field name.
pub fn apply_field_case(rule: CaseRule, s: &str) -> (r: String)
    ensures
        r@ == spec_apply_field_case(rule, s@),
{
    match rule {
        CaseRule::Lower => lower_string(s),
        CaseRule::Upper => upper_string(s),
        CaseRule::Pascal => pascal_of_snake_string(s),
        CaseRule::Camel => {
            let p = pascal_of_snake_string(s);
            lower_first_string(p.as_str())
        },
        CaseRule::Snake => s.to_owned(),
        CaseRule::ScreamingSnake => upper_string(s),
        CaseRule::Kebab => dash_string(s),
        CaseRule::ScreamingKebab => {
            let u = upper_string(s);
            dash_string(u.as_str())
        },
    }
}

/// Applies a rename-all rule to a variant name.
pub fn apply_variant_case(rule: CaseRule, s: &str) -> (r: String)
    ensures
        r@ == spec_apply_variant_case(rule, s@),
{
    match rule {
        CaseRule::Lower => lower_string(s),
        CaseRule::Upper => upper_string(s),
        CaseRule::Pascal => s.to_owned(),
        CaseRule::Camel => lower_first_string(s),
        CaseRule::Snake => snake_of_pascal_string(s),
        CaseRule::ScreamingSnake => {
            let t = snake_of_pascal_string(s);
            upper_string(t.as_str())
        },
        CaseRule::Kebab => {
            let t = snake_of_pascal_string(s);
            dash_string(t.as_str())
        },
        CaseRule::ScreamingKebab => {
            let t = snake_of_pascal_string(s);
            let u = upper_string(t.as_str());
            dash_string(u.as_str())
        },
    }
}

/// The wire name of a field: an explicit rename wins, then an inherited
/// rename-all transform of the identifier, then the identifier itself; a
/// raw-identifier prefix never reaches the wire.
pub open spec fn spec_resolve_field_name(
    ident: Seq<char>,
    explicit: Option<Seq<char>>,
    rename_all: Option<CaseRule>,
) -> Seq<char> {
    match explicit {
        Option::Some(e) => e,
        Option::None => match rename_all {
            Option::Some(rule) => spec_apply_field_case(rule, spec_strip_raw(ident)),
            Option::None => spec_strip_raw(ident),
        },
    }
}

/// The wire name of a variant, under the same precedence as for fields but
/// with the variant flavour of each case transform.
pub open spec fn spec_resolve_variant_name(
    ident: Seq<char>,
    explicit: Option<Seq<char>>,
    rename_all: Option<CaseRule>,
) -> Seq<char> {
    match explicit {
        Option::Some(e) => e,
        Option::None => match rename_all {
            Option::Some(rule) => spec_apply_variant_case(rule, spec_strip_raw(ident)),
            Option::None => spec_strip_raw(ident),
        },
    }
}

/// Resolves the wire name of a field.
pub fn resolve_field_name(ident: &str, explicit: &Option<String>, rename_all: Option<CaseRule>) -> (r:
    String)
    ensures
        r@ == spec_resolve_field_name(ident@, crate::node::opt_str_view(*explicit), rename_all),
{
    match explicit {
        Some(e) => e.clone(),
        None => {
            let stripped = strip_raw(ident);
            match rename_all {
                Some(rule) => apply_field_case(rule, stripped.as_str()),
                None => stripped,
            }
        },
    }
}

/// Resolves the wire name of a variant.
pub fn resolve_variant_name(ident: &str, explicit: &Option<String>, rename_all: Option<
    CaseRule,
>) -> (r: String)
    ensures
        r@ == spec_resolve_variant_name(ident@, crate::node::opt_str_view(*explicit), rename_all),
{
    match explicit {
        Some(e) => e.clone(),
        None => {
            let stripped = strip_raw(ident);
            match rename_all {
                Some(rule) => apply_variant_case(rule, stripped.as_str()),
                None => stripped,
            }
        },
    }
}

} // verus!
