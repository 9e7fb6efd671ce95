use vstd::prelude::*;
use vstd::string::StrSliceExecFns;

verus! {

/// How a field's key is derived from its snake_case identifier.
#[derive(Clone, Copy, Debug, PartialEq, Eq, Structural)]
pub enum RenameRule {
    Lower,
    Upper,
    Pascal,
    Camel,
    Snake,
    ScreamingSnake,
    Kebab,
    ScreamingKebab,
}

pub open spec fn upper(c: char) -> char {
    if 'a' <= c && c <= 'z' {
        ((c as u8) - 32) as char
    } else {
        c
    }
}

pub open spec fn lower(c: char) -> char {
    if 'A' <= c && c <= 'Z' {
        ((c as u8) + 32) as char
    } else {
        c
    }
}

pub open spec fn map_upper(s: Seq<char>) -> Seq<char> {
    s.map_values(|c: char| upper(c))
}

pub open spec fn dashed(s: Seq<char>) -> Seq<char> {
    s.map_values(|c: char| if c == '_' { '-' } else { c })
}

/// Words joined with each one capitalized; `cap` says whether the next
/// letter starts a word.
pub open spec fn pascal_from(s: Seq<char>, cap: bool) -> Seq<char>
    decreases s.len(),
{
    if s.len() == 0 {
        Seq::empty()
    } else if s[0] == '_' {
        pascal_from(s.drop_first(), true)
    } else {
        seq![if cap { upper(s[0]) } else { s[0] }] + pascal_from(s.drop_first(), false)
    }
}

pub open spec fn camel(s: Seq<char>) -> Seq<char> {
    let p = pascal_from(s, true);
    if p.len() == 0 {
        p
    } else {
        seq![lower(p[0])] + p.drop_first()
    }
}

/// The key that `rule` derives from the identifier `s`.
pub open spec fn renamed(rule: RenameRule, s: Seq<char>) -> Seq<char> {
    match rule {
        RenameRule::Lower => s,
        RenameRule::Snake => s,
        RenameRule::Upper => map_upper(s),
        RenameRule::ScreamingSnake => map_upper(s),
        RenameRule::Pascal => pascal_from(s, true),
        RenameRule::Camel => camel(s),
        RenameRule::Kebab => dashed(s),
        RenameRule::ScreamingKebab => dashed(map_upper(s)),
    }
}

/// Relies on String::push: the character is appended.
#[verifier::external_body]
fn push_char(s: &mut String, c: char)
    ensures
        final(s)@ == old(s)@.push(c),
{
    s.push(c)
}

fn upper_char(c: char) -> (r: char)
    ensures
        r == upper(c),
{
    if 'a' <= c && c <= 'z' {
        ((c as u8) - 32) as char
    } else {
        c
    }
}

fn lower_char(c: char) -> (r: char)
    ensures
        r == lower(c),
{
    if 'A' <= c && c <= 'Z' {
        ((c as u8) + 32) as char
    } else {
        c
    }
}

proof fn lemma_pascal_step(s: Seq<char>, i: int, cap: bool)
    requires
        0 <= i < s.len(),
    ensures
        pascal_from(s.skip(i), cap) == if s[i] == '_' {
            pascal_from(s.skip(i + 1), true)
        } else {
            seq![if cap { upper(s[i]) } else { s[i] }] + pascal_from(s.skip(i + 1), false)
        },
{
    assert(s.skip(i).drop_first() =~= s.skip(i + 1));
}

/// The key that `rule` derives from the identifier `ident`.
pub fn rename(rule: RenameRule, ident: &String) -> (r: String)
    ensures
        r@ == renamed(rule, ident@),
{
    let src = ident.as_str();
    let n = src.unicode_len();
    let mut out = String::new();
    let mut cap = true;
    let mut first = true;
    let mut i: usize = 0;
    let ghost s = ident@;
    proof {
        assert(s.skip(0) =~= s);
    }
    while i < n
        invariant
            src@ == s,
            n == s.len(),
            i <= n,
            rule != RenameRule::Pascal && rule != RenameRule::Camel ==> out@ == renamed(rule, s.take(i as int)),
            rule == RenameRule::Pascal ==> pascal_from(s, true) == out@ + pascal_from(s.skip(i as int), cap),
            rule == RenameRule::Camel ==> {
                let p = pascal_from(s, true);
                &&& first ==> out@.len() == 0 && p == pascal_from(s.skip(i as int), cap)
                &&& !first ==> out@.len() > 0 && p.len() > 0 && camel(s) == out@ + pascal_from(s.skip(i as int), cap)
            },
        decreases n - i,
    {
        let c = src.get_char(i);
        proof {
            lemma_pascal_step(s, i as int, cap);
            assert(s.take(i + 1) =~= s.take(i as int).push(c));
        }
        match rule {
            RenameRule::Lower | RenameRule::Snake => push_char(&mut out, c),
            RenameRule::Upper | RenameRule::ScreamingSnake => push_char(&mut out, upper_char(c)),
            RenameRule::Kebab => push_char(&mut out, if c == '_' { '-' } else { c }),
            RenameRule::ScreamingKebab => {
                let u = upper_char(c);
                push_char(&mut out, if u == '_' { '-' } else { u })
            },
            RenameRule::Pascal | RenameRule::Camel => {
                if c == '_' {
                    cap = true;
                } else {
                    let ghost before = out@;
                    let d = if cap { upper_char(c) } else { c };
                    if rule == RenameRule::Camel && first {
                        push_char(&mut out, lower_char(d));
                        first = false;
                    } else {
                        push_char(&mut out, d);
                    }
                    cap = false;
                    proof {
                        assert(before.push(out@.last()) == out@);
                    }
                }
            },
        }
        proof {
            if rule != RenameRule::Pascal && rule != RenameRule::Camel {
                assert(out@ =~= renamed(rule, s.take(i + 1)));
            }
        }
        i += 1;
    }
    proof {
        assert(s.take(n as int) =~= s);
        assert(s.skip(n as int) =~= Seq::<char>::empty());
        assert(out@ + Seq::<char>::empty() =~= out@);
    }
    out
}

} // verus!
