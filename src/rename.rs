//! Case-conversion policies applied to field and variant names.
use vstd::prelude::*;
use vstd::string::*;
use crate::text::{is_upper, lower, opt_view, owned, push_char, text_eq, to_lower, to_upper, upper};

verus! {

/// A container-level case-conversion policy.
#[derive(Clone, Copy, Debug, PartialEq, Eq, Structural)]
pub enum RenameRule {
    Lower,
    Upper,
    Pascal,
    Camel,
    Snake,
    ScreamingSnake,
    Kebab,
    ScreamingKebab,
}

/// The policy that a `rename_all` value names, if any.
pub open spec fn rule_named(s: Seq<char>) -> Option<RenameRule> {
    if s == "lowercase"@ {
        Some(RenameRule::Lower)
    } else if s == "UPPERCASE"@ {
        Some(RenameRule::Upper)
    } else if s == "PascalCase"@ {
        Some(RenameRule::Pascal)
    } else if s == "camelCase"@ {
        Some(RenameRule::Camel)
    } else if s == "snake_case"@ {
        Some(RenameRule::Snake)
    } else if s == "SCREAMING_SNAKE_CASE"@ {
        Some(RenameRule::ScreamingSnake)
    } else if s == "kebab-case"@ {
        Some(RenameRule::Kebab)
    } else if s == "SCREAMING-KEBAB-CASE"@ {
        Some(RenameRule::ScreamingKebab)
    } else {
        None
    }
}

impl RenameRule {
    /// The policy that a `rename_all` value names.
    pub fn from_name(s: &str) -> (r: Option<RenameRule>)
        ensures
            r == rule_named(s@),
    {
        if text_eq(s, "lowercase") {
            Some(RenameRule::Lower)
        } else if text_eq(s, "UPPERCASE") {
            Some(RenameRule::Upper)
        } else if text_eq(s, "PascalCase") {
            Some(RenameRule::Pascal)
        } else if text_eq(s, "camelCase") {
            Some(RenameRule::Camel)
        } else if text_eq(s, "snake_case") {
            Some(RenameRule::Snake)
        } else if text_eq(s, "SCREAMING_SNAKE_CASE") {
            Some(RenameRule::ScreamingSnake)
        } else if text_eq(s, "kebab-case") {
            Some(RenameRule::Kebab)
        } else if text_eq(s, "SCREAMING-KEBAB-CASE") {
            Some(RenameRule::ScreamingKebab)
        } else {
            None
        }
    }
}

/// Whether position `i` of `s` begins a word: the first character, or one
/// that follows an underscore.
pub open spec fn word_start(s: Seq<char>, i: int) -> bool {
    i == 0 || s[i - 1] == '_'
}

/// Whether position `i` of `s` is an upper-case letter inside a word, which
/// begins a new word.
pub open spec fn hump(s: Seq<char>, i: int) -> bool {
    is_upper(s[i]) && !word_start(s, i)
}

/// What character `i` of `s` becomes under `rule`.
pub open spec fn piece(s: Seq<char>, i: int, rule: RenameRule) -> Seq<char> {
    let c = s[i];
    match rule {
        RenameRule::Lower => seq![lower(c)],
        RenameRule::Upper => seq![upper(c)],
        RenameRule::Snake | RenameRule::Kebab | RenameRule::ScreamingSnake | RenameRule::ScreamingKebab => {
            let sep = if rule is Snake || rule is ScreamingSnake { '_' } else { '-' };
            let d = if rule is Snake || rule is Kebab { lower(c) } else { upper(c) };
            if c == '_' {
                seq![sep]
            } else if hump(s, i) {
                seq![sep, d]
            } else {
                seq![d]
            }
        },
        RenameRule::Camel | RenameRule::Pascal => {
            if c == '_' {
                seq![]
            } else if i == 0 && rule is Camel {
                seq![lower(c)]
            } else if word_start(s, i) || hump(s, i) {
                seq![upper(c)]
            } else {
                seq![c]
            }
        },
    }
}

/// The first `n` characters of `s` converted under `rule`.
pub open spec fn convert_prefix(s: Seq<char>, n: int, rule: RenameRule) -> Seq<char>
    decreases n,
{
    if n <= 0 {
        seq![]
    } else {
        convert_prefix(s, n - 1, rule) + piece(s, n - 1, rule)
    }
}

/// `s` converted under `rule`.
pub open spec fn convert(s: Seq<char>, rule: RenameRule) -> Seq<char> {
    convert_prefix(s, s.len() as int, rule)
}

/// The name that `name` takes under the `rename_all` value `rule`: the
/// converted name where the value names a policy, else the name itself.
pub open spec fn renamed(name: Seq<char>, rule: Option<Seq<char>>) -> Seq<char> {
    match rule {
        Some(r) => match rule_named(r) {
            Some(p) => convert(name, p),
            None => name,
        },
        None => name,
    }
}

/// The emitted name: an explicit rename wins, then the policy, then the name.
pub open spec fn emitted_name(name: Seq<char>, explicit: Option<Seq<char>>, rule: Option<Seq<char>>) -> Seq<char> {
    match explicit {
        Some(e) => e,
        None => renamed(name, rule),
    }
}

/// Applies a case-conversion policy to a name.
pub fn apply_rule(name: &str, rule: RenameRule) -> (r: String)
    ensures
        r@ == convert(name@, rule),
{
    let n = name.unicode_len();
    let mut out = String::new();
    let mut i: usize = 0;
    while i < n
        invariant
            n == name@.len(),
            i <= n,
            out@ == convert_prefix(name@, i as int, rule),
        decreases n - i,
    {
        let c = name.get_char(i);
        let start = i == 0 || name.get_char(i - 1) == '_';
        let hump = 'A' <= c && c <= 'Z' && !start;
        match rule {
            RenameRule::Lower => push_char(&mut out, to_lower(c)),
            RenameRule::Upper => push_char(&mut out, to_upper(c)),
            RenameRule::Snake | RenameRule::Kebab | RenameRule::ScreamingSnake | RenameRule::ScreamingKebab => {
                let sep = match rule {
                    RenameRule::Snake | RenameRule::ScreamingSnake => '_',
                    _ => '-',
                };
                let d = match rule {
                    RenameRule::Snake | RenameRule::Kebab => to_lower(c),
                    _ => to_upper(c),
                };
                if c == '_' {
                    push_char(&mut out, sep);
                } else {
                    if hump {
                        push_char(&mut out, sep);
                    }
                    push_char(&mut out, d);
                }
            },
            RenameRule::Camel | RenameRule::Pascal => {
                if c == '_' {
                } else if i == 0 && rule == RenameRule::Camel {
                    push_char(&mut out, to_lower(c));
                } else if start || hump {
                    push_char(&mut out, to_upper(c));
                } else {
                    push_char(&mut out, c);
                }
            },
        }
        proof {
            assert(out@ =~= convert_prefix(name@, i as int, rule) + piece(name@, i as int, rule));
        }
        i = i + 1;
    }
    out
}

/// The name that `name` takes under an optional `rename_all` value.
pub fn rename_field(name: &str, rule: Option<&str>) -> (r: String)
    ensures
        r@ == renamed(name@, match rule { Some(x) => Some(x@), None => None }),
{
    match rule {
        Some(x) => match RenameRule::from_name(x) {
            Some(p) => apply_rule(name, p),
            None => owned(name),
        },
        None => owned(name),
    }
}

/// The emitted name of a field or variant: its explicit rename, else its
/// name under the policy.
pub fn emit_name(name: &String, explicit: &Option<String>, rule: &Option<String>) -> (r: String)
    ensures
        r@ == emitted_name(name@, opt_view(*explicit), opt_view(*rule)),
{
    match explicit {
        Some(e) => owned(e.as_str()),
        None => match rule {
            Some(x) => rename_field(name.as_str(), Some(x.as_str())),
            None => rename_field(name.as_str(), None),
        },
    }
}

} // verus!
