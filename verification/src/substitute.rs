//! Substitution of environment variables in strings.
//!
//! A variable is referenced as `$NAME` or `${NAME}`, where `NAME` is a non-empty
//! run of upper-case ASCII letters, digits and underscores. A reference to a
//! variable that the map holds is replaced by the variable's value; any other
//! reference stays as it is written, to be looked up when the task runs.

use crate::collections::{map_entries, map_get, map_insert, map_keys, map_new, strs, StrMap};
use crate::text::{chars_of, same_str, string_of};
use vstd::prelude::*;
use vstd::string::StringExecFns;

verus! {

/// Whether a character can be part of a variable's name.
pub open spec fn is_name_char(c: char) -> bool {
    ('A' <= c && c <= 'Z') || ('0' <= c && c <= '9') || c == '_'
}

/// The length of the longest run of name characters at the start of `s`.
pub open spec fn name_len(s: Seq<char>) -> nat
    decreases s.len(),
{
    if s.len() > 0 && is_name_char(s[0]) {
        1 + name_len(s.drop_first())
    } else {
        0
    }
}

/// The variable reference that `s` starts with: the variable's name and the
/// number of characters that the reference takes.
pub open spec fn reference_at(s: Seq<char>) -> Option<(Seq<char>, int)> {
    if s.len() >= 2 && s[0] == '$' {
        if s[1] == '{' {
            let n = name_len(s.skip(2)) as int;
            if n > 0 && 2 + n < s.len() && s[2 + n] == '}' {
                Some((s.subrange(2, 2 + n), n + 3))
            } else {
                None
            }
        } else {
            let n = name_len(s.skip(1)) as int;
            if n > 0 && 1 + n <= s.len() {
                Some((s.subrange(1, 1 + n), n + 1))
            } else {
                None
            }
        }
    } else {
        None
    }
}

/// What stands in place of a reference, written as `text`, to the variable `name`,
/// inside the value of the variable `base_name`: the variable's value in `env`;
/// or `text` itself where `env` lacks the variable, or where the value refers to
/// its own variable.
pub open spec fn replacement(
    base_name: Seq<char>,
    name: Seq<char>,
    text: Seq<char>,
    env: Map<Seq<char>, Seq<char>>,
) -> Seq<char> {
    if (base_name.len() > 0 && base_name == name) || !env.contains_key(name) {
        text
    } else {
        env[name]
    }
}

/// `value` with every variable reference replaced, read from left to right.
/// Replaced text is not read again.
pub open spec fn substituted(
    base_name: Seq<char>,
    value: Seq<char>,
    env: Map<Seq<char>, Seq<char>>,
) -> Seq<char>
    decreases value.len(),
{
    if value.len() == 0 {
        Seq::empty()
    } else {
        match reference_at(value) {
            Some((name, len)) => replacement(base_name, name, value.take(len), env) + substituted(
                base_name,
                value.skip(len),
                env,
            ),
            None => seq![value[0]] + substituted(base_name, value.skip(1), env),
        }
    }
}

/// A map with every value substituted against the map itself.
pub open spec fn substituted_all(env: Map<Seq<char>, Seq<char>>) -> Map<Seq<char>, Seq<char>> {
    Map::new(|k: Seq<char>| env.contains_key(k), |k: Seq<char>| substituted(k, env[k], env))
}

/// A value without a `$` holds no reference, so substitution returns it as it is.
pub proof fn lemma_plain_value_unchanged(
    base_name: Seq<char>,
    value: Seq<char>,
    env: Map<Seq<char>, Seq<char>>,
)
    requires
        !value.contains('$'),
    ensures
        substituted(base_name, value, env) == value,
    decreases value.len(),
{
    if value.len() > 0 {
        assert(value[0] != '$');
        assert forall|i: int| 0 <= i < value.skip(1).len() implies value.skip(1)[i] != '$' by {
            assert(value.contains(value[i + 1]));
        }
        lemma_plain_value_unchanged(base_name, value.skip(1), env);
        assert(seq![value[0]] + value.skip(1) =~= value);
    } else {
        assert(value =~= Seq::empty());
    }
}

fn is_name(c: char) -> (r: bool)
    ensures
        r == is_name_char(c),
{
    ('A' <= c && c <= 'Z') || ('0' <= c && c <= '9') || c == '_'
}

/// The end of the run of name characters that starts at `from`.
fn scan_name(chars: &Vec<char>, from: usize) -> (end: usize)
    requires
        from <= chars.len(),
    ensures
        from <= end <= chars.len(),
        end - from == name_len(chars@.skip(from as int)),
{
    let mut end: usize = from;
    while end < chars.len() && is_name(chars[end])
        invariant
            from <= end <= chars.len(),
            name_len(chars@.skip(from as int)) == (end - from) + name_len(chars@.skip(end as int)),
        decreases chars.len() - end,
    {
        assert(chars@.skip(end as int).drop_first() =~= chars@.skip(end + 1));
        end += 1;
    }
    end
}

/// Replaces the variable references in `value` by the variables' values in `env`.
///
/// `base_name` is the name of the variable whose value this is, or empty: a value
/// that refers to its own variable keeps that reference.
pub fn substitute_env_var(base_name: &str, value: &str, env: &StrMap) -> (r: String)
    ensures
        r@ == substituted(base_name@, value@, map_entries(*env)),
{
    let chars = chars_of(value);
    let n = chars.len();
    let mut out = String::new();
    let mut i: usize = 0;
    assert(chars@.skip(0) =~= chars@);
    while i < n
        invariant
            0 <= i <= n,
            n == chars.len(),
            chars@ == value@,
            out@ + substituted(base_name@, chars@.skip(i as int), map_entries(*env)) == substituted(
                base_name@,
                chars@,
                map_entries(*env),
            ),
        decreases n - i,
    {
        let ghost rest = chars@.skip(i as int);
        let ghost before = out@;
        // The end of the reference that starts here, and the bounds of its name.
        let mut found: Option<(usize, usize, usize)> = None;
        if chars[i] == '$' && n - i >= 2 {
            if chars[i + 1] == '{' {
                let end = scan_name(&chars, i + 2);
                assert(rest.skip(2) =~= chars@.skip(i + 2));
                if end > i + 2 && end < n && chars[end] == '}' {
                    found = Some((end + 1, i + 2, end));
                }
            } else {
                let end = scan_name(&chars, i + 1);
                assert(rest.skip(1) =~= chars@.skip(i + 1));
                if end > i + 1 {
                    found = Some((end, i + 1, end));
                }
            }
        }
        match found {
            Some((next, from, to)) => {
                let name = string_of(&chars, from, to);
                assert(reference_at(rest) == Some((name@, next - i))) by {
                    assert(rest.subrange(from - i, to - i) =~= chars@.subrange(
                        from as int,
                        to as int,
                    ));
                }
                let own = !base_name.is_empty() && same_str(base_name, name.as_str());
                let known = if own {
                    None
                } else {
                    map_get(env, name.as_str())
                };
                match known {
                    Some(v) => {
                        out.append(v.as_str());
                    },
                    None => {
                        let text = string_of(&chars, i, next);
                        assert(text@ =~= rest.take(next - i));
                        out.append(text.as_str());
                    },
                }
                assert(rest.skip(next - i) =~= chars@.skip(next as int));
                assert(out@ + substituted(
                    base_name@,
                    chars@.skip(next as int),
                    map_entries(*env),
                ) =~= before + substituted(base_name@, rest, map_entries(*env)));
                i = next;
            },
            None => {
                assert(reference_at(rest) is None);
                let text = string_of(&chars, i, i + 1);
                assert(text@ =~= seq![rest[0]]);
                out.append(text.as_str());
                assert(rest.skip(1) =~= chars@.skip(i + 1));
                assert(out@ + substituted(base_name@, chars@.skip(i + 1), map_entries(*env))
                    =~= before + substituted(base_name@, rest, map_entries(*env)));
                i += 1;
            },
        }
    }
    assert(out@ + Seq::<char>::empty() =~= out@);
    out
}

/// Replaces, in every value of `env`, the references to the other variables of
/// `env` by their values.
pub fn substitute_env_vars(env: &StrMap) -> (r: StrMap)
    ensures
        map_entries(r) == substituted_all(map_entries(*env)),
{
    let keys = map_keys(env);
    let mut out = map_new();
    let ghost all = map_entries(*env);
    let mut i: usize = 0;
    while i < keys.len()
        invariant
            0 <= i <= keys.len(),
            all == map_entries(*env),
            strs(keys@).to_set() == all.dom(),
            forall|k: Seq<char>| #[trigger]
                map_entries(out).contains_key(k) <==> strs(keys@).take(i as int).contains(k),
            forall|k: Seq<char>| #[trigger]
                map_entries(out).contains_key(k) ==> map_entries(out)[k] == substituted(
                    k,
                    all[k],
                    all,
                ),
        decreases keys.len() - i,
    {
        let key = &keys[i];
        assert(strs(keys@)[i as int] == key@);
        assert(strs(keys@).to_set().contains(key@));
        match map_get(env, key.as_str()) {
            Some(value) => {
                let resolved = substitute_env_var(key.as_str(), value.as_str(), env);
                map_insert(&mut out, key.clone(), resolved);
            },
            None => {
                assert(false);
            },
        }
        assert forall|k: Seq<char>| #[trigger]
            map_entries(out).contains_key(k) <==> strs(keys@).take(i + 1).contains(k) by {
            assert(strs(keys@).take(i + 1) =~= strs(keys@).take(i as int).push(key@));
            if strs(keys@).take(i as int).contains(k) {
                let j = choose|j: int|
                    0 <= j < strs(keys@).take(i as int).len() && strs(keys@).take(i as int)[j] == k;
                assert(strs(keys@).take(i + 1)[j] == k);
            }
            if k == key@ {
                assert(strs(keys@).take(i + 1)[i as int] == k);
            }
        }
        i += 1;
    }
    assert(strs(keys@).take(keys.len() as int) =~= strs(keys@));
    assert(map_entries(out) =~= substituted_all(all));
    out
}

} // verus!
