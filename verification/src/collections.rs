//! String-keyed hash maps and hash sets, and what the rest of the crate may
//! rely on when it uses them.
//!
//! The collections are those of `rustc_hash`: the standard `HashMap` and
//! `HashSet` with a fast, unseeded hasher. What vstd states of their methods
//! holds only for the keys and hashers that it knows, and strings under this
//! hasher are not among them. So each method that the crate calls has a wrapper
//! here whose contract is taken on trust from the method's documentation, over
//! [`map_entries`] and [`set_members`], which name what a collection holds.

use rustc_hash::{FxHashMap, FxHashSet};
use vstd::prelude::*;

verus! {

/// The hasher builder of `rustc_hash`; it only parameterises the collections.
#[verifier::external_type_specification]
#[verifier::external_body]
pub struct ExFxBuildHasher(rustc_hash::FxBuildHasher);

/// A hash map from strings to strings.
pub type StrMap = FxHashMap<String, String>;

/// A hash set of strings.
pub type StrSet = FxHashSet<String>;

/// The key/value pairs held by a string map.
pub uninterp spec fn map_entries(m: StrMap) -> Map<Seq<char>, Seq<char>>;

/// The strings held by a string set.
pub uninterp spec fn set_members(s: StrSet) -> Set<Seq<char>>;

/// The character sequences of a list of strings.
pub open spec fn strs(v: Seq<String>) -> Seq<Seq<char>> {
    v.map_values(|s: String| s@)
}

/// `FxHashMap::default`: the new map holds no pair.
#[verifier::external_body]
pub(crate) fn map_new() -> (m: StrMap)
    ensures
        forall|k: Seq<char>| !map_entries(m).contains_key(k),
{
    FxHashMap::default()
}

/// `HashMap::insert`: the pair is added, replacing any earlier value of the key;
/// all other pairs stay.
#[verifier::external_body]
pub(crate) fn map_insert(m: &mut StrMap, key: String, value: String)
    ensures
        map_entries(*final(m)) == map_entries(*old(m)).insert(key@, value@),
{
    m.insert(key, value);
}

/// `HashMap::get`: the value stored under the key, if the map holds the key.
#[verifier::external_body]
pub(crate) fn map_get<'a>(m: &'a StrMap, key: &str) -> (r: Option<&'a String>)
    ensures
        match r {
            Some(v) => map_entries(*m).contains_key(key@) && map_entries(*m)[key@] == v@,
            None => !map_entries(*m).contains_key(key@),
        },
{
    m.get(key)
}

/// `HashMap::keys`: every key of the map exactly once, in no promised order.
#[verifier::external_body]
pub(crate) fn map_keys(m: &StrMap) -> (keys: Vec<String>)
    ensures
        strs(keys@).no_duplicates(),
        strs(keys@).to_set() == map_entries(*m).dom(),
{
    m.keys().cloned().collect()
}

/// `HashSet::contains`: whether the set holds the string.
#[verifier::external_body]
pub(crate) fn set_contains(s: &StrSet, value: &str) -> (r: bool)
    ensures
        r == set_members(*s).contains(value@),
{
    s.contains(value)
}

/// `HashSet::insert`: the string is in the set afterwards, and nothing else changes.
#[verifier::external_body]
pub(crate) fn set_insert(s: &mut StrSet, value: String)
    ensures
        set_members(*final(s)) == set_members(*old(s)).insert(value@),
{
    s.insert(value);
}

/// `HashSet::remove`: the string is not in the set afterwards, and nothing else changes.
#[verifier::external_body]
pub(crate) fn set_remove(s: &mut StrSet, value: &str)
    ensures
        set_members(*final(s)) == set_members(*old(s)).remove(value@),
{
    s.remove(value);
}

/// Whether every pair of `a` is also a pair of `b`.
pub open spec fn submap(a: Map<Seq<char>, Seq<char>>, b: Map<Seq<char>, Seq<char>>) -> bool {
    forall|k: Seq<char>| #[trigger] a.contains_key(k) ==> b.contains_key(k) && b[k] == a[k]
}

/// Checks that every pair of `a` is in `b`.
pub fn map_included(a: &StrMap, b: &StrMap) -> (r: bool)
    ensures
        r == submap(map_entries(*a), map_entries(*b)),
{
    let keys = map_keys(a);
    let ghost ea = map_entries(*a);
    let ghost eb = map_entries(*b);
    let mut i: usize = 0;
    while i < keys.len()
        invariant
            0 <= i <= keys.len(),
            ea == map_entries(*a),
            eb == map_entries(*b),
            strs(keys@).to_set() == ea.dom(),
            forall|j: int| 0 <= j < i ==> eb.contains_key(#[trigger] strs(keys@)[j]) && eb[strs(
                keys@,
            )[j]] == ea[strs(keys@)[j]],
        decreases keys.len() - i,
    {
        let key = &keys[i];
        assert(strs(keys@)[i as int] == key@);
        assert(strs(keys@).to_set().contains(key@));
        let va = map_get(a, key.as_str());
        let vb = map_get(b, key.as_str());
        match (va, vb) {
            (Some(x), Some(y)) => {
                if !(*x == *y) {
                    return false;
                }
            },
            _ => {
                return false;
            },
        }
        i += 1;
    }
    assert forall|k: Seq<char>| #[trigger] ea.contains_key(k) implies eb.contains_key(k) && eb[k]
        == ea[k] by {
        assert(strs(keys@).to_set().contains(k));
        let j = choose|j: int| 0 <= j < strs(keys@).len() && strs(keys@)[j] == k;
        assert(eb.contains_key(strs(keys@)[j]));
    }
    true
}

/// Whether two maps hold the same pairs.
pub fn map_eq(a: &StrMap, b: &StrMap) -> (r: bool)
    ensures
        r == (map_entries(*a) == map_entries(*b)),
{
    let r = map_included(a, b) && map_included(b, a);
    proof {
        if r {
            assert(map_entries(*a) =~= map_entries(*b));
        }
    }
    r
}

} // verus!
