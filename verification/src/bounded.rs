//! The fixed-capacity collections of `heapless` that the G-code reader and
//! the AT serialiser work with, and what is known of the calls made on them.
use vstd::prelude::*;
use vstd::string::*;

verus! {

#[verifier::external_type_specification]
#[verifier::external_body]
#[verifier::reject_recursive_types(K)]
#[verifier::reject_recursive_types(V)]
pub struct ExLinearMap<K, V, const N: usize>(heapless::LinearMap<K, V, N>);

#[verifier::external_type_specification]
#[verifier::external_body]
#[verifier::reject_recursive_types(T)]
pub struct ExVec<T, const N: usize>(heapless::Vec<T, N>);

#[verifier::external_type_specification]
#[verifier::external_body]
pub struct ExString<const N: usize>(heapless::String<N>);

/// The map from argument letters to argument texts that a G-code line holds.
pub type ArgMap<'a> = heapless::LinearMap<char, Option<&'a str>, 16>;

/// The words of a G-code line.
pub type WordVec<'a> = heapless::Vec<&'a str, 16>;

/// A short SD-card file name.
pub type FileName = heapless::String<12>;

/// `Clone` of a `heapless::String`, which the derived `Clone` of commands
/// calls. Nothing is stated of the copy it returns.
pub assume_specification<const N: usize>[ <heapless::String<N> as Clone>::clone ](
    s: &heapless::String<N>,
) -> heapless::String<N>;

/// The entries of an argument map, in the order in which they are stored.
pub uninterp spec fn arg_entries(m: ArgMap) -> Seq<(char, Option<Seq<char>>)>;

/// The words held by a word vector, in order.
pub uninterp spec fn word_items(v: WordVec) -> Seq<Seq<char>>;

/// The characters of a file name.
pub uninterp spec fn file_name_chars(s: FileName) -> Seq<char>;

/// Capacity of the argument map and of the word vector.
pub open spec fn capacity() -> nat {
    16
}

/// The index of the first entry whose key is `k`, or -1.
pub open spec fn key_index(m: Seq<(char, Option<Seq<char>>)>, k: char) -> int
    decreases m.len(),
{
    if m.len() == 0 {
        -1
    } else if m[0].0 == k {
        0
    } else {
        let r = key_index(m.drop_first(), k);
        if r < 0 {
            -1
        } else {
            r + 1
        }
    }
}

/// The value stored under `k`, if any.
pub open spec fn map_lookup(m: Seq<(char, Option<Seq<char>>)>, k: char) -> Option<
    Option<Seq<char>>,
> {
    let i = key_index(m, k);
    if i < 0 {
        None
    } else {
        Some(m[i].1)
    }
}

/// The entries after inserting `v` under `k`: the value of an existing key is
/// replaced in place, a new key is appended while there is room, and the
/// insertion fails (`None`) on a full map.
pub open spec fn map_insert(
    m: Seq<(char, Option<Seq<char>>)>,
    k: char,
    v: Option<Seq<char>>,
) -> Option<Seq<(char, Option<Seq<char>>)>> {
    let i = key_index(m, k);
    if i >= 0 {
        Some(m.update(i, (k, v)))
    } else if m.len() < capacity() {
        Some(m.push((k, v)))
    } else {
        None
    }
}

pub open spec fn opt_view(v: Option<&str>) -> Option<Seq<char>> {
    match v {
        Some(s) => Some(s@),
        None => None,
    }
}

/// `LinearMap::new`: an empty map.
#[verifier::external_body]
pub(crate) fn arg_map_new<'a>() -> (m: ArgMap<'a>)
    ensures
        arg_entries(m) == Seq::<(char, Option<Seq<char>>)>::empty(),
{
    heapless::LinearMap::new()
}

/// `LinearMap::insert`: replaces the value of the first entry with the same
/// key, or appends the entry when the map holds fewer than 16; on a full map
/// it changes nothing and fails (`false` here).
#[verifier::external_body]
pub(crate) fn arg_map_insert<'a>(m: &mut ArgMap<'a>, k: char, v: Option<&'a str>) -> (ok: bool)
    ensures
        match map_insert(arg_entries(*old(m)), k, opt_view(v)) {
            Some(e) => ok && arg_entries(*final(m)) == e,
            None => !ok && arg_entries(*final(m)) == arg_entries(*old(m)),
        },
{
    m.insert(k, v).is_ok()
}

/// `LinearMap::get`: the value of the first entry with the given key.
#[verifier::external_body]
pub(crate) fn arg_map_get<'a>(m: &ArgMap<'a>, k: char) -> (r: Option<Option<&'a str>>)
    ensures
        match r {
            Some(v) => map_lookup(arg_entries(*m), k) == Some(opt_view(v)),
            None => map_lookup(arg_entries(*m), k) is None,
        },
{
    m.get(&k).copied()
}

/// `LinearMap::len`: the number of entries.
#[verifier::external_body]
pub(crate) fn arg_map_len(m: &ArgMap) -> (n: usize)
    ensures
        n == arg_entries(*m).len(),
{
    m.len()
}

/// The key of the entry that `LinearMap::iter` yields first.
#[verifier::external_body]
pub(crate) fn arg_map_first_key(m: &ArgMap) -> (r: Option<char>)
    ensures
        match r {
            Some(k) => arg_entries(*m).len() > 0 && arg_entries(*m)[0].0 == k,
            None => arg_entries(*m).len() == 0,
        },
{
    m.iter().next().map(|e| *e.0)
}

/// `Vec::new`: an empty word vector.
#[verifier::external_body]
pub(crate) fn word_vec_new<'a>() -> (v: WordVec<'a>)
    ensures
        word_items(v) == Seq::<Seq<char>>::empty(),
{
    heapless::Vec::new()
}

/// `Vec::push`: appends while fewer than 16 words are held, else changes
/// nothing and fails.
#[verifier::external_body]
pub(crate) fn word_vec_push<'a>(v: &mut WordVec<'a>, w: &'a str) -> (ok: bool)
    ensures
        ok == (word_items(*old(v)).len() < capacity()),
        ok ==> word_items(*final(v)) == word_items(*old(v)).push(w@),
        !ok ==> word_items(*final(v)) == word_items(*old(v)),
{
    v.push(w).is_ok()
}

/// `Vec::len`: the number of words.
#[verifier::external_body]
pub(crate) fn word_vec_len(v: &WordVec) -> (n: usize)
    ensures
        n == word_items(*v).len(),
{
    v.len()
}

/// Indexing a word vector.
#[verifier::external_body]
pub(crate) fn word_vec_get<'a>(v: &WordVec<'a>, i: usize) -> (w: &'a str)
    requires
        i < word_items(*v).len(),
    ensures
        w@ == word_items(*v)[i as int],
{
    v[i]
}

/// `String::<12>::from_str`: succeeds when the text takes at most 12 bytes
/// in UTF-8, and then holds the same characters.
#[verifier::external_body]
pub(crate) fn file_name_from_str(s: &str) -> (r: Option<FileName>)
    ensures
        match r {
            Some(f) => s.spec_bytes().len() <= 12 && file_name_chars(f) == s@,
            None => s.spec_bytes().len() > 12,
        },
{
    <FileName as core::str::FromStr>::from_str(s).ok()
}

} // verus!
