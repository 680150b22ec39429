use vstd::prelude::*;

verus! {

/// A hash map from identifiers to identifiers.
///
/// The entries live in a `hashbrown::HashMap`, which the verifier does not
/// look into: what the functions of this file say of it is taken from that
/// crate's documentation and source, and is not proved here.
#[verifier::external_body]
#[derive(Debug)]
pub struct IndexMap {
    inner: hashbrown::HashMap<usize, usize>,
}

/// What an [`IndexMap`] holds: the value stored under each key.
pub uninterp spec fn entries(m: IndexMap) -> Map<usize, usize>;

/// The entries of a map that holds nothing.
pub open spec fn no_entries() -> Map<usize, usize> {
    Map::empty()
}

/// `hashbrown::HashMap::new`: a map without entries.
#[verifier::external_body]
pub(crate) fn index_map_new() -> (m: IndexMap)
    ensures
        entries(m) == no_entries(),
{
    IndexMap { inner: hashbrown::HashMap::new() }
}

/// `hashbrown::HashMap::insert`: afterwards `key` maps to `value`, whether
/// or not it was present before, and every other key is as it was.
#[verifier::external_body]
pub(crate) fn index_map_insert(m: &mut IndexMap, key: usize, value: usize)
    ensures
        entries(*final(m)) == entries(*old(m)).insert(key, value),
{
    m.inner.insert(key, value);
}

/// `hashbrown::HashMap::get`: the value stored under `key`, if there is one.
#[verifier::external_body]
pub(crate) fn index_map_get(m: &IndexMap, key: usize) -> (r: Option<usize>)
    ensures
        r == (if entries(*m).contains_key(key) {
            Some(entries(*m)[key])
        } else {
            None
        }),
{
    m.inner.get(&key).copied()
}

/// `hashbrown::HashMap::len`: the number of entries.
#[verifier::external_body]
pub(crate) fn index_map_len(m: &IndexMap) -> (n: usize)
    ensures
        n == entries(*m).dom().len(),
{
    m.inner.len()
}

/// `hashbrown::HashMap::keys`: every key of the map, in an order that the
/// map does not promise.
#[verifier::external_body]
pub(crate) fn index_map_keys(m: &IndexMap) -> (keys: Vec<usize>)
    ensures
        forall|key: usize| keys@.contains(key) <==> entries(*m).contains_key(key),
{
    m.inner.keys().copied().collect()
}

} // verus!
