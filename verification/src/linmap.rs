use vstd::prelude::*;

use linear_map::LinearMap;

verus! {

#[verifier::external_type_specification]
#[verifier::external_body]
#[verifier::reject_recursive_types(K)]
#[verifier::reject_recursive_types(V)]
pub struct ExLinearMap<K, V>(LinearMap<K, V>);

/// The entries of a map from feature indices to section bytes.
pub uninterp spec fn feature_map_view(m: LinearMap<u32, Vec<u8>>) -> Map<u32, Seq<u8>>;

/// Relies on `LinearMap::new`: the new map is empty.
#[verifier::external_body]
pub fn feature_map_new() -> (r: LinearMap<u32, Vec<u8>>)
    ensures
        forall|k: u32| !feature_map_view(r).contains_key(k),
{
    LinearMap::new()
}

/// Relies on `LinearMap::insert`: it maps the key to the new value and keeps
/// every other entry.
#[verifier::external_body]
pub fn feature_map_insert(m: &mut LinearMap<u32, Vec<u8>>, key: u32, value: Vec<u8>)
    ensures
        feature_map_view(*final(m)) == feature_map_view(*old(m)).insert(key, value@),
{
    m.insert(key, value);
}

/// Relies on `LinearMap::get`: it returns the value of the key, or `None`
/// when the map holds no entry for it.
#[verifier::external_body]
pub fn feature_map_get<'a>(m: &'a LinearMap<u32, Vec<u8>>, key: u32) -> (r: Option<&'a Vec<u8>>)
    ensures
        match r {
            Some(v) => feature_map_view(*m).contains_key(key) && v@ == feature_map_view(*m)[key],
            None => !feature_map_view(*m).contains_key(key),
        },
{
    m.get(&key)
}

/// The entries of a map from PMU type indices to PMU names.
pub uninterp spec fn pmu_map_view(m: LinearMap<u32, String>) -> Map<u32, Seq<char>>;

/// Relies on `LinearMap::new`: the new map is empty.
#[verifier::external_body]
pub fn pmu_map_new() -> (r: LinearMap<u32, String>)
    ensures
        forall|k: u32| !pmu_map_view(r).contains_key(k),
{
    LinearMap::new()
}

/// Relies on `LinearMap::insert`: it maps the key to the new value and keeps
/// every other entry.
#[verifier::external_body]
pub fn pmu_map_insert(m: &mut LinearMap<u32, String>, key: u32, value: String)
    ensures
        pmu_map_view(*final(m)) == pmu_map_view(*old(m)).insert(key, value@),
{
    m.insert(key, value);
}

/// Relies on `LinearMap::get`: it returns the value of the key, or `None`
/// when the map holds no entry for it.
#[verifier::external_body]
pub fn pmu_map_get<'a>(m: &'a LinearMap<u32, String>, key: u32) -> (r: Option<&'a String>)
    ensures
        match r {
            Some(v) => pmu_map_view(*m).contains_key(key) && v@ == pmu_map_view(*m)[key],
            None => !pmu_map_view(*m).contains_key(key),
        },
{
    m.get(&key)
}

} // verus!
