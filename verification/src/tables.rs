//! The reflector's concurrent stores.  The three tables are
//! `dashmap` maps, declared to the verifier as opaque types; each is
//! keyed by the `(namespace, name)` pair of a resource index.  What a
//! table holds is named by an uninterpreted contents function, and a
//! small set of trusted wrappers states, over those names, what the
//! `dashmap` calls do.  Everything else about the reflector is
//! verified against these contracts.

use vstd::prelude::*;
use crate::device::Device;
use crate::index::ResourceIndex;
use crate::script::Script;

verus! {

#[verifier::external_type_specification]
#[verifier::external_body]
#[verifier::reject_recursive_types(K)]
#[verifier::reject_recursive_types(V)]
#[verifier::reject_recursive_types(S)]
pub struct ExDashMap<K, V, S>(dashmap::DashMap<K, V, S>);

#[verifier::external_type_specification]
#[verifier::external_body]
#[verifier::reject_recursive_types(K)]
#[verifier::reject_recursive_types(S)]
pub struct ExDashSet<K, S>(dashmap::DashSet<K, S>);

/// Key of a table entry: the views of a resource index's namespace
/// and name.
pub type TableKey = (Seq<char>, Seq<char>);

/// Concurrent store of devices.
pub type DeviceTable = dashmap::DashMap<(String, String), Device>;

/// Concurrent store of scripts.
pub type ScriptTable = dashmap::DashMap<(String, String), Script>;

/// Concurrent map from a device index to the set of indices of the
/// scripts whose read selector names the device.
pub type SelectorTable = dashmap::DashMap<(String, String), dashmap::DashSet<(String, String)>>;

/// What a [`DeviceTable`] holds.
pub uninterp spec fn device_table_view(t: DeviceTable) -> Map<TableKey, Device>;

/// What a [`ScriptTable`] holds.
pub uninterp spec fn script_table_view(t: ScriptTable) -> Map<TableKey, Script>;

/// What a [`SelectorTable`] holds.
pub uninterp spec fn selector_table_view(t: SelectorTable) -> Map<TableKey, Set<TableKey>>;

/// Makes a device table; nothing is assumed of it until
/// [`device_table_clear`] runs.
#[verifier::external_body]
pub fn device_table_new() -> DeviceTable {
    dashmap::DashMap::new()
}

/// Relies on `DashMap::clear`: every entry is removed.
#[verifier::external_body]
pub fn device_table_clear(t: &mut DeviceTable)
    ensures
        device_table_view(*final(t)) == device_table_view(*old(t)).remove_keys(
            device_table_view(*old(t)).dom(),
        ),
{
    t.clear();
}

/// Relies on `DashMap::insert`: the entry under the key is inserted or
/// replaced.
#[verifier::external_body]
pub fn device_table_insert(t: &mut DeviceTable, idx: &ResourceIndex<Device>, dev: Device)
    ensures
        device_table_view(*final(t)) == device_table_view(*old(t)).insert(idx@, dev),
{
    t.insert((idx.namespace.clone(), idx.name.clone()), dev);
}

/// Relies on `DashMap::remove`: the entry under the key, if any, is
/// taken out.
#[verifier::external_body]
pub fn device_table_remove(t: &mut DeviceTable, idx: &ResourceIndex<Device>) -> (r: bool)
    ensures
        r == device_table_view(*old(t)).contains_key(idx@),
        device_table_view(*final(t)) == device_table_view(*old(t)).remove(idx@),
{
    t.remove(&(idx.namespace.clone(), idx.name.clone())).is_some()
}

/// Relies on `DashMap::get`, with the derived `Clone` of the value
/// treated as value-faithful: the returned device is the stored one.
#[verifier::external_body]
pub fn device_table_get(t: &DeviceTable, idx: &ResourceIndex<Device>) -> (r: Option<Device>)
    ensures
        match r {
            Some(d) => device_table_view(*t).contains_key(idx@) && d == device_table_view(*t)[idx@],
            None => !device_table_view(*t).contains_key(idx@),
        },
{
    t.get(&(idx.namespace.clone(), idx.name.clone())).map(|e| e.value().clone())
}

/// Makes a script table; nothing is assumed of it until
/// [`script_table_clear`] runs.
#[verifier::external_body]
pub fn script_table_new() -> ScriptTable {
    dashmap::DashMap::new()
}

/// Relies on `DashMap::clear`: every entry is removed.
#[verifier::external_body]
pub fn script_table_clear(t: &mut ScriptTable)
    ensures
        script_table_view(*final(t)) == script_table_view(*old(t)).remove_keys(
            script_table_view(*old(t)).dom(),
        ),
{
    t.clear();
}

/// Relies on `DashMap::insert`: the entry under the key is inserted or
/// replaced.
#[verifier::external_body]
pub fn script_table_insert(t: &mut ScriptTable, idx: &ResourceIndex<Script>, script: Script)
    ensures
        script_table_view(*final(t)) == script_table_view(*old(t)).insert(idx@, script),
{
    t.insert((idx.namespace.clone(), idx.name.clone()), script);
}

/// Relies on `DashMap::remove`: the entry under the key, if any, is
/// taken out.
#[verifier::external_body]
pub fn script_table_remove(t: &mut ScriptTable, idx: &ResourceIndex<Script>) -> (r: bool)
    ensures
        r == script_table_view(*old(t)).contains_key(idx@),
        script_table_view(*final(t)) == script_table_view(*old(t)).remove(idx@),
{
    t.remove(&(idx.namespace.clone(), idx.name.clone())).is_some()
}

/// Relies on `DashMap::get`, with the derived `Clone` of the value
/// treated as value-faithful: the returned script is the stored one.
#[verifier::external_body]
pub fn script_table_get(t: &ScriptTable, idx: &ResourceIndex<Script>) -> (r: Option<Script>)
    ensures
        match r {
            Some(s) => script_table_view(*t).contains_key(idx@) && s == script_table_view(*t)[idx@],
            None => !script_table_view(*t).contains_key(idx@),
        },
{
    t.get(&(idx.namespace.clone(), idx.name.clone())).map(|e| e.value().clone())
}

/// Makes a selector table; nothing is assumed of it until
/// [`selector_table_clear`] runs.
#[verifier::external_body]
pub fn selector_table_new() -> SelectorTable {
    dashmap::DashMap::new()
}

/// Relies on `DashMap::clear`: every entry is removed.
#[verifier::external_body]
pub fn selector_table_clear(t: &mut SelectorTable)
    ensures
        selector_table_view(*final(t)) == selector_table_view(*old(t)).remove_keys(
            selector_table_view(*old(t)).dom(),
        ),
{
    t.clear();
}

/// Relies on `DashMap::entry` with `Entry::or_insert_with`, and on
/// `DashSet::insert`: the script index joins the set under the device
/// index, with an empty set put in place on first touch.
#[verifier::external_body]
pub fn selector_table_add(
    t: &mut SelectorTable,
    dev: &ResourceIndex<Device>,
    script: &ResourceIndex<Script>,
)
    ensures
        selector_table_view(*final(t)) == selector_table_view(*old(t)).insert(
            dev@,
            (if selector_table_view(*old(t)).contains_key(dev@) {
                selector_table_view(*old(t))[dev@]
            } else {
                Set::empty()
            }).insert(script@),
        ),
{
    t.entry((dev.namespace.clone(), dev.name.clone())).or_insert_with(dashmap::DashSet::new)
        .insert((script.namespace.clone(), script.name.clone()));
}

/// Relies on `DashMap::get` and `DashSet::remove`: the script index
/// leaves the set under the device index, if that entry exists.
#[verifier::external_body]
pub fn selector_table_remove_from(
    t: &mut SelectorTable,
    dev: &ResourceIndex<Device>,
    script: &ResourceIndex<Script>,
)
    ensures
        selector_table_view(*final(t)) == if selector_table_view(*old(t)).contains_key(dev@) {
            selector_table_view(*old(t)).insert(
                dev@,
                selector_table_view(*old(t))[dev@].remove(script@),
            )
        } else {
            selector_table_view(*old(t))
        },
{
    if let Some(entry) = t.get(&(dev.namespace.clone(), dev.name.clone())) {
        entry.value().remove(&(script.namespace.clone(), script.name.clone()));
    }
}

/// Relies on `DashMap::iter`: one index for each entry, in no stated
/// order, since the walk order of a hash map is not a function of its
/// contents.
#[verifier::external_body]
pub fn device_table_keys(t: &DeviceTable) -> (ks: Vec<ResourceIndex<Device>>)
    ensures
        ks@.map_values(|i: ResourceIndex<Device>| i@).to_set() == device_table_view(*t).dom(),
        ks@.map_values(|i: ResourceIndex<Device>| i@).no_duplicates(),
{
    t.iter().map(|e| ResourceIndex::new(e.key().0.clone(), e.key().1.clone())).collect()
}

/// Relies on `DashMap::iter`: one index for each entry, in no stated
/// order, since the walk order of a hash map is not a function of its
/// contents.
#[verifier::external_body]
pub fn script_table_keys(t: &ScriptTable) -> (ks: Vec<ResourceIndex<Script>>)
    ensures
        ks@.map_values(|i: ResourceIndex<Script>| i@).to_set() == script_table_view(*t).dom(),
        ks@.map_values(|i: ResourceIndex<Script>| i@).no_duplicates(),
{
    t.iter().map(|e| ResourceIndex::new(e.key().0.clone(), e.key().1.clone())).collect()
}

/// Relies on `DashMap::iter`: one index for each entry, in no stated
/// order, since the walk order of a hash map is not a function of its
/// contents.
#[verifier::external_body]
pub fn selector_table_keys(t: &SelectorTable) -> (ks: Vec<ResourceIndex<Device>>)
    ensures
        ks@.map_values(|i: ResourceIndex<Device>| i@).to_set() == selector_table_view(*t).dom(),
        ks@.map_values(|i: ResourceIndex<Device>| i@).no_duplicates(),
{
    t.iter().map(|e| ResourceIndex::new(e.key().0.clone(), e.key().1.clone())).collect()
}

/// Relies on `DashMap::get` and `DashSet::iter`: the indices in the
/// set under the device index, in no stated order.
#[verifier::external_body]
pub fn selector_table_get(t: &SelectorTable, dev: &ResourceIndex<Device>) -> (r: Option<
    Vec<ResourceIndex<Script>>,
>)
    ensures
        match r {
            Some(v) => selector_table_view(*t).contains_key(dev@) && v@.map_values(
                |i: ResourceIndex<Script>| i@,
            ).to_set() == selector_table_view(*t)[dev@] && v@.map_values(
                |i: ResourceIndex<Script>| i@,
            ).no_duplicates(),
            None => !selector_table_view(*t).contains_key(dev@),
        },
{
    t.get(&(dev.namespace.clone(), dev.name.clone())).map(
        |entry| entry.value().iter().map(
            |k| ResourceIndex::new(k.key().0.clone(), k.key().1.clone()),
        ).collect(),
    )
}

} // verus!
