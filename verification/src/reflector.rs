//! The reflector: the authoritative in-memory mirror of the device
//! and script sets, together with the device-to-script selector
//! index.  Its three stores are the concurrent tables of
//! [`crate::tables`]; every operation here is verified against the
//! contracts of those tables.

use vstd::prelude::*;
use crate::command::ReadDevice;
use crate::command::WriteDevice;
use crate::device::Device;
use crate::device::Twin;
use crate::index::ResourceIndex;
use crate::script::Script;
use crate::strmap::StrMap;
use crate::tables::DeviceTable;
use crate::tables::ScriptTable;
use crate::tables::SelectorTable;
use crate::tables::TableKey;
use crate::tables::device_table_clear;
use crate::tables::device_table_get;
use crate::tables::device_table_insert;
use crate::tables::device_table_new;
use crate::tables::device_table_remove;
use crate::tables::device_table_view;
use crate::tables::script_table_clear;
use crate::tables::script_table_get;
use crate::tables::script_table_insert;
use crate::tables::script_table_new;
use crate::tables::script_table_remove;
use crate::tables::script_table_view;
use crate::tables::selector_table_add;
use crate::tables::selector_table_clear;
use crate::tables::selector_table_get;
use crate::tables::selector_table_keys;
use crate::tables::selector_table_new;
use crate::tables::selector_table_remove_from;
use crate::tables::selector_table_view;

verus! {

/// A lookup that found nothing.
#[derive(Debug, Clone, Copy, PartialEq, Eq, Structural)]
pub enum LookupError {
    ScriptNotFound,
    DeviceNotFound,
}

impl LookupError {
    /// A short account of the error, for logs.
    pub fn describe(&self) -> (r: String)
        ensures
            (*self == LookupError::ScriptNotFound ==> r@ == "Script not found in store"@) && (*self
                == LookupError::DeviceNotFound ==> r@ == "Device not found in store"@),
    {
        match self {
            LookupError::ScriptNotFound => String::from_str("Script not found in store"),
            LookupError::DeviceNotFound => String::from_str("Device not found in store"),
        }
    }
}

/// The key a device resource is stored under.
pub open spec fn dev_key(name: Seq<char>) -> TableKey {
    ("default"@, name)
}

/// The key a script resource is stored under.
pub open spec fn script_key(s: Script) -> TableKey {
    ("default"@, s.spec.manifest.name@)
}

/// The device keys a script's read selector names.
pub open spec fn selected_keys(s: Script) -> Set<TableKey> {
    match s.spec.read_selector.match_names {
        Some(mn) => Set::new(
            |k: TableKey|
                exists|a: Seq<char>| #[trigger] mn@.contains_key(a) && k == dev_key(mn@[a]@),
        ),
        None => Set::empty(),
    }
}

/// Whether the selector map records, under every device key the
/// script's read selector names, the key the script is stored under.
pub open spec fn script_selected_in(
    s: Script,
    k: TableKey,
    sel: Map<TableKey, Set<TableKey>>,
) -> bool {
    forall|kk: TableKey| #[trigger]
        selected_keys(s).contains(kk) ==> sel.contains_key(kk) && sel[kk].contains(k)
}

/// The entry of a selector map under a key, or the empty set where
/// the key has no entry yet.
pub open spec fn entry_or_empty(m: Map<TableKey, Set<TableKey>>, k: TableKey) -> Set<TableKey> {
    if m.contains_key(k) {
        m[k]
    } else {
        Set::empty()
    }
}

/// Whether one of the first `n` values of a selector's name map,
/// taken as a device name, keys the table entry `k`.
pub open spec fn named_in_first(mn: StrMap<String>, n: int, k: TableKey) -> bool {
    exists|j: int| 0 <= j < n && k == dev_key(#[trigger] (mn.val_seq()[j])@)
}

proof fn lemma_named_widen(mn: StrMap<String>, a: int, b: int, k: TableKey)
    requires
        named_in_first(mn, a, k),
        a <= b,
    ensures
        named_in_first(mn, b, k),
{
    let j0 = choose|j: int| 0 <= j < a && k == dev_key((mn.val_seq()[j])@);
    assert(0 <= j0 < b && k == dev_key((mn.val_seq()[j0])@));
}

proof fn lemma_named_shrink(mn: StrMap<String>, i: int, k: TableKey)
    requires
        named_in_first(mn, i + 1, k),
        0 <= i,
        k != dev_key((mn.val_seq()[i])@),
    ensures
        named_in_first(mn, i, k),
{
    let j0 = choose|j: int| 0 <= j < i + 1 && k == dev_key((mn.val_seq()[j])@);
    assert(j0 != i);
    assert(0 <= j0 < i && k == dev_key((mn.val_seq()[j0])@));
}

/// Whether one of the first `n` devices of a list keys the table
/// entry `k`.
pub open spec fn dev_covered(s: Seq<Device>, n: int, k: TableKey) -> bool {
    exists|i: int| 0 <= i < n && k == dev_key((#[trigger] s[i]).spec.name@)
}

/// The last device among the first `n` of a list that keys the table
/// entry `k`.
pub open spec fn last_dev(s: Seq<Device>, n: int, k: TableKey) -> Device
    decreases n,
{
    if n <= 0 {
        arbitrary()
    } else if k == dev_key(s[n - 1].spec.name@) {
        s[n - 1]
    } else {
        last_dev(s, n - 1, k)
    }
}

/// Whether one of the first `n` scripts of a list is stored under the
/// table entry `k`.
pub open spec fn script_covered(s: Seq<Script>, n: int, k: TableKey) -> bool {
    exists|i: int| 0 <= i < n && k == script_key(#[trigger] s[i])
}

/// The last script among the first `n` of a list that is stored under
/// the table entry `k`.
pub open spec fn last_script(s: Seq<Script>, n: int, k: TableKey) -> Script
    decreases n,
{
    if n <= 0 {
        arbitrary()
    } else if k == script_key(s[n - 1]) {
        s[n - 1]
    } else {
        last_script(s, n - 1, k)
    }
}

/// Whether the read selector of one of the first `n` scripts names
/// the device key `k`.
pub open spec fn selection_covered(s: Seq<Script>, n: int, k: TableKey) -> bool {
    exists|i: int| 0 <= i < n && selected_keys(#[trigger] s[i]).contains(k)
}

/// Whether one of the first `n` scripts is recorded as `q` under the
/// device key `k` by a restart.
pub open spec fn selection_added(s: Seq<Script>, n: int, k: TableKey, q: TableKey) -> bool {
    exists|i: int|
        0 <= i < n && selected_keys(#[trigger] s[i]).contains(k) && q == script_key(s[i])
}

proof fn lemma_dev_covered_step(s: Seq<Device>, i: int, k: TableKey)
    requires
        0 <= i,
    ensures
        dev_covered(s, i + 1, k) <==> (dev_covered(s, i, k) || k == dev_key(s[i].spec.name@)),
{
    if dev_covered(s, i + 1, k) {
        let j = choose|j: int| 0 <= j < i + 1 && k == dev_key((#[trigger] s[j]).spec.name@);
        if j < i {
            assert(dev_covered(s, i, k));
        }
    }
    if dev_covered(s, i, k) {
        let j = choose|j: int| 0 <= j < i && k == dev_key((#[trigger] s[j]).spec.name@);
        assert(0 <= j < i + 1 && k == dev_key(s[j].spec.name@));
    }
    if k == dev_key(s[i].spec.name@) {
        assert(0 <= i < i + 1 && k == dev_key(s[i].spec.name@));
        assert(dev_covered(s, i + 1, k));
    }
}

proof fn lemma_script_covered_step(s: Seq<Script>, i: int, k: TableKey)
    requires
        0 <= i,
    ensures
        script_covered(s, i + 1, k) <==> (script_covered(s, i, k) || k == script_key(s[i])),
{
    if script_covered(s, i + 1, k) {
        let j = choose|j: int| 0 <= j < i + 1 && k == script_key(#[trigger] s[j]);
        if j < i {
            assert(script_covered(s, i, k));
        }
    }
    if script_covered(s, i, k) {
        let j = choose|j: int| 0 <= j < i && k == script_key(#[trigger] s[j]);
        assert(0 <= j < i + 1 && k == script_key(s[j]));
    }
    if k == script_key(s[i]) {
        assert(0 <= i < i + 1 && k == script_key(s[i]));
        assert(script_covered(s, i + 1, k));
    }
}

proof fn lemma_selection_covered_step(s: Seq<Script>, i: int, k: TableKey)
    requires
        0 <= i,
    ensures
        selection_covered(s, i + 1, k) <==> (selection_covered(s, i, k) || selected_keys(
            s[i],
        ).contains(k)),
{
    if selection_covered(s, i + 1, k) {
        let j = choose|j: int| 0 <= j < i + 1 && selected_keys(#[trigger] s[j]).contains(k);
        if j < i {
            assert(selection_covered(s, i, k));
        }
    }
    if selection_covered(s, i, k) {
        let j = choose|j: int| 0 <= j < i && selected_keys(#[trigger] s[j]).contains(k);
        assert(0 <= j < i + 1 && selected_keys(s[j]).contains(k));
    }
    if selected_keys(s[i]).contains(k) {
        assert(0 <= i < i + 1 && selected_keys(s[i]).contains(k));
        assert(selection_covered(s, i + 1, k));
    }
}

proof fn lemma_selection_added_step(s: Seq<Script>, i: int, k: TableKey, q: TableKey)
    requires
        0 <= i,
    ensures
        selection_added(s, i + 1, k, q) <==> (selection_added(s, i, k, q) || (selected_keys(
            s[i],
        ).contains(k) && q == script_key(s[i]))),
{
    if selection_added(s, i + 1, k, q) {
        let j = choose|j: int|
            0 <= j < i + 1 && selected_keys(#[trigger] s[j]).contains(k) && q == script_key(s[j]);
        if j < i {
            assert(selection_added(s, i, k, q));
        }
    }
    if selection_added(s, i, k, q) {
        let j = choose|j: int|
            0 <= j < i && selected_keys(#[trigger] s[j]).contains(k) && q == script_key(s[j]);
        assert(0 <= j < i + 1 && selected_keys(s[j]).contains(k) && q == script_key(s[j]));
    }
    if selected_keys(s[i]).contains(k) && q == script_key(s[i]) {
        assert(0 <= i < i + 1 && selected_keys(s[i]).contains(k) && q == script_key(s[i]));
        assert(selection_added(s, i + 1, k, q));
    }
}

/// The reported twin values among the first `n` twins: each property
/// with a reported value is mapped to it, a later twin overriding an
/// earlier one of the same property name.
pub open spec fn reported_map(twins: Seq<Twin>, n: int) -> Map<Seq<char>, Seq<char>>
    decreases n,
{
    if n <= 0 {
        Map::empty()
    } else {
        match twins[n - 1].reported {
            Some(tp) => reported_map(twins, n - 1).insert(twins[n - 1].property_name@, tp.value@),
            None => reported_map(twins, n - 1),
        }
    }
}

/// The projection of a device's status into property-to-reported-value
/// form, as a run command carries it.
pub open spec fn device_reported(d: Device) -> Map<Seq<char>, Seq<char>> {
    match d.status {
        Some(st) => reported_map(st.twins@, st.twins@.len() as int),
        None => Map::empty(),
    }
}

/// Whether `a` is among the first `n` aliases of a selector's name
/// map.
pub open spec fn alias_in_first(mn: StrMap<String>, n: int, a: Seq<char>) -> bool {
    exists|j: int| 0 <= j < n && a == #[trigger] mn.key_seq()[j]
}

proof fn lemma_alias_step(mn: StrMap<String>, i: int, a: Seq<char>)
    requires
        0 <= i,
    ensures
        alias_in_first(mn, i + 1, a) <==> (alias_in_first(mn, i, a) || a == mn.key_seq()[i]),
{
    if alias_in_first(mn, i + 1, a) {
        let j = choose|j: int| 0 <= j < i + 1 && a == #[trigger] mn.key_seq()[j];
        if j < i {
            assert(alias_in_first(mn, i, a));
        }
    }
    if alias_in_first(mn, i, a) {
        let j = choose|j: int| 0 <= j < i && a == #[trigger] mn.key_seq()[j];
        assert(0 <= j < i + 1 && a == mn.key_seq()[j]);
    }
    if a == mn.key_seq()[i] {
        assert(0 <= i < i + 1 && a == mn.key_seq()[i]);
        assert(alias_in_first(mn, i + 1, a));
    }
}

/// With the whole key order in view, being among the aliases is the
/// same as being a key of the map.
proof fn lemma_alias_all(mn: StrMap<String>, a: Seq<char>)
    requires
        mn@.dom() == mn.key_seq().to_set(),
    ensures
        alias_in_first(mn, mn.key_seq().len() as int, a) <==> mn@.contains_key(a),
{
    if alias_in_first(mn, mn.key_seq().len() as int, a) {
        let j = choose|j: int| 0 <= j < mn.key_seq().len() && a == #[trigger] mn.key_seq()[j];
        assert(mn.key_seq().to_set().contains(a));
    }
    if mn@.contains_key(a) {
        assert(mn.key_seq().to_set().contains(a));
        assert(mn.key_seq().contains(a));
        let j = choose|j: int| 0 <= j < mn.key_seq().len() && mn.key_seq()[j] == a;
        assert(0 <= j < mn.key_seq().len() && a == mn.key_seq()[j]);
    }
}

/// Whether `a` is among the first `n` aliases of a selector's name map
/// and its device is in the store `devs`.
pub open spec fn present_in_first(
    mn: StrMap<String>,
    devs: Map<TableKey, Device>,
    n: int,
    a: Seq<char>,
) -> bool {
    exists|j: int|
        0 <= j < n && a == #[trigger] mn.key_seq()[j] && devs.contains_key(
            dev_key((mn.val_seq()[j])@),
        )
}

proof fn lemma_present_step(mn: StrMap<String>, devs: Map<TableKey, Device>, i: int, a: Seq<char>)
    requires
        0 <= i < mn.key_seq().len(),
    ensures
        present_in_first(mn, devs, i + 1, a) <==> (present_in_first(mn, devs, i, a) || (a
            == mn.key_seq()[i] && devs.contains_key(dev_key((mn.val_seq()[i])@)))),
{
    if present_in_first(mn, devs, i + 1, a) {
        let j = choose|j: int|
            0 <= j < i + 1 && a == #[trigger] mn.key_seq()[j] && devs.contains_key(
                dev_key((mn.val_seq()[j])@),
            );
        if j < i {
            assert(present_in_first(mn, devs, i, a));
        }
    }
    if present_in_first(mn, devs, i, a) {
        let j = choose|j: int|
            0 <= j < i && a == #[trigger] mn.key_seq()[j] && devs.contains_key(
                dev_key((mn.val_seq()[j])@),
            );
        assert(0 <= j < i + 1 && a == mn.key_seq()[j] && devs.contains_key(
            dev_key((mn.val_seq()[j])@),
        ));
    }
    if a == mn.key_seq()[i] && devs.contains_key(dev_key((mn.val_seq()[i])@)) {
        assert(0 <= i < i + 1 && a == mn.key_seq()[i] && devs.contains_key(
            dev_key((mn.val_seq()[i])@),
        ));
        assert(present_in_first(mn, devs, i + 1, a));
    }
}

/// The device store after a bulk re-insertion of `s` over `m`.
pub open spec fn restarted_devices(m: Map<TableKey, Device>, s: Seq<Device>) -> Map<
    TableKey,
    Device,
> {
    Map::new(
        |k: TableKey| m.contains_key(k) || dev_covered(s, s.len() as int, k),
        |k: TableKey|
            if dev_covered(s, s.len() as int, k) {
                last_dev(s, s.len() as int, k)
            } else {
                m[k]
            },
    )
}

/// The script store after a bulk re-insertion of `s` over `m`.
pub open spec fn restarted_scripts(m: Map<TableKey, Script>, s: Seq<Script>) -> Map<
    TableKey,
    Script,
> {
    Map::new(
        |k: TableKey| m.contains_key(k) || script_covered(s, s.len() as int, k),
        |k: TableKey|
            if script_covered(s, s.len() as int, k) {
                last_script(s, s.len() as int, k)
            } else {
                m[k]
            },
    )
}

/// The selector map after a bulk re-insertion of `s` over `m`.
pub open spec fn restarted_selectors(m: Map<TableKey, Set<TableKey>>, s: Seq<Script>) -> Map<
    TableKey,
    Set<TableKey>,
> {
    Map::new(
        |k: TableKey| m.contains_key(k) || selection_covered(s, s.len() as int, k),
        |k: TableKey|
            Set::new(
                |q: TableKey|
                    (m.contains_key(k) && m[k].contains(q)) || selection_added(
                        s,
                        s.len() as int,
                        k,
                        q,
                    ),
            ),
    )
}

/// Re-applying one restart changes nothing: a bulk re-insertion is
/// idempotent on all three stores.
pub proof fn lemma_restart_idempotent(
    md: Map<TableKey, Device>,
    ms: Map<TableKey, Script>,
    msel: Map<TableKey, Set<TableKey>>,
    devs: Seq<Device>,
    scripts: Seq<Script>,
)
    ensures
        restarted_devices(restarted_devices(md, devs), devs) == restarted_devices(md, devs),
        restarted_scripts(restarted_scripts(ms, scripts), scripts) == restarted_scripts(
            ms,
            scripts,
        ),
        restarted_selectors(restarted_selectors(msel, scripts), scripts) == restarted_selectors(
            msel,
            scripts,
        ),
{
    let d1 = restarted_devices(md, devs);
    assert(restarted_devices(d1, devs) =~= d1);
    let s1 = restarted_scripts(ms, scripts);
    assert(restarted_scripts(s1, scripts) =~= s1);
    let l1 = restarted_selectors(msel, scripts);
    assert forall|k: TableKey|
        restarted_selectors(l1, scripts).contains_key(k) implies #[trigger] restarted_selectors(
        l1,
        scripts,
    )[k] =~= l1[k] by {
        assert(l1.contains_key(k));
    }
    assert(restarted_selectors(l1, scripts) =~= l1);
}

/// What a correct readable projection of a script against a device
/// store looks like: one entry per alias of the read selector whose
/// device is present, carrying the device name and the reported twin
/// values.
pub open spec fn readable_projection(
    r: Map<Seq<char>, ReadDevice>,
    script: Script,
    devs: Map<TableKey, Device>,
) -> bool {
    match script.spec.read_selector.match_names {
        Some(mn) => (forall|a: Seq<char>|
            #![trigger r.contains_key(a)]
            r.contains_key(a) <==> (mn@.contains_key(a) && devs.contains_key(dev_key(mn@[a]@))))
            && (forall|a: Seq<char>| #[trigger]
            r.contains_key(a) ==> r[a].name@ == mn@[a]@ && r[a].status@.map_values(|v: String| v@)
                == device_reported(devs[dev_key(mn@[a]@)])),
        None => r == Map::<Seq<char>, ReadDevice>::empty(),
    }
}

/// What a correct writable projection of a script looks like: one
/// entry per alias of the write selector, carrying the device name.
pub open spec fn writable_projection(r: Map<Seq<char>, WriteDevice>, script: Script) -> bool {
    match script.spec.write_selector.match_names {
        Some(mn) => (forall|a: Seq<char>|
            #![trigger r.contains_key(a)]
            r.contains_key(a) <==> mn@.contains_key(a)) && (forall|a: Seq<char>| #[trigger]
            r.contains_key(a) ==> r[a].name@ == mn@[a]@),
        None => r == Map::<Seq<char>, WriteDevice>::empty(),
    }
}

/// Builds the property-to-reported-value block of one readable
/// device.
#[verifier::loop_isolation(false)]
fn project_reported(dev: &Device) -> (r: StrMap<String>)
    ensures
        r@.map_values(|v: String| v@) == device_reported(*dev),
{
    let mut status: StrMap<String> = StrMap::new();
    proof {
        assert(status@.map_values(|v: String| v@) =~= Map::<Seq<char>, Seq<char>>::empty());
    }
    match &dev.status {
        Some(st) => {
            let m = st.twins.len();
            let mut j: usize = 0;
            while j < m
                invariant
                    j <= m,
                    m == st.twins@.len(),
                    status@.map_values(|v: String| v@) == reported_map(st.twins@, j as int),
                decreases m - j,
            {
                let ghost j0 = j as int;
                let tw = &st.twins[j];
                match &tw.reported {
                    Some(tp) => {
                        let ghost before = status@;
                        status.insert(tw.property_name.clone(), tp.value.clone());
                        j = j + 1;
                        proof {
                            assert(status@.map_values(|v: String| v@) =~= reported_map(
                                st.twins@,
                                j as int,
                            ));
                        }
                    },
                    None => {
                        j = j + 1;
                    },
                }
            }
            proof {
                assert(device_reported(*dev) == reported_map(st.twins@, st.twins@.len() as int));
            }
        },
        None => {
        },
    }
    status
}

/// The in-memory mirror of devices, scripts and the selector index.
pub struct Reflector {
    pub selector_map: SelectorTable,
    pub device_store: DeviceTable,
    pub script_store: ScriptTable,
}

impl Reflector {
    /// What the device store holds.
    pub open spec fn devices(self) -> Map<TableKey, Device> {
        device_table_view(self.device_store)
    }

    /// What the script store holds.
    pub open spec fn scripts(self) -> Map<TableKey, Script> {
        script_table_view(self.script_store)
    }

    /// What the selector map holds.
    pub open spec fn selectors(self) -> Map<TableKey, Set<TableKey>> {
        selector_table_view(self.selector_map)
    }

    /// Reflector consistency: every stored script is recorded in the
    /// selector map under every device name of its read selector.
    pub open spec fn consistent(self) -> bool {
        forall|k: TableKey| #[trigger]
            self.scripts().contains_key(k) ==> script_selected_in(
                self.scripts()[k],
                k,
                self.selectors(),
            )
    }

    pub fn new() -> (r: Self)
        ensures
            r.devices() == Map::<TableKey, Device>::empty(),
            r.scripts() == Map::<TableKey, Script>::empty(),
            r.selectors() == Map::<TableKey, Set<TableKey>>::empty(),
            r.consistent(),
    {
        let mut selector_map = selector_table_new();
        let mut device_store = device_table_new();
        let mut script_store = script_table_new();
        selector_table_clear(&mut selector_map);
        device_table_clear(&mut device_store);
        script_table_clear(&mut script_store);
        let r = Reflector { selector_map, device_store, script_store };
        proof {
            assert(r.devices() =~= Map::<TableKey, Device>::empty());
            assert(r.scripts() =~= Map::<TableKey, Script>::empty());
            assert(r.selectors() =~= Map::<TableKey, Set<TableKey>>::empty());
        }
        r
    }

    /// Inserts or replaces a device.  The selector map is not touched:
    /// selectors are script-keyed.
    pub fn add_device(&mut self, dev: Device)
        ensures
            final(self).devices() == old(self).devices().insert(
                dev_key(dev.spec.name@),
                dev,
            ),
            final(self).scripts() == old(self).scripts(),
            final(self).selectors() == old(self).selectors(),
            old(self).consistent() ==> final(self).consistent(),
    {
        let idx = dev.index();
        device_table_insert(&mut self.device_store, &idx, dev);
    }

    /// Removes a device; the result says whether it was present, so
    /// the caller can log an absent one.  Selector entries for the
    /// device are tolerated and left in place.
    pub fn remove_device(&mut self, dev: &Device) -> (present: bool)
        ensures
            present == old(self).devices().contains_key(dev_key(dev.spec.name@)),
            final(self).devices() == old(self).devices().remove(dev_key(dev.spec.name@)),
            final(self).scripts() == old(self).scripts(),
            final(self).selectors() == old(self).selectors(),
            old(self).consistent() ==> final(self).consistent(),
    {
        let idx = dev.index();
        device_table_remove(&mut self.device_store, &idx)
    }

    /// Looks a script up, returning an owned copy.
    pub fn lookup_script(&self, index: &ResourceIndex<Script>) -> (r: Result<Script, LookupError>)
        ensures
            match r {
                Ok(s) => self.scripts().contains_key(index@) && s == self.scripts()[index@],
                Err(e) => e == LookupError::ScriptNotFound && !self.scripts().contains_key(index@),
            },
    {
        match script_table_get(&self.script_store, index) {
            Some(s) => Ok(s),
            None => Err(LookupError::ScriptNotFound),
        }
    }

    /// Looks a device up, returning an owned copy.
    pub fn lookup_device(&self, index: &ResourceIndex<Device>) -> (r: Result<Device, LookupError>)
        ensures
            match r {
                Ok(d) => self.devices().contains_key(index@) && d == self.devices()[index@],
                Err(e) => e == LookupError::DeviceNotFound && !self.devices().contains_key(index@),
            },
    {
        match device_table_get(&self.device_store, index) {
            Some(d) => Ok(d),
            None => Err(LookupError::DeviceNotFound),
        }
    }

    /// Bulk re-insertion of devices, applied on a watch restart.  The
    /// store is not emptied first; the entries are overlaid in order.
    #[verifier::loop_isolation(false)]
    pub fn restart_device(&mut self, devs: Vec<Device>)
        ensures
            final(self).devices() == restarted_devices(old(self).devices(), devs@),
            final(self).scripts() == old(self).scripts(),
            final(self).selectors() == old(self).selectors(),
            old(self).consistent() ==> final(self).consistent(),
    {
        let ghost all = devs@;
        let ghost m0 = old(self).devices();
        let mut v = devs;
        let n = v.len();
        let mut i: usize = 0;
        while i < n
            invariant
                i <= n,
                n == all.len(),
                v@ == all.skip(i as int),
                self.scripts() == old(self).scripts(),
                self.selectors() == old(self).selectors(),
                forall|k: TableKey|
                    self.devices().contains_key(k) <==> (m0.contains_key(k) || dev_covered(
                        all,
                        i as int,
                        k,
                    )),
                forall|k: TableKey| #[trigger]
                    dev_covered(all, i as int, k) ==> self.devices()[k] == last_dev(
                        all,
                        i as int,
                        k,
                    ),
                forall|k: TableKey|
                    m0.contains_key(k) && !dev_covered(all, i as int, k) ==> self.devices()[k]
                        == m0[k],
            decreases n - i,
        {
            let ghost i0 = i as int;
            let ghost before = self.devices();
            let d = v.remove(0);
            proof {
                assert(all.skip(i0)[0] == all[i0]);
                assert(v@ =~= all.skip(i0 + 1));
            }
            self.add_device(d);
            i = i + 1;
            proof {
                let dk = dev_key(all[i0].spec.name@);
                assert(self.devices() == before.insert(dk, all[i0]));
                assert forall|k: TableKey|
                    self.devices().contains_key(k) <==> (m0.contains_key(k) || dev_covered(
                        all,
                        i as int,
                        k,
                    )) by {
                    lemma_dev_covered_step(all, i0, k);
                }
                assert forall|k: TableKey| #[trigger]
                    dev_covered(all, i as int, k) implies self.devices()[k] == last_dev(
                    all,
                    i as int,
                    k,
                ) by {
                    lemma_dev_covered_step(all, i0, k);
                    if k == dk {
                        assert(last_dev(all, i as int, k) == all[i0]);
                    } else {
                        assert(last_dev(all, i as int, k) == last_dev(all, i0, k));
                        assert(self.devices()[k] == before[k]);
                    }
                }
                assert forall|k: TableKey|
                    m0.contains_key(k) && !dev_covered(all, i as int, k) implies self.devices()[k]
                    == m0[k] by {
                    lemma_dev_covered_step(all, i0, k);
                }
            }
        }
        proof {
            assert(self.devices() =~= restarted_devices(m0, all));
        }
    }

    /// Bulk re-insertion of scripts, applied on a watch restart.  The
    /// store is not emptied first; the entries are overlaid in order,
    /// and the selector map only gains memberships.
    #[verifier::loop_isolation(false)]
    pub fn restart_script(&mut self, scripts: Vec<Script>)
        ensures
            final(self).scripts() == restarted_scripts(old(self).scripts(), scripts@),
            final(self).devices() == old(self).devices(),
            final(self).selectors() == restarted_selectors(old(self).selectors(), scripts@),
            old(self).consistent() ==> final(self).consistent(),
    {
        let ghost all = scripts@;
        let ghost m0 = old(self).scripts();
        let ghost sel0 = old(self).selectors();
        let mut v = scripts;
        let n = v.len();
        let mut i: usize = 0;
        while i < n
            invariant
                i <= n,
                n == all.len(),
                v@ == all.skip(i as int),
                self.devices() == old(self).devices(),
                forall|k: TableKey|
                    self.scripts().contains_key(k) <==> (m0.contains_key(k) || script_covered(
                        all,
                        i as int,
                        k,
                    )),
                forall|k: TableKey| #[trigger]
                    script_covered(all, i as int, k) ==> self.scripts()[k] == last_script(
                        all,
                        i as int,
                        k,
                    ),
                forall|k: TableKey|
                    m0.contains_key(k) && !script_covered(all, i as int, k) ==> self.scripts()[k]
                        == m0[k],
                forall|k: TableKey|
                    self.selectors().contains_key(k) <==> (sel0.contains_key(k)
                        || selection_covered(all, i as int, k)),
                forall|k: TableKey, q: TableKey|
                    self.selectors().contains_key(k) ==> (#[trigger] self.selectors()[k].contains(
                        q,
                    ) <==> ((sel0.contains_key(k) && sel0[k].contains(q)) || selection_added(
                        all,
                        i as int,
                        k,
                        q,
                    ))),
                old(self).consistent() ==> self.consistent(),
            decreases n - i,
        {
            let ghost i0 = i as int;
            let ghost scripts_before = self.scripts();
            let ghost sel_before = self.selectors();
            let s = v.remove(0);
            proof {
                assert(all.skip(i0)[0] == all[i0]);
                assert(v@ =~= all.skip(i0 + 1));
            }
            self.add_script(s);
            i = i + 1;
            proof {
                let sk = script_key(all[i0]);
                assert(self.scripts() == scripts_before.insert(sk, all[i0]));
                assert forall|k: TableKey|
                    self.scripts().contains_key(k) <==> (m0.contains_key(k) || script_covered(
                        all,
                        i as int,
                        k,
                    )) by {
                    lemma_script_covered_step(all, i0, k);
                }
                assert forall|k: TableKey| #[trigger]
                    script_covered(all, i as int, k) implies self.scripts()[k] == last_script(
                    all,
                    i as int,
                    k,
                ) by {
                    lemma_script_covered_step(all, i0, k);
                    if k == sk {
                        assert(last_script(all, i as int, k) == all[i0]);
                    } else {
                        assert(last_script(all, i as int, k) == last_script(all, i0, k));
                        assert(self.scripts()[k] == scripts_before[k]);
                    }
                }
                assert forall|k: TableKey|
                    m0.contains_key(k) && !script_covered(all, i as int, k) implies self.scripts()[k]
                    == m0[k] by {
                    lemma_script_covered_step(all, i0, k);
                }
                assert forall|k: TableKey|
                    self.selectors().contains_key(k) <==> (sel0.contains_key(k)
                        || selection_covered(all, i as int, k)) by {
                    assert(self.selectors().contains_key(k) <==> (sel_before.contains_key(k)
                        || selected_keys(all[i0]).contains(k)));
                    assert(sel_before.contains_key(k) <==> (sel0.contains_key(k)
                        || selection_covered(all, i0, k)));
                    lemma_selection_covered_step(all, i0, k);
                }
                assert forall|k: TableKey, q: TableKey|
                    self.selectors().contains_key(k) implies (#[trigger] self.selectors()[k].contains(
                    q,
                ) <==> ((sel0.contains_key(k) && sel0[k].contains(q)) || selection_added(
                    all,
                    i as int,
                    k,
                    q,
                ))) by {
                    lemma_selection_covered_step(all, i0, k);
                    lemma_selection_added_step(all, i0, k, q);
                    if sel_before.contains_key(k) {
                        assert(sel_before[k].contains(q) <==> ((sel0.contains_key(k)
                            && sel0[k].contains(q)) || selection_added(all, i0, k, q)));
                    }
                }
            }
        }
        proof {
            assert(self.scripts() =~= restarted_scripts(m0, all));
            assert forall|k: TableKey|
                restarted_selectors(sel0, all).contains_key(k) implies self.selectors()[k]
                =~= #[trigger] restarted_selectors(sel0, all)[k] by {
            }
            assert(self.selectors() =~= restarted_selectors(sel0, all));
        }
    }

    /// Inserts or replaces a script, and records its index in the
    /// selector map under every device name of its read selector,
    /// creating entries on first touch.
    #[verifier::loop_isolation(false)]
    pub fn add_script(&mut self, script: Script)
        ensures
            final(self).scripts() == old(self).scripts().insert(script_key(script), script),
            final(self).devices() == old(self).devices(),
            forall|k: TableKey|
                #![trigger final(self).selectors().contains_key(k)]
                final(self).selectors().contains_key(k) <==> (old(self).selectors().contains_key(k)
                    || selected_keys(script).contains(k)),
            forall|k: TableKey, q: TableKey|
                final(self).selectors().contains_key(k)
                    ==> (#[trigger] final(self).selectors()[k].contains(q)
                    <==> ((old(self).selectors().contains_key(k)
                    && old(self).selectors()[k].contains(q))
                    || (selected_keys(script).contains(k) && q == script_key(script)))),
            old(self).consistent() ==> final(self).consistent(),
    {
        let idx = script.index();
        let ghost base = old(self).selectors();
        proof {
            assert(idx@ =~= script_key(script));
        }
        match &script.spec.read_selector.match_names {
            Some(mn) => {
                let n = mn.len();
                let mut i: usize = 0;
                while i < n
                    invariant
                        i <= n,
                        n == mn.key_seq().len(),
                        mn.key_seq().no_duplicates(),
                        mn.key_seq().len() == mn.val_seq().len(),
                        mn@.dom() == mn.key_seq().to_set(),
                        forall|j: int|
                            0 <= j < mn.key_seq().len() ==> mn@.contains_key(
                                #[trigger] mn.key_seq()[j],
                            ) && mn@[mn.key_seq()[j]] == mn.val_seq()[j],
                        idx@ == script_key(script),
                        self.device_store == old(self).device_store,
                        self.script_store == old(self).script_store,
                        forall|k: TableKey|
                            self.selectors().contains_key(k) <==> (base.contains_key(k)
                                || named_in_first(*mn, i as int, k)),
                        forall|k: TableKey, q: TableKey|
                            self.selectors().contains_key(k) ==> (#[trigger] self.selectors()[k].contains(
                                q,
                            ) <==> ((base.contains_key(k) && base[k].contains(q)) || (
                            named_in_first(*mn, i as int, k) && q == idx@))),
                    decreases n - i,
                {
                    let ghost before = self.selectors();
                    let dname = mn.val_at(i);
                    let didx = ResourceIndex::<Device>::new(
                        crate::device::default_namespace(),
                        dname.clone(),
                    );
                    let ghost i0 = i as int;
                    proof {
                        assert(didx@ =~= dev_key((mn.val_seq()[i0])@));
                    }
                    selector_table_add(&mut self.selector_map, &didx, &idx);
                    i = i + 1;
                    proof {
                        let dk = dev_key((mn.val_seq()[i0])@);
                        assert(named_in_first(*mn, i as int, dk));
                        assert(self.selectors() == before.insert(
                            dk,
                            entry_or_empty(before, dk).insert(idx@),
                        ));
                        assert forall|k: TableKey|
                            self.selectors().contains_key(k) <==> (base.contains_key(k)
                                || named_in_first(*mn, i as int, k)) by {
                            if k != dk {
                                if before.contains_key(k) && !base.contains_key(k) {
                                    lemma_named_widen(*mn, i0, i as int, k);
                                }
                                if named_in_first(*mn, i as int, k) && !base.contains_key(k) {
                                    lemma_named_shrink(*mn, i0, k);
                                }
                            }
                        }
                        assert forall|k: TableKey, q: TableKey|
                            self.selectors().contains_key(k) implies (#[trigger] self.selectors()[k].contains(
                            q,
                        ) <==> ((base.contains_key(k) && base[k].contains(q)) || (named_in_first(
                            *mn,
                            i as int,
                            k,
                        ) && q == idx@))) by {
                            if k == dk {
                                assert(self.selectors()[k] == entry_or_empty(before, dk).insert(
                                    idx@,
                                ));
                                if before.contains_key(dk) {
                                    assert(before[dk].contains(q) <==> ((base.contains_key(dk)
                                        && base[dk].contains(q)) || (named_in_first(
                                        *mn,
                                        i0,
                                        dk,
                                    ) && q == idx@)));
                                    if named_in_first(*mn, i0, dk) {
                                        lemma_named_widen(*mn, i0, i as int, dk);
                                    }
                                }
                            } else {
                                assert(self.selectors()[k] == before[k]);
                                if named_in_first(*mn, i as int, k) {
                                    lemma_named_shrink(*mn, i0, k);
                                }
                                if named_in_first(*mn, i0, k) {
                                    lemma_named_widen(*mn, i0, i as int, k);
                                }
                            }
                        }
                    }
                }
                proof {
                    assert forall|k: TableKey|
                        named_in_first(*mn, n as int, k) <==> selected_keys(script).contains(
                        k,
                    ) by {
                        if named_in_first(*mn, n as int, k) {
                            let j = choose|j: int|
                                0 <= j < n && k == dev_key((mn.val_seq()[j])@);
                            assert(mn@.contains_key(mn.key_seq()[j]) && mn@[mn.key_seq()[j]]
                                == mn.val_seq()[j]);
                            assert(selected_keys(script).contains(k));
                        }
                        if selected_keys(script).contains(k) {
                            let a = choose|a: Seq<char>| #[trigger]
                                mn@.contains_key(a) && k == dev_key(mn@[a]@);
                            assert(mn.key_seq().to_set().contains(a));
                            assert(mn.key_seq().contains(a));
                            let j = choose|j: int|
                                0 <= j < mn.key_seq().len() && mn.key_seq()[j] == a;
                            assert(mn@[mn.key_seq()[j]] == mn.val_seq()[j]);
                            assert(0 <= j < n && k == dev_key((mn.val_seq()[j])@));
                            assert(named_in_first(*mn, n as int, k));
                        }
                    }
                }
            },
            None => {
                proof {
                    assert(selected_keys(script) =~= Set::<TableKey>::empty());
                }
            },
        }
        script_table_insert(&mut self.script_store, &idx, script);
        proof {
            let cur = *self;
            assert(cur.scripts() == old(self).scripts().insert(script_key(script), script));
            if old(self).consistent() {
                assert forall|k: TableKey| #[trigger]
                    cur.scripts().contains_key(k) implies script_selected_in(
                    cur.scripts()[k],
                    k,
                    cur.selectors(),
                ) by {
                    if k == script_key(script) {
                        assert(cur.scripts()[k] == script);
                        assert forall|kk: TableKey|
                            selected_keys(script).contains(
                            kk,
                        ) implies cur.selectors().contains_key(kk) && #[trigger] cur.selectors()[kk].contains(
                            k,
                        ) by {
                            assert(cur.selectors().contains_key(kk) && cur.selectors()[kk].contains(
                                k,
                            ));
                        }
                    } else {
                        let s = cur.scripts()[k];
                        assert(old(self).scripts().contains_key(k) && old(self).scripts()[k] == s);
                        assert(script_selected_in(s, k, old(self).selectors()));
                        assert forall|kk: TableKey|
                            selected_keys(s).contains(
                            kk,
                        ) implies cur.selectors().contains_key(kk) && #[trigger] cur.selectors()[kk].contains(
                            k,
                        ) by {
                            assert(old(self).selectors().contains_key(kk) && old(
                                self,
                            ).selectors()[kk].contains(k));
                            assert(cur.selectors().contains_key(kk) && cur.selectors()[kk].contains(
                                k,
                            ));
                        }
                    }
                }
            }
        }
    }

    /// Deletes a script from the store and removes its index from
    /// every selector entry; empty entries are left in place.  The
    /// result says whether the script was present, so the caller can
    /// log an absent one.
    #[verifier::loop_isolation(false)]
    pub fn remove_script(&mut self, script: &Script) -> (present: bool)
        ensures
            present == old(self).scripts().contains_key(script_key(*script)),
            final(self).scripts() == old(self).scripts().remove(script_key(*script)),
            final(self).devices() == old(self).devices(),
            final(self).selectors().dom() == old(self).selectors().dom(),
            forall|k: TableKey, q: TableKey|
                old(self).selectors().contains_key(k)
                    ==> (#[trigger] final(self).selectors()[k].contains(q)
                    <==> (old(self).selectors()[k].contains(q) && q != script_key(*script))),
            old(self).consistent() ==> final(self).consistent(),
    {
        let idx = script.index();
        proof {
            assert(idx@ =~= script_key(*script));
        }
        let keys = selector_table_keys(&self.selector_map);
        let ghost key_views = keys@.map_values(|i: ResourceIndex<Device>| i@);
        let ghost base = old(self).selectors();
        let n = keys.len();
        for i in 0..n
            invariant
                n == keys@.len(),
                key_views == keys@.map_values(|i: ResourceIndex<Device>| i@),
                key_views.to_set() == base.dom(),
                key_views.no_duplicates(),
                idx@ == script_key(*script),
                self.device_store == old(self).device_store,
                self.script_store == old(self).script_store,
                self.selectors().dom() == base.dom(),
                forall|j: int|
                    0 <= j < i ==> self.selectors()[#[trigger] key_views[j]]
                        == base[key_views[j]].remove(idx@),
                forall|j: int|
                    i <= j < n ==> self.selectors()[#[trigger] key_views[j]] == base[key_views[j]],
            decreases n - i,
        {
            let ghost before = self.selectors();
            proof {
                assert(key_views[i as int] == keys@[i as int]@);
                assert(key_views.to_set().contains(key_views[i as int]));
            }
            selector_table_remove_from(&mut self.selector_map, &keys[i], &idx);
            proof {
                let dk = key_views[i as int];
                assert(before.contains_key(dk));
                assert(self.selectors() == before.insert(dk, before[dk].remove(idx@)));
                assert(self.selectors().dom() =~= base.dom());
                assert forall|j: int| 0 <= j < i + 1 implies self.selectors()[
                    #[trigger] key_views[j]
                ] == base[key_views[j]].remove(idx@) by {
                    if j < i {
                        assert(key_views[j] != dk);
                    }
                }
            }
        }
        proof {
            assert forall|k: TableKey| #[trigger]
                base.contains_key(k) implies self.selectors()[k] == base[k].remove(idx@) by {
                assert(key_views.to_set().contains(k));
                let j = choose|j: int| 0 <= j < key_views.len() && key_views[j] == k;
                assert(self.selectors()[key_views[j]] == base[key_views[j]].remove(idx@));
            }
        }
        let present = script_table_remove(&mut self.script_store, &idx);
        proof {
            let cur = *self;
            if old(self).consistent() {
                assert forall|k: TableKey| #[trigger]
                    cur.scripts().contains_key(k) implies script_selected_in(
                    cur.scripts()[k],
                    k,
                    cur.selectors(),
                ) by {
                    let s = cur.scripts()[k];
                    assert(old(self).scripts().contains_key(k) && old(self).scripts()[k] == s);
                    assert(k != script_key(*script));
                    assert(script_selected_in(s, k, old(self).selectors()));
                    assert forall|kk: TableKey|
                        selected_keys(s).contains(
                        kk,
                    ) implies cur.selectors().contains_key(kk) && #[trigger] cur.selectors()[kk].contains(
                        k,
                    ) by {
                        assert(old(self).selectors().contains_key(kk) && old(
                            self,
                        ).selectors()[kk].contains(k));
                        assert(cur.selectors()[kk] == old(self).selectors()[kk].remove(idx@));
                    }
                }
            }
        }
        present
    }

    /// Projects the writable devices of a script: one entry per alias
    /// of its write selector's name map, carrying the device name.  No
    /// store lookup is needed.
    #[verifier::loop_isolation(false)]
    pub fn lookup_writable(&self, script: &Script) -> (r: StrMap<WriteDevice>)
        ensures
            writable_projection(r@, *script),
    {
        let mut r: StrMap<WriteDevice> = StrMap::new();
        match &script.spec.write_selector.match_names {
            Some(mn) => {
                let n = mn.len();
                let mut i: usize = 0;
                while i < n
                    invariant
                        i <= n,
                        n == mn.key_seq().len(),
                        mn.key_seq().no_duplicates(),
                        n == mn.val_seq().len(),
                        mn@.dom() == mn.key_seq().to_set(),
                        forall|j: int|
                            0 <= j < n ==> mn@.contains_key(#[trigger] mn.key_seq()[j])
                                && mn@[mn.key_seq()[j]] == mn.val_seq()[j],
                        forall|a: Seq<char>|
                            #![trigger r@.contains_key(a)]
                            r@.contains_key(a) <==> alias_in_first(*mn, i as int, a),
                        forall|a: Seq<char>| #[trigger]
                            r@.contains_key(a) ==> mn@.contains_key(a) && r@[a].name@ == mn@[a]@,
                    decreases n - i,
                {
                    let ghost i0 = i as int;
                    let alias = mn.key_at(i);
                    let dname = mn.val_at(i);
                    r.insert(alias.clone(), WriteDevice { name: dname.clone() });
                    i = i + 1;
                    proof {
                        assert forall|a: Seq<char>|
                            #![trigger r@.contains_key(a)]
                            r@.contains_key(a) <==> alias_in_first(*mn, i as int, a) by {
                            lemma_alias_step(*mn, i0, a);
                        }
                    }
                }
                proof {
                    assert forall|a: Seq<char>|
                        #![trigger r@.contains_key(a)]
                        r@.contains_key(a) <==> mn@.contains_key(a) by {
                        lemma_alias_all(*mn, a);
                    }
                }
            },
            None => {
            },
        }
        r
    }

    /// Projects the readable devices of a script: one entry per alias
    /// of its read selector's name map whose device is in the store,
    /// carrying the device name and its reported twin values.  An
    /// absent device is skipped, not an error.
    #[verifier::loop_isolation(false)]
    pub fn lookup_readable(&self, script: &Script) -> (r: StrMap<ReadDevice>)
        ensures
            readable_projection(r@, *script, self.devices()),
    {
        let mut r: StrMap<ReadDevice> = StrMap::new();
        match &script.spec.read_selector.match_names {
            Some(mn) => {
                let n = mn.len();
                let mut i: usize = 0;
                while i < n
                    invariant
                        i <= n,
                        n == mn.key_seq().len(),
                        mn.key_seq().no_duplicates(),
                        n == mn.val_seq().len(),
                        mn@.dom() == mn.key_seq().to_set(),
                        forall|j: int|
                            0 <= j < n ==> mn@.contains_key(#[trigger] mn.key_seq()[j])
                                && mn@[mn.key_seq()[j]] == mn.val_seq()[j],
                        forall|a: Seq<char>|
                            #![trigger r@.contains_key(a)]
                            r@.contains_key(a) <==> present_in_first(
                                *mn,
                                self.devices(),
                                i as int,
                                a,
                            ),
                        forall|a: Seq<char>| #[trigger]
                            r@.contains_key(a) ==> mn@.contains_key(a) && r@[a].name@ == mn@[a]@
                                && r@[a].status@.map_values(|v: String| v@) == device_reported(
                                self.devices()[dev_key(mn@[a]@)],
                            ),
                    decreases n - i,
                {
                    let ghost i0 = i as int;
                    let alias = mn.key_at(i);
                    let dname = mn.val_at(i);
                    let didx = ResourceIndex::<Device>::new(
                        crate::device::default_namespace(),
                        dname.clone(),
                    );
                    proof {
                        assert(didx@ =~= dev_key((mn.val_seq()[i0])@));
                        assert(dev_key((mn.val_seq()[i0])@) =~= dev_key(mn@[mn.key_seq()[i0]]@));
                    }
                    match self.lookup_device(&didx) {
                        Ok(dev) => {
                            let status = project_reported(&dev);
                            let ghost before = r;
                            r.insert(
                                alias.clone(),
                                ReadDevice { name: dname.clone(), status },
                            );
                            i = i + 1;
                            proof {
                                let ak = mn.key_seq()[i0];
                                assert forall|a: Seq<char>|
                                    #![trigger r@.contains_key(a)]
                                    r@.contains_key(a) <==> present_in_first(
                                        *mn,
                                        self.devices(),
                                        i as int,
                                        a,
                                    ) by {
                                    lemma_present_step(*mn, self.devices(), i0, a);
                                }
                            }
                        },
                        Err(_) => {
                            i = i + 1;
                            proof {
                                assert forall|a: Seq<char>|
                                    #![trigger r@.contains_key(a)]
                                    r@.contains_key(a) <==> present_in_first(
                                        *mn,
                                        self.devices(),
                                        i as int,
                                        a,
                                    ) by {
                                    lemma_present_step(*mn, self.devices(), i0, a);
                                }
                            }
                        },
                    }
                }
                proof {
                    assert forall|a: Seq<char>|
                        #![trigger r@.contains_key(a)]
                        r@.contains_key(a) <==> (mn@.contains_key(a)
                            && self.devices().contains_key(dev_key(mn@[a]@))) by {
                        if present_in_first(*mn, self.devices(), n as int, a) {
                            let j = choose|j: int|
                                0 <= j < n && a == #[trigger] mn.key_seq()[j]
                                    && self.devices().contains_key(dev_key((mn.val_seq()[j])@));
                            assert(mn@.contains_key(a) && mn@[a] == mn.val_seq()[j]);
                        }
                        if mn@.contains_key(a) && self.devices().contains_key(dev_key(mn@[a]@)) {
                            assert(mn.key_seq().to_set().contains(a));
                            assert(mn.key_seq().contains(a));
                            let j = choose|j: int|
                                0 <= j < mn.key_seq().len() && mn.key_seq()[j] == a;
                            assert(mn@[mn.key_seq()[j]] == mn.val_seq()[j]);
                            assert(present_in_first(*mn, self.devices(), n as int, a));
                        }
                    }
                }
            },
            None => {
            },
        }
        r
    }

    /// The indices of the stored devices, in no stated order.
    pub fn device_keys(&self) -> (ks: Vec<ResourceIndex<Device>>)
        ensures
            ks@.map_values(|i: ResourceIndex<Device>| i@).to_set() == self.devices().dom(),
            ks@.map_values(|i: ResourceIndex<Device>| i@).no_duplicates(),
    {
        crate::tables::device_table_keys(&self.device_store)
    }

    /// The indices of the stored scripts, in no stated order.
    pub fn script_keys(&self) -> (ks: Vec<ResourceIndex<Script>>)
        ensures
            ks@.map_values(|i: ResourceIndex<Script>| i@).to_set() == self.scripts().dom(),
            ks@.map_values(|i: ResourceIndex<Script>| i@).no_duplicates(),
    {
        crate::tables::script_table_keys(&self.script_store)
    }

    /// The device indices with a selector entry, in no stated order.
    pub fn selector_keys(&self) -> (ks: Vec<ResourceIndex<Device>>)
        ensures
            ks@.map_values(|i: ResourceIndex<Device>| i@).to_set() == self.selectors().dom(),
            ks@.map_values(|i: ResourceIndex<Device>| i@).no_duplicates(),
    {
        selector_table_keys(&self.selector_map)
    }

    /// The scripts whose read selector names the device, as recorded
    /// in the selector map.  A device without an entry is an error for
    /// this call; the device-trigger path treats it as "no scripts".
    pub fn map_device_to_script(&self, device: &ResourceIndex<Device>) -> (r: Result<
        Vec<ResourceIndex<Script>>,
        LookupError,
    >)
        ensures
            match r {
                Ok(v) => self.selectors().contains_key(device@) && v@.map_values(
                    |i: ResourceIndex<Script>| i@,
                ).to_set() == self.selectors()[device@] && v@.map_values(
                    |i: ResourceIndex<Script>| i@,
                ).no_duplicates(),
                Err(e) => e == LookupError::DeviceNotFound && !self.selectors().contains_key(
                    device@,
                ),
            },
    {
        match selector_table_get(&self.selector_map, device) {
            Some(v) => Ok(v),
            None => Err(LookupError::DeviceNotFound),
        }
    }
}

} // verus!
