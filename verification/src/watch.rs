//! Resource-watch events and their application to the reflector.
//! Whatever layer delivers them — an orchestrator watch or the
//! change-log poll — the same handlers keep the reflector current,
//! and a device event additionally fans out to the device-trigger
//! path.

use vstd::prelude::*;
use crate::device::Device;
use crate::index::ResourceIndex;
use crate::reflector::Reflector;
use crate::reflector::dev_key;
use crate::reflector::restarted_devices;
use crate::reflector::restarted_scripts;
use crate::reflector::restarted_selectors;
use crate::reflector::script_key;
use crate::reflector::selected_keys;
use crate::script::Script;

verus! {

/// One event of a resource watch stream.
#[derive(Debug, Clone)]
pub enum WatchEvent<K> {
    /// The resource was created or updated.
    Applied(K),
    /// The resource was deleted.
    Deleted(K),
    /// The watch restarted; the full current list is delivered.
    Restarted(Vec<K>),
}

/// Applies one device event to the reflector.
pub fn apply_device_event(reflector: &mut Reflector, ev: WatchEvent<Device>)
    ensures
        final(reflector).scripts() == old(reflector).scripts(),
        final(reflector).selectors() == old(reflector).selectors(),
        old(reflector).consistent() ==> final(reflector).consistent(),
        match ev {
            WatchEvent::Applied(d) => final(reflector).devices() == old(
                reflector,
            ).devices().insert(dev_key(d.spec.name@), d),
            WatchEvent::Deleted(d) => final(reflector).devices() == old(
                reflector,
            ).devices().remove(dev_key(d.spec.name@)),
            WatchEvent::Restarted(l) => final(reflector).devices() == restarted_devices(
                old(reflector).devices(),
                l@,
            ),
        },
{
    match ev {
        WatchEvent::Applied(d) => reflector.add_device(d),
        WatchEvent::Deleted(d) => {
            let _present = reflector.remove_device(&d);
        },
        WatchEvent::Restarted(l) => reflector.restart_device(l),
    }
}

/// Applies one script event to the reflector.
pub fn apply_script_event(reflector: &mut Reflector, ev: WatchEvent<Script>)
    ensures
        final(reflector).devices() == old(reflector).devices(),
        old(reflector).consistent() ==> final(reflector).consistent(),
        match ev {
            WatchEvent::Applied(s) => {
                &&& final(reflector).scripts() == old(reflector).scripts().insert(
                    script_key(s),
                    s,
                )
                &&& forall|k: (Seq<char>, Seq<char>)|
                    final(reflector).selectors().contains_key(k) <==> (old(
                        reflector,
                    ).selectors().contains_key(k) || selected_keys(s).contains(k))
            },
            WatchEvent::Deleted(s) => {
                &&& final(reflector).scripts() == old(reflector).scripts().remove(script_key(s))
                &&& final(reflector).selectors().dom() == old(reflector).selectors().dom()
                &&& forall|k: (Seq<char>, Seq<char>), q: (Seq<char>, Seq<char>)|
                    old(reflector).selectors().contains_key(k)
                        ==> (#[trigger] final(reflector).selectors()[k].contains(q)
                        <==> (old(reflector).selectors()[k].contains(q) && q != script_key(s)))
            },
            WatchEvent::Restarted(l) => {
                &&& final(reflector).scripts() == restarted_scripts(old(reflector).scripts(), l@)
                &&& final(reflector).selectors() == restarted_selectors(
                    old(reflector).selectors(),
                    l@,
                )
            },
        },
{
    match ev {
        WatchEvent::Applied(s) => reflector.add_script(s),
        WatchEvent::Deleted(s) => {
            let _present = reflector.remove_script(&s);
        },
        WatchEvent::Restarted(l) => reflector.restart_script(l),
    }
}

/// The device triggers one watch event gives rise to: the applied
/// device, each restarted device, and none for a deletion.
#[verifier::loop_isolation(false)]
pub fn device_event_triggers(ev: &WatchEvent<Device>) -> (r: Vec<ResourceIndex<Device>>)
    ensures
        match ev {
            WatchEvent::Applied(d) => r@.len() == 1 && r@[0]@ == ("default"@, d.spec.name@),
            WatchEvent::Deleted(_) => r@.len() == 0,
            WatchEvent::Restarted(l) => r@.len() == l@.len() && forall|j: int|
                0 <= j < l@.len() ==> (#[trigger] r@[j])@ == ("default"@, l@[j].spec.name@),
        },
{
    let mut r: Vec<ResourceIndex<Device>> = Vec::new();
    match ev {
        WatchEvent::Applied(d) => {
            r.push(d.index());
        },
        WatchEvent::Deleted(_) => {
        },
        WatchEvent::Restarted(l) => {
            let n = l.len();
            let mut i: usize = 0;
            while i < n
                invariant
                    i <= n,
                    n == l@.len(),
                    r@.len() == i,
                    forall|j: int|
                        0 <= j < i ==> (#[trigger] r@[j])@ == ("default"@, l@[j].spec.name@),
                decreases n - i,
            {
                r.push(l[i].index());
                i = i + 1;
            }
        },
    }
    r
}

} // verus!
