//! The reflector: store operations, selector-index consistency,
//! restart idempotence and remove-add convergence.

use ruleengine::device::Device;
use ruleengine::device::DeviceSpec;
use ruleengine::device::DeviceStatus;
use ruleengine::device::LocalObjectReference;
use ruleengine::device::NodeSelector;
use ruleengine::device::Twin;
use ruleengine::device::TwinProperty;
use ruleengine::index::ResourceIndex;
use ruleengine::reflector::LookupError;
use ruleengine::reflector::Reflector;
use ruleengine::script::DeviceSelectorSet;
use ruleengine::script::Manifest;
use ruleengine::script::Policy;
use ruleengine::script::QosPolicy;
use ruleengine::script::Script;
use ruleengine::script::ScriptSpec;
use ruleengine::script::ScriptType;
use ruleengine::strmap::StrMap;
use ruleengine::changelog::apply_change_event;
use ruleengine::watch::WatchEvent;
use ruleengine::watch::apply_device_event;
use ruleengine::watch::apply_script_event;
use ruleengine::watch::device_event_triggers;

fn device(name: &str, twins: Vec<Twin>) -> Device {
    Device {
        spec: DeviceSpec {
            name: name.to_string(),
            device_model_ref: LocalObjectReference { name: None },
            protocol: None,
            property_visitors: Vec::new(),
            data: None,
            node_selector: NodeSelector { node_selector_terms: Vec::new() },
        },
        status: Some(DeviceStatus { twins }),
    }
}

fn script(name: &str, read_names: &[(&str, &str)]) -> Script {
    let match_names = if read_names.is_empty() {
        None
    } else {
        let mut m = StrMap::new();
        for (alias, dev) in read_names {
            m.insert(alias.to_string(), dev.to_string());
        }
        Some(m)
    };
    Script {
        spec: ScriptSpec {
            read_selector: DeviceSelectorSet { match_names, match_abilities: None },
            write_selector: DeviceSelectorSet { match_names: None, match_abilities: None },
            env: StrMap::new(),
            manifest: Manifest {
                script_type: ScriptType::Js,
                name: name.to_string(),
                version: "0.1".to_string(),
                register: None,
            },
            execute_policy: Policy {
                read_change: true,
                webhook: true,
                cron: String::new(),
                qos: QosPolicy::AtMostOnce,
            },
        },
        status: None,
    }
}

fn names_of(v: &[ResourceIndex<Script>]) -> Vec<String> {
    let mut names: Vec<String> = v.iter().map(|i| i.name.clone()).collect();
    names.sort();
    names
}

#[test]
fn add_then_lookup_device() {
    let mut r = Reflector::new();
    r.add_device(device("dht11", vec![]));
    let idx: ResourceIndex<Device> = ResourceIndex::new("default".to_string(), "dht11".to_string());
    let d = r.lookup_device(&idx).unwrap();
    assert_eq!(d.spec.name, "dht11");
    let missing: ResourceIndex<Device> =
        ResourceIndex::new("default".to_string(), "nope".to_string());
    assert_eq!(r.lookup_device(&missing).unwrap_err(), LookupError::DeviceNotFound);
}

#[test]
fn add_then_lookup_script() {
    let mut r = Reflector::new();
    r.add_script(script("rule1", &[]));
    let idx: ResourceIndex<Script> = ResourceIndex::new("default".to_string(), "rule1".to_string());
    let s = r.lookup_script(&idx).unwrap();
    assert_eq!(s.spec.manifest.name, "rule1");
    let missing: ResourceIndex<Script> =
        ResourceIndex::new("default".to_string(), "nope".to_string());
    assert_eq!(r.lookup_script(&missing).unwrap_err(), LookupError::ScriptNotFound);
}

#[test]
fn remove_device_reports_absence() {
    let mut r = Reflector::new();
    let d = device("dht11", vec![]);
    r.add_device(d.clone());
    assert!(r.remove_device(&d));
    assert!(!r.remove_device(&d));
}

#[test]
fn selector_index_follows_scripts() {
    // Every stored script is recorded under each device name of its
    // read selector.
    let mut r = Reflector::new();
    r.add_script(script("rule1", &[("t", "dht11"), ("s", "switch")]));
    r.add_script(script("rule2", &[("x", "dht11")]));
    let didx: ResourceIndex<Device> =
        ResourceIndex::new("default".to_string(), "dht11".to_string());
    let hit = r.map_device_to_script(&didx).unwrap();
    assert_eq!(names_of(&hit), vec!["rule1".to_string(), "rule2".to_string()]);
    let sidx: ResourceIndex<Device> =
        ResourceIndex::new("default".to_string(), "switch".to_string());
    let hit = r.map_device_to_script(&sidx).unwrap();
    assert_eq!(names_of(&hit), vec!["rule1".to_string()]);

    r.remove_script(&script("rule1", &[("t", "dht11"), ("s", "switch")]));
    let hit = r.map_device_to_script(&didx).unwrap();
    assert_eq!(names_of(&hit), vec!["rule2".to_string()]);
    // The emptied entry stays in place.
    let hit = r.map_device_to_script(&sidx).unwrap();
    assert!(hit.is_empty());
}

#[test]
fn restart_converges_after_one_application() {
    // Applying the same Restarted list twice leaves every lookup as
    // after one application.
    let l = vec![script("rule1", &[("t", "dht11")]), script("rule2", &[("y", "kdh12")])];
    let mut once = Reflector::new();
    once.restart_script(l.clone());
    let mut twice = Reflector::new();
    twice.restart_script(l.clone());
    twice.restart_script(l.clone());
    for name in ["rule1", "rule2"] {
        let idx: ResourceIndex<Script> =
            ResourceIndex::new("default".to_string(), name.to_string());
        assert_eq!(
            once.lookup_script(&idx).unwrap().spec.manifest.name,
            twice.lookup_script(&idx).unwrap().spec.manifest.name
        );
    }
    for dev in ["dht11", "kdh12"] {
        let didx: ResourceIndex<Device> =
            ResourceIndex::new("default".to_string(), dev.to_string());
        assert_eq!(
            names_of(&once.map_device_to_script(&didx).unwrap()),
            names_of(&twice.map_device_to_script(&didx).unwrap())
        );
    }
}

#[test]
fn restart_devices_overlays_entries() {
    let mut r = Reflector::new();
    r.add_device(device("dht11", vec![Twin {
        property_name: "temperature".to_string(),
        desired: TwinProperty::new("10".to_string()),
        reported: None,
    }]));
    r.restart_device(vec![device("dht11", vec![]), device("kdh12", vec![])]);
    r.restart_device(vec![device("dht11", vec![]), device("kdh12", vec![])]);
    let idx: ResourceIndex<Device> = ResourceIndex::new("default".to_string(), "dht11".to_string());
    let d = r.lookup_device(&idx).unwrap();
    assert!(d.status.unwrap().twins.is_empty());
    let idx2: ResourceIndex<Device> =
        ResourceIndex::new("default".to_string(), "kdh12".to_string());
    assert!(r.lookup_device(&idx2).is_ok());
}

#[test]
fn remove_add_matches_single_add() {
    // add, remove, add again converges to the state of a single add
    // followed by the device insertion.
    let s = script("rule1", &[("t", "dht11")]);
    let d = device("dht11", vec![]);

    let mut a = Reflector::new();
    a.add_script(s.clone());
    a.add_device(d.clone());
    a.remove_script(&s);
    a.add_script(s.clone());

    let mut b = Reflector::new();
    b.add_script(s.clone());
    b.add_device(d.clone());

    let didx: ResourceIndex<Device> =
        ResourceIndex::new("default".to_string(), "dht11".to_string());
    assert_eq!(
        names_of(&a.map_device_to_script(&didx).unwrap()),
        names_of(&b.map_device_to_script(&didx).unwrap())
    );
}

#[test]
fn readable_projection_keeps_reported_values_only() {
    let mut r = Reflector::new();
    r.add_device(device("dht11", vec![
        Twin {
            property_name: "temperature".to_string(),
            desired: TwinProperty::new("10".to_string()),
            reported: Some(TwinProperty::new("42".to_string())),
        },
        Twin {
            property_name: "humidity".to_string(),
            desired: TwinProperty::new("50".to_string()),
            reported: None,
        },
    ]));
    let s = script("rule1", &[("t", "dht11"), ("missing", "nodev")]);
    let readable = r.lookup_readable(&s);
    assert_eq!(readable.len(), 1);
    let rd = readable.get(&"t".to_string()).unwrap();
    assert_eq!(rd.name, "dht11");
    assert_eq!(rd.status.get(&"temperature".to_string()).unwrap(), "42");
    assert!(rd.status.get(&"humidity".to_string()).is_none());
}

#[test]
fn lookup_error_messages() {
    assert_eq!(LookupError::ScriptNotFound.describe(), "Script not found in store");
    assert_eq!(LookupError::DeviceNotFound.describe(), "Device not found in store");
}

#[test]
fn key_listings_mirror_the_stores() {
    let mut r = Reflector::new();
    assert!(r.device_keys().is_empty());
    assert!(r.script_keys().is_empty());
    r.add_device(device("dht11", vec![]));
    r.add_device(device("kdh12", vec![]));
    r.add_script(script("rule1", &[("t", "dht11")]));
    let mut devs: Vec<String> = r.device_keys().into_iter().map(|i| i.name).collect();
    devs.sort();
    assert_eq!(devs, vec!["dht11".to_string(), "kdh12".to_string()]);
    let scripts: Vec<String> = r.script_keys().into_iter().map(|i| i.name).collect();
    assert_eq!(scripts, vec!["rule1".to_string()]);
    let sel: Vec<String> = r.selector_keys().into_iter().map(|i| i.name).collect();
    assert_eq!(sel, vec!["dht11".to_string()]);
}

#[test]
fn watch_events_drive_the_reflector() {
    let mut r = Reflector::new();
    apply_script_event(&mut r, WatchEvent::Applied(script("rule1", &[("t", "dht11")])));
    apply_device_event(&mut r, WatchEvent::Applied(device("dht11", vec![])));
    let didx: ResourceIndex<Device> =
        ResourceIndex::new("default".to_string(), "dht11".to_string());
    assert_eq!(r.map_device_to_script(&didx).unwrap().len(), 1);
    apply_script_event(&mut r, WatchEvent::Deleted(script("rule1", &[("t", "dht11")])));
    assert!(r.map_device_to_script(&didx).unwrap().is_empty());
    apply_device_event(&mut r, WatchEvent::Deleted(device("dht11", vec![])));
    assert!(r.lookup_device(&didx).is_err());
    apply_script_event(
        &mut r,
        WatchEvent::Restarted(vec![script("rule1", &[]), script("rule2", &[])]),
    );
    assert_eq!(r.script_keys().len(), 2);

    let triggers = device_event_triggers(&WatchEvent::Applied(device("dht11", vec![])));
    assert_eq!(triggers.len(), 1);
    assert_eq!(triggers[0].name, "dht11");
    assert_eq!(triggers[0].namespace, "default");
    let none = device_event_triggers(&WatchEvent::Deleted(device("dht11", vec![])));
    assert!(none.is_empty());
    let many = device_event_triggers(&WatchEvent::Restarted(vec![
        device("a", vec![]),
        device("b", vec![]),
    ]));
    assert_eq!(many.len(), 2);
}

#[test]
fn change_events_apply_by_kind() {
    let mut r = Reflector::new();
    apply_change_event(&mut r, "Inserted", script("rule1", &[]));
    let idx: ResourceIndex<Script> = ResourceIndex::new("default".to_string(), "rule1".to_string());
    assert!(r.lookup_script(&idx).is_ok());
    apply_change_event(&mut r, "Updated", script("rule1", &[("t", "dht11")]));
    let s = r.lookup_script(&idx).unwrap();
    assert!(s.spec.read_selector.match_names.is_some());
    apply_change_event(&mut r, "error", script("rule1", &[]));
    assert!(r.lookup_script(&idx).is_ok());
    apply_change_event(&mut r, "Deleted", script("rule1", &[]));
    assert!(r.lookup_script(&idx).is_err());
}
