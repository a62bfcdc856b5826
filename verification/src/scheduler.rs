//! The scheduler: resolves a script trigger into a fully materialised
//! run command by reading the reflector, and the device-to-script
//! fan-out that turns a device trigger into script triggers.

use vstd::prelude::*;
use crate::command::ManagerMsg;
use crate::command::RunCommand;
use crate::command::RunManifest;
use crate::device::Device;
use crate::id::ScriptIDGenerator;
use crate::index::ResourceIndex;
use crate::queue::BoundedQueue;
use crate::reflector::LookupError;
use crate::reflector::Reflector;
use crate::reflector::entry_or_empty;
use crate::reflector::readable_projection;
use crate::reflector::writable_projection;
use crate::script::Manifest;
use crate::script::Script;
use crate::tables::TableKey;

verus! {

/// The views of a sequence of script indices, in order.
pub open spec fn index_views(s: Seq<ResourceIndex<Script>>) -> Seq<(Seq<char>, Seq<char>)> {
    s.map_values(|x: ResourceIndex<Script>| x@)
}

/// What it means for a run command envelope to resolve a script under
/// a fresh identifier against a device store.
pub open spec fn resolves(
    msg: ManagerMsg,
    script: Script,
    id: u32,
    devs: Map<TableKey, Device>,
) -> bool {
    &&& msg.run.script_id == id
    &&& msg.name@ == script.spec.manifest.name@
    &&& msg.namespace@ == "default"@
    &&& match msg.run.manifest {
        Some(m) => m.script_type == script.spec.manifest.script_type.spec_code()
            && m.package_name@ == script.spec.manifest.name@ && m.package_version@
            == script.spec.manifest.version@ && m.register@ == (match script.spec.manifest.register {
            Some(reg) => reg@,
            None => Seq::<char>::empty(),
        }),
        None => false,
    }
    &&& readable_projection(msg.run.readable@, script, devs)
    &&& writable_projection(msg.run.writable@, script)
    &&& msg.run.env@ == script.spec.env@
    &&& msg.run.default_qos == script.spec.execute_policy.qos.spec_code()
}

/// Turns script triggers into run commands.
pub struct Scheduler {
    script_idgen: ScriptIDGenerator,
}

impl Scheduler {
    /// Validity of the identifier generator.
    pub closed spec fn inv(self) -> bool {
        self.script_idgen.inv()
    }

    /// The script identifiers handed out so far, in order.
    pub closed spec fn issued(self) -> Seq<u32> {
        self.script_idgen.spec_issued()
    }

    /// The value the next script identifier will carry.
    pub closed spec fn next_id(self) -> u32 {
        self.script_idgen.spec_next()
    }

    pub fn new() -> (r: Self)
        ensures
            r.next_id() == 1,
            r.issued() == Seq::<u32>::empty(),
            r.inv(),
    {
        Scheduler { script_idgen: ScriptIDGenerator::new() }
    }

    /// Resolves one script trigger: generates a fresh identifier,
    /// looks the script up, and materialises its run command.  A
    /// missing script is a local error; the trigger is dropped and the
    /// identifier stays burnt.
    pub fn lookup(&mut self, reflector: &Reflector, index: &ResourceIndex<Script>) -> (r: Result<
        ManagerMsg,
        LookupError,
    >)
        requires
            old(self).inv(),
            old(self).next_id() < u32::MAX,
        ensures
            final(self).inv(),
            final(self).next_id() == old(self).next_id() + 1,
            final(self).issued() == old(self).issued().push(old(self).next_id()),
            match r {
                Ok(msg) => reflector.scripts().contains_key(index@) && resolves(
                    msg,
                    reflector.scripts()[index@],
                    old(self).next_id(),
                    reflector.devices(),
                ),
                Err(e) => e == LookupError::ScriptNotFound && !reflector.scripts().contains_key(
                    index@,
                ),
            },
    {
        let id = self.script_idgen.gen();
        let script = match reflector.lookup_script(index) {
            Ok(s) => s,
            Err(e) => {
                return Err(e);
            },
        };
        let readable = reflector.lookup_readable(&script);
        let writable = reflector.lookup_writable(&script);
        let qos_code = script.spec.execute_policy.qos.code();
        let env = script.spec.env;
        let Manifest { script_type, name, version, register } = script.spec.manifest;
        let register_url = match register {
            Some(reg) => reg,
            None => String::new(),
        };
        let run = RunCommand {
            script_id: id.to_u32(),
            manifest: Some(
                RunManifest {
                    script_type: script_type.code(),
                    package_name: name.clone(),
                    package_version: version,
                    register: register_url,
                },
            ),
            readable,
            writable,
            env,
            default_qos: qos_code,
        };
        Ok(ManagerMsg { run, name, namespace: crate::device::default_namespace() })
    }
}

/// Fans a device trigger out to the script-trigger queue: one trigger
/// for every script whose read selector names the device, none when
/// the device has no selector entry.  Fails only when the queue is
/// closed.
#[verifier::loop_isolation(false)]
pub fn trigger(
    store: &Reflector,
    device: &ResourceIndex<Device>,
    script: &mut BoundedQueue<ResourceIndex<Script>>,
) -> (ok: bool)
    ensures
        ok == !old(script).is_closed(),
        final(script).is_closed() == old(script).is_closed(),
        final(script).spec_capacity() == old(script).spec_capacity(),
        !ok ==> final(script)@ == old(script)@,
        ok ==> exists|added: Seq<ResourceIndex<Script>>|
            {
                &&& final(script)@ == old(script)@ + added
                &&& #[trigger] index_views(added).to_set() == entry_or_empty(
                    store.selectors(),
                    device@,
                )
                &&& index_views(added).no_duplicates()
            },
{
    if script.closed() {
        return false;
    }
    match store.map_device_to_script(device) {
        Err(_) => {
            proof {
                let added = Seq::<ResourceIndex<Script>>::empty();
                assert(script@ =~= old(script)@ + added);
                assert(index_views(added).to_set() =~= entry_or_empty(
                    store.selectors(),
                    device@,
                ));
            }
            true
        },
        Ok(v) => {
            let n = v.len();
            let mut i: usize = 0;
            while i < n
                invariant
                    i <= n,
                    n == v@.len(),
                    !script.is_closed(),
                    script.spec_capacity() == old(script).spec_capacity(),
                    script@ == old(script)@ + v@.take(i as int),
                decreases n - i,
            {
                let ghost i0 = i as int;
                let idx = v[i].clone();
                proof {
                    assert(idx == v@[i0]);
                }
                let sent = script.send(idx);
                i = i + 1;
                proof {
                    assert(script@ =~= old(script)@ + v@.take(i as int));
                }
            }
            proof {
                let added = v@;
                assert(v@.take(n as int) =~= v@);
                assert(script@ =~= old(script)@ + added);
                assert(index_views(added) =~= v@.map_values(|x: ResourceIndex<Script>| x@));
                assert(index_views(added).to_set() == entry_or_empty(
                    store.selectors(),
                    device@,
                ));
            }
            true
        },
    }
}

} // verus!
