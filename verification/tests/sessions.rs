//! The scheduler and the session manager: dispatch scenarios, stream
//! lifecycle, the unary callbacks and the supervisor.

use ruleengine::command::ManagerMsg;
use ruleengine::device::Device;
use ruleengine::device::DeviceSpec;
use ruleengine::device::DeviceStatus;
use ruleengine::device::LocalObjectReference;
use ruleengine::device::NodeSelector;
use ruleengine::device::Twin;
use ruleengine::device::TwinProperty;
use ruleengine::index::ResourceIndex;
use ruleengine::queue::BoundedQueue;
use ruleengine::reflector::Reflector;
use ruleengine::scheduler::Scheduler;
use ruleengine::script::DeviceSelectorSet;
use ruleengine::script::Manifest;
use ruleengine::script::Policy;
use ruleengine::script::QosPolicy;
use ruleengine::script::Script;
use ruleengine::script::ScriptSpec;
use ruleengine::script::ScriptType;
use ruleengine::session::ClientCode;
use ruleengine::session::ClientInfo;
use ruleengine::session::ClientMessage;
use ruleengine::session::DisconnectReason;
use ruleengine::session::Duration;
use ruleengine::session::ErrorCode;
use ruleengine::session::ExecutorStream;
use ruleengine::session::ScriptStatusMsg;
use ruleengine::session::ServerMsg;
use ruleengine::session::SessionManager;
use ruleengine::session::StepOutcome;
use ruleengine::session::StepReply;
use ruleengine::session::StreamDirective;
use ruleengine::session::StreamEvent;
use ruleengine::session::Timestamp;
use ruleengine::session::UpdateDevice;
use ruleengine::strmap::StrMap;
use ruleengine::supervisor::ControllerState;
use ruleengine::supervisor::Supervisor;

fn device(name: &str, twins: Vec<Twin>) -> Device {
    Device {
        spec: DeviceSpec {
            name: name.to_string(),
            device_model_ref: LocalObjectReference { name: None },
            protocol: None,
            property_visitors: Vec::new(),
            data: None,
            node_selector: NodeSelector { node_selector_terms: Vec::new() },
        },
        status: Some(DeviceStatus { twins }),
    }
}

fn script(name: &str, read_names: &[(&str, &str)], read_change: bool) -> Script {
    let match_names = if read_names.is_empty() {
        None
    } else {
        let mut m = StrMap::new();
        for (alias, dev) in read_names {
            m.insert(alias.to_string(), dev.to_string());
        }
        Some(m)
    };
    Script {
        spec: ScriptSpec {
            read_selector: DeviceSelectorSet { match_names, match_abilities: None },
            write_selector: DeviceSelectorSet { match_names: None, match_abilities: None },
            env: StrMap::new(),
            manifest: Manifest {
                script_type: ScriptType::Js,
                name: name.to_string(),
                version: "0.1".to_string(),
                register: None,
            },
            execute_policy: Policy {
                read_change,
                webhook: true,
                cron: String::new(),
                qos: QosPolicy::AtMostOnce,
            },
        },
        status: None,
    }
}

fn connect_frame() -> Result<Option<ClientMessage>, String> {
    Ok(Some(ClientMessage { code: ClientCode::Connect, info: Some(ClientInfo { max_job: 0 }) }))
}

fn continue_event() -> StreamEvent {
    StreamEvent::Frame(ClientMessage { code: ClientCode::Continue, info: None })
}

/// Opens a stream against a manager built with version `"0.1.0"`.
fn open(mgr: &mut SessionManager) -> ExecutorStream {
    let (id, frame) = mgr
        .open_stream(&"0.1.0".to_string(), &connect_frame(), "127.0.0.1:40000".to_string())
        .unwrap();
    match frame.msg.unwrap() {
        ServerMsg::Connected(v) => assert_eq!(v, id.to_u32()),
        _ => panic!("first frame must be Connected"),
    }
    ExecutorStream { executor_id: id, open: true }
}

#[test]
fn webhook_trigger_dispatches_named_script() {
    // A webhook for a stored script ends, after one Continue, in
    // exactly one Script frame carrying that script's manifest.
    let mut reflector = Reflector::new();
    reflector.add_script(script("rule1", &[], false));

    let mut script_queue: BoundedQueue<ResourceIndex<Script>> = BoundedQueue::new(10);
    let arg = ResourceIndex::new("default".to_string(), "rule1".to_string());
    assert_eq!(ruleengine::webhook::webhook(arg, &mut script_queue), 200);

    let mut scheduler = Scheduler::new();
    let idx = script_queue.recv().unwrap();
    let msg = scheduler.lookup(&reflector, &idx).unwrap();
    let mut run_queue: BoundedQueue<ManagerMsg> = BoundedQueue::new(10);
    assert!(run_queue.send(msg));

    let mut mgr = SessionManager::new("0.1.0".to_string());
    let mut stream = open(&mut mgr);
    let StepOutcome { reply, directive } =
        mgr.session_step(&mut stream, continue_event(), &mut run_queue);
    assert_eq!(directive, StreamDirective::Carry);
    match reply {
        StepReply::Send(frame) => match frame.msg.unwrap() {
            ServerMsg::Script(rc) => {
                assert_eq!(rc.manifest.unwrap().package_name, "rule1");
            }
            _ => panic!("expected a Script frame"),
        },
        _ => panic!("expected a frame"),
    }
    assert_eq!(run_queue.len(), 0);
}

#[test]
fn device_trigger_dispatches_with_materialised_state() {
    // A device change on dht11 triggers the one selecting script, and
    // the run command carries {"t": {name: "dht11", status:
    // {"temperature": "42"}}}.
    let mut reflector = Reflector::new();
    reflector.add_script(script("rule1", &[("t", "dht11")], true));
    reflector.add_device(device("dht11", vec![Twin {
        property_name: "temperature".to_string(),
        desired: TwinProperty::new("0".to_string()),
        reported: Some(TwinProperty::new("42".to_string())),
    }]));

    let mut script_queue: BoundedQueue<ResourceIndex<Script>> = BoundedQueue::new(10);
    let didx = ResourceIndex::new("default".to_string(), "dht11".to_string());
    assert!(ruleengine::scheduler::trigger(&reflector, &didx, &mut script_queue));
    assert_eq!(script_queue.len(), 1);

    let mut scheduler = Scheduler::new();
    let idx = script_queue.recv().unwrap();
    let msg = scheduler.lookup(&reflector, &idx).unwrap();
    assert_eq!(msg.run.readable.len(), 1);
    let rd = msg.run.readable.get(&"t".to_string()).unwrap();
    assert_eq!(rd.name, "dht11");
    assert_eq!(rd.status.len(), 1);
    assert_eq!(rd.status.get(&"temperature".to_string()).unwrap(), "42");
    assert_eq!(script_queue.len(), 0);
}

#[test]
fn executor_disconnect_keeps_session() {
    // After a dispatched Script frame the executor vanishes: its map
    // entry goes, the script session stays.
    let mut reflector = Reflector::new();
    reflector.add_script(script("rule1", &[], false));
    let mut scheduler = Scheduler::new();
    let idx = ResourceIndex::new("default".to_string(), "rule1".to_string());
    let msg = scheduler.lookup(&reflector, &idx).unwrap();
    let script_id = msg.run.script_id;
    assert_eq!(script_id, 1);

    let mut run_queue: BoundedQueue<ManagerMsg> = BoundedQueue::new(10);
    assert!(run_queue.send(msg));
    let mut mgr = SessionManager::new("0.1.0".to_string());
    let mut stream = open(&mut mgr);
    assert_eq!(stream.executor_id.to_u32(), 1);
    let out = mgr.session_step(&mut stream, continue_event(), &mut run_queue);
    assert!(matches!(out.reply, StepReply::Send(_)));

    let out = mgr.session_step(&mut stream, StreamEvent::StreamEnd, &mut run_queue);
    assert!(matches!(out.reply, StepReply::Nothing));
    assert_eq!(out.directive, StreamDirective::Close);
    assert!(!stream.open);
    assert!(mgr.close_stream(&stream));
    assert!(!mgr.has_executor(1));
    assert!(mgr.has_session(script_id));
}

#[test]
fn version_mismatch_rejected_without_registration() {
    let mut mgr = SessionManager::new("0.1.0".to_string());
    let err = mgr
        .open_stream(&"0.0.0".to_string(), &connect_frame(), "127.0.0.1:40000".to_string())
        .unwrap_err();
    assert_eq!(err.code, ErrorCode::InvalidArgument);
    assert!(!mgr.has_executor(1));
}

#[test]
fn first_frame_must_connect_with_info() {
    let mut mgr = SessionManager::new("0.1.0".to_string());
    let bad = Ok(Some(ClientMessage { code: ClientCode::Continue, info: None }));
    let err = mgr
        .open_stream(&"0.1.0".to_string(), &bad, "127.0.0.1:40000".to_string())
        .unwrap_err();
    assert_eq!(err.code, ErrorCode::InvalidArgument);
    let missing_info = Ok(Some(ClientMessage { code: ClientCode::Connect, info: None }));
    let err = mgr
        .open_stream(&"0.1.0".to_string(), &missing_info, "127.0.0.1:40000".to_string())
        .unwrap_err();
    assert_eq!(err.code, ErrorCode::InvalidArgument);
    let ended: Result<Option<ClientMessage>, String> = Ok(None);
    let err = mgr
        .open_stream(&"0.1.0".to_string(), &ended, "127.0.0.1:40000".to_string())
        .unwrap_err();
    assert_eq!(err.code, ErrorCode::InvalidArgument);
    let failed: Result<Option<ClientMessage>, String> = Err("broken".to_string());
    let err = mgr
        .open_stream(&"0.1.0".to_string(), &failed, "127.0.0.1:40000".to_string())
        .unwrap_err();
    assert_eq!(err.code, ErrorCode::Unknown);
    assert!(!mgr.has_executor(1));
}

#[test]
fn shutdown_races_run_command() {
    // One Script frame goes out on Continue; the stop that follows
    // answers with Disconnect(ServerExit) and closes the stream.
    let mut reflector = Reflector::new();
    reflector.add_script(script("rule1", &[], false));
    let mut scheduler = Scheduler::new();
    let idx = ResourceIndex::new("default".to_string(), "rule1".to_string());
    let msg = scheduler.lookup(&reflector, &idx).unwrap();
    let mut run_queue: BoundedQueue<ManagerMsg> = BoundedQueue::new(10);
    assert!(run_queue.send(msg));

    let mut supervisor = Supervisor::new();
    supervisor.init();
    assert_eq!(supervisor.current(), ControllerState::Running);

    let mut mgr = SessionManager::new("0.1.0".to_string());
    let mut stream = open(&mut mgr);
    let out = mgr.session_step(&mut stream, continue_event(), &mut run_queue);
    match out.reply {
        StepReply::Send(frame) => assert!(matches!(frame.msg.unwrap(), ServerMsg::Script(_))),
        _ => panic!("expected the single Script frame"),
    }

    supervisor.stop();
    assert_eq!(supervisor.current(), ControllerState::Stop);
    let out = mgr.session_step(&mut stream, StreamEvent::Stop, &mut run_queue);
    match out.reply {
        StepReply::Send(frame) => match frame.msg.unwrap() {
            ServerMsg::Disconnect(reason) => assert_eq!(reason, DisconnectReason::ServerExit),
            _ => panic!("expected Disconnect"),
        },
        _ => panic!("expected a frame"),
    }
    assert_eq!(out.directive, StreamDirective::Close);
    assert!(!stream.open);
}

#[test]
fn continue_without_work_waits() {
    let mut mgr = SessionManager::new("0.1.0".to_string());
    let mut stream = open(&mut mgr);
    let mut run_queue: BoundedQueue<ManagerMsg> = BoundedQueue::new(10);
    let out = mgr.session_step(&mut stream, continue_event(), &mut run_queue);
    assert!(matches!(out.reply, StepReply::Nothing));
    assert_eq!(out.directive, StreamDirective::Wait);
    assert!(stream.open);
}

#[test]
fn continue_on_dead_scheduler_fails_internal() {
    let mut mgr = SessionManager::new("0.1.0".to_string());
    let mut stream = open(&mut mgr);
    let mut run_queue: BoundedQueue<ManagerMsg> = BoundedQueue::new(10);
    run_queue.close();
    let out = mgr.session_step(&mut stream, continue_event(), &mut run_queue);
    match out.reply {
        StepReply::Fail(e) => assert_eq!(e.code, ErrorCode::Internal),
        _ => panic!("expected an internal error"),
    }
    assert_eq!(out.directive, StreamDirective::Close);
}

#[test]
fn mid_stream_connect_is_protocol_violation() {
    let mut mgr = SessionManager::new("0.1.0".to_string());
    let mut stream = open(&mut mgr);
    let mut run_queue: BoundedQueue<ManagerMsg> = BoundedQueue::new(10);
    let ev = StreamEvent::Frame(ClientMessage {
        code: ClientCode::Connect,
        info: Some(ClientInfo { max_job: 0 }),
    });
    let out = mgr.session_step(&mut stream, ev, &mut run_queue);
    match out.reply {
        StepReply::Fail(e) => assert_eq!(e.code, ErrorCode::InvalidArgument),
        _ => panic!("expected a protocol violation"),
    }
    assert_eq!(out.directive, StreamDirective::Close);
}

#[test]
fn client_disconnect_answered_with_client_exit() {
    let mut mgr = SessionManager::new("0.1.0".to_string());
    let mut stream = open(&mut mgr);
    let mut run_queue: BoundedQueue<ManagerMsg> = BoundedQueue::new(10);
    let ev = StreamEvent::Frame(ClientMessage { code: ClientCode::Disconnect, info: None });
    let out = mgr.session_step(&mut stream, ev, &mut run_queue);
    match out.reply {
        StepReply::Send(frame) => match frame.msg.unwrap() {
            ServerMsg::Disconnect(reason) => assert_eq!(reason, DisconnectReason::ClientExit),
            _ => panic!("expected Disconnect"),
        },
        _ => panic!("expected a frame"),
    }
    assert_eq!(out.directive, StreamDirective::Close);
}

fn dispatch_one(mgr: &mut SessionManager, stream: &mut ExecutorStream, name: &str) -> u32 {
    let mut reflector = Reflector::new();
    reflector.add_script(script(name, &[], false));
    let mut scheduler = Scheduler::new();
    let idx = ResourceIndex::new("default".to_string(), name.to_string());
    let msg = scheduler.lookup(&reflector, &idx).unwrap();
    let script_id = msg.run.script_id;
    let mut run_queue: BoundedQueue<ManagerMsg> = BoundedQueue::new(10);
    assert!(run_queue.send(msg));
    let out = mgr.session_step(stream, continue_event(), &mut run_queue);
    assert!(matches!(out.reply, StepReply::Send(_)));
    script_id
}

#[test]
fn script_status_removes_session_and_builds_patch() {
    // Session balance around the status callback, and the exact
    // last-run and elapsed-time formulas.
    let mut mgr = SessionManager::new("0.1.0".to_string());
    let mut stream = open(&mut mgr);
    let script_id = dispatch_one(&mut mgr, &mut stream, "rule1");
    assert_eq!(mgr.session_count(), 1);
    assert!(mgr.has_session(script_id));

    let patch = mgr
        .update_script_status(ScriptStatusMsg {
            script_id,
            start: Some(Timestamp { seconds: 1_700_000_000, nanos: 500_000_000 }),
            duration: Some(Duration { seconds: 2, nanos: 250_000 }),
            code: 0,
            message: "ok".to_string(),
        })
        .unwrap();
    assert_eq!(patch.name, "rule1");
    assert_eq!(patch.namespace, "default");
    assert_eq!(patch.status.last_run, 1_700_000_000 * 1000 + 500);
    assert_eq!(patch.status.elapsed_time, 2_000_250);
    assert_eq!(patch.status.status, 0);
    assert_eq!(patch.status.message, "ok");
    assert_eq!(mgr.session_count(), 0);

    // A second report of the same script is no longer running.
    let err = mgr
        .update_script_status(ScriptStatusMsg {
            script_id,
            start: None,
            duration: None,
            code: 0,
            message: String::new(),
        })
        .unwrap_err();
    assert_eq!(err.code, ErrorCode::InvalidArgument);
}

#[test]
fn session_patch_device() {
    // The device-write callback of a running script builds a merge
    // patch of desired twins against the session's namespace.
    let mut mgr = SessionManager::new("0.1.0".to_string());
    let mut stream = open(&mut mgr);
    let script_id = dispatch_one(&mut mgr, &mut stream, "rule1");

    let mut desired = StrMap::new();
    desired.insert("temperature".to_string(), "10".to_string());
    let patch = mgr
        .update_device_desired(UpdateDevice {
            script_id,
            name: "dht11".to_string(),
            desired,
            qos: 1,
        })
        .unwrap();
    assert_eq!(patch.name, "dht11");
    assert_eq!(patch.namespace, "default");
    assert_eq!(patch.status.twins.len(), 1);
    let twin = &patch.status.twins[0];
    assert_eq!(twin.property_name, "temperature");
    assert_eq!(twin.desired.value, "10");
    assert!(twin.reported.is_none());
    // The status block a device reports alongside carries the other
    // side of the twin.
    let reported = Twin {
        property_name: "temperature".to_string(),
        desired: TwinProperty::new("10".to_string()),
        reported: Some(TwinProperty::new("-17".to_string())),
    };
    let status = DeviceStatus { twins: vec![reported] };
    assert_eq!(status.twins[0].reported.as_ref().unwrap().value, "-17");
}

#[test]
fn sessionfuben_patch_device() {
    // The callback refuses the reserved delivery guarantees and a
    // script that is not running.
    let mut mgr = SessionManager::new("0.1.0".to_string());
    let mut stream = open(&mut mgr);
    let script_id = dispatch_one(&mut mgr, &mut stream, "rule1");

    let mut desired = StrMap::new();
    desired.insert("temperature".to_string(), "10".to_string());
    let err = mgr
        .update_device_desired(UpdateDevice {
            script_id,
            name: "dht11".to_string(),
            desired: desired.clone(),
            qos: 0,
        })
        .unwrap_err();
    assert_eq!(err.code, ErrorCode::Unimplemented);
    let err = mgr
        .update_device_desired(UpdateDevice {
            script_id,
            name: "dht11".to_string(),
            desired: desired.clone(),
            qos: 2,
        })
        .unwrap_err();
    assert_eq!(err.code, ErrorCode::Unimplemented);
    let err = mgr
        .update_device_desired(UpdateDevice {
            script_id: 999,
            name: "dht11".to_string(),
            desired,
            qos: 1,
        })
        .unwrap_err();
    assert_eq!(err.code, ErrorCode::InvalidArgument);
}

#[test]
fn script_ids_are_fresh_per_lookup() {
    let mut reflector = Reflector::new();
    reflector.add_script(script("rule1", &[], false));
    let mut scheduler = Scheduler::new();
    let idx = ResourceIndex::new("default".to_string(), "rule1".to_string());
    let a = scheduler.lookup(&reflector, &idx).unwrap().run.script_id;
    let b = scheduler.lookup(&reflector, &idx).unwrap().run.script_id;
    let missing = ResourceIndex::new("default".to_string(), "nope".to_string());
    assert!(scheduler.lookup(&reflector, &missing).is_err());
    let c = scheduler.lookup(&reflector, &idx).unwrap().run.script_id;
    assert_eq!((a, b, c), (1, 2, 4));
}

#[test]
fn run_command_carries_env_and_register() {
    let mut reflector = Reflector::new();
    let mut s = script("rule1", &[], false);
    s.spec.env.insert("threshold-value".to_string(), "40".to_string());
    s.spec.manifest.register = Some("http://reg:8080".to_string());
    reflector.add_script(s);
    let mut scheduler = Scheduler::new();
    let idx = ResourceIndex::new("default".to_string(), "rule1".to_string());
    let msg = scheduler.lookup(&reflector, &idx).unwrap();
    assert_eq!(msg.name, "rule1");
    assert_eq!(msg.namespace, "default");
    assert_eq!(msg.run.env.get(&"threshold-value".to_string()).unwrap(), "40");
    let manifest = msg.run.manifest.unwrap();
    assert_eq!(manifest.register, "http://reg:8080");
    assert_eq!(manifest.package_version, "0.1");
    assert_eq!(manifest.script_type, 1);
    assert_eq!(msg.run.default_qos, 1);
}
