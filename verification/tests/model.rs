//! The data model and the executor-side pieces: identifier
//! generators, parses of the persistence schema, script
//! reconstruction, the script location rule, and the client protocol
//! steps.

use ruleengine::changelog::create_script_struct;
use ruleengine::changelog::parse_match_string;
use ruleengine::changelog::selectors_from_rows;
use ruleengine::command::RunCommand;
use ruleengine::device::TwinProperty;
use ruleengine::executor::ClientAction;
use ruleengine::executor::ClientError;
use ruleengine::executor::Rule;
use ruleengine::executor::client_step;
use ruleengine::executor::handle_first_message;
use ruleengine::id::ExecutorIDGenerator;
use ruleengine::id::ScriptID;
use ruleengine::id::ScriptIDGenerator;
use ruleengine::script::ParseError;
use ruleengine::script::Policy;
use ruleengine::script::QosPolicy;
use ruleengine::script::ScriptSqlite3;
use ruleengine::script::ScriptType;
use ruleengine::script::Selector;
use ruleengine::session::ServerMessage;
use ruleengine::session::ServerMsg;
use ruleengine::strmap::StrMap;

#[test]
fn test_url() {
    const REGISTER: &str = "http://register.default.svc.cluster.local:8080";
    let rule = Rule {
        script_id: 0,
        name: "my_script".to_string(),
        version: "0.1_beta1".to_string(),
        register: REGISTER.to_string(),
        qos: QosPolicy::AtMostOnce,
    };
    let url = rule.url_string();
    assert_eq!(url, "http://register.default.svc.cluster.local:8080/my_script/0.1_beta1.js");
    let (scheme, remainder) = url.split_once("://").unwrap();
    assert_eq!(scheme, "http");
    let mut parts = remainder.split('/');
    let authority = parts.next().unwrap();
    let (host, port) = authority.split_once(':').unwrap();
    assert_eq!(host, "register.default.svc.cluster.local");
    assert_eq!(port.parse::<u16>().unwrap(), 8080);
    let path: Vec<_> = parts.collect();
    assert_eq!(&path, &["my_script", "0.1_beta1.js"]);
}

#[test]
fn script_ids_strictly_increase() {
    let mut g = ScriptIDGenerator::new();
    let a = g.gen();
    let b = g.gen();
    let c = g.gen();
    assert_eq!((a.to_u32(), b.to_u32(), c.to_u32()), (1, 2, 3));
    assert_ne!(a, b);
    assert_ne!(b, c);
    let mut e = ExecutorIDGenerator::new();
    assert_eq!(e.gen().to_u32(), 1);
    assert_eq!(e.gen().to_u32(), 2);
    assert_eq!(ScriptID::from_u32(7).to_u32(), 7);
    // The identifier-to-number round trip is the identity both ways.
    assert_eq!(ScriptID::from_u32(a.to_u32()), a);
}

#[test]
fn match_string_single_pair() {
    let m = parse_match_string("temp-sensor-name:dht11");
    assert_eq!(m.len(), 1);
    assert_eq!(m.get(&"temp-sensor-name".to_string()).unwrap(), "dht11");
}

#[test]
fn match_string_many_pairs_last_wins() {
    let m = parse_match_string("a:1,b:2,a:3");
    assert_eq!(m.len(), 2);
    assert_eq!(m.get(&"a".to_string()).unwrap(), "3");
    assert_eq!(m.get(&"b".to_string()).unwrap(), "2");
}

#[test]
fn match_string_edge_shapes() {
    // No colon: the whole segment is the key, the value is empty.
    let m = parse_match_string("alias");
    assert_eq!(m.get(&"alias".to_string()).unwrap(), "");
    // An empty string has one empty segment.
    let m = parse_match_string("");
    assert_eq!(m.len(), 1);
    assert_eq!(m.get(&"".to_string()).unwrap(), "");
    // Only the first colon splits.
    let m = parse_match_string("k:v:w");
    assert_eq!(m.get(&"k".to_string()).unwrap(), "v:w");
}

#[test]
fn script_type_parses() {
    assert_eq!(ScriptType::from_str(&"js".to_string()).unwrap(), ScriptType::Js);
    assert_eq!(ScriptType::from_str(&"Js".to_string()).unwrap(), ScriptType::Js);
    assert_eq!(ScriptType::from_str(&"wasm".to_string()).unwrap(), ScriptType::Wasm);
    assert_eq!(ScriptType::from_str(&"so".to_string()).unwrap(), ScriptType::Native);
    assert_eq!(ScriptType::from_str(&"exe".to_string()).unwrap(), ScriptType::Standalone);
    assert_eq!(
        ScriptType::from_str(&"python".to_string()).unwrap_err(),
        ParseError::UnknownScriptType
    );
    assert_eq!(ScriptType::Wasm.code(), 0);
    assert_eq!(ScriptType::Js.code(), 1);
    assert_eq!(ScriptType::Native.code(), 2);
    assert_eq!(ScriptType::Standalone.code(), 3);
}

#[test]
fn qos_policy_parses() {
    assert_eq!(QosPolicy::from_str(&"OnlyOnce".to_string()).unwrap(), QosPolicy::OnlyOnce);
    assert_eq!(QosPolicy::from_str(&"AtMostOnce".to_string()).unwrap(), QosPolicy::AtMostOnce);
    assert_eq!(QosPolicy::from_str(&"AtLeastOnce".to_string()).unwrap(), QosPolicy::AtLeastOnce);
    assert_eq!(
        QosPolicy::from_str(&"Sometimes".to_string()).unwrap_err(),
        ParseError::UnknownQosPolicy
    );
    assert_eq!(QosPolicy::OnlyOnce.code(), 0);
    assert_eq!(QosPolicy::AtMostOnce.code(), 1);
    assert_eq!(QosPolicy::AtLeastOnce.code(), 2);
}

fn base_row() -> ScriptSqlite3 {
    ScriptSqlite3 {
        name: "test".to_string(),
        script_type: "Js".to_string(),
        version: "0.1_beta1".to_string(),
        elapsed_time: 0,
        last_run: 0,
        message: String::new(),
        status: 0,
    }
}

#[test]
fn script_rebuilt_from_rows() {
    let rows = vec![
        Selector {
            script_id: 1,
            selector_type: "readSelector".to_string(),
            match_types: "matchNames".to_string(),
            match_names: "temp-sensor-name:dht11".to_string(),
        },
        Selector {
            script_id: 1,
            selector_type: "writeSelector".to_string(),
            match_types: "matchNames".to_string(),
            match_names: "target-device-name:switch".to_string(),
        },
    ];
    let selectors = selectors_from_rows(&rows);
    let mut env = StrMap::new();
    env.insert("threshold-value".to_string(), "40".to_string());
    let policy = Policy {
        read_change: true,
        webhook: true,
        cron: String::new(),
        qos: QosPolicy::AtMostOnce,
    };
    let s = create_script_struct(&base_row(), env, policy, selectors).unwrap();
    assert_eq!(s.spec.manifest.name, "test");
    assert_eq!(s.spec.manifest.version, "0.1_beta1");
    assert_eq!(s.spec.manifest.script_type, ScriptType::Js);
    assert!(s.spec.manifest.register.is_none());
    let mn = s.spec.read_selector.match_names.as_ref().unwrap();
    assert_eq!(mn.get(&"temp-sensor-name".to_string()).unwrap(), "dht11");
    let wn = s.spec.write_selector.match_names.as_ref().unwrap();
    assert_eq!(wn.get(&"target-device-name".to_string()).unwrap(), "switch");
    assert_eq!(s.spec.env.get(&"threshold-value".to_string()).unwrap(), "40");
    let st = s.status.unwrap();
    assert_eq!(st.last_run, 0);
    assert_eq!(st.status, 0);
}

#[test]
fn script_rebuild_rejects_unknown_type() {
    let mut row = base_row();
    row.script_type = "cobol".to_string();
    let policy = Policy {
        read_change: false,
        webhook: false,
        cron: String::new(),
        qos: QosPolicy::AtMostOnce,
    };
    let no_rows: Vec<Selector> = Vec::new();
    let selectors = selectors_from_rows(&no_rows);
    let err = create_script_struct(&row, StrMap::new(), policy, selectors).unwrap_err();
    assert_eq!(err, ParseError::UnknownScriptType);
}

fn run_command(id: u32) -> RunCommand {
    RunCommand {
        script_id: id,
        manifest: None,
        readable: StrMap::new(),
        writable: StrMap::new(),
        env: StrMap::new(),
        default_qos: 1,
    }
}

#[test]
fn client_reads_first_frame() {
    let ok = Some(Ok(ServerMessage { msg: Some(ServerMsg::Connected(5)) }));
    assert_eq!(handle_first_message(&ok).unwrap(), 5);
    assert_eq!(handle_first_message(&None).unwrap_err(), ClientError::UnexpectedEnd);
    let err: Option<Result<ServerMessage, String>> = Some(Err("boom".to_string()));
    assert_eq!(handle_first_message(&err).unwrap_err(), ClientError::TransportError);
    let empty = Some(Ok(ServerMessage { msg: None }));
    assert_eq!(handle_first_message(&empty).unwrap_err(), ClientError::EmptyMessage);
    let early = Some(Ok(ServerMessage { msg: Some(ServerMsg::Script(run_command(1))) }));
    assert_eq!(handle_first_message(&early).unwrap_err(), ClientError::UnexpectedFrame);
}

#[test]
fn client_runs_and_finishes() {
    let work = Some(Ok(ServerMessage { msg: Some(ServerMsg::Script(run_command(9))) }));
    match client_step(work) {
        ClientAction::Run(rc) => assert_eq!(rc.script_id, 9),
        _ => panic!("expected work"),
    }
    let bye = Some(Ok(ServerMessage {
        msg: Some(ServerMsg::Disconnect(ruleengine::session::DisconnectReason::ServerExit)),
    }));
    assert!(matches!(client_step(bye), ClientAction::Finish));
    assert!(matches!(client_step(None), ClientAction::Fault(ClientError::UnexpectedEnd)));
}

#[test]
fn twin_property_starts_without_metadata() {
    let p = TwinProperty::new("21.5".to_string());
    assert_eq!(p.value, "21.5");
    assert_eq!(p.metadata.len(), 0);
}
