//! The trigger sources: queue round trips, the device-event topic
//! grammar, the packet classification and the webhook.

use ruleengine::index::ResourceIndex;
use ruleengine::mqtt::MqttAction;
use ruleengine::mqtt::MqttPacket;
use ruleengine::mqtt::classify_packet;
use ruleengine::mqtt::device_trigger_from_topic;
use ruleengine::mqtt::parse_device_topic;
use ruleengine::queue::BoundedQueue;
use ruleengine::script::Script;
use ruleengine::webhook::webhook;

fn trigger_round_trip(name: String, namespace: String, sent: ResourceIndex<Script>) -> bool {
    let mut queue: BoundedQueue<ResourceIndex<Script>> = BoundedQueue::new(3);
    assert!(queue.send(sent));
    let ri = queue.recv().unwrap();
    ri.name == name && ri.namespace == namespace
}

#[test]
fn test_drop() {
    let name = String::from("test_name");
    let namespace = String::from("test_namespace");
    let sent = ResourceIndex::new(namespace.clone(), name.clone());
    let result = trigger_round_trip(name, namespace, sent);
    assert!(result)
}

#[test]
fn test_broken_triger() {
    let name = String::from("test_name");
    let namespace = String::from("test_namespace");
    let sent = ResourceIndex::new(String::new(), String::new());
    let result = trigger_round_trip(name, namespace, sent);
    assert!(!result)
}

#[test]
fn test_ok() {
    let namespace = String::from("test_namespace");
    let name = String::from("test_name");
    let sent = ResourceIndex::new(namespace.clone(), name.clone());
    let result = trigger_round_trip(name, namespace, sent);
    assert!(result)
}

#[test]
fn test_mqtt() {
    const DEVICE_NAME: &str = "test_name";
    const DEVICE_NAMESPACE: &str = "default";
    let topic = format!("$hw/events/device/{DEVICE_NAME}/twin/update/result");
    let ri = device_trigger_from_topic(&topic).unwrap();
    assert_eq!(ri.name, DEVICE_NAME);
    assert_eq!(ri.namespace, DEVICE_NAMESPACE);
}

#[test]
fn test_webhook() {
    const DEVICE_NAME: &str = "test_name";
    const DEVICE_NAMESPACE: &str = "test_namespace";
    let mut queue: BoundedQueue<ResourceIndex<Script>> = BoundedQueue::new(3);
    let arg = ResourceIndex::new(DEVICE_NAMESPACE.to_string(), DEVICE_NAME.to_string());
    let status = webhook(arg, &mut queue);
    assert_eq!(status, 200);
    let ri = queue.recv().unwrap();
    assert_eq!(ri.name, DEVICE_NAME);
    assert_eq!(ri.namespace, DEVICE_NAMESPACE);
}

#[test]
fn webhook_fails_when_queue_closed() {
    let mut queue: BoundedQueue<ResourceIndex<Script>> = BoundedQueue::new(3);
    queue.close();
    let arg = ResourceIndex::new("default".to_string(), "rule1".to_string());
    let status = webhook(arg, &mut queue);
    assert_eq!(status, 500);
    assert!(queue.recv().is_none());
}

#[test]
fn parse_exact_topic() {
    let r = parse_device_topic("$hw/events/device/dht11/twin/update/result");
    assert_eq!(r.unwrap(), "dht11");
}

#[test]
fn parse_name_with_dash_underscore_digits() {
    let r = parse_device_topic("$hw/events/device/Device-7_a/twin/update/result");
    assert_eq!(r.unwrap(), "Device-7_a");
}

#[test]
fn parse_rejects_topic_without_pattern() {
    assert!(parse_device_topic("$hw/events/device/dht11/twin/update").is_none());
    assert!(parse_device_topic("some/other/topic").is_none());
    assert!(parse_device_topic("").is_none());
}

#[test]
fn parse_rejects_empty_name() {
    assert!(parse_device_topic("$hw/events/device//twin/update/result").is_none());
}

#[test]
fn parse_drops_name_with_slash() {
    // A slash cannot stand in a device name, and the prefix does not
    // recur before the second segment: such a topic is silently
    // dropped.
    assert!(parse_device_topic("$hw/events/device/a/b/twin/update/result").is_none());
}

#[test]
fn parse_finds_embedded_pattern() {
    let r = parse_device_topic("xx$hw/events/device/d1/twin/update/resultyy");
    assert_eq!(r.unwrap(), "d1");
}

#[test]
fn classify_packets() {
    match classify_packet(MqttPacket::Publish("t".to_string())) {
        MqttAction::Deliver(t) => assert_eq!(t, "t"),
        _ => panic!("publish must be delivered"),
    }
    assert!(matches!(classify_packet(MqttPacket::PingResp), MqttAction::Trace));
    assert!(matches!(classify_packet(MqttPacket::PubAck), MqttAction::Trace));
    assert!(matches!(classify_packet(MqttPacket::PubRec), MqttAction::Trace));
    assert!(matches!(classify_packet(MqttPacket::PubRel), MqttAction::Trace));
    assert!(matches!(classify_packet(MqttPacket::PubComp), MqttAction::Trace));
    assert!(matches!(classify_packet(MqttPacket::SubAck), MqttAction::Trace));
    assert!(matches!(classify_packet(MqttPacket::Other), MqttAction::Fatal));
}

#[test]
fn parser_agrees_with_unanchored_pattern_search() {
    let re = regex::Regex::new("\\$hw/events/device/([a-zA-Z0-9-_]+)/twin/update/result").unwrap();
    let topics = [
        "$hw/events/device/dht11/twin/update/result",
        "$hw/events/device/a/b/twin/update/result",
        "$hw/events/device//twin/update/result",
        "$hw/events/device/dht11/twin/update",
        "xx$hw/events/device/d1/twin/update/resultyy",
        "$hw/events/device/A-1_b/twin/update/result$hw/events/device/z/twin/update/result",
        "no match at all",
        "$hw/events/device/twin/update/result",
    ];
    for topic in topics {
        let expected = re.captures(topic).map(|c| c[1].to_owned());
        let got = parse_device_topic(topic);
        assert_eq!(got, expected, "topic {topic:?}");
    }
}
