//! The MQTT trigger: the device-event topic grammar, the packet
//! classification of the trigger task, and the twin-update payload
//! shapes.
//!
//! A device event arrives on a topic of the form
//! `$hw/events/device/<name>/twin/update/result`, where the name is a
//! non-empty run of letters, digits, `-` and `_`.  The parser below
//! recognises that pattern anywhere in the topic, leftmost first and
//! with the longest name that a closing suffix allows, which is what
//! an unanchored greedy pattern search finds.

use vstd::prelude::*;
use crate::device::Device;
use crate::index::ResourceIndex;
use crate::strmap::StrMap;

verus! {

/// The topic prefix for device events.
pub open spec fn device_topic_prefix() -> Seq<char> {
    "$hw/events/device/"@
}

/// The topic suffix for twin update events.
pub open spec fn twin_update_suffix() -> Seq<char> {
    "/twin/update"@
}

/// The topic suffix for twin update result events.
pub open spec fn twin_update_result_suffix() -> Seq<char> {
    "/twin/update/result"@
}

/// Whether a character may stand in a device name: a letter, a digit,
/// `-` or `_`.
pub open spec fn is_name_char(c: char) -> bool {
    let u = c as u32;
    (('a' as u32) <= u && u <= ('z' as u32)) || (('A' as u32) <= u && u <= ('Z' as u32)) || ((
    '0' as u32) <= u && u <= ('9' as u32)) || u == ('-' as u32) || u == ('_' as u32)
}

/// A well-formed device name: non-empty, name characters only.
pub open spec fn valid_name(s: Seq<char>) -> bool {
    s.len() > 0 && forall|i: int| 0 <= i < s.len() ==> is_name_char(#[trigger] s[i])
}

/// Whether the device-event pattern matches the topic at position
/// `i` with the given name.
pub open spec fn match_at(t: Seq<char>, i: int, name: Seq<char>) -> bool {
    let p = device_topic_prefix().len() as int;
    let s = twin_update_result_suffix().len() as int;
    &&& 0 <= i
    &&& i + p + name.len() + s <= t.len()
    &&& t.subrange(i, i + p) == device_topic_prefix()
    &&& t.subrange(i + p, i + p + name.len() as int) == name
    &&& t.subrange(i + p + name.len() as int, i + p + name.len() as int + s)
        == twin_update_result_suffix()
}

/// Whether the device-event pattern occurs anywhere in the topic.
pub open spec fn topic_matches(t: Seq<char>) -> bool {
    exists|i: int, name: Seq<char>| valid_name(name) && #[trigger] match_at(t, i, name)
}

/// Whether a character equals another, with the name-character test
/// executable.
fn name_char(c: char) -> (r: bool)
    ensures
        r == is_name_char(c),
{
    let u = c as u32;
    (('a' as u32) <= u && u <= ('z' as u32)) || (('A' as u32) <= u && u <= ('Z' as u32)) || ((
    '0' as u32) <= u && u <= ('9' as u32)) || u == ('-' as u32) || u == ('_' as u32)
}

/// Whether the pattern stands in the topic at position `i`.
#[verifier::loop_isolation(false)]
fn pattern_at(topic: &str, i: usize, pat: &str) -> (r: bool)
    requires
        i <= topic@.len(),
    ensures
        r == (i + pat@.len() <= topic@.len() && topic@.subrange(
            i as int,
            i as int + pat@.len() as int,
        ) == pat@),
{
    let n = topic.unicode_len();
    let m = pat.unicode_len();
    if m > n - i {
        return false;
    }
    let mut j: usize = 0;
    while j < m
        invariant
            j <= m,
            m == pat@.len(),
            n == topic@.len(),
            i + m <= n,
            forall|jj: int| 0 <= jj < j ==> topic@[i + jj] == pat@[jj],
        decreases m - j,
    {
        if topic.get_char(i + j) != pat.get_char(j) {
            proof {
                let sub = topic@.subrange(i as int, i as int + m as int);
                assert(sub[j as int] == topic@[i + j as int]);
                assert(sub[j as int] != pat@[j as int]);
            }
            return false;
        }
        j = j + 1;
    }
    proof {
        assert(topic@.subrange(i as int, i as int + m as int) =~= pat@);
    }
    true
}

/// Parses the device name out of a device-event topic: the leftmost
/// occurrence of the pattern, with the longest name a closing suffix
/// allows.  Returns nothing when the pattern occurs nowhere.
#[verifier::loop_isolation(false)]
pub fn parse_device_topic(topic: &str) -> (r: Option<String>)
    ensures
        match r {
            Some(name) => valid_name(name@) && exists|i: int| #[trigger] match_at(
                topic@,
                i,
                name@,
            ),
            None => !topic_matches(topic@),
        },
        forall|d: Seq<char>|
            valid_name(d) && topic@ == device_topic_prefix() + d + twin_update_result_suffix()
                ==> (r matches Some(nm) && nm@ == d),
{
    let prefix = "$hw/events/device/";
    let suffix = "/twin/update/result";
    proof {
        reveal_strlit("$hw/events/device/");
        reveal_strlit("/twin/update/result");
    }
    let n = topic.unicode_len();
    let plen = prefix.unicode_len();
    let slen = suffix.unicode_len();
    let mut i: usize = 0;
    while i < n
        invariant
            i <= n,
            n == topic@.len(),
            plen == device_topic_prefix().len(),
            slen == twin_update_result_suffix().len(),
            prefix@ == device_topic_prefix(),
            suffix@ == twin_update_result_suffix(),
            forall|i2: int, d: Seq<char>|
                0 <= i2 < i ==> !(valid_name(d) && #[trigger] match_at(topic@, i2, d)),
        decreases n - i,
    {
        let ghost i0 = i as int;
        if pattern_at(topic, i, prefix) {
            let j = i + plen;
            let mut e = j;
            while e < n && name_char(topic.get_char(e))
                invariant
                    j <= e <= n,
                    j == i0 + plen,
                    forall|k: int| j <= k < e ==> is_name_char(#[trigger] topic@[k]),
                decreases n - e,
            {
                e = e + 1;
            }
            proof {
                assert(e == n || !is_name_char(topic@[e as int]));
            }
            let ghost emax = e as int;
            let mut x = e;
            while x > j
                invariant
                    j <= x <= emax,
                    j == i0 + plen,
                    emax == e,
                    forall|y: int|
                        x < y <= emax ==> !(y + slen <= n && #[trigger] topic@.subrange(
                            y,
                            y + slen as int,
                        ) =~= suffix@),
                decreases x - j,
            {
                if pattern_at(topic, x, suffix) {
                    let name = String::from_str(topic.substring_char(j, x));
                    proof {
                        assert(name@ == topic@.subrange(j as int, x as int));
                        assert(valid_name(name@)) by {
                            assert forall|k: int| 0 <= k < name@.len() implies is_name_char(
                                #[trigger] name@[k],
                            ) by {
                                assert(name@[k] == topic@[j + k]);
                            }
                        }
                        assert(match_at(topic@, i0, name@)) by {
                            assert(topic@.subrange(i0, i0 + plen) == prefix@);
                            assert(topic@.subrange(j as int, j as int + name@.len() as int)
                                =~= name@);
                            assert(topic@.subrange(x as int, x as int + slen as int) == suffix@);
                        }
                        assert forall|d: Seq<char>|
                            valid_name(d) && topic@ == device_topic_prefix() + d
                                + twin_update_result_suffix() implies name@ == d by {
                            lemma_exact_topic_match(topic@, d);
                            assert(match_at(topic@, 0, d));
                            assert(i0 == 0);
                            let dend = plen + d.len() as int;
                            assert(topic@.subrange(plen as int, dend) == d);
                            assert forall|k: int| j <= k < dend implies is_name_char(
                                #[trigger] topic@[k],
                            ) by {
                                assert(topic@[k] == d[k - plen]);
                            }
                            assert(x as int <= dend) by {
                                if dend < x as int {
                                    assert(is_name_char(topic@[dend]));
                                    assert(topic@[dend] == twin_update_result_suffix()[0]);
                                    assert(twin_update_result_suffix()[0] == '/');
                                }
                            }
                            assert(emax >= dend) by {
                                if emax < dend {
                                    assert(emax < n);
                                    assert(is_name_char(topic@[emax]));
                                }
                            }
                            assert(x as int >= dend) by {
                                if (x as int) < dend {
                                    assert(dend + slen <= n && topic@.subrange(
                                        dend,
                                        dend + slen as int,
                                    ) =~= suffix@);
                                }
                            }
                            assert(name@ =~= d);
                        }
                    }
                    return Some(name);
                }
                x = x - 1;
            }
            proof {
                assert forall|d: Seq<char>|
                    !(valid_name(d) && #[trigger] match_at(topic@, i0, d)) by {
                    if valid_name(d) && match_at(topic@, i0, d) {
                        let dend = j + d.len() as int;
                        assert(topic@.subrange(j as int, dend) == d);
                        assert forall|k: int| j <= k < dend implies is_name_char(
                            #[trigger] topic@[k],
                        ) by {
                            assert(topic@[k] == d[k - j]);
                        }
                        assert(emax >= dend) by {
                            if emax < dend {
                                assert(emax < n);
                                assert(is_name_char(topic@[emax]));
                            }
                        }
                        assert(j < dend <= emax);
                        assert(dend + slen <= n && topic@.subrange(dend, dend + slen as int)
                            =~= suffix@);
                    }
                }
            }
        } else {
            proof {
                assert forall|d: Seq<char>|
                    !(valid_name(d) && #[trigger] match_at(topic@, i0, d)) by {
                    if valid_name(d) && match_at(topic@, i0, d) {
                        assert(i0 + plen <= n && topic@.subrange(i0, i0 + plen) == prefix@);
                    }
                }
            }
        }
        i = i + 1;
    }
    proof {
        assert(!topic_matches(topic@)) by {
            if topic_matches(topic@) {
                let (i2, d) = choose|i2: int, d: Seq<char>|
                    valid_name(d) && #[trigger] match_at(topic@, i2, d);
                assert(i2 + plen + d.len() + slen <= n);
                assert(0 <= i2 < n);
            }
        }
        assert forall|d: Seq<char>|
            valid_name(d) && topic@ == device_topic_prefix() + d
                + twin_update_result_suffix() implies false by {
            lemma_exact_topic_match(topic@, d);
            assert(match_at(topic@, 0, d));
            assert(topic_matches(topic@));
        }
    }
    None
}

/// A topic of the exact shape prefix-name-suffix matches the pattern
/// at its start.
proof fn lemma_exact_topic_match(t: Seq<char>, d: Seq<char>)
    requires
        valid_name(d),
        t == device_topic_prefix() + d + twin_update_result_suffix(),
    ensures
        match_at(t, 0, d),
{
    let p = device_topic_prefix().len() as int;
    let s = twin_update_result_suffix().len() as int;
    assert(t.subrange(0, p) =~= device_topic_prefix());
    assert(t.subrange(p, p + d.len() as int) =~= d);
    assert(t.subrange(p + d.len() as int, p + d.len() as int + s)
        =~= twin_update_result_suffix());
}

/// Turns a publish on a device-event topic into the device trigger it
/// names; the namespace of MQTT-announced devices is the configured
/// default.
pub fn device_trigger_from_topic(topic: &str) -> (r: Option<ResourceIndex<Device>>)
    ensures
        match r {
            Some(idx) => idx@.0 == "default"@ && valid_name(idx@.1) && exists|i: int|
                #[trigger] match_at(topic@, i, idx@.1),
            None => !topic_matches(topic@),
        },
        forall|d: Seq<char>|
            valid_name(d) && topic@ == device_topic_prefix() + d + twin_update_result_suffix()
                ==> (r matches Some(idx) && idx@.1 == d),
{
    match parse_device_topic(topic) {
        Some(name) => Some(ResourceIndex::new(crate::device::default_namespace(), name)),
        None => None,
    }
}

/// The incoming packets of the event loop, reduced to what the
/// trigger task distinguishes.
#[derive(Debug, Clone)]
pub enum MqttPacket {
    /// A publish, with its topic.
    Publish(String),
    PingResp,
    PubAck,
    PubRec,
    PubRel,
    PubComp,
    SubAck,
    /// Anything else the broker might send mid-stream.
    Other,
}

/// What the trigger task does with an incoming packet.
#[derive(Debug, Clone)]
pub enum MqttAction {
    /// Hand the publish's topic to the hooks.
    Deliver(String),
    /// Protocol housekeeping: log at trace and go on.
    Trace,
    /// An unexpected packet; the task ends with an error.
    Fatal,
}

/// Classifies one incoming packet: publishes are delivered, protocol
/// housekeeping is traced, anything else is fatal to the task.
pub fn classify_packet(p: MqttPacket) -> (r: MqttAction)
    ensures
        match p {
            MqttPacket::Publish(topic) => r matches MqttAction::Deliver(t) && t == topic,
            MqttPacket::PingResp | MqttPacket::PubAck | MqttPacket::PubRec | MqttPacket::PubRel
                | MqttPacket::PubComp | MqttPacket::SubAck => r is Trace,
            MqttPacket::Other => r is Fatal,
        },
{
    match p {
        MqttPacket::Publish(topic) => MqttAction::Deliver(topic),
        MqttPacket::PingResp => MqttAction::Trace,
        MqttPacket::PubAck => MqttAction::Trace,
        MqttPacket::PubRec => MqttAction::Trace,
        MqttPacket::PubRel => MqttAction::Trace,
        MqttPacket::PubComp => MqttAction::Trace,
        MqttPacket::SubAck => MqttAction::Trace,
        MqttPacket::Other => MqttAction::Fatal,
    }
}

/// A device twin update event as the broker delivers it.
#[derive(Debug, Clone)]
pub struct DeviceTwinUpdate {
    pub event_id: String,
    pub timestamp: i64,
    pub twin: StrMap<MsgTwin>,
}

/// The update of one twin property.
#[derive(Debug, Clone)]
pub struct MsgTwin {
    pub expected: Option<TwinValue>,
    pub actual: Option<TwinValue>,
    pub optional: Option<bool>,
    pub metadata: Option<TypeMetadata>,
    pub expected_version: Option<TwinVersion>,
    pub actual_version: Option<TwinVersion>,
}

/// A twin value with its metadata.
#[derive(Debug, Clone)]
pub struct TwinValue {
    pub value: Option<String>,
    pub metadata: Option<ValueMetadata>,
}

/// The type of a twin property.
#[derive(Debug, Clone)]
pub struct TypeMetadata {
    pub kind: String,
}

/// Cloud and edge version counters of a twin.
#[derive(Debug, Clone)]
pub struct TwinVersion {
    pub cloud: i64,
    pub edge: i64,
}

/// The timestamp of a twin value.
#[derive(Debug, Clone)]
pub struct ValueMetadata {
    pub timestamp: i64,
}

} // verus!
