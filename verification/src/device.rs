//! Device resources: an edge endpoint with its twin state.  The core
//! treats devices as read-only caches filled by the watch or
//! change-log layer.

use vstd::prelude::*;
use crate::index::ResourceIndex;
use crate::strmap::StrMap;

verus! {

/// A device instance together with its reported twin state.
#[derive(Debug, Clone)]
pub struct Device {
    pub spec: DeviceSpec,
    pub status: Option<DeviceStatus>,
}

/// A single device instance; an instantiation of a device model.
#[derive(Debug, Clone)]
pub struct DeviceSpec {
    pub name: String,
    /// Reference to the device model used as a template.
    pub device_model_ref: LocalObjectReference,
    /// The protocol configuration used to connect to the device.
    pub protocol: Option<ProtocolConfig>,
    /// How to access the device properties.
    pub property_visitors: Vec<DevicePropertyVisitor>,
    /// Time-series properties processed on the edge node.
    pub data: Option<DeviceData>,
    /// Binding preferences between devices and nodes.
    pub node_selector: NodeSelector,
}

/// The device state: desired and reported values of twin attributes.
#[derive(Debug, Clone)]
pub struct DeviceStatus {
    pub twins: Vec<Twin>,
}

/// One control property with a desired and an optional reported state.
#[derive(Debug, Clone)]
pub struct Twin {
    pub property_name: String,
    pub desired: TwinProperty,
    pub reported: Option<TwinProperty>,
}

/// The state of one device property.
#[derive(Debug, Clone)]
pub struct TwinProperty {
    pub value: String,
    pub metadata: StrMap<String>,
}

impl TwinProperty {
    pub fn new(value: String) -> (r: TwinProperty)
        ensures
            r.value == value,
            r.metadata@ == Map::<Seq<char>, String>::empty(),
    {
        TwinProperty { value, metadata: StrMap::new() }
    }
}

/// A reference to another object in the same namespace.
#[derive(Debug, Clone)]
pub struct LocalObjectReference {
    pub name: Option<String>,
}

/// Node selector requirements.
#[derive(Debug, Clone)]
pub struct NodeSelector {
    pub node_selector_terms: Vec<NodeSelectorTerm>,
}

/// A requirement for selecting nodes.
#[derive(Debug, Clone)]
pub struct NodeSelectorTerm {
    pub match_expressions: Vec<NodeSelectorRequirement>,
}

/// A node selector requirement.
#[derive(Debug, Clone)]
pub struct NodeSelectorRequirement {
    pub key: String,
    pub operator: String,
    pub values: Vec<String>,
}

/// The protocol configuration used to connect to the device.
#[derive(Debug, Clone)]
pub struct ProtocolConfig {}

/// How to access device properties.
#[derive(Debug, Clone)]
pub struct DevicePropertyVisitor {}

/// Time-series properties processed on the edge node.
#[derive(Debug, Clone)]
pub struct DeviceData {}

impl Device {
    /// The index under which the device is stored; devices live in the
    /// `"default"` namespace.
    pub fn index(&self) -> (r: ResourceIndex<Device>)
        ensures
            r@ == ("default"@, self.spec.name@),
    {
        ResourceIndex::new(default_namespace(), self.spec.name.clone())
    }
}

/// The namespace every resource of this plane lives in.
pub fn default_namespace() -> (r: String)
    ensures
        r@ == "default"@,
{
    String::from_str("default")
}

} // verus!
