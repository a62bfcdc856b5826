//! Script resources: a rule binding readable devices to writable
//! devices through a piece of executable code, together with the rows
//! of the change-log persistence schema.

use vstd::prelude::*;
use crate::index::ResourceIndex;
use crate::strmap::StrMap;
use crate::strmap::str_eq;

verus! {

/// A rule script: selectors, environment, manifest and policy.
#[derive(Debug, Clone)]
pub struct Script {
    pub spec: ScriptSpec,
    pub status: Option<ScriptStatus>,
}

#[derive(Debug, Clone)]
pub struct ScriptSpec {
    /// Devices the script can read.
    pub read_selector: DeviceSelectorSet,
    /// Devices the script can write.
    pub write_selector: DeviceSelectorSet,
    /// Environment variables handed to the run.
    pub env: StrMap<String>,
    /// What code to load, and from where.
    pub manifest: Manifest,
    /// When the script runs, and with which delivery guarantee.
    pub execute_policy: Policy,
}

/// Status of the last run of a script.
#[derive(Debug, Clone)]
pub struct ScriptStatus {
    /// Unix timestamp of the last run, in milliseconds.
    pub last_run: i64,
    /// Time the last run took, in microseconds.
    pub elapsed_time: u32,
    /// Exit status code of the last run.
    pub status: i32,
    /// Message of the last run.
    pub message: String,
}

/// A pair of maps binding local aliases to device resources.
#[derive(Debug, Clone)]
pub struct DeviceSelectorSet {
    /// Alias to the name of a single device resource.
    pub match_names: Option<StrMap<String>>,
    /// Alias to the name of an ability resource.
    pub match_abilities: Option<StrMap<String>>,
}

/// A script's code descriptor.
#[derive(Debug, Clone)]
pub struct Manifest {
    pub script_type: ScriptType,
    pub name: String,
    pub version: String,
    /// The code-distribution endpoint serving the script body.
    pub register: Option<String>,
}

#[derive(Debug, Clone, Copy, PartialEq, Eq, Structural, Hash)]
pub enum ScriptType {
    Wasm,
    Js,
    Native,
    Standalone,
}

impl ScriptType {
    /// The wire code of the variant.
    pub open spec fn spec_code(self) -> i32 {
        match self {
            ScriptType::Wasm => 0,
            ScriptType::Js => 1,
            ScriptType::Native => 2,
            ScriptType::Standalone => 3,
        }
    }

    #[verifier::when_used_as_spec(spec_code)]
    pub fn code(self) -> (r: i32)
        ensures
            r == self.spec_code(),
    {
        match self {
            ScriptType::Wasm => 0,
            ScriptType::Js => 1,
            ScriptType::Native => 2,
            ScriptType::Standalone => 3,
        }
    }

    /// The parse of a script-type string: `"js"` and `"Js"` name Js,
    /// `"wasm"` Wasm, `"so"` Native and `"exe"` Standalone; everything
    /// else is rejected.
    pub open spec fn spec_of(s: Seq<char>) -> Option<ScriptType> {
        if s == "js"@ || s == "Js"@ {
            Some(ScriptType::Js)
        } else if s == "wasm"@ {
            Some(ScriptType::Wasm)
        } else if s == "so"@ {
            Some(ScriptType::Native)
        } else if s == "exe"@ {
            Some(ScriptType::Standalone)
        } else {
            None
        }
    }

    /// Parses the textual form used by the persistence schema.
    pub fn from_str(s: &String) -> (r: Result<ScriptType, ParseError>)
        ensures
            match r {
                Ok(t) => ScriptType::spec_of(s@) == Some(t),
                Err(e) => e == ParseError::UnknownScriptType && ScriptType::spec_of(s@) is None,
            },
    {
        if str_eq(s.as_str(), "js") {
            Ok(ScriptType::Js)
        } else if str_eq(s.as_str(), "Js") {
            Ok(ScriptType::Js)
        } else if str_eq(s.as_str(), "wasm") {
            Ok(ScriptType::Wasm)
        } else if str_eq(s.as_str(), "so") {
            Ok(ScriptType::Native)
        } else if str_eq(s.as_str(), "exe") {
            Ok(ScriptType::Standalone)
        } else {
            Err(ParseError::UnknownScriptType)
        }
    }
}

/// When a script runs, and with which delivery guarantee.
#[derive(Debug, Clone)]
pub struct Policy {
    /// Run when a readable device reports a change.
    pub read_change: bool,
    /// Run when the webhook names the script.
    pub webhook: bool,
    /// Cron expression for timed runs.
    pub cron: String,
    pub qos: QosPolicy,
}

#[derive(Debug, Clone, Copy, PartialEq, Eq, Structural, Hash)]
pub enum QosPolicy {
    OnlyOnce,
    AtMostOnce,
    AtLeastOnce,
}

impl QosPolicy {
    /// The wire code of the variant.
    pub open spec fn spec_code(self) -> i32 {
        match self {
            QosPolicy::OnlyOnce => 0,
            QosPolicy::AtMostOnce => 1,
            QosPolicy::AtLeastOnce => 2,
        }
    }

    #[verifier::when_used_as_spec(spec_code)]
    pub fn code(self) -> (r: i32)
        ensures
            r == self.spec_code(),
    {
        match self {
            QosPolicy::OnlyOnce => 0,
            QosPolicy::AtMostOnce => 1,
            QosPolicy::AtLeastOnce => 2,
        }
    }

    /// The parse of a delivery-guarantee string.
    pub open spec fn spec_of(s: Seq<char>) -> Option<QosPolicy> {
        if s == "OnlyOnce"@ {
            Some(QosPolicy::OnlyOnce)
        } else if s == "AtMostOnce"@ {
            Some(QosPolicy::AtMostOnce)
        } else if s == "AtLeastOnce"@ {
            Some(QosPolicy::AtLeastOnce)
        } else {
            None
        }
    }

    /// Parses the textual form used by the persistence schema.
    pub fn from_str(s: &String) -> (r: Result<QosPolicy, ParseError>)
        ensures
            match r {
                Ok(q) => QosPolicy::spec_of(s@) == Some(q),
                Err(e) => e == ParseError::UnknownQosPolicy && QosPolicy::spec_of(s@) is None,
            },
    {
        if str_eq(s.as_str(), "OnlyOnce") {
            Ok(QosPolicy::OnlyOnce)
        } else if str_eq(s.as_str(), "AtMostOnce") {
            Ok(QosPolicy::AtMostOnce)
        } else if str_eq(s.as_str(), "AtLeastOnce") {
            Ok(QosPolicy::AtLeastOnce)
        } else {
            Err(ParseError::UnknownQosPolicy)
        }
    }
}

/// Rejection of a textual field of the persistence schema.
#[derive(Debug, Clone, Copy, PartialEq, Eq, Structural)]
pub enum ParseError {
    UnknownScriptType,
    UnknownQosPolicy,
}

impl Script {
    /// The index under which the script is stored: its manifest name,
    /// in the `"default"` namespace.
    pub fn index(&self) -> (r: ResourceIndex<Script>)
        ensures
            r@ == ("default"@, self.spec.manifest.name@),
    {
        ResourceIndex::new(crate::device::default_namespace(), self.spec.manifest.name.clone())
    }
}

/// Row of the `Script` table of the change-log schema.
#[derive(Debug, Clone)]
pub struct ScriptSqlite3 {
    pub name: String,
    pub script_type: String,
    pub version: String,
    pub elapsed_time: i32,
    pub last_run: i32,
    pub message: String,
    pub status: i32,
}

/// Row of the `EnvironmentVariables` table.
#[derive(Debug, Clone)]
pub struct EnvironmentVariable {
    pub script_id: i32,
    pub key: String,
    pub value: String,
}

/// Row of the `ExecutePolicies` table.
#[derive(Debug, Clone)]
pub struct ExecutePolicy {
    pub script_id: i32,
    pub cron: String,
    pub qos: String,
    pub read_change: bool,
    pub webhook: bool,
}

/// Row of the `Selector` table.
#[derive(Debug, Clone)]
pub struct Selector {
    pub script_id: i32,
    pub selector_type: String,
    pub match_types: String,
    pub match_names: String,
}

} // verus!
