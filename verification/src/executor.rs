//! The executor's side of the protocol: what the client does with
//! each frame of its stream, and the script-location rule an executor
//! resolves before downloading code.  The transport and the runtime
//! that executes the code stay outside.

use vstd::prelude::*;
use crate::command::ReadDevice;
use crate::command::RunCommand;
use crate::script::QosPolicy;
use crate::session::ServerMessage;
use crate::session::ServerMsg;
use crate::strmap::StrMap;

verus! {

/// Why the client side gives up on its stream.
#[derive(Debug, Clone, Copy, PartialEq, Eq, Structural)]
pub enum ClientError {
    /// The stream ended without a frame.
    UnexpectedEnd,
    /// The transport reported an error.
    TransportError,
    /// A frame without a payload.
    EmptyMessage,
    /// A frame that is out of place where it arrived.
    UnexpectedFrame,
}

/// Reads the first frame of the stream: only a `Connected` frame is
/// in place, and it carries the executor's identifier.
pub fn handle_first_message(msg: &Option<Result<ServerMessage, String>>) -> (r: Result<
    u32,
    ClientError,
>)
    ensures
        match r {
            Ok(id) => msg matches Some(Ok(m)) && m.msg matches Some(sm) && sm matches
                ServerMsg::Connected(c) && c == id,
            Err(e) => match msg {
                None => e == ClientError::UnexpectedEnd,
                Some(Err(_)) => e == ClientError::TransportError,
                Some(Ok(m)) => match m.msg {
                    None => e == ClientError::EmptyMessage,
                    Some(sm) => !(sm is Connected) && e == ClientError::UnexpectedFrame,
                },
            },
        },
{
    match msg {
        None => Err(ClientError::UnexpectedEnd),
        Some(Err(_)) => Err(ClientError::TransportError),
        Some(Ok(m)) => match &m.msg {
            None => Err(ClientError::EmptyMessage),
            Some(ServerMsg::Connected(c)) => Ok(*c),
            Some(_) => Err(ClientError::UnexpectedFrame),
        },
    }
}

/// What the client does after one frame of the running stream.
#[derive(Debug)]
pub enum ClientAction {
    /// Hand the run command to a worker.
    Run(RunCommand),
    /// The server said goodbye; finish cleanly.
    Finish,
    /// The stream is broken; finish with an error.
    Fault(ClientError),
}

/// Reads one frame of the running stream: a `Script` frame carries
/// work, a `Disconnect` ends the session, everything else is a fault.
pub fn client_step(msg: Option<Result<ServerMessage, String>>) -> (r: ClientAction)
    ensures
        match msg {
            None => r matches ClientAction::Fault(e) && e == ClientError::UnexpectedEnd,
            Some(Err(_)) => r matches ClientAction::Fault(e) && e == ClientError::TransportError,
            Some(Ok(m)) => match m.msg {
                None => r matches ClientAction::Fault(e) && e == ClientError::EmptyMessage,
                Some(sm) => match sm {
                    ServerMsg::Connected(_) => r matches ClientAction::Fault(e) && e
                        == ClientError::UnexpectedFrame,
                    ServerMsg::Disconnect(_) => r is Finish,
                    ServerMsg::Script(rc) => r matches ClientAction::Run(run) && run == rc,
                },
            },
        },
{
    match msg {
        None => ClientAction::Fault(ClientError::UnexpectedEnd),
        Some(Err(_)) => ClientAction::Fault(ClientError::TransportError),
        Some(Ok(m)) => match m.msg {
            None => ClientAction::Fault(ClientError::EmptyMessage),
            Some(ServerMsg::Connected(_)) => ClientAction::Fault(ClientError::UnexpectedFrame),
            Some(ServerMsg::Disconnect(_)) => ClientAction::Finish,
            Some(ServerMsg::Script(rc)) => ClientAction::Run(rc),
        },
    }
}

/// The readable devices a run was given, by alias.
#[derive(Debug)]
pub struct ReadableDevices {
    pub devices: StrMap<ReadDevice>,
}

/// The writable devices a run may commit to, by alias.
#[derive(Debug)]
pub struct WritableDevices {
    pub devices: StrMap<DeviceSnapshot>,
}

/// The environment block of a run.
#[derive(Debug)]
pub struct Envvar {
    pub env: StrMap<String>,
}

/// A writable device with the desired values staged so far.
#[derive(Debug, Clone)]
pub struct DeviceSnapshot {
    pub name: String,
    pub commits: StrMap<String>,
}

impl DeviceSnapshot {
    /// Stages one desired value; a later write to the same property
    /// overrides an earlier one.
    pub fn stage(&mut self, property: String, value: String)
        ensures
            final(self).name == old(self).name,
            final(self).commits@ == old(self).commits@.insert(property@, value),
    {
        self.commits.insert(property, value);
    }
}

/// A staged desired-value write, as a script hands it up.
#[derive(Debug, Clone)]
pub struct UpdateDeviceDesired {
    pub name: String,
    pub property: String,
    pub value: String,
}

/// The reported value of one property of a readable device, if the
/// run was given the device and the property.
pub fn get_device_status(readable: &ReadableDevices, name: &String, property: &String) -> (r:
    Option<String>)
    ensures
        match r {
            Some(v) => readable.devices@.contains_key(name@)
                && readable.devices@[name@].status@.contains_key(property@) && v
                == readable.devices@[name@].status@[property@],
            None => !readable.devices@.contains_key(name@)
                || !readable.devices@[name@].status@.contains_key(property@),
        },
{
    match readable.devices.get(name) {
        Some(d) => match d.status.get(property) {
            Some(v) => Some(v.clone()),
            None => None,
        },
        None => None,
    }
}

/// The immutable facts of one script run on the executor side.
#[derive(Debug, Clone)]
pub struct Rule {
    pub script_id: u32,
    pub name: String,
    pub version: String,
    pub register: String,
    pub qos: QosPolicy,
}

impl Rule {
    /// The location the script body is downloaded from:
    /// `<register>/<name>/<version>.js`.
    pub fn url_string(&self) -> (r: String)
        ensures
            r@ == self.register@ + "/"@ + self.name@ + "/"@ + self.version@ + ".js"@,
    {
        let mut r = self.register.clone();
        r.append("/");
        r.append(self.name.as_str());
        r.append("/");
        r.append(self.version.as_str());
        r.append(".js");
        r
    }
}

} // verus!
