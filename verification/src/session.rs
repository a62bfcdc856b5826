//! The executor session manager: the per-stream protocol state
//! machine of the bidirectional run RPC, and the two unary callbacks.
//!
//! A stream is opened by a `Connect` frame under a matching protocol
//! version; run commands are dispatched one per `Continue` frame; a
//! `Disconnect` frame, a stream error or the supervisor's stop closes
//! the stream.  The ghost `dispatched` and `reported` sets account
//! for every `Script` frame ever sent and every status callback ever
//! accepted, so that session balance and at-most-once dispatch are
//! stated over them.

use vstd::prelude::*;
use crate::command::ManagerMsg;
use crate::command::RunCommand;
use crate::device::DeviceStatus;
use crate::device::Twin;
use crate::device::TwinProperty;
use crate::id::ExecutorID;
use crate::id::ExecutorIDGenerator;
use crate::idmap::IdMap;
use crate::queue::BoundedQueue;
use crate::script::ScriptStatus;
use crate::strmap::StrMap;

verus! {

/// The frames an executor may send.
#[derive(Debug, Clone, Copy, PartialEq, Eq, Structural)]
pub enum ClientCode {
    Connect,
    Continue,
    Disconnect,
}

/// What an executor announces on connect.
#[derive(Debug, Clone)]
pub struct ClientInfo {
    pub max_job: u32,
}

/// One frame from an executor.
#[derive(Debug, Clone)]
pub struct ClientMessage {
    pub code: ClientCode,
    pub info: Option<ClientInfo>,
}

/// Why the server ends a stream.
#[derive(Debug, Clone, Copy, PartialEq, Eq, Structural)]
pub enum DisconnectReason {
    ClientExit,
    ServerExit,
}

/// One frame to an executor.
#[derive(Debug, Clone)]
pub enum ServerMsg {
    Connected(u32),
    Disconnect(DisconnectReason),
    Script(RunCommand),
}

/// The envelope of a server frame.
#[derive(Debug, Clone)]
pub struct ServerMessage {
    pub msg: Option<ServerMsg>,
}

/// Builds the frame that acknowledges a connection.
pub fn connected(executor_id: ExecutorID) -> (r: ServerMessage)
    ensures
        r.msg matches Some(m) && m matches ServerMsg::Connected(id) && id
            == executor_id.spec_u32(),
{
    ServerMessage { msg: Some(ServerMsg::Connected(executor_id.to_u32())) }
}

/// Builds the frame that ends a stream.
pub fn disconnect(reason: DisconnectReason) -> (r: ServerMessage)
    ensures
        r.msg matches Some(m) && m matches ServerMsg::Disconnect(rr) && rr == reason,
{
    ServerMessage { msg: Some(ServerMsg::Disconnect(reason)) }
}

/// The status code of a failed call, after the gRPC ones the server
/// answers with.
#[derive(Debug, Clone, Copy, PartialEq, Eq, Structural)]
pub enum ErrorCode {
    InvalidArgument,
    Internal,
    Unknown,
    Unimplemented,
}

/// A failed call: a code and a message for the peer.
#[derive(Debug, Clone)]
pub struct RpcStatus {
    pub code: ErrorCode,
    pub message: String,
}

/// The lifecycle of one executor connection, as the protocol sees it.
#[derive(Debug, Clone, Copy, PartialEq, Eq, Structural)]
pub enum ExecutorState {
    Init,
    Ready,
    Pause,
    Disconnect,
}

/// A live script run: where the script came from and which executor
/// runs it.
#[derive(Debug, Clone)]
pub struct ScriptSession {
    pub name: String,
    pub namespace: String,
    pub executor: ExecutorID,
}

/// A connected executor, by its peer address.
#[derive(Debug, Clone)]
pub struct ExecutorInfo {
    pub addr: String,
}

/// The wall-clock second/nanosecond pair of the wire protocol.
#[derive(Debug, Clone, Copy, PartialEq, Eq, Structural)]
pub struct Timestamp {
    pub seconds: i64,
    pub nanos: i32,
}

/// A span of time on the wire.
#[derive(Debug, Clone, Copy, PartialEq, Eq, Structural)]
pub struct Duration {
    pub seconds: i64,
    pub nanos: i32,
}

/// The status callback an executor sends when a script exits.
#[derive(Debug, Clone)]
pub struct ScriptStatusMsg {
    pub script_id: u32,
    pub start: Option<Timestamp>,
    pub duration: Option<Duration>,
    pub code: i32,
    pub message: String,
}

/// The device-write callback an executor sends for a script.
#[derive(Debug, Clone)]
pub struct UpdateDevice {
    pub script_id: u32,
    pub name: String,
    pub desired: StrMap<String>,
    pub qos: i32,
}

/// The status patch the callback asks the persistence layer to write:
/// which script, and its new status block.
#[derive(Debug, Clone)]
pub struct ScriptPatch {
    pub name: String,
    pub namespace: String,
    pub status: ScriptStatus,
}

/// The device patch the callback asks the persistence layer to write.
#[derive(Debug, Clone)]
pub struct DevicePatch {
    pub name: String,
    pub namespace: String,
    pub status: DeviceStatus,
}

/// What a stream task observed at its suspension point.
#[derive(Debug)]
pub enum StreamEvent {
    /// The executor sent a frame.
    Frame(ClientMessage),
    /// The transport handed an error up.
    FrameError(String),
    /// The executor closed the stream.
    StreamEnd,
    /// The supervisor flipped to stop.
    Stop,
}

/// What the step sends back on the stream, if anything.
#[derive(Debug)]
pub enum StepReply {
    Send(ServerMessage),
    Fail(RpcStatus),
    Nothing,
}

/// Whether the stream goes on after the step.
#[derive(Debug, Clone, Copy, PartialEq, Eq, Structural)]
pub enum StreamDirective {
    /// Keep serving the stream.
    Carry,
    /// No run command is pending; await one and step again.
    Wait,
    /// The stream is over; remove the executor.
    Close,
}

/// The outcome of one step of a stream task.
#[derive(Debug)]
pub struct StepOutcome {
    pub reply: StepReply,
    pub directive: StreamDirective,
}

/// One open executor stream.
#[derive(Debug)]
pub struct ExecutorStream {
    pub executor_id: ExecutorID,
    pub open: bool,
}

/// At-most-once dispatch: a dispatching step sends a `Script` frame
/// only for an identifier that no stream ever dispatched before, and
/// every later state keeps the identifier in `dispatched`.  So once a
/// `Script` frame carried an identifier, the premise of a second
/// dispatch of the same identifier can never hold again, whichever
/// stream takes the step.
pub proof fn lemma_at_most_once_dispatch(
    pre: SessionManager,
    mid: SessionManager,
    post: SessionManager,
    id: u32,
)
    requires
        !pre.dispatched().contains(id),
        mid.dispatched() == pre.dispatched().insert(id),
        mid.dispatched().subset_of(post.dispatched()),
    ensures
        post.dispatched().contains(id),
{
    assert(mid.dispatched().contains(id));
}

/// Division truncated towards zero, as the wire arithmetic performs
/// it.
pub open spec fn div_trunc(a: int, b: int) -> int {
    if a >= 0 {
        a / b
    } else {
        -((-a) / b)
    }
}

/// The milliseconds value of a timestamp.
pub open spec fn millis_of(t: Timestamp) -> int {
    t.seconds * 1000 + div_trunc(t.nanos as int, 1_000_000)
}

/// The microseconds value of a duration.
pub open spec fn micros_of(d: Duration) -> int {
    d.seconds * 1_000_000 + div_trunc(d.nanos as int, 1000)
}

/// Saturation of an integer into the `i64` range.
pub open spec fn sat_i64(v: int) -> i64 {
    if v > i64::MAX {
        i64::MAX
    } else if v < i64::MIN {
        i64::MIN
    } else {
        v as i64
    }
}

/// The session manager: the session and executor tables, the executor
/// identifier generator, and the ghost dispatch accounting.
pub struct SessionManager {
    scripts: IdMap<ScriptSession>,
    executors: IdMap<ExecutorInfo>,
    executor_idgen: ExecutorIDGenerator,
    server_version: String,
    dispatched: Ghost<Set<u32>>,
    reported: Ghost<Set<u32>>,
}

impl SessionManager {
    /// The live script sessions, by script identifier.
    pub closed spec fn sessions(self) -> Map<u32, ScriptSession> {
        self.scripts@
    }

    /// The connected executors, by executor identifier.
    pub closed spec fn executors(self) -> Map<u32, ExecutorInfo> {
        self.executors@
    }

    /// Every script identifier for which a `Script` frame was ever
    /// sent.
    pub closed spec fn dispatched(self) -> Set<u32> {
        self.dispatched@
    }

    /// Every script identifier whose exit status was accepted.
    pub closed spec fn reported(self) -> Set<u32> {
        self.reported@
    }

    /// The protocol version the server was built with.
    pub closed spec fn version(self) -> Seq<char> {
        self.server_version@
    }

    pub closed spec fn next_executor_id(self) -> u32 {
        self.executor_idgen.spec_next()
    }

    /// Session balance: the scripts with a live session are exactly
    /// those dispatched but not yet reported, and only dispatched
    /// scripts ever report.
    pub open spec fn balanced(self) -> bool {
        &&& self.sessions().dom() == self.dispatched().difference(self.reported())
        &&& self.reported().subset_of(self.dispatched())
    }

    /// Validity: balance plus a sound identifier generator.
    pub closed spec fn inv(self) -> bool {
        &&& self.balanced()
        &&& self.executor_idgen.inv()
    }

    /// Session balance: every valid manager state keeps the set of
    /// live sessions equal to the dispatched-but-unreported scripts.
    /// Constructors establish validity and every operation preserves
    /// it.
    pub proof fn lemma_session_balance(self)
        requires
            self.inv(),
        ensures
            self.balanced(),
    {
    }

    pub fn new(server_version: String) -> (r: Self)
        ensures
            r.sessions() == Map::<u32, ScriptSession>::empty(),
            r.executors() == Map::<u32, ExecutorInfo>::empty(),
            r.dispatched() == Set::<u32>::empty(),
            r.reported() == Set::<u32>::empty(),
            r.version() == server_version@,
            r.next_executor_id() == 1,
            r.inv(),
    {
        let r = SessionManager {
            scripts: IdMap::new(),
            executors: IdMap::new(),
            executor_idgen: ExecutorIDGenerator::new(),
            server_version,
            dispatched: Ghost(Set::empty()),
            reported: Ghost(Set::empty()),
        };
        proof {
            assert(r.sessions().dom() =~= r.dispatched().difference(r.reported()));
        }
        r
    }

    /// Whether an executor with this identifier is registered.
    pub fn has_executor(&self, id: u32) -> (r: bool)
        ensures
            r == self.executors().contains_key(id),
    {
        self.executors.contains_key(id)
    }

    /// Whether a script with this identifier has a live session.
    pub fn has_session(&self, id: u32) -> (r: bool)
        ensures
            r == self.sessions().contains_key(id),
    {
        self.scripts.contains_key(id)
    }

    /// The number of live script sessions.
    pub fn session_count(&self) -> (r: usize)
        ensures
            r == self.sessions().dom().len(),
    {
        let r = self.scripts.len();
        proof {
            self.scripts.key_seq().unique_seq_to_set();
        }
        r
    }

    /// Checks the protocol version an executor announced in its stream
    /// metadata against the server's own.
    pub fn validate_metadata(&self, client_version: &String) -> (r: Result<(), RpcStatus>)
        ensures
            match r {
                Ok(()) => client_version@ == self.version(),
                Err(e) => e.code == ErrorCode::InvalidArgument && client_version@
                    != self.version(),
            },
    {
        if *client_version == self.server_version {
            Ok(())
        } else {
            Err(
                RpcStatus {
                    code: ErrorCode::InvalidArgument,
                    message: String::from_str("Version mismatch"),
                },
            )
        }
    }

    /// Checks the first frame of a stream: it must be a `Connect`
    /// carrying connection info.
    pub fn handle_first_message(&self, msg: &Result<Option<ClientMessage>, String>) -> (r: Result<
        (),
        RpcStatus,
    >)
        ensures
            match r {
                Ok(()) => msg matches Ok(Some(m)) && m.code == ClientCode::Connect
                    && m.info is Some,
                Err(e) => (match msg {
                    Ok(Some(m)) => (m.code != ClientCode::Connect || m.info is None) && e.code
                        == ErrorCode::InvalidArgument,
                    Ok(None) => e.code == ErrorCode::InvalidArgument,
                    Err(_) => e.code == ErrorCode::Unknown,
                }),
            },
    {
        match msg {
            Ok(Some(m)) => {
                match m.code {
                    ClientCode::Connect => {
                        match &m.info {
                            Some(_) => Ok(()),
                            None => Err(
                                RpcStatus {
                                    code: ErrorCode::InvalidArgument,
                                    message: String::from_str(
                                        "Connect message has no connection field",
                                    ),
                                },
                            ),
                        }
                    },
                    _ => Err(
                        RpcStatus {
                            code: ErrorCode::InvalidArgument,
                            message: String::from_str("First message is not connect message"),
                        },
                    ),
                }
            },
            Ok(None) => Err(
                RpcStatus {
                    code: ErrorCode::InvalidArgument,
                    message: String::from_str("Got None on connect message"),
                },
            ),
            Err(_) => Err(
                RpcStatus {
                    code: ErrorCode::Unknown,
                    message: String::from_str("Got error on connect message"),
                },
            ),
        }
    }

    /// Opens a stream: checks the version and the first frame, and
    /// only then allocates an executor identifier, registers the
    /// executor and emits the `Connected` frame.  On any rejection no
    /// state is allocated.
    pub fn open_stream(
        &mut self,
        client_version: &String,
        first: &Result<Option<ClientMessage>, String>,
        addr: String,
    ) -> (r: Result<(ExecutorID, ServerMessage), RpcStatus>)
        requires
            old(self).inv(),
            old(self).next_executor_id() < u32::MAX,
        ensures
            final(self).inv(),
            final(self).sessions() == old(self).sessions(),
            final(self).dispatched() == old(self).dispatched(),
            final(self).reported() == old(self).reported(),
            final(self).version() == old(self).version(),
            (client_version@ == old(self).version() && (first matches Ok(Some(m)) && m.code
                == ClientCode::Connect && m.info is Some)) ==> r is Ok,
            match r {
                Ok((id, frame)) => {
                    &&& client_version@ == old(self).version()
                    &&& first matches Ok(Some(m)) && m.code == ClientCode::Connect
                        && m.info is Some
                    &&& id.spec_u32() == old(self).next_executor_id()
                    &&& final(self).executors() == old(self).executors().insert(
                        id.spec_u32(),
                        ExecutorInfo { addr },
                    )
                    &&& frame.msg matches Some(m) && m matches ServerMsg::Connected(v) && v
                        == id.spec_u32()
                    &&& final(self).next_executor_id() == old(self).next_executor_id() + 1
                },
                Err(e) => {
                    &&& final(self).executors() == old(self).executors()
                    &&& final(self).next_executor_id() == old(self).next_executor_id()
                    &&& (client_version@ != old(self).version() ==> e.code
                        == ErrorCode::InvalidArgument)
                },
            },
    {
        if let Err(e) = self.validate_metadata(client_version) {
            return Err(e);
        }
        if let Err(e) = self.handle_first_message(first) {
            return Err(e);
        }
        let executor_id = self.executor_idgen.gen();
        self.executors.insert(executor_id.to_u32(), ExecutorInfo { addr });
        let frame = connected(executor_id);
        Ok((executor_id, frame))
    }

    /// One step of a stream task: reacts to the next observed event.
    ///
    /// A `Continue` frame claims the next run command: the script
    /// session is recorded before the `Script` frame is handed out,
    /// and the command's identifier joins `dispatched`.  With the
    /// run queue closed the stream fails with an internal error; with
    /// the queue merely empty the task waits.  An unexpected `Connect`
    /// is a protocol violation; a `Disconnect` frame, a transport
    /// error, the end of the stream or the supervisor's stop all close
    /// the stream, with the reply the protocol owes in each case.
    ///
    /// A `Script` frame always carries an identifier that was never
    /// dispatched before, provided the queue holds only fresh,
    /// pairwise distinct identifiers; `dispatched` never shrinks.
    pub fn session_step(
        &mut self,
        stream: &mut ExecutorStream,
        event: StreamEvent,
        run_queue: &mut BoundedQueue<ManagerMsg>,
    ) -> (r: StepOutcome)
        requires
            old(self).inv(),
            old(stream).open,
            match event {
                StreamEvent::Frame(m) => (m.code == ClientCode::Continue && old(run_queue)@.len()
                    > 0) ==> !old(self).dispatched().contains(old(run_queue)@[0].run.script_id),
                _ => true,
            },
        ensures
            final(self).inv(),
            final(self).executors() == old(self).executors(),
            final(self).version() == old(self).version(),
            final(self).next_executor_id() == old(self).next_executor_id(),
            final(self).reported() == old(self).reported(),
            old(self).dispatched().subset_of(final(self).dispatched()),
            final(stream).executor_id == old(stream).executor_id,
            final(stream).open == (r.directive != StreamDirective::Close),
            final(run_queue).is_closed() == old(run_queue).is_closed(),
            final(run_queue).spec_capacity() == old(run_queue).spec_capacity(),
            match event {
                StreamEvent::Frame(m) => match m.code {
                    ClientCode::Continue => {
                        if old(run_queue).is_closed() && old(run_queue)@.len() == 0 {
                            &&& r.reply matches StepReply::Fail(e) && e.code == ErrorCode::Internal
                            &&& r.directive == StreamDirective::Close
                            &&& final(self).sessions() == old(self).sessions()
                            &&& final(self).dispatched() == old(self).dispatched()
                            &&& final(run_queue)@ == old(run_queue)@
                        } else if old(run_queue)@.len() == 0 {
                            &&& r.reply is Nothing
                            &&& r.directive == StreamDirective::Wait
                            &&& final(self).sessions() == old(self).sessions()
                            &&& final(self).dispatched() == old(self).dispatched()
                            &&& final(run_queue)@ == old(run_queue)@
                        } else {
                            let task = old(run_queue)@[0];
                            &&& final(run_queue)@ == old(run_queue)@.drop_first()
                            &&& r.reply matches StepReply::Send(f) && f.msg matches Some(sm) && sm
                                matches ServerMsg::Script(rc) && rc == task.run
                            &&& r.directive == StreamDirective::Carry
                            &&& final(self).sessions() == old(self).sessions().insert(
                                task.run.script_id,
                                ScriptSession {
                                    name: task.name,
                                    namespace: task.namespace,
                                    executor: old(stream).executor_id,
                                },
                            )
                            &&& final(self).dispatched() == old(self).dispatched().insert(
                                task.run.script_id,
                            )
                            &&& !old(self).dispatched().contains(task.run.script_id)
                        }
                    },
                    ClientCode::Connect => {
                        &&& r.reply matches StepReply::Fail(e) && e.code
                            == ErrorCode::InvalidArgument
                        &&& r.directive == StreamDirective::Close
                        &&& final(self).sessions() == old(self).sessions()
                        &&& final(self).dispatched() == old(self).dispatched()
                        &&& final(run_queue)@ == old(run_queue)@
                    },
                    ClientCode::Disconnect => {
                        &&& r.reply matches StepReply::Send(f) && f.msg matches Some(sm) && sm
                            matches ServerMsg::Disconnect(reason) && reason
                            == DisconnectReason::ClientExit
                        &&& r.directive == StreamDirective::Close
                        &&& final(self).sessions() == old(self).sessions()
                        &&& final(self).dispatched() == old(self).dispatched()
                        &&& final(run_queue)@ == old(run_queue)@
                    },
                },
                StreamEvent::FrameError(_) => {
                    &&& r.reply matches StepReply::Fail(e) && e.code == ErrorCode::InvalidArgument
                    &&& r.directive == StreamDirective::Close
                    &&& final(self).sessions() == old(self).sessions()
                    &&& final(self).dispatched() == old(self).dispatched()
                    &&& final(run_queue)@ == old(run_queue)@
                },
                StreamEvent::StreamEnd => {
                    &&& r.reply is Nothing
                    &&& r.directive == StreamDirective::Close
                    &&& final(self).sessions() == old(self).sessions()
                    &&& final(self).dispatched() == old(self).dispatched()
                    &&& final(run_queue)@ == old(run_queue)@
                },
                StreamEvent::Stop => {
                    &&& r.reply matches StepReply::Send(f) && f.msg matches Some(sm) && sm matches
                        ServerMsg::Disconnect(reason) && reason == DisconnectReason::ServerExit
                    &&& r.directive == StreamDirective::Close
                    &&& final(self).sessions() == old(self).sessions()
                    &&& final(self).dispatched() == old(self).dispatched()
                    &&& final(run_queue)@ == old(run_queue)@
                },
            },
    {
        match event {
            StreamEvent::Frame(m) => {
                match m.code {
                    ClientCode::Continue => {
                        match run_queue.recv() {
                            Some(task) => {
                                let ManagerMsg { run, name, namespace } = task;
                                let sid = run.script_id;
                                self.scripts.insert(
                                    sid,
                                    ScriptSession {
                                        name,
                                        namespace,
                                        executor: stream.executor_id,
                                    },
                                );
                                proof {
                                    self.dispatched@ = self.dispatched@.insert(sid);
                                    assert(self.sessions().dom() =~= self.dispatched@.difference(
                                        self.reported@,
                                    ));
                                }
                                StepOutcome {
                                    reply: StepReply::Send(
                                        ServerMessage { msg: Some(ServerMsg::Script(run)) },
                                    ),
                                    directive: StreamDirective::Carry,
                                }
                            },
                            None => {
                                if run_queue.closed() {
                                    stream.open = false;
                                    StepOutcome {
                                        reply: StepReply::Fail(
                                            RpcStatus {
                                                code: ErrorCode::Internal,
                                                message: String::from_str("Scheduler is down"),
                                            },
                                        ),
                                        directive: StreamDirective::Close,
                                    }
                                } else {
                                    StepOutcome {
                                        reply: StepReply::Nothing,
                                        directive: StreamDirective::Wait,
                                    }
                                }
                            },
                        }
                    },
                    ClientCode::Connect => {
                        stream.open = false;
                        StepOutcome {
                            reply: StepReply::Fail(
                                RpcStatus {
                                    code: ErrorCode::InvalidArgument,
                                    message: String::from_str("Got unexpect Connect message"),
                                },
                            ),
                            directive: StreamDirective::Close,
                        }
                    },
                    ClientCode::Disconnect => {
                        stream.open = false;
                        StepOutcome {
                            reply: StepReply::Send(disconnect(DisconnectReason::ClientExit)),
                            directive: StreamDirective::Close,
                        }
                    },
                }
            },
            StreamEvent::FrameError(_) => {
                stream.open = false;
                StepOutcome {
                    reply: StepReply::Fail(
                        RpcStatus {
                            code: ErrorCode::InvalidArgument,
                            message: String::from_str("Got unexpect Error"),
                        },
                    ),
                    directive: StreamDirective::Close,
                }
            },
            StreamEvent::StreamEnd => {
                stream.open = false;
                StepOutcome { reply: StepReply::Nothing, directive: StreamDirective::Close }
            },
            StreamEvent::Stop => {
                stream.open = false;
                StepOutcome {
                    reply: StepReply::Send(disconnect(DisconnectReason::ServerExit)),
                    directive: StreamDirective::Close,
                }
            },
        }
    }

    /// Removes a closed stream's executor from the executor map; the
    /// result says whether it was still known, so the caller can log.
    /// Script sessions are left as they are: a run dispatched to a
    /// vanished executor stays visible until its status arrives.
    pub fn close_stream(&mut self, stream: &ExecutorStream) -> (known: bool)
        requires
            old(self).inv(),
        ensures
            final(self).inv(),
            known == old(self).executors().contains_key(stream.executor_id.spec_u32()),
            final(self).executors() == old(self).executors().remove(
                stream.executor_id.spec_u32(),
            ),
            final(self).sessions() == old(self).sessions(),
            final(self).dispatched() == old(self).dispatched(),
            final(self).reported() == old(self).reported(),
            final(self).version() == old(self).version(),
            final(self).next_executor_id() == old(self).next_executor_id(),
    {
        let id = stream.executor_id.to_u32();
        let known = self.executors.contains_key(id);
        self.executors.remove(id);
        known
    }

    /// Accepts a script's exit status: the session is removed and a
    /// status patch for the persistence layer is returned.  A script
    /// without a live session is rejected with `InvalidArgument`.
    pub fn update_script_status(&mut self, status: ScriptStatusMsg) -> (r: Result<
        ScriptPatch,
        RpcStatus,
    >)
        requires
            old(self).inv(),
        ensures
            final(self).inv(),
            final(self).executors() == old(self).executors(),
            final(self).dispatched() == old(self).dispatched(),
            final(self).version() == old(self).version(),
            final(self).next_executor_id() == old(self).next_executor_id(),
            match r {
                Ok(patch) => {
                    &&& old(self).sessions().contains_key(status.script_id)
                    &&& final(self).sessions() == old(self).sessions().remove(status.script_id)
                    &&& final(self).reported() == old(self).reported().insert(status.script_id)
                    &&& patch.name == old(self).sessions()[status.script_id].name
                    &&& patch.namespace == old(self).sessions()[status.script_id].namespace
                    &&& patch.status.last_run == (match status.start {
                        Some(t) => sat_i64(millis_of(t)),
                        None => 0,
                    })
                    &&& patch.status.elapsed_time == (match status.duration {
                        Some(d) => sat_i64(micros_of(d)) as u32,
                        None => 0,
                    })
                    &&& patch.status.status == status.code
                    &&& patch.status.message == status.message
                },
                Err(e) => {
                    &&& e.code == ErrorCode::InvalidArgument
                    &&& !old(self).sessions().contains_key(status.script_id)
                    &&& final(self).sessions() == old(self).sessions()
                    &&& final(self).reported() == old(self).reported()
                },
            },
    {
        let id = status.script_id;
        let (name, namespace) = match self.scripts.get(id) {
            Some(s) => (s.name.clone(), s.namespace.clone()),
            None => {
                return Err(
                    RpcStatus {
                        code: ErrorCode::InvalidArgument,
                        message: String::from_str(
                            "Got message of updating script status, but script isn't running",
                        ),
                    },
                );
            },
        };
        let ghost old_session = old(self).sessions()[id];
        let last_run = match &status.start {
            Some(t) => saturating_millis(t),
            None => 0,
        };
        let elapsed_time = match &status.duration {
            Some(d) => saturating_micros_u32(d),
            None => 0,
        };
        self.scripts.remove(id);
        proof {
            assert(old(self).dispatched().contains(id) && !old(self).reported().contains(id));
            self.reported@ = self.reported@.insert(id);
            assert(self.sessions().dom() =~= self.dispatched@.difference(self.reported@));
        }
        proof {
            assert(name == old_session.name && namespace == old_session.namespace);
        }
        Ok(
            ScriptPatch {
                name,
                namespace,
                status: ScriptStatus {
                    last_run,
                    elapsed_time,
                    status: status.code,
                    message: status.message,
                },
            },
        )
    }

    /// Accepts a script's device write: verifies the live session,
    /// turns the desired values into twins with no reported part, and
    /// returns the merge patch for the persistence layer.  Only
    /// at-most-once delivery is implemented; the other levels are
    /// reserved and answered with `Unimplemented`.
    #[verifier::loop_isolation(false)]
    pub fn update_device_desired(&mut self, device: UpdateDevice) -> (r: Result<
        DevicePatch,
        RpcStatus,
    >)
        requires
            old(self).inv(),
        ensures
            final(self).inv(),
            *final(self) == *old(self),
            match r {
                Ok(patch) => {
                    &&& old(self).sessions().contains_key(device.script_id)
                    &&& device.qos == 1
                    &&& patch.name == device.name
                    &&& patch.namespace == old(self).sessions()[device.script_id].namespace
                    &&& patch.status.twins@.len() == device.desired.key_seq().len()
                    &&& forall|j: int|
                        0 <= j < patch.status.twins@.len() ==> {
                            &&& (#[trigger] patch.status.twins@[j]).property_name@
                                == device.desired.key_seq()[j]
                            &&& patch.status.twins@[j].desired.value
                                == device.desired.val_seq()[j]
                            &&& patch.status.twins@[j].reported is None
                        }
                },
                Err(e) => {
                    &&& (!old(self).sessions().contains_key(device.script_id) ==> e.code
                        == ErrorCode::InvalidArgument)
                    &&& (old(self).sessions().contains_key(device.script_id) ==> e.code
                        == ErrorCode::Unimplemented && device.qos != 1)
                },
            },
    {
        let id = device.script_id;
        let session = match self.scripts.get(id) {
            Some(s) => s,
            None => {
                return Err(
                    RpcStatus {
                        code: ErrorCode::InvalidArgument,
                        message: String::from_str(
                            "Got message of updating device desired, but script isn't running",
                        ),
                    },
                );
            },
        };
        let namespace = session.namespace.clone();
        if device.qos != 1 {
            return Err(
                RpcStatus {
                    code: ErrorCode::Unimplemented,
                    message: String::from_str("Not implemented"),
                },
            );
        }
        let mut twins: Vec<Twin> = Vec::new();
        let n = device.desired.len();
        let mut j: usize = 0;
        while j < n
            invariant
                j <= n,
                n == device.desired.key_seq().len(),
                n == device.desired.val_seq().len(),
                twins@.len() == j,
                forall|p: int|
                    0 <= p < j ==> {
                        &&& (#[trigger] twins@[p]).property_name@ == device.desired.key_seq()[p]
                        &&& twins@[p].desired.value == device.desired.val_seq()[p]
                        &&& twins@[p].reported is None
                    },
            decreases n - j,
        {
            let prop = device.desired.key_at(j);
            let value = device.desired.val_at(j);
            twins.push(
                Twin {
                    property_name: prop.clone(),
                    desired: TwinProperty::new(value.clone()),
                    reported: None,
                },
            );
            j = j + 1;
        }
        Ok(DevicePatch { name: device.name, namespace, status: DeviceStatus { twins } })
    }
}

/// Division of a nanosecond part by a positive constant, truncated
/// towards zero.
fn trunc_div_nanos(n: i32, d: u32) -> (r: i64)
    requires
        d > 0,
    ensures
        r as int == div_trunc(n as int, d as int),
{
    if n >= 0 {
        ((n as u32) / d) as i64
    } else {
        let m = (-(n as i64)) as u64;
        -((m / (d as u64)) as i64)
    }
}

/// The milliseconds of a timestamp, saturated into `i64`.  The sum is
/// computed in 128 bits, so the saturation is exact.
fn saturating_millis(t: &Timestamp) -> (r: i64)
    ensures
        r == sat_i64(millis_of(*t)),
{
    let add = trunc_div_nanos(t.nanos, 1_000_000);
    let total: i128 = (t.seconds as i128) * 1000 + (add as i128);
    proof {
        assert(total as int == millis_of(*t));
    }
    if total > (i64::MAX as i128) {
        i64::MAX
    } else if total < (i64::MIN as i128) {
        i64::MIN
    } else {
        total as i64
    }
}

/// The microseconds of a duration, saturated into `i64` and truncated
/// to the wire's 32-bit field as the protocol carries it.
fn saturating_micros_u32(d: &Duration) -> (r: u32)
    ensures
        r == sat_i64(micros_of(*d)) as u32,
{
    let add = trunc_div_nanos(d.nanos, 1000);
    let total: i128 = (d.seconds as i128) * 1_000_000 + (add as i128);
    proof {
        assert(total as int == micros_of(*d));
    }
    let clamped: i64 = if total > (i64::MAX as i128) {
        i64::MAX
    } else if total < (i64::MIN as i128) {
        i64::MIN
    } else {
        total as i64
    };
    #[verifier::truncate]
    let r = clamped as u32;
    r
}

} // verus!
