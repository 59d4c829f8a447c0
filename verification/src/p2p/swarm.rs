//! The swarm's decisions: what every network event, command and finished job
//! leads to.
use std::collections::HashMap;
use vstd::prelude::*;
use vstd::string::*;
use vstd::utf8::encode_utf8;
use crate::outside::lossy::{lossy_text, text_lossy};
use crate::outside::uuid_text::{uuid_notation, uuid_to_text};
use crate::p2p::command::SwarmCommand;
use crate::p2p::discovery::Event;
use crate::p2p::protocol::{DescriptorRequest, DescriptorResponse};
use crate::text::{str_eq, tail_lines, tail_of};
use crate::types::{clone_bytes, NodeDescriptor, NodeId, ProjectResult, ProjectResultView, ProjectTask, TaskId};

verus! {

broadcast use vstd::std_specs::hash::group_hash_axioms;

/// Where to listen and whom to dial first.
#[derive(Debug, PartialEq, Eq)]
pub struct SwarmConfig {
    /// Addresses to listen on.
    pub listen_addresses: Vec<String>,
    /// Peers to dial at startup.
    pub bootstrap_peers: Vec<String>,
}

/// What reaches the swarm. A request's reply channel is named by a number.
#[derive(Debug, PartialEq, Eq)]
pub enum SwarmInput {
    /// A listen address is active.
    NewListenAddr { address: String },
    /// A connection closed.
    ConnectionClosed { peer_id: String },
    /// A connection was established.
    ConnectionEstablished { peer_id: String },
    /// Peers were discovered, with their addresses.
    Discovered(Vec<(String, String)>),
    /// Discovered peers have expired.
    Expired(Vec<(String, String)>),
    /// A peer identified itself.
    Identified { peer_id: String, agent_version: String },
    /// A peer asked for our descriptor; `response` is what it gets, where the
    /// descriptor could be serialized.
    DescriptorRequested {
        peer_id: String,
        response: Option<DescriptorResponse>,
        channel: u64,
    },
    /// A peer answered with its descriptor, as far as it could be read.
    DescriptorAnswered {
        peer_id: String,
        descriptor: std::result::Result<NodeDescriptor, String>,
    },
    /// A peer sent a consensus message.
    RaftRequested { peer_id: String, data: Vec<u8>, channel: u64 },
    /// A peer asked for a blob; `blob` is what the store holds.
    BlobRequested { peer_id: String, hash: String, blob: Option<Vec<u8>>, channel: u64 },
    /// A peer answered a request for a blob.
    BlobAnswered { peer_id: String, hash: String, found: bool, data: Vec<u8> },
    /// A peer sent a project task.
    ProjectRequested { peer_id: String, task: ProjectTask, channel: u64 },
    /// A peer answered with the result of a project task.
    ProjectAnswered { peer_id: String, result: ProjectResult },
    /// A job of ours for a peer has finished: the task that was asked for, and
    /// what the executor made of it.
    JobFinished { peer_id: String, task_id: TaskId, result: ProjectResult },
    /// A command, or the last sender is gone.
    Command(Option<SwarmCommand>),
    /// Anything that needs no reaction: pings, failures, delivered responses.
    Other,
    /// The network is gone.
    Closed,
}

/// What the swarm does.
#[derive(Debug, PartialEq, Eq)]
pub enum SwarmOutput {
    /// Report an event to the node.
    Emit(Event),
    /// Answer with our descriptor.
    AnswerDescriptor { channel: u64, response: DescriptorResponse },
    /// Acknowledge a consensus message.
    AnswerRaft { channel: u64, accepted: bool },
    /// Answer a request for a blob.
    AnswerBlob { channel: u64, hash: String, found: bool, data: Vec<u8> },
    /// Answer a project task.
    AnswerProject { channel: u64, result: ProjectResult },
    /// Run a project task in the background.
    StartJob { peer_id: String, task: ProjectTask },
    /// Dial an address.
    Dial { addr: String },
    /// Ask a peer for its descriptor.
    AskDescriptor { peer_id: String, request: DescriptorRequest },
    /// Send a consensus message.
    SendRaft { peer_id: String, data: Vec<u8> },
    /// Ask a peer for a blob.
    AskBlob { peer_id: String, hash: String },
    /// Send a project task.
    SendProject { peer_id: String, task: ProjectTask },
    /// End the loop.
    Stop,
}

/// The swarm's state: who we are, whether we execute projects, and the reply
/// channels of jobs that still run.
#[derive(Debug)]
pub struct SwarmState {
    self_peer_id: String,
    node_id: NodeId,
    has_executor: bool,
    pending: HashMap<TaskId, u64>,
}

/// What a [`SwarmState`] says.
pub struct SwarmView {
    pub self_peer_id: Seq<char>,
    pub node_id: NodeId,
    pub has_executor: bool,
    pub pending: Map<TaskId, u64>,
}

impl View for SwarmState {
    type V = SwarmView;

    closed spec fn view(&self) -> SwarmView {
        SwarmView {
            self_peer_id: self.self_peer_id@,
            node_id: self.node_id,
            has_executor: self.has_executor,
            pending: self.pending@,
        }
    }
}

/// The message for a task that nobody here can run.
pub open spec fn no_executor_text() -> Seq<char> {
    "no project executor on this node (Linux+KVM required); task rejected instead of silently dropped"@
}

/// The result of a task that could not be executed.
pub open spec fn failure_view(task_id: TaskId, exit_code: i32, message: Seq<char>) -> ProjectResultView {
    ProjectResultView {
        task_id,
        exit_code,
        stdout: Seq::empty(),
        stderr: encode_utf8(message),
        execution_time_ms: 0,
        executed_on: 0,
    }
}

/// The result of a task that could not be executed.
pub fn project_failure(task_id: TaskId, exit_code: i32, message: &str) -> (r: ProjectResult)
    ensures
        r@ == failure_view(task_id, exit_code, message@),
{
    let stdout: Vec<u8> = Vec::new();
    assert(stdout@ =~= Seq::<u8>::empty());
    ProjectResult {
        task_id,
        exit_code,
        stdout,
        stderr: clone_bytes(message.as_bytes()),
        execution_time_ms: 0,
        executed_on: 0,
    }
}

/// The result of a job, whether it ran to its end or not.
pub fn job_result(task_id: TaskId, ran: std::result::Result<ProjectResult, String>) -> (r: ProjectResult)
    ensures
        match ran {
            Ok(result) => r@ == result@,
            Err(e) => r@ == failure_view(task_id, 1, e@),
        },
{
    match ran {
        Ok(result) => result,
        Err(e) => project_failure(task_id, 1, e.as_str()),
    }
}

/// The last `n` lines of captured output on one line, for a log.
pub fn tail(bytes: &[u8], n: usize) -> (r: String)
    ensures
        r@ == tail_lines(lossy_text(bytes@), n as nat, " | "@),
{
    let text = text_lossy(bytes);
    tail_of(text.as_str(), n, " | ")
}

/// Discovery events for the peers other than ourselves, in order.
pub open spec fn discovered_events(peers: Seq<(String, String)>, me: Seq<char>) -> Seq<SwarmOutput>
    decreases peers.len(),
{
    if peers.len() == 0 {
        Seq::empty()
    } else {
        let before = discovered_events(peers.drop_last(), me);
        if peers.last().0@ == me {
            before
        } else {
            before.push(
                SwarmOutput::Emit(
                    Event::PeerDiscovered { peer_id: peers.last().0, address: peers.last().1 },
                ),
            )
        }
    }
}

/// Expiry events for the peers other than ourselves, in order.
pub open spec fn expired_events(peers: Seq<(String, String)>, me: Seq<char>) -> Seq<SwarmOutput>
    decreases peers.len(),
{
    if peers.len() == 0 {
        Seq::empty()
    } else {
        let before = expired_events(peers.drop_last(), me);
        if peers.last().0@ == me {
            before
        } else {
            before.push(SwarmOutput::Emit(Event::PeerExpired { peer_id: peers.last().0 }))
        }
    }
}

/// What a command makes the swarm do.
pub open spec fn command_output(
    s: SwarmView,
    command: Option<SwarmCommand>,
    r: Seq<SwarmOutput>,
) -> bool {
    match command {
        Some(SwarmCommand::Dial { addr }) => r == seq![SwarmOutput::Dial { addr }],
        Some(SwarmCommand::RequestDescriptor { peer_id }) => {
            &&& r.len() == 1
            &&& r[0] is AskDescriptor
            &&& r[0]->AskDescriptor_peer_id == peer_id
            &&& r[0]->AskDescriptor_request.requester_id@ == uuid_notation(s.node_id)
        },
        Some(SwarmCommand::SendRaftMessage { peer_id, data }) => r == seq![
            SwarmOutput::SendRaft { peer_id, data },
        ],
        Some(SwarmCommand::RequestBlob { peer_id, hash }) => r == seq![
            SwarmOutput::AskBlob { peer_id, hash },
        ],
        Some(SwarmCommand::SendProjectTask { peer_id, task }) => r == seq![
            SwarmOutput::SendProject { peer_id, task },
        ],
        None => r == seq![SwarmOutput::Stop],
    }
}

/// What the swarm does about an input.
pub open spec fn swarm_output(s: SwarmView, input: SwarmInput, r: Seq<SwarmOutput>) -> bool {
    match input {
        SwarmInput::NewListenAddr { address } => r == seq![
            SwarmOutput::Emit(Event::NewListenAddr { address }),
        ],
        SwarmInput::ConnectionClosed { peer_id } => r == seq![
            SwarmOutput::Emit(Event::ConnectionClosed { peer_id }),
        ],
        SwarmInput::ConnectionEstablished { peer_id } => r == seq![
            SwarmOutput::Emit(Event::PeerConnected { peer_id }),
        ],
        SwarmInput::Discovered(peers) => r == discovered_events(peers@, s.self_peer_id),
        SwarmInput::Expired(peers) => r == expired_events(peers@, s.self_peer_id),
        SwarmInput::Identified { peer_id, agent_version } => r == seq![
            SwarmOutput::Emit(Event::Identified { peer_id, agent_version }),
        ],
        SwarmInput::DescriptorRequested { peer_id, response, channel } => match response {
            Some(response) => r == seq![
                SwarmOutput::AnswerDescriptor { channel, response },
                SwarmOutput::Emit(Event::DescriptorSent { peer_id }),
            ],
            None => r.len() == 0,
        },
        SwarmInput::DescriptorAnswered { peer_id, descriptor } => match descriptor {
            Ok(descriptor) => r == seq![
                SwarmOutput::Emit(Event::DescriptorReceived { peer_id, descriptor }),
            ],
            Err(_) => r.len() == 0,
        },
        SwarmInput::RaftRequested { peer_id, data, channel } => r == seq![
            SwarmOutput::AnswerRaft { channel, accepted: true },
            SwarmOutput::Emit(Event::RaftMessageReceived { peer_id, data }),
        ],
        SwarmInput::BlobRequested { peer_id, hash, blob, channel } => {
            &&& r.len() == 2
            &&& r[0] is AnswerBlob
            &&& r[0]->AnswerBlob_channel == channel
            &&& r[0]->AnswerBlob_hash@ == hash@
            &&& r[0]->AnswerBlob_found == (blob is Some)
            &&& r[0]->AnswerBlob_data@ == (match blob {
                Some(bytes) => bytes@,
                None => Seq::empty(),
            })
            &&& r[1] == SwarmOutput::Emit(Event::BlobRequestReceived { peer_id, hash })
        },
        SwarmInput::BlobAnswered { peer_id, hash, found, data } => r == seq![
            SwarmOutput::Emit(Event::BlobResponseReceived { peer_id, hash, found, data }),
        ],
        SwarmInput::ProjectRequested { peer_id, task, channel } => if s.has_executor {
            r == seq![SwarmOutput::StartJob { peer_id, task }]
        } else {
            &&& r.len() == 1
            &&& r[0] is AnswerProject
            &&& r[0]->AnswerProject_channel == channel
            &&& r[0]->AnswerProject_result@ == failure_view(task.task_id, 101, no_executor_text())
        },
        SwarmInput::ProjectAnswered { peer_id, result } => r == seq![
            SwarmOutput::Emit(Event::ProjectResultReceived { peer_id, result }),
        ],
        SwarmInput::JobFinished { peer_id, task_id, result } => {
            &&& r.len() == (if s.pending.contains_key(task_id) {
                2int
            } else {
                1
            })
            &&& r[0] == SwarmOutput::Emit(Event::ProjectResultReceived { peer_id, result })
            &&& s.pending.contains_key(task_id) ==> {
                &&& r[1] is AnswerProject
                &&& r[1]->AnswerProject_channel == s.pending[task_id]
                &&& r[1]->AnswerProject_result@ == result@
            }
        },
        SwarmInput::Command(command) => command_output(s, command, r),
        SwarmInput::Other => r.len() == 0,
        SwarmInput::Closed => r == seq![SwarmOutput::Stop],
    }
}

/// The jobs that still run after an input.
pub open spec fn pending_after(s: SwarmView, input: SwarmInput) -> Map<TaskId, u64> {
    match input {
        SwarmInput::ProjectRequested { task, channel, .. } => if s.has_executor {
            s.pending.insert(task.task_id, channel)
        } else {
            s.pending
        },
        SwarmInput::JobFinished { task_id, .. } => s.pending.remove(task_id),
        _ => s.pending,
    }
}

fn one(output: SwarmOutput) -> (r: Vec<SwarmOutput>)
    ensures
        r@ == seq![output],
{
    let mut out: Vec<SwarmOutput> = Vec::new();
    out.push(output);
    assert(out@ =~= seq![output]);
    out
}

fn two(a: SwarmOutput, b: SwarmOutput) -> (r: Vec<SwarmOutput>)
    ensures
        r@ == seq![a, b],
{
    let mut out: Vec<SwarmOutput> = Vec::new();
    out.push(a);
    out.push(b);
    assert(out@ =~= seq![a, b]);
    out
}

impl SwarmState {
    /// The state of a swarm that runs no job yet.
    pub fn new(self_peer_id: String, node_id: NodeId, has_executor: bool) -> (r: Self)
        ensures
            r@ == (SwarmView {
                self_peer_id: self_peer_id@,
                node_id,
                has_executor,
                pending: Map::empty(),
            }),
    {
        SwarmState { self_peer_id, node_id, has_executor, pending: HashMap::new() }
    }

    /// What to do at startup: dial every configured peer once.
    pub fn startup(bootstrap_peers: Vec<String>) -> (r: Vec<SwarmOutput>)
        ensures
            r@ == bootstrap_peers@.map_values(|addr: String| SwarmOutput::Dial { addr }),
    {
        let mut out: Vec<SwarmOutput> = Vec::new();
        let mut i: usize = 0;
        while i < bootstrap_peers.len()
            invariant
                i <= bootstrap_peers@.len(),
                out@.len() == i,
                forall|k: int|
                    0 <= k < i ==> #[trigger] out@[k] == (SwarmOutput::Dial {
                        addr: bootstrap_peers@[k],
                    }),
            decreases bootstrap_peers@.len() - i,
        {
            out.push(SwarmOutput::Dial { addr: bootstrap_peers[i].clone() });
            i += 1;
        }
        assert(out@ =~= bootstrap_peers@.map_values(|addr: String| SwarmOutput::Dial { addr }));
        out
    }

    fn discovered(&self, peers: &Vec<(String, String)>) -> (r: Vec<SwarmOutput>)
        ensures
            r@ == discovered_events(peers@, self@.self_peer_id),
    {
        let mut out: Vec<SwarmOutput> = Vec::new();
        let mut i: usize = 0;
        assert(peers@.take(0) =~= Seq::<(String, String)>::empty());
        while i < peers.len()
            invariant
                i <= peers@.len(),
                out@ == discovered_events(peers@.take(i as int), self@.self_peer_id),
            decreases peers@.len() - i,
        {
            assert(peers@.take(i + 1).drop_last() =~= peers@.take(i as int));
            assert(peers@.take(i + 1).last() == peers@[i as int]);
            if !str_eq(peers[i].0.as_str(), self.self_peer_id.as_str()) {
                out.push(
                    SwarmOutput::Emit(
                        Event::PeerDiscovered {
                            peer_id: peers[i].0.clone(),
                            address: peers[i].1.clone(),
                        },
                    ),
                );
            }
            i += 1;
        }
        assert(peers@.take(i as int) =~= peers@);
        out
    }

    fn expired(&self, peers: &Vec<(String, String)>) -> (r: Vec<SwarmOutput>)
        ensures
            r@ == expired_events(peers@, self@.self_peer_id),
    {
        let mut out: Vec<SwarmOutput> = Vec::new();
        let mut i: usize = 0;
        assert(peers@.take(0) =~= Seq::<(String, String)>::empty());
        while i < peers.len()
            invariant
                i <= peers@.len(),
                out@ == expired_events(peers@.take(i as int), self@.self_peer_id),
            decreases peers@.len() - i,
        {
            assert(peers@.take(i + 1).drop_last() =~= peers@.take(i as int));
            assert(peers@.take(i + 1).last() == peers@[i as int]);
            if !str_eq(peers[i].0.as_str(), self.self_peer_id.as_str()) {
                out.push(SwarmOutput::Emit(Event::PeerExpired { peer_id: peers[i].0.clone() }));
            }
            i += 1;
        }
        assert(peers@.take(i as int) =~= peers@);
        out
    }

    fn carry_out(&self, command: Option<SwarmCommand>) -> (r: Vec<SwarmOutput>)
        ensures
            command_output(self@, command, r@),
    {
        match command {
            Some(SwarmCommand::Dial { addr }) => one(SwarmOutput::Dial { addr }),
            Some(SwarmCommand::RequestDescriptor { peer_id }) => one(
                SwarmOutput::AskDescriptor {
                    peer_id,
                    request: DescriptorRequest { requester_id: uuid_to_text(self.node_id) },
                },
            ),
            Some(SwarmCommand::SendRaftMessage { peer_id, data }) => one(
                SwarmOutput::SendRaft { peer_id, data },
            ),
            Some(SwarmCommand::RequestBlob { peer_id, hash }) => one(
                SwarmOutput::AskBlob { peer_id, hash },
            ),
            Some(SwarmCommand::SendProjectTask { peer_id, task }) => one(
                SwarmOutput::SendProject { peer_id, task },
            ),
            None => one(SwarmOutput::Stop),
        }
    }

    /// What to do about an input, in order.
    ///
    /// A project task is never run in place: its reply channel is parked, the job
    /// starts in the background, and the answer goes out when the job reports
    /// back. A task that cannot be run here is answered at once.
    pub fn step(&mut self, input: SwarmInput) -> (r: Vec<SwarmOutput>)
        ensures
            swarm_output(old(self)@, input, r@),
            final(self)@ == (SwarmView { pending: pending_after(old(self)@, input), ..old(self)@ }),
    {
        match input {
            SwarmInput::NewListenAddr { address } => one(
                SwarmOutput::Emit(Event::NewListenAddr { address }),
            ),
            SwarmInput::ConnectionClosed { peer_id } => one(
                SwarmOutput::Emit(Event::ConnectionClosed { peer_id }),
            ),
            SwarmInput::ConnectionEstablished { peer_id } => one(
                SwarmOutput::Emit(Event::PeerConnected { peer_id }),
            ),
            SwarmInput::Discovered(peers) => self.discovered(&peers),
            SwarmInput::Expired(peers) => self.expired(&peers),
            SwarmInput::Identified { peer_id, agent_version } => one(
                SwarmOutput::Emit(Event::Identified { peer_id, agent_version }),
            ),
            SwarmInput::DescriptorRequested { peer_id, response, channel } => match response {
                Some(response) => two(
                    SwarmOutput::AnswerDescriptor { channel, response },
                    SwarmOutput::Emit(Event::DescriptorSent { peer_id }),
                ),
                None => Vec::new(),
            },
            SwarmInput::DescriptorAnswered { peer_id, descriptor } => match descriptor {
                Ok(descriptor) => one(
                    SwarmOutput::Emit(Event::DescriptorReceived { peer_id, descriptor }),
                ),
                Err(_) => Vec::new(),
            },
            SwarmInput::RaftRequested { peer_id, data, channel } => two(
                SwarmOutput::AnswerRaft { channel, accepted: true },
                SwarmOutput::Emit(Event::RaftMessageReceived { peer_id, data }),
            ),
            SwarmInput::BlobRequested { peer_id, hash, blob, channel } => {
                let (found, data) = match blob {
                    Some(bytes) => (true, bytes),
                    None => (false, Vec::new()),
                };
                assert(blob is None ==> data@ =~= Seq::<u8>::empty());
                two(
                    SwarmOutput::AnswerBlob { channel, hash: hash.clone(), found, data },
                    SwarmOutput::Emit(Event::BlobRequestReceived { peer_id, hash }),
                )
            },
            SwarmInput::BlobAnswered { peer_id, hash, found, data } => one(
                SwarmOutput::Emit(Event::BlobResponseReceived { peer_id, hash, found, data }),
            ),
            SwarmInput::ProjectRequested { peer_id, task, channel } => {
                if self.has_executor {
                    self.pending.insert(task.task_id, channel);
                    one(SwarmOutput::StartJob { peer_id, task })
                } else {
                    one(
                        SwarmOutput::AnswerProject {
                            channel,
                            result: project_failure(
                                task.task_id,
                                101,
                                "no project executor on this node (Linux+KVM required); task rejected instead of silently dropped",
                            ),
                        },
                    )
                }
            },
            SwarmInput::ProjectAnswered { peer_id, result } => one(
                SwarmOutput::Emit(Event::ProjectResultReceived { peer_id, result }),
            ),
            SwarmInput::JobFinished { peer_id, task_id, result } => {
                match self.pending.remove(&task_id) {
                    Some(channel) => {
                        let answer = result.clone();
                        two(
                            SwarmOutput::Emit(Event::ProjectResultReceived { peer_id, result }),
                            SwarmOutput::AnswerProject { channel, result: answer },
                        )
                    },
                    None => {
                        assert(self.pending@ =~= old(self).pending@.remove(task_id));
                        one(SwarmOutput::Emit(Event::ProjectResultReceived { peer_id, result }))
                    },
                }
            },
            SwarmInput::Command(command) => self.carry_out(command),
            SwarmInput::Other => Vec::new(),
            SwarmInput::Closed => one(SwarmOutput::Stop),
        }
    }
}

/// The jobs that still run after several inputs.
pub open spec fn pending_through(s: SwarmView, inputs: Seq<SwarmInput>) -> Map<TaskId, u64>
    decreases inputs.len(),
{
    if inputs.len() == 0 {
        s.pending
    } else {
        pending_after(
            SwarmView { pending: pending_through(s, inputs.drop_last()), ..s },
            inputs.last(),
        )
    }
}

/// Whether an input is about another task than the given one, or about none.
pub open spec fn leaves_alone(input: SwarmInput, task_id: TaskId) -> bool {
    match input {
        SwarmInput::ProjectRequested { task, .. } => task.task_id != task_id,
        SwarmInput::JobFinished { task_id: finished, .. } => finished != task_id,
        _ => true,
    }
}

/// The channel of a job stays parked through whatever happens to other tasks.
pub proof fn channel_stays_parked(s: SwarmView, inputs: Seq<SwarmInput>, task_id: TaskId)
    requires
        s.pending.contains_key(task_id),
        forall|i: int| 0 <= i < inputs.len() ==> leaves_alone(#[trigger] inputs[i], task_id),
    ensures
        pending_through(s, inputs).contains_key(task_id),
        pending_through(s, inputs)[task_id] == s.pending[task_id],
    decreases inputs.len(),
{
    if inputs.len() > 0 {
        let front = inputs.drop_last();
        assert forall|i: int| 0 <= i < front.len() implies leaves_alone(
            #[trigger] front[i],
            task_id,
        ) by {
            assert(front[i] == inputs[i]);
        }
        channel_stays_parked(s, front, task_id);
        assert(leaves_alone(inputs[inputs.len() - 1], task_id));
    }
}

/// Every project task is answered. On a node that cannot run it the answer goes
/// out at once with exit code 101. On any other the channel stays parked, whatever
/// happens to other tasks meanwhile, until the job reports back, and the report is
/// what the channel then carries, whatever task id the executor wrote into it.
pub proof fn every_project_task_is_answered(
    s: SwarmView,
    peer_id: String,
    task: ProjectTask,
    channel: u64,
    meanwhile: Seq<SwarmInput>,
    result: ProjectResult,
    asked: Seq<SwarmOutput>,
    finished: Seq<SwarmOutput>,
)
    requires
        forall|i: int|
            0 <= i < meanwhile.len() ==> leaves_alone(#[trigger] meanwhile[i], task.task_id),
        swarm_output(s, SwarmInput::ProjectRequested { peer_id, task, channel }, asked),
        ({
            let parked = SwarmView {
                pending: pending_after(
                    s,
                    SwarmInput::ProjectRequested { peer_id, task, channel },
                ),
                ..s
            };
            swarm_output(
                SwarmView { pending: pending_through(parked, meanwhile), ..s },
                SwarmInput::JobFinished { peer_id, task_id: task.task_id, result },
                finished,
            )
        }),
    ensures
        !s.has_executor ==> asked.len() == 1 && asked[0] is AnswerProject
            && asked[0]->AnswerProject_channel == channel
            && asked[0]->AnswerProject_result.exit_code == 101
            && asked[0]->AnswerProject_result.task_id == task.task_id,
        s.has_executor ==> asked == seq![SwarmOutput::StartJob { peer_id, task }]
            && finished.len() == 2 && finished[1] is AnswerProject
            && finished[1]->AnswerProject_channel == channel
            && finished[1]->AnswerProject_result@ == result@,
{
    if s.has_executor {
        let parked = SwarmView {
            pending: pending_after(s, SwarmInput::ProjectRequested { peer_id, task, channel }),
            ..s
        };
        channel_stays_parked(parked, meanwhile, task.task_id);
    }
}

/// While jobs run, everything else is handled as if none did: parked channels
/// change no other reaction.
pub proof fn jobs_do_not_block_the_swarm(
    s: SwarmView,
    pending: Map<TaskId, u64>,
    input: SwarmInput,
    r: Seq<SwarmOutput>,
)
    requires
        !(input is JobFinished),
        swarm_output(s, input, r),
    ensures
        swarm_output(SwarmView { pending, ..s }, input, r),
{
}

proof fn discovered_events_hold(peers: Seq<(String, String)>, me: Seq<char>, output: SwarmOutput)
    ensures
        discovered_events(peers, me).contains(output) <==> exists|i: int|
            0 <= i < peers.len() && (#[trigger] peers[i]).0@ != me && output == SwarmOutput::Emit(
                Event::PeerDiscovered { peer_id: peers[i].0, address: peers[i].1 },
            ),
    decreases peers.len(),
{
    if peers.len() > 0 {
        let front = peers.drop_last();
        discovered_events_hold(front, me, output);
        let before = discovered_events(front, me);
        let all = discovered_events(peers, me);
        assert(peers[peers.len() - 1] == peers.last());
        if before.contains(output) {
            let i = choose|i: int| 0 <= i < before.len() && before[i] == output;
            assert(all[i] == output);
            let k = choose|k: int|
                0 <= k < front.len() && (#[trigger] front[k]).0@ != me && output
                    == SwarmOutput::Emit(
                    Event::PeerDiscovered { peer_id: front[k].0, address: front[k].1 },
                );
            assert(peers[k] == front[k]);
        }
        if all.contains(output) && !before.contains(output) {
            let i = choose|i: int| 0 <= i < all.len() && all[i] == output;
            if i < before.len() {
                assert(before[i] == output);
            }
        }
        if peers.last().0@ != me {
            assert(all[before.len() as int] == all.last());
        }
        if exists|i: int|
            0 <= i < peers.len() && (#[trigger] peers[i]).0@ != me && output == SwarmOutput::Emit(
                Event::PeerDiscovered { peer_id: peers[i].0, address: peers[i].1 },
            ) {
            let k = choose|k: int|
                0 <= k < peers.len() && (#[trigger] peers[k]).0@ != me && output
                    == SwarmOutput::Emit(
                    Event::PeerDiscovered { peer_id: peers[k].0, address: peers[k].1 },
                );
            if k < front.len() {
                assert(front[k] == peers[k]);
            }
        }
    }
}

/// Every discovered peer but the node itself is reported, with its address, and
/// nobody else is.
pub proof fn discovered_peers_are_reported(
    s: SwarmView,
    peers: Vec<(String, String)>,
    r: Seq<SwarmOutput>,
    output: SwarmOutput,
)
    requires
        swarm_output(s, SwarmInput::Discovered(peers), r),
    ensures
        r.contains(output) <==> exists|i: int|
            0 <= i < peers@.len() && (#[trigger] peers@[i]).0@ != s.self_peer_id && output
                == SwarmOutput::Emit(
                Event::PeerDiscovered { peer_id: peers@[i].0, address: peers@[i].1 },
            ),
{
    discovered_events_hold(peers@, s.self_peer_id, output);
}

/// Every request of a peer is answered on the channel it came on: the descriptor, an
/// acknowledgement, or the blob, which is found exactly where the store holds it and
/// then goes out as it is. What peers send is reported as it came.
pub proof fn requests_are_answered(s: SwarmView, input: SwarmInput, r: Seq<SwarmOutput>)
    requires
        swarm_output(s, input, r),
    ensures
        input matches SwarmInput::DescriptorRequested { response: Some(response), channel, .. } ==> r[0]
            == (SwarmOutput::AnswerDescriptor { channel, response }),
        input matches SwarmInput::RaftRequested { peer_id, data, channel } ==> r.contains(
            SwarmOutput::AnswerRaft { channel, accepted: true },
        ) && r.contains(SwarmOutput::Emit(Event::RaftMessageReceived { peer_id, data })),
        input matches SwarmInput::BlobRequested { hash, blob, channel, .. } ==> r.len() > 0
            && r[0] is AnswerBlob && r[0]->AnswerBlob_channel == channel && r[0]->AnswerBlob_hash@
            == hash@ && (r[0]->AnswerBlob_found <==> blob is Some) && (blob matches Some(bytes)
            ==> r[0]->AnswerBlob_data@ == bytes@),
        input matches SwarmInput::BlobAnswered { peer_id, hash, found, data } ==> r.contains(
            SwarmOutput::Emit(Event::BlobResponseReceived { peer_id, hash, found, data }),
        ),
        input matches SwarmInput::ProjectAnswered { peer_id, result } ==> r.contains(
            SwarmOutput::Emit(Event::ProjectResultReceived { peer_id, result }),
        ),
        input matches SwarmInput::DescriptorAnswered { peer_id, descriptor: Ok(descriptor) }
            ==> r.contains(SwarmOutput::Emit(Event::DescriptorReceived { peer_id, descriptor })),
        input matches SwarmInput::ConnectionEstablished { peer_id } ==> r.contains(
            SwarmOutput::Emit(Event::PeerConnected { peer_id }),
        ),
        input matches SwarmInput::ConnectionClosed { peer_id } ==> r.contains(
            SwarmOutput::Emit(Event::ConnectionClosed { peer_id }),
        ),
{
    if r.len() > 0 {
        assert(r.contains(r[0]));
    }
    if r.len() > 1 {
        assert(r.contains(r[1]));
    }
}

/// Every command is carried out towards the peer it names, with what it carries.
pub proof fn commands_are_carried_out(
    s: SwarmView,
    command: Option<SwarmCommand>,
    r: Seq<SwarmOutput>,
)
    requires
        swarm_output(s, SwarmInput::Command(command), r),
    ensures
        command matches Some(SwarmCommand::Dial { addr }) ==> r == seq![SwarmOutput::Dial { addr }],
        command matches Some(SwarmCommand::SendRaftMessage { peer_id, data }) ==> r == seq![
            SwarmOutput::SendRaft { peer_id, data },
        ],
        command matches Some(SwarmCommand::RequestBlob { peer_id, hash }) ==> r == seq![
            SwarmOutput::AskBlob { peer_id, hash },
        ],
        command matches Some(SwarmCommand::SendProjectTask { peer_id, task }) ==> r == seq![
            SwarmOutput::SendProject { peer_id, task },
        ],
        command matches Some(SwarmCommand::RequestDescriptor { peer_id }) ==> r.len() == 1
            && r[0] is AskDescriptor && r[0]->AskDescriptor_peer_id == peer_id
            && r[0]->AskDescriptor_request.requester_id@ == uuid_notation(s.node_id),
        command is None ==> r == seq![SwarmOutput::Stop],
{
}

/// A task that could not be executed is never reported as a success: its result
/// carries the task's id, an exit code other than zero, and the reason.
pub proof fn failed_task_is_reported_as_failed(
    task_id: TaskId,
    exit_code: i32,
    message: Seq<char>,
)
    requires
        exit_code != 0,
    ensures
        failure_view(task_id, exit_code, message).task_id == task_id,
        failure_view(task_id, exit_code, message).exit_code == exit_code,
        failure_view(task_id, exit_code, message).stderr == encode_utf8(message),
        failure_view(task_id, exit_code, message).stdout.len() == 0,
{
}

proof fn expired_events_hold(peers: Seq<(String, String)>, me: Seq<char>, output: SwarmOutput)
    ensures
        expired_events(peers, me).contains(output) <==> exists|i: int|
            0 <= i < peers.len() && (#[trigger] peers[i]).0@ != me && output == SwarmOutput::Emit(
                Event::PeerExpired { peer_id: peers[i].0 },
            ),
    decreases peers.len(),
{
    if peers.len() > 0 {
        let front = peers.drop_last();
        expired_events_hold(front, me, output);
        let before = expired_events(front, me);
        let all = expired_events(peers, me);
        assert(peers[peers.len() - 1] == peers.last());
        if before.contains(output) {
            let i = choose|i: int| 0 <= i < before.len() && before[i] == output;
            assert(all[i] == output);
            let k = choose|k: int|
                0 <= k < front.len() && (#[trigger] front[k]).0@ != me && output
                    == SwarmOutput::Emit(Event::PeerExpired { peer_id: front[k].0 });
            assert(peers[k] == front[k]);
        }
        if all.contains(output) && !before.contains(output) {
            let i = choose|i: int| 0 <= i < all.len() && all[i] == output;
            if i < before.len() {
                assert(before[i] == output);
            }
        }
        if peers.last().0@ != me {
            assert(all[before.len() as int] == all.last());
        }
        if exists|i: int|
            0 <= i < peers.len() && (#[trigger] peers[i]).0@ != me && output == SwarmOutput::Emit(
                Event::PeerExpired { peer_id: peers[i].0 },
            ) {
            let k = choose|k: int|
                0 <= k < peers.len() && (#[trigger] peers[k]).0@ != me && output
                    == SwarmOutput::Emit(Event::PeerExpired { peer_id: peers[k].0 });
            if k < front.len() {
                assert(front[k] == peers[k]);
            }
        }
    }
}

/// Every peer that expired is reported, but the node itself, and nobody else is.
pub proof fn expired_peers_are_reported(
    s: SwarmView,
    peers: Vec<(String, String)>,
    r: Seq<SwarmOutput>,
    output: SwarmOutput,
)
    requires
        swarm_output(s, SwarmInput::Expired(peers), r),
    ensures
        r.contains(output) <==> exists|i: int|
            0 <= i < peers@.len() && (#[trigger] peers@[i]).0@ != s.self_peer_id && output
                == SwarmOutput::Emit(Event::PeerExpired { peer_id: peers@[i].0 }),
{
    expired_events_hold(peers@, s.self_peer_id, output);
}

/// A task for a node that cannot execute it is refused at once: its sender is told of
/// a failure, on the channel of the request, and nothing is started. A node that can
/// starts the very task.
pub proof fn tasks_are_started_or_refused(
    s: SwarmView,
    peer_id: String,
    task: ProjectTask,
    channel: u64,
    r: Seq<SwarmOutput>,
)
    requires
        swarm_output(s, SwarmInput::ProjectRequested { peer_id, task, channel }, r),
    ensures
        s.has_executor ==> r == seq![SwarmOutput::StartJob { peer_id, task }],
        s.has_executor ==> pending_after(
            s,
            SwarmInput::ProjectRequested { peer_id, task, channel },
        ).contains_pair(task.task_id, channel),
        !s.has_executor ==> r.len() == 1 && r[0] is AnswerProject && r[0]->AnswerProject_channel
            == channel && r[0]->AnswerProject_result.task_id == task.task_id
            && r[0]->AnswerProject_result.exit_code != 0
            && r[0]->AnswerProject_result.stdout@.len() == 0,
        !s.has_executor ==> pending_after(
            s,
            SwarmInput::ProjectRequested { peer_id, task, channel },
        ) == s.pending,
{
}

/// A finished task is answered once, with its very result, to whoever asked for it.
pub proof fn finished_task_is_answered_once(
    s: SwarmView,
    peer_id: String,
    task_id: TaskId,
    result: ProjectResult,
    r: Seq<SwarmOutput>,
)
    requires
        swarm_output(s, SwarmInput::JobFinished { peer_id, task_id, result }, r),
    ensures
        s.pending.contains_key(task_id) ==> r.len() == 2 && r[1] is AnswerProject
            && r[1]->AnswerProject_channel == s.pending[task_id] && r[1]->AnswerProject_result@
            == result@,
        !s.pending.contains_key(task_id) ==> !(r[0] is AnswerProject) && r.len() == 1,
        !pending_after(
            s,
            SwarmInput::JobFinished { peer_id, task_id, result },
        ).contains_key(task_id),
        forall|other: TaskId|
            other != task_id && s.pending.contains_key(other) ==> #[trigger] pending_after(
                s,
                SwarmInput::JobFinished { peer_id, task_id, result },
            ).contains_pair(other, s.pending[other]),
{
}

} // verus!
