//! The participants and services of a call: which of them are up, and what has to be
//! started or stopped around a run.
//!
//! The manager starts and stops nothing itself. It keeps track of what it is told has
//! been started and stopped, and says which steps are due.

use vstd::prelude::*;
use crate::error::{HarnessError, InfrastructureError, RunError};

verus! {

/// A process with a fixed identity.
#[derive(Clone, Copy, Debug, PartialEq, Eq, Structural)]
pub enum Role {
    SignalingServer,
    Turn,
    Visqol,
    Tcpdump,
    ClientB,
    ClientA,
}

/// Something that is started before a run or stopped after it.
#[derive(Clone, Copy, Debug, PartialEq, Eq, Structural)]
pub enum Step {
    /// The isolated network that every process is attached to.
    Network,
    Process { role: Role },
}

/// What is up.
#[verifier::ext_equal]
pub struct ManagerView {
    pub network_up: bool,
    pub running: Set<Role>,
}

/// The order in which the processes of a run are started: the services first, then
/// capture, then the participant that is called, then the one that calls.
pub open spec fn start_order() -> Seq<Role> {
    seq![
        Role::SignalingServer,
        Role::Turn,
        Role::Visqol,
        Role::Tcpdump,
        Role::ClientB,
        Role::ClientA,
    ]
}

/// The order in which processes are stopped: the reverse of the order in which they
/// are started.
pub open spec fn stop_order() -> Seq<Role> {
    seq![
        Role::ClientA,
        Role::ClientB,
        Role::Tcpdump,
        Role::Visqol,
        Role::Turn,
        Role::SignalingServer,
    ]
}

/// Whether a process is shared by the runs of a test set and kept up between them.
pub open spec fn is_shared(role: Role) -> bool {
    role == Role::SignalingServer || role == Role::Turn || role == Role::Visqol
}

/// The name of the container of a process.
pub open spec fn container_name(role: Role) -> Seq<char> {
    match role {
        Role::SignalingServer => "signaling_server"@,
        Role::Turn => "turn"@,
        Role::Visqol => "visqol"@,
        Role::Tcpdump => "tcpdump"@,
        Role::ClientB => "client_b"@,
        Role::ClientA => "client_a"@,
    }
}

/// Nothing is up.
pub open spec fn nothing_up() -> ManagerView {
    ManagerView { network_up: false, running: Set::empty() }
}

/// Whether everything that a run needs is up.
pub open spec fn ready(v: ManagerView) -> bool {
    v.network_up && forall|role: Role| v.running.contains(role)
}

/// The state after `step` was started.
pub open spec fn started(v: ManagerView, step: Step) -> ManagerView {
    match step {
        Step::Network => ManagerView { network_up: true, ..v },
        Step::Process { role } => ManagerView { running: v.running.insert(role), ..v },
    }
}

/// The state after `step` was stopped or found to be absent.
pub open spec fn stopped(v: ManagerView, step: Step) -> ManagerView {
    match step {
        Step::Network => ManagerView { network_up: false, ..v },
        Step::Process { role } => ManagerView { running: v.running.remove(role), ..v },
    }
}

/// The state after each of `steps` was started.
pub open spec fn all_started(v: ManagerView, steps: Seq<Step>) -> ManagerView
    decreases steps.len(),
{
    if steps.len() == 0 {
        v
    } else {
        started(all_started(v, steps.drop_last()), steps.last())
    }
}

/// The state after each of `steps` was stopped.
pub open spec fn all_stopped(v: ManagerView, steps: Seq<Step>) -> ManagerView
    decreases steps.len(),
{
    if steps.len() == 0 {
        v
    } else {
        stopped(all_stopped(v, steps.drop_last()), steps.last())
    }
}

/// Those of the first `count` processes of the start order that are not running, as
/// steps, behind `steps`.
pub open spec fn missing(v: ManagerView, steps: Seq<Step>, count: int) -> Seq<Step>
    decreases count,
{
    if count <= 0 {
        steps
    } else {
        let earlier = missing(v, steps, count - 1);
        let role = start_order()[count - 1];
        if v.running.contains(role) {
            earlier
        } else {
            earlier.push(Step::Process { role })
        }
    }
}

/// What has to be started before a run can begin, in order: the network unless it is
/// up, then every process that is not running.
pub open spec fn to_start(v: ManagerView) -> Seq<Step> {
    missing(
        v,
        if v.network_up {
            Seq::empty()
        } else {
            seq![Step::Network]
        },
        6,
    )
}

/// Whether `role` is stopped after a run: if it is running, and belongs to the run
/// or everything is reset.
pub open spec fn leaves(v: ManagerView, role: Role, full_reset: bool) -> bool {
    v.running.contains(role) && (full_reset || !is_shared(role))
}

/// Those of the first `count` processes of the stop order that are stopped after a
/// run, as steps.
pub open spec fn leaving(v: ManagerView, full_reset: bool, count: int) -> Seq<Step>
    decreases count,
{
    if count <= 0 {
        Seq::empty()
    } else {
        let earlier = leaving(v, full_reset, count - 1);
        let role = stop_order()[count - 1];
        if leaves(v, role, full_reset) {
            earlier.push(Step::Process { role })
        } else {
            earlier
        }
    }
}

/// What has to be stopped after a run, in order: the participants and capture, and
/// with `full_reset` the shared services and the network too. What is not up is not
/// stopped.
pub open spec fn to_stop(v: ManagerView, full_reset: bool) -> Seq<Step> {
    let processes = leaving(v, full_reset, 6);
    if full_reset && v.network_up {
        processes.push(Step::Network)
    } else {
        processes
    }
}

/// How far it reaches when `step` cannot be started: without the network no run can
/// proceed, without a process the run at hand cannot.
pub open spec fn start_failure(step: Step) -> HarnessError {
    match step {
        Step::Network => HarnessError::Infrastructure(InfrastructureError::NetworkCreationFailed),
        Step::Process { .. } => HarnessError::Run(RunError::ProcessStartFailed),
    }
}

/// Keeps track of what is up over the runs of a test set.
pub struct Manager {
    network_up: bool,
    signaling_server: bool,
    turn: bool,
    visqol: bool,
    tcpdump: bool,
    client_b: bool,
    client_a: bool,
}

impl Manager {
    spec fn flag(&self, role: Role) -> bool {
        match role {
            Role::SignalingServer => self.signaling_server,
            Role::Turn => self.turn,
            Role::Visqol => self.visqol,
            Role::Tcpdump => self.tcpdump,
            Role::ClientB => self.client_b,
            Role::ClientA => self.client_a,
        }
    }
}

impl View for Manager {
    type V = ManagerView;

    closed spec fn view(&self) -> ManagerView {
        ManagerView { network_up: self.network_up, running: Set::new(|role: Role| self.flag(role)) }
    }
}

/// The processes in the order in which they are started.
pub fn roles_in_start_order() -> (r: Vec<Role>)
    ensures
        r@ == start_order(),
{
    let mut roles: Vec<Role> = Vec::new();
    roles.push(Role::SignalingServer);
    roles.push(Role::Turn);
    roles.push(Role::Visqol);
    roles.push(Role::Tcpdump);
    roles.push(Role::ClientB);
    roles.push(Role::ClientA);
    roles
}

/// The processes in the order in which they are stopped.
pub fn roles_in_stop_order() -> (r: Vec<Role>)
    ensures
        r@ == stop_order(),
{
    let mut roles: Vec<Role> = Vec::new();
    roles.push(Role::ClientA);
    roles.push(Role::ClientB);
    roles.push(Role::Tcpdump);
    roles.push(Role::Visqol);
    roles.push(Role::Turn);
    roles.push(Role::SignalingServer);
    roles
}

impl Role {
    /// The name of the container of this process.
    pub fn container_name(&self) -> (r: String)
        ensures
            r@ == container_name(*self),
    {
        match self {
            Role::SignalingServer => String::from_str("signaling_server"),
            Role::Turn => String::from_str("turn"),
            Role::Visqol => String::from_str("visqol"),
            Role::Tcpdump => String::from_str("tcpdump"),
            Role::ClientB => String::from_str("client_b"),
            Role::ClientA => String::from_str("client_a"),
        }
    }

    /// Whether this process is shared by the runs of a test set.
    pub fn is_shared(&self) -> (r: bool)
        ensures
            r == is_shared(*self),
    {
        match self {
            Role::SignalingServer => true,
            Role::Turn => true,
            Role::Visqol => true,
            _ => false,
        }
    }
}

impl Step {
    /// How far it reaches when this step cannot be started.
    pub fn start_failure(&self) -> (r: HarnessError)
        ensures
            r == start_failure(*self),
    {
        match self {
            Step::Network => HarnessError::Infrastructure(
                InfrastructureError::NetworkCreationFailed,
            ),
            Step::Process { .. } => HarnessError::Run(RunError::ProcessStartFailed),
        }
    }
}

impl Manager {
    /// A manager that knows of nothing that is up.
    pub fn new() -> (r: Manager)
        ensures
            r@ == nothing_up(),
    {
        Manager {
            network_up: false,
            signaling_server: false,
            turn: false,
            visqol: false,
            tcpdump: false,
            client_b: false,
            client_a: false,
        }
    }

    /// Whether `role` is running.
    pub fn is_running(&self, role: Role) -> (r: bool)
        ensures
            r == self@.running.contains(role),
    {
        match role {
            Role::SignalingServer => self.signaling_server,
            Role::Turn => self.turn,
            Role::Visqol => self.visqol,
            Role::Tcpdump => self.tcpdump,
            Role::ClientB => self.client_b,
            Role::ClientA => self.client_a,
        }
    }

    /// Whether the network is up.
    pub fn network_is_up(&self) -> (r: bool)
        ensures
            r == self@.network_up,
    {
        self.network_up
    }

    fn set(&mut self, role: Role, up: bool)
        ensures
            final(self)@ == (ManagerView {
                running: if up {
                    old(self)@.running.insert(role)
                } else {
                    old(self)@.running.remove(role)
                },
                ..old(self)@
            }),
    {
        match role {
            Role::SignalingServer => {
                self.signaling_server = up;
            },
            Role::Turn => {
                self.turn = up;
            },
            Role::Visqol => {
                self.visqol = up;
            },
            Role::Tcpdump => {
                self.tcpdump = up;
            },
            Role::ClientB => {
                self.client_b = up;
            },
            Role::ClientA => {
                self.client_a = up;
            },
        }
        assert(self@.running =~= if up {
            old(self)@.running.insert(role)
        } else {
            old(self)@.running.remove(role)
        });
    }

    /// Takes note that `step` was started.
    pub fn mark_started(&mut self, step: Step)
        ensures
            final(self)@ == started(old(self)@, step),
    {
        match step {
            Step::Network => {
                self.network_up = true;
            },
            Step::Process { role } => {
                self.set(role, true);
            },
        }
    }

    /// Takes note that `step` was stopped. To stop what is not up is no fault: the
    /// note is the same.
    pub fn mark_stopped(&mut self, step: Step)
        ensures
            final(self)@ == stopped(old(self)@, step),
    {
        match step {
            Step::Network => {
                self.network_up = false;
            },
            Step::Process { role } => {
                self.set(role, false);
            },
        }
    }

    /// What has to be started before a run can begin, in order.
    pub fn steps_to_start(&self) -> (r: Vec<Step>)
        ensures
            r@ == to_start(self@),
    {
        let mut steps: Vec<Step> = Vec::new();
        if !self.network_up {
            steps.push(Step::Network);
        }
        let ghost first = steps@;
        assert(first =~= if self@.network_up {
            Seq::empty()
        } else {
            seq![Step::Network]
        });
        let order = roles_in_start_order();
        let mut i: usize = 0;
        while i < order.len()
            invariant
                i <= order.len() == 6,
                order@ == start_order(),
                steps@ == missing(self@, first, i as int),
            decreases order.len() - i,
        {
            if !self.is_running(order[i]) {
                steps.push(Step::Process { role: order[i] });
            }
            i = i + 1;
        }
        steps
    }

    /// What has to be stopped after a run, in order.
    pub fn steps_to_stop(&self, full_reset: bool) -> (r: Vec<Step>)
        ensures
            r@ == to_stop(self@, full_reset),
    {
        let mut steps: Vec<Step> = Vec::new();
        let order = roles_in_stop_order();
        let mut i: usize = 0;
        while i < order.len()
            invariant
                i <= order.len() == 6,
                order@ == stop_order(),
                steps@ == leaving(self@, full_reset, i as int),
            decreases order.len() - i,
        {
            let role = order[i];
            if self.is_running(role) && (full_reset || !role.is_shared()) {
                steps.push(Step::Process { role });
            }
            i = i + 1;
        }
        if full_reset && self.network_up {
            steps.push(Step::Network);
        }
        steps
    }
}

proof fn lemma_missing(v: ManagerView, steps: Seq<Step>, count: int)
    requires
        0 <= count <= 6,
    ensures
        all_started(v, missing(v, steps, count)).network_up == all_started(v, steps).network_up,
        forall|role: Role| #[trigger]
            all_started(v, missing(v, steps, count)).running.contains(role) <==> all_started(
                v,
                steps,
            ).running.contains(role) || exists|k: int|
                0 <= k < count && start_order()[k] == role,
    decreases count,
{
    if count > 0 {
        lemma_missing(v, steps, count - 1);
        let earlier = missing(v, steps, count - 1);
        let role = start_order()[count - 1];
        if v.running.contains(role) {
            lemma_all_started_keeps(v, steps, role);
        } else {
            let all = earlier.push(Step::Process { role });
            assert(all.drop_last() =~= earlier);
        }
    }
}

proof fn lemma_all_started_keeps(v: ManagerView, steps: Seq<Step>, role: Role)
    requires
        v.running.contains(role),
    ensures
        all_started(v, steps).running.contains(role),
    decreases steps.len(),
{
    if steps.len() > 0 {
        lemma_all_started_keeps(v, steps.drop_last(), role);
    }
}

/// Once everything that was due is started, everything that a run needs is up.
pub proof fn lemma_start_makes_ready(v: ManagerView)
    ensures
        ready(all_started(v, to_start(v))),
{
    let first = if v.network_up {
        Seq::<Step>::empty()
    } else {
        seq![Step::Network]
    };
    lemma_missing(v, first, 6);
}

proof fn lemma_leaving(v: ManagerView, full_reset: bool, count: int)
    requires
        0 <= count <= 6,
    ensures
        all_stopped(v, leaving(v, full_reset, count)).network_up == v.network_up,
        forall|role: Role| #[trigger]
            all_stopped(v, leaving(v, full_reset, count)).running.contains(role) <==> v.running.contains(
                role,
            ) && !(leaves(v, role, full_reset) && exists|k: int|
                0 <= k < count && stop_order()[k] == role),
    decreases count,
{
    if count > 0 {
        lemma_leaving(v, full_reset, count - 1);
        let earlier = leaving(v, full_reset, count - 1);
        let role = stop_order()[count - 1];
        if leaves(v, role, full_reset) {
            let all = earlier.push(Step::Process { role });
            assert(all.drop_last() =~= earlier);
        }
    }
}

/// Once everything that was due is stopped, nothing of the run is left: no
/// participant and no capture is running. Without a full reset the shared services
/// and the network are as they were; with one, nothing at all is up.
pub proof fn lemma_stop_leaves_nothing_of_the_run(v: ManagerView, full_reset: bool)
    ensures
        ({
            let after = all_stopped(v, to_stop(v, full_reset));
            &&& forall|role: Role| !is_shared(role) ==> !after.running.contains(role)
            &&& !full_reset ==> after.network_up == v.network_up && forall|role: Role|
                is_shared(role) ==> (after.running.contains(role) <==> v.running.contains(role))
            &&& full_reset ==> after == nothing_up()
        }),
{
    lemma_leaving(v, full_reset, 6);
    let processes = leaving(v, full_reset, 6);
    if full_reset && v.network_up {
        assert(to_stop(v, full_reset).drop_last() =~= processes);
    }
}

/// To stop what is stopped already changes nothing.
pub proof fn lemma_stop_is_idempotent(v: ManagerView, step: Step)
    ensures
        stopped(stopped(v, step), step) == stopped(v, step),
{
}

} // verus!
