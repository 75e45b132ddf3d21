//! Bringing up a connection to Herdr: make sure the `herdr` command exists
//! (installing it with `wax` when it does not), start the server when its
//! socket is missing or silent, wait for the socket, and confirm with a ping.
//!
//! The I/O is the caller's: each step names an action to perform, and the
//! caller reports what came of it as the next event.
use vstd::prelude::*;

use crate::herdr::{ErrorView, HerdrError};
use crate::text::strs;

verus! {

broadcast use vstd::string::group_string_axioms;

/// How many times the socket is looked for after starting the server.
pub const SOCKET_CHECKS: u32 = 30;

/// The pause between two looks for the socket, in milliseconds.
pub const SOCKET_POLL_MILLIS: u64 = 100;

/// A connection to a running Herdr server.
#[derive(Clone, Debug)]
pub struct HerdrClient {
    socket_path: String,
}

impl HerdrClient {
    pub closed spec fn path(&self) -> Seq<char> {
        self.socket_path@
    }

    /// The socket this client talks to.
    pub fn socket_path(&self) -> (p: &str)
        ensures
            p@ == self.path(),
    {
        self.socket_path.as_str()
    }
}

/// Where a start-up stands.
#[derive(Clone, Debug)]
pub enum BootstrapPhase {
    /// Looking for the `herdr` command.
    CheckingInstalled,
    /// Running `wax install herdr`.
    Installing,
    /// Looking for `herdr` again after the installer reported success; its
    /// error output is kept for the failure report.
    RecheckingInstalled { stderr: String },
    /// Looking for the socket before anything is started.
    ProbingSocket,
    /// Pinging an existing socket.
    ProbingServer,
    /// Starting `herdr server`.
    StartingServer,
    /// Looking for the socket after `checks` earlier looks.
    WaitingForSocket { checks: u32 },
    /// Pausing after the `checks`-th look found nothing.
    Sleeping { checks: u32 },
    /// The last ping, which decides the outcome.
    Confirming,
}

/// A start-up in progress.
#[derive(Clone, Debug)]
pub struct Bootstrap {
    pub socket_path: String,
    pub phase: BootstrapPhase,
}

/// What the caller observed after performing an action.
#[derive(Debug)]
pub enum BootstrapEvent {
    CommandExists(bool),
    InstallFinished { success: bool, stderr: String },
    InstallCouldNotRun(String),
    SocketExists(bool),
    PingReplied(Result<(), HerdrError>),
    ServerSpawned(Result<(), String>),
    Slept,
}

/// What the caller is asked to do next.
#[derive(Clone, Debug)]
pub enum BootstrapAction {
    /// Report whether `name` is a command on the `PATH`.
    CheckCommand { name: String },
    /// Run `program args..` to completion and report its status and stderr.
    RunInstall { program: String, args: Vec<String> },
    /// Report whether the socket file exists.
    CheckSocket { path: String },
    /// Send a ping over the socket.
    Ping { path: String },
    /// Spawn `program args..` detached from the client.
    StartServer { program: String, args: Vec<String> },
    /// Wait this many milliseconds.
    Sleep { millis: u64 },
}

/// The outcome of one step.
#[derive(Debug)]
pub enum BootstrapStep {
    Continue(Bootstrap, BootstrapAction),
    Connected(HerdrClient),
    Failed(HerdrError),
}

pub enum PhaseView {
    CheckingInstalled,
    Installing,
    RecheckingInstalled(Seq<char>),
    ProbingSocket,
    ProbingServer,
    StartingServer,
    WaitingForSocket(u32),
    Sleeping(u32),
    Confirming,
}

pub enum EventView {
    CommandExists(bool),
    InstallFinished(bool, Seq<char>),
    InstallCouldNotRun(Seq<char>),
    SocketExists(bool),
    PingReplied(Result<(), ErrorView>),
    ServerSpawned(Result<(), Seq<char>>),
    Slept,
}

pub enum ActionView {
    CheckCommand(Seq<char>),
    RunInstall(Seq<char>, Seq<Seq<char>>),
    CheckSocket(Seq<char>),
    Ping(Seq<char>),
    StartServer(Seq<char>, Seq<Seq<char>>),
    Sleep(u64),
}

pub enum StepView {
    Continue(Seq<char>, PhaseView, ActionView),
    Connected(Seq<char>),
    Failed(ErrorView),
}

impl View for BootstrapPhase {
    type V = PhaseView;

    open spec fn view(&self) -> PhaseView {
        match self {
            BootstrapPhase::CheckingInstalled => PhaseView::CheckingInstalled,
            BootstrapPhase::Installing => PhaseView::Installing,
            BootstrapPhase::RecheckingInstalled { stderr } => PhaseView::RecheckingInstalled(stderr@),
            BootstrapPhase::ProbingSocket => PhaseView::ProbingSocket,
            BootstrapPhase::ProbingServer => PhaseView::ProbingServer,
            BootstrapPhase::StartingServer => PhaseView::StartingServer,
            BootstrapPhase::WaitingForSocket { checks } => PhaseView::WaitingForSocket(*checks),
            BootstrapPhase::Sleeping { checks } => PhaseView::Sleeping(*checks),
            BootstrapPhase::Confirming => PhaseView::Confirming,
        }
    }
}

impl View for BootstrapEvent {
    type V = EventView;

    open spec fn view(&self) -> EventView {
        match self {
            BootstrapEvent::CommandExists(b) => EventView::CommandExists(*b),
            BootstrapEvent::InstallFinished { success, stderr } => EventView::InstallFinished(
                *success,
                stderr@,
            ),
            BootstrapEvent::InstallCouldNotRun(m) => EventView::InstallCouldNotRun(m@),
            BootstrapEvent::SocketExists(b) => EventView::SocketExists(*b),
            BootstrapEvent::PingReplied(r) => EventView::PingReplied(
                match r {
                    Ok(()) => Ok(()),
                    Err(e) => Err(e@),
                },
            ),
            BootstrapEvent::ServerSpawned(r) => EventView::ServerSpawned(
                match r {
                    Ok(()) => Ok(()),
                    Err(m) => Err(m@),
                },
            ),
            BootstrapEvent::Slept => EventView::Slept,
        }
    }
}

impl View for BootstrapAction {
    type V = ActionView;

    open spec fn view(&self) -> ActionView {
        match self {
            BootstrapAction::CheckCommand { name } => ActionView::CheckCommand(name@),
            BootstrapAction::RunInstall { program, args } => ActionView::RunInstall(
                program@,
                strs(args@),
            ),
            BootstrapAction::CheckSocket { path } => ActionView::CheckSocket(path@),
            BootstrapAction::Ping { path } => ActionView::Ping(path@),
            BootstrapAction::StartServer { program, args } => ActionView::StartServer(
                program@,
                strs(args@),
            ),
            BootstrapAction::Sleep { millis } => ActionView::Sleep(*millis),
        }
    }
}

impl View for BootstrapStep {
    type V = StepView;

    open spec fn view(&self) -> StepView {
        match self {
            BootstrapStep::Continue(b, a) => StepView::Continue(b.socket_path@, b.phase@, a@),
            BootstrapStep::Connected(c) => StepView::Connected(c.path()),
            BootstrapStep::Failed(e) => StepView::Failed(e@),
        }
    }
}

/// The action each phase asks for.
pub open spec fn phase_action(phase: PhaseView, path: Seq<char>) -> ActionView {
    match phase {
        PhaseView::CheckingInstalled => ActionView::CheckCommand("herdr"@),
        PhaseView::RecheckingInstalled(_) => ActionView::CheckCommand("herdr"@),
        PhaseView::Installing => ActionView::RunInstall("wax"@, seq!["install"@, "herdr"@]),
        PhaseView::ProbingSocket => ActionView::CheckSocket(path),
        PhaseView::WaitingForSocket(_) => ActionView::CheckSocket(path),
        PhaseView::ProbingServer => ActionView::Ping(path),
        PhaseView::Confirming => ActionView::Ping(path),
        PhaseView::StartingServer => ActionView::StartServer("herdr"@, seq!["server"@]),
        PhaseView::Sleeping(_) => ActionView::Sleep(100),
    }
}

pub open spec fn go(path: Seq<char>, phase: PhaseView) -> StepView {
    StepView::Continue(path, phase, phase_action(phase, path))
}

pub open spec fn timeout_message() -> Seq<char> {
    "timed out waiting for herdr server"@
}

/// One step of the start-up: the phase, the socket path and what the last
/// action came to decide what happens next. An event that does not answer
/// the phase's action leaves the start-up where it was.
pub open spec fn step_spec(path: Seq<char>, phase: PhaseView, event: EventView) -> StepView {
    match (phase, event) {
        (PhaseView::CheckingInstalled, EventView::CommandExists(true)) => go(
            path,
            PhaseView::ProbingSocket,
        ),
        (PhaseView::CheckingInstalled, EventView::CommandExists(false)) => go(
            path,
            PhaseView::Installing,
        ),
        (PhaseView::Installing, EventView::InstallFinished(success, stderr)) => if success {
            go(path, PhaseView::RecheckingInstalled(stderr))
        } else {
            StepView::Failed(ErrorView::InstallFailed(stderr))
        },
        (PhaseView::Installing, EventView::InstallCouldNotRun(msg)) => StepView::Failed(
            ErrorView::Io(msg),
        ),
        (PhaseView::RecheckingInstalled(stderr), EventView::CommandExists(found)) => if found {
            go(path, PhaseView::ProbingSocket)
        } else {
            StepView::Failed(ErrorView::InstallFailed(stderr))
        },
        (PhaseView::ProbingSocket, EventView::SocketExists(found)) => if found {
            go(path, PhaseView::ProbingServer)
        } else {
            go(path, PhaseView::StartingServer)
        },
        (PhaseView::ProbingServer, EventView::PingReplied(r)) => match r {
            Ok(()) => go(path, PhaseView::Confirming),
            Err(_) => go(path, PhaseView::StartingServer),
        },
        (PhaseView::StartingServer, EventView::ServerSpawned(r)) => match r {
            Ok(()) => go(path, PhaseView::WaitingForSocket(0)),
            Err(msg) => StepView::Failed(ErrorView::Io(msg)),
        },
        (PhaseView::WaitingForSocket(checks), EventView::SocketExists(found)) => if found {
            go(path, PhaseView::Confirming)
        } else if checks < SOCKET_CHECKS {
            go(path, PhaseView::Sleeping((checks + 1) as u32))
        } else {
            StepView::Failed(ErrorView::SocketUnavailable(path, timeout_message()))
        },
        (PhaseView::Sleeping(checks), EventView::Slept) => if checks < SOCKET_CHECKS {
            go(path, PhaseView::WaitingForSocket(checks))
        } else {
            StepView::Failed(ErrorView::SocketUnavailable(path, timeout_message()))
        },
        (PhaseView::Confirming, EventView::PingReplied(r)) => match r {
            Ok(()) => StepView::Connected(path),
            Err(e) => StepView::Failed(e),
        },
        _ => go(path, phase),
    }
}

impl BootstrapPhase {
    /// The action this phase asks for.
    pub fn action(&self, path: &String) -> (a: BootstrapAction)
        ensures
            a@ == phase_action(self@, path@),
    {
        match self {
            BootstrapPhase::CheckingInstalled | BootstrapPhase::RecheckingInstalled { .. } => {
                BootstrapAction::CheckCommand { name: String::from_str("herdr") }
            },
            BootstrapPhase::Installing => {
                let mut args: Vec<String> = Vec::new();
                args.push(String::from_str("install"));
                args.push(String::from_str("herdr"));
                let a = BootstrapAction::RunInstall { program: String::from_str("wax"), args };
                assert(strs(args@) =~= seq!["install"@, "herdr"@]);
                a
            },
            BootstrapPhase::ProbingSocket | BootstrapPhase::WaitingForSocket { .. } => {
                BootstrapAction::CheckSocket { path: path.clone() }
            },
            BootstrapPhase::ProbingServer | BootstrapPhase::Confirming => {
                BootstrapAction::Ping { path: path.clone() }
            },
            BootstrapPhase::StartingServer => {
                let mut args: Vec<String> = Vec::new();
                args.push(String::from_str("server"));
                let a = BootstrapAction::StartServer { program: String::from_str("herdr"), args };
                assert(strs(args@) =~= seq!["server"@]);
                a
            },
            BootstrapPhase::Sleeping { .. } => BootstrapAction::Sleep { millis: SOCKET_POLL_MILLIS },
        }
    }
}

impl HerdrClient {
    /// Starts bringing up a connection to the server listening on
    /// `socket_path`; the first action looks for the `herdr` command.
    pub fn bootstrap(socket_path: String) -> (first: BootstrapStep)
        ensures
            first@ == go(socket_path@, PhaseView::CheckingInstalled),
    {
        let phase = BootstrapPhase::CheckingInstalled;
        let action = phase.action(&socket_path);
        BootstrapStep::Continue(Bootstrap { socket_path, phase }, action)
    }
}

impl Bootstrap {
    fn advance(self, phase: BootstrapPhase) -> (s: BootstrapStep)
        ensures
            s@ == go(self.socket_path@, phase@),
    {
        let action = phase.action(&self.socket_path);
        BootstrapStep::Continue(Bootstrap { socket_path: self.socket_path, phase }, action)
    }

    /// Decides what follows from what the last action came to.
    pub fn step(self, event: BootstrapEvent) -> (next: BootstrapStep)
        ensures
            next@ == step_spec(self.socket_path@, self.phase@, event@),
    {
        let ghost path = self.socket_path@;
        let ghost phase0 = self.phase@;
        match (&self.phase, event) {
            (BootstrapPhase::CheckingInstalled, BootstrapEvent::CommandExists(found)) => {
                if found {
                    self.advance(BootstrapPhase::ProbingSocket)
                } else {
                    self.advance(BootstrapPhase::Installing)
                }
            },
            (BootstrapPhase::Installing, BootstrapEvent::InstallFinished { success, stderr }) => {
                if success {
                    self.advance(BootstrapPhase::RecheckingInstalled { stderr })
                } else {
                    BootstrapStep::Failed(HerdrError::InstallFailed(stderr))
                }
            },
            (BootstrapPhase::Installing, BootstrapEvent::InstallCouldNotRun(msg)) => {
                BootstrapStep::Failed(HerdrError::Io(msg))
            },
            (BootstrapPhase::RecheckingInstalled { stderr }, BootstrapEvent::CommandExists(found)) => {
                if found {
                    self.advance(BootstrapPhase::ProbingSocket)
                } else {
                    BootstrapStep::Failed(HerdrError::InstallFailed(stderr.clone()))
                }
            },
            (BootstrapPhase::ProbingSocket, BootstrapEvent::SocketExists(found)) => {
                if found {
                    self.advance(BootstrapPhase::ProbingServer)
                } else {
                    self.advance(BootstrapPhase::StartingServer)
                }
            },
            (BootstrapPhase::ProbingServer, BootstrapEvent::PingReplied(r)) => {
                match r {
                    Ok(()) => self.advance(BootstrapPhase::Confirming),
                    Err(_) => self.advance(BootstrapPhase::StartingServer),
                }
            },
            (BootstrapPhase::StartingServer, BootstrapEvent::ServerSpawned(r)) => {
                match r {
                    Ok(()) => self.advance(BootstrapPhase::WaitingForSocket { checks: 0 }),
                    Err(msg) => BootstrapStep::Failed(HerdrError::Io(msg)),
                }
            },
            (BootstrapPhase::WaitingForSocket { checks }, BootstrapEvent::SocketExists(found)) => {
                let checks = *checks;
                if found {
                    self.advance(BootstrapPhase::Confirming)
                } else if checks < SOCKET_CHECKS {
                    self.advance(BootstrapPhase::Sleeping { checks: checks + 1 })
                } else {
                    BootstrapStep::Failed(
                        HerdrError::SocketUnavailable(
                            self.socket_path,
                            String::from_str("timed out waiting for herdr server"),
                        ),
                    )
                }
            },
            (BootstrapPhase::Sleeping { checks }, BootstrapEvent::Slept) => {
                let checks = *checks;
                if checks < SOCKET_CHECKS {
                    self.advance(BootstrapPhase::WaitingForSocket { checks })
                } else {
                    BootstrapStep::Failed(
                        HerdrError::SocketUnavailable(
                            self.socket_path,
                            String::from_str("timed out waiting for herdr server"),
                        ),
                    )
                }
            },
            (BootstrapPhase::Confirming, BootstrapEvent::PingReplied(r)) => {
                match r {
                    Ok(()) => BootstrapStep::Connected(HerdrClient { socket_path: self.socket_path }),
                    Err(e) => BootstrapStep::Failed(e),
                }
            },
            _ => {
                let Bootstrap { socket_path, phase } = self;
                let action = phase.action(&socket_path);
                BootstrapStep::Continue(Bootstrap { socket_path, phase }, action)
            },
        }
    }
}


/// The phases a start-up can reach: at most `SOCKET_CHECKS` looks for the
/// socket are ever made.
pub open spec fn phase_wf(p: PhaseView) -> bool {
    match p {
        PhaseView::WaitingForSocket(k) => k < SOCKET_CHECKS,
        PhaseView::Sleeping(k) => 1 <= k <= SOCKET_CHECKS,
        _ => true,
    }
}

/// How far a start-up has come.
pub open spec fn progress(p: PhaseView) -> int {
    match p {
        PhaseView::CheckingInstalled => 0,
        PhaseView::Installing => 1,
        PhaseView::RecheckingInstalled(_) => 2,
        PhaseView::ProbingSocket => 3,
        PhaseView::ProbingServer => 4,
        PhaseView::StartingServer => 5,
        PhaseView::WaitingForSocket(k) => 6 + 2 * k,
        PhaseView::Sleeping(k) => 5 + 2 * k,
        PhaseView::Confirming => 70,
    }
}

/// Whether an event reports on the action a phase asked for.
pub open spec fn answers(p: PhaseView, e: EventView) -> bool {
    match (p, e) {
        (PhaseView::CheckingInstalled, EventView::CommandExists(_)) => true,
        (PhaseView::RecheckingInstalled(_), EventView::CommandExists(_)) => true,
        (PhaseView::Installing, EventView::InstallFinished(_, _)) => true,
        (PhaseView::Installing, EventView::InstallCouldNotRun(_)) => true,
        (PhaseView::ProbingSocket, EventView::SocketExists(_)) => true,
        (PhaseView::WaitingForSocket(_), EventView::SocketExists(_)) => true,
        (PhaseView::ProbingServer, EventView::PingReplied(_)) => true,
        (PhaseView::Confirming, EventView::PingReplied(_)) => true,
        (PhaseView::StartingServer, EventView::ServerSpawned(_)) => true,
        (PhaseView::Sleeping(_), EventView::Slept) => true,
        _ => false,
    }
}

/// A start-up always ends: every answered step either finishes it or moves
/// it strictly forward to a reachable phase, and progress is bounded, so at
/// most 71 answered steps are ever taken.
pub proof fn law_bootstrap_terminates(path: Seq<char>, p: PhaseView, e: EventView)
    requires
        phase_wf(p),
        answers(p, e),
    ensures
        0 <= progress(p) <= 70,
        step_spec(path, p, e) matches StepView::Continue(q_path, q, a) ==> {
            &&& q_path == path
            &&& phase_wf(q)
            &&& progress(p) < progress(q) <= 70
            &&& a == phase_action(q, path)
        },
{
}

/// A start-up connects only through a successful ping on its own socket,
/// and only after the server was found or started.
pub proof fn law_bootstrap_connects_after_ping(path: Seq<char>, p: PhaseView, e: EventView)
    ensures
        step_spec(path, p, e) matches StepView::Connected(c) ==> {
            &&& c == path
            &&& p == PhaseView::Confirming
            &&& e matches EventView::PingReplied(Ok(_))
        },
{
}

} // verus!
