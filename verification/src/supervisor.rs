//! Supervision of the daemon and the connection to it, as a state machine.
//!
//! The client looks for the identity marker, launches the daemon when the
//! marker is absent, and opens the endpoint. When the first attempt to
//! connect fails, the marker is taken to be stale: it is removed, the daemon
//! is looked for and launched again, and the endpoint is opened once more.
//! The machine decides; the caller carries out each command and reports back
//! whether it succeeded.

use vstd::prelude::*;
use crate::error::ClientError;

verus! {

/// Where the client stands on its way to a connection.
#[derive(Clone, Copy, Debug, PartialEq, Eq, Structural)]
pub enum Phase {
    /// About to look for the identity marker.
    Probing { retried: bool },
    /// The marker is absent: about to launch the daemon.
    Launching { retried: bool },
    /// About to open the endpoint.
    Connecting { retried: bool },
    /// The first attempt to connect failed: about to remove the stale marker.
    Clearing,
    /// The connection is open.
    Connected,
    /// The client gave up.
    Failed(ClientError),
}

/// What the caller is to do next.
#[derive(Clone, Copy, Debug, PartialEq, Eq, Structural)]
pub enum Command {
    /// Report whether the identity marker exists.
    ProbeMarker,
    /// Launch the daemon with the argument `start`, wait for the launch
    /// command to complete, and report whether that worked.
    SpawnDaemon,
    /// Resolve and open the endpoint, and report whether that worked.
    OpenEndpoint,
    /// Delete the identity marker, and report whether that worked.
    RemoveMarker,
    /// The connection stands: send the request and read the response.
    SendRequest,
    /// Exit with the code of this failure.
    Abort(ClientError),
}

/// The phase in which every invocation starts.
pub open spec fn initial_phase() -> Phase {
    Phase::Probing { retried: false }
}

/// The command that a phase asks for.
pub open spec fn command_of(phase: Phase) -> Command {
    match phase {
        Phase::Probing { .. } => Command::ProbeMarker,
        Phase::Launching { .. } => Command::SpawnDaemon,
        Phase::Connecting { .. } => Command::OpenEndpoint,
        Phase::Clearing => Command::RemoveMarker,
        Phase::Connected => Command::SendRequest,
        Phase::Failed(error) => Command::Abort(error),
    }
}

/// The phase that follows when the command of `phase` had the outcome
/// `success`. For `ProbeMarker` the outcome says whether the marker exists.
pub open spec fn next_phase(phase: Phase, success: bool) -> Phase {
    match phase {
        Phase::Probing { retried } => if success {
            Phase::Connecting { retried }
        } else {
            Phase::Launching { retried }
        },
        Phase::Launching { retried } => if success {
            Phase::Connecting { retried }
        } else {
            Phase::Failed(ClientError::SpawnError)
        },
        Phase::Connecting { retried } => if success {
            Phase::Connected
        } else if retried {
            Phase::Failed(ClientError::ConnectError)
        } else {
            Phase::Clearing
        },
        Phase::Clearing => if success {
            Phase::Probing { retried: true }
        } else {
            Phase::Failed(ClientError::ConnectError)
        },
        Phase::Connected => Phase::Connected,
        Phase::Failed(error) => Phase::Failed(error),
    }
}

/// Whether the machine has come to rest.
pub open spec fn is_terminal(phase: Phase) -> bool {
    phase is Connected || phase is Failed
}

impl Phase {
    /// The phase in which every invocation starts: nothing has been tried.
    pub fn start() -> (phase: Phase)
        ensures
            phase == initial_phase(),
    {
        Phase::Probing { retried: false }
    }

    /// What the caller is to do in this phase.
    pub fn command(&self) -> (command: Command)
        ensures
            command == command_of(*self),
    {
        match self {
            Phase::Probing { .. } => Command::ProbeMarker,
            Phase::Launching { .. } => Command::SpawnDaemon,
            Phase::Connecting { .. } => Command::OpenEndpoint,
            Phase::Clearing => Command::RemoveMarker,
            Phase::Connected => Command::SendRequest,
            Phase::Failed(error) => Command::Abort(*error),
        }
    }

    /// The phase that follows, given how the command of this phase went.
    pub fn advance(self, success: bool) -> (next: Phase)
        ensures
            next == next_phase(self, success),
    {
        match self {
            Phase::Probing { retried } => if success {
                Phase::Connecting { retried }
            } else {
                Phase::Launching { retried }
            },
            Phase::Launching { retried } => if success {
                Phase::Connecting { retried }
            } else {
                Phase::Failed(ClientError::SpawnError)
            },
            Phase::Connecting { retried } => if success {
                Phase::Connected
            } else if retried {
                Phase::Failed(ClientError::ConnectError)
            } else {
                Phase::Clearing
            },
            Phase::Clearing => if success {
                Phase::Probing { retried: true }
            } else {
                Phase::Failed(ClientError::ConnectError)
            },
            Phase::Connected => Phase::Connected,
            Phase::Failed(error) => Phase::Failed(error),
        }
    }

    /// Whether the machine has come to rest: the command is then
    /// `SendRequest` or `Abort`, and no outcome changes the phase.
    pub fn finished(&self) -> (done: bool)
        ensures
            done == is_terminal(*self),
    {
        match self {
            Phase::Connected => true,
            Phase::Failed(_) => true,
            _ => false,
        }
    }
}

/// Carries the machine through a whole list of outcomes, in order, and gives
/// the phase it ends in.
pub fn replay(outcomes: &Vec<bool>) -> (phase: Phase)
    ensures
        phase == phase_at(outcomes@, outcomes@.len() as int),
{
    let mut phase = Phase::start();
    let mut i: usize = 0;
    assert(outcomes@.take(0) =~= Seq::<bool>::empty());
    while i < outcomes.len()
        invariant
            0 <= i <= outcomes.len(),
            phase == phase_at(outcomes@, i as int),
        decreases outcomes.len() - i,
    {
        proof {
            lemma_step(outcomes@, i as int);
        }
        phase = phase.advance(outcomes[i]);
        i += 1;
    }
    phase
}

/// The phase reached from `phase` after the outcomes in `outcomes`, in order.
pub open spec fn phase_after(phase: Phase, outcomes: Seq<bool>) -> Phase
    decreases outcomes.len(),
{
    if outcomes.len() == 0 {
        phase
    } else {
        next_phase(phase_after(phase, outcomes.drop_last()), outcomes.last())
    }
}

/// The phase of an invocation after its first `n` outcomes.
pub open spec fn phase_at(outcomes: Seq<bool>, n: int) -> Phase {
    phase_after(initial_phase(), outcomes.take(n))
}

/// The command whose outcome is `outcomes[n]`; for `n == outcomes.len()`, the
/// command that is due next.
pub open spec fn command_at(outcomes: Seq<bool>, n: int) -> Command {
    command_of(phase_at(outcomes, n))
}

/// How many of the first `n` commands of an invocation are `command`.
pub open spec fn attempts(outcomes: Seq<bool>, command: Command, n: int) -> nat
    decreases n,
{
    if n <= 0 {
        0
    } else if command_at(outcomes, n - 1) == command {
        attempts(outcomes, command, n - 1) + 1
    } else {
        attempts(outcomes, command, n - 1)
    }
}

/// Each outcome moves the machine by one step.
pub proof fn lemma_step(outcomes: Seq<bool>, n: int)
    requires
        0 <= n < outcomes.len(),
    ensures
        phase_at(outcomes, 0) == initial_phase(),
        phase_at(outcomes, n + 1) == next_phase(phase_at(outcomes, n), outcomes[n]),
{
    assert(outcomes.take(n + 1).drop_last() =~= outcomes.take(n));
    assert(outcomes.take(0) =~= Seq::<bool>::empty());
}

/// Once the machine has come to rest it stays where it is.
pub proof fn lemma_rest(outcomes: Seq<bool>, m: int, n: int)
    requires
        0 <= m <= n <= outcomes.len(),
        is_terminal(phase_at(outcomes, m)),
    ensures
        phase_at(outcomes, n) == phase_at(outcomes, m),
    decreases n - m,
{
    if m < n {
        lemma_rest(outcomes, m, n - 1);
        lemma_step(outcomes, n - 1);
    }
}

/// The largest number of outcomes that a phase can still ask for.
pub open spec fn steps_left(phase: Phase) -> nat {
    match phase {
        Phase::Probing { retried: false } => 7,
        Phase::Launching { retried: false } => 6,
        Phase::Connecting { retried: false } => 5,
        Phase::Clearing => 4,
        Phase::Probing { retried: true } => 3,
        Phase::Launching { retried: true } => 2,
        Phase::Connecting { retried: true } => 1,
        Phase::Connected => 0,
        Phase::Failed(_) => 0,
    }
}

/// The largest number of times that a phase can still lead to `command`.
pub open spec fn attempts_left(phase: Phase, command: Command) -> nat {
    match command {
        Command::ProbeMarker => match phase {
            Phase::Probing { retried: false } => 2,
            Phase::Launching { retried: false } => 1,
            Phase::Connecting { retried: false } => 1,
            Phase::Clearing => 1,
            Phase::Probing { retried: true } => 1,
            _ => 0,
        },
        Command::SpawnDaemon => match phase {
            Phase::Probing { retried: false } => 2,
            Phase::Launching { retried: false } => 2,
            Phase::Connecting { retried: false } => 1,
            Phase::Clearing => 1,
            Phase::Probing { retried: true } => 1,
            Phase::Launching { retried: true } => 1,
            _ => 0,
        },
        Command::OpenEndpoint => match phase {
            Phase::Probing { retried: false } => 2,
            Phase::Launching { retried: false } => 2,
            Phase::Connecting { retried: false } => 2,
            Phase::Clearing => 1,
            Phase::Probing { retried: true } => 1,
            Phase::Launching { retried: true } => 1,
            Phase::Connecting { retried: true } => 1,
            _ => 0,
        },
        Command::RemoveMarker => match phase {
            Phase::Probing { retried: false } => 1,
            Phase::Launching { retried: false } => 1,
            Phase::Connecting { retried: false } => 1,
            Phase::Clearing => 1,
            _ => 0,
        },
        Command::SendRequest => 0,
        Command::Abort(_) => 0,
    }
}

/// One step uses up what it does: a phase that asks for `command` leaves one
/// attempt fewer, and no step adds any.
pub proof fn lemma_step_spends(phase: Phase, success: bool, command: Command)
    requires
        command is ProbeMarker || command is SpawnDaemon || command is OpenEndpoint
            || command is RemoveMarker,
    ensures
        attempts_left(next_phase(phase, success), command) + (if command_of(phase) == command {
            1nat
        } else {
            0nat
        }) <= attempts_left(phase, command),
        is_terminal(phase) || steps_left(next_phase(phase, success)) < steps_left(phase),
{
}

/// Between any two moments of an invocation, what was done and what may
/// still be done never exceeds what might be done at the earlier moment.
pub proof fn lemma_budget(outcomes: Seq<bool>, command: Command, m: int, n: int)
    requires
        0 <= m <= n <= outcomes.len(),
        command is ProbeMarker || command is SpawnDaemon || command is OpenEndpoint
            || command is RemoveMarker,
    ensures
        attempts(outcomes, command, n) + attempts_left(phase_at(outcomes, n), command) <= attempts(
            outcomes,
            command,
            m,
        ) + attempts_left(phase_at(outcomes, m), command),
        is_terminal(phase_at(outcomes, n)) || n + steps_left(phase_at(outcomes, n)) <= m
            + steps_left(phase_at(outcomes, m)),
    decreases n - m,
{
    if m < n {
        lemma_budget(outcomes, command, m, n - 1);
        lemma_step(outcomes, n - 1);
        lemma_step_spends(phase_at(outcomes, n - 1), outcomes[n - 1], command);
    }
}

/// The machine comes to rest after at most seven outcomes.
pub proof fn lemma_comes_to_rest(outcomes: Seq<bool>, n: int)
    requires
        7 <= n <= outcomes.len(),
    ensures
        is_terminal(phase_at(outcomes, n)),
{
    lemma_budget(outcomes, Command::ProbeMarker, 0, n);
    assert(outcomes.take(0) =~= Seq::<bool>::empty());
}

/// Whatever the outcomes, an invocation looks for the marker at most twice,
/// launches the daemon at most twice, opens the endpoint at most twice and
/// removes the marker at most once.
pub proof fn lemma_attempts_are_bounded(outcomes: Seq<bool>, n: int)
    requires
        0 <= n <= outcomes.len(),
    ensures
        attempts(outcomes, Command::ProbeMarker, n) <= 2,
        attempts(outcomes, Command::SpawnDaemon, n) <= 2,
        attempts(outcomes, Command::OpenEndpoint, n) <= 2,
        attempts(outcomes, Command::RemoveMarker, n) <= 1,
{
    assert(outcomes.take(0) =~= Seq::<bool>::empty());
    lemma_budget(outcomes, Command::ProbeMarker, 0, n);
    lemma_budget(outcomes, Command::SpawnDaemon, 0, n);
    lemma_budget(outcomes, Command::OpenEndpoint, 0, n);
    lemma_budget(outcomes, Command::RemoveMarker, 0, n);
}

/// What follows a look for the identity marker. When the marker exists the
/// endpoint is opened next, with no launch. When it is absent the daemon is
/// launched next, once: the endpoint is opened as soon as the launch
/// succeeded, and a failed launch ends the invocation without any attempt to
/// connect.
pub proof fn lemma_ensure_running(outcomes: Seq<bool>, n: int)
    requires
        0 <= n < outcomes.len(),
        command_at(outcomes, n) == Command::ProbeMarker,
    ensures
        outcomes[n] ==> command_at(outcomes, n + 1) == Command::OpenEndpoint,
        !outcomes[n] ==> command_at(outcomes, n + 1) == Command::SpawnDaemon,
        !outcomes[n] && n + 1 < outcomes.len() && outcomes[n + 1] ==> command_at(outcomes, n + 2)
            == Command::OpenEndpoint,
        !outcomes[n] && n + 1 < outcomes.len() && !outcomes[n + 1] ==> forall|k: int|
            n + 2 <= k <= outcomes.len() ==> #[trigger] command_at(outcomes, k) == Command::Abort(
                ClientError::SpawnError,
            ),
{
    lemma_step(outcomes, n);
    if n + 1 < outcomes.len() {
        lemma_step(outcomes, n + 1);
        if !outcomes[n] && !outcomes[n + 1] {
            assert forall|k: int| n + 2 <= k <= outcomes.len() implies #[trigger] command_at(
                outcomes,
                k,
            ) == Command::Abort(ClientError::SpawnError) by {
                lemma_rest(outcomes, n + 2, k);
            }
        }
    }
}

/// When the first look finds no identity marker, the first attempt to
/// connect comes third, after exactly one launch, which succeeded.
pub proof fn lemma_absent_marker_launches_once(outcomes: Seq<bool>, n: int)
    requires
        1 <= outcomes.len(),
        !outcomes[0],
        0 <= n <= outcomes.len(),
        command_at(outcomes, n) == Command::OpenEndpoint,
        forall|j: int| 0 <= j < n ==> #[trigger] command_at(outcomes, j) != Command::OpenEndpoint,
    ensures
        n == 2,
        command_at(outcomes, 0) == Command::ProbeMarker,
        command_at(outcomes, 1) == Command::SpawnDaemon,
        outcomes[1],
        attempts(outcomes, Command::SpawnDaemon, n) == 1,
{
    lemma_step(outcomes, 0);
    lemma_step(outcomes, 1);
    if !outcomes[1] {
        lemma_rest(outcomes, 2, n);
    }
    if n > 2 {
        assert(command_at(outcomes, 2) == Command::OpenEndpoint);
    }
    reveal_with_fuel(attempts, 3);
}

/// The first attempt to connect is made before anything has been retried.
pub proof fn lemma_first_attempt(outcomes: Seq<bool>, n: int)
    requires
        0 <= n <= outcomes.len(),
        command_at(outcomes, n) == Command::OpenEndpoint,
        forall|j: int| 0 <= j < n ==> #[trigger] command_at(outcomes, j) != Command::OpenEndpoint,
    ensures
        phase_at(outcomes, n) == (Phase::Connecting { retried: false }),
        attempts(outcomes, Command::OpenEndpoint, n) == 0,
{
    lemma_no_attempt(outcomes, Command::OpenEndpoint, n);
    lemma_retried(outcomes, n);
}

/// When the first attempt to connect fails, the identity marker is removed
/// next. If that works the daemon is looked for and, when the marker is
/// indeed gone, launched again, and the endpoint is opened once more. If the
/// marker cannot be removed the invocation ends with a connection error.
pub proof fn lemma_failure_clears_marker(outcomes: Seq<bool>, n: int)
    requires
        0 <= n < outcomes.len(),
        command_at(outcomes, n) == Command::OpenEndpoint,
        forall|j: int| 0 <= j < n ==> #[trigger] command_at(outcomes, j) != Command::OpenEndpoint,
        !outcomes[n],
    ensures
        command_at(outcomes, n + 1) == Command::RemoveMarker,
        n + 1 < outcomes.len() && !outcomes[n + 1] ==> command_at(outcomes, n + 2)
            == Command::Abort(ClientError::ConnectError),
        n + 1 < outcomes.len() && outcomes[n + 1] ==> command_at(outcomes, n + 2)
            == Command::ProbeMarker,
        n + 2 < outcomes.len() && outcomes[n + 1] && outcomes[n + 2] ==> command_at(outcomes, n + 3)
            == Command::OpenEndpoint,
        n + 2 < outcomes.len() && outcomes[n + 1] && !outcomes[n + 2] ==> command_at(
            outcomes,
            n + 3,
        ) == Command::SpawnDaemon,
        n + 3 < outcomes.len() && outcomes[n + 1] && !outcomes[n + 2] && outcomes[n + 3]
            ==> command_at(outcomes, n + 4) == Command::OpenEndpoint,
        n + 3 < outcomes.len() && outcomes[n + 1] && !outcomes[n + 2] && !outcomes[n + 3]
            ==> command_at(outcomes, n + 4) == Command::Abort(ClientError::SpawnError),
{
    lemma_first_attempt(outcomes, n);
    lemma_step(outcomes, n);
    if n + 1 < outcomes.len() {
        lemma_step(outcomes, n + 1);
    }
    if n + 2 < outcomes.len() {
        lemma_step(outcomes, n + 2);
    }
    if n + 3 < outcomes.len() {
        lemma_step(outcomes, n + 3);
    }
}

/// After the first attempt to connect has failed there is at most one more
/// launch and one more attempt to connect, and that attempt is the last: when
/// it succeeds the request is sent, and when it fails the invocation ends
/// with a connection error, whose exit code is `-1`. There is no third
/// attempt.
pub proof fn lemma_second_attempt_is_last(outcomes: Seq<bool>, n: int, k: int)
    requires
        0 <= n < k <= outcomes.len(),
        command_at(outcomes, n) == Command::OpenEndpoint,
        forall|j: int| 0 <= j < n ==> #[trigger] command_at(outcomes, j) != Command::OpenEndpoint,
        !outcomes[n],
    ensures
        attempts(outcomes, Command::OpenEndpoint, k) <= 2,
        attempts(outcomes, Command::SpawnDaemon, k) <= attempts(outcomes, Command::SpawnDaemon, n)
            + 1,
        attempts(outcomes, Command::RemoveMarker, k) == (if k == n + 1 {
            0nat
        } else {
            1nat
        }),
        k < outcomes.len() && command_at(outcomes, k) == Command::OpenEndpoint ==> command_at(
            outcomes,
            k + 1,
        ) == (if outcomes[k] {
            Command::SendRequest
        } else {
            Command::Abort(ClientError::ConnectError)
        }),
        ClientError::ConnectError.code() == -1,
{
    lemma_first_attempt(outcomes, n);
    lemma_step(outcomes, n);
    lemma_budget(outcomes, Command::OpenEndpoint, n + 1, k);
    lemma_budget(outcomes, Command::SpawnDaemon, n + 1, k);
    lemma_budget(outcomes, Command::RemoveMarker, n + 1, k);
    lemma_budget(outcomes, Command::RemoveMarker, 0, n);
    assert(outcomes.take(0) =~= Seq::<bool>::empty());
    lemma_retried(outcomes, n);
    lemma_retried(outcomes, k);
    if k >= n + 2 {
        lemma_counts_grow(outcomes, Command::RemoveMarker, n + 2, k);
    }
    if n + 1 < outcomes.len() {
        lemma_step(outcomes, n + 1);
    }
    if k < outcomes.len() {
        lemma_step(outcomes, k);
    }
}

/// A phase of the second round is reached only after the endpoint has been
/// opened once and the marker removed; a phase of the first round only
/// before.
proof fn lemma_retried(outcomes: Seq<bool>, n: int)
    requires
        0 <= n <= outcomes.len(),
    ensures
        match phase_at(outcomes, n) {
            Phase::Probing { retried } | Phase::Launching { retried } | Phase::Connecting {
                retried,
            } => attempts(outcomes, Command::OpenEndpoint, n) == (if retried {
                1nat
            } else {
                0nat
            }) && attempts(outcomes, Command::RemoveMarker, n) == (if retried {
                1nat
            } else {
                0nat
            }),
            Phase::Clearing => attempts(outcomes, Command::OpenEndpoint, n) == 1 && attempts(
                outcomes,
                Command::RemoveMarker,
                n,
            ) == 0,
            _ => true,
        },
    decreases n,
{
    if n == 0 {
        assert(outcomes.take(0) =~= Seq::<bool>::empty());
    } else {
        lemma_retried(outcomes, n - 1);
        lemma_step(outcomes, n - 1);
    }
}

/// A command that was not given among the first `n` has been counted zero
/// times.
proof fn lemma_no_attempt(outcomes: Seq<bool>, command: Command, n: int)
    requires
        0 <= n <= outcomes.len(),
        forall|j: int| 0 <= j < n ==> #[trigger] command_at(outcomes, j) != command,
    ensures
        attempts(outcomes, command, n) == 0,
    decreases n,
{
    if n > 0 {
        lemma_no_attempt(outcomes, command, n - 1);
    }
}

/// Counting further never lowers a count.
proof fn lemma_counts_grow(outcomes: Seq<bool>, command: Command, m: int, n: int)
    requires
        0 <= m <= n,
    ensures
        attempts(outcomes, command, m) <= attempts(outcomes, command, n),
    decreases n - m,
{
    if m < n {
        lemma_counts_grow(outcomes, command, m, n - 1);
    }
}

} // verus!
