//! Which daemon to use and how to bring it up: the decisions around connecting,
//! spawning, retrying and tearing down. Processes, clocks and sockets stay
//! outside; what they report comes in as events.

use vstd::prelude::*;
use crate::text;
use crate::termhost::client::TermhostClient;
use crate::termhost::proto::Command;

verus! {

/// Env var naming an already-running daemon's socket. It wins over
/// [`BIN_ENV_VAR`]: the daemon is hand-launched and outlives the orchestrator.
pub const SOCKET_ENV_VAR: &'static str = "HERDR_TERMHOST_SOCKET";

/// Env var naming the daemon binary to spawn and supervise.
pub const BIN_ENV_VAR: &'static str = "HERDR_TERMHOST_BIN";

/// How long to wait for a freshly spawned daemon to start listening, in
/// milliseconds.
pub const SPAWN_READY_TIMEOUT_MS: u64 = 5000;

/// Pause between two attempts to reach a freshly spawned daemon, in
/// milliseconds.
pub const SPAWN_RETRY_MS: u64 = 20;

/// Where the terminal backend is to be found.
#[derive(Debug, PartialEq, Eq)]
pub enum BackendPlan {
    /// Attach to the daemon listening on this socket.
    Attach(String),
    /// Reconnect to the session's daemon, or spawn this binary.
    Managed(String),
    /// No backend is configured.
    Disabled,
}

/// The value of a variable that is set to something.
pub open spec fn is_set(value: Option<String>) -> bool {
    value matches Some(v) && v@.len() > 0
}

/// Picks the backend from the two variables' values. A variable that is set to
/// the empty string counts as unset; the socket wins over the binary.
pub fn connect_backend(socket: Option<String>, bin: Option<String>) -> (r: BackendPlan)
    ensures
        is_set(socket) ==> r == BackendPlan::Attach(socket->0),
        !is_set(socket) && is_set(bin) ==> r == BackendPlan::Managed(bin->0),
        !is_set(socket) && !is_set(bin) ==> r == BackendPlan::Disabled,
{
    if let Some(path) = socket {
        if !path.as_str().is_empty() {
            return BackendPlan::Attach(path);
        }
    }
    if let Some(bin) = bin {
        if !bin.as_str().is_empty() {
            return BackendPlan::Managed(bin);
        }
    }
    BackendPlan::Disabled
}

/// Where bringing up a managed daemon stands.
#[derive(Debug, Clone, Copy, PartialEq, Eq, Structural)]
pub enum SpawnState {
    /// Trying to reach a daemon left running by an earlier process.
    Reconnecting,
    /// Launching the binary.
    Launching,
    /// The child runs; asking whether it still does.
    Checking,
    /// The child runs; trying to reach it.
    Connecting,
    /// Decided, one way or the other.
    Settled,
}

/// What came of the last action.
pub enum SpawnEvent {
    /// The daemon accepted the connection.
    Connected(TermhostClient),
    /// It did not, this long after the child was launched.
    ConnectFailed { elapsed_ms: u64 },
    /// The binary was launched.
    Launched,
    /// It could not be launched.
    LaunchFailed,
    /// The child is still running.
    ChildRunning,
    /// The child has exited.
    ChildExited,
}

/// What to do next.
pub enum SpawnAction {
    /// Try to reach the daemon on the session's socket.
    Connect,
    /// Remove the stale socket and launch the binary.
    Launch,
    /// Ask whether the child has exited.
    CheckChild,
    /// Wait this long, then ask whether the child has exited.
    WaitThenCheckChild { ms: u64 },
    /// Use this connection; no child of ours stands behind it.
    UseSurvivor(TermhostClient),
    /// Use this connection and supervise the child behind it.
    UseSpawned(TermhostClient),
    /// Give up; no child of ours is running.
    GiveUp,
    /// Kill and reap the child, then give up.
    KillAndGiveUp,
    /// Nothing: the event does not belong to this state.
    Ignore,
}

/// The state after an event, and what to do next.
pub open spec fn spawn_step(state: SpawnState, event: SpawnEvent) -> (SpawnState, SpawnAction) {
    match (state, event) {
        (SpawnState::Reconnecting, SpawnEvent::Connected(client)) => (
            SpawnState::Settled,
            SpawnAction::UseSurvivor(client),
        ),
        (SpawnState::Reconnecting, SpawnEvent::ConnectFailed { .. }) => (
            SpawnState::Launching,
            SpawnAction::Launch,
        ),
        (SpawnState::Launching, SpawnEvent::Launched) => (
            SpawnState::Checking,
            SpawnAction::CheckChild,
        ),
        (SpawnState::Launching, SpawnEvent::LaunchFailed) => (
            SpawnState::Settled,
            SpawnAction::GiveUp,
        ),
        (SpawnState::Checking, SpawnEvent::ChildRunning) => (
            SpawnState::Connecting,
            SpawnAction::Connect,
        ),
        (SpawnState::Checking, SpawnEvent::ChildExited) => (
            SpawnState::Settled,
            SpawnAction::GiveUp,
        ),
        (SpawnState::Connecting, SpawnEvent::Connected(client)) => (
            SpawnState::Settled,
            SpawnAction::UseSpawned(client),
        ),
        (SpawnState::Connecting, SpawnEvent::ConnectFailed { elapsed_ms }) => if elapsed_ms
            < SPAWN_READY_TIMEOUT_MS {
            (SpawnState::Checking, SpawnAction::WaitThenCheckChild { ms: SPAWN_RETRY_MS })
        } else {
            (SpawnState::Settled, SpawnAction::KillAndGiveUp)
        },
        (state, _) => (state, SpawnAction::Ignore),
    }
}

/// How bringing up a managed daemon begins: a daemon that survived an earlier
/// process is looked for before a fresh one is launched.
pub fn connect_or_spawn() -> (r: (SpawnState, SpawnAction))
    ensures
        r == (SpawnState::Reconnecting, SpawnAction::Connect),
{
    (SpawnState::Reconnecting, SpawnAction::Connect)
}

/// Moves on from one event. Attempts before the daemon listens fail and are
/// repeated until the deadline; a child that exits meanwhile ends the wait.
pub fn spawn_and_connect(state: SpawnState, event: SpawnEvent) -> (r: (SpawnState, SpawnAction))
    ensures
        r == spawn_step(state, event),
{
    match (state, event) {
        (SpawnState::Reconnecting, SpawnEvent::Connected(client)) => (
            SpawnState::Settled,
            SpawnAction::UseSurvivor(client),
        ),
        (SpawnState::Reconnecting, SpawnEvent::ConnectFailed { .. }) => (
            SpawnState::Launching,
            SpawnAction::Launch,
        ),
        (SpawnState::Launching, SpawnEvent::Launched) => (
            SpawnState::Checking,
            SpawnAction::CheckChild,
        ),
        (SpawnState::Launching, SpawnEvent::LaunchFailed) => (
            SpawnState::Settled,
            SpawnAction::GiveUp,
        ),
        (SpawnState::Checking, SpawnEvent::ChildRunning) => (
            SpawnState::Connecting,
            SpawnAction::Connect,
        ),
        (SpawnState::Checking, SpawnEvent::ChildExited) => (
            SpawnState::Settled,
            SpawnAction::GiveUp,
        ),
        (SpawnState::Connecting, SpawnEvent::Connected(client)) => (
            SpawnState::Settled,
            SpawnAction::UseSpawned(client),
        ),
        (SpawnState::Connecting, SpawnEvent::ConnectFailed { elapsed_ms }) => {
            if elapsed_ms < SPAWN_READY_TIMEOUT_MS {
                (SpawnState::Checking, SpawnAction::WaitThenCheckChild { ms: SPAWN_RETRY_MS })
            } else {
                (SpawnState::Settled, SpawnAction::KillAndGiveUp)
            }
        },
        (state, _) => (state, SpawnAction::Ignore),
    }
}

/// The state a run of events leads to.
pub open spec fn spawn_run(events: Seq<SpawnEvent>) -> SpawnState
    decreases events.len(),
{
    if events.len() == 0 {
        SpawnState::Reconnecting
    } else {
        spawn_step(spawn_run(events.drop_last()), events.last()).0
    }
}

/// Whether a child of ours may be running after a run of events: one was
/// launched and has neither been seen to exit nor been killed.
pub open spec fn child_running(events: Seq<SpawnEvent>) -> bool
    decreases events.len(),
{
    if events.len() == 0 {
        false
    } else {
        let before = events.drop_last();
        match spawn_step(spawn_run(before), events.last()).1 {
            SpawnAction::CheckChild => true,
            SpawnAction::GiveUp => false,
            SpawnAction::KillAndGiveUp => false,
            _ => child_running(before),
        }
    }
}

/// Whichever way the events go: a child is waited for, kept or killed only while
/// it runs, none is launched beside another, and giving up leaves none behind.
pub proof fn no_child_is_left_behind(events: Seq<SpawnEvent>, next: SpawnEvent)
    ensures
        match spawn_step(spawn_run(events), next).1 {
            SpawnAction::WaitThenCheckChild { .. } => child_running(events),
            SpawnAction::UseSpawned(_) => child_running(events),
            SpawnAction::KillAndGiveUp => child_running(events),
            SpawnAction::UseSurvivor(_) => !child_running(events),
            SpawnAction::Launch => !child_running(events),
            _ => true,
        },
        spawn_step(spawn_run(events), next).1 is GiveUp ==> !child_running(events.push(next)),
{
    running_by_state(events);
    assert(events.push(next).drop_last() =~= events);
}

proof fn running_by_state(events: Seq<SpawnEvent>)
    ensures
        spawn_run(events) is Reconnecting || spawn_run(events) is Launching ==> !child_running(
            events,
        ),
        spawn_run(events) is Checking || spawn_run(events) is Connecting ==> child_running(events),
    decreases events.len(),
{
    if events.len() > 0 {
        running_by_state(events.drop_last());
    }
}

/// A settled run stays settled: the first connection that succeeds is the one
/// kept, and nothing is launched or killed after it.
pub proof fn settled_runs_stay_settled(events: Seq<SpawnEvent>, next: SpawnEvent)
    requires
        spawn_run(events) is Settled,
    ensures
        spawn_step(spawn_run(events), next) == (SpawnState::Settled, SpawnAction::Ignore),
{
}

/// Before the deadline a failed attempt is repeated; from the deadline on the
/// child is killed. So the wait ends with the first failure past it.
pub proof fn the_wait_is_bounded(state: SpawnState, elapsed_ms: u64)
    requires
        state is Connecting,
    ensures
        spawn_step(state, SpawnEvent::ConnectFailed { elapsed_ms }).0 is Settled <==> elapsed_ms
            >= SPAWN_READY_TIMEOUT_MS,
        spawn_step(state, SpawnEvent::ConnectFailed { elapsed_ms }).1 is KillAndGiveUp
            <==> elapsed_ms >= SPAWN_READY_TIMEOUT_MS,
{
}

/// `name` in directory `dir`, by the Unix rules: a separator goes between them unless `dir` is
/// empty or ends with one.
pub open spec fn joined(dir: Seq<char>, name: Seq<char>) -> Seq<char> {
    if dir.len() == 0 || dir.last() == '/' {
        dir + name
    } else {
        dir.push('/') + name
    }
}

fn join(dir: &str, name: &str) -> (r: String)
    ensures
        r@ == joined(dir@, name@),
{
    let mut out = text::chars_of(dir);
    if out.len() > 0 && out[out.len() - 1] != '/' {
        out.push('/');
    }
    let mut tail = text::chars_of(name);
    out.append(&mut tail);
    let r = text::string_of(&out);
    assert(r@ =~= joined(dir@, name@));
    r
}

/// The persistent daemon's socket, in the session's data directory: a later
/// process of the same session finds the same daemon.
pub fn managed_socket_path(data_dir: &str) -> (r: String)
    ensures
        r@ == joined(data_dir@, "herdr-termhost.sock"@),
{
    join(data_dir, "herdr-termhost.sock")
}

/// The file beside the socket that takes the daemon's output.
pub fn managed_log_path(data_dir: &str) -> (r: String)
    ensures
        r@ == joined(data_dir@, "herdr-termhost.log"@),
{
    join(data_dir, "herdr-termhost.log")
}

/// The arguments a managed daemon is launched with.
pub fn daemon_args(socket: String) -> (r: Vec<String>)
    ensures
        r@.len() == 3,
        r@[0]@ == "--socket"@,
        r@[1] == socket,
        r@[2]@ == "--persistent"@,
{
    let mut args: Vec<String> = Vec::new();
    args.push("--socket".to_string());
    args.push(socket);
    args.push("--persistent".to_string());
    args
}

/// What a clean quit does about the daemon.
#[derive(Debug, PartialEq, Eq)]
pub struct ShutdownPlan {
    /// Sent to the daemon, if one is connected.
    pub send: Option<Command>,
    /// Terminate and reap the child, and remove its socket.
    pub reap_child: bool,
}

/// Plans a clean quit: the connected daemon is told to exit whether it was
/// spawned here or merely reconnected to, and a child spawned here is reaped.
pub fn shutdown(connected: Option<&TermhostClient>, spawned: bool) -> (r: ShutdownPlan)
    ensures
        r.send == (if connected is Some {
            Some(Command::Shutdown)
        } else {
            None
        }),
        r.reap_child == spawned,
{
    let send = match connected {
        Some(client) => Some(client.request_shutdown()),
        None => None,
    };
    ShutdownPlan { send, reap_child: spawned }
}

/// The commands that close, after a restore, every pane the daemon kept that
/// this process neither adopted nor created. Nothing is closed without a
/// connection.
pub fn close_restored_orphans(connected: Option<&TermhostClient>) -> (r: Vec<Command>)
    ensures
        r@ == (match connected {
            Some(c) => c@.orphans().map_values(|id: u32| Command::ClosePane { pane_id: id }),
            None => Seq::<Command>::empty(),
        }),
{
    match connected {
        Some(client) => client.close_orphans(),
        None => Vec::new(),
    }
}

/// A socket that is set wins over a binary; a binary that is set is run; without
/// either there is no backend. A variable set to nothing counts as not set.
pub proof fn backends_are_picked_in_order(
    socket: Option<String>,
    bin: Option<String>,
    r: BackendPlan,
)
    requires
        call_ensures(connect_backend, (socket, bin), r),
    ensures
        r matches BackendPlan::Attach(path) ==> socket == Some(path) && path@.len() > 0,
        r matches BackendPlan::Managed(path) ==> bin == Some(path) && path@.len() > 0,
        r is Attach <==> socket is Some && socket->0@.len() > 0,
        r is Disabled <==> (socket is None || socket->0@.len() == 0) && (bin is None || bin->0@.len()
            == 0),
{
}

/// A connection found at once belongs to a survivor; otherwise the binary is
/// launched, watched and connected to. It is given up where it cannot be launched
/// or exits, and killed where it does not answer within five seconds; until then it
/// is tried every twenty milliseconds.
pub proof fn daemons_are_found_or_launched(
    state: SpawnState,
    event: SpawnEvent,
    r: (SpawnState, SpawnAction),
)
    requires
        call_ensures(spawn_and_connect, (state, event), r),
    ensures
        state is Reconnecting ==> (event matches SpawnEvent::Connected(c) ==> r.0 is Settled && r.1
            == SpawnAction::UseSurvivor(c)),
        state is Reconnecting && event is ConnectFailed ==> r.0 is Launching && r.1 is Launch,
        state is Launching && event is Launched ==> r.0 is Checking && r.1 is CheckChild,
        state is Launching && event is LaunchFailed ==> r.0 is Settled && r.1 is GiveUp,
        state is Checking && event is ChildRunning ==> r.0 is Connecting && r.1 is Connect,
        state is Checking && event is ChildExited ==> r.0 is Settled && r.1 is GiveUp,
        state is Connecting ==> (event matches SpawnEvent::Connected(c) ==> r.0 is Settled && r.1
            == SpawnAction::UseSpawned(c)),
        state is Connecting ==> (event matches SpawnEvent::ConnectFailed { elapsed_ms }
            ==> elapsed_ms < 5000 ==> r.0 is Checking && r.1 == (SpawnAction::WaitThenCheckChild {
            ms: 20,
        })),
        state is Connecting ==> (event matches SpawnEvent::ConnectFailed { elapsed_ms }
            ==> elapsed_ms >= 5000 ==> r.0 is Settled && r.1 is KillAndGiveUp),
        state is Settled ==> r.0 is Settled && r.1 is Ignore,
{
}

/// A run starts by reconnecting, and each event takes it on from where it was.
pub proof fn runs_go_on_from_where_they_were(
    events: Seq<SpawnEvent>,
    next: SpawnEvent,
    first: (SpawnState, SpawnAction),
)
    requires
        call_ensures(connect_or_spawn, (), first),
    ensures
        first.0 is Reconnecting,
        first.1 is Connect,
        spawn_run(Seq::empty()) == first.0,
        spawn_run(events.push(next)) == spawn_step(spawn_run(events), next).0,
{
    assert(events.push(next).drop_last() =~= events);
}

/// A file in a directory is the directory, a slash unless it ends in one or is
/// empty, and the name.
pub proof fn paths_are_joined_by_one_slash(dir: Seq<char>, name: Seq<char>)
    ensures
        dir.len() > 0 && dir[dir.len() - 1] != '/' ==> joined(dir, name) == dir + seq!['/'] + name,
        dir.len() > 0 && dir[dir.len() - 1] == '/' ==> joined(dir, name) == dir + name,
        dir.len() == 0 ==> joined(dir, name) == name,
{
    assert(dir.push('/') + name =~= dir + seq!['/'] + name);
    if dir.len() == 0 {
        assert(dir + name =~= name);
    }
}

/// The session's socket and log lie in its data directory, under their own names,
/// and the daemon is told to listen on the socket and to outlive its parent.
pub proof fn sessions_have_their_files(
    data_dir: &str,
    socket: String,
    log: String,
    args: Vec<String>,
)
    requires
        call_ensures(managed_socket_path, (data_dir,), socket),
        call_ensures(managed_log_path, (data_dir,), log),
        call_ensures(daemon_args, (socket,), args),
    ensures
        data_dir@.len() > 0 && data_dir@.last() != '/' ==> socket@ == data_dir@ + seq!['/']
            + "herdr-termhost.sock"@ && log@ == data_dir@ + seq!['/'] + "herdr-termhost.log"@,
        args@.len() == 3,
        args@[0]@ == "--socket"@,
        args@[1] == socket,
        args@[2]@ == "--persistent"@,
{
    paths_are_joined_by_one_slash(data_dir@, "herdr-termhost.sock"@);
    paths_are_joined_by_one_slash(data_dir@, "herdr-termhost.log"@);
}

/// Shutting down tells a connected daemon so and reaps a child that was spawned;
/// closing orphans asks a connected daemon to close each of them, in its order.
pub proof fn shutdowns_tell_and_reap(
    connected: Option<&TermhostClient>,
    spawned: bool,
    plan: ShutdownPlan,
    closes: Vec<Command>,
    i: int,
)
    requires
        call_ensures(shutdown, (connected, spawned), plan),
        call_ensures(close_restored_orphans, (connected,), closes),
    ensures
        plan.send is Some <==> connected is Some,
        plan.send matches Some(c) ==> c is Shutdown,
        plan.reap_child <==> spawned,
        connected is None ==> closes@.len() == 0,
        connected matches Some(c) ==> closes@.len() == c@.orphans().len(),
        connected matches Some(c) ==> 0 <= i < closes@.len() ==> closes@[i] == (Command::ClosePane {
            pane_id: c@.orphans()[i],
        }),
{
}

} // verus!
