//! The runtime of a pane: its local state, the handle on the daemon's pane, and
//! everything asked of either. What has to be sent is given back as a value;
//! what the daemon answered comes in as one.

use vstd::prelude::*;
use crate::pane::command;
use crate::pane::command::{CommandBuilder, CommandView};
use crate::pane::cwd;
use crate::pane::fake_content;
use crate::pane::fake_terminal;
use crate::pane::input_mirror;
use crate::pane::launch;
use crate::pane::launch::{PaneEnv, SpawnError};
use crate::pane::shell;
use crate::pane::shell::{PaneShellConfig, ShellError, Target};
use crate::pane::terminal::{PaneTerminal, TerminalView};
use crate::termhost::backend::TerminalBackend;
use crate::termhost::client;
use crate::termhost::client::{ClientView, PaneSignal, PaneSpec, TermhostClient, TermhostPane};
use crate::termhost::proto::Command;
use crate::wire;
use crate::wire::CursorState;

verus! {

/// A pane's number.
#[derive(Debug, Clone, Copy, PartialEq, Eq, Structural)]
pub struct PaneId {
    pub raw: u32,
}

impl PaneId {
    pub fn from_raw(raw: u32) -> (r: Self)
        ensures
            r.raw == raw,
    {
        PaneId { raw }
    }

    pub fn raw(self) -> (r: u32)
        ensures
            r == self.raw,
    {
        self.raw
    }
}

/// What an agent in a pane is doing.
#[derive(Debug, Clone, Copy, PartialEq, Eq, Structural)]
pub enum AgentState {
    Working,
    Blocked,
    Idle,
    Unknown,
}

/// What a pane tells the application.
#[derive(Debug, PartialEq, Eq)]
pub enum AppEvent {
    /// The shell changed directory.
    TerminalCwdReported { pane_id: PaneId, cwd: Vec<u8> },
    /// Agent detection has a new result; `agent` is the daemon's label.
    StateChanged {
        pane_id: PaneId,
        agent: String,
        state: AgentState,
        visible_blocker: bool,
        visible_working: bool,
        process_exited: bool,
    },
    /// A program wrote to the clipboard.
    ClipboardWrite { content: Vec<u8> },
    /// A program set the window title; `None` clears it.
    TerminalTitleReported { pane_id: PaneId, title: Option<String> },
    /// The pane's child exited.
    PaneDied { pane_id: PaneId },
}

/// Where a pane's input and size go.
#[derive(Debug, Clone, Copy, PartialEq, Eq, Structural)]
pub enum PaneRuntimeIo {
    /// To the daemon's pane.
    Termhost(TermhostPane),
    /// To the channels of a test.
    TestChannel,
}

/// Bytes for the pane's program.
#[derive(Debug, PartialEq, Eq)]
pub enum PaneWrite {
    /// A command for the daemon.
    Termhost(Command),
    /// Bytes for the test's channel.
    Channel(Vec<u8>),
}

/// A new size for the pane.
#[derive(Debug, PartialEq, Eq)]
pub enum PaneResize {
    /// A command for the daemon.
    Termhost(Command),
    /// Rows, columns and cell size for the test's channel.
    Channel { rows: u16, cols: u16, cell_width_px: u32, cell_height_px: u32 },
}

/// A pane has no terminal file descriptor of its own to hand over.
#[derive(Debug, Clone, Copy, PartialEq, Eq, Structural)]
pub enum NoMasterFd {
    /// The daemon has it.
    Termhost,
    /// A test has none.
    TestRuntime,
}

/// Whether bytes are on their way to the program behind `io`.
pub open spec fn is_write_of(w: PaneWrite, io: PaneRuntimeIo, bytes: Seq<u8>) -> bool {
    match (io, w) {
        (PaneRuntimeIo::Termhost(pane), PaneWrite::Termhost(Command::Input { pane_id, data })) => {
            pane_id == pane.id && data@ == bytes
        },
        (PaneRuntimeIo::TestChannel, PaneWrite::Channel(data)) => data@ == bytes,
        _ => false,
    }
}

/// The size sent to what is behind `io`.
pub open spec fn resize_of(
    io: PaneRuntimeIo,
    rows: u16,
    cols: u16,
    cell_width_px: u32,
    cell_height_px: u32,
) -> PaneResize {
    match io {
        PaneRuntimeIo::Termhost(pane) => PaneResize::Termhost(
            Command::Resize { pane_id: pane.id, cols, rows, cell_width_px, cell_height_px },
        ),
        PaneRuntimeIo::TestChannel => PaneResize::Channel {
            rows,
            cols,
            cell_width_px,
            cell_height_px,
        },
    }
}

impl PaneRuntimeIo {
    /// The handle on the daemon's pane, if there is one.
    pub fn termhost_pane(&self) -> (r: Option<TermhostPane>)
        ensures
            r == (match *self {
                PaneRuntimeIo::Termhost(pane) => Some(pane),
                PaneRuntimeIo::TestChannel => None,
            }),
    {
        match self {
            PaneRuntimeIo::Termhost(pane) => Some(*pane),
            PaneRuntimeIo::TestChannel => None,
        }
    }

    /// Closes the daemon's pane.
    pub fn shutdown(&self, client: &mut TermhostClient) -> (r: Option<Command>)
        requires
            old(client)@.wf(),
            *self matches PaneRuntimeIo::Termhost(pane) ==> pane.of(old(client)@),
        ensures
            match *self {
                PaneRuntimeIo::Termhost(pane) => r == Some(
                    Command::ClosePane { pane_id: pane.id },
                ) && final(client)@ == (ClientView {
                    panes: old(client)@.panes.remove(pane.id),
                    ..old(client)@
                }),
                PaneRuntimeIo::TestChannel => r is None && final(client)@ == old(client)@,
            },
            final(client)@.wf(),
    {
        match self {
            PaneRuntimeIo::Termhost(pane) => Some(pane.close(client)),
            PaneRuntimeIo::TestChannel => None,
        }
    }

    /// Whether the daemon has the pane.
    pub fn is_termhost(&self) -> (r: bool)
        ensures
            r == (*self is Termhost),
    {
        match self {
            PaneRuntimeIo::Termhost(_) => true,
            PaneRuntimeIo::TestChannel => false,
        }
    }

    /// There is never a descriptor to duplicate.
    pub fn duplicate_handoff_fd(&self) -> (r: Result<i32, NoMasterFd>)
        ensures
            r == Err::<i32, NoMasterFd>(
                match *self {
                    PaneRuntimeIo::Termhost(_) => NoMasterFd::Termhost,
                    PaneRuntimeIo::TestChannel => NoMasterFd::TestRuntime,
                },
            ),
    {
        match self {
            PaneRuntimeIo::Termhost(_) => Err(NoMasterFd::Termhost),
            PaneRuntimeIo::TestChannel => Err(NoMasterFd::TestRuntime),
        }
    }

    /// Passes a size on.
    pub fn resize(&self, rows: u16, cols: u16, cell_width_px: u32, cell_height_px: u32) -> (r:
        PaneResize)
        ensures
            r == resize_of(*self, rows, cols, cell_width_px, cell_height_px),
    {
        match self {
            PaneRuntimeIo::Termhost(pane) => PaneResize::Termhost(
                pane.resize(rows, cols, cell_width_px, cell_height_px),
            ),
            PaneRuntimeIo::TestChannel => PaneResize::Channel {
                rows,
                cols,
                cell_width_px,
                cell_height_px,
            },
        }
    }

    /// Passes bytes on.
    pub fn send_bytes(&self, bytes: Vec<u8>) -> (r: PaneWrite)
        ensures
            is_write_of(r, *self, bytes@),
    {
        match self {
            PaneRuntimeIo::Termhost(pane) => PaneWrite::Termhost(
                pane.write_input(bytes.as_slice()),
            ),
            PaneRuntimeIo::TestChannel => PaneWrite::Channel(bytes),
        }
    }
}

/// The runtime of one pane.
pub struct PaneRuntime {
    pub pane_id: PaneId,
    pub terminal: PaneTerminal,
    pub io: PaneRuntimeIo,
    /// Rows, columns, cell width and cell height.
    pub current_size: (u16, u16, u32, u32),
    pub child_pid: u32,
    pub reported_cwd: Option<Vec<u8>>,
    pub kitty_keyboard_flags: u16,
    pub preserve_processes_on_drop: bool,
    /// The pane's shell outlived an earlier process and was taken over.
    pub adopted_live_shell: bool,
}

/// What a [`PaneRuntime`] holds.
pub struct RuntimeView {
    pub pane_id: PaneId,
    pub terminal: TerminalView,
    pub io: PaneRuntimeIo,
    pub size: (u16, u16, u32, u32),
    pub child_pid: u32,
    pub reported_cwd: Option<Seq<u8>>,
    pub kitty_keyboard_flags: u16,
    pub preserve: bool,
    pub adopted: bool,
}

impl View for PaneRuntime {
    type V = RuntimeView;

    open spec fn view(&self) -> RuntimeView {
        RuntimeView {
            pane_id: self.pane_id,
            terminal: self.terminal@,
            io: self.io,
            size: self.current_size,
            child_pid: self.child_pid,
            reported_cwd: cwd::path_view(self.reported_cwd),
            kitty_keyboard_flags: self.kitty_keyboard_flags,
            preserve: self.preserve_processes_on_drop,
            adopted: self.adopted_live_shell,
        }
    }
}

/// The state an agent's report stands for.
pub open spec fn agent_state(label: Seq<char>) -> AgentState {
    if label == "working"@ {
        AgentState::Working
    } else if label == "blocked"@ {
        AgentState::Blocked
    } else if label == "idle"@ {
        AgentState::Idle
    } else {
        AgentState::Unknown
    }
}

fn parse_agent_state(label: &String) -> (r: AgentState)
    ensures
        r == agent_state(label@),
{
    if *label == "working".to_string() {
        AgentState::Working
    } else if *label == "blocked".to_string() {
        AgentState::Blocked
    } else if *label == "idle".to_string() {
        AgentState::Idle
    } else {
        AgentState::Unknown
    }
}

/// What a signal makes of a pane's runtime: a usable, new directory is
/// remembered, modes are mirrored, and nothing else changes it.
pub open spec fn runtime_after(rt: RuntimeView, signal: PaneSignal, cwd_is_dir: bool) -> RuntimeView {
    match signal {
        PaneSignal::Cwd(cwd) => {
            let path = vstd::utf8::encode_utf8(cwd@);
            if cwd::is_news(rt.reported_cwd, path, cwd_is_dir) {
                RuntimeView { reported_cwd: Some(path), ..rt }
            } else {
                rt
            }
        },
        PaneSignal::Modes(modes) => RuntimeView {
            terminal: rt.terminal.reported(modes),
            kitty_keyboard_flags: modes.kitty_keyboard_flags,
            ..rt
        },
        _ => rt,
    }
}

/// Whether `event` is what a signal tells the application.
pub open spec fn is_event_of(
    event: Option<AppEvent>,
    rt: RuntimeView,
    signal: PaneSignal,
    cwd_is_dir: bool,
) -> bool {
    match signal {
        PaneSignal::Cwd(cwd) => {
            let path = vstd::utf8::encode_utf8(cwd@);
            if cwd::is_news(rt.reported_cwd, path, cwd_is_dir) {
                event matches Some(AppEvent::TerminalCwdReported { pane_id, cwd: reported })
                    && pane_id == rt.pane_id && reported@ == path
            } else {
                event is None
            }
        },
        PaneSignal::Agent { agent, state, visible_blocker, visible_working } => event == Some(
            AppEvent::StateChanged {
                pane_id: rt.pane_id,
                agent,
                state: agent_state(state@),
                visible_blocker,
                visible_working,
                process_exited: false,
            },
        ),
        PaneSignal::Clipboard(content) => event == Some(AppEvent::ClipboardWrite { content }),
        PaneSignal::Title(title) => event == Some(
            AppEvent::TerminalTitleReported {
                pane_id: rt.pane_id,
                title: if title@.len() == 0 {
                    None
                } else {
                    Some(title)
                },
            },
        ),
        PaneSignal::Modes(_) => event is None,
    }
}

/// What spawning a pane on the daemon asks for: the command's texts, read
/// leniently, and the environment's UTF-8 entries.
pub open spec fn is_spec_of(
    spec: PaneSpec,
    pane_id: PaneId,
    rows: u16,
    cols: u16,
    cmd: CommandView,
    history: Seq<char>,
) -> bool {
    &&& spec.pane_id == pane_id.raw
    &&& spec.rows == rows
    &&& spec.cols == cols
    &&& spec.cell_width_px == 0
    &&& spec.cell_height_px == 0
    &&& spec.cwd@ == match cmd.cwd {
        Some(c) => fake_terminal::lossy_text(c),
        None => Seq::empty(),
    }
    &&& spec.command@ == if cmd.argv.len() > 0 {
        fake_terminal::lossy_text(cmd.argv[0])
    } else {
        Seq::empty()
    }
    &&& wire::texts_view(spec.args@) == args_of(cmd.argv)
    &&& command::pairs_view(spec.env@) == command::text_env(cmd.env)
    &&& spec.initial_history@ == history
}

/// The texts of the arguments after the program.
pub open spec fn args_of(argv: Seq<Seq<u8>>) -> Seq<Seq<char>> {
    Seq::new(
        (if argv.len() > 0 {
            argv.len() - 1
        } else {
            0
        }) as nat,
        |i: int| fake_terminal::lossy_text(argv[i + 1]),
    )
}

/// The text of an optional history.
pub open spec fn history_text(history: Option<&str>) -> Seq<char> {
    match history {
        Some(h) => h@,
        None => Seq::empty(),
    }
}

/// The runtime of a pane that was just spawned or taken over.
pub open spec fn runtime_fresh(
    pane_id: PaneId,
    pane: TermhostPane,
    rows: u16,
    cols: u16,
    adopted: bool,
) -> RuntimeView {
    RuntimeView {
        pane_id,
        terminal: TerminalView::Mirror(input_mirror::mirror_fresh()),
        io: PaneRuntimeIo::Termhost(pane),
        size: (rows, cols, 0, 0),
        child_pid: 0,
        reported_cwd: None,
        kitty_keyboard_flags: 0,
        preserve: false,
        adopted,
    }
}

/// `started` is the runtime of a pane registered with `before`, and the command
/// that brings it up: a live shell is asked to repaint, any other is created.
pub open spec fn is_start(
    started: (PaneRuntime, Command),
    before: ClientView,
    pane_id: PaneId,
    rows: u16,
    cols: u16,
    cmd: CommandView,
    history: Seq<char>,
    adopt: bool,
) -> bool {
    &&& started.0@ == runtime_fresh(
        pane_id,
        TermhostPane { id: pane_id.raw, slot: before.states.len() as usize },
        rows,
        cols,
        adopt,
    )
    &&& if adopt {
        started.1 == Command::RequestResync { pane_id: pane_id.raw }
    } else {
        exists|spec: PaneSpec| #[trigger]
            is_spec_of(spec, pane_id, rows, cols, cmd, history) && started.1
                == client::create_command(spec)
    }
}

fn lossy_bytes(bytes: &Vec<u8>) -> (r: String)
    ensures
        r@ == fake_terminal::lossy_text(bytes@),
{
    fake_terminal::decode_lossy(bytes.as_slice())
}

impl RuntimeView {
    /// The runtime belongs to a client, and its terminal is in order.
    pub open spec fn wf(self, c: ClientView) -> bool {
        &&& c.wf()
        &&& self.terminal.wf()
        &&& self.io matches PaneRuntimeIo::Termhost(pane) ==> pane.of(c)
    }

    /// The handle on the daemon's pane.
    pub open spec fn pane(self) -> Option<TermhostPane> {
        match self.io {
            PaneRuntimeIo::Termhost(pane) => Some(pane),
            PaneRuntimeIo::TestChannel => None,
        }
    }

    /// The cursor within the pane.
    pub open spec fn cursor(self, c: ClientView) -> Option<CursorState> {
        match self.io {
            PaneRuntimeIo::Termhost(pane) => pane.state(c).grid.cursor,
            PaneRuntimeIo::TestChannel => match self.terminal.screen() {
                Some(s) => Some(fake_content::cursor(s)),
                None => None,
            },
        }
    }
}

impl PaneRuntime {
    /// Takes in a signal from the daemon and gives what the application is to be
    /// told. For a directory report, `cwd_is_dir` says whether the directory is
    /// there.
    pub fn handle_signal(&mut self, signal: PaneSignal, cwd_is_dir: bool) -> (r: Option<AppEvent>)
        ensures
            final(self)@ == runtime_after(old(self)@, signal, cwd_is_dir),
            is_event_of(r, old(self)@, signal, cwd_is_dir),
            old(self)@.terminal.wf() ==> final(self)@.terminal.wf(),
    {
        match signal {
            PaneSignal::Cwd(cwd) => {
                let path = vstd::slice::slice_to_vec(cwd.as_str().as_bytes());
                let told = vstd::slice::slice_to_vec(cwd.as_str().as_bytes());
                if cwd::publish_reported_cwd(&mut self.reported_cwd, path, cwd_is_dir) {
                    Some(AppEvent::TerminalCwdReported { pane_id: self.pane_id, cwd: told })
                } else {
                    None
                }
            },
            PaneSignal::Agent { agent, state, visible_blocker, visible_working } => Some(
                AppEvent::StateChanged {
                    pane_id: self.pane_id,
                    agent,
                    state: parse_agent_state(&state),
                    visible_blocker,
                    visible_working,
                    process_exited: false,
                },
            ),
            PaneSignal::Clipboard(content) => Some(AppEvent::ClipboardWrite { content }),
            PaneSignal::Title(title) => {
                let title = if title.as_str().is_empty() {
                    None
                } else {
                    Some(title)
                };
                Some(AppEvent::TerminalTitleReported { pane_id: self.pane_id, title })
            },
            PaneSignal::Modes(modes) => {
                self.terminal.apply_input_modes(&modes);
                self.kitty_keyboard_flags = modes.kitty_keyboard_flags;
                None
            },
        }
    }

    /// What the application is to be told once the pane's child has exited.
    pub fn exit_event(&self, client: &TermhostClient) -> (r: Option<AppEvent>)
        requires
            self@.wf(client@),
        ensures
            r == (match self@.pane() {
                Some(pane) => if pane.state(client@).exit is Some {
                    Some(AppEvent::PaneDied { pane_id: self@.pane_id })
                } else {
                    None
                },
                None => None,
            }),
    {
        match self.io.termhost_pane() {
            Some(pane) => match pane.exit_status(client) {
                Some(_) => Some(AppEvent::PaneDied { pane_id: self.pane_id }),
                None => None,
            },
            None => None,
        }
    }

    /// Registers a pane with the daemon and builds its runtime: a surviving
    /// shell is taken over, any other is spawned.
    pub fn finish_termhost(
        pane_id: PaneId,
        rows: u16,
        cols: u16,
        cmd: CommandBuilder,
        client: &mut TermhostClient,
        initial_history: Option<&str>,
        adopt: bool,
    ) -> (r: (PaneRuntime, Command))
        requires
            old(client)@.wf(),
        ensures
            final(client)@ == old(client)@.registered(pane_id.raw, true),
            is_start(
                r,
                old(client)@,
                pane_id,
                rows,
                cols,
                cmd@,
                history_text(initial_history),
                adopt,
            ),
            r.0@.wf(final(client)@),
    {
        let (pane, command) = if adopt {
            client.adopt_pane(pane_id.raw, true)
        } else {
            let spec = Self::pane_spec(pane_id, rows, cols, &cmd, initial_history);
            let ghost asked = spec;
            let started = client.create_pane(spec, true);
            assert(is_spec_of(asked, pane_id, rows, cols, cmd@, history_text(initial_history)));
            started
        };
        (
            PaneRuntime {
                pane_id,
                terminal: PaneTerminal::new_mirror(),
                io: PaneRuntimeIo::Termhost(pane),
                current_size: (rows, cols, 0, 0),
                child_pid: 0,
                reported_cwd: None,
                kitty_keyboard_flags: 0,
                preserve_processes_on_drop: false,
                adopted_live_shell: adopt,
            },
            command,
        )
    }

    fn pane_spec(
        pane_id: PaneId,
        rows: u16,
        cols: u16,
        cmd: &CommandBuilder,
        initial_history: Option<&str>,
    ) -> (r: PaneSpec)
        ensures
            is_spec_of(r, pane_id, rows, cols, cmd@, history_text(initial_history)),
    {
        let ghost all = cmd@.argv;
        let argv = cmd.get_argv();
        assert(all.len() == argv.len());
        let command = if argv.len() > 0 {
            assert(all[0] == argv@[0]@);
            lossy_bytes(&argv[0])
        } else {
            String::new()
        };
        let mut args: Vec<String> = Vec::new();
        let mut i: usize = 1;
        while i < argv.len()
            invariant
                1 <= i,
                i <= argv.len() || argv.len() == 0 && i == 1,
                all == command::argv_view(argv@),
                args@.len() == i - 1,
                wire::texts_view(args@) == args_of(all).take(i - 1),
            decreases argv.len() - i,
        {
            let ghost before = args@;
            assert(all[i as int] == argv@[i as int]@);
            args.push(lossy_bytes(&argv[i]));
            assert(wire::texts_view(args@) =~= wire::texts_view(before).push(
                fake_terminal::lossy_text(all[i as int]),
            ));
            assert(args_of(all).take(i as int) =~= args_of(all).take(i - 1).push(
                fake_terminal::lossy_text(all[i as int]),
            ));
            i += 1;
        }
        assert(wire::texts_view(args@) =~= args_of(all));
        let cwd = match cmd.get_cwd() {
            Some(cwd) => lossy_bytes(cwd),
            None => String::new(),
        };
        let initial_history = match initial_history {
            Some(history) => history.to_owned(),
            None => String::new(),
        };
        PaneSpec {
            pane_id: pane_id.raw,
            cols,
            rows,
            cell_width_px: 0,
            cell_height_px: 0,
            cwd,
            command,
            args,
            env: cmd.iter_extra_env_as_str(),
            initial_history,
        }
    }

    /// Launches a command in a pane. If the daemon kept a live shell under this
    /// id across a restart or handoff, that one is taken over, once.
    pub fn spawn_command_builder(
        pane_id: PaneId,
        rows: u16,
        cols: u16,
        cmd: CommandBuilder,
        client: &mut TermhostClient,
        initial_history: Option<&str>,
    ) -> (r: (PaneRuntime, Command))
        requires
            old(client)@.wf(),
        ensures
            is_spawn(
                r,
                old(client)@,
                final(client)@,
                pane_id,
                rows,
                cols,
                cmd@,
                history_text(initial_history),
            ),
            r.0@.wf(final(client)@),
    {
        let ghost before = client@;
        let adopt = client.claim_surviving_pane(pane_id.raw());
        let ghost claimed = client@;
        assert(claimed.wf());
        let r = Self::finish_termhost(pane_id, rows, cols, cmd, client, initial_history, adopt);
        assert(client::is_claim(before, pane_id.raw, adopt, claimed));
        r
    }

    /// Launches the user's shell in a pane.
    pub fn spawn_with_initial_history(
        pane_id: PaneId,
        rows: u16,
        cols: u16,
        cwd: &Vec<u8>,
        shell_config: PaneShellConfig<'_>,
        env_shell: Option<String>,
        target: Target,
        resolve: impl FnOnce(String) -> Result<String, ShellError>,
        file_name: impl FnOnce(String) -> Option<String>,
        env: &PaneEnv,
        initial_history: Option<&str>,
        client: &mut TermhostClient,
    ) -> (r: Result<(PaneRuntime, Command), SpawnError>)
        requires
            old(client)@.wf(),
            forall|s: String| #[trigger] call_requires(resolve, (s,)),
            forall|s: String| #[trigger] call_requires(file_name, (s,)),
        ensures
            exists|built: Result<CommandBuilder, ShellError>, cmd: Result<CommandBuilder, SpawnError>|
                shell::is_shell_command(built, shell_config, env_shell, target, resolve, file_name)
                    && #[trigger] launch::is_shell_pane(cmd, built, cwd@, *env) && (match (cmd, r) {
                    (Ok(cmd), Ok(started)) => is_spawn(
                        started,
                        old(client)@,
                        final(client)@,
                        pane_id,
                        rows,
                        cols,
                        cmd@,
                        history_text(initial_history),
                    ) && started.0@.wf(final(client)@),
                    (Err(e), Err(f)) => e == f && final(client)@ == old(client)@,
                    _ => false,
                }),
            final(client)@.wf(),
    {
        let cmd = launch::shell_pane_command(
            shell_config,
            env_shell,
            target,
            resolve,
            file_name,
            cwd,
            env,
        );
        match cmd {
            Ok(cmd) => Ok(
                Self::spawn_command_builder(pane_id, rows, cols, cmd, client, initial_history),
            ),
            Err(e) => Err(e),
        }
    }

    /// Launches the user's shell in a pane, with no history to restore.
    pub fn spawn(
        pane_id: PaneId,
        rows: u16,
        cols: u16,
        cwd: &Vec<u8>,
        shell_config: PaneShellConfig<'_>,
        env_shell: Option<String>,
        target: Target,
        resolve: impl FnOnce(String) -> Result<String, ShellError>,
        file_name: impl FnOnce(String) -> Option<String>,
        env: &PaneEnv,
        client: &mut TermhostClient,
    ) -> (r: Result<(PaneRuntime, Command), SpawnError>)
        requires
            old(client)@.wf(),
            forall|s: String| #[trigger] call_requires(resolve, (s,)),
            forall|s: String| #[trigger] call_requires(file_name, (s,)),
        ensures
            exists|built: Result<CommandBuilder, ShellError>, cmd: Result<CommandBuilder, SpawnError>|
                shell::is_shell_command(built, shell_config, env_shell, target, resolve, file_name)
                    && #[trigger] launch::is_shell_pane(cmd, built, cwd@, *env) && (match (cmd, r) {
                    (Ok(cmd), Ok(started)) => is_spawn(
                        started,
                        old(client)@,
                        final(client)@,
                        pane_id,
                        rows,
                        cols,
                        cmd@,
                        Seq::empty(),
                    ) && started.0@.wf(final(client)@),
                    (Err(e), Err(f)) => e == f && final(client)@ == old(client)@,
                    _ => false,
                }),
            final(client)@.wf(),
    {
        Self::spawn_with_initial_history(
            pane_id,
            rows,
            cols,
            cwd,
            shell_config,
            env_shell,
            target,
            resolve,
            file_name,
            env,
            None,
            client,
        )
    }

    /// Launches a shell command line in a pane.
    pub fn spawn_shell_command(
        pane_id: PaneId,
        rows: u16,
        cols: u16,
        cwd: &Vec<u8>,
        script: &str,
        extra_env: &Vec<(Vec<u8>, Vec<u8>)>,
        env: &PaneEnv,
        client: &mut TermhostClient,
    ) -> (r: (PaneRuntime, Command))
        requires
            old(client)@.wf(),
        ensures
            exists|cmd: CommandView|
                #![trigger is_spawn(r, old(client)@, final(client)@, pane_id, rows, cols, cmd, Seq::empty())]
                launch::is_pane_command(
                    cmd,
                    launch::plain_command(
                        seq![
                            vstd::utf8::encode_utf8("/bin/sh"@),
                            vstd::utf8::encode_utf8("-c"@),
                            vstd::utf8::encode_utf8(script@),
                        ],
                    ),
                    cwd@,
                    *env,
                    command::env_view(extra_env@),
                ) && is_spawn(
                    r,
                    old(client)@,
                    final(client)@,
                    pane_id,
                    rows,
                    cols,
                    cmd,
                    Seq::empty(),
                ),
            r.0@.wf(final(client)@),
    {
        let ghost before = client@;
        let cmd = launch::script_pane_command(script, cwd, extra_env, env);
        let ghost asked = cmd@;
        let started = Self::spawn_command_builder(pane_id, rows, cols, cmd, client, None);
        assert(is_spawn(started, before, client@, pane_id, rows, cols, asked, Seq::empty()));
        started
    }

    /// Launches a program in a pane.
    pub fn spawn_argv_command(
        pane_id: PaneId,
        rows: u16,
        cols: u16,
        cwd: &Vec<u8>,
        argv: &Vec<Vec<u8>>,
        env: &PaneEnv,
        client: &mut TermhostClient,
    ) -> (r: Result<(PaneRuntime, Command), SpawnError>)
        requires
            old(client)@.wf(),
        ensures
            match r {
                Ok(started) => argv@.len() > 0 && started.0@.wf(final(client)@) && exists|
                    cmd: CommandView,
                |
                    #![trigger is_spawn(started, old(client)@, final(client)@, pane_id, rows, cols, cmd, Seq::empty())]
                    launch::is_pane_command(
                        cmd,
                        launch::plain_command(command::argv_view(argv@)),
                        cwd@,
                        *env,
                        Seq::empty(),
                    ) && is_spawn(
                        started,
                        old(client)@,
                        final(client)@,
                        pane_id,
                        rows,
                        cols,
                        cmd,
                        Seq::empty(),
                    ),
                Err(e) => argv@.len() == 0 && e == SpawnError::EmptyArgv && final(client)@ == old(
                    client,
                )@,
            },
            final(client)@.wf(),
    {
        let ghost before = client@;
        match launch::argv_pane_command(argv, cwd, env) {
            Ok(cmd) => {
                let ghost asked = cmd@;
                let started = Self::spawn_command_builder(pane_id, rows, cols, cmd, client, None);
                assert(is_spawn(
                    started,
                    before,
                    client@,
                    pane_id,
                    rows,
                    cols,
                    asked,
                    Seq::empty(),
                ));
                Ok(started)
            },
            Err(e) => Err(e),
        }
    }
}

/// `started` is a pane launched on a daemon: a live shell that is still unclaimed
/// is claimed and taken over, any other pane is created.
pub open spec fn is_spawn(
    started: (PaneRuntime, Command),
    before: ClientView,
    after: ClientView,
    pane_id: PaneId,
    rows: u16,
    cols: u16,
    cmd: CommandView,
    history: Seq<char>,
) -> bool {
    exists|adopt: bool, claimed: ClientView|
        #[trigger] client::is_claim(before, pane_id.raw, adopt, claimed) && after
            == claimed.registered(pane_id.raw, true) && is_start(
            started,
            claimed,
            pane_id,
            rows,
            cols,
            cmd,
            history,
            adopt,
        )
}

/// An agent's state is read from its label; any other label is unknown.
pub proof fn labels_are_read(label: Seq<char>)
    ensures
        agent_state(label) is Working <==> label == "working"@,
        agent_state(label) is Blocked <==> label == "blocked"@,
        agent_state(label) is Idle <==> label == "idle"@,
        agent_state(label) is Unknown <==> label != "working"@ && label != "blocked"@ && label
            != "idle"@,
{
    reveal_strlit("working");
    reveal_strlit("blocked");
    reveal_strlit("idle");
    assert("working"@[0] != "blocked"@[0]);
    assert("working"@[0] != "idle"@[0]);
    assert("blocked"@[0] != "idle"@[0]);
}

/// What a signal tells the application: an agent's report, clipboard bytes and a
/// title as they are, about this pane; an empty title as none; a directory if it is
/// usable and new; modes nothing.
pub proof fn signals_become_events(
    rt: &mut PaneRuntime,
    signal: PaneSignal,
    cwd_is_dir: bool,
    r: Option<AppEvent>,
)
    requires
        call_ensures(PaneRuntime::handle_signal, (rt, signal, cwd_is_dir), r),
    ensures
        signal matches PaneSignal::Agent { agent, state, visible_blocker, visible_working } ==> (
        r matches Some(
            AppEvent::StateChanged {
                pane_id,
                agent: a,
                state: s,
                visible_blocker: b,
                visible_working: w,
                process_exited,
            },
        ) && pane_id == old(rt)@.pane_id && a == agent && b == visible_blocker && w
            == visible_working && !process_exited && (s is Working <==> state@ == "working"@) && (
        s is Blocked <==> state@ == "blocked"@) && (s is Idle <==> state@ == "idle"@)),
        signal matches PaneSignal::Clipboard(bytes) ==> r == Some(
            AppEvent::ClipboardWrite { content: bytes },
        ),
        signal matches PaneSignal::Title(text) ==> text@.len() > 0 ==> r == Some(
            AppEvent::TerminalTitleReported { pane_id: old(rt)@.pane_id, title: Some(text) },
        ),
        signal matches PaneSignal::Title(text) ==> text@.len() == 0 ==> r == Some(
            AppEvent::TerminalTitleReported { pane_id: old(rt)@.pane_id, title: None },
        ),
        signal is Modes ==> r is None,
        signal matches PaneSignal::Cwd(dir) ==> (r matches Some(e) ==> (
        e matches AppEvent::TerminalCwdReported { pane_id, cwd } && pane_id == old(rt)@.pane_id
            && cwd@ == vstd::utf8::encode_utf8(dir@))),
        signal is Cwd && !cwd_is_dir ==> r is None,
        signal matches PaneSignal::Cwd(dir) ==> cwd_is_dir && old(rt)@.reported_cwd is None ==> (
        r is Some <==> vstd::utf8::encode_utf8(dir@).len() > 0 && vstd::utf8::encode_utf8(dir@)[0]
            == '/' as u8),
{
    if let PaneSignal::Agent { state, .. } = signal {
        labels_are_read(state@);
    }
}

/// What a signal leaves behind: a published directory is remembered, modes are
/// mirrored, anything else leaves the pane as it was.
pub proof fn signals_leave_what_they_report(
    rt: &mut PaneRuntime,
    signal: PaneSignal,
    cwd_is_dir: bool,
    r: Option<AppEvent>,
)
    requires
        call_ensures(PaneRuntime::handle_signal, (rt, signal, cwd_is_dir), r),
    ensures
        signal is Agent || signal is Clipboard || signal is Title ==> final(rt)@ == old(rt)@,
        signal matches PaneSignal::Cwd(dir) ==> r is Some ==> final(rt)@.reported_cwd == Some(
            vstd::utf8::encode_utf8(dir@),
        ),
        signal is Cwd && r is None ==> final(rt)@.reported_cwd == old(rt)@.reported_cwd,
        signal is Cwd ==> final(rt)@.terminal == old(rt)@.terminal
            && final(rt)@.kitty_keyboard_flags == old(rt)@.kitty_keyboard_flags,
        signal matches PaneSignal::Modes(modes) ==> final(rt)@.kitty_keyboard_flags
            == modes.kitty_keyboard_flags && final(rt)@.reported_cwd == old(rt)@.reported_cwd && (
        old(rt)@.terminal matches TerminalView::Mirror(m) ==> final(rt)@.terminal
            == TerminalView::Mirror(m.reported(modes))),
        final(rt)@.pane_id == old(rt)@.pane_id,
        final(rt)@.io == old(rt)@.io,
        final(rt)@.size == old(rt)@.size,
        final(rt)@.child_pid == old(rt)@.child_pid,
        final(rt)@.preserve == old(rt)@.preserve,
        final(rt)@.adopted == old(rt)@.adopted,
{
}

/// A pane dies when the daemon said that its program exited, and only then.
pub proof fn panes_die_with_their_program(
    rt: PaneRuntime,
    client: &TermhostClient,
    r: Option<AppEvent>,
)
    requires
        call_ensures(PaneRuntime::exit_event, (&rt, client), r),
    ensures
        rt.io matches PaneRuntimeIo::Termhost(pane) ==> (r is Some <==> client@.states[pane.slot as int].exit is Some),
        rt.io is TestChannel ==> r is None,
        r matches Some(e) ==> e == (AppEvent::PaneDied { pane_id: rt.pane_id }),
{
}

/// What goes to a pane goes where it lives, as it is: to the daemon under the
/// pane's id, or into the test channel.
pub proof fn panes_are_reached_where_they_live(
    io: PaneRuntimeIo,
    bytes: Vec<u8>,
    write: PaneWrite,
    rows: u16,
    cols: u16,
    cell_width_px: u32,
    cell_height_px: u32,
    resize: PaneResize,
    fd: Result<i32, NoMasterFd>,
)
    requires
        call_ensures(PaneRuntimeIo::send_bytes, (&io, bytes), write),
        call_ensures(
            PaneRuntimeIo::resize,
            (&io, rows, cols, cell_width_px, cell_height_px),
            resize,
        ),
        call_ensures(PaneRuntimeIo::duplicate_handoff_fd, (&io,), fd),
    ensures
        io matches PaneRuntimeIo::Termhost(pane) ==> (write matches PaneWrite::Termhost(
            Command::Input { pane_id, data },
        ) && pane_id == pane.id && data@ == bytes@) && resize == PaneResize::Termhost(
            Command::Resize { pane_id: pane.id, cols, rows, cell_width_px, cell_height_px },
        ),
        io is TestChannel ==> (write matches PaneWrite::Channel(data) && data@ == bytes@) && resize
            == (PaneResize::Channel { rows, cols, cell_width_px, cell_height_px }),
        fd is Err,
        fd->Err_0 is Termhost <==> io is Termhost,
{
}

/// A started pane has the size asked for, no child of its own, nothing reported
/// yet, and lives at the daemon under its id. An adopted one asks for a fresh
/// picture; a new one asks for its program, by name and arguments, in its directory
/// and with its environment and history.
pub proof fn panes_start_as_asked(
    started: (PaneRuntime, Command),
    before: ClientView,
    pane_id: PaneId,
    rows: u16,
    cols: u16,
    cmd: CommandView,
    history: Seq<char>,
    adopt: bool,
    k: int,
)
    requires
        is_start(started, before, pane_id, rows, cols, cmd, history, adopt),
    ensures
        started.0@.pane_id == pane_id,
        started.0@.size == (rows, cols, 0u32, 0u32),
        started.0@.child_pid == 0,
        started.0@.reported_cwd is None,
        started.0@.kitty_keyboard_flags == 0,
        !started.0@.preserve,
        started.0@.adopted == adopt,
        started.0@.io matches PaneRuntimeIo::Termhost(pane) && pane.id == pane_id.raw,
        started.0@.terminal is Mirror,
        adopt ==> started.1 == (Command::RequestResync { pane_id: pane_id.raw }),
        !adopt ==> (started.1 matches Command::CreatePane {
            pane_id: id,
            cols: c,
            rows: l,
            cell_width_px,
            cell_height_px,
            cwd,
            command,
            args,
            env,
            initial_history,
        } && id == pane_id.raw && c == cols && l == rows && cell_width_px == 0 && cell_height_px
            == 0 && initial_history@ == history && (cmd.argv.len() > 0 ==> command@
            == fake_terminal::lossy_text(cmd.argv[0]) && args@.len() == cmd.argv.len() - 1) && (
        cmd.argv.len() == 0 ==> command@.len() == 0 && args@.len() == 0) && (0 <= k < cmd.argv.len()
            - 1 ==> args@[k]@ == fake_terminal::lossy_text(cmd.argv[k + 1])) && (cmd.cwd is Some ==> cwd@ == fake_terminal::lossy_text(cmd.cwd->0)) && (cmd.cwd is None
            ==> cwd@.len() == 0) && command::pairs_view(env@) == command::text_env(cmd.env)),
{
    if !adopt {
        let spec = choose|spec: PaneSpec| #[trigger]
            is_spec_of(spec, pane_id, rows, cols, cmd, history) && started.1
                == client::create_command(spec);
        assert(wire::texts_view(spec.args@).len() == spec.args@.len());
        if 0 <= k < cmd.argv.len() - 1 {
            assert(wire::texts_view(spec.args@)[k] == spec.args@[k]@);
            assert(wire::texts_view(spec.args@)[k] == args_of(cmd.argv)[k]);
        }
    }
}

/// Spawning under the id of an unclaimed survivor adopts it; under any other id it
/// creates the pane. Either way the id is registered and claimed.
pub proof fn survivors_are_adopted(
    started: (PaneRuntime, Command),
    before: ClientView,
    after: ClientView,
    pane_id: PaneId,
    rows: u16,
    cols: u16,
    cmd: CommandView,
    history: Seq<char>,
)
    requires
        is_spawn(started, before, after, pane_id, rows, cols, cmd, history),
    ensures
        before.unclaimed.contains(pane_id.raw) ==> started.0@.adopted && started.1 == (
        Command::RequestResync { pane_id: pane_id.raw }),
        !before.unclaimed.contains(pane_id.raw) ==> !started.0@.adopted && started.1 is CreatePane,
        after.panes.contains_key(pane_id.raw),
        !after.unclaimed.contains(pane_id.raw),
        after.surviving == before.surviving,
        after.states.len() == before.states.len() + 1,
        after.states.last().has_sink,
{
}

} // verus!
