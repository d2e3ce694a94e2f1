//! The client's state: which panes are registered, what each has reported, and
//! which daemon panes survived a reconnect. Sending and receiving happen
//! outside; every operation here takes the event and gives back what to send
//! or whom to tell.

use std::collections::HashMap;
use vstd::prelude::*;
use crate::termhost::grid;
use crate::termhost::grid::{GridView, PaneGrid};
use crate::termhost::proto::{Command, Event, PROTOCOL_VERSION};

verus! {

broadcast use vstd::std_specs::hash::group_hash_axioms;

/// A per-pane report from the daemon, out of band from the cell grid.
#[derive(Debug, Clone, PartialEq, Eq)]
pub enum PaneSignal {
    /// Working directory reported via OSC 7.
    Cwd(String),
    /// Agent detection result.
    Agent {
        /// Canonical agent label, or "" for a plain shell.
        agent: String,
        /// idle | working | blocked | unknown.
        state: String,
        visible_blocker: bool,
        visible_working: bool,
    },
    /// Clipboard write reported via OSC 52 (decoded bytes; empty is a clear).
    Clipboard(Vec<u8>),
    /// Window title reported via OSC 0/2 (empty is a title-clear).
    Title(String),
    /// Input-affecting DEC modes changed.
    Modes(PaneInputModes),
}

/// The pane's input-affecting DEC mode state. `mouse_mode` and
/// `mouse_encoding` are the raw wire codes.
#[derive(Debug, Clone, Copy, PartialEq, Eq, Structural)]
pub struct PaneInputModes {
    pub alternate_screen: bool,
    pub application_cursor: bool,
    pub bracketed_paste: bool,
    pub focus_reporting: bool,
    pub mouse_mode: u8,
    pub mouse_encoding: u8,
    pub mouse_alternate_scroll: bool,
    pub synchronized_output: bool,
    pub kitty_keyboard_flags: u16,
    /// xterm XTMODKEYS modifyOtherKeys (CSI >4;Nm).
    pub modify_other_keys: bool,
}

impl Default for PaneInputModes {
    /// Nothing set.
    fn default() -> (r: Self)
        ensures
            r == (PaneInputModes {
                alternate_screen: false,
                application_cursor: false,
                bracketed_paste: false,
                focus_reporting: false,
                mouse_mode: 0,
                mouse_encoding: 0,
                mouse_alternate_scroll: false,
                synchronized_output: false,
                kitty_keyboard_flags: 0,
                modify_other_keys: false,
            }),
    {
        PaneInputModes {
            alternate_screen: false,
            application_cursor: false,
            bracketed_paste: false,
            focus_reporting: false,
            mouse_mode: 0,
            mouse_encoding: 0,
            mouse_alternate_scroll: false,
            synchronized_output: false,
            kitty_keyboard_flags: 0,
            modify_other_keys: false,
        }
    }
}

/// Parameters for spawning a pane on the daemon.
#[derive(Debug, Clone, PartialEq, Eq)]
pub struct PaneSpec {
    pub pane_id: u32,
    pub cols: u16,
    pub rows: u16,
    pub cell_width_px: u32,
    pub cell_height_px: u32,
    pub cwd: String,
    pub command: String,
    pub args: Vec<String>,
    /// Extra environment, keys ascending.
    pub env: Vec<(String, String)>,
    /// VT-encoded scrollback to seed before the child runs.
    pub initial_history: String,
}

impl Default for PaneSpec {
    /// Zeros and empty texts.
    fn default() -> (r: Self)
        ensures
            r.pane_id == 0,
            r.cols == 0,
            r.rows == 0,
            r.cell_width_px == 0,
            r.cell_height_px == 0,
            r.cwd@.len() == 0,
            r.command@.len() == 0,
            r.args@.len() == 0,
            r.env@.len() == 0,
            r.initial_history@.len() == 0,
    {
        PaneSpec {
            pane_id: 0,
            cols: 0,
            rows: 0,
            cell_width_px: 0,
            cell_height_px: 0,
            cwd: String::new(),
            command: String::new(),
            args: Vec::new(),
            env: Vec::new(),
            initial_history: String::new(),
        }
    }
}

/// What one pane has reported and who waits on it.
pub struct PaneState {
    pub grid: PaneGrid,
    pub exit: Option<i32>,
    /// An owner listens for the pane's signals.
    pub has_sink: bool,
    /// A selection request is waiting for its reply.
    pub pending_selection: bool,
    /// A text request is waiting for its reply.
    pub pending_text: bool,
}

/// What a [`PaneState`] holds.
pub struct PaneStateView {
    pub grid: GridView,
    pub exit: Option<i32>,
    pub has_sink: bool,
    pub pending_selection: bool,
    pub pending_text: bool,
}

impl View for PaneState {
    type V = PaneStateView;

    open spec fn view(&self) -> PaneStateView {
        PaneStateView {
            grid: self.grid@,
            exit: self.exit,
            has_sink: self.has_sink,
            pending_selection: self.pending_selection,
            pending_text: self.pending_text,
        }
    }
}

/// The state of a pane that has reported nothing.
pub open spec fn pane_fresh(has_sink: bool) -> PaneStateView {
    PaneStateView {
        grid: grid::grid_fresh(),
        exit: None,
        has_sink,
        pending_selection: false,
        pending_text: false,
    }
}

/// What is to be done with an event beyond the state it changed.
#[derive(Debug, PartialEq, Eq)]
pub enum Delivery {
    Nothing,
    /// Hand the signal to the pane's owner.
    Signal { slot: usize, signal: PaneSignal },
    /// Hand the reply to the selection request's waiter.
    Selection { slot: usize, text: String },
    /// Hand the reply to the text request's waiter.
    Text { slot: usize, text: String },
    /// The daemon complained.
    Warning { pane_id: u32, message: String },
}

/// Why a daemon did not accept the connection.
#[derive(Debug, PartialEq, Eq)]
pub enum HandshakeError {
    /// It answered the hello with an error.
    Refused(String),
    /// It answered the hello with something else than a welcome.
    Unexpected(Event),
}

/// A connection's state. Registered pane ids map to slots of the state table;
/// a handle keeps its slot when its id is registered anew or closed.
pub struct TermhostClient {
    pub(crate) panes: HashMap<u32, usize>,
    pub(crate) states: Vec<PaneState>,
    /// Pane ids the daemon already had live at connect.
    pub(crate) surviving_panes: Vec<u32>,
    /// Surviving pane ids not yet claimed by an adoption.
    pub(crate) unclaimed_surviving: Vec<u32>,
}

/// What a [`TermhostClient`] holds.
pub struct ClientView {
    pub panes: Map<u32, usize>,
    pub states: Seq<PaneStateView>,
    pub surviving: Seq<u32>,
    pub unclaimed: Seq<u32>,
}

/// The contents of a state table.
pub open spec fn states_view(s: Seq<PaneState>) -> Seq<PaneStateView> {
    s.map_values(|p: PaneState| p@)
}

impl View for TermhostClient {
    type V = ClientView;

    open(crate) spec fn view(&self) -> ClientView {
        ClientView {
            panes: self.panes@,
            states: states_view(self.states@),
            surviving: self.surviving_panes@,
            unclaimed: self.unclaimed_surviving@,
        }
    }
}

impl ClientView {
    /// Every registered id has a slot of its own, and every grid is complete.
    pub open spec fn wf(self) -> bool {
        &&& forall|id: u32| #[trigger] self.panes.contains_key(id) ==> self.panes[id]
            < self.states.len()
        &&& forall|a: u32, b: u32|
            #![trigger self.panes[a], self.panes[b]]
            self.panes.contains_key(a) && self.panes.contains_key(b) && self.panes[a]
                == self.panes[b] ==> a == b
        &&& forall|i: int| 0 <= i < self.states.len() ==> (#[trigger] self.states[i]).grid.wf()
    }

    /// The state of a registered pane.
    pub open spec fn pane(self, id: u32) -> PaneStateView {
        self.states[self.panes[id] as int]
    }

    /// The client after registering `id` afresh.
    pub open spec fn registered(self, id: u32, has_sink: bool) -> ClientView {
        ClientView {
            panes: self.panes.insert(id, self.states.len() as usize),
            states: self.states.push(pane_fresh(has_sink)),
            ..self
        }
    }

    /// The client with one slot's state replaced.
    pub open spec fn with_state(self, slot: int, state: PaneStateView) -> ClientView {
        ClientView { states: self.states.update(slot, state), ..self }
    }

    /// The survivors no registered pane stands for, in the daemon's order.
    pub open spec fn orphans(self) -> Seq<u32> {
        self.surviving.filter(|id: u32| !self.panes.contains_key(id))
    }
}

/// The pane an event is about.
pub open spec fn event_pane(ev: Event) -> Option<u32> {
    match ev {
        Event::Welcome { .. } => None,
        Event::PaneFrame { pane_id, .. } => Some(pane_id),
        Event::PaneCwd { pane_id, .. } => Some(pane_id),
        Event::PaneAgent { pane_id, .. } => Some(pane_id),
        Event::PaneClipboard { pane_id, .. } => Some(pane_id),
        Event::PaneTitle { pane_id, .. } => Some(pane_id),
        Event::PaneSelection { pane_id, .. } => Some(pane_id),
        Event::PaneText { pane_id, .. } => Some(pane_id),
        Event::PaneModes { pane_id, .. } => Some(pane_id),
        Event::PaneExited { pane_id, .. } => Some(pane_id),
        Event::Error { .. } => None,
    }
}

/// What an event does to its pane's state. A reply uses up the request that
/// waits for it.
pub open spec fn pane_after(p: PaneStateView, ev: Event) -> PaneStateView {
    match ev {
        Event::PaneFrame { frame, .. } => PaneStateView { grid: p.grid.folded(frame), ..p },
        Event::PaneSelection { .. } => PaneStateView { pending_selection: false, ..p },
        Event::PaneText { .. } => PaneStateView { pending_text: false, ..p },
        Event::PaneExited { exit_code, .. } => PaneStateView { exit: Some(exit_code), ..p },
        _ => p,
    }
}

/// The signal an event carries.
pub open spec fn event_signal(ev: Event) -> Option<PaneSignal> {
    match ev {
        Event::PaneCwd { cwd, .. } => Some(PaneSignal::Cwd(cwd)),
        Event::PaneAgent { agent, state, visible_blocker, visible_working, .. } => Some(
            PaneSignal::Agent { agent, state, visible_blocker, visible_working },
        ),
        Event::PaneClipboard { data, .. } => Some(PaneSignal::Clipboard(data)),
        Event::PaneTitle { title, .. } => Some(PaneSignal::Title(title)),
        Event::PaneModes {
            alternate_screen,
            application_cursor,
            bracketed_paste,
            focus_reporting,
            mouse_mode,
            mouse_encoding,
            mouse_alternate_scroll,
            synchronized_output,
            kitty_keyboard_flags,
            modify_other_keys,
            ..
        } => Some(
            PaneSignal::Modes(
                PaneInputModes {
                    alternate_screen,
                    application_cursor,
                    bracketed_paste,
                    focus_reporting,
                    mouse_mode,
                    mouse_encoding,
                    mouse_alternate_scroll,
                    synchronized_output,
                    kitty_keyboard_flags,
                    modify_other_keys,
                },
            ),
        ),
        _ => None,
    }
}

/// What is to be done with an event for a pane in state `p` at `slot`: signals
/// go to a listening owner, replies to a waiting request, anything else
/// nowhere.
pub open spec fn pane_delivery(p: PaneStateView, slot: usize, ev: Event) -> Delivery {
    match (event_signal(ev), ev) {
        (Some(signal), _) => if p.has_sink {
            Delivery::Signal { slot, signal }
        } else {
            Delivery::Nothing
        },
        (_, Event::PaneSelection { text, .. }) => if p.pending_selection {
            Delivery::Selection { slot, text }
        } else {
            Delivery::Nothing
        },
        (_, Event::PaneText { text, .. }) => if p.pending_text {
            Delivery::Text { slot, text }
        } else {
            Delivery::Nothing
        },
        _ => Delivery::Nothing,
    }
}

/// The client after an event: only the pane it is about changes, and only if
/// it is registered.
pub open spec fn client_after(c: ClientView, ev: Event) -> ClientView {
    match event_pane(ev) {
        Some(id) => if c.panes.contains_key(id) {
            c.with_state(c.panes[id] as int, pane_after(c.pane(id), ev))
        } else {
            c
        },
        None => c,
    }
}

/// What is to be done with an event.
pub open spec fn delivery(c: ClientView, ev: Event) -> Delivery {
    match (event_pane(ev), ev) {
        (Some(id), _) => if c.panes.contains_key(id) {
            pane_delivery(c.pane(id), c.panes[id], ev)
        } else {
            Delivery::Nothing
        },
        (None, Event::Error { pane_id, message }) => Delivery::Warning { pane_id, message },
        _ => Delivery::Nothing,
    }
}

impl PaneState {
    /// The state of a pane that has reported nothing.
    pub fn new(has_sink: bool) -> (r: Self)
        ensures
            r@ == pane_fresh(has_sink),
            r@.grid.wf(),
    {
        PaneState {
            grid: PaneGrid::new(),
            exit: None,
            has_sink,
            pending_selection: false,
            pending_text: false,
        }
    }

    /// Takes in an event for this pane.
    pub fn receive(&mut self, slot: usize, ev: Event) -> (r: Delivery)
        ensures
            final(self)@ == pane_after(old(self)@, ev),
            old(self)@.grid.wf() ==> final(self)@.grid.wf(),
            event_pane(ev) is Some ==> r == pane_delivery(old(self)@, slot, ev),
            event_pane(ev) is None ==> r == Delivery::Nothing,
    {
        let signal = match ev {
            Event::PaneFrame { frame, .. } => {
                self.grid.apply(frame);
                return Delivery::Nothing;
            },
            Event::PaneExited { exit_code, .. } => {
                self.exit = Some(exit_code);
                return Delivery::Nothing;
            },
            Event::PaneSelection { text, .. } => {
                let waiting = self.pending_selection;
                self.pending_selection = false;
                return if waiting {
                    Delivery::Selection { slot, text }
                } else {
                    Delivery::Nothing
                };
            },
            Event::PaneText { text, .. } => {
                let waiting = self.pending_text;
                self.pending_text = false;
                return if waiting {
                    Delivery::Text { slot, text }
                } else {
                    Delivery::Nothing
                };
            },
            Event::PaneCwd { cwd, .. } => PaneSignal::Cwd(cwd),
            Event::PaneAgent { agent, state, visible_blocker, visible_working, .. } => {
                PaneSignal::Agent { agent, state, visible_blocker, visible_working }
            },
            Event::PaneClipboard { data, .. } => PaneSignal::Clipboard(data),
            Event::PaneTitle { title, .. } => PaneSignal::Title(title),
            Event::PaneModes {
                alternate_screen,
                application_cursor,
                bracketed_paste,
                focus_reporting,
                mouse_mode,
                mouse_encoding,
                mouse_alternate_scroll,
                synchronized_output,
                kitty_keyboard_flags,
                modify_other_keys,
                ..
            } => {
                PaneSignal::Modes(
                    PaneInputModes {
                        alternate_screen,
                        application_cursor,
                        bracketed_paste,
                        focus_reporting,
                        mouse_mode,
                        mouse_encoding,
                        mouse_alternate_scroll,
                        synchronized_output,
                        kitty_keyboard_flags,
                        modify_other_keys,
                    },
                )
            },
            Event::Welcome { .. } => {
                return Delivery::Nothing;
            },
            Event::Error { .. } => {
                return Delivery::Nothing;
            },
        };
        if self.has_sink {
            Delivery::Signal { slot, signal }
        } else {
            Delivery::Nothing
        }
    }
}

/// The pane an event is about.
fn pane_of(ev: &Event) -> (r: Option<u32>)
    ensures
        r == event_pane(*ev),
{
    match ev {
        Event::Welcome { .. } => None,
        Event::PaneFrame { pane_id, .. } => Some(*pane_id),
        Event::PaneCwd { pane_id, .. } => Some(*pane_id),
        Event::PaneAgent { pane_id, .. } => Some(*pane_id),
        Event::PaneClipboard { pane_id, .. } => Some(*pane_id),
        Event::PaneTitle { pane_id, .. } => Some(*pane_id),
        Event::PaneSelection { pane_id, .. } => Some(*pane_id),
        Event::PaneText { pane_id, .. } => Some(*pane_id),
        Event::PaneModes { pane_id, .. } => Some(*pane_id),
        Event::PaneExited { pane_id, .. } => Some(*pane_id),
        Event::Error { .. } => None,
    }
}

impl TermhostClient {
    /// Takes in one event from the daemon.
    pub fn handle_event(&mut self, ev: Event) -> (r: Delivery)
        requires
            old(self)@.wf(),
        ensures
            final(self)@ == client_after(old(self)@, ev),
            final(self)@.wf(),
            r == delivery(old(self)@, ev),
    {
        let ghost before = self@;
        match pane_of(&ev) {
            Some(id) => {
                let slot = match self.panes.get(&id) {
                    Some(slot) => *slot,
                    None => {
                        return Delivery::Nothing;
                    },
                };
                assert(before.panes.contains_key(id) && before.panes[id] == slot);
                assert(before.states[slot as int] == self.states@[slot as int]@);
                let r = self.states[slot].receive(slot, ev);
                assert(self@.states =~= before.states.update(
                    slot as int,
                    pane_after(before.pane(id), ev),
                ));
                r
            },
            None => match ev {
                Event::Error { pane_id, message } => Delivery::Warning { pane_id, message },
                _ => Delivery::Nothing,
            },
        }
    }

    /// The greeting that opens a connection.
    pub fn hello() -> (r: Command)
        ensures
            r == (Command::Hello { protocol_version: PROTOCOL_VERSION }),
    {
        Command::Hello { protocol_version: PROTOCOL_VERSION }
    }

    /// Builds the client from the daemon's answer to the greeting. The panes the
    /// daemon reports live are the survivors, all of them yet unclaimed.
    pub fn connect(reply: Event) -> (r: Result<Self, HandshakeError>)
        ensures
            match welcome_panes(reply) {
                Ok(panes) => r is Ok && r->Ok_0@ == client_connected(panes@) && r->Ok_0@.wf(),
                Err(e) => r is Err && r->Err_0 == e,
            },
    {
        let panes = match welcome(reply) {
            Ok(panes) => panes,
            Err(e) => {
                return Err(e);
            },
        };
        let unclaimed = panes.clone();
        assert(unclaimed@ =~= panes@);
        let client = TermhostClient {
            panes: HashMap::new(),
            states: Vec::new(),
            surviving_panes: panes,
            unclaimed_surviving: unclaimed,
        };
        assert(client@.states =~= Seq::<PaneStateView>::empty());
        Ok(client)
    }

    /// Decides on a fresh connection to the daemon and, when it is accepted,
    /// what to send on it: one resync request per registered pane.
    pub fn reattach(&self, reply: Event) -> (r: Result<Vec<Command>, HandshakeError>)
        ensures
            match welcome_panes(reply) {
                Ok(_) => r is Ok && is_resync_of(r->Ok_0@, self@.panes.dom()),
                Err(e) => r is Err && r->Err_0 == e,
            },
    {
        match welcome(reply) {
            Ok(_) => {},
            Err(e) => {
                return Err(e);
            },
        }
        let mut out: Vec<Command> = Vec::new();
        let ghost mut ids: Seq<u32> = Seq::empty();
        let ghost all = vstd::std_specs::iter::IteratorSpec::remaining(
            &vstd::std_specs::hash::spec_keys_iter(&self.panes),
        ).unref();
        for id in it: self.panes.keys()
            invariant
                it.seq().unref() == all,
                ids == all.take(it.index() as int),
                out@ == ids.map_values(|id: u32| Command::RequestResync { pane_id: id }),
        {
            proof {
                ids = ids.push(*id);
            }
            out.push(Command::RequestResync { pane_id: *id });
            assert(out@ =~= ids.map_values(|id: u32| Command::RequestResync { pane_id: id }));
        }
        proof {
            assert(ids =~= all);
            assert(ids.to_set() == self@.panes.dom());
            assert(is_resync_of(out@, self@.panes.dom()));
        }
        Ok(out)
    }

    /// Pane ids the daemon already had live at connect.
    pub fn surviving_panes(&self) -> (r: &Vec<u32>)
        ensures
            r@ == self@.surviving,
    {
        &self.surviving_panes
    }

    /// Claims a surviving pane for adoption. A survivor can be claimed once;
    /// later spawns with the same id create a fresh daemon pane instead.
    pub fn claim_surviving_pane(&mut self, pane_id: u32) -> (r: bool)
        ensures
            is_claim(old(self)@, pane_id, r, final(self)@),
    {
        let ghost before = self.unclaimed_surviving@;
        let mut left: Vec<u32> = Vec::new();
        let mut taken = false;
        let mut i: usize = 0;
        while i < self.unclaimed_surviving.len()
            invariant
                self@ == old(self)@,
                before == self.unclaimed_surviving@,
                i <= before.len(),
                taken == before.take(i as int).contains(pane_id),
                !left@.contains(pane_id),
                forall|x: u32|
                    x != pane_id ==> left@.contains(x) == #[trigger] before.take(i as int).contains(
                        x,
                    ),
            decreases before.len() - i,
        {
            let id = self.unclaimed_surviving[i];
            proof {
                assert(before.take(i + 1) =~= before.take(i as int).push(id));
                push_adds_one(before.take(i as int), id);
                push_adds_one(left@, id);
            }
            if id == pane_id {
                taken = true;
            } else {
                left.push(id);
            }
            i += 1;
        }
        assert(before.take(i as int) =~= before);
        self.unclaimed_surviving = left;
        taken
    }

    /// The commands that close every survivor no registered pane stands for.
    pub fn close_orphans(&self) -> (r: Vec<Command>)
        ensures
            r@ == self@.orphans().map_values(|id: u32| Command::ClosePane { pane_id: id }),
    {
        let mut out: Vec<Command> = Vec::new();
        let ghost keep = |id: u32| !self@.panes.contains_key(id);
        let ghost close = |id: u32| Command::ClosePane { pane_id: id };
        let mut i: usize = 0;
        proof {
            reveal(Seq::filter);
            assert(self@.surviving.take(0).filter(keep) =~= Seq::<u32>::empty());
        }
        while i < self.surviving_panes.len()
            invariant
                i <= self.surviving_panes.len(),
                keep == (|id: u32| !self@.panes.contains_key(id)),
                close == (|id: u32| Command::ClosePane { pane_id: id }),
                out@ == self@.surviving.take(i as int).filter(keep).map_values(close),
            decreases self.surviving_panes.len() - i,
        {
            let id = self.surviving_panes[i];
            let ghost done = self@.surviving.take(i as int);
            proof {
                reveal(Seq::filter);
                assert(self@.surviving.take(i + 1).drop_last() =~= done);
            }
            if !self.panes.contains_key(&id) {
                out.push(Command::ClosePane { pane_id: id });
                assert(out@ =~= done.filter(keep).push(id).map_values(close));
            }
            i += 1;
        }
        assert(self@.surviving.take(i as int) =~= self@.surviving);
        out
    }

    /// Registers a pane that already lives in the daemon and gives the resync
    /// request that makes it repaint.
    pub fn adopt_pane(&mut self, pane_id: u32, has_sink: bool) -> (r: (TermhostPane, Command))
        requires
            old(self)@.wf(),
        ensures
            final(self)@ == old(self)@.registered(pane_id, has_sink),
            final(self)@.wf(),
            r.0.id == pane_id,
            r.0.slot == old(self)@.states.len(),
            r.1 == (Command::RequestResync { pane_id }),
    {
        let pane = self.register(pane_id, has_sink);
        (pane, Command::RequestResync { pane_id })
    }

    /// Registers a new pane and gives the command that spawns it.
    pub fn create_pane(&mut self, spec: PaneSpec, has_sink: bool) -> (r: (TermhostPane, Command))
        requires
            old(self)@.wf(),
        ensures
            final(self)@ == old(self)@.registered(spec.pane_id, has_sink),
            final(self)@.wf(),
            r.0.id == spec.pane_id,
            r.0.slot == old(self)@.states.len(),
            r.1 == create_command(spec),
    {
        let pane = self.register(spec.pane_id, has_sink);
        (
            pane,
            Command::CreatePane {
                pane_id: spec.pane_id,
                cols: spec.cols,
                rows: spec.rows,
                cell_width_px: spec.cell_width_px,
                cell_height_px: spec.cell_height_px,
                cwd: spec.cwd,
                command: spec.command,
                args: spec.args,
                env: spec.env,
                initial_history: spec.initial_history,
            },
        )
    }

    fn register(&mut self, pane_id: u32, has_sink: bool) -> (r: TermhostPane)
        requires
            old(self)@.wf(),
        ensures
            final(self)@ == old(self)@.registered(pane_id, has_sink),
            final(self)@.wf(),
            r.id == pane_id,
            r.slot == old(self)@.states.len(),
    {
        let ghost before = self@;
        let slot = self.states.len();
        self.states.push(PaneState::new(has_sink));
        self.panes.insert(pane_id, slot);
        assert(self@.states =~= before.states.push(pane_fresh(has_sink)));
        assert(self@ == before.registered(pane_id, has_sink));
        TermhostPane { id: pane_id, slot }
    }

    /// The command that makes a daemon exit and tear down its panes.
    pub fn request_shutdown(&self) -> (r: Command)
        ensures
            r == Command::Shutdown,
    {
        Command::Shutdown
    }
}

/// Claiming `id` of `before` answers `taken` and leaves `after`: the claim
/// succeeds iff `id` is unclaimed, and then `id` is not unclaimed any more. Every
/// other id stays as it was.
pub open spec fn is_claim(before: ClientView, id: u32, taken: bool, after: ClientView) -> bool {
    &&& taken == before.unclaimed.contains(id)
    &&& after == ClientView { unclaimed: after.unclaimed, ..before }
    &&& !after.unclaimed.contains(id)
    &&& forall|x: u32|
        x != id ==> #[trigger] after.unclaimed.contains(x) == before.unclaimed.contains(x)
}

/// The client right after a connection was accepted.
pub open spec fn client_connected(surviving: Seq<u32>) -> ClientView {
    ClientView { panes: Map::empty(), states: Seq::empty(), surviving, unclaimed: surviving }
}

/// The live panes a welcome reports, or why the answer is not an accepting
/// welcome.
pub open spec fn welcome_panes(reply: Event) -> Result<Vec<u32>, HandshakeError> {
    match reply {
        Event::Welcome { error, panes, .. } => if error@.len() > 0 {
            Err(HandshakeError::Refused(error))
        } else {
            Ok(panes)
        },
        other => Err(HandshakeError::Unexpected(other)),
    }
}

/// Reads the daemon's answer to the greeting.
pub fn welcome(reply: Event) -> (r: Result<Vec<u32>, HandshakeError>)
    ensures
        r == welcome_panes(reply),
{
    match reply {
        Event::Welcome { error, panes, .. } => {
            if !error.as_str().is_empty() {
                Err(HandshakeError::Refused(error))
            } else {
                Ok(panes)
            }
        },
        other => Err(HandshakeError::Unexpected(other)),
    }
}

/// `commands` asks for a resync of every pane in `ids`, once each.
pub open spec fn is_resync_of(commands: Seq<Command>, ids: Set<u32>) -> bool {
    exists|order: Seq<u32>|
        #![trigger order.to_set()]
        order.no_duplicates() && order.to_set() == ids && commands == order.map_values(
            |id: u32| Command::RequestResync { pane_id: id },
        )
}

/// The command that spawns a pane.
pub open spec fn create_command(spec: PaneSpec) -> Command {
    Command::CreatePane {
        pane_id: spec.pane_id,
        cols: spec.cols,
        rows: spec.rows,
        cell_width_px: spec.cell_width_px,
        cell_height_px: spec.cell_height_px,
        cwd: spec.cwd,
        command: spec.command,
        args: spec.args,
        env: spec.env,
        initial_history: spec.initial_history,
    }
}

proof fn push_adds_one(s: Seq<u32>, id: u32)
    ensures
        forall|x: u32| #[trigger] s.push(id).contains(x) == (s.contains(x) || x == id),
{
    assert forall|x: u32| #[trigger] s.push(id).contains(x) == (s.contains(x) || x == id) by {
        if s.contains(x) {
            assert(s.push(id)[s.index_of(x)] == x);
        }
        assert(s.push(id)[s.len() as int] == id);
        if s.push(id).contains(x) && x != id {
            assert(s[s.push(id).index_of(x)] == x);
        }
    }
}

/// How many of the attempted sends went through.
pub fn count_sent(sent: &Vec<bool>) -> (r: usize)
    ensures
        r == sent@.filter(|ok: bool| ok).len(),
{
    let mut n: usize = 0;
    let mut i: usize = 0;
    let ghost pick = |ok: bool| ok;
    proof {
        reveal(Seq::filter);
        assert(sent@.take(0).filter(pick) =~= Seq::<bool>::empty());
    }
    while i < sent.len()
        invariant
            pick == (|ok: bool| ok),
            n <= i <= sent.len(),
            n == sent@.take(i as int).filter(pick).len(),
        decreases sent.len() - i,
    {
        proof {
            reveal(Seq::filter);
            assert(sent@.take(i + 1).drop_last() =~= sent@.take(i as int));
        }
        if sent[i] {
            n += 1;
        }
        i += 1;
    }
    assert(sent@.take(i as int) =~= sent@);
    n
}

/// A handle to one pane on the daemon.
#[derive(Debug, Clone, Copy, PartialEq, Eq, Structural)]
pub struct TermhostPane {
    pub id: u32,
    pub slot: usize,
}

/// An event changes no pane's state but the one registered under its id: every
/// other slot, the registrations and the survivors stay as they were.
pub proof fn events_touch_one_pane(c: ClientView, ev: Event, slot: int)
    requires
        c.wf(),
        0 <= slot < c.states.len(),
        !(event_pane(ev) matches Some(id) && c.panes.contains_key(id) && c.panes[id] == slot),
    ensures
        client_after(c, ev).states[slot] == c.states[slot],
        client_after(c, ev).states.len() == c.states.len(),
        client_after(c, ev).panes == c.panes,
        client_after(c, ev).surviving == c.surviving,
        client_after(c, ev).unclaimed == c.unclaimed,
{
}

/// An event about an id that is not registered changes nothing and reaches
/// nobody.
pub proof fn unregistered_events_are_dropped(c: ClientView, ev: Event)
    requires
        event_pane(ev) matches Some(id) && !c.panes.contains_key(id),
    ensures
        client_after(c, ev) == c,
        delivery(c, ev) == Delivery::Nothing,
{
}

/// A reply uses up the request that waits for it: a late or duplicate reply
/// right after it has nowhere to go.
pub proof fn replies_are_handed_once(c: ClientView, first: Event, second: Event)
    requires
        c.wf(),
        event_pane(first) == event_pane(second),
        (first is PaneSelection && second is PaneSelection) || (first is PaneText
            && second is PaneText),
    ensures
        delivery(client_after(c, first), second) == Delivery::Nothing,
{
}

/// Events keep what a client is made of in order.
pub proof fn events_keep_the_client_well_formed(c: ClientView, ev: Event)
    requires
        c.wf(),
    ensures
        client_after(c, ev).wf(),
{
    if let Some(id) = event_pane(ev) {
        if c.panes.contains_key(id) {
            let after = client_after(c, ev);
            assert forall|i: int| 0 <= i < after.states.len() implies (
            #[trigger] after.states[i]).grid.wf() by {
                assert(c.states[i].grid.wf());
                if i == c.panes[id] {
                    if let Event::PaneFrame { frame, .. } = ev {
                        grid::folding_keeps_grids_complete(c.states[i].grid, frame);
                    }
                }
            }
        }
    }
}

/// `states` are the client before, between and after a run of claims: of each
/// claim, the id and the answer.
pub open spec fn is_claim_run(states: Seq<ClientView>, claims: Seq<(u32, bool)>) -> bool {
    &&& states.len() == claims.len() + 1
    &&& forall|k: int|
        0 <= k < claims.len() ==> is_claim(
            states[k],
            (#[trigger] claims[k]).0,
            claims[k].1,
            states[k + 1],
        )
}

proof fn claims_add_nothing(
    states: Seq<ClientView>,
    claims: Seq<(u32, bool)>,
    id: u32,
    a: int,
    b: int,
)
    requires
        is_claim_run(states, claims),
        0 <= a <= b <= claims.len(),
    ensures
        states[b].unclaimed.contains(id) ==> states[a].unclaimed.contains(id),
        states[b].surviving == states[a].surviving,
    decreases b - a,
{
    if a < b {
        claims_add_nothing(states, claims, id, a, b - 1);
        assert(is_claim(states[b - 1], claims[b - 1].0, claims[b - 1].1, states[b]));
    }
}

/// A survivor can be claimed once: whatever was claimed before and since, and
/// however often the daemon listed the id, every claim after the first claim of
/// an id fails.
pub proof fn survivors_are_claimed_once(
    states: Seq<ClientView>,
    claims: Seq<(u32, bool)>,
    first: int,
    again: int,
)
    requires
        is_claim_run(states, claims),
        0 <= first < again < claims.len(),
        claims[first].0 == claims[again].0,
    ensures
        !claims[again].1,
{
    let id = claims[first].0;
    assert(is_claim(states[first], id, claims[first].1, states[first + 1]));
    claims_add_nothing(states, claims, id, first + 1, again);
    assert(is_claim(states[again], id, claims[again].1, states[again + 1]));
}

/// Claims do not change what the daemon is known to have had live.
pub proof fn claims_leave_the_survivors(states: Seq<ClientView>, claims: Seq<(u32, bool)>, k: int)
    requires
        is_claim_run(states, claims),
        0 <= k <= claims.len(),
    ensures
        states[k].surviving == states[0].surviving,
{
    claims_add_nothing(states, claims, 0, 0, k);
}

/// The first claim of an id in a run succeeds if and only if the id was unclaimed
/// when the run began, whatever else was claimed before.
pub proof fn first_claims_find_their_survivor(
    states: Seq<ClientView>,
    claims: Seq<(u32, bool)>,
    first: int,
)
    requires
        is_claim_run(states, claims),
        0 <= first < claims.len(),
        forall|k: int| 0 <= k < first ==> (#[trigger] claims[k]).0 != claims[first].0,
    ensures
        claims[first].1 == states[0].unclaimed.contains(claims[first].0),
{
    first_claim_from(states, claims, first, first);
    assert(is_claim(states[first], claims[first].0, claims[first].1, states[first + 1]));
}

proof fn first_claim_from(states: Seq<ClientView>, claims: Seq<(u32, bool)>, first: int, k: int)
    requires
        is_claim_run(states, claims),
        0 <= k <= first < claims.len(),
        forall|k: int| 0 <= k < first ==> (#[trigger] claims[k]).0 != claims[first].0,
    ensures
        states[k].unclaimed.contains(claims[first].0) == states[0].unclaimed.contains(
            claims[first].0,
        ),
    decreases k,
{
    if k > 0 {
        first_claim_from(states, claims, first, k - 1);
        let claim = claims[k - 1];
        claims_are_independent(states[k - 1], claim.0, claim.1, states[k], claims[first].0);
    }
}

/// Claiming one survivor leaves every other one claimable as before.
pub proof fn claims_are_independent(
    before: ClientView,
    id: u32,
    taken: bool,
    after: ClientView,
    other: u32,
)
    requires
        is_claim(before, id, taken, after),
        other != id,
    ensures
        after.unclaimed.contains(other) == before.unclaimed.contains(other),
{
}

/// The orphans are exactly the survivors that no registered pane stands for;
/// an adopted one is not among them.
pub proof fn orphans_are_the_unadopted_survivors(c: ClientView, id: u32, has_sink: bool)
    ensures
        c.orphans().contains(id) == (c.surviving.contains(id) && !c.panes.contains_key(id)),
        !c.registered(id, has_sink).orphans().contains(id),
{
    broadcast use vstd::seq_lib::group_filter_ensures;

    let keep = |id: u32| !c.panes.contains_key(id);
    if c.surviving.contains(id) && keep(id) {
        c.surviving.lemma_filter_contains(keep, c.surviving.index_of(id));
    }
    if c.orphans().contains(id) {
        c.surviving.lemma_filter_contains_rev(keep, id);
        assert(keep(c.orphans()[c.orphans().index_of(id)]));
    }
    let d = c.registered(id, has_sink);
    let keep_d = |id: u32| !d.panes.contains_key(id);
    if d.orphans().contains(id) {
        assert(keep_d(d.orphans()[d.orphans().index_of(id)]));
    }
}

/// A signal of a registered pane reaches its listening owner as what it is: a
/// directory as a directory, a title as a title, clipboard bytes as such, and
/// agent and mode reports field for field.
pub proof fn signals_reach_their_owner(
    client: &mut TermhostClient,
    ev: Event,
    r: Delivery,
    id: u32,
    slot: usize,
)
    requires
        call_ensures(TermhostClient::handle_event, (client, ev), r),
        old(client)@.panes.contains_key(id),
        old(client)@.panes[id] == slot,
        old(client)@.states[slot as int].has_sink,
    ensures
        ev matches Event::PaneCwd { pane_id, cwd } ==> pane_id == id ==> r == (
        Delivery::Signal { slot, signal: PaneSignal::Cwd(cwd) }),
        ev matches Event::PaneTitle { pane_id, title } ==> pane_id == id ==> r == (
        Delivery::Signal { slot, signal: PaneSignal::Title(title) }),
        ev matches Event::PaneClipboard { pane_id, data } ==> pane_id == id ==> r == (
        Delivery::Signal { slot, signal: PaneSignal::Clipboard(data) }),
        ev matches Event::PaneAgent { pane_id, agent, state, visible_blocker, visible_working }
            ==> pane_id == id ==> r == (Delivery::Signal {
            slot,
            signal: PaneSignal::Agent { agent, state, visible_blocker, visible_working },
        }),
        ev matches Event::PaneModes {
            pane_id,
            alternate_screen,
            application_cursor,
            bracketed_paste,
            focus_reporting,
            mouse_mode,
            mouse_encoding,
            mouse_alternate_scroll,
            synchronized_output,
            kitty_keyboard_flags,
            modify_other_keys,
        } ==> pane_id == id ==> r == (Delivery::Signal {
            slot,
            signal: PaneSignal::Modes(
                PaneInputModes {
                    alternate_screen,
                    application_cursor,
                    bracketed_paste,
                    focus_reporting,
                    mouse_mode,
                    mouse_encoding,
                    mouse_alternate_scroll,
                    synchronized_output,
                    kitty_keyboard_flags,
                    modify_other_keys,
                },
            ),
        }),
{
}

/// What goes to nobody: signals of a pane without a listening owner, replies that
/// no request waits for, frames, exits and further welcomes. Complaints are passed
/// on with the pane they name.
pub proof fn the_rest_reaches_nobody(c: ClientView, ev: Event)
    ensures
        ev matches Event::PaneCwd { pane_id, .. } && !c.states[c.panes[pane_id] as int].has_sink
            ==> delivery(c, ev) == Delivery::Nothing,
        ev matches Event::PaneTitle { pane_id, .. } && !c.states[c.panes[pane_id] as int].has_sink
            ==> delivery(c, ev) == Delivery::Nothing,
        ev matches Event::PaneClipboard { pane_id, .. } && !c.states[c.panes[pane_id] as int].has_sink
            ==> delivery(c, ev) == Delivery::Nothing,
        ev matches Event::PaneAgent { pane_id, .. } && !c.states[c.panes[pane_id] as int].has_sink
            ==> delivery(c, ev) == Delivery::Nothing,
        ev matches Event::PaneModes { pane_id, .. } && !c.states[c.panes[pane_id] as int].has_sink
            ==> delivery(c, ev) == Delivery::Nothing,
        ev matches Event::PaneSelection { pane_id, .. }
            && !c.states[c.panes[pane_id] as int].pending_selection ==> delivery(c, ev)
            == Delivery::Nothing,
        ev matches Event::PaneText { pane_id, .. }
            && !c.states[c.panes[pane_id] as int].pending_text ==> delivery(c, ev)
            == Delivery::Nothing,
        ev is PaneFrame || ev is PaneExited || ev is Welcome ==> delivery(c, ev)
            == Delivery::Nothing,
        ev matches Event::Error { pane_id, message } ==> delivery(c, ev) == (Delivery::Warning {
            pane_id,
            message,
        }),
{
}

/// What an event leaves behind in its pane: a frame changes the grid, an exit the
/// exit code, and a reply takes its request away, each that alone. No other event
/// changes anything.
pub proof fn events_leave_what_they_report(c: ClientView, ev: Event, id: u32)
    requires
        c.wf(),
        c.panes.contains_key(id),
    ensures
        ({
            let before = c.states[c.panes[id] as int];
            let after = client_after(c, ev).states[c.panes[id] as int];
            &&& (ev matches Event::PaneFrame { pane_id, frame } ==> pane_id == id ==> after.grid
                == before.grid.folded(frame) && after.exit == before.exit && after.has_sink
                == before.has_sink && after.pending_selection == before.pending_selection
                && after.pending_text == before.pending_text)
            &&& (ev matches Event::PaneExited { pane_id, exit_code } ==> pane_id == id ==> after.exit
                == Some(exit_code) && after.grid == before.grid && after.has_sink == before.has_sink
                && after.pending_selection == before.pending_selection && after.pending_text
                == before.pending_text)
            &&& (ev matches Event::PaneSelection { pane_id, .. } ==> pane_id == id ==> !after.pending_selection && after.pending_text == before.pending_text
                && after.grid == before.grid && after.exit == before.exit && after.has_sink
                == before.has_sink)
            &&& (ev matches Event::PaneText { pane_id, .. } ==> pane_id == id ==> !after.pending_text
                && after.pending_selection == before.pending_selection && after.grid == before.grid
                && after.exit == before.exit && after.has_sink == before.has_sink)
        }),
        ev is PaneCwd || ev is PaneTitle || ev is PaneClipboard || ev is PaneAgent || ev is PaneModes
            || ev is Welcome || ev is Error ==> client_after(c, ev) == c,
        client_after(c, ev).panes == c.panes,
{
    let after = client_after(c, ev);
    if let Some(p) = event_pane(ev) {
        if c.panes.contains_key(p) {
            assert(c.states.update(c.panes[p] as int, c.pane(p)) =~= c.states);
        }
    }
}

/// Registering a pane gives its id a state of its own in which nothing has been
/// reported and nothing is waited for. Every other registration and every state
/// there was stays as it was, and so do the survivors.
pub proof fn registrations_start_afresh(c: ClientView, id: u32, has_sink: bool, other: u32, k: int)
    requires
        c.wf(),
        c.states.len() <= usize::MAX,
        other != id,
        0 <= k < c.states.len(),
    ensures
        ({
            let after = c.registered(id, has_sink);
            let fresh = after.states[after.panes[id] as int];
            &&& after.panes.contains_key(id)
            &&& after.panes[id] == c.states.len()
            &&& after.states.len() == c.states.len() + 1
            &&& fresh.has_sink == has_sink
            &&& fresh.exit is None
            &&& !fresh.pending_selection
            &&& !fresh.pending_text
            &&& !fresh.grid.has_frame
            &&& !fresh.grid.dirty
            &&& fresh.grid.cells.len() == 0
            &&& fresh.grid.cursor is None
            &&& fresh.grid.scroll is None
            &&& fresh.grid.hyperlinks.len() == 0
            &&& after.panes.contains_key(other) == c.panes.contains_key(other)
            &&& c.panes.contains_key(other) ==> after.panes[other] == c.panes[other]
            &&& after.states[k] == c.states[k]
            &&& after.surviving == c.surviving
            &&& after.unclaimed == c.unclaimed
            &&& after.wf()
        }),
{
    let after = c.registered(id, has_sink);
    assert forall|a: u32, b: u32|
        #![trigger after.panes[a], after.panes[b]]
        after.panes.contains_key(a) && after.panes.contains_key(b) && after.panes[a]
            == after.panes[b] implies a == b by {
        if a != id {
            assert(c.panes.contains_key(a));
        }
        if b != id {
            assert(c.panes.contains_key(b));
        }
        if a != id && b != id {
            assert(c.panes[a] == c.panes[b]);
        }
    }
    assert forall|i: int| 0 <= i < after.states.len() implies (
    #[trigger] after.states[i]).grid.wf() by {
        if i < c.states.len() {
            assert(after.states[i] == c.states[i]);
            assert(c.states[i].grid.wf());
        } else {
            assert(after.states[i] == pane_fresh(has_sink));
            assert(0 * 0 == 0) by (nonlinear_arith);
            assert(grid::grid_fresh().wf());
        }
    }
}

/// The command that spawns a pane says what its spec says, field for field.
pub proof fn spawning_asks_for_the_spec(spec: PaneSpec)
    ensures
        create_command(spec) matches Command::CreatePane {
            pane_id,
            cols,
            rows,
            cell_width_px,
            cell_height_px,
            cwd,
            command,
            args,
            env,
            initial_history,
        } && pane_id == spec.pane_id && cols == spec.cols && rows == spec.rows && cell_width_px
            == spec.cell_width_px && cell_height_px == spec.cell_height_px && cwd == spec.cwd
            && command == spec.command && args == spec.args && env == spec.env && initial_history
            == spec.initial_history,
{
}

/// A connection is accepted by a welcome without an error, and by nothing else.
/// What it reports live is what survived, all of it unclaimed, and no pane is
/// registered yet.
pub proof fn only_welcomes_are_accepted(reply: Event)
    ensures
        reply matches Event::Welcome { error, panes, .. } ==> error@.len() == 0 ==> welcome_panes(
            reply,
        ) == Ok::<Vec<u32>, HandshakeError>(panes),
        reply matches Event::Welcome { error, .. } ==> error@.len() > 0 ==> welcome_panes(reply)
            == Err::<Vec<u32>, HandshakeError>(HandshakeError::Refused(error)),
        !(reply is Welcome) ==> welcome_panes(reply) == Err::<Vec<u32>, HandshakeError>(
            HandshakeError::Unexpected(reply),
        ),
        forall|s: Seq<u32>|
            {
                let c = #[trigger] client_connected(s);
                c.surviving == s && c.unclaimed == s && c.panes.dom().len() == 0 && c.states.len()
                    == 0 && forall|id: u32| !c.panes.contains_key(id)
            },
{
}

/// Orphans are closed in the daemon's order: a survivor reported last comes last
/// if it is one, and leaves the others as they are if it is not.
pub proof fn orphans_keep_their_order(c: ClientView, id: u32)
    ensures
        ({
            let more = ClientView { surviving: c.surviving.push(id), ..c };
            more.orphans() == if c.panes.contains_key(id) {
                c.orphans()
            } else {
                c.orphans().push(id)
            }
        }),
{
    reveal(Seq::filter);
    assert(c.surviving.push(id).drop_last() =~= c.surviving);
}

/// A reply reaches the request that waits for it, with the text it carries, and
/// selections and texts are not mistaken for one another.
pub proof fn replies_reach_their_request(c: ClientView, ev: Event, id: u32)
    requires
        c.panes.contains_key(id),
    ensures
        ev matches Event::PaneSelection { pane_id, text } ==> pane_id == id
            ==> c.states[c.panes[id] as int].pending_selection ==> delivery(c, ev) == (
        Delivery::Selection { slot: c.panes[id], text }),
        ev matches Event::PaneText { pane_id, text } ==> pane_id == id
            ==> c.states[c.panes[id] as int].pending_text ==> delivery(c, ev) == (Delivery::Text {
            slot: c.panes[id],
            text,
        }),
{
}

/// An event that names a pane nobody registered is dropped, whatever its kind.
pub proof fn strangers_are_dropped(c: ClientView, ev: Event, id: u32)
    requires
        !c.panes.contains_key(id),
        ev matches Event::PaneFrame { pane_id, .. } ==> pane_id == id,
        ev matches Event::PaneCwd { pane_id, .. } ==> pane_id == id,
        ev matches Event::PaneAgent { pane_id, .. } ==> pane_id == id,
        ev matches Event::PaneClipboard { pane_id, .. } ==> pane_id == id,
        ev matches Event::PaneTitle { pane_id, .. } ==> pane_id == id,
        ev matches Event::PaneSelection { pane_id, .. } ==> pane_id == id,
        ev matches Event::PaneText { pane_id, .. } ==> pane_id == id,
        ev matches Event::PaneModes { pane_id, .. } ==> pane_id == id,
        ev matches Event::PaneExited { pane_id, .. } ==> pane_id == id,
    ensures
        client_after(c, ev) == c,
        !(ev is Error) ==> delivery(c, ev) == Delivery::Nothing,
{
}

/// The greeting names the first version of the protocol.
pub proof fn greetings_name_the_version(r: Command)
    requires
        call_ensures(TermhostClient::hello, (), r),
    ensures
        r == (Command::Hello { protocol_version: 1 }),
{
}

/// Adopting a pane registers it under its id, in a slot of its own, and asks for a
/// fresh picture of it; creating one registers it and asks for it to be spawned.
pub proof fn adopted_and_created_panes_are_registered(
    adopting: &mut TermhostClient,
    pane_id: u32,
    creating: &mut TermhostClient,
    spec: PaneSpec,
    has_sink: bool,
    adopted: (TermhostPane, Command),
    created: (TermhostPane, Command),
)
    requires
        call_ensures(TermhostClient::adopt_pane, (adopting, pane_id, has_sink), adopted),
        call_ensures(TermhostClient::create_pane, (creating, spec, has_sink), created),
    ensures
        adopted.0.id == pane_id,
        adopted.0.slot == old(adopting)@.states.len(),
        adopted.1 == (Command::RequestResync { pane_id }),
        final(adopting)@.panes.contains_key(pane_id),
        final(adopting)@.panes[pane_id] == adopted.0.slot,
        final(adopting)@.states.len() == old(adopting)@.states.len() + 1,
        final(adopting)@.states.last().has_sink == has_sink,
        created.0.id == spec.pane_id,
        created.0.slot == old(creating)@.states.len(),
        created.1 is CreatePane,
        final(creating)@.panes.contains_key(spec.pane_id),
        final(creating)@.panes[spec.pane_id] == created.0.slot,
        final(creating)@.states.last().has_sink == has_sink,
{
}

/// After a reconnect every registered pane is asked for afresh, each once, and
/// nothing else is asked; where the daemon refuses, that is the error.
pub proof fn reconnects_resync_every_pane(
    client: TermhostClient,
    reply: Event,
    r: Result<Vec<Command>, HandshakeError>,
    id: u32,
)
    requires
        call_ensures(TermhostClient::reattach, (&client, reply), r),
    ensures
        r is Ok <==> reply is Welcome && reply->Welcome_error@.len() == 0,
        r matches Ok(asked) ==> (client@.panes.contains_key(id) <==> asked@.contains(
            Command::RequestResync { pane_id: id },
        )),
        r matches Ok(asked) ==> forall|i: int|
            0 <= i < asked@.len() ==> (#[trigger] asked@[i]) is RequestResync,
        r matches Ok(asked) ==> asked@.no_duplicates(),
{
    if let Ok(asked) = r {
        let order = choose|order: Seq<u32>|
            #![trigger order.to_set()]
            order.no_duplicates() && order.to_set() == client@.panes.dom() && asked@
                == order.map_values(|id: u32| Command::RequestResync { pane_id: id });
        if client@.panes.contains_key(id) {
            assert(order.to_set().contains(id));
            let i = order.index_of(id);
            assert(asked@[i] == (Command::RequestResync { pane_id: id }));
        }
        if asked@.contains(Command::RequestResync { pane_id: id }) {
            let i = asked@.index_of(Command::RequestResync { pane_id: id });
            assert(order[i] == id);
            assert(order.to_set().contains(id));
        }
    }
}

/// How many sends went through: one more for every further one that did.
pub proof fn sends_are_counted(sent: Vec<bool>, n: usize, more: Vec<bool>, m: usize, ok: bool)
    requires
        call_ensures(count_sent, (&sent,), n),
        call_ensures(count_sent, (&more,), m),
        more@ == sent@.push(ok),
    ensures
        ok ==> m == n + 1,
        !ok ==> m == n,
        n <= sent@.len(),
        sent@.len() == 0 ==> n == 0,
{
    reveal(Seq::filter);
    assert(sent@.push(ok).drop_last() =~= sent@);
    sent@.lemma_filter_len(|ok: bool| ok);
}

} // verus!
