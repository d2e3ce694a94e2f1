//! Runtimes on a terminal double, for code that works on panes without a
//! daemon.

use vstd::prelude::*;
use crate::pane::command;
use crate::pane::command::{CommandBuilder, CommandView};
use crate::pane::cwd;
use crate::pane::fake_terminal;
use crate::pane::fake_terminal::FakePaneTerminal;
use crate::pane::runtime::{PaneId, PaneRuntime, PaneRuntimeIo, RuntimeView};
use crate::pane::terminal::{PaneTerminal, TerminalView};

verus! {

/// The runtime of a double on which a text was written. Dropping it ends
/// nothing.
pub open spec fn double_view(
    pane_id: PaneId,
    cols: u16,
    rows: u16,
    limit: usize,
    text: Seq<char>,
    reported_cwd: Option<Seq<u8>>,
) -> RuntimeView {
    RuntimeView {
        pane_id,
        terminal: TerminalView::Fake(fake_terminal::fake_fresh(cols, rows, limit).fed(text)),
        io: PaneRuntimeIo::TestChannel,
        size: (rows, cols, 0, 0),
        child_pid: 0,
        reported_cwd,
        kitty_keyboard_flags: 0,
        preserve: true,
        adopted: false,
    }
}

/// A program to run beside a double, in place of the pane's child.
#[derive(Debug)]
pub struct Subprocess {
    pub argv: Vec<Vec<u8>>,
    pub cwd: Option<Vec<u8>>,
    pub env: Vec<(String, String)>,
}

/// Whether a command names a program with arguments, and so is run.
pub open spec fn runs(cmd: CommandView) -> bool {
    cmd.argv.len() > 1
}

/// Scrollback of a spawned double, in bytes.
pub const SPAWNED_SCROLLBACK_BYTES: usize = 1048576;

proof fn utf8_reads_as_itself(t: Seq<char>)
    ensures
        vstd::utf8::valid_utf8(vstd::utf8::encode_utf8(t)),
        vstd::utf8::decode_utf8(vstd::utf8::encode_utf8(t)) == t,
{
    broadcast use vstd::utf8::encode_utf8_valid_utf8, vstd::utf8::encode_utf8_decode_utf8;

}

impl PaneRuntime {
    /// A double of a size, with some output written on it.
    pub fn test_with_channel_and_scrollback_bytes(
        cols: u16,
        rows: u16,
        scrollback_limit_bytes: usize,
        bytes: &[u8],
    ) -> (r: Self)
        requires
            fake_terminal::accepted(fake_terminal::lossy_text(bytes@), 0),
        ensures
            r@ == double_view(
                PaneId { raw: 0 },
                cols,
                rows,
                scrollback_limit_bytes,
                fake_terminal::lossy_text(bytes@),
                None,
            ),
            r@.terminal.wf(),
    {
        let mut terminal = PaneTerminal::new_fake(cols, rows, scrollback_limit_bytes);
        terminal.process_pty_bytes(bytes);
        PaneRuntime {
            pane_id: PaneId::from_raw(0),
            terminal,
            io: PaneRuntimeIo::TestChannel,
            current_size: (rows, cols, 0, 0),
            child_pid: 0,
            reported_cwd: None,
            kitty_keyboard_flags: 0,
            preserve_processes_on_drop: true,
            adopted_live_shell: false,
        }
    }

    /// A double with scrollback and some output; `None` if the output cannot be
    /// read.
    pub fn try_test_with_scrollback_bytes(
        cols: u16,
        rows: u16,
        scrollback_limit_bytes: usize,
        bytes: &[u8],
    ) -> (r: Option<Self>)
        ensures
            match r {
                Some(rt) => fake_terminal::accepted(fake_terminal::lossy_text(bytes@), 0) && rt@
                    == double_view(
                    PaneId { raw: 0 },
                    cols,
                    rows,
                    scrollback_limit_bytes,
                    fake_terminal::lossy_text(bytes@),
                    None,
                ) && rt@.terminal.wf(),
                None => !fake_terminal::accepted(fake_terminal::lossy_text(bytes@), 0),
            },
    {
        if !FakePaneTerminal::accepts_bytes(bytes) {
            return None;
        }
        if scrollback_limit_bytes == 0 {
            Some(Self::test_with_screen_bytes(cols, rows, bytes))
        } else {
            Some(Self::test_with_scrollback_bytes(cols, rows, scrollback_limit_bytes, bytes))
        }
    }

    /// A double with scrollback and some output.
    pub fn test_with_scrollback_bytes(
        cols: u16,
        rows: u16,
        scrollback_limit_bytes: usize,
        bytes: &[u8],
    ) -> (r: Self)
        requires
            fake_terminal::accepted(fake_terminal::lossy_text(bytes@), 0),
        ensures
            r@ == double_view(
                PaneId { raw: 0 },
                cols,
                rows,
                scrollback_limit_bytes,
                fake_terminal::lossy_text(bytes@),
                None,
            ),
            r@.terminal.wf(),
    {
        Self::test_with_channel_and_scrollback_bytes(cols, rows, scrollback_limit_bytes, bytes)
    }

    /// A double without scrollback, with some output.
    pub fn test_with_screen_bytes(cols: u16, rows: u16, bytes: &[u8]) -> (r: Self)
        requires
            fake_terminal::accepted(fake_terminal::lossy_text(bytes@), 0),
        ensures
            r@ == double_view(
                PaneId { raw: 0 },
                cols,
                rows,
                0,
                fake_terminal::lossy_text(bytes@),
                None,
            ),
            r@.terminal.wf(),
    {
        Self::test_with_scrollback_bytes(cols, rows, 0, bytes)
    }

    /// A blank double.
    pub fn test_with_channel(cols: u16, rows: u16) -> (r: Self)
        ensures
            r@ == double_view(PaneId { raw: 0 }, cols, rows, 0, Seq::empty(), None),
            r@.terminal.wf(),
    {
        let none: Vec<u8> = Vec::new();
        let _readable = FakePaneTerminal::accepts_bytes(none.as_slice());
        proof {
            utf8_reads_as_itself(Seq::empty());
            assert(vstd::utf8::encode_utf8(Seq::<char>::empty()) =~= none@);
        }
        Self::test_with_screen_bytes(cols, rows, none.as_slice())
    }

    /// Writes output on a double.
    pub fn test_process_pty_bytes(&mut self, bytes: &[u8])
        requires
            old(self)@.terminal.wf(),
            old(self)@.terminal.reads(fake_terminal::lossy_text(bytes@)),
        ensures
            final(self)@ == (RuntimeView {
                terminal: old(self)@.terminal.fed(fake_terminal::lossy_text(bytes@)),
                ..old(self)@
            }),
            final(self)@.terminal.wf(),
    {
        self.terminal.process_pty_bytes(bytes);
    }

    /// Writes output on a double if it can be read, and says whether it could.
    pub fn try_test_process_pty_bytes(&mut self, bytes: &[u8]) -> (r: bool)
        requires
            old(self)@.terminal.wf(),
        ensures
            r == old(self)@.terminal.reads(fake_terminal::lossy_text(bytes@)),
            final(self)@ == (if r {
                RuntimeView {
                    terminal: old(self)@.terminal.fed(fake_terminal::lossy_text(bytes@)),
                    ..old(self)@
                }
            } else {
                old(self)@
            }),
            final(self)@.terminal.wf(),
    {
        if self.terminal.fake().is_some() && !FakePaneTerminal::accepts_bytes(bytes) {
            return false;
        }
        self.test_process_pty_bytes(bytes);
        true
    }

    /// What spawning gives where no daemon is: a double that shows the restored
    /// history and is in the requested directory, and, for a program with
    /// arguments, that program to run beside it. A bare shell is not run: without
    /// a terminal it would exit at once.
    pub fn test_spawned_fake(
        pane_id: PaneId,
        rows: u16,
        cols: u16,
        cmd: &CommandBuilder,
        initial_history: Option<&str>,
    ) -> (r: (Self, Option<Subprocess>))
        requires
            fake_terminal::accepted(
                match initial_history {
                    Some(h) => h@,
                    None => Seq::empty(),
                },
                0,
            ),
        ensures
            r.0@ == double_view(
                pane_id,
                cols,
                rows,
                SPAWNED_SCROLLBACK_BYTES,
                match initial_history {
                    Some(h) => h@,
                    None => Seq::empty(),
                },
                cmd@.cwd,
            ),
            r.0@.terminal.wf(),
            match r.1 {
                Some(p) => runs(cmd@) && command::argv_view(p.argv@) == cmd@.argv
                    && command::bytes_view(p.cwd) == cmd@.cwd && command::pairs_view(p.env@)
                    == command::text_env(cmd@.env),
                None => !runs(cmd@),
            },
    {
        let history: &str = match initial_history {
            Some(h) => h,
            None => "",
        };
        proof {
            reveal_strlit("");
            assert(""@ =~= Seq::<char>::empty());
            utf8_reads_as_itself(history@);
        }
        let _readable = FakePaneTerminal::accepts_bytes(history.as_bytes());
        let mut runtime = Self::test_with_channel_and_scrollback_bytes(
            cols,
            rows,
            SPAWNED_SCROLLBACK_BYTES,
            history.as_bytes(),
        );
        runtime.pane_id = pane_id;
        runtime.reported_cwd = Self::copy_cwd(cmd);
        let argv = cmd.get_argv();
        assert(argv.len() == cmd@.argv.len());
        if cmd.is_default_prog() || argv.len() <= 1 {
            return (runtime, None);
        }
        let mut copied: Vec<Vec<u8>> = Vec::new();
        let mut i: usize = 0;
        while i < argv.len()
            invariant
                i <= argv.len(),
                command::argv_view(copied@) == command::argv_view(argv@).take(i as int),
            decreases argv.len() - i,
        {
            let ghost before = copied@;
            copied.push(vstd::slice::slice_to_vec(argv[i].as_slice()));
            assert(command::argv_view(copied@) =~= command::argv_view(before).push(
                argv@[i as int]@,
            ));
            i += 1;
        }
        assert(command::argv_view(copied@) =~= command::argv_view(argv@));
        let subprocess = Subprocess {
            argv: copied,
            cwd: Self::copy_cwd(cmd),
            env: cmd.iter_extra_env_as_str(),
        };
        (runtime, Some(subprocess))
    }

    fn copy_cwd(cmd: &CommandBuilder) -> (r: Option<Vec<u8>>)
        ensures
            cwd::path_view(r) == cmd@.cwd,
            command::bytes_view(r) == cmd@.cwd,
    {
        match cmd.get_cwd() {
            Some(cwd) => Some(vstd::slice::slice_to_vec(cwd.as_slice())),
            None => None,
        }
    }
}

/// A pane made for tests has a screen of the size asked for that shows what it was
/// fed, no child, no cell size, and keeps its processes.
pub proof fn test_panes_show_what_they_were_fed(
    cols: u16,
    rows: u16,
    limit: usize,
    bytes: &[u8],
    r: Option<PaneRuntime>,
)
    requires
        call_ensures(PaneRuntime::try_test_with_scrollback_bytes, (cols, rows, limit, bytes), r),
    ensures
        r is Some <==> fake_terminal::accepted(fake_terminal::lossy_text(bytes@), 0),
        r matches Some(rt) ==> rt@.terminal == TerminalView::Fake(
            fake_terminal::fake_fresh(cols, rows, limit).fed(fake_terminal::lossy_text(bytes@)),
        ) && rt@.io is TestChannel && rt@.size == (rows, cols, 0u32, 0u32) && rt@.child_pid == 0
            && rt@.pane_id.raw == 0 && rt@.reported_cwd is None && rt@.preserve && !rt@.adopted
            && rt@.kitty_keyboard_flags == 0,
{
}

/// A spawned test pane runs its command as a process only if it has an argument
/// besides the program; then with the command's arguments, directory and text
/// environment. It remembers the directory and shows the history.
pub proof fn spawned_test_panes_run_their_command(
    pane_id: PaneId,
    rows: u16,
    cols: u16,
    cmd: CommandBuilder,
    history: &str,
    r: (PaneRuntime, Option<Subprocess>),
)
    requires
        call_ensures(
            PaneRuntime::test_spawned_fake,
            (pane_id, rows, cols, &cmd, Some(history)),
            r,
        ),
    ensures
        r.1 is Some <==> cmd@.argv.len() >= 2,
        r.1 matches Some(p) ==> command::argv_view(p.argv@) == cmd@.argv && command::bytes_view(
            p.cwd,
        ) == cmd@.cwd && command::pairs_view(p.env@) == command::text_env(cmd@.env),
        r.0@.pane_id == pane_id,
        r.0@.reported_cwd == cmd@.cwd,
        r.0@.size == (rows, cols, 0u32, 0u32),
        r.0@.terminal == TerminalView::Fake(
            fake_terminal::fake_fresh(cols, rows, 1048576).fed(history@),
        ),
{
}

} // verus!
