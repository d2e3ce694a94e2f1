//! The commands panes are launched with.

use vstd::prelude::*;
use crate::pane::command;
use crate::pane::command::{CommandBuilder, CommandView, EnvView};
use crate::pane::shell;
use crate::pane::shell::{PaneShellConfig, ShellError, Target};

verus! {

/// The terminal a pane's programs see, whatever terminal the host runs in.
pub const PANE_TERM: &'static str = "xterm-256color";

pub const PANE_COLORTERM: &'static str = "truecolor";

/// Why a pane was not launched.
#[derive(Debug, PartialEq, Eq)]
pub enum SpawnError {
    /// Its login shell cannot be launched.
    Shell(ShellError),
    /// An argument list without a program.
    EmptyArgv,
}

/// What the host adds to a pane's environment.
#[derive(Debug)]
pub struct PaneEnv {
    /// Marks processes that run inside a pane.
    pub marker: (Vec<u8>, Vec<u8>),
    /// What the agent integrations need.
    pub integration: Vec<(Vec<u8>, Vec<u8>)>,
}

/// An environment with entries set in order: a later one wins over an earlier
/// one.
pub open spec fn set_all(m: Map<Seq<u8>, Seq<u8>>, entries: Seq<EnvView>) -> Map<Seq<u8>, Seq<u8>>
    decreases entries.len(),
{
    if entries.len() == 0 {
        m
    } else {
        set_all(m, entries.drop_last()).insert(entries.last().0, entries.last().1)
    }
}

/// An environment with the pane's terminal advertised.
pub open spec fn with_terminal(m: Map<Seq<u8>, Seq<u8>>) -> Map<Seq<u8>, Seq<u8>> {
    m.insert(vstd::utf8::encode_utf8("TERM"@), vstd::utf8::encode_utf8(PANE_TERM@)).insert(
        vstd::utf8::encode_utf8("COLORTERM"@),
        vstd::utf8::encode_utf8(PANE_COLORTERM@),
    )
}

/// The environment of a pane: the command's own, the marker, the terminal, the
/// integrations, and last what the caller adds.
pub open spec fn pane_vars(
    m: Map<Seq<u8>, Seq<u8>>,
    env: PaneEnv,
    extra: Seq<EnvView>,
) -> Map<Seq<u8>, Seq<u8>> {
    set_all(
        set_all(
            with_terminal(m.insert(env.marker.0@, env.marker.1@)),
            command::env_view(env.integration@),
        ),
        extra,
    )
}

/// `after` is `before` to be launched in a pane at `cwd`.
pub open spec fn is_pane_command(
    after: CommandView,
    before: CommandView,
    cwd: Seq<u8>,
    env: PaneEnv,
    extra: Seq<EnvView>,
) -> bool {
    &&& after.argv == before.argv
    &&& after.cwd == Some(cwd)
    &&& after.vars() == pane_vars(before.vars(), env, extra)
    &&& after.wf()
}

/// Advertises the pane's own terminal. The host's `TERM` is not passed on: the
/// host's terminal does not render the pane.
pub fn apply_pane_terminal_env(cmd: &mut CommandBuilder)
    requires
        old(cmd)@.wf(),
    ensures
        final(cmd)@.argv == old(cmd)@.argv,
        final(cmd)@.cwd == old(cmd)@.cwd,
        final(cmd)@.vars() == with_terminal(old(cmd)@.vars()),
        final(cmd)@.wf(),
{
    cmd.env("TERM".as_bytes(), PANE_TERM.as_bytes());
    cmd.env("COLORTERM".as_bytes(), PANE_COLORTERM.as_bytes());
}

fn apply_entries(cmd: &mut CommandBuilder, entries: &Vec<(Vec<u8>, Vec<u8>)>)
    requires
        old(cmd)@.wf(),
    ensures
        final(cmd)@.argv == old(cmd)@.argv,
        final(cmd)@.cwd == old(cmd)@.cwd,
        final(cmd)@.vars() == set_all(old(cmd)@.vars(), command::env_view(entries@)),
        final(cmd)@.wf(),
{
    let ghost all = command::env_view(entries@);
    let mut i: usize = 0;
    assert(all.take(0) =~= Seq::<EnvView>::empty());
    while i < entries.len()
        invariant
            i <= entries.len(),
            all == command::env_view(entries@),
            cmd@.wf(),
            cmd@.argv == old(cmd)@.argv,
            cmd@.cwd == old(cmd)@.cwd,
            cmd@.vars() == set_all(old(cmd)@.vars(), all.take(i as int)),
        decreases entries.len() - i,
    {
        assert(all.take(i + 1).drop_last() =~= all.take(i as int));
        assert(all.take(i + 1).last() == (entries@[i as int].0@, entries@[i as int].1@));
        cmd.env(entries[i].0.as_slice(), entries[i].1.as_slice());
        i += 1;
    }
    assert(all.take(i as int) =~= all);
}

/// Prepares a command for launch in a pane.
pub fn prepare_pane_command(
    cmd: CommandBuilder,
    cwd: &Vec<u8>,
    env: &PaneEnv,
    extra: &Vec<(Vec<u8>, Vec<u8>)>,
) -> (r: CommandBuilder)
    requires
        cmd@.wf(),
    ensures
        is_pane_command(r@, cmd@, cwd@, *env, command::env_view(extra@)),
{
    let mut cmd = cmd;
    cmd.cwd(cwd.as_slice());
    cmd.env(env.marker.0.as_slice(), env.marker.1.as_slice());
    apply_pane_terminal_env(&mut cmd);
    apply_entries(&mut cmd, &env.integration);
    apply_entries(&mut cmd, extra);
    cmd
}

/// Builds the command of a pane that runs the user's shell.
pub fn shell_pane_command(
    shell_config: PaneShellConfig<'_>,
    env_shell: Option<String>,
    target: Target,
    resolve: impl FnOnce(String) -> Result<String, ShellError>,
    file_name: impl FnOnce(String) -> Option<String>,
    cwd: &Vec<u8>,
    env: &PaneEnv,
) -> (r: Result<CommandBuilder, SpawnError>)
    requires
        forall|s: String| #[trigger] call_requires(resolve, (s,)),
        forall|s: String| #[trigger] call_requires(file_name, (s,)),
    ensures
        exists|built: Result<CommandBuilder, ShellError>|
            #![trigger is_shell_pane(r, built, cwd@, *env)]
            is_shell_pane(r, built, cwd@, *env) && shell::is_shell_command(
                built,
                shell_config,
                env_shell,
                target,
                resolve,
                file_name,
            ),
{
    let built = shell::pane_shell_command_builder_for_target(
        shell_config,
        env_shell,
        target,
        resolve,
        file_name,
    );
    let ghost first = built;
    let r = match built {
        Ok(cmd) => {
            let none: Vec<(Vec<u8>, Vec<u8>)> = Vec::new();
            assert(command::env_view(none@) =~= Seq::<EnvView>::empty());
            Ok(prepare_pane_command(cmd, cwd, env, &none))
        },
        Err(e) => Err(SpawnError::Shell(e)),
    };
    assert(is_shell_pane(r, first, cwd@, *env));
    r
}

/// A shell's command made ready for a pane, or the reason it has none.
pub open spec fn is_shell_pane(
    r: Result<CommandBuilder, SpawnError>,
    built: Result<CommandBuilder, ShellError>,
    cwd: Seq<u8>,
    env: PaneEnv,
) -> bool {
    match (built, r) {
        (Ok(b), Ok(cmd)) => is_pane_command(cmd@, b@, cwd, env, Seq::empty()),
        (Err(e), Err(f)) => f == SpawnError::Shell(e),
        _ => false,
    }
}

/// A program and its arguments, with nothing else set.
pub open spec fn plain_command(argv: Seq<Seq<u8>>) -> CommandView {
    CommandView { argv, ..command::default_command() }
}

/// Builds the command of a pane that runs a shell command line.
pub fn script_pane_command(
    script: &str,
    cwd: &Vec<u8>,
    extra_env: &Vec<(Vec<u8>, Vec<u8>)>,
    env: &PaneEnv,
) -> (r: CommandBuilder)
    ensures
        is_pane_command(
            r@,
            plain_command(
                seq![
                    vstd::utf8::encode_utf8("/bin/sh"@),
                    vstd::utf8::encode_utf8("-c"@),
                    vstd::utf8::encode_utf8(script@),
                ],
            ),
            cwd@,
            *env,
            command::env_view(extra_env@),
        ),
{
    let mut cmd = CommandBuilder::new("/bin/sh".as_bytes());
    cmd.arg("-c".as_bytes());
    cmd.arg(script.as_bytes());
    assert(cmd@.argv =~= seq![
        vstd::utf8::encode_utf8("/bin/sh"@),
        vstd::utf8::encode_utf8("-c"@),
        vstd::utf8::encode_utf8(script@),
    ]);
    prepare_pane_command(cmd, cwd, env, extra_env)
}

/// Builds the command of a pane that runs a program directly. There has to be a
/// program.
pub fn argv_pane_command(argv: &Vec<Vec<u8>>, cwd: &Vec<u8>, env: &PaneEnv) -> (r: Result<
    CommandBuilder,
    SpawnError,
>)
    ensures
        match r {
            Ok(cmd) => argv@.len() > 0 && is_pane_command(
                cmd@,
                plain_command(command::argv_view(argv@)),
                cwd@,
                *env,
                Seq::empty(),
            ),
            Err(e) => argv@.len() == 0 && e == SpawnError::EmptyArgv,
        },
{
    if argv.len() == 0 {
        return Err(SpawnError::EmptyArgv);
    }
    let ghost all = command::argv_view(argv@);
    let mut cmd = CommandBuilder::new(argv[0].as_slice());
    let mut i: usize = 1;
    assert(cmd@.argv =~= all.take(1));
    while i < argv.len()
        invariant
            1 <= i <= argv.len(),
            all == command::argv_view(argv@),
            cmd@ == plain_command(all.take(i as int)),
        decreases argv.len() - i,
    {
        assert(all.take(i + 1) =~= all.take(i as int).push(argv@[i as int]@));
        cmd.arg(argv[i].as_slice());
        i += 1;
    }
    assert(all.take(i as int) =~= all);
    let none: Vec<(Vec<u8>, Vec<u8>)> = Vec::new();
    assert(command::env_view(none@) =~= Seq::<EnvView>::empty());
    Ok(prepare_pane_command(cmd, cwd, env, &none))
}

/// The entries give the variable `key` a value.
pub open spec fn mentions(entries: Seq<EnvView>, key: Seq<u8>) -> bool {
    exists|i: int| 0 <= i < entries.len() && (#[trigger] entries[i]).0 == key
}

proof fn unmentioned_is_kept(m: Map<Seq<u8>, Seq<u8>>, entries: Seq<EnvView>, key: Seq<u8>)
    requires
        !mentions(entries, key),
    ensures
        set_all(m, entries).contains_key(key) == m.contains_key(key),
        m.contains_key(key) ==> set_all(m, entries)[key] == m[key],
    decreases entries.len(),
{
    if entries.len() > 0 {
        let front = entries.drop_last();
        assert(!mentions(front, key)) by {
            if mentions(front, key) {
                let i = choose|i: int| 0 <= i < front.len() && (#[trigger] front[i]).0 == key;
                assert(entries[i].0 == key);
            }
        }
        assert(entries[entries.len() - 1].0 != key);
        unmentioned_is_kept(m, front, key);
    }
}

/// Whatever the command and the host set, the pane's programs see the pane's own
/// terminal, unless an integration or the caller says otherwise.
pub proof fn panes_advertise_their_own_terminal(
    m: Map<Seq<u8>, Seq<u8>>,
    env: PaneEnv,
    extra: Seq<EnvView>,
)
    ensures
        ({
            let vars = pane_vars(m, env, extra);
            let added = command::env_view(env.integration@) + extra;
            let term = vstd::utf8::encode_utf8("TERM"@);
            let colorterm = vstd::utf8::encode_utf8("COLORTERM"@);
            &&& !mentions(added, term) ==> vars.contains_key(term) && vars[term]
                == vstd::utf8::encode_utf8(PANE_TERM@)
            &&& !mentions(added, colorterm) ==> vars.contains_key(colorterm) && vars[colorterm]
                == vstd::utf8::encode_utf8(PANE_COLORTERM@)
        }),
{
    let term = vstd::utf8::encode_utf8("TERM"@);
    let colorterm = vstd::utf8::encode_utf8("COLORTERM"@);
    assert(term != colorterm) by {
        reveal_strlit("TERM");
        reveal_strlit("COLORTERM");
        assert(vstd::utf8::is_ascii_chars("TERM"@));
        assert(vstd::utf8::is_ascii_chars("COLORTERM"@));
        vstd::utf8::is_ascii_chars_encode_utf8("TERM"@);
        vstd::utf8::is_ascii_chars_encode_utf8("COLORTERM"@);
        assert(term.len() != colorterm.len());
    }
    let base = with_terminal(m.insert(env.marker.0@, env.marker.1@));
    if !mentions(command::env_view(env.integration@) + extra, term) {
        unadded_is_kept(base, command::env_view(env.integration@), extra, term);
    }
    if !mentions(command::env_view(env.integration@) + extra, colorterm) {
        unadded_is_kept(base, command::env_view(env.integration@), extra, colorterm);
    }
}

proof fn unadded_is_kept(
    m: Map<Seq<u8>, Seq<u8>>,
    first: Seq<EnvView>,
    then_set: Seq<EnvView>,
    key: Seq<u8>,
)
    requires
        !mentions(first + then_set, key),
        m.contains_key(key),
    ensures
        set_all(set_all(m, first), then_set).contains_key(key),
        set_all(set_all(m, first), then_set)[key] == m[key],
{
    assert(!mentions(first, key)) by {
        if mentions(first, key) {
            let i = choose|i: int| 0 <= i < first.len() && (#[trigger] first[i]).0 == key;
            assert((first + then_set)[i].0 == key);
        }
    }
    assert(!mentions(then_set, key)) by {
        if mentions(then_set, key) {
            let i = choose|i: int| 0 <= i < then_set.len() && (#[trigger] then_set[i]).0 == key;
            assert((first + then_set)[first.len() + i].0 == key);
        }
    }
    unmentioned_is_kept(m, first, key);
    unmentioned_is_kept(set_all(m, first), then_set, key);
}

/// Setting entries in order, the last one of a name wins; what no entry names is
/// left as it was.
pub proof fn last_entries_win(
    m: Map<Seq<u8>, Seq<u8>>,
    entries: Seq<EnvView>,
    i: int,
    other: Seq<u8>,
)
    requires
        0 <= i < entries.len(),
        forall|j: int| i < j < entries.len() ==> (#[trigger] entries[j]).0 != entries[i].0,
        forall|j: int| 0 <= j < entries.len() ==> (#[trigger] entries[j]).0 != other,
    ensures
        set_all(m, entries).contains_key(entries[i].0),
        set_all(m, entries)[entries[i].0] == entries[i].1,
        set_all(m, entries).contains_key(other) == m.contains_key(other),
        m.contains_key(other) ==> set_all(m, entries)[other] == m[other],
    decreases entries.len(),
{
    let before = entries.drop_last();
    if i < entries.len() - 1 {
        assert(before[i] == entries[i]);
        assert(entries[entries.len() - 1].0 != entries[i].0);
        last_entries_win(m, before, i, other);
    } else {
        unmentioned_is_kept(m, before, other);
    }
}

/// What a pane's program finds in a variable: the last extra entry of that name, or
/// else the last of the integrations, or else the pane's terminal, or else the
/// marker, or else what was there.
pub proof fn panes_see_the_nearest_value(
    m: Map<Seq<u8>, Seq<u8>>,
    env: PaneEnv,
    extra: Seq<EnvView>,
    key: Seq<u8>,
)
    ensures
        ({
            let integration = command::env_view(env.integration@);
            let vars = pane_vars(m, env, extra);
            let none = Map::<Seq<u8>, Seq<u8>>::empty();
            let term = vstd::utf8::encode_utf8("TERM"@);
            let colorterm = vstd::utf8::encode_utf8("COLORTERM"@);
            &&& mentions(extra, key) ==> vars.contains_key(key) && vars[key] == set_all(
                none,
                extra,
            )[key]
            &&& !mentions(extra, key) && mentions(integration, key) ==> vars.contains_key(key)
                && vars[key] == set_all(none, integration)[key]
            &&& !mentions(extra, key) && !mentions(integration, key) ==> {
                &&& key == colorterm ==> vars.contains_key(key) && vars[key]
                    == vstd::utf8::encode_utf8("truecolor"@)
                &&& key == term && key != colorterm ==> vars.contains_key(key) && vars[key]
                    == vstd::utf8::encode_utf8("xterm-256color"@)
                &&& key != term && key != colorterm && key == env.marker.0@
                    ==> vars.contains_key(key) && vars[key] == env.marker.1@
                &&& key != term && key != colorterm && key != env.marker.0@
                    ==> vars.contains_key(key) == m.contains_key(key) && (m.contains_key(key)
                    ==> vars[key] == m[key])
            }
        }),
{
    let integration = command::env_view(env.integration@);
    let base = with_terminal(m.insert(env.marker.0@, env.marker.1@));
    let middle = set_all(base, integration);
    if mentions(extra, key) {
        mentioned_wins(middle, extra, key);
    } else {
        unmentioned_is_kept(middle, extra, key);
        if mentions(integration, key) {
            mentioned_wins(base, integration, key);
        } else {
            unmentioned_is_kept(base, integration, key);
        }
    }
}

proof fn mentioned_wins(m: Map<Seq<u8>, Seq<u8>>, entries: Seq<EnvView>, key: Seq<u8>)
    requires
        mentions(entries, key),
    ensures
        set_all(m, entries).contains_key(key),
        set_all(m, entries)[key] == set_all(Map::empty(), entries)[key],
    decreases entries.len(),
{
    if entries.last().0 != key {
        let i = choose|i: int| 0 <= i < entries.len() && (#[trigger] entries[i]).0 == key;
        assert(entries.drop_last()[i].0 == key);
        mentioned_wins(m, entries.drop_last(), key);
    }
}

/// A pane's command runs what it was given, in the directory given. A script is
/// run by the system's shell; an empty argument list is refused, and nothing else
/// is.
pub proof fn panes_run_what_they_are_given(
    cmd: CommandBuilder,
    cwd: Vec<u8>,
    env: PaneEnv,
    extra: Vec<(Vec<u8>, Vec<u8>)>,
    prepared: CommandBuilder,
    script: &str,
    scripted: CommandBuilder,
    argv: Vec<Vec<u8>>,
    listed: Result<CommandBuilder, SpawnError>,
    i: int,
)
    requires
        call_ensures(prepare_pane_command, (cmd, &cwd, &env, &extra), prepared),
        call_ensures(script_pane_command, (script, &cwd, &extra, &env), scripted),
        call_ensures(argv_pane_command, (&argv, &cwd, &env), listed),
    ensures
        prepared@.argv == cmd@.argv,
        prepared@.cwd == Some(cwd@),
        scripted@.argv == seq![
            vstd::utf8::encode_utf8("/bin/sh"@),
            vstd::utf8::encode_utf8("-c"@),
            vstd::utf8::encode_utf8(script@),
        ],
        scripted@.cwd == Some(cwd@),
        listed is Err <==> argv@.len() == 0,
        listed is Err ==> listed->Err_0 == SpawnError::EmptyArgv,
        listed matches Ok(c) ==> c@.cwd == Some(cwd@) && c@.argv.len() == argv@.len() && (0 <= i
            < argv@.len() ==> c@.argv[i] == argv@[i]@),
{
}

/// A shell that cannot be found is the reason a pane is not started; one that is
/// found is run in the directory given.
pub proof fn missing_shells_are_the_reason(
    r: Result<CommandBuilder, SpawnError>,
    built: Result<CommandBuilder, ShellError>,
    cwd: Seq<u8>,
    env: PaneEnv,
)
    requires
        is_shell_pane(r, built, cwd, env),
    ensures
        r is Ok <==> built is Ok,
        r matches Err(e) ==> e == SpawnError::Shell(built->Err_0),
        r matches Ok(cmd) ==> cmd@.argv == built->Ok_0@.argv && cmd@.cwd == Some(cwd),
{
}

} // verus!
