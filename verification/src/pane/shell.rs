//! Which shell a pane runs and how it is launched.

use vstd::prelude::*;
use crate::pane::command;
use crate::pane::command::{CommandBuilder, CommandView};
use crate::text;

verus! {

/// Whether a pane's shell is a login shell.
#[derive(Debug, Clone, Copy, PartialEq, Eq, Structural)]
pub enum ShellModeConfig {
    /// Where the platform's terminals run login shells.
    Auto,
    Login,
    NonLogin,
}

/// The configured shell and its mode.
#[derive(Debug, Clone, Copy, PartialEq, Eq)]
pub struct PaneShellConfig<'a> {
    pub default_shell: &'a str,
    pub mode: ShellModeConfig,
}

impl<'a> PaneShellConfig<'a> {
    pub fn new(default_shell: &'a str, mode: ShellModeConfig) -> (r: Self)
        ensures
            r.default_shell == default_shell,
            r.mode == mode,
    {
        PaneShellConfig { default_shell, mode }
    }
}

/// Why a login shell cannot be launched.
#[derive(Debug, PartialEq, Eq)]
pub enum ShellError {
    /// The shell is named by a path, and that is no executable file.
    NotExecutable(String),
    /// The shell is named without a path, and no directory on the search path
    /// has an executable file of that name.
    NotOnPath(String),
}

/// The shell of a platform that configures none.
pub open spec fn default_shell_text(target_is_windows: bool) -> Seq<char> {
    if target_is_windows {
        "powershell.exe"@
    } else {
        "/bin/sh"@
    }
}

/// The shell a pane runs: the configured one; else, except on Windows, the one
/// the environment names; else the platform's. White space around a name does
/// not count, and a name of nothing else is no name.
pub open spec fn shell_text(
    configured: Seq<char>,
    env_shell: Option<Seq<char>>,
    target_is_windows: bool,
) -> Seq<char> {
    if text::trimmed(configured).len() > 0 {
        text::trimmed(configured)
    } else {
        match env_shell {
            Some(shell) => if !target_is_windows && text::trimmed(shell).len() > 0 {
                text::trimmed(shell)
            } else {
                default_shell_text(target_is_windows)
            },
            None => default_shell_text(target_is_windows),
        }
    }
}

/// What an optional text holds.
pub open spec fn option_view(t: Option<String>) -> Option<Seq<char>> {
    match t {
        Some(t) => Some(t@),
        None => None,
    }
}

/// The shell of a platform that configures none.
pub fn default_pane_shell_for_target(target_is_windows: bool) -> (r: String)
    ensures
        r@ == default_shell_text(target_is_windows),
{
    if target_is_windows {
        "powershell.exe".to_string()
    } else {
        "/bin/sh".to_string()
    }
}

/// The shell of a Unix system that configures none.
pub fn default_pane_shell() -> (r: String)
    ensures
        r@ == default_shell_text(false),
{
    default_pane_shell_for_target(false)
}

/// The shell a pane runs.
pub fn pane_shell_for_target(
    configured_shell: &str,
    env_shell: Option<String>,
    target_is_windows: bool,
) -> (r: String)
    ensures
        r@ == shell_text(configured_shell@, option_view(env_shell), target_is_windows),
{
    let configured = text::trim(configured_shell);
    if !configured.as_str().is_empty() {
        return configured;
    }
    if !target_is_windows {
        if let Some(shell) = env_shell {
            let shell = text::trim(shell.as_str());
            if !shell.as_str().is_empty() {
                return shell;
            }
        }
    }
    default_pane_shell_for_target(target_is_windows)
}

/// The shell a pane runs on a Unix system.
pub fn pane_shell_from(configured_shell: &str, env_shell: Option<String>) -> (r: String)
    ensures
        r@ == shell_text(configured_shell@, option_view(env_shell), false),
{
    pane_shell_for_target(configured_shell, env_shell, false)
}

/// Whether the mode asks for a login shell.
pub open spec fn wants_login(mode: ShellModeConfig, target_is_macos: bool) -> bool {
    match mode {
        ShellModeConfig::Auto => target_is_macos,
        ShellModeConfig::Login => true,
        ShellModeConfig::NonLogin => false,
    }
}

/// Whether the mode asks for a login shell.
pub fn shell_mode_uses_login_shell(mode: ShellModeConfig, target_is_macos: bool) -> (r: bool)
    ensures
        r == wants_login(mode, target_is_macos),
{
    match mode {
        ShellModeConfig::Auto => target_is_macos,
        ShellModeConfig::Login => true,
        ShellModeConfig::NonLogin => false,
    }
}

/// Whether a file can be executed: it is a regular file and, except on Windows,
/// which has no such bits, its mode has an execute bit.
pub open spec fn executable_on(is_file: bool, mode: u32, target_is_windows: bool) -> bool {
    is_file && (target_is_windows || mode & 0o111 != 0)
}

/// Whether a file can be executed, by the target's rules.
pub fn is_executable_file_for_target(is_file: bool, mode: u32, target_is_windows: bool) -> (r: bool)
    ensures
        r == executable_on(is_file, mode, target_is_windows),
{
    is_file && (target_is_windows || mode & 0o111 != 0)
}

/// Whether a file can be executed, by the Unix rules.
pub fn is_executable_file(is_file: bool, mode: u32) -> (r: bool)
    ensures
        r == executable_on(is_file, mode, false),
{
    is_executable_file_for_target(is_file, mode, false)
}

/// The target's main path separator.
pub open spec fn main_separator(target_is_windows: bool) -> u8 {
    if target_is_windows {
        0x5c
    } else {
        0x2f
    }
}

/// The pieces of a byte string between the occurrences of a separator.
pub open spec fn split_bytes(b: Seq<u8>, sep: u8) -> Seq<Seq<u8>>
    decreases b.len(),
{
    if b.len() == 0 {
        seq![Seq::<u8>::empty()]
    } else {
        let pieces = split_bytes(b.drop_last(), sep);
        if b.last() == sep {
            pieces.push(Seq::<u8>::empty())
        } else {
            pieces.drop_last().push(pieces.last().push(b.last()))
        }
    }
}

/// A file in a directory, by the Unix rules: a separator goes between them unless
/// the directory is empty or ends with one.
pub open spec fn in_dir(dir: Seq<u8>, name: Seq<u8>) -> Seq<u8> {
    if dir.len() == 0 || dir.last() == 0x2f {
        dir + name
    } else {
        dir.push(0x2f) + name
    }
}

/// Where a login shell may be found, in order of preference: a name with the
/// target's separator in it stands for itself, any other is one of `searched`,
/// the name in each directory of the search path.
pub open spec fn candidates_for(
    shell: Seq<u8>,
    searched: Seq<Seq<u8>>,
    target_is_windows: bool,
) -> Seq<Seq<u8>> {
    if shell.contains(main_separator(target_is_windows)) {
        seq![shell]
    } else {
        searched
    }
}

/// A name in each directory of a Unix search path, which colons separate.
pub open spec fn unix_searched(shell: Seq<u8>, path: Option<Seq<u8>>) -> Seq<Seq<u8>> {
    match path {
        Some(path) => split_bytes(path, 0x3a).map_values(|dir: Seq<u8>| in_dir(dir, shell)),
        None => Seq::empty(),
    }
}

/// Where a login shell may be found on Unix, in order of preference.
pub open spec fn candidates(shell: Seq<u8>, path: Option<Seq<u8>>) -> Seq<Seq<u8>> {
    candidates_for(shell, unix_searched(shell, path), false)
}

fn has_separator(b: &Vec<u8>, target_is_windows: bool) -> (r: bool)
    ensures
        r == b@.contains(main_separator(target_is_windows)),
{
    let sep: u8 = if target_is_windows {
        0x5c
    } else {
        0x2f
    };
    let mut i: usize = 0;
    while i < b.len()
        invariant
            i <= b.len(),
            sep == main_separator(target_is_windows),
            forall|j: int| 0 <= j < i ==> b@[j] != sep,
        decreases b.len() - i,
    {
        if b[i] == sep {
            assert(b@[i as int] == sep);
            return true;
        }
        i += 1;
    }
    false
}

fn copy_bytes(from: &Vec<u8>) -> (r: Vec<u8>)
    ensures
        r@ == from@,
{
    vstd::slice::slice_to_vec(from.as_slice())
}

fn join_path(dir: &Vec<u8>, name: &Vec<u8>) -> (r: Vec<u8>)
    ensures
        r@ == in_dir(dir@, name@),
{
    let mut out = copy_bytes(dir);
    if out.len() > 0 && out[out.len() - 1] != 0x2f {
        out.push(0x2f);
    }
    let mut tail = copy_bytes(name);
    out.append(&mut tail);
    assert(out@ =~= in_dir(dir@, name@));
    out
}

/// Where a login shell may be found, in order of preference, by the target's
/// rules. `searched` is the shell's name in each directory of the search path,
/// split and joined as the platform does it.
pub fn login_shell_candidates_for_target(
    shell: &Vec<u8>,
    searched: Vec<Vec<u8>>,
    target_is_windows: bool,
) -> (r: Vec<Vec<u8>>)
    ensures
        command::argv_view(r@) == candidates_for(
            shell@,
            command::argv_view(searched@),
            target_is_windows,
        ),
{
    if !has_separator(shell, target_is_windows) {
        return searched;
    }
    let mut out: Vec<Vec<u8>> = Vec::new();
    out.push(copy_bytes(shell));
    assert(command::argv_view(out@) =~= seq![shell@]);
    out
}

/// Where a login shell may be found on Unix, in order of preference.
pub fn login_shell_candidates(shell: &Vec<u8>, path: Option<Vec<u8>>) -> (r: Vec<Vec<u8>>)
    ensures
        command::argv_view(r@) == candidates(shell@, command::bytes_view(path)),
{
    login_shell_candidates_for_target(shell, search_unix_path(shell, path), false)
}

fn search_unix_path(shell: &Vec<u8>, path: Option<Vec<u8>>) -> (r: Vec<Vec<u8>>)
    ensures
        command::argv_view(r@) == unix_searched(shell@, command::bytes_view(path)),
{
    let mut out: Vec<Vec<u8>> = Vec::new();
    let path = match path {
        Some(path) => path,
        None => {
            assert(command::argv_view(out@) =~= Seq::<Seq<u8>>::empty());
            return out;
        },
    };
    let ghost to_file = |dir: Seq<u8>| in_dir(dir, shell@);
    let mut dir: Vec<u8> = Vec::new();
    let mut i: usize = 0;
    let ghost mut dirs: Seq<Seq<u8>> = Seq::empty();
    assert(path@.take(0) =~= Seq::<u8>::empty());
    assert(dirs.push(dir@) =~= seq![Seq::<u8>::empty()]);
    assert(command::argv_view(out@) =~= dirs.map_values(to_file));
    while i < path.len()
        invariant
            i <= path.len(),
            to_file == (|dir: Seq<u8>| in_dir(dir, shell@)),
            dirs.push(dir@) == split_bytes(path@.take(i as int), 0x3a),
            command::argv_view(out@) == dirs.map_values(to_file),
        decreases path.len() - i,
    {
        let ghost before = dirs.push(dir@);
        assert(path@.take(i + 1).drop_last() =~= path@.take(i as int));
        if path[i] == 0x3a {
            let ghost listed = out@;
            out.push(join_path(&dir, shell));
            proof {
                dirs = before;
            }
            assert(command::argv_view(out@) =~= command::argv_view(listed).push(
                in_dir(dir@, shell@),
            ));
            assert(command::argv_view(out@) =~= dirs.map_values(to_file));
            dir = Vec::new();
        } else {
            dir.push(path[i]);
            assert(before.drop_last() =~= dirs);
        }
        i += 1;
        assert(dirs.push(dir@) =~= split_bytes(path@.take(i as int), 0x3a));
    }
    let ghost listed = out@;
    out.push(join_path(&dir, shell));
    assert(path@.take(i as int) =~= path@);
    assert(command::argv_view(out@) =~= command::argv_view(listed).push(in_dir(dir@, shell@)));
    assert(command::argv_view(out@) =~= dirs.push(dir@).map_values(to_file));
    out
}

/// The index of the first candidate that can be executed.
pub open spec fn first_executable(executable: Seq<bool>) -> Option<int>
    decreases executable.len(),
{
    if executable.len() == 0 {
        None
    } else {
        match first_executable(executable.drop_last()) {
            Some(i) => Some(i),
            None => if executable.last() {
                Some(executable.len() - 1)
            } else {
                None
            },
        }
    }
}

/// The login shell found among candidates: the first that can be executed, if
/// its path is a text.
pub open spec fn found_shell(candidates: Seq<Seq<u8>>, executable: Seq<bool>) -> Option<Seq<char>> {
    match first_executable(executable) {
        Some(i) => if vstd::utf8::valid_utf8(candidates[i]) {
            Some(vstd::utf8::decode_utf8(candidates[i]))
        } else {
            None
        },
        None => None,
    }
}

/// `r` is the login shell found among candidates. Where there is none, a name
/// with the target's separator in it is not executable, and any other is not on
/// the search path.
pub open spec fn is_resolved(
    r: Result<String, ShellError>,
    shell: String,
    candidates: Seq<Seq<u8>>,
    executable: Seq<bool>,
    target_is_windows: bool,
) -> bool {
    let is_path = vstd::utf8::encode_utf8(shell@).contains(main_separator(target_is_windows));
    match (r, found_shell(candidates, executable)) {
        (Ok(path), Some(found)) => path@ == found,
        (Err(ShellError::NotExecutable(s)), None) => s == shell && is_path,
        (Err(ShellError::NotOnPath(s)), None) => s == shell && !is_path,
        _ => false,
    }
}

/// Picks the login shell on Unix, given which of its candidates can be executed.
/// A path is kept as it stands.
pub fn resolve_shell_for_login_mode(
    shell: String,
    candidates: &Vec<Vec<u8>>,
    executable: &Vec<bool>,
) -> (r: Result<String, ShellError>)
    requires
        candidates@.len() == executable@.len(),
    ensures
        is_resolved(r, shell, command::argv_view(candidates@), executable@, false),
{
    resolve_shell_for_login_mode_for_target(shell, candidates, executable, false)
}

/// Picks the login shell by the target's rules, given which of its candidates can
/// be executed. A path is kept as it stands.
pub fn resolve_shell_for_login_mode_for_target(
    shell: String,
    candidates: &Vec<Vec<u8>>,
    executable: &Vec<bool>,
    target_is_windows: bool,
) -> (r: Result<String, ShellError>)
    requires
        candidates@.len() == executable@.len(),
    ensures
        is_resolved(r, shell, command::argv_view(candidates@), executable@, target_is_windows),
{
    let mut found: Option<usize> = None;
    let mut i: usize = 0;
    assert(executable@.take(0) =~= Seq::<bool>::empty());
    while i < executable.len()
        invariant
            i <= executable.len(),
            match (found, first_executable(executable@.take(i as int))) {
                (Some(f), Some(g)) => f == g && f < executable.len(),
                (None, None) => true,
                _ => false,
            },
        decreases executable.len() - i,
    {
        assert(executable@.take(i + 1).drop_last() =~= executable@.take(i as int));
        if found.is_none() && executable[i] {
            found = Some(i);
        }
        i += 1;
    }
    assert(executable@.take(i as int) =~= executable@);
    if let Some(i) = found {
        assert(command::argv_view(candidates@)[i as int] == candidates@[i as int]@);
        if let Some(path) = command::utf8_text(&candidates[i]) {
            return Ok(path);
        }
    }
    let bytes = vstd::slice::slice_to_vec(shell.as_str().as_bytes());
    if has_separator(&bytes, target_is_windows) {
        Err(ShellError::NotExecutable(shell))
    } else {
        Err(ShellError::NotOnPath(shell))
    }
}

/// A character in lower case, where it is an ASCII letter.
pub open spec fn lower(c: char) -> char {
    if 'A' <= c <= 'Z' {
        ((c as u8) + 32) as char
    } else {
        c
    }
}

/// The file names of the PowerShell executables.
pub open spec fn is_powershell_name(name: Seq<char>) -> bool {
    let n = name.map_values(|c: char| lower(c));
    n == "powershell"@ || n == "powershell.exe"@ || n == "pwsh"@ || n == "pwsh.exe"@
}

fn lowered(s: &str) -> (r: String)
    ensures
        r@ == s@.map_values(|c: char| lower(c)),
{
    let v = text::chars_of(s);
    let mut out: Vec<char> = Vec::new();
    let mut i: usize = 0;
    while i < v.len()
        invariant
            i <= v.len(),
            out@ == v@.map_values(|c: char| lower(c)).take(i as int),
        decreases v.len() - i,
    {
        let c = v[i];
        if 'A' <= c && c <= 'Z' {
            out.push((c as u8 + 32) as char);
        } else {
            out.push(c);
        }
        i += 1;
        assert(out@ =~= v@.map_values(|c: char| lower(c)).take(i as int));
    }
    assert(out@ =~= s@.map_values(|c: char| lower(c)));
    text::string_of(&out)
}

/// Whether a shell is a PowerShell, by its file name; by the whole of it where
/// it has none.
pub fn is_windows_powershell_shell(shell: &str, file_name: Option<String>) -> (r: bool)
    ensures
        r == is_powershell_name(
            match file_name {
                Some(n) => n@,
                None => shell@,
            },
        ),
{
    let name = match &file_name {
        Some(n) => lowered(n.as_str()),
        None => lowered(shell),
    };
    name == "powershell".to_string() || name == "powershell.exe".to_string() || name
        == "pwsh".to_string() || name == "pwsh.exe".to_string()
}

/// Makes PowerShell report its working directory before every prompt.
pub const POWERSHELL_CWD_PROMPT: &'static str =
    "$global:__HERDR_ORIGINAL_PROMPT = if (Test-Path Function:\\prompt) { (Get-Command prompt -CommandType Function).ScriptBlock } else { { \"PS $($executionContext.SessionState.Path.CurrentLocation)$('>' * ($nestedPromptLevel + 1)) \" } }; function global:prompt { try { if ($PWD.Provider.Name -eq 'FileSystem') { $uri = ([System.Uri]$PWD.ProviderPath).AbsoluteUri; [Console]::Write(\"$([char]27)]7;$uri$([char]7)\") } } catch {}; & $global:__HERDR_ORIGINAL_PROMPT }";

/// The script that makes PowerShell report its working directory.
pub fn windows_powershell_cwd_prompt_wrapper() -> (r: &'static str)
    ensures
        r@ == POWERSHELL_CWD_PROMPT@,
{
    POWERSHELL_CWD_PROMPT
}

/// The command with a PowerShell's working-directory reports turned on.
pub open spec fn with_cwd_reporting(c: CommandView) -> CommandView {
    CommandView {
        argv: c.argv.push(vstd::utf8::encode_utf8("-NoExit"@)).push(
            vstd::utf8::encode_utf8("-Command"@),
        ).push(vstd::utf8::encode_utf8(POWERSHELL_CWD_PROMPT@)),
        ..c
    }
}

/// Turns on working-directory reports for a PowerShell on Windows, and does
/// nothing to any other command.
pub fn apply_windows_powershell_cwd_reporting(
    cmd: &mut CommandBuilder,
    target_is_windows: bool,
    is_powershell: bool,
)
    requires
        old(cmd)@.argv.len() > 0,
    ensures
        final(cmd)@ == (if target_is_windows && is_powershell {
            with_cwd_reporting(old(cmd)@)
        } else {
            old(cmd)@
        }),
{
    if !target_is_windows || !is_powershell {
        return;
    }
    cmd.arg("-NoExit".as_bytes());
    cmd.arg("-Command".as_bytes());
    cmd.arg(windows_powershell_cwd_prompt_wrapper().as_bytes());
}

/// The platform a pane is launched on.
#[derive(Debug, Clone, Copy, PartialEq, Eq, Structural)]
pub struct Target {
    pub is_macos: bool,
    pub is_windows: bool,
}

/// The command for a shell that is run directly.
pub open spec fn direct_command(shell: Seq<char>, target: Target, is_powershell: bool) -> CommandView {
    let c = CommandView {
        argv: seq![vstd::utf8::encode_utf8(shell)],
        ..command::default_command()
    };
    if target.is_windows && is_powershell {
        with_cwd_reporting(c)
    } else {
        c
    }
}

/// The command for a login shell: the default program, with the shell's path in
/// `SHELL`.
pub open spec fn is_login_command(c: CommandView, path: Seq<char>) -> bool {
    c.is_with_env(
        command::default_command(),
        vstd::utf8::encode_utf8("SHELL"@),
        vstd::utf8::encode_utf8(path),
    )
}

/// `r` is the command that launches a pane's shell, or the reason there is none:
/// a login shell is the one `resolve` finds; any other is run directly, and on
/// Windows its file name, as `file_name` gives it, decides whether it reports
/// its working directory.
pub open spec fn is_shell_command<
    R: FnOnce(String) -> Result<String, ShellError>,
    N: FnOnce(String) -> Option<String>,
>(
    r: Result<CommandBuilder, ShellError>,
    shell_config: PaneShellConfig<'_>,
    env_shell: Option<String>,
    target: Target,
    resolve: R,
    file_name: N,
) -> bool {
    let shell = shell_text(shell_config.default_shell@, option_view(env_shell), target.is_windows);
    if wants_login(shell_config.mode, target.is_macos) {
        exists|s: String, found: Result<String, ShellError>|
            s@ == shell && #[trigger] call_ensures(resolve, (s,), found) && (match (found, r) {
                (Ok(path), Ok(cmd)) => is_login_command(cmd@, path@),
                (Err(e), Err(f)) => e == f,
                _ => false,
            })
    } else if target.is_windows {
        exists|s: String, name: Option<String>|
            s@ == shell && #[trigger] call_ensures(file_name, (s,), name) && r is Ok && r->Ok_0@
                == direct_command(
                shell,
                target,
                is_powershell_name(
                    match name {
                        Some(n) => n@,
                        None => shell,
                    },
                ),
            )
    } else {
        r is Ok && r->Ok_0@ == direct_command(shell, target, false)
    }
}

/// Builds the command that launches a pane's shell. A login shell is found by
/// `resolve`, whose failure is handed on; `file_name` gives a shell's file name
/// where the platform needs it.
pub fn pane_shell_command_builder_for_target(
    shell_config: PaneShellConfig<'_>,
    env_shell: Option<String>,
    target: Target,
    resolve: impl FnOnce(String) -> Result<String, ShellError>,
    file_name: impl FnOnce(String) -> Option<String>,
) -> (r: Result<CommandBuilder, ShellError>)
    requires
        forall|s: String| #[trigger] call_requires(resolve, (s,)),
        forall|s: String| #[trigger] call_requires(file_name, (s,)),
    ensures
        r matches Ok(cmd) ==> cmd@.wf(),
        is_shell_command(r, shell_config, env_shell, target, resolve, file_name),
{
    let shell = pane_shell_for_target(shell_config.default_shell, env_shell, target.is_windows);
    if shell_mode_uses_login_shell(shell_config.mode, target.is_macos) {
        match resolve(shell) {
            Ok(path) => {
                let mut cmd = CommandBuilder::new_default_prog();
                cmd.env("SHELL".as_bytes(), path.as_str().as_bytes());
                Ok(cmd)
            },
            Err(e) => Err(e),
        }
    } else {
        let mut cmd = CommandBuilder::new(shell.as_str().as_bytes());
        if target.is_windows {
            let name = file_name(shell.clone());
            let is_powershell = is_windows_powershell_shell(shell.as_str(), name);
            apply_windows_powershell_cwd_reporting(&mut cmd, true, is_powershell);
        }
        Ok(cmd)
    }
}

/// A login shell that cannot be found is an error: no other shell takes its
/// place.
pub proof fn missing_login_shells_are_refused(candidates: Seq<Seq<u8>>, executable: Seq<bool>)
    requires
        forall|i: int| 0 <= i < executable.len() ==> !#[trigger] executable[i],
    ensures
        found_shell(candidates, executable) is None,
    decreases executable.len(),
{
    if executable.len() > 0 {
        let front = executable.drop_last();
        assert forall|i: int| 0 <= i < front.len() implies !#[trigger] front[i] by {
            assert(front[i] == executable[i]);
        }
        missing_login_shells_are_refused(candidates, front);
        assert(!executable[executable.len() - 1]);
    }
}

/// A shell named by a path is its own and only candidate, so where it can be
/// executed it is the one found, unchanged.
pub proof fn shell_paths_are_preserved(
    shell: Seq<char>,
    searched: Seq<Seq<u8>>,
    target_is_windows: bool,
)
    requires
        vstd::utf8::encode_utf8(shell).contains(main_separator(target_is_windows)),
    ensures
        ({
            let named = candidates_for(
                vstd::utf8::encode_utf8(shell),
                searched,
                target_is_windows,
            );
            named == seq![vstd::utf8::encode_utf8(shell)] && found_shell(named, seq![true])
                == Some(shell)
        }),
{
    broadcast use vstd::utf8::encode_utf8_valid_utf8, vstd::utf8::encode_utf8_decode_utf8;

    reveal_with_fuel(first_executable, 2);
    assert(seq![true].drop_last() =~= Seq::<bool>::empty());
}

/// The configured shell is used unless it is blank; then, except on Windows, the
/// one of the environment unless that is blank; then the platform's own. White space
/// around the name does not count.
pub proof fn configured_shells_come_first(
    configured: &str,
    env_shell: Option<String>,
    target_is_windows: bool,
    r: String,
)
    requires
        call_ensures(pane_shell_for_target, (configured, env_shell, target_is_windows), r),
    ensures
        ({
            let is_set = exists|i: int|
                0 <= i < configured@.len() && !text::is_white_space(#[trigger] configured@[i]);
            let env_is_set = env_shell is Some && exists|i: int|
                0 <= i < env_shell->0@.len() && !text::is_white_space(#[trigger] env_shell->0@[i]);
            &&& is_set ==> r@ == text::trimmed(configured@)
            &&& !is_set && env_is_set && !target_is_windows ==> r@ == text::trimmed(
                env_shell->0@,
            )
            &&& !is_set && !target_is_windows && !env_is_set ==> r@ == "/bin/sh"@
            &&& !is_set && target_is_windows ==> r@ == "powershell.exe"@
        }),
{
    blank_texts_trim_to_nothing(configured@);
    if let Some(shell) = env_shell {
        blank_texts_trim_to_nothing(shell@);
    }
}

proof fn blank_texts_trim_to_nothing(s: Seq<char>)
    ensures
        text::trimmed(s).len() > 0 <==> exists|i: int|
            0 <= i < s.len() && !text::is_white_space(#[trigger] s[i]),
{
    let a = text::trims_take_white_space(s);
    let t = text::trimmed(s);
    if t.len() > 0 {
        assert(s[a] == t.first());
    }
}

/// The shell of this platform is chosen as on any but Windows, and without
/// anything configured it is the system's.
pub proof fn this_platform_is_not_windows(
    configured: &str,
    env_shell: Option<String>,
    here: String,
    there: String,
    default: String,
)
    requires
        call_ensures(pane_shell_from, (configured, env_shell), here),
        call_ensures(pane_shell_for_target, (configured, env_shell, false), there),
        call_ensures(default_pane_shell, (), default),
    ensures
        here@ == there@,
        default@ == "/bin/sh"@,
{
}

/// A login shell is run where the mode says so, and in automatic mode on macOS.
pub proof fn modes_decide_on_login(mode: ShellModeConfig, target_is_macos: bool, r: bool)
    requires
        call_ensures(shell_mode_uses_login_shell, (mode, target_is_macos), r),
    ensures
        mode is Login ==> r,
        mode is NonLogin ==> !r,
        mode is Auto ==> (r <==> target_is_macos),
{
}

/// A file can be executed if anyone may execute it; on Windows every file can. What
/// is no file never can.
pub proof fn executables_have_an_execute_bit(
    is_file: bool,
    mode: u32,
    target_is_windows: bool,
    r: bool,
)
    requires
        call_ensures(is_executable_file_for_target, (is_file, mode, target_is_windows), r),
    ensures
        !is_file ==> !r,
        is_file && target_is_windows ==> r,
        is_file && !target_is_windows ==> (r <==> mode & 1 == 1 || (mode >> 3) & 1 == 1 || (mode
            >> 6) & 1 == 1),
{
    assert((mode & 0o111 != 0) <==> (mode & 1 == 1 || (mode >> 3) & 1 == 1 || (mode >> 6) & 1
        == 1)) by (bit_vector);
}

/// A search path is cut at its separators: the entries before one and behind it
/// follow one another, and what holds none is an entry of its own.
pub proof fn search_paths_are_cut_at_separators(a: Seq<u8>, b: Seq<u8>, dir: Seq<u8>, sep: u8)
    requires
        !dir.contains(sep),
    ensures
        split_bytes(a.push(sep) + b, sep) == split_bytes(a, sep) + split_bytes(b, sep),
        split_bytes(b, sep).len() > 0,
        split_bytes(dir, sep) == seq![dir],
    decreases b.len() + dir.len(),
{
    let s = a.push(sep) + b;
    if b.len() == 0 {
        assert(s =~= a.push(sep));
        assert(s.drop_last() =~= a);
        assert(split_bytes(s, sep) =~= split_bytes(a, sep) + split_bytes(b, sep));
        if dir.len() > 0 {
            assert(dir.contains(dir.last()));
            assert forall|x: u8| dir.drop_last().contains(x) implies dir.contains(x) by {
                let i = dir.drop_last().index_of(x);
                assert(dir[i] == x);
            }
            search_paths_are_cut_at_separators(a, b, dir.drop_last(), sep);
            assert(dir.drop_last().push(dir.last()) =~= dir);
            assert(split_bytes(dir, sep) =~= seq![dir]);
        } else {
            assert(dir =~= Seq::<u8>::empty());
        }
    } else {
        search_paths_are_cut_at_separators(a, b.drop_last(), dir, sep);
        assert(s.drop_last() =~= a.push(sep) + b.drop_last());
        assert(s.last() == b.last());
        assert(split_bytes(s, sep) =~= split_bytes(a, sep) + split_bytes(b, sep));
    }
}

/// A shell named by a path is looked for there alone; any other in every directory
/// of the search path, in order, and nowhere without one.
pub proof fn shells_are_looked_for_on_the_path(
    shell: Vec<u8>,
    path: Option<Vec<u8>>,
    r: Vec<Vec<u8>>,
    i: int,
)
    requires
        call_ensures(login_shell_candidates, (&shell, path), r),
    ensures
        shell@.contains('/' as u8) ==> r@.len() == 1 && r@[0]@ == shell@,
        !shell@.contains('/' as u8) && path is None ==> r@.len() == 0,
        !shell@.contains('/' as u8) && path is Some ==> ({
            let dirs = split_bytes(path->0@, ':' as u8);
            &&& r@.len() == dirs.len()
            &&& 0 <= i < dirs.len() ==> {
                &&& dirs[i].len() == 0 ==> r@[i]@ == shell@
                &&& dirs[i].len() > 0 && dirs[i].last() == '/' as u8 ==> r@[i]@ == dirs[i] + shell@
                &&& dirs[i].len() > 0 && dirs[i].last() != '/' as u8 ==> r@[i]@ == dirs[i]
                    + seq!['/' as u8] + shell@
            }
        }),
{
    assert(command::argv_view(r@).len() == r@.len());
    if shell@.contains('/' as u8) {
        assert(command::argv_view(r@)[0] == r@[0]@);
    } else if path is Some {
        let dirs = split_bytes(path->0@, ':' as u8);
        if 0 <= i < dirs.len() {
            assert(command::argv_view(r@)[i] == r@[i]@);
            assert(command::argv_view(r@)[i] == in_dir(dirs[i], shell@));
            assert(dirs[i].push(0x2f) + shell@ =~= dirs[i] + seq!['/' as u8] + shell@);
            if dirs[i].len() == 0 {
                assert(dirs[i] + shell@ =~= shell@);
            }
        }
    }
}

/// The first executable candidate is the one found: it can be executed, and none
/// before it can. None is found only if none can be executed.
pub proof fn the_first_executable_is_found(executable: Seq<bool>, k: int)
    ensures
        first_executable(executable) matches Some(i) ==> 0 <= i < executable.len() && executable[i]
            && (0 <= k < i ==> !executable[k]),
        first_executable(executable) is None ==> (0 <= k < executable.len() ==> !executable[k]),
    decreases executable.len(),
{
    if executable.len() > 0 {
        the_first_executable_is_found(executable.drop_last(), k);
    }
}

/// A shell resolves to the first candidate that can be executed, or to an error
/// that names it: that it cannot be executed if it was named by a path, that it is
/// not on the search path otherwise.
pub proof fn shells_resolve_to_an_executable(
    shell: String,
    candidates: Vec<Vec<u8>>,
    executable: Vec<bool>,
    r: Result<String, ShellError>,
    k: int,
)
    requires
        candidates@.len() == executable@.len(),
        call_ensures(resolve_shell_for_login_mode, (shell, &candidates, &executable), r),
        forall|i: int|
            0 <= i < candidates@.len() ==> vstd::utf8::valid_utf8((#[trigger] candidates@[i])@),
    ensures
        0 <= k < executable@.len() && executable@[k] ==> r is Ok,
        0 <= k < executable@.len() && executable@[k] && (forall|i: int|
            0 <= i < k ==> !#[trigger] executable@[i]) ==> r is Ok && r->Ok_0@
            == vstd::utf8::decode_utf8(candidates@[k]@),
        (forall|i: int| 0 <= i < executable@.len() ==> !#[trigger] executable@[i]) ==> r is Err,
        r is Err && vstd::utf8::encode_utf8(shell@).contains('/' as u8) ==> r->Err_0
            == ShellError::NotExecutable(shell),
        r is Err && !vstd::utf8::encode_utf8(shell@).contains('/' as u8) ==> r->Err_0
            == ShellError::NotOnPath(shell),
{
    the_first_executable_is_found(executable@, k);
    if let Some(i) = first_executable(executable@) {
        assert(command::argv_view(candidates@)[i] == candidates@[i]@);
        if 0 <= k < i {
            the_first_executable_is_found(executable@, k);
        }
    }
}

/// PowerShell is known by the four names its file can have, and by the name of the
/// shell where there is no file name.
pub proof fn powershell_goes_by_four_names(
    shell: &str,
    file_name: Option<String>,
    name: Seq<char>,
    r: bool,
)
    requires
        call_ensures(is_windows_powershell_shell, (shell, file_name), r),
        file_name matches Some(n) ==> name == n@,
        file_name is None ==> name == shell@,
        forall|i: int| 0 <= i < name.len() ==> !('A' <= #[trigger] name[i] <= 'Z'),
    ensures
        r <==> name == "powershell"@ || name == "powershell.exe"@ || name == "pwsh"@ || name
            == "pwsh.exe"@,
{
    let folded = name.map_values(|c: char| lower(c));
    assert(folded =~= name);
}

/// The case of a name does not count.
pub proof fn names_are_compared_without_case(a: Seq<char>, b: Seq<char>)
    requires
        a.len() == b.len(),
        forall|i: int|
            0 <= i < a.len() ==> a[i] == b[i] || ('A' <= #[trigger] a[i] <= 'Z' && b[i] as int
                == a[i] as int + 32),
    ensures
        is_powershell_name(a) == is_powershell_name(b),
{
    let f = |c: char| lower(c);
    assert forall|i: int| 0 <= i < a.len() implies lower(#[trigger] a[i]) == lower(b[i]) by {}
    assert(a.map_values(f) =~= b.map_values(f));
}

/// PowerShell on Windows is asked to stay and to run the prompt that reports its
/// directory; every other shell is left as it is.
pub proof fn only_powershell_is_wrapped(
    cmd: &mut CommandBuilder,
    target_is_windows: bool,
    is_powershell: bool,
    wrapper: &'static str,
)
    requires
        old(cmd)@.argv.len() > 0,
        call_ensures(
            apply_windows_powershell_cwd_reporting,
            (cmd, target_is_windows, is_powershell),
            (),
        ),
        call_ensures(windows_powershell_cwd_prompt_wrapper, (), wrapper),
    ensures
        !target_is_windows || !is_powershell ==> final(cmd)@ == old(cmd)@,
        target_is_windows && is_powershell ==> final(cmd)@.argv == old(cmd)@.argv + seq![
            vstd::utf8::encode_utf8("-NoExit"@),
            vstd::utf8::encode_utf8("-Command"@),
            vstd::utf8::encode_utf8(wrapper@),
        ],
        final(cmd)@.cwd == old(cmd)@.cwd,
        final(cmd)@.env == old(cmd)@.env,
{
    if target_is_windows && is_powershell {
        assert(final(cmd)@.argv =~= old(cmd)@.argv + seq![
            vstd::utf8::encode_utf8("-NoExit"@),
            vstd::utf8::encode_utf8("-Command"@),
            vstd::utf8::encode_utf8(wrapper@),
        ]);
    }
}

/// A pane's shell, where it is no login shell and the platform is not Windows, is
/// the chosen shell alone. A login shell is the default program, with the shell
/// found in its environment; where none is found, that is the error.
pub proof fn shells_are_run_by_mode<
    R: FnOnce(String) -> Result<String, ShellError>,
    N: FnOnce(String) -> Option<String>,
>(
    config: PaneShellConfig<'_>,
    env_shell: Option<String>,
    target: Target,
    resolve: R,
    file_name: N,
    chosen: String,
    r: Result<CommandBuilder, ShellError>,
)
    requires
        is_shell_command(r, config, env_shell, target, resolve, file_name),
        call_ensures(
            pane_shell_for_target,
            (config.default_shell, env_shell, target.is_windows),
            chosen,
        ),
    ensures
        ({
            let login = config.mode is Login || config.mode is Auto && target.is_macos;
            let key = vstd::utf8::encode_utf8("SHELL"@);
            &&& !login && !target.is_windows ==> r is Ok && r->Ok_0@.argv == seq![
                vstd::utf8::encode_utf8(chosen@),
            ] && r->Ok_0@.cwd is None && r->Ok_0@.env.len() == 0
            &&& !login ==> r is Ok && r->Ok_0@.argv.len() > 0 && r->Ok_0@.argv[0]
                == vstd::utf8::encode_utf8(chosen@)
            &&& !login && target.is_windows ==> exists|s: String, name: Option<String>|
                s@ == chosen@ && #[trigger] call_ensures(file_name, (s,), name) && ({
                    let known = if name is Some {
                        is_powershell_name(name->0@)
                    } else {
                        is_powershell_name(chosen@)
                    };
                    (known ==> r->Ok_0@.argv.len() == 4) && (!known ==> r->Ok_0@.argv.len() == 1)
                })
            &&& login ==> exists|s: String, found: Result<String, ShellError>|
                s@ == chosen@ && #[trigger] call_ensures(resolve, (s,), found) && (found is Ok
                    <==> r is Ok) && (found matches Ok(path) ==> r->Ok_0@.argv.len() == 0
                    && r->Ok_0@.vars().contains_key(key) && r->Ok_0@.vars()[key]
                    == vstd::utf8::encode_utf8(path@)) && (found matches Err(e) ==> r->Err_0 == e)
        }),
{
}

} // verus!
