use vstd::prelude::*;
use crate::text::{decimal_text, spec_decimal, spec_truncate, truncate};
use crate::types::{SshSessionRequest, StartSessionRequest, TerminalError, TerminalKind};
use crate::validation::strings_view;

verus! {

/// The environment variables a session inherits when they are set.
pub open spec fn spec_safe_env_vars() -> Seq<Seq<char>> {
    seq![
        "PATH"@,
        "HOME"@,
        "TERM"@,
        "LANG"@,
        "LC_ALL"@,
        "LC_CTYPE"@,
        "USER"@,
        "SHELL"@,
        "TMPDIR"@,
        "SystemRoot"@,
        "WINDIR"@,
        "COMSPEC"@,
        "PATHEXT"@,
        "TEMP"@,
        "TMP"@,
        "USERPROFILE"@,
        "APPDATA"@,
        "LOCALAPPDATA"@,
    ]
}

/// The environment variables a session inherits when they are set.
pub fn safe_env_vars() -> (r: Vec<&'static str>)
    ensures
        r@.map_values(|v: &'static str| v@) == spec_safe_env_vars(),
{
    let r: Vec<&'static str> = vec![
        "PATH",
        "HOME",
        "TERM",
        "LANG",
        "LC_ALL",
        "LC_CTYPE",
        "USER",
        "SHELL",
        "TMPDIR",
        "SystemRoot",
        "WINDIR",
        "COMSPEC",
        "PATHEXT",
        "TEMP",
        "TMP",
        "USERPROFILE",
        "APPDATA",
        "LOCALAPPDATA",
    ];
    assert(r@.map_values(|v: &'static str| v@) == spec_safe_env_vars());
    r
}

/// The texts of a list of name/value pairs.
pub open spec fn pairs_view(v: Seq<(String, String)>) -> Seq<(Seq<char>, Seq<char>)> {
    v.map_values(|p: (String, String)| (p.0@, p.1@))
}

/// The environment of a session, in the order it is applied: the inherited
/// safe variables, then `TERM=xterm-256color` and `OPENHUMAN_TERMINAL=1`.
pub fn configure_command_env(inherited: Vec<(String, String)>) -> (r: Vec<(String, String)>)
    ensures
        pairs_view(r@) == pairs_view(inherited@) + seq![
            ("TERM"@, "xterm-256color"@),
            ("OPENHUMAN_TERMINAL"@, "1"@),
        ],
{
    let mut r = inherited;
    let ghost start = r@;
    r.push((String::from_str("TERM"), String::from_str("xterm-256color")));
    r.push((String::from_str("OPENHUMAN_TERMINAL"), String::from_str("1")));
    assert(pairs_view(r@) == pairs_view(start) + seq![
        ("TERM"@, "xterm-256color"@),
        ("OPENHUMAN_TERMINAL"@, "1"@),
    ]);
    r
}

/// The SSH destination: `user@host` when a non-empty user is given, else the host.
pub open spec fn spec_ssh_target(ssh: SshSessionRequest) -> Seq<char> {
    match ssh.user {
        Some(u) if u@.len() > 0 => u@ + "@"@ + ssh.host@,
        _ => ssh.host@,
    }
}

/// The SSH destination of a request.
pub fn ssh_target(ssh: &SshSessionRequest) -> (r: String)
    ensures
        r@ == spec_ssh_target(*ssh),
{
    match &ssh.user {
        Some(user) if user.as_str().unicode_len() > 0 => user.clone().concat("@").concat(
            ssh.host.as_str(),
        ),
        _ => ssh.host.clone(),
    }
}

/// The label a start request is audited and approved under.
pub open spec fn spec_command_label(request: StartSessionRequest, cwd: Seq<char>) -> Seq<char> {
    match request.kind {
        TerminalKind::Local => match request.command {
            Some(c) => "local:"@ + cwd + ":"@ + spec_truncate(c@, 160),
            None => "local-shell:"@ + cwd,
        },
        TerminalKind::Ssh => {
            let ssh = request.ssh->0;
            let port: u16 = match ssh.port {
                Some(p) => p,
                None => 22,
            };
            "ssh:"@ + spec_ssh_target(ssh) + ":"@ + spec_decimal(port as nat)
        },
    }
}

/// The label a start request is audited and approved under: the working
/// directory and (shortened) command of a local session, or the SSH
/// destination and port (22 by default).
pub fn command_label(request: &StartSessionRequest, cwd: &str) -> (r: String)
    requires
        request.kind == TerminalKind::Ssh ==> request.ssh is Some,
    ensures
        r@ == spec_command_label(*request, cwd@),
{
    match request.kind {
        TerminalKind::Local => match &request.command {
            Some(command) => String::from_str("local:").concat(cwd).concat(":").concat(
                truncate(command.as_str(), 160).as_str(),
            ),
            None => String::from_str("local-shell:").concat(cwd),
        },
        TerminalKind::Ssh => {
            let ssh = request.ssh.as_ref().unwrap();
            let port: u16 = match ssh.port {
                Some(p) => p,
                None => 22,
            };
            String::from_str("ssh:").concat(ssh_target(ssh).as_str()).concat(":").concat(
                decimal_text(port as u64).as_str(),
            )
        },
    }
}

/// A program to run in the terminal: its path, arguments and working
/// directory (the caller's when absent).
#[derive(Debug)]
pub struct CommandPlan {
    pub program: String,
    pub args: Vec<String>,
    pub cwd: Option<String>,
}

/// The arguments of the `ssh` invocation: the port, a forced TTY, the
/// extra arguments and the destination, in that order.
pub open spec fn spec_ssh_args(ssh: SshSessionRequest) -> Seq<Seq<char>> {
    let port_args = match ssh.port {
        Some(p) => seq!["-p"@, spec_decimal(p as nat)],
        None => Seq::empty(),
    };
    let tty_args = if ssh.request_tty {
        seq!["-tt"@]
    } else {
        Seq::empty()
    };
    port_args + tty_args + strings_view(ssh.extra_args@) + seq![spec_ssh_target(ssh)]
}

/// The `ssh` invocation for a request with SSH parameters.
pub fn build_ssh_command(request: &StartSessionRequest) -> (r: CommandPlan)
    requires
        request.ssh is Some,
    ensures
        r.program@ == "ssh"@,
        strings_view(r.args@) == spec_ssh_args(request.ssh->0),
        r.cwd is None,
{
    let ssh = request.ssh.as_ref().unwrap();
    let mut args: Vec<String> = Vec::new();
    match ssh.port {
        Some(port) => {
            args.push(String::from_str("-p"));
            args.push(decimal_text(port as u64));
        },
        None => {},
    }
    if ssh.request_tty {
        args.push(String::from_str("-tt"));
    }
    let ghost head = strings_view(args@);
    let mut i: usize = 0;
    while i < ssh.extra_args.len()
        invariant
            0 <= i <= ssh.extra_args@.len(),
            strings_view(args@) == head + strings_view(ssh.extra_args@).take(i as int),
        decreases ssh.extra_args@.len() - i,
    {
        let ghost before = strings_view(args@);
        args.push(ssh.extra_args[i].clone());
        assert(strings_view(ssh.extra_args@).take(i + 1) == strings_view(ssh.extra_args@).take(
            i as int,
        ).push(ssh.extra_args@[i as int]@));
        assert(strings_view(args@) == before.push(ssh.extra_args@[i as int]@));
        i = i + 1;
    }
    assert(strings_view(ssh.extra_args@).take(ssh.extra_args@.len() as int) == strings_view(
        ssh.extra_args@,
    ));
    let ghost mid = strings_view(args@);
    args.push(ssh_target(ssh));
    assert(strings_view(args@) == mid.push(spec_ssh_target(*ssh)));
    CommandPlan { program: String::from_str("ssh"), args, cwd: None }
}

/// The shell a local session runs: the requested one, else the caller's
/// `SHELL`, else the platform default.
pub open spec fn spec_local_shell(
    request: StartSessionRequest,
    env_shell: Option<String>,
    windows: bool,
) -> Seq<char> {
    match request.shell {
        Some(s) => s@,
        None => match env_shell {
            Some(s) => s@,
            None => if windows {
                "cmd.exe"@
            } else {
                "/bin/sh"@
            },
        },
    }
}

/// `plan` runs a local session in `cwd`: on Windows, or without a command,
/// the shell with no arguments; otherwise `/bin/sh -lc "exec <command>"`.
pub open spec fn is_local_plan(
    plan: CommandPlan,
    request: StartSessionRequest,
    env_shell: Option<String>,
    windows: bool,
    cwd: Seq<char>,
) -> bool {
    &&& plan.cwd matches Some(c) && c@ == cwd
    &&& (windows || request.command is None) ==> plan.program@ == spec_local_shell(
        request,
        env_shell,
        windows,
    ) && plan.args@.len() == 0
    &&& (!windows && request.command is Some) ==> plan.program@ == "/bin/sh"@ && strings_view(
        plan.args@,
    ) == seq!["-lc"@, "exec "@ + (request.command->0)@]
}

/// The invocation for a local session in `cwd`: on Windows the shell
/// itself; elsewhere `/bin/sh -lc "exec <command>"` for a command, else the
/// shell.
pub fn build_local_command(
    request: &StartSessionRequest,
    env_shell: Option<String>,
    windows: bool,
    cwd: String,
) -> (r: CommandPlan)
    ensures
        is_local_plan(r, *request, env_shell, windows, cwd@),
{
    let shell = match &request.shell {
        Some(s) => s.clone(),
        None => match env_shell {
            Some(s) => s,
            None => if windows {
                String::from_str("cmd.exe")
            } else {
                String::from_str("/bin/sh")
            },
        },
    };
    if windows {
        return CommandPlan { program: shell, args: Vec::new(), cwd: Some(cwd) };
    }
    match &request.command {
        Some(command) => {
            let mut args: Vec<String> = Vec::new();
            args.push(String::from_str("-lc"));
            args.push(String::from_str("exec ").concat(command.as_str()));
            assert(strings_view(args@) == seq!["-lc"@, "exec "@ + command@]);
            CommandPlan { program: String::from_str("/bin/sh"), args, cwd: Some(cwd) }
        },
        None => CommandPlan { program: shell, args: Vec::new(), cwd: Some(cwd) },
    }
}

/// The invocation for a request: the local shell or command in the
/// resolved working directory, or `ssh`. A local session fails when its
/// working directory could not be resolved.
pub fn build_command(
    request: &StartSessionRequest,
    env_shell: Option<String>,
    windows: bool,
    cwd: Result<String, TerminalError>,
) -> (r: Result<CommandPlan, TerminalError>)
    requires
        request.kind == TerminalKind::Ssh ==> request.ssh is Some,
    ensures
        request.kind == TerminalKind::Local ==> match cwd {
            Err(e) => r matches Err(f) && f == e,
            Ok(c) => (r matches Ok(p) && is_local_plan(p, *request, env_shell, windows, c@)),
        },
        request.kind == TerminalKind::Ssh ==> (r matches Ok(p) && p.program@ == "ssh"@
            && strings_view(p.args@) == spec_ssh_args(request.ssh->0)),
{
    match request.kind {
        TerminalKind::Local => {
            let dir = cwd?;
            Ok(build_local_command(request, env_shell, windows, dir))
        },
        TerminalKind::Ssh => Ok(build_ssh_command(request)),
    }
}

/// `path` lies under `root`: the components of `root` begin those of `path`.
pub open spec fn spec_path_starts_with(root: Seq<Seq<char>>, path: Seq<Seq<char>>) -> bool {
    root.len() <= path.len() && path.take(root.len() as int) == root
}

/// Accepts a resolved working directory only inside the workspace root,
/// both given as their path components.
pub fn check_cwd_inside(root: &Vec<String>, resolved: &Vec<String>) -> (r: Result<(), TerminalError>)
    ensures
        r is Ok <==> spec_path_starts_with(strings_view(root@), strings_view(resolved@)),
        r matches Err(e) ==> e@ == crate::types::TerminalErrorView::Failed(
            "terminal cwd must be inside the OpenHuman workspace"@,
        ),
{
    let ghost rv = strings_view(root@);
    let ghost pv = strings_view(resolved@);
    if root.len() > resolved.len() {
        return Err(
            TerminalError::Failed {
                message: String::from_str("terminal cwd must be inside the OpenHuman workspace"),
            },
        );
    }
    let mut i: usize = 0;
    while i < root.len()
        invariant
            root@.len() <= resolved@.len(),
            rv == strings_view(root@),
            pv == strings_view(resolved@),
            0 <= i <= root@.len(),
            forall|k: int| 0 <= k < i ==> #[trigger] rv[k] == pv[k],
        decreases root@.len() - i,
    {
        if root[i] != resolved[i] {
            assert(pv.take(rv.len() as int)[i as int] != rv[i as int]);
            return Err(
                TerminalError::Failed {
                    message: String::from_str("terminal cwd must be inside the OpenHuman workspace"),
                },
            );
        }
        i = i + 1;
    }
    assert(pv.take(rv.len() as int) =~= rv);
    Ok(())
}


/// A local interactive shell (on Windows, or without a command) runs the
/// shell the request names, whatever the caller's `SHELL` is; `SHELL` is
/// used only when the request names none, and the platform default
/// (`cmd.exe` on Windows, `/bin/sh` elsewhere) only when neither is set.
/// The shell gets no arguments.
pub proof fn lemma_requested_shell_wins(
    plan: CommandPlan,
    request: StartSessionRequest,
    env_shell: Option<String>,
    windows: bool,
    cwd: Seq<char>,
)
    requires
        is_local_plan(plan, request, env_shell, windows, cwd),
        windows || request.command is None,
    ensures
        request.shell matches Some(s) ==> plan.program@ == s@,
        request.shell is None && env_shell is Some ==> plan.program@ == env_shell->0@,
        request.shell is None && env_shell is None && windows ==> plan.program@ == "cmd.exe"@,
        request.shell is None && env_shell is None && !windows ==> plan.program@ == "/bin/sh"@,
        plan.args@.len() == 0,
{
}

/// A command outside Windows runs as `/bin/sh -lc "exec <command>"`, whatever
/// shell the request or the caller's `SHELL` names.
pub proof fn lemma_command_runs_under_sh(
    plan: CommandPlan,
    request: StartSessionRequest,
    env_shell: Option<String>,
    cwd: Seq<char>,
)
    requires
        is_local_plan(plan, request, env_shell, false, cwd),
        request.command is Some,
    ensures
        plan.program@ == "/bin/sh"@,
        plan.args@.len() == 2,
        plan.args@[0]@ == "-lc"@,
        plan.args@[1]@ == "exec "@ + request.command->0@,
{
    assert(strings_view(plan.args@).len() == 2);
    assert(plan.args@.len() == 2);
    assert(strings_view(plan.args@)[0] == plan.args@[0]@);
    assert(strings_view(plan.args@)[1] == plan.args@[1]@);
}

/// A session inherits a variable exactly when its name is one of `PATH`,
/// `HOME`, `TERM`, `LANG`, `LC_ALL`, `LC_CTYPE`, `USER`, `SHELL`, `TMPDIR`,
/// `SystemRoot`, `WINDIR`, `COMSPEC`, `PATHEXT`, `TEMP`, `TMP`,
/// `USERPROFILE`, `APPDATA` and `LOCALAPPDATA`.
pub proof fn lemma_inherited_names(name: Seq<char>)
    ensures
        spec_safe_env_vars().contains(name) <==> (name == "PATH"@ || name == "HOME"@ || name
            == "TERM"@ || name == "LANG"@ || name == "LC_ALL"@ || name == "LC_CTYPE"@ || name
            == "USER"@ || name == "SHELL"@ || name == "TMPDIR"@ || name == "SystemRoot"@ || name
            == "WINDIR"@ || name == "COMSPEC"@ || name == "PATHEXT"@ || name == "TEMP"@ || name
            == "TMP"@ || name == "USERPROFILE"@ || name == "APPDATA"@ || name == "LOCALAPPDATA"@),
        spec_safe_env_vars().len() == 18,
{
    let v = spec_safe_env_vars();
    if v.contains(name) {
        let i = choose|i: int| 0 <= i < v.len() && v[i] == name;
        assert(0 <= i < 18);
    } else {
        assert(v[0] == "PATH"@);
        assert(v[1] == "HOME"@);
        assert(v[2] == "TERM"@);
        assert(v[3] == "LANG"@);
        assert(v[4] == "LC_ALL"@);
        assert(v[5] == "LC_CTYPE"@);
        assert(v[6] == "USER"@);
        assert(v[7] == "SHELL"@);
        assert(v[8] == "TMPDIR"@);
        assert(v[9] == "SystemRoot"@);
        assert(v[10] == "WINDIR"@);
        assert(v[11] == "COMSPEC"@);
        assert(v[12] == "PATHEXT"@);
        assert(v[13] == "TEMP"@);
        assert(v[14] == "TMP"@);
        assert(v[15] == "USERPROFILE"@);
        assert(v[16] == "APPDATA"@);
        assert(v[17] == "LOCALAPPDATA"@);
    }
}

} // verus!
