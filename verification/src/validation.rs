use vstd::prelude::*;
use crate::text::{char_is_whitespace, contains_char, is_whitespace, str_equals};
use crate::types::{
    outcome_view, SshSessionRequest, StartSessionRequest, TerminalError, TerminalErrorView,
    TerminalKind,
};

verus! {

/// The value a size request settles on: a missing or zero request takes the
/// default, and the result is clamped into `1..=500`.
pub open spec fn spec_normalized_size(value: Option<u16>, default: u16) -> u16 {
    let chosen = match value {
        Some(v) if v > 0 => v,
        _ => default,
    };
    if chosen < 1 {
        1
    } else if chosen > 500 {
        500
    } else {
        chosen
    }
}

/// Normalizes a requested terminal dimension.
pub fn normalized_size(value: Option<u16>, default: u16) -> (r: u16)
    ensures
        r == spec_normalized_size(value, default),
        1 <= r <= 500,
{
    let chosen = match value {
        Some(v) if v > 0 => v,
        _ => default,
    };
    if chosen < 1 {
        1
    } else if chosen > 500 {
        500
    } else {
        chosen
    }
}

/// The text holds a NUL, a line feed or a carriage return.
pub open spec fn has_control_chars(value: Seq<char>) -> bool {
    value.contains('\0') || value.contains('\n') || value.contains('\r')
}

/// The text is empty or holds only whitespace.
pub open spec fn is_blank(value: Seq<char>) -> bool {
    forall|i: int| 0 <= i < value.len() ==> char_is_whitespace(#[trigger] value[i])
}

/// A character that may not appear in an SSH host or user.
pub open spec fn is_unsafe_atom_char(c: char) -> bool {
    char_is_whitespace(c) || c == ';' || c == '&' || c == '|' || c == '`' || c == '$' || c == '<'
        || c == '>'
}

/// The text holds a character that may not appear in an SSH host or user.
pub open spec fn has_unsafe_chars(value: Seq<char>) -> bool {
    exists|i: int| 0 <= i < value.len() && is_unsafe_atom_char(#[trigger] value[i])
}

/// The outcome of checking a field for control characters.
pub open spec fn spec_reject_control_chars(label: Seq<char>, value: Seq<char>) -> Result<
    (),
    TerminalErrorView,
> {
    if has_control_chars(value) {
        Err(TerminalErrorView::ControlCharacters(label))
    } else {
        Ok(())
    }
}

/// The outcome of checking an SSH host or user.
pub open spec fn spec_validate_atom(label: Seq<char>, value: Seq<char>) -> Result<
    (),
    TerminalErrorView,
> {
    if is_blank(value) {
        Err(TerminalErrorView::EmptyValue(label))
    } else if has_control_chars(value) {
        Err(TerminalErrorView::ControlCharacters(label))
    } else if has_unsafe_chars(value) {
        Err(TerminalErrorView::UnsafeCharacters(label))
    } else {
        Ok(())
    }
}

/// The SSH options a session may pass on.
pub open spec fn spec_safe_ssh_flags() -> Seq<Seq<char>> {
    seq![
        "-4"@,
        "-6"@,
        "-A"@,
        "-a"@,
        "-C"@,
        "-N"@,
        "-T"@,
        "-t"@,
        "-tt"@,
        "-v"@,
        "-vv"@,
        "-vvv"@,
    ]
}

/// The outcome of checking one extra SSH argument.
pub open spec fn spec_validate_safe_ssh_arg(arg: Seq<char>) -> Result<(), TerminalErrorView> {
    if spec_safe_ssh_flags().contains(arg) {
        Ok(())
    } else {
        Err(TerminalErrorView::UnsupportedSshArg(arg))
    }
}

/// The outcome of checking extra SSH arguments in order: the first refusal.
pub open spec fn spec_validate_ssh_args(args: Seq<Seq<char>>) -> Result<(), TerminalErrorView>
    decreases args.len(),
{
    if args.len() == 0 {
        Ok(())
    } else {
        match spec_validate_safe_ssh_arg(args[0]) {
            Err(e) => Err(e),
            Ok(()) => spec_validate_ssh_args(args.drop_first()),
        }
    }
}

/// The texts of a list of strings.
pub open spec fn strings_view(v: Seq<String>) -> Seq<Seq<char>> {
    v.map_values(|s: String| s@)
}

/// The outcome of checking SSH parameters: host, then user, then extra arguments.
pub open spec fn spec_validate_ssh_request(ssh: SshSessionRequest) -> Result<(), TerminalErrorView> {
    match spec_validate_atom("ssh host"@, ssh.host@) {
        Err(e) => Err(e),
        Ok(()) => match ssh.user {
            Some(u) => match spec_validate_atom("ssh user"@, u@) {
                Err(e) => Err(e),
                Ok(()) => spec_validate_ssh_args(strings_view(ssh.extra_args@)),
            },
            None => spec_validate_ssh_args(strings_view(ssh.extra_args@)),
        },
    }
}

/// The outcome of checking a start request.
pub open spec fn spec_validate_start_request(request: StartSessionRequest) -> Result<
    (),
    TerminalErrorView,
> {
    match request.kind {
        TerminalKind::Local => if request.ssh is Some {
            Err(TerminalErrorView::SshParamsNotAllowed)
        } else {
            match request.command {
                Some(c) if has_control_chars(c@) => Err(
                    TerminalErrorView::ControlCharacters("command"@),
                ),
                _ => match request.shell {
                    Some(s) if has_control_chars(s@) => Err(
                        TerminalErrorView::ControlCharacters("shell"@),
                    ),
                    _ => Ok(()),
                },
            }
        },
        TerminalKind::Ssh => match request.ssh {
            None => Err(TerminalErrorView::SshParamsMissing),
            Some(ssh) => spec_validate_ssh_request(ssh),
        },
    }
}

/// Refuses a field that holds a NUL, a line feed or a carriage return.
pub fn reject_control_chars(label: &'static str, value: &str) -> (r: Result<(), TerminalError>)
    ensures
        outcome_view(r) == spec_reject_control_chars(label@, value@),
{
    if contains_char(value, '\0') || contains_char(value, '\n') || contains_char(value, '\r') {
        Err(TerminalError::ControlCharacters { label })
    } else {
        Ok(())
    }
}

fn all_whitespace(value: &str) -> (r: bool)
    ensures
        r == is_blank(value@),
{
    let mut all = true;
    for ch in it: value.chars()
        invariant
            it.seq() == value@,
            all == (forall|j: int| 0 <= j < it.index() ==> char_is_whitespace(#[trigger] value@[j])),
    {
        let ghost i = it.index() as int;
        assert(ch == value@[i]);
        if !is_whitespace(ch) {
            all = false;
        }
        assert(all == (forall|j: int| 0 <= j < i + 1 ==> char_is_whitespace(#[trigger] value@[j])))
            by {
            if !all {
                assert(!char_is_whitespace(value@[i]) || !(forall|j: int|
                    0 <= j < i ==> char_is_whitespace(#[trigger] value@[j])));
            }
        }
    }
    all
}

fn any_unsafe(value: &str) -> (r: bool)
    ensures
        r == has_unsafe_chars(value@),
{
    let mut found = false;
    for ch in it: value.chars()
        invariant
            it.seq() == value@,
            found == (exists|j: int| 0 <= j < it.index() && is_unsafe_atom_char(#[trigger] value@[j])),
    {
        let ghost i = it.index() as int;
        assert(ch == value@[i]);
        if is_whitespace(ch) || ch == ';' || ch == '&' || ch == '|' || ch == '`' || ch == '$' || ch
            == '<' || ch == '>' {
            found = true;
        }
        assert(found == (exists|j: int| 0 <= j < i + 1 && is_unsafe_atom_char(#[trigger] value@[j])))
            by {
            if found && !is_unsafe_atom_char(value@[i]) {
                let j = choose|j: int| 0 <= j < i + 1 && is_unsafe_atom_char(#[trigger] value@[j]);
                assert(j < i);
            }
        }
    }
    found
}

/// Checks an SSH host or user: not blank, no control characters, and no
/// whitespace or shell metacharacters.
pub fn validate_atom(label: &'static str, value: &str) -> (r: Result<(), TerminalError>)
    ensures
        outcome_view(r) == spec_validate_atom(label@, value@),
{
    if all_whitespace(value) {
        return Err(TerminalError::EmptyValue { label });
    }
    reject_control_chars(label, value)?;
    if any_unsafe(value) {
        return Err(TerminalError::UnsafeCharacters { label });
    }
    Ok(())
}

/// Accepts only the SSH options of a fixed safe list.
pub fn validate_safe_ssh_arg(arg: &str) -> (r: Result<(), TerminalError>)
    ensures
        outcome_view(r) == spec_validate_safe_ssh_arg(arg@),
{
    let flags: Vec<&'static str> = vec![
        "-4",
        "-6",
        "-A",
        "-a",
        "-C",
        "-N",
        "-T",
        "-t",
        "-tt",
        "-v",
        "-vv",
        "-vvv",
    ];
    let ghost safe = spec_safe_ssh_flags();
    assert(flags@.map_values(|f: &'static str| f@) == safe);
    let mut i: usize = 0;
    while i < flags.len()
        invariant
            0 <= i <= flags@.len(),
            flags@.len() == safe.len(),
            safe == spec_safe_ssh_flags(),
            forall|k: int| 0 <= k < safe.len() ==> #[trigger] safe[k] == flags@[k]@,
            forall|k: int| 0 <= k < i ==> safe[k] != arg@,
        decreases flags@.len() - i,
    {
        if str_equals(arg, flags[i]) {
            assert(safe[i as int] == arg@);
            return Ok(());
        }
        i = i + 1;
    }
    Err(TerminalError::UnsupportedSshArg { arg: String::from_str(arg) })
}

fn validate_ssh_args(extra_args: &Vec<String>) -> (r: Result<(), TerminalError>)
    ensures
        outcome_view(r) == spec_validate_ssh_args(strings_view(extra_args@)),
{
    let ghost args = strings_view(extra_args@);
    let n = extra_args.len();
    assert(args.subrange(0, n as int) == args);
    let mut i: usize = 0;
    while i < n
        invariant
            n == extra_args@.len(),
            args == strings_view(extra_args@),
            0 <= i <= n,
            spec_validate_ssh_args(args) == spec_validate_ssh_args(args.subrange(i as int, n as int)),
        decreases n - i,
    {
        let ghost rest = args.subrange(i as int, n as int);
        assert(rest[0] == extra_args@[i as int]@);
        assert(rest.drop_first() == args.subrange(i + 1, n as int));
        validate_safe_ssh_arg(extra_args[i].as_str())?;
        i = i + 1;
    }
    assert(args.subrange(n as int, n as int).len() == 0);
    Ok(())
}

/// Checks SSH parameters: the host, the user when given, and every extra argument.
pub fn validate_ssh_request(ssh: &SshSessionRequest) -> (r: Result<(), TerminalError>)
    ensures
        outcome_view(r) == spec_validate_ssh_request(*ssh),
{
    validate_atom("ssh host", ssh.host.as_str())?;
    match &ssh.user {
        Some(user) => {
            validate_atom("ssh user", user.as_str())?;
        },
        None => {},
    }
    validate_ssh_args(&ssh.extra_args)
}

/// Checks a start request: a local session takes no SSH parameters and
/// its command and shell hold no control characters; an SSH session needs
/// valid SSH parameters.
pub fn validate_start_request(request: &StartSessionRequest) -> (r: Result<(), TerminalError>)
    ensures
        outcome_view(r) == spec_validate_start_request(*request),
{
    match request.kind {
        TerminalKind::Local => {
            if request.ssh.is_some() {
                return Err(TerminalError::SshParamsNotAllowed);
            }
            match &request.command {
                Some(command) => {
                    reject_control_chars("command", command.as_str())?;
                },
                None => {},
            }
            match &request.shell {
                Some(shell) => {
                    reject_control_chars("shell", shell.as_str())?;
                },
                None => {},
            }
            Ok(())
        },
        TerminalKind::Ssh => {
            match &request.ssh {
                None => Err(TerminalError::SshParamsMissing),
                Some(ssh) => validate_ssh_request(ssh),
            }
        },
    }
}

proof fn lemma_accepted_args_are_safe(args: Seq<Seq<char>>)
    requires
        spec_validate_ssh_args(args) is Ok,
    ensures
        forall|k: int| 0 <= k < args.len() ==> spec_safe_ssh_flags().contains(#[trigger] args[k]),
    decreases args.len(),
{
    if args.len() > 0 {
        lemma_accepted_args_are_safe(args.drop_first());
        assert forall|k: int| 0 <= k < args.len() implies spec_safe_ssh_flags().contains(#[trigger] args[k]) by {
            if k > 0 {
                assert(args[k] == args.drop_first()[k - 1]);
            }
        }
    }
}

/// Accepted SSH parameters are safe to hand to `ssh`: the host (and the
/// user, when given) is not blank and holds no control characters,
/// whitespace or shell metacharacters, and every extra argument is one of
/// the safe options.
pub proof fn lemma_accepted_ssh_is_safe(ssh: SshSessionRequest)
    requires
        spec_validate_ssh_request(ssh) is Ok,
    ensures
        !is_blank(ssh.host@),
        !has_control_chars(ssh.host@),
        !has_unsafe_chars(ssh.host@),
        ssh.user matches Some(u) ==> !is_blank(u@) && !has_control_chars(u@) && !has_unsafe_chars(
            u@,
        ),
        forall|k: int|
            0 <= k < ssh.extra_args@.len() ==> spec_safe_ssh_flags().contains(
                #[trigger] ssh.extra_args@[k]@,
            ),
{
    lemma_accepted_args_are_safe(strings_view(ssh.extra_args@));
    assert forall|k: int| 0 <= k < ssh.extra_args@.len() implies spec_safe_ssh_flags().contains(
        #[trigger] ssh.extra_args@[k]@,
    ) by {
        assert(strings_view(ssh.extra_args@)[k] == ssh.extra_args@[k]@);
    }
}


/// Exactly twelve extra SSH options are accepted, `-4`, `-6`, `-A`, `-a`,
/// `-C`, `-N`, `-T`, `-t`, `-tt`, `-v`, `-vv` and `-vvv`; any other
/// argument is refused as unsupported, naming that argument.
pub proof fn lemma_only_listed_ssh_flags_pass(arg: Seq<char>)
    ensures
        spec_validate_safe_ssh_arg(arg) is Ok <==> (arg == "-4"@ || arg == "-6"@ || arg == "-A"@
            || arg == "-a"@ || arg == "-C"@ || arg == "-N"@ || arg == "-T"@ || arg == "-t"@ || arg
            == "-tt"@ || arg == "-v"@ || arg == "-vv"@ || arg == "-vvv"@),
        spec_validate_safe_ssh_arg(arg) is Err ==> spec_validate_safe_ssh_arg(arg) == Err::<
            (),
            TerminalErrorView,
        >(TerminalErrorView::UnsupportedSshArg(arg)),
{
    let flags = spec_safe_ssh_flags();
    if flags.contains(arg) {
        let i = choose|i: int| 0 <= i < flags.len() && flags[i] == arg;
        assert(0 <= i < 12);
    } else {
        assert(flags[0] == "-4"@);
        assert(flags[1] == "-6"@);
        assert(flags[2] == "-A"@);
        assert(flags[3] == "-a"@);
        assert(flags[4] == "-C"@);
        assert(flags[5] == "-N"@);
        assert(flags[6] == "-T"@);
        assert(flags[7] == "-t"@);
        assert(flags[8] == "-tt"@);
        assert(flags[9] == "-v"@);
        assert(flags[10] == "-vv"@);
        assert(flags[11] == "-vvv"@);
    }
}

/// A list of extra SSH arguments passes exactly when each of them is one
/// of the twelve accepted options; otherwise the first argument that is not
/// is named in the refusal.
pub proof fn lemma_ssh_args_pass_iff_all_listed(args: Seq<Seq<char>>)
    ensures
        spec_validate_ssh_args(args) is Ok <==> forall|i: int|
            0 <= i < args.len() ==> (#[trigger] args[i] == "-4"@ || args[i] == "-6"@ || args[i]
                == "-A"@ || args[i] == "-a"@ || args[i] == "-C"@ || args[i] == "-N"@ || args[i]
                == "-T"@ || args[i] == "-t"@ || args[i] == "-tt"@ || args[i] == "-v"@ || args[i]
                == "-vv"@ || args[i] == "-vvv"@),
        spec_validate_ssh_args(args) is Err ==> exists|i: int|
            0 <= i < args.len() && spec_validate_ssh_args(args) == Err::<(), TerminalErrorView>(
                TerminalErrorView::UnsupportedSshArg(#[trigger] args[i]),
            ),
    decreases args.len(),
{
    if args.len() > 0 {
        lemma_only_listed_ssh_flags_pass(args[0]);
        lemma_ssh_args_pass_iff_all_listed(args.drop_first());
        let rest = args.drop_first();
        assert forall|i: int| 0 < i < args.len() implies args[i] == rest[i - 1] by {}
        if spec_validate_ssh_args(args) is Err && spec_validate_safe_ssh_arg(args[0]) is Ok {
            let j = choose|j: int|
                0 <= j < rest.len() && spec_validate_ssh_args(rest) == Err::<(), TerminalErrorView>(
                    TerminalErrorView::UnsupportedSshArg(#[trigger] rest[j]),
                );
            assert(args[j + 1] == rest[j]);
        }
        if spec_validate_ssh_args(args) is Ok {
            assert forall|i: int| 0 <= i < args.len() implies (#[trigger] args[i] == "-4"@ || args[i]
                == "-6"@ || args[i] == "-A"@ || args[i] == "-a"@ || args[i] == "-C"@ || args[i]
                == "-N"@ || args[i] == "-T"@ || args[i] == "-t"@ || args[i] == "-tt"@ || args[i]
                == "-v"@ || args[i] == "-vv"@ || args[i] == "-vvv"@) by {
                if i > 0 {
                    assert(args[i] == rest[i - 1]);
                }
            }
        }
    }
}

} // verus!
