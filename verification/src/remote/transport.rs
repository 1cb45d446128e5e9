//! Calling a helper on a target of either kind.

use vstd::prelude::*;

use crate::json;
use crate::remote::auth::{self, AuthRuntimeOptions, RuntimeView};
use crate::remote::shell;
use crate::remote::ssh::{self, CommandOutcome, HelperStep, SshCommandSpec};
use crate::remote::ssh_output;
use crate::remote::types::{
    self, ErrorView, HostView, RemoteError, RemoteHostProfile, RemoteTargetKind,
};
use crate::remote::wsl;
use crate::text::chars;

verus! {

/// A program with its arguments and its environment.
#[derive(Debug)]
pub struct TargetCommand {
    pub program: String,
    pub args: Vec<String>,
    pub env: Vec<(String, String)>,
}

/// The contents of a command.
pub struct CommandView {
    pub program: Seq<char>,
    pub args: Seq<Seq<char>>,
    pub env: Seq<(Seq<char>, Seq<char>)>,
}

impl View for TargetCommand {
    type V = CommandView;

    open spec fn view(&self) -> CommandView {
        CommandView {
            program: self.program@,
            args: chars::texts(self.args@),
            env: chars::pairs(self.env@),
        }
    }
}

/// The command that has a target of either kind run a script: `over_ssh` on a
/// server, `in_wsl` in a distribution.
pub open spec fn target_command(
    p: HostView,
    runtime: RuntimeView,
    over_ssh: Seq<char>,
    in_wsl: Seq<char>,
) -> CommandView {
    match p.kind {
        RemoteTargetKind::Ssh => CommandView {
            program: "ssh"@,
            args: ssh::ssh_args(p, runtime, over_ssh),
            env: auth::plan(p, runtime).env,
        },
        RemoteTargetKind::Wsl => CommandView {
            program: wsl::WSL_EXE@,
            args: wsl::wsl_args(p, in_wsl),
            env: Seq::empty(),
        },
    }
}

/// A call of `ssh`.
fn ssh_call(spec: SshCommandSpec) -> (r: TargetCommand)
    ensures
        r@.program == "ssh"@,
        r@.args == chars::texts(spec.args@),
        r@.env == chars::pairs(spec.env@),
{
    TargetCommand { program: "ssh".to_string(), args: spec.args, env: spec.env }
}

/// A call of `wsl.exe`.
fn wsl_call(args: Vec<String>) -> (r: TargetCommand)
    ensures
        r@.program == wsl::WSL_EXE@,
        r@.args == chars::texts(args@),
        r@.env == Seq::<(Seq<char>, Seq<char>)>::empty(),
{
    let r = TargetCommand { program: wsl::WSL_EXE.to_string(), args, env: Vec::new() };
    assert(r@.env =~= Seq::empty());
    r
}

/// The command that calls a helper.
pub fn helper_call(
    profile: &RemoteHostProfile,
    helper_args: &Vec<String>,
    runtime: AuthRuntimeOptions,
) -> (r: TargetCommand)
    ensures
        ({
            let line = shell::helper_command(profile@.helper_path, chars::texts(helper_args@));
            r@ == target_command(profile@, runtime@, line, line)
        }),
{
    match profile.kind {
        RemoteTargetKind::Ssh => ssh_call(
            ssh::build_ssh_command_spec(profile, helper_args, runtime),
        ),
        RemoteTargetKind::Wsl => wsl_call(wsl::build_wsl_args(profile, helper_args)),
    }
}

/// The command that installs a helper: by a download on a server; in a
/// distribution it only looks whether there is one.
pub fn helper_install_call(
    profile: &RemoteHostProfile,
    runtime: AuthRuntimeOptions,
    chosen_repo: Option<&str>,
) -> (r: TargetCommand)
    ensures
        r@ == target_command(
            profile@,
            runtime@,
            ssh::download_script(
                profile@.helper_path,
                ssh::release_repo(chars::opt_str(chosen_repo)),
            ),
            wsl::probe_script(profile@.helper_path),
        ),
{
    match profile.kind {
        RemoteTargetKind::Ssh => ssh_call(
            ssh::build_helper_install_command_spec(profile, runtime, chosen_repo),
        ),
        RemoteTargetKind::Wsl => {
            let script = wsl::build_probe_script(profile);
            wsl_call(wsl::build_wsl_shell_args(profile, script.as_str()))
        },
    }
}

/// The command that stores its standard input as the helper.
pub fn helper_upload_call(profile: &RemoteHostProfile, runtime: AuthRuntimeOptions) -> (r:
    TargetCommand)
    ensures
        r@ == target_command(
            profile@,
            runtime@,
            ssh::upload_script(profile@.helper_path),
            wsl::upload_script(profile@.helper_path),
        ),
{
    match profile.kind {
        RemoteTargetKind::Ssh => ssh_call(
            ssh::build_helper_stdin_install_command_spec(profile, runtime),
        ),
        RemoteTargetKind::Wsl => {
            let script = wsl::build_upload_script(profile);
            wsl_call(wsl::build_wsl_shell_args(profile, script.as_str()))
        },
    }
}

/// The command that reports the platform of a target.
pub fn platform_call(profile: &RemoteHostProfile, runtime: AuthRuntimeOptions) -> (r: TargetCommand)
    ensures
        r@ == target_command(profile@, runtime@, ssh::PLATFORM_SCRIPT@, wsl::PLATFORM_SCRIPT@),
{
    match profile.kind {
        RemoteTargetKind::Ssh => ssh_call(
            ssh::build_ssh_script_spec(profile, ssh::PLATFORM_SCRIPT, runtime),
        ),
        RemoteTargetKind::Wsl => wsl_call(
            wsl::build_wsl_shell_args(profile, wsl::PLATFORM_SCRIPT),
        ),
    }
}

/// What a helper command on a target yields.
pub open spec fn target_result(
    p: HostView,
    outcome: CommandOutcome,
    timeout_secs: u64,
    details: Seq<char>,
) -> Result<Seq<char>, ErrorView> {
    match p.kind {
        RemoteTargetKind::Ssh => ssh::command_result(p, outcome, timeout_secs, details),
        RemoteTargetKind::Wsl => wsl::wsl_result(p, outcome, timeout_secs),
    }
}

/// What storing a helper on a target yields.
pub open spec fn target_upload_result(p: HostView, outcome: CommandOutcome) -> Result<
    Seq<char>,
    ErrorView,
> {
    match p.kind {
        RemoteTargetKind::Ssh => ssh::upload_result(p, outcome),
        RemoteTargetKind::Wsl => wsl::wsl_result(p, outcome, ssh::SLOW_CMD_TIMEOUT_SECS),
    }
}

/// What a helper command on a target yields.
pub fn collect_command(
    profile: &RemoteHostProfile,
    outcome: CommandOutcome,
    timeout_secs: u64,
    details: &str,
) -> (r: Result<String, RemoteError>)
    ensures
        types::outcome(r) == target_result(profile@, outcome, timeout_secs, details@),
{
    match profile.kind {
        RemoteTargetKind::Ssh => ssh::run_ssh_command(profile, outcome, timeout_secs, details),
        RemoteTargetKind::Wsl => wsl::collect_wsl_output(profile, outcome, timeout_secs),
    }
}

/// What storing a helper on a target yields.
pub fn install_helper_from_stdin(profile: &RemoteHostProfile, outcome: CommandOutcome) -> (r:
    Result<String, RemoteError>)
    ensures
        types::outcome(r) == target_upload_result(profile@, outcome),
{
    match profile.kind {
        RemoteTargetKind::Ssh => ssh::install_helper_from_stdin(profile, outcome),
        RemoteTargetKind::Wsl => wsl::collect_wsl_output(
            profile,
            outcome,
            ssh::SLOW_CMD_TIMEOUT_SECS,
        ),
    }
}

/// The platform that a run of the platform command reports.
pub open spec fn reported_platform(p: HostView, outcome: CommandOutcome) -> Result<
    (Seq<char>, Seq<char>),
    ErrorView,
> {
    match p.kind {
        RemoteTargetKind::Ssh => match ssh::script_result(
            p,
            outcome,
            ssh::DEFAULT_CMD_TIMEOUT_SECS,
            ssh::PLATFORM_SCRIPT@,
        ) {
            Ok(out) => ssh::platform(out),
            Err(e) => Err(e),
        },
        RemoteTargetKind::Wsl => match wsl::wsl_result(p, outcome, ssh::DEFAULT_CMD_TIMEOUT_SECS) {
            Ok(out) => match wsl::platform(out) {
                Some(named) => Ok(named),
                None => Err(
                    types::fault(
                        "wsl_platform_parse_failed"@,
                        "无法识别 WSL 发行版的平台信息"@,
                        Some(out),
                        false,
                        "请确认该 WSL 发行版可以执行 uname。"@,
                    ),
                ),
            },
            Err(e) => Err(e),
        },
    }
}

/// The operating system and the processor that a run of the platform command
/// reports.
pub fn detect_remote_platform(profile: &RemoteHostProfile, outcome: CommandOutcome) -> (r: Result<
    (String, String),
    RemoteError,
>)
    ensures
        match r {
            Ok((os, arch)) => reported_platform(profile@, outcome) == Ok::<
                (Seq<char>, Seq<char>),
                ErrorView,
            >((os@, arch@)),
            Err(e) => reported_platform(profile@, outcome) == Err::<
                (Seq<char>, Seq<char>),
                ErrorView,
            >(e@),
        },
{
    match profile.kind {
        RemoteTargetKind::Ssh => match ssh::run_ssh_script(
            profile,
            ssh::PLATFORM_SCRIPT,
            outcome,
            ssh::DEFAULT_CMD_TIMEOUT_SECS,
        ) {
            Ok(out) => ssh::detect_remote_platform(out.as_str()),
            Err(e) => Err(e),
        },
        RemoteTargetKind::Wsl => match wsl::collect_wsl_output(
            profile,
            outcome,
            ssh::DEFAULT_CMD_TIMEOUT_SECS,
        ) {
            Ok(out) => wsl::detect_remote_platform(out),
            Err(e) => Err(e),
        },
    }
}

/// Whether an error of a target of the given kind is tried again.
pub open spec fn tries_again(kind: RemoteTargetKind, e: ErrorView) -> bool {
    match kind {
        RemoteTargetKind::Ssh => ssh_output::is_recoverable(e),
        RemoteTargetKind::Wsl => e.recoverable,
    }
}

/// What is done after the attempt with the number `attempt`, from 0 on, to call a
/// helper on a target of the given kind, if it may be tried again `retries` times.
pub fn helper_step(
    kind: RemoteTargetKind,
    attempt: u32,
    retries: u32,
    run: Result<String, RemoteError>,
) -> (r: HelperStep)
    requires
        attempt < 64,
    ensures
        match run {
            Ok(stdout) => {
                let line = ssh_output::reply_line(stdout@);
                r matches HelperStep::Done(reply) && ssh_output::answer(reply)
                    == ssh_output::reply_meaning(line, json::json_text(line))
            },
            Err(e) => match ssh::next_pause(
                attempt as nat,
                retries as nat,
                tries_again(kind, e@),
            ) {
                Some(secs) => r == (HelperStep::Retry { delay_secs: secs }),
                None => r matches HelperStep::Done(Err(last)) && last@ == e@,
            },
        },
{
    match kind {
        RemoteTargetKind::Ssh => ssh::helper_step(attempt, retries, run),
        RemoteTargetKind::Wsl => wsl::helper_step(attempt, retries, run),
    }
}

/// A server is reached by `ssh` with the environment of its login, a distribution by
/// `wsl.exe` with none; each runs the script that is meant for its kind, and nothing else.
pub proof fn lemma_target_command(
    p: HostView,
    runtime: RuntimeView,
    over_ssh: Seq<char>,
    in_wsl: Seq<char>,
)
    ensures
        ({
            let call = target_command(p, runtime, over_ssh, in_wsl);
            &&& p.kind is Ssh ==> call.program == "ssh"@ && call.args.last() == over_ssh && call.env
                == auth::plan(p, runtime).env
            &&& p.kind is Wsl ==> call.program == "wsl.exe"@ && call.args.last() == in_wsl
                && call.env.len() == 0
        }),
{
}

/// What a helper wrote is what its call yields on a target of either kind, if it succeeded
/// and wrote no more than a mebibyte of text; a call that did not succeed yields an error.
pub proof fn lemma_target_result(
    p: HostView,
    outcome: CommandOutcome,
    timeout_secs: u64,
    details: Seq<char>,
    text: Seq<char>,
)
    ensures
        (outcome matches CommandOutcome::Finished { success, stdout, .. } && success && stdout@
            == vstd::utf8::encode_utf8(text) && stdout@.len() <= 1024 * 1024) ==> target_result(
            p,
            outcome,
            timeout_secs,
            details,
        ) == Ok::<Seq<char>, ErrorView>(text) && target_upload_result(p, outcome) == Ok::<
            Seq<char>,
            ErrorView,
        >(text),
        !(outcome matches CommandOutcome::Finished { success: true, .. }) ==> target_result(
            p,
            outcome,
            timeout_secs,
            details,
        ) is Err,
{
    wsl::lemma_wsl_output_is_yielded(p, outcome, timeout_secs, text);
    wsl::lemma_wsl_output_is_yielded(p, outcome, ssh::SLOW_CMD_TIMEOUT_SECS, text);
    ssh::lemma_failures_are_told(p, outcome, timeout_secs, details);
    if outcome matches CommandOutcome::Finished { success, stdout, .. } && success && stdout@
        == vstd::utf8::encode_utf8(text) && stdout@.len() <= 1024 * 1024 {
        ssh::lemma_output_is_yielded(p, outcome, timeout_secs, details, text);
    }
}

/// An error that trying again does not help against ends a call on a target of either
/// kind; on a server only a fault of the network is tried again, in a distribution any
/// fault that may pass.
pub proof fn lemma_tries_again(kind: RemoteTargetKind, e: ErrorView)
    ensures
        tries_again(kind, e) ==> e.recoverable,
        kind is Wsl && e.recoverable ==> tries_again(kind, e),
        kind is Ssh && e.recoverable && (e.code == "ssh_io_error"@ || e.code
            == "ssh_connection_failed"@ || e.code == "ssh_exit_255"@ || e.code
            == "ssh_spawn_failed"@) ==> tries_again(kind, e),
        kind is Ssh && e.code == "ssh_auth_failed"@ ==> !tries_again(kind, e),
{
    reveal_strlit("ssh_auth_failed");
    reveal_strlit("ssh_io_error");
    reveal_strlit("ssh_connection_failed");
    reveal_strlit("ssh_exit_255");
    reveal_strlit("ssh_spawn_failed");
    assert("ssh_auth_failed"@.len() != "ssh_io_error"@.len());
    assert("ssh_auth_failed"@.len() != "ssh_connection_failed"@.len());
    assert("ssh_auth_failed"@.len() != "ssh_exit_255"@.len());
    assert("ssh_auth_failed"@.len() != "ssh_spawn_failed"@.len());
}

/// The platform of a distribution is read from what its script wrote; an output that names
/// none is an error with that output.
pub proof fn lemma_reported_platform(p: HostView, outcome: CommandOutcome, out: Seq<char>)
    requires
        p.kind is Wsl,
        wsl::wsl_result(p, outcome, 30) == Ok::<Seq<char>, ErrorView>(out),
    ensures
        wsl::platform(out) matches Some(named) ==> reported_platform(p, outcome) == Ok::<
            (Seq<char>, Seq<char>),
            ErrorView,
        >(named),
        wsl::platform(out) is None ==> (reported_platform(p, outcome) matches Err(e) && e.code
            == "wsl_platform_parse_failed"@ && e.details == Some(out) && !e.recoverable),
{
}

} // verus!
