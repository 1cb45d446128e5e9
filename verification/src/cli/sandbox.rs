//! The sandbox on the machine of a helper: what its program prints, and how it is found
//! and stopped.

use vstd::prelude::*;

use crate::cli::commands::{self, command_output_error};
use crate::cli::types::{self, CliEnvelope, EnvelopeView};
use crate::json::{self, parse_json, Json, JsonObject, Tree};
use crate::process::ProcessOutput;
use crate::product::{self, not_found};
use crate::text::chars::{self, cat2, cat3, cat4, push_pair, push_text};
use crate::text::encode::{self, lossy_text};
use crate::text::number::{self, exit_code_text, number_text, read_unsigned};
use crate::text::options;
use crate::text::search::{self, cut_around, includes, replaced, starts};
use crate::text::split::{self, cut_once, split_lines};
use crate::text::trim::{self, trimmed};

verus! {

/// The process identifiers that `lines` name, but for `current`.
pub open spec fn pids_named(lines: Seq<Seq<char>>, current: u32) -> Seq<u32>
    decreases lines.len(),
{
    if lines.len() == 0 {
        Seq::empty()
    } else {
        let before = pids_named(lines.drop_last(), current);
        match number::parse_unsigned(trim::trim(lines.last()), u32::MAX as nat) {
            Some(n) => if n != current {
                before.push(n as u32)
            } else {
                before
            },
            None => before,
        }
    }
}

/// The process identifiers in the output of `pgrep`, but for `current`.
pub fn listed_pids(stdout: &[u8], current: u32) -> (r: Vec<u32>)
    ensures
        r@ == pids_named(split::lines(encode::decoded(stdout@)), current),
{
    let all = lossy_text(stdout);
    let v = split_lines(all.as_str());
    let ghost lines = chars::texts(v@);
    let mut out: Vec<u32> = Vec::new();
    let n = v.len();
    let mut i: usize = 0;
    while i < n
        invariant
            n == v@.len(),
            i <= n,
            lines == chars::texts(v@),
            out@ == pids_named(lines.take(i as int), current),
        decreases n - i,
    {
        let line = trimmed(v[i].as_str());
        proof {
            assert(lines.take(i + 1).drop_last() =~= lines.take(i as int));
            assert(lines.take(i + 1).last() == v@[i as int]@);
        }
        if let Some(pid) = read_unsigned(line.as_str(), u32::MAX as u64) {
            if pid as u32 != current {
                out.push(pid as u32);
            }
        }
        i = i + 1;
    }
    assert(lines.take(n as int) =~= lines);
    out
}

/// Whether a command line is one of the sandbox's program with this data directory.
pub open spec fn is_sandbox(cmdline: Seq<char>, program: Seq<char>, data_dir: Seq<char>) -> bool {
    let shown = search::replace(cmdline, "\0"@, " "@);
    &&& search::contains(shown, program)
    &&& search::contains(shown, "serve"@)
    &&& search::contains(shown, data_dir)
}

/// Whether a process, whose command line is `raw` if it can be read, is the sandbox with
/// this data directory.
pub fn is_sandbox_process(raw: Option<&[u8]>, program: &str, data_dir: &str) -> (r: bool)
    ensures
        r == match raw {
            Some(b) => is_sandbox(encode::decoded(b@), program@, data_dir@),
            None => false,
        },
{
    match raw {
        Some(b) => {
            let text = lossy_text(b);
            let shown = replaced(text.as_str(), "\0", " ");
            includes(shown.as_str(), program) && includes(shown.as_str(), "serve")
                && includes(shown.as_str(), data_dir)
        },
        None => false,
    }
}

/// What is known of a process.
#[derive(Debug)]
pub struct ListedProcess {
    pub pid: u32,
    /// Its command line, if it can be read.
    pub cmdline: Option<Vec<u8>>,
}

/// Those of the processes that are the sandbox with this data directory.
pub open spec fn sandbox_pids(
    v: Seq<ListedProcess>,
    program: Seq<char>,
    data_dir: Seq<char>,
) -> Seq<u32>
    decreases v.len(),
{
    if v.len() == 0 {
        Seq::empty()
    } else {
        let before = sandbox_pids(v.drop_last(), program, data_dir);
        match v.last().cmdline {
            Some(b) => if is_sandbox(encode::decoded(b@), program, data_dir) {
                before.push(v.last().pid)
            } else {
                before
            },
            None => before,
        }
    }
}

/// Those of the processes that are the sandbox with this data directory.
pub fn matching_sandbox_pids(v: &Vec<ListedProcess>, program: &str, data_dir: &str) -> (r: Vec<
    u32,
>)
    ensures
        r@ == sandbox_pids(v@, program@, data_dir@),
{
    let mut out: Vec<u32> = Vec::new();
    let n = v.len();
    let mut i: usize = 0;
    while i < n
        invariant
            n == v@.len(),
            i <= n,
            out@ == sandbox_pids(v@.take(i as int), program@, data_dir@),
        decreases n - i,
    {
        proof {
            assert(v@.take(i + 1).drop_last() =~= v@.take(i as int));
            assert(v@.take(i + 1).last() == v@[i as int]);
        }
        let ours = match &v[i].cmdline {
            Some(b) => is_sandbox_process(Some(b.as_slice()), program, data_dir),
            None => false,
        };
        if ours {
            out.push(v[i].pid);
        }
        i = i + 1;
    }
    assert(v@.take(n as int) =~= v@);
    out
}

/// A process that is no sandbox with this data directory is never among those that are
/// stopped.
pub proof fn lemma_only_sandboxes_are_stopped(
    v: Seq<ListedProcess>,
    program: Seq<char>,
    data_dir: Seq<char>,
    pid: u32,
)
    requires
        sandbox_pids(v, program, data_dir).contains(pid),
    ensures
        exists|i: int|
            0 <= i < v.len() && #[trigger] v[i].pid == pid && v[i].cmdline is Some && is_sandbox(
                encode::decoded(v[i].cmdline->Some_0@),
                program,
                data_dir,
            ),
    decreases v.len(),
{
    if v.len() > 0 {
        let before = sandbox_pids(v.drop_last(), program, data_dir);
        if before.contains(pid) {
            lemma_only_sandboxes_are_stopped(v.drop_last(), program, data_dir, pid);
            let i = choose|i: int|
                0 <= i < v.drop_last().len() && #[trigger] v.drop_last()[i].pid == pid
                    && v.drop_last()[i].cmdline is Some && is_sandbox(
                    encode::decoded(v.drop_last()[i].cmdline->Some_0@),
                    program,
                    data_dir,
                );
            assert(v[i].pid == pid);
        } else {
            let k = choose|k: int|
                0 <= k < sandbox_pids(v, program, data_dir).len() && sandbox_pids(v, program, data_dir)[k] == pid;
            if k < before.len() {
                assert(before[k] == pid);
            }
            assert(v[v.len() - 1].pid == pid);
        }
    }
}

/// How often the processes are listed after they were asked to end.
pub const ASKED_CHECKS: u32 = 12;

/// How often the processes are listed after they were killed.
pub const KILLED_CHECKS: u32 = 8;

/// How far stopping the processes of a sandbox has come.
#[derive(Debug, Clone, Copy, PartialEq, Eq, Structural)]
pub enum SweepState {
    /// Nothing was done yet.
    First,
    /// They were asked to end, and some were listed this many times since.
    Asked(u32),
    /// Those that are left are listed, to be killed.
    Remaining,
    /// They were killed, and some were listed this many times since.
    Killed(u32),
}

/// What is done next to stop the processes of a sandbox. After each but the first they
/// are listed again.
#[derive(Debug, Clone, Copy, PartialEq, Eq, Structural)]
pub enum SweepAction {
    /// It is over: some were there and none is left, or not.
    Done(bool),
    /// Those listed are asked to end.
    Ask,
    /// Those listed are killed.
    Kill,
    /// Nothing.
    Again,
    /// A pause of 250 milliseconds.
    Pause,
}

/// What is done after the processes were listed.
pub open spec fn sweep_next(state: SweepState, none: bool) -> (SweepState, SweepAction) {
    match state {
        SweepState::First => if none {
            (state, SweepAction::Done(false))
        } else {
            (SweepState::Asked(0), SweepAction::Ask)
        },
        SweepState::Asked(n) => if none {
            (state, SweepAction::Done(true))
        } else if n < ASKED_CHECKS {
            (SweepState::Asked((n + 1) as u32), SweepAction::Pause)
        } else {
            (SweepState::Remaining, SweepAction::Again)
        },
        SweepState::Remaining => (SweepState::Killed(0), SweepAction::Kill),
        SweepState::Killed(n) => if none {
            (state, SweepAction::Done(true))
        } else if n < KILLED_CHECKS {
            (SweepState::Killed((n + 1) as u32), SweepAction::Pause)
        } else {
            (state, SweepAction::Done(false))
        },
    }
}

/// How many more lists stopping the processes can take.
pub open spec fn lists_left(state: SweepState) -> int {
    match state {
        SweepState::First => 24,
        SweepState::Asked(n) => 23 - n,
        SweepState::Remaining => 10,
        SweepState::Killed(n) => 9 - n,
    }
}

/// Stopping the processes of a sandbox comes to an end, kills only what was asked to end
/// before, and is called a success only where none is left.
pub proof fn lemma_sweep(state: SweepState, none: bool)
    requires
        state is Asked ==> state->Asked_0 <= ASKED_CHECKS,
        state is Killed ==> state->Killed_0 <= KILLED_CHECKS,
    ensures
        ({
            let (next, action) = sweep_next(state, none);
            &&& !(action is Done) ==> 0 < lists_left(next) < lists_left(state)
            &&& action is Kill ==> state is Remaining
            &&& next is Remaining ==> state is Asked
            &&& action == SweepAction::Done(true) ==> none
        }),
{
}

/// What is done after the processes were listed.
pub fn terminate_sandbox_processes(state: SweepState, none: bool) -> (r: (SweepState, SweepAction))
    ensures
        r == sweep_next(state, none),
{
    match state {
        SweepState::First => if none {
            (state, SweepAction::Done(false))
        } else {
            (SweepState::Asked(0), SweepAction::Ask)
        },
        SweepState::Asked(n) => if none {
            (state, SweepAction::Done(true))
        } else if n < ASKED_CHECKS {
            (SweepState::Asked(n + 1), SweepAction::Pause)
        } else {
            (SweepState::Remaining, SweepAction::Again)
        },
        SweepState::Remaining => (SweepState::Killed(0), SweepAction::Kill),
        SweepState::Killed(n) => if none {
            (state, SweepAction::Done(true))
        } else if n < KILLED_CHECKS {
            (SweepState::Killed(n + 1), SweepAction::Pause)
        } else {
            (state, SweepAction::Done(false))
        },
    }
}

/// The arguments with which the program of the sandbox is asked something.
pub open spec fn daemon_arguments(verb: Seq<char>, data_dir: Seq<char>) -> Seq<Seq<char>> {
    seq![verb, "--data-dir"@, data_dir]
}

/// The arguments with which the program of the sandbox is asked something.
pub fn daemon_args(verb: &str, data_dir: &str) -> (r: Vec<String>)
    ensures
        chars::texts(r@) == daemon_arguments(verb@, data_dir@),
{
    let mut args: Vec<String> = Vec::new();
    push_text(&mut args, verb);
    push_text(&mut args, "--data-dir");
    push_text(&mut args, data_dir);
    assert(chars::texts(args@) =~= daemon_arguments(verb@, data_dir@));
    args
}

/// Whether the sandbox runs, by what its program printed and what that parses to.
pub open spec fn daemon_state(
    program: Seq<char>,
    stdout: Seq<char>,
    parsed: Result<Tree, Seq<char>>,
) -> Result<bool, Seq<char>> {
    match parsed {
        Ok(t) => Ok(json::bool_field(t, "running"@) == Some(true)),
        Err(e) => Err(
            if trim::is_blank(stdout) {
                program + " status 返回空输出："@ + e
            } else {
                program + " status 返回无法解析的输出："@ + trim::trim(stdout)
            },
        ),
    }
}

/// Whether the sandbox runs, by what its program printed and what that parses to.
pub fn daemon_state_of(program: &str, stdout: &str, parsed: Result<Json, String>) -> (r: Result<
    bool,
    String,
>)
    ensures
        match r {
            Ok(b) => daemon_state(
                program@,
                stdout@,
                match parsed {
                    Ok(j) => Ok(j@),
                    Err(e) => Err(e@),
                },
            ) == Ok::<bool, Seq<char>>(b),
            Err(m) => daemon_state(
                program@,
                stdout@,
                match parsed {
                    Ok(j) => Ok(j@),
                    Err(e) => Err(e@),
                },
            ) == Err::<bool, Seq<char>>(m@),
        },
{
    match parsed {
        Ok(j) => match j.get_bool("running") {
            Some(b) => Ok(b),
            None => Ok(false),
        },
        Err(e) => {
            let shown = trimmed(stdout);
            if shown.as_str().is_empty() {
                Err(cat3(program, " status 返回空输出：", e.as_str()))
            } else {
                Err(cat3(program, " status 返回无法解析的输出：", shown.as_str()))
            }
        },
    }
}

/// Whether the sandbox runs, by how its program ended that was asked for the status.
pub open spec fn daemon_answer(program: Seq<char>, run: Result<ProcessOutput, String>) -> Result<
    bool,
    Seq<char>,
> {
    match run {
        Ok(out) => if out.success {
            let stdout = encode::decoded(out.stdout@);
            daemon_state(program, stdout, json::json_text(stdout))
        } else {
            Err(
                commands::output_error(
                    program + " status"@,
                    encode::decoded(out.stdout@),
                    encode::decoded(out.stderr@),
                    out.code,
                ),
            )
        },
        Err(e) => Err("无法执行 "@ + program + " status："@ + e@),
    }
}

/// Whether the sandbox runs, by how its program ended that was asked for the status.
pub fn sandbox_daemon_running(program: &str, run: Result<ProcessOutput, String>) -> (r: Result<
    bool,
    String,
>)
    ensures
        match r {
            Ok(b) => daemon_answer(program@, run) == Ok::<bool, Seq<char>>(b),
            Err(m) => daemon_answer(program@, run) == Err::<bool, Seq<char>>(m@),
        },
{
    match run {
        Ok(out) => {
            if out.success {
                let stdout = lossy_text(out.stdout.as_slice());
                let parsed = parse_json(stdout.as_str());
                daemon_state_of(program, stdout.as_str(), parsed)
            } else {
                let command = cat2(program, " status");
                Err(
                    command_output_error(
                        command.as_str(),
                        out.stdout.as_slice(),
                        out.stderr.as_slice(),
                        out.code,
                    ),
                )
            }
        },
        Err(e) => Err(cat4("无法执行 ", program, " status：", e.as_str())),
    }
}

/// The first of the lines that begins with `http`, without the white space around it.
pub open spec fn url_line(lines: Seq<Seq<char>>) -> Option<Seq<char>>
    decreases lines.len(),
{
    if lines.len() == 0 {
        None
    } else if search::begins(trim::trim(lines[0]), "http"@) {
        Some(trim::trim(lines[0]))
    } else {
        url_line(lines.drop_first())
    }
}

/// The first line of a text that begins with `http`, without the white space around it.
pub fn first_url_line(text: &str) -> (r: Option<String>)
    ensures
        chars::opt_text(r) == url_line(split::lines(text@)),
{
    let v = split_lines(text);
    let ghost lines = chars::texts(v@);
    let n = v.len();
    let mut i: usize = 0;
    assert(lines.skip(0) =~= lines);
    while i < n
        invariant
            n == v@.len(),
            i <= n,
            lines == chars::texts(v@),
            lines == split::lines(text@),
            url_line(lines) == url_line(lines.skip(i as int)),
        decreases n - i,
    {
        let line = trimmed(v[i].as_str());
        proof {
            assert(lines.skip(i as int)[0] == v@[i as int]@);
            assert(lines.skip(i as int).drop_first() =~= lines.skip(i + 1));
        }
        if starts(line.as_str(), "http") {
            return Some(line);
        }
        i = i + 1;
    }
    None
}

/// How often the program of the sandbox is asked for a link.
pub const URL_ATTEMPTS: u32 = 20;

/// What is done after the program of the sandbox was asked for a link.
#[derive(Debug)]
pub enum UrlStep {
    /// It gave this link.
    Found(String),
    /// It is asked again after a pause of 500 milliseconds.
    PauseAndAsk,
    /// After the same pause this is the error.
    PauseAndFail(String),
}

/// The contents of a step.
pub enum UrlView {
    Found(Seq<char>),
    PauseAndAsk,
    PauseAndFail(Seq<char>),
}

impl View for UrlStep {
    type V = UrlView;

    open spec fn view(&self) -> UrlView {
        match *self {
            UrlStep::Found(s) => UrlView::Found(s@),
            UrlStep::PauseAndAsk => UrlView::PauseAndAsk,
            UrlStep::PauseAndFail(s) => UrlView::PauseAndFail(s@),
        }
    }
}

/// The link that the program of the sandbox printed, or what is wrong.
pub open spec fn url_answer(program: Seq<char>, run: Result<ProcessOutput, String>) -> Result<
    Seq<char>,
    Seq<char>,
> {
    match run {
        Ok(out) => if out.success {
            match url_line(split::lines(encode::decoded(out.stdout@))) {
                Some(url) => Ok(url),
                None => Err(program + " url 未返回可用 URL"@),
            }
        } else {
            let stderr = encode::decoded(out.stderr@);
            Err(
                if trim::is_blank(stderr) {
                    program + " url 退出码 "@ + number::option_debug(out.code)
                } else {
                    trim::trim(stderr)
                },
            )
        },
        Err(e) => Err("无法执行 "@ + program + " url："@ + e@),
    }
}

/// What is done after the program of the sandbox was asked for a link for the `attempt`th
/// time, counted from 0.
pub open spec fn url_next(attempt: u32, answer: Result<Seq<char>, Seq<char>>) -> UrlView {
    match answer {
        Ok(url) => UrlView::Found(url),
        Err(e) => if attempt + 1 < URL_ATTEMPTS {
            UrlView::PauseAndAsk
        } else {
            UrlView::PauseAndFail(e)
        },
    }
}

/// What is done after the program of the sandbox was asked for a link for the
/// `attempt`th time, counted from 0. The error of the last attempt is the one reported.
pub fn sandbox_fresh_url(program: &str, attempt: u32, run: Result<ProcessOutput, String>) -> (r:
    UrlStep)
    requires
        attempt < URL_ATTEMPTS,
    ensures
        r@ == url_next(attempt, url_answer(program@, run)),
{
    let error = match run {
        Ok(out) => {
            if out.success {
                let stdout = lossy_text(out.stdout.as_slice());
                match first_url_line(stdout.as_str()) {
                    Some(url) => {
                        return UrlStep::Found(url);
                    },
                    None => cat2(program, " url 未返回可用 URL"),
                }
            } else {
                let text = lossy_text(out.stderr.as_slice());
                let stderr = trimmed(text.as_str());
                if stderr.as_str().is_empty() {
                    let shown = exit_code_text(out.code);
                    cat3(program, " url 退出码 ", shown.as_str())
                } else {
                    stderr
                }
            }
        },
        Err(e) => cat4("无法执行 ", program, " url：", e.as_str()),
    };
    if attempt + 1 < URL_ATTEMPTS {
        UrlStep::PauseAndAsk
    } else {
        UrlStep::PauseAndFail(error)
    }
}

/// How often a sandbox whose link is known is asked for its health.
pub const READY_CHECKS: u32 = 60;

/// What is done after a sandbox was asked for its health.
#[derive(Debug, Clone, Copy, PartialEq, Eq, Structural)]
pub enum ReadyStep {
    /// It is ready.
    Ready,
    /// It is asked again after a pause of 500 milliseconds.
    PauseAndAsk,
    /// After the same pause it is given up.
    PauseAndGiveUp,
}

/// What is done after a sandbox was asked for its health for the `attempt`th time,
/// counted from 0.
pub open spec fn ready_next(attempt: u32, healthy: bool) -> ReadyStep {
    if healthy {
        ReadyStep::Ready
    } else if attempt + 1 < READY_CHECKS {
        ReadyStep::PauseAndAsk
    } else {
        ReadyStep::PauseAndGiveUp
    }
}

/// What is done after a sandbox was asked for its health for the `attempt`th time,
/// counted from 0.
pub fn wait_for_sandbox_ready(attempt: u32, healthy: bool) -> (r: ReadyStep)
    requires
        attempt < READY_CHECKS,
    ensures
        r == ready_next(attempt, healthy),
{
    if healthy {
        ReadyStep::Ready
    } else if attempt + 1 < READY_CHECKS {
        ReadyStep::PauseAndAsk
    } else {
        ReadyStep::PauseAndGiveUp
    }
}

/// The error of a sandbox that was given up; `tail` is the end of its log.
pub fn not_ready_error(port: u16, tail: &str) -> (r: String)
    ensures
        r@ == {
            let head = "已拿到 Science 登录链接，但端口 "@ + number::decimal(port as nat)
                + " 的 /health 一直未就绪"@;
            if tail@.len() == 0 {
                head
            } else {
                head + "\n--- sandbox.log ---\n"@ + tail@
            }
        },
{
    let shown = number_text(port as u64);
    let head = cat3(
        "已拿到 Science 登录链接，但端口 ",
        shown.as_str(),
        " 的 /health 一直未就绪",
    );
    if tail.is_empty() {
        head
    } else {
        cat3(head.as_str(), "\n--- sandbox.log ---\n", tail)
    }
}

/// A sandbox runs if its program says so and its port answers: each confirms the other.
pub open spec fn is_running(healthy: bool, daemon: Result<bool, Seq<char>>) -> bool {
    daemon == Ok::<bool, Seq<char>>(true) && healthy
}

/// What is reported of a sandbox. Whether a process was found is told, and decides
/// nothing.
pub open spec fn sandbox_report(
    program: Seq<char>,
    port: u16,
    healthy: bool,
    found: bool,
    daemon: Result<bool, Seq<char>>,
) -> Tree {
    let head = seq![
        ("running"@, Tree::Bool(is_running(healthy, daemon))),
        ("port"@, Tree::Unsigned(port as u64)),
        ("daemon_running"@, Tree::Bool(daemon == Ok::<bool, Seq<char>>(true))),
        ("port_healthy"@, Tree::Bool(healthy)),
        ("process_found"@, Tree::Bool(found)),
    ];
    Tree::Object(
        if is_running(healthy, daemon) {
            head.push(
                (
                    "message"@,
                    Tree::Text(
                        "Science 沙箱正在端口 "@ + number::decimal(port as nat) + " 上运行"@,
                    ),
                ),
            )
        } else {
            head.push(
                (
                    "status_error"@,
                    match daemon {
                        Ok(_) => Tree::Null,
                        Err(e) => Tree::Text(e),
                    },
                ),
            ).push(
                (
                    "message"@,
                    Tree::Text(
                        "沙箱未运行。请使用 `"@ + program
                            + " serve --port <port>` 或在客户端配置后通过一键开始启动。"@,
                    ),
                ),
            )
        },
    )
}

/// What the program of the sandbox says, where it was found or not.
pub open spec fn daemon_view(program: Seq<char>, daemon: Option<Result<bool, String>>) -> Result<
    bool,
    Seq<char>,
> {
    match daemon {
        Some(Ok(b)) => Ok(b),
        Some(Err(e)) => Err(e@),
        None => Err(product::missing(program)),
    }
}

/// The reply to `sandbox status`. `daemon` is what the program of the sandbox says, or
/// `None` where it was not found.
pub fn cmd_sandbox_status(
    program: &str,
    port: u16,
    healthy: bool,
    found: bool,
    daemon: Option<Result<bool, String>>,
) -> (r: CliEnvelope)
    ensures
        r@ == types::success(
            sandbox_report(program@, port, healthy, found, daemon_view(program@, daemon)),
        ),
{
    let ghost said = daemon_view(program@, daemon);
    let (daemon_running, status_error) = match daemon {
        Some(Ok(b)) => (b, None),
        Some(Err(e)) => (false, Some(e)),
        None => (false, Some(not_found(program))),
    };
    let running = daemon_running && healthy;
    let mut o = JsonObject::new();
    o.put("running", Json::Bool(running));
    o.put("port", Json::number(port as u64));
    o.put("daemon_running", Json::Bool(daemon_running));
    o.put("port_healthy", Json::Bool(healthy));
    o.put("process_found", Json::Bool(found));
    if running {
        let shown = number_text(port as u64);
        let message = cat3("Science 沙箱正在端口 ", shown.as_str(), " 上运行");
        o.put("message", Json::text(message.as_str()));
    } else {
        o.put(
            "status_error",
            match status_error {
                Some(e) => Json::Text(e),
                None => Json::Null,
            },
        );
        let message = cat3(
            "沙箱未运行。请使用 `",
            program,
            " serve --port <port>` 或在客户端配置后通过一键开始启动。",
        );
        o.put("message", Json::text(message.as_str()));
    }
    assert(Tree::Object(o@) == sandbox_report(program@, port, healthy, found, said)) by {
        match sandbox_report(program@, port, healthy, found, said) {
            Tree::Object(m) => {
                assert(o@ =~= m);
            },
            _ => {},
        }
    }
    CliEnvelope::ok(o.done())
}

/// Whether the sandbox counts as running.
pub open spec fn counts_as_running(healthy: bool, found: bool) -> bool {
    healthy && found
}

/// Whether there is nothing for `sandbox stop` to stop.
pub open spec fn counts_as_stopped(running: bool, found: bool) -> bool {
    !running && !found
}

/// Whether the sandbox counts as running: it answers that it is well, and a process of
/// it is there.
pub fn sandbox_is_running(healthy: bool, found: bool) -> (r: bool)
    ensures
        r == counts_as_running(healthy, found),
{
    healthy && found
}

/// Whether there is nothing for `sandbox stop` to stop: the sandbox does not run, and no
/// process of it is there.
pub fn sandbox_is_stopped(running: bool, found: bool) -> (r: bool)
    ensures
        r == counts_as_stopped(running, found),
{
    !running && !found
}

/// What became of stopping the sandbox.
#[derive(Debug)]
pub enum SandboxStop {
    /// There is none.
    NotRunning,
    /// Its program was not found.
    NoProgram,
    /// Its program was run, then what was left of its processes was stopped, if any.
    Ran { run: Result<ProcessOutput, String>, cleaned: bool },
}

/// What is reported where the processes were stopped without the program's help.
pub open spec fn cleaned_report(message: Seq<char>) -> EnvelopeView {
    types::success(
        Tree::Object(seq![("message"@, Tree::Text(message)), ("stopped"@, Tree::Bool(true))]),
    )
}

/// The reply to `sandbox stop`.
pub open spec fn sandbox_stop_reply(program: Seq<char>, outcome: SandboxStop) -> EnvelopeView {
    match outcome {
        SandboxStop::NotRunning => types::success(
            Tree::Object(
                seq![("message"@, Tree::Text("沙箱未运行。"@)), ("stopped"@, Tree::Bool(false))],
            ),
        ),
        SandboxStop::NoProgram => types::failure(
            "science_not_found"@,
            product::missing(program),
        ),
        SandboxStop::Ran { run, cleaned } => match run {
            Ok(out) => if out.success {
                types::silent_success()
            } else if cleaned {
                cleaned_report(
                    program + " stop 未能通过控制 socket 停止沙箱，已清理残留进程："@
                        + encode::decoded(out.stderr@),
                )
            } else {
                types::failure(
                    "sandbox_stop_failed"@,
                    "停止沙箱失败："@ + encode::decoded(out.stderr@),
                )
            },
            Err(e) => if cleaned {
                cleaned_report("无法执行停止命令，已清理残留进程："@ + e@)
            } else {
                types::failure("sandbox_stop_failed"@, "无法执行停止命令："@ + e@)
            },
        },
    }
}

/// What is reported of a sandbox that was stopped, or was not there to stop.
fn stop_message(message: &str, stopped: bool) -> (r: CliEnvelope)
    ensures
        r@ == types::success(
            Tree::Object(
                seq![("message"@, Tree::Text(message@)), ("stopped"@, Tree::Bool(stopped))],
            ),
        ),
{
    let mut o = JsonObject::new();
    o.put("message", Json::text(message));
    o.put("stopped", Json::Bool(stopped));
    assert(o@ =~= seq![("message"@, Tree::Text(message@)), ("stopped"@, Tree::Bool(stopped))]);
    CliEnvelope::ok(o.done())
}

/// The reply to `sandbox stop`.
pub fn cmd_sandbox_stop(program: &str, outcome: SandboxStop) -> (r: CliEnvelope)
    ensures
        r@ == sandbox_stop_reply(program@, outcome),
{
    match outcome {
        SandboxStop::NotRunning => stop_message("沙箱未运行。", false),
        SandboxStop::NoProgram => {
            let message = not_found(program);
            CliEnvelope::err("science_not_found", message.as_str())
        },
        SandboxStop::Ran { run, cleaned } => match run {
            Ok(out) => {
                if out.success {
                    return CliEnvelope::ok_empty();
                }
                let stderr = lossy_text(out.stderr.as_slice());
                if cleaned {
                    let message = cat3(
                        program,
                        " stop 未能通过控制 socket 停止沙箱，已清理残留进程：",
                        stderr.as_str(),
                    );
                    stop_message(message.as_str(), true)
                } else {
                    let message = cat2("停止沙箱失败：", stderr.as_str());
                    CliEnvelope::err("sandbox_stop_failed", message.as_str())
                }
            },
            Err(e) => if cleaned {
                let message = cat2("无法执行停止命令，已清理残留进程：", e.as_str());
                stop_message(message.as_str(), true)
            } else {
                let message = cat2("无法执行停止命令：", e.as_str());
                CliEnvelope::err("sandbox_stop_failed", message.as_str())
            },
        },
    }
}

/// The address of a proxy without the path behind its host and port; a text without a
/// scheme or a path as it is.
pub open spec fn proxy_origin(url: Seq<char>) -> Seq<char> {
    match search::around(url, "://"@) {
        Some((_, after)) => match split::split_once(after, '/') {
            Some((host, _)) => "http://"@ + host,
            None => url,
        },
        None => url,
    }
}

/// The path behind the host and port of a proxy's address, which holds its secret, does
/// not reach the settings for other connections.
pub proof fn lemma_proxy_origin(host: Seq<char>, path: Seq<char>)
    requires
        !host.contains('/'),
    ensures
        proxy_origin("http://"@ + host + "/"@ + path) == "http://"@ + host,
{
    reveal_strlit("http://");
    reveal_strlit("://");
    reveal_strlit("/");
    let url = "http://"@ + host + "/"@ + path;
    let after = host + "/"@ + path;
    assert(url.subrange(4, 7) =~= "://"@);
    assert(search::occurs_at(url, "://"@, 4));
    assert forall|j: int| 0 <= j < 4 implies !search::occurs_at(url, "://"@, j) by {
        assert(url[j] == "http://"@[j]);
        if search::occurs_at(url, "://"@, j) {
            assert(url.subrange(j, j + 3)[0] == url[j]);
            assert("://"@[0] == ':');
        }
    }
    search::lemma_around(url, "://"@, 4);
    assert(url.skip(7) =~= after);
    assert forall|j: int| 0 <= j < host.len() implies after[j] != '/' by {
        assert(after[j] == host[j]);
    }
    assert(after[host.len() as int] == '/');
    search::lemma_index_of_is(after, '/', host.len() as int);
    assert(after.take(host.len() as int) =~= host);
}

/// The address of a proxy without the path behind its host and port.
pub fn proxy_hostport(url: &str) -> (r: String)
    ensures
        r@ == proxy_origin(url@),
{
    match cut_around(url, "://") {
        Some((_, after)) => match cut_once(after.as_str(), '/') {
            Some((host, _)) => cat2("http://", host.as_str()),
            None => url.to_string(),
        },
        None => url.to_string(),
    }
}

/// The hosts that the sandbox reaches without the proxy.
pub const DIRECT_HOSTS: &'static str = "127.0.0.1,localhost,::1";

/// The arguments with which the sandbox is started.
pub open spec fn serve_arguments(data_dir: Seq<char>, port: u16) -> Seq<Seq<char>> {
    seq![
        "serve"@,
        "--data-dir"@,
        data_dir,
        "--port"@,
        number::decimal(port as nat),
        "--host"@,
        "127.0.0.1"@,
        "--no-browser"@,
        "--no-auto-update"@,
        "--detached"@,
    ]
}

/// The environment of the sandbox.
pub open spec fn serve_environment(home: Seq<char>, proxy_url: Seq<char>) -> Seq<
    (Seq<char>, Seq<char>),
> {
    seq![
        ("HOME"@, home),
        ("ANTHROPIC_BASE_URL"@, proxy_url),
        ("https_proxy"@, proxy_origin(proxy_url)),
        ("HTTPS_PROXY"@, proxy_origin(proxy_url)),
        ("no_proxy"@, DIRECT_HOSTS@),
        ("NO_PROXY"@, DIRECT_HOSTS@),
    ]
}

/// The arguments with which the sandbox is started.
pub fn serve_args(data_dir: &str, port: u16) -> (r: Vec<String>)
    ensures
        chars::texts(r@) == serve_arguments(data_dir@, port),
{
    let shown = number_text(port as u64);
    let mut args: Vec<String> = Vec::new();
    push_text(&mut args, "serve");
    push_text(&mut args, "--data-dir");
    push_text(&mut args, data_dir);
    push_text(&mut args, "--port");
    push_text(&mut args, shown.as_str());
    push_text(&mut args, "--host");
    push_text(&mut args, "127.0.0.1");
    push_text(&mut args, "--no-browser");
    push_text(&mut args, "--no-auto-update");
    push_text(&mut args, "--detached");
    assert(chars::texts(args@) =~= serve_arguments(data_dir@, port));
    args
}

/// The environment of the sandbox.
pub fn serve_env(home: &str, proxy_url: &str) -> (r: Vec<(String, String)>)
    ensures
        chars::pairs(r@) == serve_environment(home@, proxy_url@),
{
    let origin = proxy_hostport(proxy_url);
    let mut env: Vec<(String, String)> = Vec::new();
    push_pair(&mut env, "HOME", home);
    push_pair(&mut env, "ANTHROPIC_BASE_URL", proxy_url);
    push_pair(&mut env, "https_proxy", origin.as_str());
    push_pair(&mut env, "HTTPS_PROXY", origin.as_str());
    push_pair(&mut env, "no_proxy", DIRECT_HOSTS);
    push_pair(&mut env, "NO_PROXY", DIRECT_HOSTS);
    assert(chars::pairs(env@) =~= serve_environment(home@, proxy_url@));
    env
}

/// The sandbox is started with its data directory and its port, for this machine alone.
pub proof fn lemma_serve_arguments(data_dir: Seq<char>, port: u16)
    ensures
        ({
            let args = serve_arguments(data_dir, port);
            let given = options::in_pairs(args.subrange(1, 7));
            &&& args.len() >= 7 && args[0] == "serve"@
            &&& options::sets(given, "--data-dir"@, data_dir)
            &&& options::sets(given, "--port"@, given[1].1)
            &&& number::parse_unsigned(given[1].1, 65535) == Some(port as nat)
            &&& options::sets(given, "--host"@, "127.0.0.1"@)
            &&& args.contains("--no-browser"@) && args.contains("--detached"@)
        }),
{
    reveal_strlit("--data-dir");
    reveal_strlit("--port");
    reveal_strlit("--host");
    assert("--data-dir"@.len() != "--port"@.len());
    assert("--data-dir"@.len() != "--host"@.len());
    assert("--port"@[2] != "--host"@[2]);
    number::lemma_parse_decimal(port as nat, 65535);
    let args = serve_arguments(data_dir, port);
    let given = options::in_pairs(args.subrange(1, 7));
    assert(given.len() == 3);
    assert(given[0] == ("--data-dir"@, data_dir));
    assert(given[1] == ("--port"@, number::decimal(port as nat)));
    assert(given[2] == ("--host"@, "127.0.0.1"@));
    options::lemma_sets(given, 0);
    options::lemma_sets(given, 1);
    options::lemma_sets(given, 2);
    assert(args[7] == "--no-browser"@ && args[9] == "--detached"@);
}

/// The sandbox lives in a home of its own, talks to the proxy under its full address, and
/// reaches other hosts through the proxy's host and port, but this machine directly.
pub proof fn lemma_serve_environment(home: Seq<char>, proxy_url: Seq<char>)
    ensures
        ({
            let env = serve_environment(home, proxy_url);
            &&& options::sets(env, "HOME"@, home)
            &&& options::sets(env, "ANTHROPIC_BASE_URL"@, proxy_url)
            &&& options::sets(env, "https_proxy"@, proxy_origin(proxy_url))
            &&& options::sets(env, "HTTPS_PROXY"@, proxy_origin(proxy_url))
            &&& options::sets(env, "no_proxy"@, "127.0.0.1,localhost,::1"@)
            &&& options::sets(env, "NO_PROXY"@, "127.0.0.1,localhost,::1"@)
        }),
{
    reveal_strlit("HOME");
    reveal_strlit("ANTHROPIC_BASE_URL");
    reveal_strlit("https_proxy");
    reveal_strlit("HTTPS_PROXY");
    reveal_strlit("no_proxy");
    reveal_strlit("NO_PROXY");
    assert("HOME"@.len() != "ANTHROPIC_BASE_URL"@.len());
    assert("HOME"@.len() != "https_proxy"@.len());
    assert("HOME"@.len() != "HTTPS_PROXY"@.len());
    assert("HOME"@.len() != "no_proxy"@.len());
    assert("HOME"@.len() != "NO_PROXY"@.len());
    assert("ANTHROPIC_BASE_URL"@.len() != "https_proxy"@.len());
    assert("ANTHROPIC_BASE_URL"@.len() != "HTTPS_PROXY"@.len());
    assert("ANTHROPIC_BASE_URL"@.len() != "no_proxy"@.len());
    assert("ANTHROPIC_BASE_URL"@.len() != "NO_PROXY"@.len());
    assert("https_proxy"@[0] != "HTTPS_PROXY"@[0]);
    assert("https_proxy"@.len() != "no_proxy"@.len());
    assert("https_proxy"@.len() != "NO_PROXY"@.len());
    assert("HTTPS_PROXY"@.len() != "no_proxy"@.len());
    assert("HTTPS_PROXY"@.len() != "NO_PROXY"@.len());
    assert("no_proxy"@[0] != "NO_PROXY"@[0]);
    let env = serve_environment(home, proxy_url);
    assert(env[0] == ("HOME"@, home));
    assert(env[1] == ("ANTHROPIC_BASE_URL"@, proxy_url));
    assert(env[2] == ("https_proxy"@, proxy_origin(proxy_url)));
    assert(env[3] == ("HTTPS_PROXY"@, proxy_origin(proxy_url)));
    assert(env[4] == ("no_proxy"@, DIRECT_HOSTS@));
    assert(env[5] == ("NO_PROXY"@, DIRECT_HOSTS@));
    options::lemma_sets(env, 0);
    options::lemma_sets(env, 1);
    options::lemma_sets(env, 2);
    options::lemma_sets(env, 3);
    options::lemma_sets(env, 4);
    options::lemma_sets(env, 5);
}

/// The program of the sandbox is asked about the sandbox with the given data directory.
pub proof fn lemma_daemon_arguments(verb: Seq<char>, data_dir: Seq<char>)
    ensures
        ({
            let args = daemon_arguments(verb, data_dir);
            args.len() == 3 && args[0] == verb && options::sets(
                options::in_pairs(args.skip(1)),
                "--data-dir"@,
                data_dir,
            )
        }),
{
    let given = options::in_pairs(daemon_arguments(verb, data_dir).skip(1));
    assert(given.len() == 1);
    assert(given[0] == ("--data-dir"@, data_dir));
    options::lemma_sets(given, 0);
}

/// The link to a sandbox is the first line that its program printed that begins with
/// `http`, without white space around it.
pub proof fn lemma_url_line(lines: Seq<Seq<char>>, k: int)
    requires
        0 <= k < lines.len(),
        search::begins(trim::trim(lines[k]), "http"@),
        forall|i: int| 0 <= i < k ==> !search::begins(trim::trim(#[trigger] lines[i]), "http"@),
    ensures
        url_line(lines) == Some(trim::trim(lines[k])),
    decreases k,
{
    if k > 0 {
        let w = lines.drop_first();
        assert(!search::begins(trim::trim(lines[0]), "http"@));
        assert(w[k - 1] == lines[k]);
        assert forall|i: int| 0 <= i < k - 1 implies !search::begins(
            trim::trim(#[trigger] w[i]),
            "http"@,
        ) by {
            assert(w[i] == lines[i + 1]);
        }
        lemma_url_line(w, k - 1);
    }
}

/// A process is listed for stopping exactly if its number is among those that were printed
/// and it is not this process.
pub proof fn lemma_listed_pids(lines: Seq<Seq<char>>, current: u32, pid: u32)
    ensures
        pids_named(lines, current).contains(pid) <==> pid != current && exists|i: int|
            0 <= i < lines.len() && number::parse_unsigned(
                trim::trim(#[trigger] lines[i]),
                u32::MAX as nat,
            ) == Some(pid as nat),
    decreases lines.len(),
{
    let here = |v: Seq<Seq<char>>|
        exists|i: int|
            0 <= i < v.len() && number::parse_unsigned(trim::trim(#[trigger] v[i]), u32::MAX as nat)
                == Some(pid as nat);
    if lines.len() > 0 {
        let rest = lines.drop_last();
        lemma_listed_pids(rest, current, pid);
        let before = pids_named(rest, current);
        let all = pids_named(lines, current);
        let last = number::parse_unsigned(trim::trim(lines.last()), u32::MAX as nat);
        assert(here(lines) <==> here(rest) || last == Some(pid as nat)) by {
            if here(rest) {
                let i = choose|i: int|
                    0 <= i < rest.len() && number::parse_unsigned(
                        trim::trim(#[trigger] rest[i]),
                        u32::MAX as nat,
                    ) == Some(pid as nat);
                assert(lines[i] == rest[i]);
            }
            if last == Some(pid as nat) {
                assert(lines[lines.len() - 1] == lines.last());
            }
            if here(lines) && last != Some(pid as nat) {
                let i = choose|i: int|
                    0 <= i < lines.len() && number::parse_unsigned(
                        trim::trim(#[trigger] lines[i]),
                        u32::MAX as nat,
                    ) == Some(pid as nat);
                assert(rest[i] == lines[i]);
            }
        }
        if last is Some && last->0 != current {
            let n = last->0 as u32;
            assert(all == before.push(n));
            if before.contains(pid) {
                let i = choose|i: int| 0 <= i < before.len() && before[i] == pid;
                assert(all[i] == pid);
            }
            assert(all[before.len() as int] == n);
            if all.contains(pid) && n != pid {
                let i = choose|i: int| 0 <= i < all.len() && all[i] == pid;
                assert(before[i] == pid);
            }
        }
    }
}

/// Whether a sandbox runs is what its program says and its port shows; what is reported of
/// it tells both, and its port.
pub proof fn lemma_sandbox_report(
    program: Seq<char>,
    port: u16,
    healthy: bool,
    found: bool,
    daemon: Result<bool, Seq<char>>,
)
    ensures
        ({
            let report = sandbox_report(program, port, healthy, found, daemon);
            &&& json::bool_field(report, "running"@) == Some(healthy && daemon == Ok::<
                bool,
                Seq<char>,
            >(true))
            &&& json::number_field(report, "port"@) == Some(port as u64)
            &&& json::bool_field(report, "daemon_running"@) == Some(daemon == Ok::<bool, Seq<char>>(
                true,
            ))
            &&& json::bool_field(report, "port_healthy"@) == Some(healthy)
            &&& json::bool_field(report, "process_found"@) == Some(found)
        }),
{
    let m = sandbox_report(program, port, healthy, found, daemon)->Object_0;
    reveal_strlit("running");
    reveal_strlit("port");
    reveal_strlit("daemon_running");
    reveal_strlit("port_healthy");
    reveal_strlit("process_found");
    assert("running"@.len() != "port"@.len());
    assert("running"@.len() != "daemon_running"@.len());
    assert("running"@.len() != "port_healthy"@.len());
    assert("running"@.len() != "process_found"@.len());
    assert("port"@.len() != "daemon_running"@.len());
    assert("port"@.len() != "port_healthy"@.len());
    assert("port"@.len() != "process_found"@.len());
    assert("daemon_running"@.len() != "port_healthy"@.len());
    assert("daemon_running"@.len() != "process_found"@.len());
    assert("port_healthy"@.len() != "process_found"@.len());
    json::lemma_member(m, "running"@, 0);
    json::lemma_member(m, "port"@, 1);
    json::lemma_member(m, "daemon_running"@, 2);
    json::lemma_member(m, "port_healthy"@, 3);
    json::lemma_member(m, "process_found"@, 4);
}

/// Stopping the sandbox fails only where its program failed or is missing, and nothing was
/// left that could be stopped without it.
pub proof fn lemma_sandbox_stop(program: Seq<char>, outcome: SandboxStop)
    ensures
        sandbox_stop_reply(program, outcome).ok <==> match outcome {
            SandboxStop::NotRunning => true,
            SandboxStop::NoProgram => false,
            SandboxStop::Ran { run, cleaned } => cleaned || (run matches Ok(out) && out.success),
        },
        outcome is NotRunning ==> json::bool_field(
            sandbox_stop_reply(program, outcome).data->0,
            "stopped"@,
        ) == Some(false),
        (outcome matches SandboxStop::Ran { run, cleaned } && cleaned && (run is Err
            || !run->Ok_0.success)) ==> json::bool_field(
            sandbox_stop_reply(program, outcome).data->0,
            "stopped"@,
        ) == Some(true),
{
    reveal_strlit("message");
    reveal_strlit("stopped");
    assert("message"@[0] != "stopped"@[0]);
    if sandbox_stop_reply(program, outcome).data is Some {
        let m = sandbox_stop_reply(program, outcome).data->0->Object_0;
        json::lemma_member(m, "stopped"@, 1);
    }
}

/// The sandbox is asked for a link twenty times, and for its health sixty times; the first
/// answer that is good ends it, and the last error is the one that is told.
pub proof fn lemma_sandbox_attempts(attempt: u32, url: Seq<char>, error: Seq<char>)
    ensures
        url_next(attempt, Ok(url)) == UrlView::Found(url),
        attempt + 1 < 20 ==> url_next(attempt, Err(error)) == UrlView::PauseAndAsk,
        attempt + 1 == 20 ==> url_next(attempt, Err(error)) == UrlView::PauseAndFail(error),
        ready_next(attempt, true) == ReadyStep::Ready,
        attempt + 1 < 60 ==> ready_next(attempt, false) == ReadyStep::PauseAndAsk,
        attempt + 1 == 60 ==> ready_next(attempt, false) == ReadyStep::PauseAndGiveUp,
{
}

/// A sandbox of which a process is there is never taken to be stopped, and one that does
/// not answer is never taken to run.
pub proof fn lemma_running_and_stopped(healthy: bool, found: bool)
    ensures
        counts_as_running(healthy, found) ==> healthy && found,
        healthy && found ==> counts_as_running(healthy, found),
        counts_as_stopped(counts_as_running(healthy, found), found) == !found,
        !counts_as_stopped(true, found),
{
}

/// What the program of the sandbox says of it is what it printed under `running`.
pub proof fn lemma_daemon_state(program: Seq<char>, stdout: Seq<char>, t: Tree, e: Seq<char>)
    ensures
        daemon_state(program, stdout, Ok(t)) == Ok::<bool, Seq<char>>(
            json::bool_field(t, "running"@) == Some(true),
        ),
        daemon_state(program, stdout, Err(e)) is Err,
{
}

/// Replacing one character by another changes no other and no place.
proof fn lemma_replace_char(s: Seq<char>, a: char, b: char)
    ensures
        search::replace(s, seq![a], seq![b]) == s.map_values(|c: char| if c == a { b } else { c }),
    decreases s.len(),
{
    let f = |c: char| if c == a { b } else { c };
    if s.len() > 0 {
        let t = s.drop_first();
        lemma_replace_char(t, a, b);
        assert(s.skip(1) =~= t);
        assert(s.take(1) =~= seq![s[0]]);
        assert(search::begins(s, seq![a]) == (s[0] == a)) by {
            assert(s.take(1)[0] == s[0]);
            assert(seq![a][0] == a);
        }
        assert(s.map_values(f) =~= seq![f(s[0])] + t.map_values(f));
        assert(search::replace(s, seq![a], seq![b]) =~= s.map_values(f));
    } else {
        assert(s.map_values(f) =~= s);
    }
}

/// A part of a text without a character is still there after that character was replaced.
proof fn lemma_part_stays(before: Seq<char>, part: Seq<char>, after: Seq<char>, a: char, b: char)
    requires
        !part.contains(a),
    ensures
        search::contains(search::replace(before + part + after, seq![a], seq![b]), part),
{
    let s = before + part + after;
    lemma_replace_char(s, a, b);
    let r = search::replace(s, seq![a], seq![b]);
    let (i, j) = (before.len() as int, (before.len() + part.len()) as int);
    assert forall|k: int| 0 <= k < part.len() implies r.subrange(i, j)[k] == part[k] by {
        assert(part.contains(part[k]));
        assert(s[i + k] == part[k]);
    }
    assert(r.subrange(i, j) =~= part);
    assert(search::occurs_at(r, part, i));
}

/// A process that was started as the sandbox is recognised by its command line, in which a
/// null character stands between each two words.
pub proof fn lemma_started_sandbox_is_recognised(
    program: Seq<char>,
    data_dir: Seq<char>,
    port: u16,
)
    requires
        !program.contains('\0'),
        !data_dir.contains('\0'),
    ensures
        is_sandbox(
            split::join(seq![program] + serve_arguments(data_dir, port), "\0"@),
            program,
            data_dir,
        ),
{
    reveal_strlit("\0");
    reveal_strlit(" ");
    reveal_strlit("serve");
    assert("\0"@ =~= seq!['\0']);
    assert(" "@ =~= seq![' ']);
    let words = seq![program] + serve_arguments(data_dir, port);
    let w1 = words.drop_first();
    let w2 = w1.drop_first();
    let w3 = w2.drop_first();
    split::lemma_join_first(words, "\0"@);
    split::lemma_join_first(w1, "\0"@);
    split::lemma_join_first(w2, "\0"@);
    split::lemma_join_first(w3, "\0"@);
    let line = split::join(words, "\0"@);
    let more = split::join(w1, "\0"@);
    assert(words[0] == program && w1[0] == "serve"@ && w2[0] == "--data-dir"@ && w3[0] == data_dir);
    lemma_part_stays(Seq::empty(), program, "\0"@ + more, '\0', ' ');
    assert(line =~= Seq::<char>::empty() + program + ("\0"@ + more));
    lemma_part_stays(program + "\0"@, "serve"@, "\0"@ + split::join(w2, "\0"@), '\0', ' ');
    assert(line =~= (program + "\0"@) + "serve"@ + ("\0"@ + split::join(w2, "\0"@)));
    let head = program + "\0"@ + "serve"@ + "\0"@ + "--data-dir"@ + "\0"@;
    let tail = "\0"@ + split::join(w3.drop_first(), "\0"@);
    lemma_part_stays(head, data_dir, tail, '\0', ' ');
    assert(line =~= head + data_dir + tail);
}

/// A program that was run and succeeded is taken at its word: the link that it printed, and
/// whether it says that the sandbox runs. What else it wrote is its error.
pub proof fn lemma_program_answers(program: Seq<char>, out: ProcessOutput, error: String)
    ensures
        out.success ==> (url_line(split::lines(encode::decoded(out.stdout@))) matches Some(
            url,
        ) ==> url_answer(program, Ok(out)) == Ok::<Seq<char>, Seq<char>>(url)),
        out.success && url_line(split::lines(encode::decoded(out.stdout@))) is None ==> url_answer(
            program,
            Ok(out),
        ) is Err,
        !out.success && !trim::is_blank(encode::decoded(out.stderr@)) ==> url_answer(
            program,
            Ok(out),
        ) == Err::<Seq<char>, Seq<char>>(trim::trim(encode::decoded(out.stderr@))),
        url_answer(program, Err(error)) matches Err(e) && search::ends(e, error@),
        out.success ==> daemon_answer(program, Ok(out)) == daemon_state(
            program,
            encode::decoded(out.stdout@),
            json::json_text(encode::decoded(out.stdout@)),
        ),
        !out.success && !trim::is_blank(encode::decoded(out.stderr@)) ==> daemon_answer(
            program,
            Ok(out),
        ) == Err::<bool, Seq<char>>(trim::trim(encode::decoded(out.stderr@))),
        daemon_answer(program, Err(error)) matches Err(e) && search::ends(e, error@),
{
    search::lemma_ends_joined("无法执行 "@ + program + " url："@, error@);
    search::lemma_ends_joined("无法执行 "@ + program + " status："@, error@);
}

/// A sandbox that could not be stopped is told under a code of its own, with what the
/// program wrote or why it did not run; a program that is not there under another. Output
/// that is no JSON is told as it is, and where there is none, why it is none.
pub proof fn lemma_stop_failures(
    program: Seq<char>,
    out: ProcessOutput,
    error: String,
    stdout: Seq<char>,
    why: Seq<char>,
)
    ensures
        !out.success ==> (sandbox_stop_reply(
            program,
            SandboxStop::Ran { run: Ok(out), cleaned: false },
        ).error matches Some(e) && e.code == "sandbox_stop_failed"@ && search::ends(
            e.message,
            encode::decoded(out.stderr@),
        )),
        sandbox_stop_reply(
            program,
            SandboxStop::Ran { run: Err(error), cleaned: false },
        ).error matches Some(e) && e.code == "sandbox_stop_failed"@ && search::ends(
            e.message,
            error@,
        ),
        sandbox_stop_reply(program, SandboxStop::NoProgram).error matches Some(e) && e.code
            == "science_not_found"@,
        !trim::is_blank(stdout) ==> (daemon_state(program, stdout, Err(why)) matches Err(e)
            && search::ends(e, trim::trim(stdout))),
        trim::is_blank(stdout) ==> (daemon_state(program, stdout, Err(why)) matches Err(e)
            && search::ends(e, why)),
{
    search::lemma_ends_joined("停止沙箱失败："@, encode::decoded(out.stderr@));
    search::lemma_ends_joined("无法执行停止命令："@, error@);
    search::lemma_ends_joined(program + " status 返回空输出："@, why);
    search::lemma_ends_joined(program + " status 返回无法解析的输出："@, trim::trim(stdout));
}

} // verus!
