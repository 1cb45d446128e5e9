//! Calling a helper in a WSL distribution on this machine: the arguments of
//! `wsl.exe`, and what its output means.

use vstd::prelude::*;

use crate::json;
use crate::process::ProcessOutput;
use crate::remote::shell::{self, helper_command_line, shell_quote};
use crate::remote::ssh::{self, backoff_secs, CommandOutcome, HelperStep, MAX_OUTPUT_SIZE};
use crate::remote::ssh_output::{self, parse_helper_response};
use crate::remote::types::{self, ErrorView, HostView, RemoteError, RemoteHostProfile};
use crate::text::chars::{self, cat2, cat3, chars_of, push_text, same};
use crate::text::encode::{
    self, lossy_text, lowered_ascii, raised_ascii, utf16_text, utf8_text,
};
use crate::text::number::{self, number_text, read_unsigned, signed_text};
use crate::text::options;
use crate::text::search::{self, includes};
use crate::text::split::{self, joined_range, split_lines, split_words};
use crate::text::trim::{self, blank, start_char_trimmed, start_trimmed, trimmed};

verus! {

/// The program that enters a distribution.
pub const WSL_EXE: &'static str = "wsl.exe";

/// The script that reports the platform of a distribution.
pub const PLATFORM_SCRIPT: &'static str = "printf '%s %s\\n' \"$(uname -s)\" \"$(uname -m)\"";

/// What stands after the path of the helper in the script that calls an
/// installed helper.
pub const PROBE_TAIL: &'static str =
    "; if [ -x \"$helper_path\" ]; then \"$helper_path\" --json status; else echo 'Helper not installed' >&2; exit 127; fi";

/// What stands before the path of the helper in both scripts.
pub const SCRIPT_HEAD: &'static str = "set -e; helper_path=";

/// What stands after the path of the helper in the script that stores a helper
/// from its standard input.
pub const UPLOAD_TAIL: &'static str =
    "; helper_dir=$(dirname \"$helper_path\"); mkdir -p \"$helper_dir\"; helper_tmp=$(mktemp); cat > \"$helper_tmp\"; chmod +x \"$helper_tmp\"; mv \"$helper_tmp\" \"$helper_path\"; \"$helper_path\" --json status";

/// A distribution as `wsl.exe` lists it.
#[derive(Debug, PartialEq, Eq)]
pub struct WslDistribution {
    pub name: String,
    pub state: Option<String>,
    pub version: Option<u8>,
    pub is_default: bool,
}

/// The contents of a listed distribution.
pub struct DistributionView {
    pub name: Seq<char>,
    pub state: Option<Seq<char>>,
    pub version: Option<u8>,
    pub is_default: bool,
}

impl View for WslDistribution {
    type V = DistributionView;

    open spec fn view(&self) -> DistributionView {
        DistributionView {
            name: self.name@,
            state: chars::opt_text(self.state),
            version: self.version,
            is_default: self.is_default,
        }
    }
}

/// The contents of a list of distributions.
pub open spec fn distributions(v: Seq<WslDistribution>) -> Seq<DistributionView> {
    Seq::new(v.len(), |i: int| v[i]@)
}

/// How many of the bytes are zero.
pub open spec fn zeros(b: Seq<u8>) -> nat
    decreases b.len(),
{
    if b.len() == 0 {
        0
    } else {
        zeros(b.drop_last()) + if b.last() == 0 {
            1nat
        } else {
            0nat
        }
    }
}

/// Each two bytes, the low one first, as a number; an odd byte at the end is
/// ignored.
pub open spec fn units(b: Seq<u8>) -> Seq<u16> {
    Seq::new(b.len() / 2, |i: int| (b[2 * i] + 256 * b[2 * i + 1]) as u16)
}

/// The text that `wsl.exe` wrote: UTF-16, if more than one byte in eight is
/// zero, and UTF-8 otherwise.
pub open spec fn wsl_text(b: Seq<u8>) -> Seq<char> {
    if zeros(b) > b.len() / 8 {
        encode::utf16_lossy(units(b))
    } else {
        encode::decoded(b)
    }
}

/// `s` can be read as a number below 256.
pub open spec fn is_version(s: Seq<char>) -> bool {
    number::parse_unsigned(s, 255) is Some
}

/// The position behind the last version among `parts`; 0, if there is none.
pub open spec fn version_end(parts: Seq<Seq<char>>) -> nat
    decreases parts.len(),
{
    if parts.len() == 0 || is_version(parts.last()) {
        parts.len()
    } else {
        version_end(parts.drop_last())
    }
}

/// The distribution that the words of a line describe: a name of any number of
/// words, a state, and a version.
pub open spec fn distribution_of(parts: Seq<Seq<char>>, is_default: bool) -> DistributionView {
    let end = version_end(parts) as int;
    DistributionView {
        name: split::join(
            if end >= 2 {
                parts.take(end - 2)
            } else {
                parts
            },
            " "@,
        ),
        state: if end >= 2 {
            Some(parts[end - 2])
        } else {
            None
        },
        version: if end >= 1 {
            Some(number::parse_unsigned(parts[end - 1], 255)->0 as u8)
        } else {
            None
        },
        is_default,
    }
}

/// A line that names the columns.
pub open spec fn is_heading(line: Seq<char>) -> bool {
    let upper = encode::ascii_upper(line);
    search::contains(upper, "NAME"@) && search::contains(upper, "STATE"@)
}

/// The distribution that a line describes.
pub open spec fn distribution_line(line: Seq<char>) -> Option<DistributionView> {
    let text = trim::trim(line);
    let is_default = text.len() > 0 && text[0] == '*';
    let rest = if is_default {
        trim::trim_start(trim::trim_start_char(text, '*'))
    } else {
        text
    };
    if text.len() == 0 || is_heading(text) || split::words(rest).len() == 0 {
        None
    } else {
        Some(distribution_of(split::words(rest), is_default))
    }
}

/// Distributions that Docker keeps for itself.
pub open spec fn is_hidden(name: Seq<char>) -> bool {
    name == "docker-desktop"@ || name == "docker-desktop-data"@
}

/// The distributions that the lines describe, without the hidden ones.
pub open spec fn listed(lines: Seq<Seq<char>>) -> Seq<DistributionView>
    decreases lines.len(),
{
    if lines.len() == 0 {
        Seq::empty()
    } else {
        let before = listed(lines.drop_last());
        match distribution_line(lines.last()) {
            Some(d) => if is_hidden(d.name) {
                before
            } else {
                before.push(d)
            },
            None => before,
        }
    }
}

/// Of the listed distributions none is hidden.
pub proof fn lemma_listed_not_hidden(lines: Seq<Seq<char>>)
    ensures
        forall|i: int| 0 <= i < listed(lines).len() ==> !is_hidden(#[trigger] listed(lines)[i].name),
    decreases lines.len(),
{
    if lines.len() > 0 {
        lemma_listed_not_hidden(lines.drop_last());
    }
}

/// The distribution of a profile as it is shown.
pub open spec fn shown_distribution(p: Option<HostView>) -> Seq<char> {
    match p {
        Some(p) => match p.distribution {
            Some(d) => d,
            None => "所选发行版"@,
        },
        None => "所选发行版"@,
    }
}

/// The user of a profile as it is shown.
pub open spec fn shown_user(p: Option<HostView>) -> Seq<char> {
    match p {
        Some(p) => p.username,
        None => "所选用户"@,
    }
}

/// The contents of an optional profile.
pub open spec fn opt_host(p: Option<&RemoteHostProfile>) -> Option<HostView> {
    match p {
        Some(p) => Some(p@),
        None => None,
    }
}

/// The error for a call of `wsl.exe` that failed: `stderr` is what it wrote,
/// `lower` the same in lower case.
pub open spec fn wsl_error(
    stderr: Seq<char>,
    lower: Seq<char>,
    code: Option<i32>,
    p: Option<HostView>,
) -> ErrorView {
    if search::contains(lower, "not installed"@)
        || search::contains(lower, "wslregisterdistribution failed"@) {
        types::fault(
            "wsl_not_installed"@,
            "未找到可用的 WSL 环境"@,
            Some(stderr),
            false,
            "请先安装 Windows Subsystem for Linux 和 Ubuntu。"@,
        )
    } else if search::contains(lower, "there is no distribution"@)
        || (search::contains(lower, "distribution"@) && search::contains(lower, "not found"@))
        || search::contains(lower, "the specified distribution"@) {
        types::fault(
            "wsl_distribution_not_found"@,
            "找不到 WSL 发行版："@ + shown_distribution(p),
            Some(stderr),
            false,
            "请点击“重新扫描”后选择列表中的发行版。"@,
        )
    } else if search::contains(lower, "user"@) && (search::contains(lower, "not found"@)
        || search::contains(lower, "does not exist"@)) {
        types::fault(
            "wsl_user_not_found"@,
            "WSL 用户不存在或无法启动："@ + shown_user(p),
            Some(stderr),
            false,
            "请确认该 Linux 用户存在，或在 WSL 中运行 whoami 查看用户名。"@,
        )
    } else if search::contains(lower, "no such file"@) || search::contains(lower, "not found"@)
        || search::contains(stderr, "没有那个文件或目录"@) {
        types::fault(
            "helper_not_found"@,
            "WSL Helper 未安装或路径不正确"@,
            Some(stderr),
            false,
            "请点击“安装 / 更新 Helper”，或检查 Helper 路径。"@,
        )
    } else if search::contains(lower, "permission denied"@) {
        types::fault(
            "permission_denied"@,
            "WSL 内权限不足"@,
            Some(stderr),
            false,
            "请确认 WSL 用户对 Helper 路径有读写和执行权限。"@,
        )
    } else {
        types::fault(
            match code {
                Some(c) => "wsl_exit_"@ + number::signed_decimal(c as int),
                None => "wsl_failed"@,
            },
            if trim::is_blank(stderr) {
                "WSL 命令执行失败"@
            } else {
                trim::trim(stderr)
            },
            Some(stderr),
            false,
            "请在终端运行 wsl.exe 验证该发行版和用户是否可用。"@,
        )
    }
}

/// The error for a call of `wsl.exe` that left `stderr`.
pub open spec fn failed_error(stderr: Seq<u8>, code: Option<i32>, p: Option<HostView>) -> ErrorView {
    let text = trim::trim(wsl_text(stderr));
    wsl_error(text, encode::lowered(text), code, p)
}

/// An error of `wsl.exe` is never tried again.
pub proof fn lemma_wsl_errors_are_final(
    stderr: Seq<char>,
    lower: Seq<char>,
    code: Option<i32>,
    p: Option<HostView>,
)
    ensures
        !wsl_error(stderr, lower, code, p).recoverable,
{
}

/// The arguments of `wsl.exe` for a script.
pub open spec fn wsl_args(p: HostView, script: Seq<char>) -> Seq<Seq<char>> {
    let distribution = match p.distribution {
        Some(d) => d,
        None => Seq::empty(),
    };
    let user = if trim::is_blank(p.username) {
        Seq::empty()
    } else {
        seq!["--user"@, p.username]
    };
    seq!["-d"@, distribution] + user + seq!["--"@, "sh"@, "-lc"@, script]
}

/// What a call of `wsl.exe` yields.
pub open spec fn wsl_result(p: HostView, outcome: CommandOutcome, timeout_secs: u64) -> Result<
    Seq<char>,
    ErrorView,
> {
    match outcome {
        CommandOutcome::SpawnFailed { error } => Err(
            types::fault(
                "wsl_spawn_failed"@,
                "无法启动 wsl.exe："@ + error@,
                None,
                false,
                "请确认 Windows Subsystem for Linux 已安装。"@,
            ),
        ),
        CommandOutcome::UploadFailed { error } => Err(
            types::fault(
                "wsl_stdin_failed"@,
                "写入 WSL 命令 stdin 失败："@ + error@,
                None,
                true,
                "请重试；如果仍失败，请检查系统资源。"@,
            ),
        ),
        CommandOutcome::WaitFailed { error } => Err(
            types::fault(
                "wsl_io_error"@,
                "WSL 进程 I/O 错误："@ + error@,
                None,
                true,
                "请重试。如持续出现，请检查系统资源。"@,
            ),
        ),
        CommandOutcome::TimedOut => Err(
            types::fault(
                "wsl_timeout"@,
                "WSL 命令执行超时（"@ + number::decimal(timeout_secs as nat) + "秒）"@,
                p.distribution,
                true,
                "该 WSL 发行版可能正在启动或命令卡住，请稍后重试。"@,
            ),
        ),
        CommandOutcome::Finished { success, code, stdout, stderr } => if !success {
            Err(failed_error(stderr@, code, Some(p)))
        } else if stdout@.len() > MAX_OUTPUT_SIZE {
            Err(
                types::fault(
                    "output_too_large"@,
                    "WSL 输出过大（"@ + number::decimal(stdout@.len()) + " 字节）"@,
                    None,
                    false,
                    "请在 WSL 中查看 Helper 日志排查问题。"@,
                ),
            )
        } else if vstd::utf8::valid_utf8(stdout@) {
            Ok(vstd::utf8::decode_utf8(stdout@))
        } else {
            Err(
                types::fault(
                    "invalid_utf8"@,
                    "WSL 返回了无效的 UTF-8 数据"@,
                    None,
                    false,
                    "请检查 WSL 命令输出。"@,
                ),
            )
        },
    }
}

/// The text that `wsl.exe` wrote.
pub fn decode_wsl_output(b: &Vec<u8>) -> (r: String)
    ensures
        r@ == wsl_text(b@),
{
    let n = b.len();
    let mut count: usize = 0;
    let mut i: usize = 0;
    assert(b@.take(0) =~= Seq::empty());
    while i < n
        invariant
            i <= n,
            n == b@.len(),
            count <= i,
            count == zeros(b@.take(i as int)),
        decreases n - i,
    {
        assert(b@.take(i + 1).drop_last() =~= b@.take(i as int));
        if b[i] == 0 {
            count = count + 1;
        }
        i = i + 1;
    }
    assert(b@.take(i as int) =~= b@);
    if count > n / 8 {
        let mut v: Vec<u16> = Vec::new();
        let mut j: usize = 0;
        while j < n / 2
            invariant
                j <= n / 2,
                n == b@.len(),
                v@ == units(b@).take(j as int),
            decreases n / 2 - j,
        {
            v.push(b[2 * j] as u16 + 256 * (b[2 * j + 1] as u16));
            j = j + 1;
            assert(v@ =~= units(b@).take(j as int));
        }
        assert(units(b@).take(j as int) =~= units(b@));
        utf16_text(&v)
    } else {
        lossy_text(b.as_slice())
    }
}

/// Whether `s` can be read as a number below 256.
fn read_version(s: &str) -> (r: Option<u8>)
    ensures
        r is Some == is_version(s@),
        r is Some ==> r->0 == number::parse_unsigned(s@, 255)->0,
{
    match read_unsigned(s, 255) {
        Some(n) => Some(n as u8),
        None => None,
    }
}

/// The distribution that a line describes.
pub fn parse_wsl_distribution_line(line: &str) -> (r: Option<WslDistribution>)
    ensures
        match r {
            Some(d) => distribution_line(line@) == Some(d@),
            None => distribution_line(line@) is None,
        },
{
    let text = trimmed(line);
    if text.as_str().is_empty() {
        return None;
    }
    let upper = raised_ascii(text.as_str());
    if includes(upper.as_str(), "NAME") && includes(upper.as_str(), "STATE") {
        return None;
    }
    let cs = chars_of(text.as_str());
    let is_default = cs[0] == '*';
    let rest = if is_default {
        let bare = start_char_trimmed(text.as_str(), '*');
        start_trimmed(bare.as_str())
    } else {
        text
    };
    let parts = split_words(rest.as_str());
    let ghost words = split::words(rest@);
    if parts.len() == 0 {
        return None;
    }
    let mut end: usize = parts.len();
    assert(words.take(end as int) =~= words);
    let mut version: Option<u8> = None;
    while end > 0 && version.is_none()
        invariant
            end <= parts@.len(),
            words == chars::texts(parts@),
            version is None ==> version_end(words) == version_end(words.take(end as int)),
            version is Some ==> end > 0 && version_end(words) == end && is_version(words[end - 1])
                && version->0 == number::parse_unsigned(words[end - 1], 255)->0,
        decreases
                end,
                if version is None {
                    1nat
                } else {
                    0nat
                },
    {
        assert(words.take(end as int).last() == words[end - 1]);
        version = read_version(parts[end - 1].as_str());
        if version.is_none() {
            assert(words.take(end as int).drop_last() =~= words.take(end - 1));
            end = end - 1;
        }
    }
    if end >= 2 {
        assert(words.subrange(0, end - 2) =~= words.take(end - 2));
        Some(
            WslDistribution {
                name: joined_range(&parts, 0, end - 2, " "),
                state: Some(parts[end - 2].clone()),
                version,
                is_default,
            },
        )
    } else {
        assert(words.subrange(0, words.len() as int) =~= words);
        Some(
            WslDistribution {
                name: joined_range(&parts, 0, parts.len(), " "),
                state: None,
                version,
                is_default,
            },
        )
    }
}

/// Whether Docker keeps the distribution for itself.
fn is_hidden_wsl_distro(name: &str) -> (r: bool)
    ensures
        r == is_hidden(name@),
{
    same(name, "docker-desktop") || same(name, "docker-desktop-data")
}

/// The distributions that `wsl.exe --list --verbose` lists.
pub fn parse_wsl_list_verbose(raw: &str) -> (r: Vec<WslDistribution>)
    ensures
        distributions(r@) == listed(split::lines(raw@)),
{
    let lines = split_lines(raw);
    let ghost t = split::lines(raw@);
    let mut out: Vec<WslDistribution> = Vec::new();
    let mut i: usize = 0;
    assert(distributions(out@) =~= listed(t.take(0)));
    while i < lines.len()
        invariant
            i <= lines@.len(),
            t == chars::texts(lines@),
            distributions(out@) == listed(t.take(i as int)),
        decreases lines@.len() - i,
    {
        proof {
            assert(t.take(i + 1).drop_last() =~= t.take(i as int));
            assert(t.take(i + 1).last() == lines@[i as int]@);
        }
        if let Some(d) = parse_wsl_distribution_line(lines[i].as_str()) {
            if !is_hidden_wsl_distro(d.name.as_str()) {
                let ghost before = distributions(out@);
                let ghost shown = d@;
                out.push(d);
                assert(distributions(out@) =~= before.push(shown));
            }
        }
        i = i + 1;
    }
    assert(t.take(i as int) =~= t);
    out
}

/// The distributions on this machine, from a run of `wsl.exe --list --verbose`
/// where the system has WSL at all.
pub fn list_wsl_distributions(supported: bool, run: Result<ProcessOutput, String>) -> (r: Result<
    Vec<WslDistribution>,
    RemoteError,
>)
    ensures
        match r {
            Ok(v) => supported && run is Ok && run->Ok_0.success && distributions(v@) == listed(
                split::lines(wsl_text(run->Ok_0.stdout@)),
            ),
            Err(e) => if !supported {
                e@ == types::fault(
                    "wsl_unsupported_platform"@,
                    "本机 WSL 仅支持 Windows。"@,
                    None,
                    false,
                    "请在 Windows 上使用本机 WSL，或改用远程服务器 SSH。"@,
                )
            } else {
                match run {
                    Err(why) => e@ == types::fault(
                        "wsl_spawn_failed"@,
                        "无法执行 wsl.exe："@ + why@,
                        Some("请确认 Windows Subsystem for Linux 已安装并在 PATH 中。"@),
                        false,
                        "请先安装 WSL 和 Ubuntu，或在终端运行 wsl.exe --list --verbose 验证。"@,
                    ),
                    Ok(out) => !out.success && e@ == failed_error(out.stderr@, out.code, None),
                }
            },
        },
{
    if !supported {
        return Err(
            RemoteError::new(
                "wsl_unsupported_platform",
                "本机 WSL 仅支持 Windows。",
                None,
                false,
                "请在 Windows 上使用本机 WSL，或改用远程服务器 SSH。",
            ),
        );
    }
    match run {
        Err(why) => {
            let message = cat2("无法执行 wsl.exe：", why.as_str());
            Err(
                RemoteError::new(
                    "wsl_spawn_failed",
                    message.as_str(),
                    Some("请确认 Windows Subsystem for Linux 已安装并在 PATH 中。"),
                    false,
                    "请先安装 WSL 和 Ubuntu，或在终端运行 wsl.exe --list --verbose 验证。",
                ),
            )
        },
        Ok(out) => {
            if !out.success {
                let all = decode_wsl_output(&out.stderr);
                let text = trimmed(all.as_str());
                return Err(map_wsl_error(text.as_str(), out.code, None));
            }
            let stdout = decode_wsl_output(&out.stdout);
            Ok(parse_wsl_list_verbose(stdout.as_str()))
        },
    }
}

/// The arguments of `wsl.exe` for a script.
pub fn build_wsl_shell_args(profile: &RemoteHostProfile, script: &str) -> (r: Vec<String>)
    ensures
        chars::texts(r@) == wsl_args(profile@, script@),
{
    let mut args: Vec<String> = Vec::new();
    push_text(&mut args, "-d");
    match &profile.distribution {
        Some(d) => push_text(&mut args, d.as_str()),
        None => {
            let none = String::new();
            push_text(&mut args, none.as_str());
        },
    }
    if !blank(profile.username.as_str()) {
        push_text(&mut args, "--user");
        push_text(&mut args, profile.username.as_str());
    }
    push_text(&mut args, "--");
    push_text(&mut args, "sh");
    push_text(&mut args, "-lc");
    push_text(&mut args, script);
    assert(chars::texts(args@) =~= wsl_args(profile@, script@));
    args
}

/// The arguments of `wsl.exe` for a helper command.
pub fn build_wsl_args(profile: &RemoteHostProfile, helper_args: &Vec<String>) -> (r: Vec<String>)
    ensures
        chars::texts(r@) == wsl_args(
            profile@,
            shell::helper_command(profile@.helper_path, chars::texts(helper_args@)),
        ),
{
    let command = helper_command_line(profile.helper_path.as_str(), helper_args);
    build_wsl_shell_args(profile, command.as_str())
}

/// The script that calls a helper if it is installed.
pub open spec fn probe_script(helper_path: Seq<char>) -> Seq<char> {
    SCRIPT_HEAD@ + shell::quoted(helper_path) + PROBE_TAIL@
}

/// The script that stores its standard input as the helper.
pub open spec fn upload_script(helper_path: Seq<char>) -> Seq<char> {
    SCRIPT_HEAD@ + shell::quoted(helper_path) + UPLOAD_TAIL@
}

/// The script that calls a helper if it is installed.
pub fn build_probe_script(profile: &RemoteHostProfile) -> (r: String)
    ensures
        r@ == probe_script(profile@.helper_path),
{
    let path = shell_quote(profile.helper_path.as_str());
    cat3(SCRIPT_HEAD, path.as_str(), PROBE_TAIL)
}

/// The script that stores its standard input as the helper.
pub fn build_upload_script(profile: &RemoteHostProfile) -> (r: String)
    ensures
        r@ == upload_script(profile@.helper_path),
{
    let path = shell_quote(profile.helper_path.as_str());
    cat3(SCRIPT_HEAD, path.as_str(), UPLOAD_TAIL)
}

/// What is done after the attempt with the number `attempt`, from 0 on, of a call
/// that may be tried again `retries` times.
pub fn helper_step(attempt: u32, retries: u32, run: Result<String, RemoteError>) -> (r: HelperStep)
    requires
        attempt < 64,
    ensures
        match run {
            Ok(stdout) => {
                let line = ssh_output::reply_line(stdout@);
                r matches HelperStep::Done(reply) && ssh_output::answer(reply)
                    == ssh_output::reply_meaning(line, json::json_text(line))
            },
            Err(e) => match ssh::next_pause(attempt as nat, retries as nat, e.recoverable) {
                Some(secs) => r == (HelperStep::Retry { delay_secs: secs }),
                None => r matches HelperStep::Done(Err(last)) && last@ == e@,
            },
        },
{
    match run {
        Ok(stdout) => HelperStep::Done(parse_helper_response(stdout.as_str())),
        Err(e) => {
            if attempt < retries && e.recoverable {
                HelperStep::Retry { delay_secs: backoff_secs(attempt + 1) }
            } else {
                HelperStep::Done(Err(e))
            }
        },
    }
}

/// The operating system and the processor that the output of the platform script
/// names.
pub open spec fn platform(out: Seq<char>) -> Option<(Seq<char>, Seq<char>)> {
    let words = split::words(out);
    if words.len() >= 2 {
        Some((encode::ascii_lower(words[0]), words[1]))
    } else {
        None
    }
}

/// The operating system and the processor that the output of the platform script
/// names.
pub fn detect_remote_platform(stdout: String) -> (r: Result<(String, String), RemoteError>)
    ensures
        match r {
            Ok((os, arch)) => platform(stdout@) == Some((os@, arch@)),
            Err(e) => platform(stdout@) is None && e@ == types::fault(
                "wsl_platform_parse_failed"@,
                "无法识别 WSL 发行版的平台信息"@,
                Some(stdout@),
                false,
                "请确认该 WSL 发行版可以执行 uname。"@,
            ),
        },
{
    let words = split_words(stdout.as_str());
    if words.len() < 2 {
        return Err(
            RemoteError::new(
                "wsl_platform_parse_failed",
                "无法识别 WSL 发行版的平台信息",
                Some(stdout.as_str()),
                false,
                "请确认该 WSL 发行版可以执行 uname。",
            ),
        );
    }
    Ok((lowered_ascii(words[0].as_str()), words[1].clone()))
}

/// What a call of `wsl.exe` yields.
pub fn collect_wsl_output(
    profile: &RemoteHostProfile,
    outcome: CommandOutcome,
    timeout_secs: u64,
) -> (r: Result<String, RemoteError>)
    ensures
        types::outcome(r) == wsl_result(profile@, outcome, timeout_secs),
{
    match outcome {
        CommandOutcome::SpawnFailed { error } => {
            let message = cat2("无法启动 wsl.exe：", error.as_str());
            Err(
                RemoteError::new(
                    "wsl_spawn_failed",
                    message.as_str(),
                    None,
                    false,
                    "请确认 Windows Subsystem for Linux 已安装。",
                ),
            )
        },
        CommandOutcome::UploadFailed { error } => {
            let message = cat2("写入 WSL 命令 stdin 失败：", error.as_str());
            Err(
                RemoteError::new(
                    "wsl_stdin_failed",
                    message.as_str(),
                    None,
                    true,
                    "请重试；如果仍失败，请检查系统资源。",
                ),
            )
        },
        CommandOutcome::WaitFailed { error } => {
            let message = cat2("WSL 进程 I/O 错误：", error.as_str());
            Err(
                RemoteError::new(
                    "wsl_io_error",
                    message.as_str(),
                    None,
                    true,
                    "请重试。如持续出现，请检查系统资源。",
                ),
            )
        },
        CommandOutcome::TimedOut => {
            let secs = number_text(timeout_secs);
            let message = cat3("WSL 命令执行超时（", secs.as_str(), "秒）");
            let details = match &profile.distribution {
                Some(d) => Some(d.as_str()),
                None => None,
            };
            Err(
                RemoteError::new(
                    "wsl_timeout",
                    message.as_str(),
                    details,
                    true,
                    "该 WSL 发行版可能正在启动或命令卡住，请稍后重试。",
                ),
            )
        },
        CommandOutcome::Finished { success, code, stdout, stderr } => {
            if !success {
                let all = decode_wsl_output(&stderr);
                let text = trimmed(all.as_str());
                return Err(map_wsl_error(text.as_str(), code, Some(profile)));
            }
            if stdout.len() > MAX_OUTPUT_SIZE {
                let size = number_text(stdout.len() as u64);
                let message = cat3("WSL 输出过大（", size.as_str(), " 字节）");
                return Err(
                    RemoteError::new(
                        "output_too_large",
                        message.as_str(),
                        None,
                        false,
                        "请在 WSL 中查看 Helper 日志排查问题。",
                    ),
                );
            }
            match utf8_text(stdout) {
                Some(text) => Ok(text),
                None => Err(
                    RemoteError::new(
                        "invalid_utf8",
                        "WSL 返回了无效的 UTF-8 数据",
                        None,
                        false,
                        "请检查 WSL 命令输出。",
                    ),
                ),
            }
        },
    }
}

/// The error for a call of `wsl.exe` that failed, where `lower` is `stderr` in
/// lower case.
pub fn map_lowered_wsl_error(
    stderr: &str,
    lower: &str,
    exit_code: Option<i32>,
    profile: Option<&RemoteHostProfile>,
) -> (r: RemoteError)
    ensures
        r@ == wsl_error(stderr@, lower@, exit_code, opt_host(profile)),
{
    if includes(lower, "not installed") || includes(lower, "wslregisterdistribution failed") {
        RemoteError::new(
            "wsl_not_installed",
            "未找到可用的 WSL 环境",
            Some(stderr),
            false,
            "请先安装 Windows Subsystem for Linux 和 Ubuntu。",
        )
    } else if includes(lower, "there is no distribution")
        || (includes(lower, "distribution") && includes(lower, "not found"))
        || includes(lower, "the specified distribution") {
        let shown = match profile {
            Some(p) => match &p.distribution {
                Some(d) => d.clone(),
                None => "所选发行版".to_string(),
            },
            None => "所选发行版".to_string(),
        };
        let message = cat2("找不到 WSL 发行版：", shown.as_str());
        RemoteError::new(
            "wsl_distribution_not_found",
            message.as_str(),
            Some(stderr),
            false,
            "请点击“重新扫描”后选择列表中的发行版。",
        )
    } else if includes(lower, "user") && (includes(lower, "not found")
        || includes(lower, "does not exist")) {
        let shown = match profile {
            Some(p) => p.username.clone(),
            None => "所选用户".to_string(),
        };
        let message = cat2("WSL 用户不存在或无法启动：", shown.as_str());
        RemoteError::new(
            "wsl_user_not_found",
            message.as_str(),
            Some(stderr),
            false,
            "请确认该 Linux 用户存在，或在 WSL 中运行 whoami 查看用户名。",
        )
    } else if includes(lower, "no such file") || includes(lower, "not found")
        || includes(stderr, "没有那个文件或目录") {
        RemoteError::new(
            "helper_not_found",
            "WSL Helper 未安装或路径不正确",
            Some(stderr),
            false,
            "请点击“安装 / 更新 Helper”，或检查 Helper 路径。",
        )
    } else if includes(lower, "permission denied") {
        RemoteError::new(
            "permission_denied",
            "WSL 内权限不足",
            Some(stderr),
            false,
            "请确认 WSL 用户对 Helper 路径有读写和执行权限。",
        )
    } else {
        let code = match exit_code {
            Some(c) => {
                let shown = signed_text(c as i64);
                cat2("wsl_exit_", shown.as_str())
            },
            None => "wsl_failed".to_string(),
        };
        let message = if blank(stderr) {
            "WSL 命令执行失败".to_string()
        } else {
            trimmed(stderr)
        };
        RemoteError::new(
            code.as_str(),
            message.as_str(),
            Some(stderr),
            false,
            "请在终端运行 wsl.exe 验证该发行版和用户是否可用。",
        )
    }
}

/// The error for a call of `wsl.exe` that wrote `stderr` and failed.
pub fn map_wsl_error(
    stderr: &str,
    exit_code: Option<i32>,
    profile: Option<&RemoteHostProfile>,
) -> (r: RemoteError)
    ensures
        r@ == wsl_error(stderr@, encode::lowered(stderr@), exit_code, opt_host(profile)),
{
    let lower = stderr.to_lowercase();
    map_lowered_wsl_error(stderr, lower.as_str(), exit_code, profile)
}

/// A distribution runs a script as the user of the profile, if it names one, and it is the
/// distribution of the profile that does.
pub proof fn lemma_wsl_arguments(p: HostView, distribution: Seq<char>, script: Seq<char>)
    requires
        p.distribution == Some(distribution),
    ensures
        ({
            let args = wsl_args(p, script);
            let n = args.len() - 4;
            let given = options::in_pairs(args.take(n));
            &&& n % 2 == 0
            &&& options::sets(given, "-d"@, distribution)
            &&& !trim::is_blank(p.username) ==> options::sets(given, "--user"@, p.username)
            &&& trim::is_blank(p.username) ==> options::lacks(given, "--user"@)
            &&& args.skip(n) == seq!["--"@, "sh"@, "-lc"@, script]
        }),
{
    reveal_strlit("-d");
    reveal_strlit("--user");
    assert("-d"@.len() != "--user"@.len());
    let args = wsl_args(p, script);
    let n = args.len() - 4;
    let given = options::in_pairs(args.take(n));
    assert(args.skip(n) =~= seq!["--"@, "sh"@, "-lc"@, script]);
    assert(given[0] == ("-d"@, distribution));
    if !trim::is_blank(p.username) {
        assert(given.len() == 2);
        assert(given[1] == ("--user"@, p.username));
        options::lemma_sets(given, 1);
    } else {
        assert(given.len() == 1);
    }
    options::lemma_sets(given, 0);
}

/// The words of a line are a name, the state and the version, whatever words the name has.
pub proof fn lemma_distribution_of(
    name: Seq<Seq<char>>,
    state: Seq<char>,
    version: u8,
    is_default: bool,
)
    ensures
        distribution_of(name + seq![state, number::decimal(version as nat)], is_default) == (
        DistributionView {
            name: split::join(name, " "@),
            state: Some(state),
            version: Some(version),
            is_default,
        }),
{
    let parts = name + seq![state, number::decimal(version as nat)];
    number::lemma_parse_decimal(version as nat, 255);
    assert(parts.last() == number::decimal(version as nat));
    assert(parts.take(parts.len() - 2) =~= name);
}

/// A line tells the distribution that its words describe; a star in front of them marks
/// the default one. A line that names the columns tells none.
pub proof fn lemma_distribution_line(text: Seq<char>)
    requires
        text.len() > 0,
        !chars::is_space(text[0]) && !chars::is_space(text.last()),
        text[0] != '*',
        split::words(text).len() > 0,
    ensures
        !is_heading(text) ==> distribution_line(text) == Some(
            distribution_of(split::words(text), false),
        ),
        !is_heading("* "@ + text) ==> distribution_line("* "@ + text) == Some(
            distribution_of(split::words(text), true),
        ),
        is_heading(text) ==> distribution_line(text) is None,
{
    reveal_strlit("* ");
    trim::lemma_trim_fixed(text);
    let line = "* "@ + text;
    assert(line[0] == '*');
    assert(line.last() == text.last());
    trim::lemma_trim_fixed(line);
    assert(line.drop_first()[0] == ' ');
    assert(trim::trim_start_char(line.drop_first(), '*') == line.drop_first());
    assert(line.drop_first().drop_first() =~= text);
    assert(trim::trim_start(line.drop_first()) == trim::trim_start(text));
}

/// Each line adds the distribution that it tells, unless Docker keeps it for itself.
pub proof fn lemma_listed(lines: Seq<Seq<char>>, line: Seq<char>, d: DistributionView)
    requires
        distribution_line(line) == Some(d),
    ensures
        d.name == "docker-desktop"@ || d.name == "docker-desktop-data"@ ==> listed(lines.push(line))
            == listed(lines),
        d.name != "docker-desktop"@ && d.name != "docker-desktop-data"@ ==> listed(lines.push(line))
            == listed(lines).push(d),
        listed(Seq::empty()).len() == 0,
{
    assert(lines.push(line).drop_last() =~= lines);
}

/// Numbers of 16 bits as bytes, the low one first.
pub open spec fn unit_bytes(u: Seq<u16>) -> Seq<u8> {
    Seq::new(
        2 * u.len(),
        |i: int|
            if i % 2 == 0 {
                (u[i / 2] as int % 256) as u8
            } else {
                (u[i / 2] as int / 256) as u8
            },
    )
}

/// How many of the bytes are zero, at the least, where each second one is.
proof fn lemma_zeros(b: Seq<u8>, n: nat)
    requires
        b.len() == 2 * n,
        forall|i: int| 0 <= i < n ==> #[trigger] b[2 * i + 1] == 0,
    ensures
        zeros(b) >= n,
    decreases n,
{
    if n > 0 {
        let c = b.drop_last().drop_last();
        assert(b[2 * (n - 1) + 1] == 0);
        assert forall|i: int| 0 <= i < n - 1 implies #[trigger] c[2 * i + 1] == 0 by {
            assert(b[2 * i + 1] == 0);
        }
        lemma_zeros(c, (n - 1) as nat);
        assert(zeros(b) == zeros(b.drop_last()) + 1);
        assert(zeros(b.drop_last()) >= zeros(c));
    }
}

/// Bytes without a zero among them have none.
proof fn lemma_no_zeros(b: Seq<u8>)
    requires
        forall|i: int| 0 <= i < b.len() ==> #[trigger] b[i] != 0,
    ensures
        zeros(b) == 0,
    decreases b.len(),
{
    if b.len() > 0 {
        assert(b.last() == b[b.len() - 1]);
        assert forall|i: int| 0 <= i < b.len() - 1 implies #[trigger] b.drop_last()[i] != 0 by {
            assert(b[i] != 0);
        }
        lemma_no_zeros(b.drop_last());
    }
}

/// What `wsl.exe` wrote in UTF-16 is read as UTF-16, if its characters are Latin ones, and
/// what it wrote without a zero byte as UTF-8.
pub proof fn lemma_wsl_text(u: Seq<u16>, b: Seq<u8>)
    requires
        u.len() > 0,
        forall|i: int| 0 <= i < u.len() ==> #[trigger] u[i] < 256,
        forall|i: int| 0 <= i < b.len() ==> #[trigger] b[i] != 0,
    ensures
        wsl_text(unit_bytes(u)) == encode::utf16_lossy(u),
        wsl_text(b) == encode::decoded(b),
{
    let bytes = unit_bytes(u);
    assert forall|i: int| 0 <= i < u.len() implies #[trigger] bytes[2 * i + 1] == 0 by {
        assert((2 * i + 1) / 2 == i && (2 * i + 1) % 2 == 1);
        assert(u[i] < 256);
    }
    lemma_zeros(bytes, u.len());
    lemma_units(u);
    lemma_no_zeros(b);
}

/// Numbers are read back from their bytes.
pub proof fn lemma_units(u: Seq<u16>)
    ensures
        units(unit_bytes(u)) == u,
{
    let bytes = unit_bytes(u);
    assert forall|i: int| 0 <= i < u.len() implies #[trigger] units(bytes)[i] == u[i] by {
        assert((2 * i) / 2 == i && (2 * i) % 2 == 0);
        assert((2 * i + 1) / 2 == i && (2 * i + 1) % 2 == 1);
        assert(bytes[2 * i] == u[i] as int % 256);
        assert(bytes[2 * i + 1] == u[i] as int / 256);
    }
    assert(units(bytes) =~= u);
}

/// What a program in a distribution wrote is what its call yields, if it succeeded and
/// wrote no more than a mebibyte of text; nothing else yields an output.
pub proof fn lemma_wsl_output_is_yielded(
    p: HostView,
    outcome: CommandOutcome,
    timeout_secs: u64,
    text: Seq<char>,
)
    ensures
        (outcome matches CommandOutcome::Finished { success, stdout, .. } && success && stdout@
            == vstd::utf8::encode_utf8(text) && stdout@.len() <= 1024 * 1024) ==> wsl_result(
            p,
            outcome,
            timeout_secs,
        ) == Ok::<Seq<char>, ErrorView>(text),
        wsl_result(p, outcome, timeout_secs) is Ok ==> outcome matches CommandOutcome::Finished {
            success: true,
            ..
        },
{
    vstd::utf8::encode_utf8_decode_utf8(text);
    vstd::utf8::encode_utf8_valid_utf8(text);
}

/// Each way in which a call can fail has a code of its own, and only a fault that may pass
/// is one that trying again may help against.
pub proof fn lemma_wsl_failures(
    p: HostView,
    error: String,
    stdout: Vec<u8>,
    stderr: Vec<u8>,
    code: Option<i32>,
    timeout_secs: u64,
)
    ensures
        ({
            let spawn = wsl_result(p, CommandOutcome::SpawnFailed { error }, timeout_secs);
            let upload = wsl_result(p, CommandOutcome::UploadFailed { error }, timeout_secs);
            let wait = wsl_result(p, CommandOutcome::WaitFailed { error }, timeout_secs);
            let late = wsl_result(p, CommandOutcome::TimedOut, timeout_secs);
            let large = wsl_result(
                p,
                CommandOutcome::Finished { success: true, code, stdout, stderr },
                timeout_secs,
            );
            let failed = wsl_result(
                p,
                CommandOutcome::Finished { success: false, code, stdout, stderr },
                timeout_secs,
            );
            &&& spawn is Err && spawn->Err_0.code == "wsl_spawn_failed"@
                && !spawn->Err_0.recoverable && search::ends(spawn->Err_0.message, error@)
            &&& upload is Err && upload->Err_0.code == "wsl_stdin_failed"@
                && upload->Err_0.recoverable && search::ends(upload->Err_0.message, error@)
            &&& wait is Err && wait->Err_0.code == "wsl_io_error"@ && wait->Err_0.recoverable
                && search::ends(wait->Err_0.message, error@)
            &&& late is Err && late->Err_0.code == "wsl_timeout"@ && late->Err_0.recoverable
                && late->Err_0.details == p.distribution && search::contains(
                late->Err_0.message,
                number::decimal(timeout_secs as nat),
            )
            &&& stdout@.len() > 1024 * 1024 ==> large is Err && large->Err_0.code
                == "output_too_large"@ && !large->Err_0.recoverable
            &&& stdout@.len() <= 1024 * 1024 && !vstd::utf8::valid_utf8(stdout@) ==> large is Err
                && large->Err_0.code == "invalid_utf8"@ && !large->Err_0.recoverable
            &&& failed is Err && !failed->Err_0.recoverable && failed->Err_0.details == Some(
                trim::trim(wsl_text(stderr@)),
            )
        }),
{
    search::lemma_ends_joined("无法启动 wsl.exe："@, error@);
    search::lemma_ends_joined("写入 WSL 命令 stdin 失败："@, error@);
    search::lemma_ends_joined("WSL 进程 I/O 错误："@, error@);
    let secs = number::decimal(timeout_secs as nat);
    let message = "WSL 命令执行超时（"@ + secs + "秒）"@;
    let k = "WSL 命令执行超时（"@.len() as int;
    assert(message.subrange(k, k + secs.len()) =~= secs);
    assert(search::occurs_at(message, secs, k));
}

/// What `wsl.exe` wrote tells what is wrong: that there is no WSL, no such distribution, no
/// such user, no helper, or no permission. What else it wrote is told as it is, with its
/// exit code.
pub proof fn lemma_wsl_error_kinds(
    stderr: Seq<char>,
    lower: Seq<char>,
    code: Option<i32>,
    p: HostView,
)
    ensures
        ({
            let e = wsl_error(stderr, lower, code, Some(p));
            let wsl = search::contains(lower, "not installed"@) || search::contains(
                lower,
                "wslregisterdistribution failed"@,
            );
            let gone = search::contains(lower, "not found"@);
            let distribution = search::contains(lower, "there is no distribution"@)
                || search::contains(lower, "the specified distribution"@) || gone
                && search::contains(lower, "distribution"@);
            let user = search::contains(lower, "user"@) && (gone || search::contains(
                lower,
                "does not exist"@,
            ));
            let helper = gone || search::contains(lower, "no such file"@) || search::contains(
                stderr,
                "没有那个文件或目录"@,
            );
            let denied = search::contains(lower, "permission denied"@);
            &&& e.details == Some(stderr)
            &&& wsl ==> e.code == "wsl_not_installed"@
            &&& !wsl && distribution ==> e.code == "wsl_distribution_not_found"@ && (
            p.distribution matches Some(d) ==> search::ends(e.message, d))
            &&& !wsl && !distribution && user ==> e.code == "wsl_user_not_found"@ && search::ends(
                e.message,
                p.username,
            )
            &&& !wsl && !distribution && !user && helper ==> e.code == "helper_not_found"@
            &&& !wsl && !distribution && !user && !helper && denied ==> e.code
                == "permission_denied"@
            &&& !wsl && !distribution && !user && !helper && !denied ==> {
                &&& code matches Some(c) ==> e.code == "wsl_exit_"@ + number::signed_decimal(
                    c as int,
                )
                &&& code is None ==> e.code == "wsl_failed"@
                &&& !trim::is_blank(stderr) ==> e.message == trim::trim(stderr)
            }
        }),
{
    search::lemma_ends_joined("找不到 WSL 发行版："@, shown_distribution(Some(p)));
    search::lemma_ends_joined("WSL 用户不存在或无法启动："@, p.username);
}

/// The scripts name the helper by its path, which the shell reads back as it is.
pub proof fn lemma_wsl_scripts(helper_path: Seq<char>)
    ensures
        search::begins(
            probe_script(helper_path),
            "set -e; helper_path="@ + shell::quoted(helper_path) + ";"@,
        ),
        search::begins(
            upload_script(helper_path),
            "set -e; helper_path="@ + shell::quoted(helper_path) + ";"@,
        ),
        shell::sh_read(shell::quoted(helper_path), false) == Some(
            (helper_path, Seq::<char>::empty()),
        ),
        search::contains(probe_script(helper_path), "\"$helper_path\" --json status"@),
        search::ends(upload_script(helper_path), "\"$helper_path\" --json status"@),
        search::contains(
            upload_script(helper_path),
            "cat > \"$helper_tmp\"; chmod +x \"$helper_tmp\"; mv \"$helper_tmp\" \"$helper_path\"; "@,
        ),
{
    reveal_strlit("; if [ -x \"$helper_path\" ]; then \"$helper_path\" --json status; else echo 'Helper not installed' >&2; exit 127; fi");
    reveal_strlit("; helper_dir=$(dirname \"$helper_path\"); mkdir -p \"$helper_dir\"; helper_tmp=$(mktemp); cat > \"$helper_tmp\"; chmod +x \"$helper_tmp\"; mv \"$helper_tmp\" \"$helper_path\"; \"$helper_path\" --json status");
    reveal_strlit(";");
    reveal_strlit("\"$helper_path\" --json status");
    reveal_strlit("cat > \"$helper_tmp\"; chmod +x \"$helper_tmp\"; mv \"$helper_tmp\" \"$helper_path\"; ");
    let path = shell::quoted(helper_path);
    let head = SCRIPT_HEAD@ + path;
    let (probe, upload) = (probe_script(helper_path), upload_script(helper_path));
    assert(probe.take(head.len() as int + 1) =~= head + ";"@);
    assert(upload.take(head.len() as int + 1) =~= head + ";"@);
    shell::lemma_quoted_reads_back(helper_path, Seq::empty());
    assert(path + Seq::<char>::empty() =~= path);
    let k = head.len() as int;
    assert(probe.subrange(k + 33, k + 61) =~= "\"$helper_path\" --json status"@);
    assert(search::occurs_at(probe, "\"$helper_path\" --json status"@, k + 33));
    assert(upload.skip(k + 164) =~= "\"$helper_path\" --json status"@);
    assert(upload.subrange(k + 86, k + 164) =~= "cat > \"$helper_tmp\"; chmod +x \"$helper_tmp\"; mv \"$helper_tmp\" \"$helper_path\"; "@);
    assert(search::occurs_at(
        upload,
        "cat > \"$helper_tmp\"; chmod +x \"$helper_tmp\"; mv \"$helper_tmp\" \"$helper_path\"; "@,
        k + 86,
    ));
}

/// The operating system of a distribution is told in lower case, its processor as it is.
pub proof fn lemma_wsl_platform(os: Seq<char>, arch: Seq<char>)
    requires
        os.len() > 0 && arch.len() > 0,
        forall|i: int| 0 <= i < os.len() ==> !chars::is_space(#[trigger] os[i]),
        forall|i: int| 0 <= i < arch.len() ==> !chars::is_space(#[trigger] arch[i]),
    ensures
        platform(os.push(' ') + arch) == Some((encode::ascii_lower(os), arch)),
        platform(os) is None,
{
    split::lemma_words_first(os, arch);
    split::lemma_words_first(arch, Seq::empty());
}

} // verus!
