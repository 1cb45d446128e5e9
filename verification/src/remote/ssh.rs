//! Calling a helper over SSH: the arguments of `ssh`, and what its output
//! means.

use vstd::prelude::*;

use crate::json::{self, Json};
use crate::paths::{self, join_path2};
use crate::remote::auth::{self, AuthRuntimeOptions, RuntimeView, SshAuthPlan};
use crate::remote::shell::{self, helper_command_line, shell_quote};
use crate::remote::ssh_output::{
    self, is_recoverable_error, map_ssh_error, parse_helper_response,
};
use crate::remote::types::{
    self, AuthView, ErrorView, HostView, RemoteError, RemoteHostProfile,
};
use crate::text::chars::{
    self, alnum, cat2, cat3, cat4, cat5, chars_of, push_text, push_texts, same,
};
use crate::text::encode::{self, lossy_text, utf8_text};
use crate::text::number::{self, number_text, wide_number_text};
use crate::text::options;
use crate::text::search;
use crate::text::split::{self, cut_once, split_filled_lines};
use crate::text::trim::{self, trimmed};

verus! {

/// How long most commands may take, in seconds.
pub const DEFAULT_CMD_TIMEOUT_SECS: u64 = 30;

/// How long installing a helper may take, in seconds.
pub const SLOW_CMD_TIMEOUT_SECS: u64 = 120;

/// How often a command is tried again.
pub const DEFAULT_RETRIES: u32 = 3;

/// The repository that helpers are released in.
pub const HELPER_RELEASE_REPO: &'static str = "SuperJJ007/CSswitch";

/// How much a command may write, in bytes.
pub const MAX_OUTPUT_SIZE: usize = 1048576;

/// The script that reports the platform of a target.
pub const PLATFORM_SCRIPT: &'static str = "printf '%s\\n%s\\n' \"$(uname -s)\" \"$(uname -m)\"";

/// What stands before the path of the helper in an installation script.
pub const INSTALL_HEAD: &'static str = "set -e\nHELPER_PATH=";

/// What stands between the path of the helper and the repository in the script
/// that downloads a helper.
pub const DOWNLOAD_TO_REPO: &'static str = r#"
HELPER_DIR=$(dirname "$HELPER_PATH")
mkdir -p "$HELPER_DIR"

download() {
  if command -v curl >/dev/null 2>&1; then
    curl -fsSL "$1" -o "$2"
  elif command -v wget >/dev/null 2>&1; then
    wget -qO "$2" "$1"
  else
    echo "远程服务器需要 curl 或 wget 来下载 helper。请手动安装。" >&2
    exit 1
  fi
}

# P0-2 修复：对架构和 OS 进行严格白名单校验
ARCH_RAW=$(uname -m)
case "$ARCH_RAW" in
  x86_64|amd64) ARCH=x86_64 ;;
  aarch64|arm64) ARCH=aarch64 ;;
  *)
    echo "不支持的架构: $ARCH_RAW（仅支持 x86_64/aarch64）" >&2
    exit 1
    ;;
esac

OS_RAW=$(uname -s)
case "$OS_RAW" in
  Linux) OS=linux ;;
  *)
    echo "不支持的操作系统: $OS_RAW（仅支持 Linux）" >&2
    exit 1
    ;;
esac

# 尝试从 GitHub API 获取最新 release 的下载 URL
# 使用硬编码的文件名模式，防止通配符注入
API_URL="https://api.github.com/repos/"#;

/// What stands after the repository in that script.
pub const DOWNLOAD_TAIL: &'static str = r#"/releases/latest"
BINARY_NAME="csswitch-helper-${OS}-${ARCH}"

# 从 API 响应中提取匹配的下载 URL
# 优先 jq（JSON 专用工具最可靠），其次 python3（Linux 标配），最后 awk（兜底）
API_JSON=$(mktemp)
download "$API_URL" "$API_JSON"

if command -v jq >/dev/null 2>&1; then
  DOWNLOAD_URL=$(jq -r ".assets[] | select(.name==\"$BINARY_NAME\") | .browser_download_url" "$API_JSON" 2>/dev/null || true)
elif command -v python3 >/dev/null 2>&1; then
  DOWNLOAD_URL=$(python3 -c "
import json,sys
data=json.load(open('$API_JSON'))
for a in data.get('assets',[]):
    if a.get('name')=='$BINARY_NAME':
        print(a['browser_download_url'])
        break
" 2>/dev/null || true)
else
  DOWNLOAD_URL=$(awk -v name="\"$BINARY_NAME\"" '
    $0 ~ name { found=1 }
    found && /browser_download_url/ {
      if (match($0, /https:[^"]+/)) {
        print substr($0, RSTART, RLENGTH)
        exit
      }
    }
  ' "$API_JSON" || true)
fi
rm -f "$API_JSON"

if [ -z "$DOWNLOAD_URL" ]; then
  echo "无法从 GitHub Releases 获取 $BINARY_NAME 下载链接。" >&2
  echo "手动安装: wget <url> -O $HELPER_PATH && chmod +x $HELPER_PATH" >&2
  exit 1
fi

TMP=$(mktemp)
download "$DOWNLOAD_URL" "$TMP"
chmod +x "$TMP"
mv "$TMP" "$HELPER_PATH"
"$HELPER_PATH" --json status
"#;

/// What stands after the path of the helper in the script that stores a helper
/// from its standard input.
pub const UPLOAD_TAIL: &'static str = r#"
HELPER_DIR=$(dirname "$HELPER_PATH")
mkdir -p "$HELPER_DIR"
TMP=$(mktemp "$HELPER_DIR/.csswitch-helper.XXXXXX")
cat > "$TMP"
chmod +x "$TMP"
mv "$TMP" "$HELPER_PATH"
"$HELPER_PATH" --json status
"#;

/// The arguments and the environment of one call of `ssh`.
#[derive(Debug)]
pub struct SshCommandSpec {
    pub args: Vec<String>,
    pub env: Vec<(String, String)>,
}

/// What became of a process.
#[derive(Debug)]
pub enum CommandOutcome {
    /// It could not be started.
    SpawnFailed { error: String },
    /// Its standard input could not be written.
    UploadFailed { error: String },
    /// Waiting for it failed.
    WaitFailed { error: String },
    /// It took too long, and was killed.
    TimedOut,
    Finished { success: bool, code: Option<i32>, stdout: Vec<u8>, stderr: Vec<u8> },
}

/// A part of the name of a repository.
pub open spec fn is_repo_part(s: Seq<char>) -> bool {
    &&& s.len() > 0
    &&& forall|i: int|
        0 <= i < s.len() ==> chars::is_alnum(#[trigger] s[i]) || s[i] == '-' || s[i] == '_' || s[i]
            == '.'
}

/// `repo` without white space around it, if it has the form `owner/name`.
pub open spec fn valid_repo(repo: Seq<char>) -> Option<Seq<char>> {
    let text = trim::trim(repo);
    match split::split_once(text, '/') {
        Some((owner, name)) if is_repo_part(owner) && is_repo_part(name) => Some(text),
        _ => None,
    }
}

/// The repository that helpers are downloaded from: the one the user chose, if
/// it is valid.
pub open spec fn release_repo(chosen: Option<Seq<char>>) -> Seq<char> {
    match chosen {
        Some(repo) => match valid_repo(repo) {
            Some(valid) => valid,
            None => HELPER_RELEASE_REPO@,
        },
        None => HELPER_RELEASE_REPO@,
    }
}

/// The arguments before those of the plan.
pub open spec fn connect_args(port: u16) -> Seq<Seq<char>> {
    seq![
        "-p"@,
        number::decimal(port as nat),
        "-o"@,
        "ConnectTimeout=10"@,
        "-o"@,
        "ServerAliveInterval=15"@,
        "-o"@,
        "ServerAliveCountMax=3"@,
        "-o"@,
        "StrictHostKeyChecking=accept-new"@,
    ]
}

/// The arguments after those of the plan, up to the command.
pub open spec fn target_args(p: HostView) -> Seq<Seq<char>> {
    seq!["--"@, p.username + "@"@ + p.host]
}

/// The arguments of `ssh` for a remote command.
pub open spec fn ssh_args(p: HostView, runtime: RuntimeView, command: Seq<char>) -> Seq<Seq<char>> {
    (connect_args(p.port) + auth::plan(p, runtime).args + target_args(p)).push(command)
}

/// The script that downloads a helper and stores it at the profile's path.
pub open spec fn download_script(helper_path: Seq<char>, repo: Seq<char>) -> Seq<char> {
    INSTALL_HEAD@ + shell::quoted(helper_path) + DOWNLOAD_TO_REPO@ + repo + DOWNLOAD_TAIL@
}

/// The script that stores its standard input as the helper.
pub open spec fn upload_script(helper_path: Seq<char>) -> Seq<char> {
    INSTALL_HEAD@ + shell::quoted(helper_path) + UPLOAD_TAIL@
}

/// A repository name that was accepted holds no character with a meaning of its
/// own to a shell.
pub proof fn lemma_release_repo_is_safe(chosen: Option<Seq<char>>)
    ensures
        shell::all_safe(release_repo(chosen)),
{
    reveal_strlit("SuperJJ007/CSswitch");
    if let Some(repo) = chosen {
        if valid_repo(repo) is Some {
            let text = trim::trim(repo);
            let k = search::index_of(text, '/');
            search::lemma_index_of(text, '/');
            let owner = text.take(k);
            let name = text.skip(k + 1);
            assert forall|i: int| 0 <= i < text.len() implies shell::is_safe(text[i]) by {
                if i < k {
                    assert(owner[i] == text[i]);
                } else if i > k {
                    assert(name[i - k - 1] == text[i]);
                }
            }
        }
    }
}

/// The host cannot be taken for an option of `ssh`: `--` stands before it, and
/// one command follows it.
pub proof fn lemma_target_follows_options(p: HostView, runtime: RuntimeView, command: Seq<char>)
    ensures
        ({
            let args = ssh_args(p, runtime, command);
            let n = args.len() as int;
            &&& n >= 3
            &&& args[n - 3] == "--"@
            &&& args[n - 2] == p.username + "@"@ + p.host
            &&& args[n - 1] == command
        }),
{
}

/// The options that `ssh` reads from its arguments, each with its value, up to `--`.
pub open spec fn ssh_options(args: Seq<Seq<char>>) -> Seq<(Seq<char>, Seq<char>)>
    decreases args.len(),
{
    if args.len() >= 2 && (args[0] == "-p"@ || args[0] == "-o"@ || args[0] == "-i"@) {
        seq![(args[0], args[1])] + ssh_options(args.skip(2))
    } else {
        Seq::empty()
    }
}

/// What `ssh` reads behind its options and `--`: the target, and the command. Nothing, if
/// there is no `--`.
pub open spec fn ssh_operands(args: Seq<Seq<char>>) -> Seq<Seq<char>>
    decreases args.len(),
{
    if args.len() >= 2 && (args[0] == "-p"@ || args[0] == "-o"@ || args[0] == "-i"@) {
        ssh_operands(args.skip(2))
    } else if args.len() > 0 && args[0] == "--"@ {
        args.drop_first()
    } else {
        Seq::empty()
    }
}

/// The arguments are options of `ssh`, each with a value, and none of them is the port.
pub open spec fn are_options(args: Seq<Seq<char>>) -> bool {
    &&& args.len() % 2 == 0
    &&& forall|i: int|
        0 <= i < args.len() && i % 2 == 0 ==> #[trigger] args[i] == "-o"@ || args[i] == "-i"@
}

/// What `ssh` reads where options stand before `--`.
proof fn lemma_options_are_read(args: Seq<Seq<char>>, rest: Seq<Seq<char>>)
    requires
        are_options(args),
    ensures
        ssh_options(args + seq!["--"@] + rest) == options::in_pairs(args),
        ssh_operands(args + seq!["--"@] + rest) == rest,
    decreases args.len(),
{
    reveal_strlit("--");
    reveal_strlit("-p");
    reveal_strlit("-o");
    reveal_strlit("-i");
    let all = args + seq!["--"@] + rest;
    if args.len() == 0 {
        assert(all[0] == "--"@);
        assert("--"@[1] != "-p"@[1] && "--"@[1] != "-o"@[1] && "--"@[1] != "-i"@[1]);
        assert(all.drop_first() =~= rest);
        assert(options::in_pairs(args) =~= Seq::empty());
    } else {
        let tail = args.skip(2);
        assert(args[0] == "-o"@ || args[0] == "-i"@);
        assert forall|i: int| 0 <= i < tail.len() && i % 2 == 0 implies #[trigger] tail[i] == "-o"@
            || tail[i] == "-i"@ by {
            assert(tail[i] == args[i + 2]);
        }
        lemma_options_are_read(tail, rest);
        assert(all.skip(2) =~= tail + seq!["--"@] + rest);
        assert(options::in_pairs(args) =~= seq![(args[0], args[1])] + options::in_pairs(tail));
    }
}

/// What `ssh` reads from the arguments of a call.
proof fn lemma_call_is_read(p: HostView, runtime: RuntimeView, command: Seq<char>)
    ensures
        ssh_options(ssh_args(p, runtime, command)) == options::in_pairs(connect_args(p.port))
            + options::in_pairs(auth::plan(p, runtime).args),
        forall|i: int|
            0 <= i < options::in_pairs(auth::plan(p, runtime).args).len() ==> (
            #[trigger] options::in_pairs(auth::plan(p, runtime).args)[i]).0 != "-p"@,
        ssh_operands(ssh_args(p, runtime, command)) == target_args(p).skip(1).push(command),
{
    reveal_strlit("-p");
    reveal_strlit("-o");
    reveal_strlit("-i");
    let args = ssh_args(p, runtime, command);
    let c = connect_args(p.port);
    let planned = auth::plan(p, runtime).args;
    let more = c.skip(2) + planned;
    let rest = target_args(p).skip(1).push(command);
    auth::lemma_plan_is_options(p, runtime);
    assert(are_options(more)) by {
        assert forall|i: int| 0 <= i < more.len() && i % 2 == 0 implies #[trigger] more[i] == "-o"@
            || more[i] == "-i"@ by {
            if i < 8 {
                assert(more[i] == c[i + 2]);
            } else {
                assert(more[i] == planned[i - 8]);
            }
        }
    }
    lemma_options_are_read(more, rest);
    assert(args.skip(2) =~= more + seq!["--"@] + rest);
    assert(args[0] == c[0] && args[1] == c[1]);
    options::lemma_in_pairs_joined(c.take(2), c.skip(2));
    assert(c.take(2) + c.skip(2) =~= c);
    options::lemma_in_pairs_joined(c.skip(2), planned);
    assert(options::in_pairs(c.take(2)) =~= seq![(c[0], c[1])]);
    assert(ssh_options(args) =~= options::in_pairs(c) + options::in_pairs(planned));
    assert("-p"@[1] != "-o"@[1] && "-p"@[1] != "-i"@[1]);
    assert forall|i: int| 0 <= i < options::in_pairs(planned).len() implies (
    #[trigger] options::in_pairs(planned)[i]).0 != "-p"@ by {
        assert(planned[2 * i] == "-o"@ || planned[2 * i] == "-i"@);
    }
}

/// `ssh` is called with the port of the profile, which is said once, and with nothing but
/// the target, as `user@host`, and the command behind its options.
pub proof fn lemma_call_reaches_the_target(p: HostView, runtime: RuntimeView, command: Seq<char>)
    ensures
        ({
            let given = ssh_options(ssh_args(p, runtime, command));
            &&& given.len() > 0 && options::sets(given, "-p"@, given[0].1)
            &&& number::parse_unsigned(given[0].1, 65535) == Some(p.port as nat)
            &&& ssh_operands(ssh_args(p, runtime, command)) == seq![
                p.username + "@"@ + p.host,
                command,
            ]
        }),
{
    reveal_strlit("-p");
    reveal_strlit("-o");
    assert("-p"@[1] != "-o"@[1]);
    lemma_call_is_read(p, runtime, command);
    let given = ssh_options(ssh_args(p, runtime, command));
    let c = options::in_pairs(connect_args(p.port));
    let planned = options::in_pairs(auth::plan(p, runtime).args);
    number::lemma_parse_decimal(p.port as nat, 65535);
    assert(c[0] == ("-p"@, number::decimal(p.port as nat)));
    assert(c[1].0 == "-o"@ && c[2].0 == "-o"@ && c[3].0 == "-o"@ && c[4].0 == "-o"@);
    assert forall|i: int| 0 <= i < given.len() && i != 0 implies (#[trigger] given[i]).0
        != given[0].0 by {
        if i >= c.len() {
            assert(given[i] == planned[i - c.len()]);
        } else {
            assert(given[i] == c[i]);
        }
    }
    options::lemma_sets(given, 0);
    assert(target_args(p).skip(1).push(command) =~= seq![p.username + "@"@ + p.host, command]);
}

/// Profiles that differ in the port are never called with the same arguments.
pub proof fn lemma_port_is_told_apart(p: HostView, runtime: RuntimeView, command: Seq<char>, port: u16)
    requires
        port != p.port,
    ensures
        ssh_args(HostView { port, ..p }, runtime, command) != ssh_args(p, runtime, command),
{
    lemma_call_reaches_the_target(p, runtime, command);
    lemma_call_reaches_the_target(HostView { port, ..p }, runtime, command);
}

/// `ssh` gives up on a target that does not answer and on one that falls silent, and takes
/// the key of a host that it does not know yet, but no changed one.
pub proof fn lemma_call_is_bounded(p: HostView, runtime: RuntimeView, command: Seq<char>)
    ensures
        ({
            let given = ssh_options(ssh_args(p, runtime, command));
            &&& given.contains(("-o"@, "ConnectTimeout=10"@))
            &&& given.contains(("-o"@, "ServerAliveInterval=15"@))
            &&& given.contains(("-o"@, "ServerAliveCountMax=3"@))
            &&& given.contains(("-o"@, "StrictHostKeyChecking=accept-new"@))
        }),
{
    lemma_call_is_read(p, runtime, command);
    let given = ssh_options(ssh_args(p, runtime, command));
    assert(given[1] == ("-o"@, "ConnectTimeout=10"@));
    assert(given[2] == ("-o"@, "ServerAliveInterval=15"@));
    assert(given[3] == ("-o"@, "ServerAliveCountMax=3"@));
    assert(given[4] == ("-o"@, "StrictHostKeyChecking=accept-new"@));
}

/// A call of `ssh` for a profile with a key of its own names that key and no other, and
/// keeps `ssh` to it unless a password may stand in for it.
pub proof fn lemma_call_names_the_key(
    p: HostView,
    runtime: RuntimeView,
    command: Seq<char>,
    path: Seq<char>,
)
    requires
        p.auth matches AuthView::KeyFile { path: own, .. } && own == path,
    ensures
        ({
            let given = ssh_options(ssh_args(p, runtime, command));
            &&& options::sets(given, "-i"@, path)
            &&& given.contains(("-o"@, "IdentitiesOnly=yes"@)) || p.auth->allow_password_fallback
        }),
{
    reveal_strlit("-p");
    reveal_strlit("-o");
    reveal_strlit("-i");
    lemma_call_is_read(p, runtime, command);
    auth::lemma_plan_with_key(p, runtime);
    let given = ssh_options(ssh_args(p, runtime, command));
    let c = options::in_pairs(connect_args(p.port));
    let planned = options::in_pairs(auth::plan(p, runtime).args);
    assert("-i"@[1] != "-o"@[1] && "-i"@[1] != "-p"@[1]);
    assert(c[0].0 == "-p"@ && c[1].0 == "-o"@ && c[2].0 == "-o"@ && c[3].0 == "-o"@ && c[4].0
        == "-o"@);
    assert(given[5] == planned[0]);
    assert forall|i: int| 0 <= i < given.len() && i != 5 implies (#[trigger] given[i]).0
        != given[5].0 by {
        if i >= 5 {
            assert(given[i] == planned[i - 5]);
        } else {
            assert(given[i] == c[i]);
        }
    }
    options::lemma_sets(given, 5);
    if !p.auth->allow_password_fallback {
        assert(given[6] == planned[1]);
    }
}

/// Whether `s` is a part of the name of a repository.
fn repo_part(s: &str) -> (r: bool)
    ensures
        r == is_repo_part(s@),
{
    let cs = chars_of(s);
    let mut i: usize = 0;
    while i < cs.len()
        invariant
            i <= cs@.len(),
            cs@ == s@,
            forall|j: int|
                0 <= j < i ==> chars::is_alnum(#[trigger] s@[j]) || s@[j] == '-' || s@[j] == '_'
                    || s@[j] == '.',
        decreases cs@.len() - i,
    {
        let c = cs[i];
        if !(alnum(c) || c == '-' || c == '_' || c == '.') {
            assert(!(chars::is_alnum(s@[i as int]) || s@[i as int] == '-'));
            return false;
        }
        i = i + 1;
    }
    cs.len() > 0
}

/// `repo` without white space around it, if it has the form `owner/name`.
pub fn validate_repo_format(repo: &str) -> (r: Option<String>)
    ensures
        chars::opt_text(r) == valid_repo(repo@),
{
    let text = trimmed(repo);
    match cut_once(text.as_str(), '/') {
        Some((owner, name)) => {
            if repo_part(owner.as_str()) && repo_part(name.as_str()) {
                Some(text)
            } else {
                None
            }
        },
        None => None,
    }
}

/// The repository that helpers are downloaded from.
pub fn helper_release_repo(chosen: Option<&str>) -> (r: String)
    ensures
        r@ == release_repo(chars::opt_str(chosen)),
{
    match chosen {
        Some(repo) => match validate_repo_format(repo) {
            Some(valid) => valid,
            None => HELPER_RELEASE_REPO.to_string(),
        },
        None => HELPER_RELEASE_REPO.to_string(),
    }
}

/// The arguments of `ssh` up to the command.
fn build_ssh_base_args_with_plan(profile: &RemoteHostProfile, plan: &SshAuthPlan) -> (r: Vec<
    String,
>)
    ensures
        chars::texts(r@) == connect_args(profile@.port) + plan@.args + target_args(profile@),
{
    let mut args: Vec<String> = Vec::new();
    let port = number_text(profile.port as u64);
    push_text(&mut args, "-p");
    push_text(&mut args, port.as_str());
    push_text(&mut args, "-o");
    push_text(&mut args, "ConnectTimeout=10");
    push_text(&mut args, "-o");
    push_text(&mut args, "ServerAliveInterval=15");
    push_text(&mut args, "-o");
    push_text(&mut args, "ServerAliveCountMax=3");
    push_text(&mut args, "-o");
    push_text(&mut args, "StrictHostKeyChecking=accept-new");
    assert(chars::texts(args@) =~= connect_args(profile@.port));
    push_texts(&mut args, &plan.args);
    let target = cat3(profile.username.as_str(), "@", profile.host.as_str());
    push_text(&mut args, "--");
    push_text(&mut args, target.as_str());
    assert(chars::texts(args@) =~= connect_args(profile@.port) + plan@.args + target_args(
        profile@,
    ));
    args
}

/// The call of `ssh` for a remote command.
pub fn build_ssh_script_spec(
    profile: &RemoteHostProfile,
    remote_cmd: &str,
    runtime: AuthRuntimeOptions,
) -> (r: SshCommandSpec)
    ensures
        chars::texts(r.args@) == ssh_args(profile@, runtime@, remote_cmd@),
        chars::pairs(r.env@) == auth::plan(profile@, runtime@).env,
{
    let plan = SshAuthPlan::from_profile(profile, runtime);
    let mut args = build_ssh_base_args_with_plan(profile, &plan);
    push_text(&mut args, remote_cmd);
    SshCommandSpec { args, env: plan.env }
}

/// The call of `ssh` for a helper command.
pub fn build_ssh_command_spec(
    profile: &RemoteHostProfile,
    helper_args: &Vec<String>,
    runtime: AuthRuntimeOptions,
) -> (r: SshCommandSpec)
    ensures
        chars::texts(r.args@) == ssh_args(
            profile@,
            runtime@,
            shell::helper_command(profile@.helper_path, chars::texts(helper_args@)),
        ),
        chars::pairs(r.env@) == auth::plan(profile@, runtime@).env,
{
    let command = helper_command_line(profile.helper_path.as_str(), helper_args);
    build_ssh_script_spec(profile, command.as_str(), runtime)
}

/// The arguments of `ssh` for a helper command.
pub fn build_ssh_args(
    profile: &RemoteHostProfile,
    helper_args: &Vec<String>,
    runtime: AuthRuntimeOptions,
) -> (r: Vec<String>)
    ensures
        chars::texts(r@) == ssh_args(
            profile@,
            runtime@,
            shell::helper_command(profile@.helper_path, chars::texts(helper_args@)),
        ),
{
    build_ssh_command_spec(profile, helper_args, runtime).args
}

/// The call of `ssh` that downloads a helper.
pub fn build_helper_install_command_spec(
    profile: &RemoteHostProfile,
    runtime: AuthRuntimeOptions,
    chosen_repo: Option<&str>,
) -> (r: SshCommandSpec)
    ensures
        chars::texts(r.args@) == ssh_args(
            profile@,
            runtime@,
            download_script(profile@.helper_path, release_repo(chars::opt_str(chosen_repo))),
        ),
        chars::pairs(r.env@) == auth::plan(profile@, runtime@).env,
{
    let path = shell_quote(profile.helper_path.as_str());
    let repo = helper_release_repo(chosen_repo);
    let script = cat5(INSTALL_HEAD, path.as_str(), DOWNLOAD_TO_REPO, repo.as_str(), DOWNLOAD_TAIL);
    build_ssh_script_spec(profile, script.as_str(), runtime)
}

/// The arguments of `ssh` that download a helper.
pub fn build_helper_install_args(
    profile: &RemoteHostProfile,
    runtime: AuthRuntimeOptions,
    chosen_repo: Option<&str>,
) -> (r: Vec<String>)
    ensures
        chars::texts(r@) == ssh_args(
            profile@,
            runtime@,
            download_script(profile@.helper_path, release_repo(chars::opt_str(chosen_repo))),
        ),
{
    build_helper_install_command_spec(profile, runtime, chosen_repo).args
}

/// The call of `ssh` that stores its standard input as the helper.
pub fn build_helper_stdin_install_command_spec(
    profile: &RemoteHostProfile,
    runtime: AuthRuntimeOptions,
) -> (r: SshCommandSpec)
    ensures
        chars::texts(r.args@) == ssh_args(
            profile@,
            runtime@,
            upload_script(profile@.helper_path),
        ),
        chars::pairs(r.env@) == auth::plan(profile@, runtime@).env,
{
    let path = shell_quote(profile.helper_path.as_str());
    let script = cat3(INSTALL_HEAD, path.as_str(), UPLOAD_TAIL);
    build_ssh_script_spec(profile, script.as_str(), runtime)
}

/// The arguments of `ssh` that store its standard input as the helper.
pub fn build_helper_stdin_install_args(
    profile: &RemoteHostProfile,
    runtime: AuthRuntimeOptions,
) -> (r: Vec<String>)
    ensures
        chars::texts(r@) == ssh_args(profile@, runtime@, upload_script(profile@.helper_path)),
{
    build_helper_stdin_install_command_spec(profile, runtime).args
}

/// What a process that ended yields: its output, if it succeeded, wrote no more
/// than is allowed, and wrote UTF-8.
pub open spec fn finished_output(
    p: HostView,
    success: bool,
    code: Option<i32>,
    stdout: Seq<u8>,
    stderr: Seq<u8>,
    too_large: ErrorView,
    not_text: ErrorView,
) -> Result<Seq<char>, ErrorView> {
    if !success {
        let text = trim::trim(encode::decoded(stderr));
        Err(ssh_output::ssh_error(p, text, encode::lowered(text), code))
    } else if stdout.len() > MAX_OUTPUT_SIZE {
        Err(too_large)
    } else if vstd::utf8::valid_utf8(stdout) {
        Ok(vstd::utf8::decode_utf8(stdout))
    } else {
        Err(not_text)
    }
}

/// `ssh` could not be started.
pub open spec fn spawn_error(error: Seq<char>, suggestion: Seq<char>) -> ErrorView {
    types::fault(
        "ssh_spawn_failed"@,
        "无法启动 SSH 客户端："@ + error,
        Some("请确认 OpenSSH 客户端已安装并在 PATH 中："@ + error),
        false,
        suggestion,
    )
}

/// Waiting for `ssh` failed.
pub open spec fn io_error(error: Seq<char>) -> ErrorView {
    types::fault(
        "ssh_io_error"@,
        "SSH 进程 I/O 错误："@ + error,
        None,
        true,
        "请重试。如持续出现，请检查系统资源。"@,
    )
}

/// A binary could not be handed to `ssh`.
pub open spec fn upload_error(error: Seq<char>) -> ErrorView {
    types::fault(
        "helper_upload_failed"@,
        "上传 Helper 二进制失败："@ + error,
        None,
        true,
        "请检查 SSH 连接是否稳定，并重试保存服务器。"@,
    )
}

/// What a helper command yields.
pub open spec fn command_result(
    p: HostView,
    outcome: CommandOutcome,
    timeout_secs: u64,
    details: Seq<char>,
) -> Result<Seq<char>, ErrorView> {
    match outcome {
        CommandOutcome::SpawnFailed { error } => Err(
            spawn_error(
                error@,
                "Windows 10+ 自带 OpenSSH。请在「设置→应用→可选功能」中确认已安装。"@,
            ),
        ),
        CommandOutcome::UploadFailed { error } => Err(upload_error(error@)),
        CommandOutcome::WaitFailed { error } => Err(io_error(error@)),
        CommandOutcome::TimedOut => Err(
            types::fault(
                "ssh_timeout"@,
                "SSH 命令执行超时（"@ + number::decimal(timeout_secs as nat) + "秒）"@,
                Some("命令："@ + p.host + " "@ + p.username + (" "@ + details)),
                true,
                "网络慢或远程命令卡住。请检查网络连接，或在 SSH 配置中设置超时参数。"@,
            ),
        ),
        CommandOutcome::Finished { success, code, stdout, stderr } => finished_output(
            p,
            success,
            code,
            stdout@,
            stderr@,
            types::fault(
                "output_too_large"@,
                "Helper 输出过大（"@ + number::decimal(stdout@.len()) + " 字节，限制 "@
                    + number::decimal(MAX_OUTPUT_SIZE as nat) + " 字节）"@,
                Some("输出被截断以防止内存溢出"@),
                false,
                "请在远程服务器上查看 Helper 日志文件排查问题（csswitch-helper logs proxy）。"@,
            ),
            types::fault(
                "invalid_utf8"@,
                "Helper 返回了无效的 UTF-8 数据"@,
                None,
                false,
                "这可能表示 Helper 二进制损坏。请尝试重新安装 Helper。"@,
            ),
        ),
    }
}

/// What a remote script yields.
pub open spec fn script_result(
    p: HostView,
    outcome: CommandOutcome,
    timeout_secs: u64,
    remote_cmd: Seq<char>,
) -> Result<Seq<char>, ErrorView> {
    match outcome {
        CommandOutcome::SpawnFailed { error } => Err(
            spawn_error(error@, "Windows 10+ 自带 OpenSSH。请在系统可选功能中确认已安装。"@),
        ),
        CommandOutcome::UploadFailed { error } => Err(upload_error(error@)),
        CommandOutcome::WaitFailed { error } => Err(io_error(error@)),
        CommandOutcome::TimedOut => Err(
            types::fault(
                "ssh_timeout"@,
                "SSH 命令执行超时（"@ + number::decimal(timeout_secs as nat) + "秒）"@,
                Some("命令："@ + p.host + " "@ + p.username + (" "@ + remote_cmd)),
                true,
                "网络慢或远程命令卡住。请检查 SSH 连接后重试。"@,
            ),
        ),
        CommandOutcome::Finished { success, code, stdout, stderr } => finished_output(
            p,
            success,
            code,
            stdout@,
            stderr@,
            types::fault(
                "output_too_large"@,
                "SSH 输出过大（"@ + number::decimal(stdout@.len()) + " 字节）"@,
                None,
                false,
                "请在远程服务器上查看命令输出排查问题。"@,
            ),
            types::fault(
                "invalid_utf8"@,
                "SSH 返回了无效的 UTF-8 数据"@,
                None,
                false,
                "请检查远程 Shell 输出。"@,
            ),
        ),
    }
}

/// What storing a helper from standard input yields.
pub open spec fn upload_result(p: HostView, outcome: CommandOutcome) -> Result<
    Seq<char>,
    ErrorView,
> {
    match outcome {
        CommandOutcome::SpawnFailed { error } => Err(
            spawn_error(error@, "Windows 10+ 自带 OpenSSH。请在系统可选功能中确认已安装。"@),
        ),
        CommandOutcome::UploadFailed { error } => Err(upload_error(error@)),
        CommandOutcome::WaitFailed { error } => Err(io_error(error@)),
        CommandOutcome::TimedOut => Err(
            types::fault(
                "ssh_timeout"@,
                "SSH 上传 Helper 超时（"@ + number::decimal(SLOW_CMD_TIMEOUT_SECS as nat) + "秒）"@,
                Some("目标："@ + p.username + "@"@ + p.host),
                true,
                "网络慢或远程命令卡住。请检查 SSH 连接后重试。"@,
            ),
        ),
        CommandOutcome::Finished { success, code, stdout, stderr } => finished_output(
            p,
            success,
            code,
            stdout@,
            stderr@,
            types::fault(
                "output_too_large"@,
                "Helper 输出过大（"@ + number::decimal(stdout@.len()) + " 字节）"@,
                None,
                false,
                "请在远程服务器上查看 Helper 日志排查问题。"@,
            ),
            types::fault(
                "invalid_utf8"@,
                "Helper 返回了无效的 UTF-8 数据"@,
                None,
                false,
                "这可能表示 Helper 二进制损坏。请尝试重新安装 Helper。"@,
            ),
        ),
    }
}

/// What a process that ended yields.
fn collect_finished(
    profile: &RemoteHostProfile,
    success: bool,
    code: Option<i32>,
    stdout: Vec<u8>,
    stderr: &Vec<u8>,
    too_large: RemoteError,
    not_text: RemoteError,
) -> (r: Result<String, RemoteError>)
    ensures
        types::outcome(r) == finished_output(
            profile@,
            success,
            code,
            stdout@,
            stderr@,
            too_large@,
            not_text@,
        ),
{
    if !success {
        let all = lossy_text(stderr.as_slice());
        let text = trimmed(all.as_str());
        return Err(map_ssh_error(profile, text.as_str(), code));
    }
    if stdout.len() > MAX_OUTPUT_SIZE {
        return Err(too_large);
    }
    match utf8_text(stdout) {
        Some(text) => Ok(text),
        None => Err(not_text),
    }
}

/// `ssh` could not be started.
fn spawn_failed(error: &str, suggestion: &str) -> (r: RemoteError)
    ensures
        r@ == spawn_error(error@, suggestion@),
{
    let message = cat2("无法启动 SSH 客户端：", error);
    let details = cat2("请确认 OpenSSH 客户端已安装并在 PATH 中：", error);
    RemoteError::new(
        "ssh_spawn_failed",
        message.as_str(),
        Some(details.as_str()),
        false,
        suggestion,
    )
}

/// Waiting for `ssh` failed.
fn wait_failed(error: &str) -> (r: RemoteError)
    ensures
        r@ == io_error(error@),
{
    let message = cat2("SSH 进程 I/O 错误：", error);
    RemoteError::new(
        "ssh_io_error",
        message.as_str(),
        None,
        true,
        "请重试。如持续出现，请检查系统资源。",
    )
}

/// A binary could not be handed to `ssh`.
fn upload_failed(error: &str) -> (r: RemoteError)
    ensures
        r@ == upload_error(error@),
{
    let message = cat2("上传 Helper 二进制失败：", error);
    RemoteError::new(
        "helper_upload_failed",
        message.as_str(),
        None,
        true,
        "请检查 SSH 连接是否稳定，并重试保存服务器。",
    )
}

/// A call of `ssh` took too long.
fn timed_out(
    profile: &RemoteHostProfile,
    timeout_secs: u64,
    command: &str,
    suggestion: &str,
) -> (r: RemoteError)
    ensures
        r@ == types::fault(
            "ssh_timeout"@,
            "SSH 命令执行超时（"@ + number::decimal(timeout_secs as nat) + "秒）"@,
            Some("命令："@ + profile@.host + " "@ + profile@.username + (" "@ + command@)),
            true,
            suggestion@,
        ),
{
    let secs = number_text(timeout_secs);
    let message = cat3("SSH 命令执行超时（", secs.as_str(), "秒）");
    let rest = cat2(" ", command);
    let details = cat5(
        "命令：",
        profile.host.as_str(),
        " ",
        profile.username.as_str(),
        rest.as_str(),
    );
    RemoteError::new(
        "ssh_timeout",
        message.as_str(),
        Some(details.as_str()),
        true,
        suggestion,
    )
}

/// What a helper command yields.
pub fn run_ssh_command(
    profile: &RemoteHostProfile,
    outcome: CommandOutcome,
    timeout_secs: u64,
    command_details: &str,
) -> (r: Result<String, RemoteError>)
    ensures
        types::outcome(r) == command_result(profile@, outcome, timeout_secs, command_details@),
{
    match outcome {
        CommandOutcome::SpawnFailed { error } => Err(
            spawn_failed(
                error.as_str(),
                "Windows 10+ 自带 OpenSSH。请在「设置→应用→可选功能」中确认已安装。",
            ),
        ),
        CommandOutcome::UploadFailed { error } => Err(upload_failed(error.as_str())),
        CommandOutcome::WaitFailed { error } => Err(wait_failed(error.as_str())),
        CommandOutcome::TimedOut => Err(
            timed_out(
                profile,
                timeout_secs,
                command_details,
                "网络慢或远程命令卡住。请检查网络连接，或在 SSH 配置中设置超时参数。",
            ),
        ),
        CommandOutcome::Finished { success, code, stdout, stderr } => {
            let size = number_text(stdout.len() as u64);
            let limit = number_text(MAX_OUTPUT_SIZE as u64);
            let message = cat5(
                "Helper 输出过大（",
                size.as_str(),
                " 字节，限制 ",
                limit.as_str(),
                " 字节）",
            );
            let too_large = RemoteError::new(
                "output_too_large",
                message.as_str(),
                Some("输出被截断以防止内存溢出"),
                false,
                "请在远程服务器上查看 Helper 日志文件排查问题（csswitch-helper logs proxy）。",
            );
            let not_text = RemoteError::new(
                "invalid_utf8",
                "Helper 返回了无效的 UTF-8 数据",
                None,
                false,
                "这可能表示 Helper 二进制损坏。请尝试重新安装 Helper。",
            );
            collect_finished(profile, success, code, stdout, &stderr, too_large, not_text)
        },
    }
}

/// What a remote script yields.
pub fn run_ssh_script(
    profile: &RemoteHostProfile,
    remote_cmd: &str,
    outcome: CommandOutcome,
    timeout_secs: u64,
) -> (r: Result<String, RemoteError>)
    ensures
        types::outcome(r) == script_result(profile@, outcome, timeout_secs, remote_cmd@),
{
    match outcome {
        CommandOutcome::SpawnFailed { error } => Err(
            spawn_failed(
                error.as_str(),
                "Windows 10+ 自带 OpenSSH。请在系统可选功能中确认已安装。",
            ),
        ),
        CommandOutcome::UploadFailed { error } => Err(upload_failed(error.as_str())),
        CommandOutcome::WaitFailed { error } => Err(wait_failed(error.as_str())),
        CommandOutcome::TimedOut => Err(
            timed_out(
                profile,
                timeout_secs,
                remote_cmd,
                "网络慢或远程命令卡住。请检查 SSH 连接后重试。",
            ),
        ),
        CommandOutcome::Finished { success, code, stdout, stderr } => {
            let size = number_text(stdout.len() as u64);
            let message = cat3("SSH 输出过大（", size.as_str(), " 字节）");
            let too_large = RemoteError::new(
                "output_too_large",
                message.as_str(),
                None,
                false,
                "请在远程服务器上查看命令输出排查问题。",
            );
            let not_text = RemoteError::new(
                "invalid_utf8",
                "SSH 返回了无效的 UTF-8 数据",
                None,
                false,
                "请检查远程 Shell 输出。",
            );
            collect_finished(profile, success, code, stdout, &stderr, too_large, not_text)
        },
    }
}

/// What storing a helper from standard input yields.
pub fn install_helper_from_stdin(profile: &RemoteHostProfile, outcome: CommandOutcome) -> (r:
    Result<String, RemoteError>)
    ensures
        types::outcome(r) == upload_result(profile@, outcome),
{
    match outcome {
        CommandOutcome::SpawnFailed { error } => Err(
            spawn_failed(
                error.as_str(),
                "Windows 10+ 自带 OpenSSH。请在系统可选功能中确认已安装。",
            ),
        ),
        CommandOutcome::UploadFailed { error } => Err(upload_failed(error.as_str())),
        CommandOutcome::WaitFailed { error } => Err(wait_failed(error.as_str())),
        CommandOutcome::TimedOut => {
            let secs = number_text(SLOW_CMD_TIMEOUT_SECS);
            let message = cat3("SSH 上传 Helper 超时（", secs.as_str(), "秒）");
            let details = cat4("目标：", profile.username.as_str(), "@", profile.host.as_str());
            Err(
                RemoteError::new(
                    "ssh_timeout",
                    message.as_str(),
                    Some(details.as_str()),
                    true,
                    "网络慢或远程命令卡住。请检查 SSH 连接后重试。",
                ),
            )
        },
        CommandOutcome::Finished { success, code, stdout, stderr } => {
            let size = number_text(stdout.len() as u64);
            let message = cat3("Helper 输出过大（", size.as_str(), " 字节）");
            let too_large = RemoteError::new(
                "output_too_large",
                message.as_str(),
                None,
                false,
                "请在远程服务器上查看 Helper 日志排查问题。",
            );
            let not_text = RemoteError::new(
                "invalid_utf8",
                "Helper 返回了无效的 UTF-8 数据",
                None,
                false,
                "这可能表示 Helper 二进制损坏。请尝试重新安装 Helper。",
            );
            collect_finished(profile, success, code, stdout, &stderr, too_large, not_text)
        },
    }
}

/// The operating system and the processor that the output of the platform
/// script names.
pub open spec fn platform(out: Seq<char>) -> Result<(Seq<char>, Seq<char>), ErrorView> {
    let lines = split::filled_lines(split::lines(out));
    let os = if lines.len() > 0 {
        lines[0]
    } else {
        Seq::empty()
    };
    let arch = if lines.len() > 1 {
        lines[1]
    } else {
        Seq::empty()
    };
    if os == "Linux"@ || os == "Darwin"@ {
        Ok(
            (
                if os == "Linux"@ {
                    "linux"@
                } else {
                    "macos"@
                },
                if arch == "x86_64"@ || arch == "amd64"@ {
                    "x86_64"@
                } else if arch == "aarch64"@ || arch == "arm64"@ {
                    "aarch64"@
                } else {
                    arch
                },
            ),
        )
    } else {
        Err(
            types::fault(
                "unsupported_platform"@,
                "远程服务器平台不支持："@ + os + "（仅支持 Linux）"@,
                None,
                false,
                "远程 Helper 目前仅支持 Linux 服务器。请在 Linux 上部署。"@,
            ),
        )
    }
}

/// The operating system and the processor that the output of the platform
/// script names.
pub fn detect_remote_platform(out: &str) -> (r: Result<(String, String), RemoteError>)
    ensures
        match r {
            Ok((os, arch)) => platform(out@) == Ok::<(Seq<char>, Seq<char>), ErrorView>(
                (os@, arch@),
            ),
            Err(e) => platform(out@) == Err::<(Seq<char>, Seq<char>), ErrorView>(e@),
        },
{
    let lines = split_filled_lines(out);
    let os = if lines.len() > 0 {
        lines[0].clone()
    } else {
        String::new()
    };
    let arch = if lines.len() > 1 {
        lines[1].clone()
    } else {
        String::new()
    };
    assert(os@.len() == 0 ==> os@ =~= Seq::empty());
    assert(arch@.len() == 0 ==> arch@ =~= Seq::empty());
    let named = if same(os.as_str(), "Linux") {
        "linux".to_string()
    } else if same(os.as_str(), "Darwin") {
        proof {
            reveal_strlit("Linux");
            reveal_strlit("Darwin");
        }
        "macos".to_string()
    } else {
        let message = cat3("远程服务器平台不支持：", os.as_str(), "（仅支持 Linux）");
        return Err(
            RemoteError::new(
                "unsupported_platform",
                message.as_str(),
                None,
                false,
                "远程 Helper 目前仅支持 Linux 服务器。请在 Linux 上部署。",
            ),
        );
    };
    let kind = if same(arch.as_str(), "x86_64") || same(arch.as_str(), "amd64") {
        "x86_64".to_string()
    } else if same(arch.as_str(), "aarch64") || same(arch.as_str(), "arm64") {
        "aarch64".to_string()
    } else {
        arch
    };
    Ok((named, kind))
}

/// The options of a plan where a program asks for passwords.
pub open spec fn askpass_runtime(base: RuntimeView, exe: Seq<char>, dir: Seq<char>) -> RuntimeView {
    RuntimeView {
        askpass_path: Some(exe),
        askpass_session_dir: Some(dir),
        askpass_env: base.askpass_env.push(("CSSWITCH_ASKPASS_MODE"@, "1"@)),
        ..base
    }
}

/// The options of a plan where this program, at `exe`, asks for passwords through
/// files in `session_dir`, and whether it must be ready to ask.
pub fn auth_runtime_options(
    profile: &RemoteHostProfile,
    base: AuthRuntimeOptions,
    exe: Result<String, String>,
    session_dir: String,
) -> (r: Result<(AuthRuntimeOptions, bool), RemoteError>)
    ensures
        match (r, exe) {
            (Ok((runtime, ask)), Ok(path)) => {
                &&& runtime@ == askpass_runtime(base@, path@, session_dir@)
                &&& ask == auth::asks_user(profile@.auth)
            },
            (Err(e), Err(why)) => e@ == types::fault(
                "ssh_askpass_path_failed"@,
                "无法定位 SSH 登录辅助程序"@,
                Some(why@),
                false,
                "请重新安装或重新启动 CSSwitch。"@,
            ),
            _ => false,
        },
{
    match exe {
        Ok(path) => {
            let mut runtime = base;
            runtime.askpass_path = Some(path);
            runtime.askpass_session_dir = Some(session_dir);
            chars::push_pair(&mut runtime.askpass_env, "CSSWITCH_ASKPASS_MODE", "1");
            let plan = SshAuthPlan::from_profile(profile, runtime.duplicate());
            Ok((runtime, plan.interactive))
        },
        Err(why) => Err(
            RemoteError::new(
                "ssh_askpass_path_failed",
                "无法定位 SSH 登录辅助程序",
                Some(why.as_str()),
                false,
                "请重新安装或重新启动 CSSwitch。",
            ),
        ),
    }
}

/// The user must be asked for something, but there is no window to ask in.
pub fn prompt_unavailable() -> (r: RemoteError)
    ensures
        r@ == types::fault(
            "ssh_auth_prompt_unavailable"@,
            "需要输入登录信息，但当前窗口还没有准备好"@,
            None,
            true,
            "请稍后重试连接。"@,
        ),
{
    RemoteError::new(
        "ssh_auth_prompt_unavailable",
        "需要输入登录信息，但当前窗口还没有准备好",
        None,
        true,
        "请稍后重试连接。",
    )
}

/// The user must be asked for something, but the window could not be opened.
pub fn prompt_failed(error: &str) -> (r: RemoteError)
    ensures
        r@ == types::fault(
            "ssh_auth_prompt_failed"@,
            "无法打开 SSH 登录输入窗口"@,
            Some(error@),
            true,
            "请重试连接；如果仍失败，请检查应用日志。"@,
        ),
{
    RemoteError::new(
        "ssh_auth_prompt_failed",
        "无法打开 SSH 登录输入窗口",
        Some(error),
        true,
        "请重试连接；如果仍失败，请检查应用日志。",
    )
}

/// The directory in which the process `pid` leaves its questions, from the time
/// at which it started to ask.
pub fn askpass_session_dir(config_dir: &str, pid: u32, nanos: u128) -> (r: String)
    ensures
        r@ == paths::join2(
            config_dir@,
            "ssh-askpass"@,
            number::decimal(pid as nat) + "-"@ + number::decimal(nanos as nat),
        ),
{
    let id = number_text(pid as u64);
    let now = wide_number_text(nanos);
    let name = cat3(id.as_str(), "-", now.as_str());
    join_path2(config_dir, "ssh-askpass", name.as_str())
}

/// How long to wait before the given attempt, in seconds: twice as long each
/// time, from two seconds on.
pub open spec fn backoff(attempt: nat) -> nat {
    let wait = 2 * vstd::arithmetic::power2::pow2((attempt - 1) as nat);
    if wait > u64::MAX {
        u64::MAX as nat
    } else {
        wait
    }
}

/// How long to wait before the given attempt, in seconds.
pub fn backoff_secs(attempt: u32) -> (r: u64)
    requires
        1 <= attempt <= 64,
    ensures
        r == backoff(attempt as nat),
{
    let mut wait: u64 = 2;
    let mut i: u32 = 1;
    proof {
        vstd::arithmetic::power2::lemma2_to64();
    }
    while i < attempt
        invariant
            1 <= i <= attempt <= 64,
            wait == backoff(i as nat),
        decreases attempt - i,
    {
        proof {
            vstd::arithmetic::power2::lemma_pow2_unfold(i as nat);
            if i < 63 {
                vstd::arithmetic::power2::lemma2_to64();
                vstd::arithmetic::power2::lemma_pow2_strictly_increases((i - 1) as nat, 62);
            } else {
                vstd::arithmetic::power2::lemma2_to64_rest();
            }
        }
        wait = if wait > u64::MAX / 2 {
            u64::MAX
        } else {
            wait * 2
        };
        i = i + 1;
    }
    wait
}

/// What is done after one attempt to call a helper.
#[derive(Debug)]
pub enum HelperStep {
    /// The call is over.
    Done(Result<Json, RemoteError>),
    /// The call is tried again, after a pause.
    Retry { delay_secs: u64 },
}

/// What is done after the attempt with the number `attempt`, from 0 on, of a call
/// that may be tried again `retries` times: a reply ends the call, and so does an
/// error against which trying again does not help.
pub fn helper_step(attempt: u32, retries: u32, run: Result<String, RemoteError>) -> (r: HelperStep)
    requires
        attempt < 64,
    ensures
        match run {
            Ok(stdout) => {
                let line = ssh_output::reply_line(stdout@);
                r matches HelperStep::Done(reply) && ssh_output::answer(reply)
                    == ssh_output::reply_meaning(line, json::json_text(line))
            },
            Err(e) => match next_pause(
                attempt as nat,
                retries as nat,
                ssh_output::is_recoverable(e@),
            ) {
                Some(secs) => r == (HelperStep::Retry { delay_secs: secs }),
                None => r matches HelperStep::Done(Err(last)) && last@ == e@,
            },
        },
{
    match run {
        Ok(stdout) => HelperStep::Done(parse_helper_response(stdout.as_str())),
        Err(e) => {
            if attempt < retries && is_recoverable_error(&e) {
                HelperStep::Retry { delay_secs: backoff_secs(attempt + 1) }
            } else {
                HelperStep::Done(Err(e))
            }
        },
    }
}

/// How many seconds pass before a call that failed at the attempt with the number
/// `attempt` is tried again, if it is: `again` tells whether that may help.
pub open spec fn next_pause(attempt: nat, retries: nat, again: bool) -> Option<u64> {
    if attempt < retries && again {
        Some(backoff(attempt + 1) as u64)
    } else {
        None
    }
}

/// A call that failed is tried again exactly if that may help and it was tried again less
/// often than it may be: after two seconds at first, and after twice as long each time.
pub proof fn lemma_pauses(attempt: nat, retries: nat, again: bool, e: ErrorView)
    ensures
        next_pause(attempt, retries, again) is Some <==> again && attempt < retries,
        goes_on(attempt, retries, Err(e)) <==> next_pause(
            attempt,
            retries,
            ssh_output::is_recoverable(e),
        ) is Some,
        retries > 0 && again ==> next_pause(0, retries, again) == Some(2u64),
        attempt < 60 && attempt + 1 < retries && again ==> next_pause(attempt + 1, retries, again)
            == Some((2 * next_pause(attempt, retries, again)->0) as u64),
{
    vstd::arithmetic::power2::lemma2_to64();
    vstd::arithmetic::power2::lemma2_to64_rest();
    if attempt < 60 {
        vstd::arithmetic::power2::lemma_pow2_unfold(attempt + 2);
        vstd::arithmetic::power2::lemma_pow2_unfold(attempt + 1);
        vstd::arithmetic::power2::lemma_pow2_strictly_increases(attempt + 1, 62);
    }
}

/// Whether a call goes on after the attempt with the number `attempt`: only after a fault
/// against which trying again may help, and only as often as it may be tried again.
pub open spec fn goes_on(attempt: nat, retries: nat, run: Result<Seq<char>, ErrorView>) -> bool {
    run matches Err(e) && attempt < retries && ssh_output::is_recoverable(e)
}

/// The number of the last attempt of a call that goes on from the attempt `attempt`,
/// where `runs` tells how each attempt would end.
pub open spec fn last_attempt(
    runs: spec_fn(nat) -> Result<Seq<char>, ErrorView>,
    attempt: nat,
    retries: nat,
) -> nat
    decreases retries - attempt,
{
    if goes_on(attempt, retries, runs(attempt)) {
        last_attempt(runs, attempt + 1, retries)
    } else {
        attempt
    }
}

/// A call makes one attempt at least, and at most as many more as it may; each but the
/// last ends in a fault against which trying again may help. The last one brings a
/// reply, or a fault that is final, or it is the last that is allowed.
pub proof fn lemma_attempts(
    runs: spec_fn(nat) -> Result<Seq<char>, ErrorView>,
    attempt: nat,
    retries: nat,
)
    requires
        attempt <= retries,
    ensures
        ({
            let n = last_attempt(runs, attempt, retries);
            &&& attempt <= n <= retries
            &&& forall|i: nat|
                attempt <= i < n ==> (#[trigger] runs(i) matches Err(e)
                    && ssh_output::is_recoverable(e))
            &&& runs(n) matches Err(e) ==> n == retries || !ssh_output::is_recoverable(e)
        }),
    decreases retries - attempt,
{
    if goes_on(attempt, retries, runs(attempt)) {
        lemma_attempts(runs, attempt + 1, retries);
    }
}

/// The pauses before the three further attempts are 2, 4 and 8 seconds.
pub proof fn lemma_backoff()
    ensures
        backoff(1) == 2,
        backoff(2) == 4,
        backoff(3) == 8,
{
    vstd::arithmetic::power2::lemma2_to64();
}

/// What a helper or a script wrote is what a call yields, if it succeeded and wrote no more
/// than a mebibyte of text.
pub proof fn lemma_output_is_yielded(
    p: HostView,
    outcome: CommandOutcome,
    timeout_secs: u64,
    said: Seq<char>,
    text: Seq<char>,
)
    requires
        outcome matches CommandOutcome::Finished { success, stdout, .. } && success && stdout@
            == vstd::utf8::encode_utf8(text) && stdout@.len() <= 1024 * 1024,
    ensures
        command_result(p, outcome, timeout_secs, said) == Ok::<Seq<char>, ErrorView>(text),
        script_result(p, outcome, timeout_secs, said) == Ok::<Seq<char>, ErrorView>(text),
        upload_result(p, outcome) == Ok::<Seq<char>, ErrorView>(text),
{
    vstd::utf8::encode_utf8_decode_utf8(text);
    vstd::utf8::encode_utf8_valid_utf8(text);
}

/// Nothing but a call that ended, succeeded and wrote text yields an output. Of one that
/// failed the error tells what it wrote, without white space around it.
pub proof fn lemma_failures_are_told(
    p: HostView,
    outcome: CommandOutcome,
    timeout_secs: u64,
    said: Seq<char>,
)
    ensures
        command_result(p, outcome, timeout_secs, said) is Ok ==> outcome matches
            CommandOutcome::Finished { success: true, .. },
        (outcome matches CommandOutcome::Finished { success, code, stderr, .. } && !success) ==> {
            &&& command_result(p, outcome, timeout_secs, said) is Err
            &&& command_result(p, outcome, timeout_secs, said)->Err_0.details == Some(
                trim::trim(encode::decoded(outcome->Finished_stderr@)),
            )
            &&& script_result(p, outcome, timeout_secs, said) == command_result(
                p,
                outcome,
                timeout_secs,
                said,
            )
            &&& upload_result(p, outcome) == command_result(p, outcome, timeout_secs, said)
        },
        outcome is TimedOut ==> command_result(p, outcome, timeout_secs, said)->Err_0.code
            == "ssh_timeout"@,
        outcome is SpawnFailed ==> command_result(p, outcome, timeout_secs, said)->Err_0.code
            == "ssh_spawn_failed"@,
        outcome is WaitFailed ==> command_result(p, outcome, timeout_secs, said)->Err_0.code
            == "ssh_io_error"@,
{
    if let CommandOutcome::Finished { success, code, stdout, stderr } = outcome {
        let text = trim::trim(encode::decoded(stderr@));
        ssh_output::lemma_ssh_error_kinds(p, text, encode::lowered(text), code);
    }
}

/// Each pause is twice as long as the one before it, as long as seconds can be counted.
pub proof fn lemma_backoff_doubles(attempt: nat)
    requires
        1 <= attempt,
        backoff(attempt) * 2 <= u64::MAX,
    ensures
        backoff(attempt + 1) == 2 * backoff(attempt),
        backoff(attempt) >= 2,
{
    vstd::arithmetic::power2::lemma_pow2_unfold(attempt);
    vstd::arithmetic::power2::lemma_pow2_pos((attempt - 1) as nat);
}

/// The script that installs a helper stores it at the path of the profile, as one word of
/// the shell, whatever characters the path holds.
pub proof fn lemma_scripts_name_the_path(helper_path: Seq<char>, repo: Seq<char>)
    ensures
        search::begins(download_script(helper_path, repo), INSTALL_HEAD@ + shell::quoted(helper_path)),
        search::begins(upload_script(helper_path), INSTALL_HEAD@ + shell::quoted(helper_path)),
        shell::sh_read(shell::quoted(helper_path), false) == Some((helper_path, Seq::<char>::empty())),
{
    let head = INSTALL_HEAD@ + shell::quoted(helper_path);
    assert(download_script(helper_path, repo).take(head.len() as int) =~= head);
    assert(upload_script(helper_path).take(head.len() as int) =~= head);
    shell::lemma_quoted_reads_back(helper_path, Seq::empty());
    assert(shell::quoted(helper_path) + Seq::<char>::empty() =~= shell::quoted(helper_path));
}

/// A helper is downloaded from the repository that the user chose, if its name has the form
/// `owner/name`, and else from the one of this project.
pub proof fn lemma_release_repo(owner: Seq<char>, name: Seq<char>)
    requires
        is_repo_part(owner),
        is_repo_part(name),
    ensures
        release_repo(Some(owner + "/"@ + name)) == owner + "/"@ + name,
        release_repo(None) == "SuperJJ007/CSswitch"@,
        search::contains(download_script(Seq::empty(), owner + "/"@ + name), owner + "/"@ + name),
{
    reveal_strlit("/");
    let text = owner + "/"@ + name;
    assert(!chars::is_space(text[0])) by {
        assert(text[0] == owner[0]);
    }
    assert(!chars::is_space(text.last())) by {
        assert(text.last() == name[name.len() - 1]);
    }
    trim::lemma_trim_fixed(text);
    assert forall|i: int| 0 <= i < owner.len() implies text[i] != '/' by {
        assert(text[i] == owner[i]);
    }
    search::lemma_index_of_is(text, '/', owner.len() as int);
    assert(text.take(owner.len() as int) =~= owner);
    assert(text.skip(owner.len() as int + 1) =~= name);
    let head = INSTALL_HEAD@ + shell::quoted(Seq::empty()) + DOWNLOAD_TO_REPO@;
    let s = download_script(Seq::empty(), text);
    assert(s.subrange(head.len() as int, (head.len() + text.len()) as int) =~= text);
    assert(search::occurs_at(s, text, head.len() as int));
}

/// A target that runs Linux on one of the usual processors is told by the names that the
/// releases of the helper have.
pub proof fn lemma_platform(arch: Seq<char>)
    requires
        arch.len() > 0,
        !trim::is_blank(arch),
        trim::trim(arch) == arch,
        forall|i: int| 0 <= i < arch.len() ==> arch[i] != '\n' && arch[i] != '\r',
    ensures
        platform("Linux\n"@ + arch + "\n"@) is Ok,
        platform("Linux\n"@ + arch + "\n"@)->Ok_0.0 == "linux"@,
        arch == "x86_64"@ || arch == "amd64"@ ==> platform("Linux\n"@ + arch + "\n"@)->Ok_0.1
            == "x86_64"@,
        arch == "aarch64"@ || arch == "arm64"@ ==> platform("Linux\n"@ + arch + "\n"@)->Ok_0.1
            == "aarch64"@,
{
    reveal_strlit("Linux\n");
    reveal_strlit("Linux");
    reveal_strlit("\n");
    reveal_strlit("x86_64");
    reveal_strlit("amd64");
    reveal_strlit("aarch64");
    reveal_strlit("arm64");
    assert("x86_64"@[0] != "aarch64"@[0] && "x86_64"@[0] != "arm64"@[0] && "amd64"@[1]
        != "aarch64"@[1] && "amd64"@[1] != "arm64"@[1]);
    let first = "Linux\n"@;
    assert(first =~= "Linux"@ + "\n"@);
    split::lemma_one_line("Linux"@);
    split::lemma_one_line(arch);
    split::lemma_lines_joined(first, arch + "\n"@);
    assert("Linux\n"@ + arch + "\n"@ =~= first + (arch + "\n"@));
    let v = split::lines("Linux\n"@ + arch + "\n"@);
    assert(v =~= seq!["Linux"@, arch]);
    trim::lemma_blank("Linux"@);
    trim::lemma_trim_fixed("Linux"@);
    let w = v.drop_last();
    assert(w =~= seq!["Linux"@]);
    assert(w.drop_last() =~= Seq::empty());
    assert(split::filled_lines(w) =~= seq!["Linux"@]) by {
        assert(split::filled_lines(w.drop_last()) =~= Seq::empty());
        assert(!trim::is_blank("Linux"@));
    }
    assert(split::filled_lines(v) =~= seq!["Linux"@, arch]);
}

/// Each way in which a call of `ssh` can fail has a code of its own, whatever the call is
/// for, and the error that came with it is told; a fault of the network or of this machine
/// may pass, one of the installation does not.
pub proof fn lemma_call_faults(
    p: HostView,
    error: String,
    stdout: Vec<u8>,
    stderr: Vec<u8>,
    code: Option<i32>,
    timeout_secs: u64,
    said: Seq<char>,
)
    ensures
        ({
            let results = |outcome: CommandOutcome|
                seq![
                    command_result(p, outcome, timeout_secs, said),
                    script_result(p, outcome, timeout_secs, said),
                    upload_result(p, outcome),
                ];
            let spawn = results(CommandOutcome::SpawnFailed { error });
            let upload = results(CommandOutcome::UploadFailed { error });
            let wait = results(CommandOutcome::WaitFailed { error });
            let late = results(CommandOutcome::TimedOut);
            let ended = results(
                CommandOutcome::Finished { success: true, code, stdout, stderr },
            );
            forall|i: int|
                0 <= i < 3 ==> {
                    &&& (#[trigger] spawn[i]) is Err && spawn[i]->Err_0.code
                        == "ssh_spawn_failed"@ && !spawn[i]->Err_0.recoverable && search::ends(
                        spawn[i]->Err_0.message,
                        error@,
                    )
                    &&& upload[i] is Err && upload[i]->Err_0.code == "helper_upload_failed"@
                        && upload[i]->Err_0.recoverable && search::ends(
                        upload[i]->Err_0.message,
                        error@,
                    )
                    &&& wait[i] is Err && wait[i]->Err_0.code == "ssh_io_error"@
                        && wait[i]->Err_0.recoverable && search::ends(
                        wait[i]->Err_0.message,
                        error@,
                    )
                    &&& late[i] is Err && late[i]->Err_0.code == "ssh_timeout"@
                        && late[i]->Err_0.recoverable
                    &&& stdout@.len() > 1024 * 1024 ==> ended[i] is Err && ended[i]->Err_0.code
                        == "output_too_large"@ && !ended[i]->Err_0.recoverable
                    &&& stdout@.len() <= 1024 * 1024 && !vstd::utf8::valid_utf8(stdout@)
                        ==> ended[i] is Err && ended[i]->Err_0.code == "invalid_utf8"@
                        && !ended[i]->Err_0.recoverable
                }
        }),
{
    search::lemma_ends_joined("无法启动 SSH 客户端："@, error@);
    search::lemma_ends_joined("上传 Helper 二进制失败："@, error@);
    search::lemma_ends_joined("SSH 进程 I/O 错误："@, error@);
}

/// A call that took too long is told with how long it may take, whom it was for, and what
/// was called.
pub proof fn lemma_timeouts(p: HostView, timeout_secs: u64, said: Seq<char>)
    ensures
        ({
            let e = command_result(p, CommandOutcome::TimedOut, timeout_secs, said)->Err_0;
            &&& search::contains(e.message, number::decimal(timeout_secs as nat))
            &&& e.details is Some && search::ends(
                e.details->0,
                p.host + " "@ + p.username + " "@ + said,
            )
        }),
        upload_result(p, CommandOutcome::TimedOut)->Err_0.details matches Some(d) && search::ends(
            d,
            p.username + "@"@ + p.host,
        ),
{
    let secs = number::decimal(timeout_secs as nat);
    let message = "SSH 命令执行超时（"@ + secs + "秒）"@;
    let k = "SSH 命令执行超时（"@.len() as int;
    assert(message.subrange(k, k + secs.len()) =~= secs);
    assert(search::occurs_at(message, secs, k));
    let tail = p.host + " "@ + p.username + " "@ + said;
    assert("命令："@ + p.host + " "@ + p.username + (" "@ + said) =~= "命令："@ + tail);
    search::lemma_ends_joined("命令："@, tail);
    let target = p.username + "@"@ + p.host;
    assert("目标："@ + p.username + "@"@ + p.host =~= "目标："@ + target);
    search::lemma_ends_joined("目标："@, target);
}

/// Where a user can be asked, `ssh` asks through the given program, in the given directory,
/// which it is told by its environment; all else stays as it was.
pub proof fn lemma_askpass_runtime(base: RuntimeView, exe: Seq<char>, dir: Seq<char>)
    ensures
        ({
            let r = askpass_runtime(base, exe, dir);
            &&& r.askpass_path == Some(exe) && r.askpass_session_dir == Some(dir)
            &&& r.askpass_env.last() == ("CSSWITCH_ASKPASS_MODE"@, "1"@)
            &&& r.askpass_env.drop_last() == base.askpass_env
            &&& r.control_path == base.control_path && r.default_ssh_dir == base.default_ssh_dir
            &&& r.default_key_names == base.default_key_names
        }),
{
    assert(askpass_runtime(base, exe, dir).askpass_env.drop_last() =~= base.askpass_env);
}

} // verus!
