//! What the output of `ssh` and of a helper means.

use vstd::prelude::*;

use crate::json::{self, parse_json, Json, Tree};
use crate::remote::types::{
    self, AuthView, ErrorView, HostView, RemoteAuthMethod, RemoteError, RemoteHostProfile,
};
use crate::text::bytes::{self, byte_count, head_bytes, last_cut};
use crate::text::chars::{self, cat2, cat3, cat5, same};
use crate::text::encode;
use crate::text::number::{self, number_text, signed_text};
use crate::text::search::{self, includes};
use crate::text::split::{self, split_lines};
use crate::text::trim::{self, blank, trimmed};

verus! {

/// What a user whose login failed is told to check.
pub open spec fn auth_advice(auth: AuthView) -> Seq<char> {
    match auth {
        AuthView::KeyFile { .. } => "请确认私钥文件路径正确且已添加到远程服务器的 authorized_keys。"@,
        AuthView::SshAgent => "请确认 ssh-agent 已运行且已添加对应密钥（ssh-add -l 查看）。"@,
        AuthView::Recommended { .. } => "请检查服务器地址、用户名、密码或密钥文件是否正确。"@,
        AuthView::Password { .. } => "请确认服务器密码正确。"@,
    }
}

/// An exit code as it is shown.
pub open spec fn shown_code(code: Option<i32>) -> Seq<char> {
    match code {
        Some(c) => number::signed_decimal(c as int),
        None => "未知"@,
    }
}

/// The error for a call of `ssh` that failed: `stderr` is what it wrote, `lower`
/// the same in lower case.
pub open spec fn ssh_error(
    p: HostView,
    stderr: Seq<char>,
    lower: Seq<char>,
    code: Option<i32>,
) -> ErrorView {
    if search::contains(lower, "publickey"@) || search::contains(lower, "authentication failed"@) {
        types::fault(
            "ssh_auth_failed"@,
            "SSH 认证失败，请检查用户名和密钥配置"@,
            Some(stderr),
            false,
            auth_advice(p.auth),
        )
    } else if search::contains(lower, "connection timed out"@)
        || search::contains(lower, "connection refused"@)
        || search::contains(lower, "no route to host"@)
        || search::contains(lower, "network is unreachable"@) {
        types::fault(
            "ssh_connection_failed"@,
            "无法连接到 "@ + p.host + ":"@ + number::decimal(p.port as nat) + "，请检查网络和服务器地址"@,
            Some(stderr),
            true,
            "请确认：1) 服务器地址和端口正确  2) 防火墙允许 SSH  3) 服务器 SSH 服务正在运行"@,
        )
    } else if search::contains(lower, "no such file"@) || search::contains(lower, "not found"@)
        || search::contains(stderr, "没有那个文件或目录"@) {
        types::fault(
            "helper_not_found"@,
            "远程 Helper 未安装或路径不正确（当前："@ + p.helper_path + "）"@,
            Some(stderr),
            false,
            "请点击「安装 Helper」按钮自动安装，或手动部署 Helper 到服务器。"@,
        )
    } else if search::contains(lower, "no space left"@) || search::contains(lower, "disk full"@)
        || search::contains(lower, "write failed"@) {
        types::fault(
            "disk_full"@,
            "远程服务器磁盘空间不足"@,
            Some(stderr),
            false,
            "请清理远程服务器磁盘空间，或使用 df -h 检查磁盘使用情况。"@,
        )
    } else if search::contains(lower, "permission denied"@) {
        types::fault(
            "permission_denied"@,
            "远程服务器权限不足"@,
            Some(stderr),
            false,
            "请确认远程用户对 Helper 路径和日志目录有读写权限（chmod +x helper_path）。"@,
        )
    } else if search::contains(lower, "command not found"@)
        || search::contains(lower, "syntax error"@) || search::contains(lower, ".bashrc"@)
        || search::contains(lower, ".profile"@) {
        types::fault(
            "shell_config_error"@,
            "远程 Shell 配置异常"@,
            Some(stderr),
            false,
            "请检查远程用户的 .bashrc 或 .profile 文件是否有错误（临时解决：ssh -t user@host /bin/bash --noprofile）。"@,
        )
    } else if search::contains(lower, "address already in use"@)
        || search::contains(lower, "port is already allocated"@)
        || search::contains(lower, "bind: address already in use"@) {
        types::fault(
            "port_in_use"@,
            "远程服务器端口已被占用"@,
            Some(stderr),
            false,
            "请停止占用该端口的进程（lsof -i :端口 或 netstat -tulpn | grep 端口），或更换端口。"@,
        )
    } else if search::contains(lower, "remote host identification has changed"@)
        || search::contains(lower, "host key verification failed"@) {
        types::fault(
            "host_key_changed"@,
            "远程服务器主机密钥已变更"@,
            Some(stderr),
            false,
            "服务器可能被重装或存在安全风险。请确认服务器身份后，手动删除 ~/.ssh/known_hosts 中的旧密钥。"@,
        )
    } else {
        types::fault(
            "ssh_exit_"@ + number::signed_decimal(
                match code {
                    Some(c) => c as int,
                    None => -1,
                },
            ),
            "SSH 命令执行失败（退出码 "@ + shown_code(code) + "）"@,
            Some(stderr),
            code == Some(255i32),
            "请在终端手动执行 SSH 命令排查问题：ssh -vvv user@host（-vvv 开启详细日志）。"@,
        )
    }
}

/// What a user whose login failed is told to check.
fn auth_suggestion(auth: &RemoteAuthMethod) -> (r: &'static str)
    ensures
        r@ == auth_advice(auth@),
{
    match auth {
        RemoteAuthMethod::KeyFile { .. } => "请确认私钥文件路径正确且已添加到远程服务器的 authorized_keys。",
        RemoteAuthMethod::SshAgent => "请确认 ssh-agent 已运行且已添加对应密钥（ssh-add -l 查看）。",
        RemoteAuthMethod::Recommended { .. } => "请检查服务器地址、用户名、密码或密钥文件是否正确。",
        RemoteAuthMethod::Password { .. } => "请确认服务器密码正确。",
    }
}

/// The error for a call of `ssh` that failed, where `lower` is `stderr` in lower
/// case.
pub fn map_lowered_ssh_error(
    profile: &RemoteHostProfile,
    stderr: &str,
    lower: &str,
    exit_code: Option<i32>,
) -> (r: RemoteError)
    ensures
        r@ == ssh_error(profile@, stderr@, lower@, exit_code),
{
    if includes(lower, "publickey") || includes(lower, "authentication failed") {
        RemoteError::new(
            "ssh_auth_failed",
            "SSH 认证失败，请检查用户名和密钥配置",
            Some(stderr),
            false,
            auth_suggestion(&profile.auth_method),
        )
    } else if includes(lower, "connection timed out") || includes(lower, "connection refused")
        || includes(lower, "no route to host") || includes(lower, "network is unreachable") {
        let port = number_text(profile.port as u64);
        let message = cat5(
            "无法连接到 ",
            profile.host.as_str(),
            ":",
            port.as_str(),
            "，请检查网络和服务器地址",
        );
        RemoteError::new(
            "ssh_connection_failed",
            message.as_str(),
            Some(stderr),
            true,
            "请确认：1) 服务器地址和端口正确  2) 防火墙允许 SSH  3) 服务器 SSH 服务正在运行",
        )
    } else if includes(lower, "no such file") || includes(lower, "not found")
        || includes(stderr, "没有那个文件或目录") {
        let message = cat3(
            "远程 Helper 未安装或路径不正确（当前：",
            profile.helper_path.as_str(),
            "）",
        );
        RemoteError::new(
            "helper_not_found",
            message.as_str(),
            Some(stderr),
            false,
            "请点击「安装 Helper」按钮自动安装，或手动部署 Helper 到服务器。",
        )
    } else if includes(lower, "no space left") || includes(lower, "disk full")
        || includes(lower, "write failed") {
        RemoteError::new(
            "disk_full",
            "远程服务器磁盘空间不足",
            Some(stderr),
            false,
            "请清理远程服务器磁盘空间，或使用 df -h 检查磁盘使用情况。",
        )
    } else if includes(lower, "permission denied") {
        RemoteError::new(
            "permission_denied",
            "远程服务器权限不足",
            Some(stderr),
            false,
            "请确认远程用户对 Helper 路径和日志目录有读写权限（chmod +x helper_path）。",
        )
    } else if includes(lower, "command not found") || includes(lower, "syntax error")
        || includes(lower, ".bashrc") || includes(lower, ".profile") {
        RemoteError::new(
            "shell_config_error",
            "远程 Shell 配置异常",
            Some(stderr),
            false,
            "请检查远程用户的 .bashrc 或 .profile 文件是否有错误（临时解决：ssh -t user@host /bin/bash --noprofile）。",
        )
    } else if includes(lower, "address already in use")
        || includes(lower, "port is already allocated")
        || includes(lower, "bind: address already in use") {
        RemoteError::new(
            "port_in_use",
            "远程服务器端口已被占用",
            Some(stderr),
            false,
            "请停止占用该端口的进程（lsof -i :端口 或 netstat -tulpn | grep 端口），或更换端口。",
        )
    } else if includes(lower, "remote host identification has changed")
        || includes(lower, "host key verification failed") {
        RemoteError::new(
            "host_key_changed",
            "远程服务器主机密钥已变更",
            Some(stderr),
            false,
            "服务器可能被重装或存在安全风险。请确认服务器身份后，手动删除 ~/.ssh/known_hosts 中的旧密钥。",
        )
    } else {
        let number = match exit_code {
            Some(c) => signed_text(c as i64),
            None => signed_text(-1),
        };
        let shown = match exit_code {
            Some(c) => signed_text(c as i64),
            None => "未知".to_string(),
        };
        let code = cat2("ssh_exit_", number.as_str());
        let message = cat3("SSH 命令执行失败（退出码 ", shown.as_str(), "）");
        RemoteError::new(
            code.as_str(),
            message.as_str(),
            Some(stderr),
            match exit_code {
                Some(c) => c == 255,
                None => false,
            },
            "请在终端手动执行 SSH 命令排查问题：ssh -vvv user@host（-vvv 开启详细日志）。",
        )
    }
}

/// The error for a call of `ssh` that wrote `stderr` and failed.
pub fn map_ssh_error(profile: &RemoteHostProfile, stderr: &str, exit_code: Option<i32>) -> (r:
    RemoteError)
    ensures
        r@ == ssh_error(profile@, stderr@, encode::lowered(stderr@), exit_code),
{
    let lower = stderr.to_lowercase();
    map_lowered_ssh_error(profile, stderr, lower.as_str(), exit_code)
}

/// Trying again helps against faults of the network alone.
pub open spec fn is_recoverable(e: ErrorView) -> bool {
    &&& e.recoverable
    &&& {
        ||| e.code == "ssh_io_error"@
        ||| e.code == "ssh_connection_failed"@
        ||| e.code == "ssh_exit_255"@
        ||| e.code == "ssh_spawn_failed"@
    }
}

/// Whether trying again may help.
pub fn is_recoverable_error(error: &RemoteError) -> (r: bool)
    ensures
        r == is_recoverable(error@),
{
    let code = error.code.as_str();
    error.recoverable && (same(code, "ssh_io_error") || same(code, "ssh_connection_failed")
        || same(code, "ssh_exit_255") || same(code, "ssh_spawn_failed"))
}

/// A login that failed is never tried again.
pub proof fn lemma_auth_errors_are_final(
    p: HostView,
    stderr: Seq<char>,
    lower: Seq<char>,
    code: Option<i32>,
)
    requires
        search::contains(lower, "publickey"@) || search::contains(lower, "authentication failed"@),
    ensures
        ssh_error(p, stderr, lower, code).code == "ssh_auth_failed"@,
        !is_recoverable(ssh_error(p, stderr, lower, code)),
{
}

/// Of the errors of `ssh`, those that are tried again are the connections that
/// failed, and the unexplained exits with code 255.
pub proof fn lemma_recoverable_ssh_errors(
    p: HostView,
    stderr: Seq<char>,
    lower: Seq<char>,
    code: Option<i32>,
)
    requires
        is_recoverable(ssh_error(p, stderr, lower, code)),
    ensures
        ssh_error(p, stderr, lower, code).code == "ssh_connection_failed"@ || (ssh_error(
            p,
            stderr,
            lower,
            code,
        ).code == "ssh_exit_255"@ && code == Some(255i32)),
{
    reveal_strlit("ssh_exit_");
    reveal_strlit("ssh_exit_255");
    if ssh_error(p, stderr, lower, code).code != "ssh_connection_failed"@ {
        assert(code == Some(255i32));
        assert(number::signed_decimal(255) =~= seq!['2', '5', '5']) by {
            reveal_with_fuel(number::decimal, 4);
        }
        assert("ssh_exit_"@ + number::signed_decimal(255) =~= "ssh_exit_255"@);
    }
}

/// The last line that is not blank.
pub open spec fn last_filled(lines: Seq<Seq<char>>) -> Option<Seq<char>>
    decreases lines.len(),
{
    if lines.len() == 0 {
        None
    } else if trim::is_blank(lines.last()) {
        last_filled(lines.drop_last())
    } else {
        Some(lines.last())
    }
}

/// The line that holds the reply of a helper: the last one that is not blank.
/// What a login shell wrote before it is ignored.
pub open spec fn reply_line(stdout: Seq<char>) -> Seq<char> {
    trim::trim(
        match last_filled(split::lines(stdout)) {
            Some(line) => line,
            None => stdout,
        },
    )
}

/// How many bytes of a reply are shown where it makes no sense: its whole characters
/// among the first 200 bytes.
pub open spec fn shown_bytes(line: Seq<char>) -> int {
    bytes::cut_before(
        line,
        if bytes::size(line) < 200 {
            bytes::size(line) as int
        } else {
            200
        },
    )
}

/// The text field `key` of the error that a reply holds.
pub open spec fn error_text(reply: Tree, key: Seq<char>) -> Option<Seq<char>> {
    match json::field(reply, "error"@) {
        Some(error) => json::text_field(error, key),
        None => None,
    }
}

/// `text`, or `other` if there is none.
pub open spec fn or_else(text: Option<Seq<char>>, other: Seq<char>) -> Seq<char> {
    match text {
        Some(t) => t,
        None => other,
    }
}

/// What a reply says, once it was read as JSON.
pub open spec fn reply_meaning(line: Seq<char>, read: Result<Tree, Seq<char>>) -> Result<
    Tree,
    ErrorView,
> {
    match read {
        Err(e) => Err(
            types::fault(
                "invalid_json"@,
                "Helper 返回了无效的 JSON："@ + e,
                Some("原始输出（截断）："@ + bytes::head(line, shown_bytes(line))),
                false,
                "Helper 版本可能不兼容。请尝试重新安装 Helper。"@,
            ),
        ),
        Ok(reply) => if json::bool_field(reply, "ok"@) == Some(true) {
            Ok(
                match json::field(reply, "data"@) {
                    Some(data) => data,
                    None => Tree::Null,
                },
            )
        } else {
            Err(
                ErrorView {
                    code: or_else(error_text(reply, "code"@), "helper_error"@),
                    message: or_else(error_text(reply, "message"@), "Helper 命令执行失败"@),
                    details: error_text(reply, "details"@),
                    recoverable: false,
                    suggestion: error_text(reply, "suggestion"@),
                },
            )
        },
    }
}

/// The contents of what a reply says.
pub open spec fn answer(r: Result<Json, RemoteError>) -> Result<Tree, ErrorView> {
    match r {
        Ok(data) => Ok(data@),
        Err(e) => Err(e@),
    }
}

/// The contents of the outcome of reading JSON.
pub open spec fn read_view(r: Result<Json, String>) -> Result<Tree, Seq<char>> {
    match r {
        Ok(j) => Ok(j@),
        Err(e) => Err(e@),
    }
}

/// The line that holds the reply of a helper.
pub fn find_reply_line(stdout: &str) -> (r: String)
    ensures
        r@ == reply_line(stdout@),
{
    let lines = split_lines(stdout);
    let mut i: usize = lines.len();
    let ghost t = split::lines(stdout@);
    assert(t.take(i as int) =~= t);
    while i > 0
        invariant
            i <= lines@.len(),
            t == chars::texts(lines@),
            t == split::lines(stdout@),
            last_filled(t) == last_filled(t.take(i as int)),
        decreases i,
    {
        i = i - 1;
        assert(t.take(i + 1).drop_last() =~= t.take(i as int));
        assert(t.take(i + 1).last() == lines@[i as int]@);
        if !blank(lines[i].as_str()) {
            return trimmed(lines[i].as_str());
        }
    }
    trimmed(stdout)
}

/// The text field `key` of the error that a reply holds.
fn reply_error_text(reply: &Json, key: &str) -> (r: Option<String>)
    ensures
        chars::opt_text(r) == error_text(reply@, key@),
{
    match reply.get("error") {
        Some(error) => error.get_text(key),
        None => None,
    }
}

/// What a reply says, once it was read as JSON.
pub fn interpret_reply(line: &str, read: Result<Json, String>) -> (r: Result<Json, RemoteError>)
    ensures
        answer(r) == reply_meaning(line@, read_view(read)),
{
    let reply = match read {
        Ok(reply) => reply,
        Err(e) => {
            let size: usize = byte_count(line);
            let limit: usize = if size < 200 {
                size
            } else {
                200
            };
            let n: usize = last_cut(line, limit);
            let message = cat2("Helper 返回了无效的 JSON：", e.as_str());
            let head = head_bytes(line, n);
            let details = cat2("原始输出（截断）：", head.as_str());
            return Err(
                RemoteError::new(
                    "invalid_json",
                    message.as_str(),
                    Some(details.as_str()),
                    false,
                    "Helper 版本可能不兼容。请尝试重新安装 Helper。",
                ),
            );
        },
    };
    let ok = match reply.get_bool("ok") {
        Some(b) => b,
        None => false,
    };
    if ok {
        match reply.into_field("data") {
            Some(data) => Ok(data),
            None => Ok(Json::Null),
        }
    } else {
        Err(
            RemoteError {
                code: match reply_error_text(&reply, "code") {
                    Some(code) => code,
                    None => "helper_error".to_string(),
                },
                message: match reply_error_text(&reply, "message") {
                    Some(message) => message,
                    None => "Helper 命令执行失败".to_string(),
                },
                details: reply_error_text(&reply, "details"),
                recoverable: false,
                suggestion: reply_error_text(&reply, "suggestion"),
            },
        )
    }
}

/// The data of a helper's reply, or the error that it reports.
pub fn parse_helper_response(stdout: &str) -> (r: Result<Json, RemoteError>)
    ensures
        answer(r) == reply_meaning(reply_line(stdout@), json::json_text(reply_line(stdout@))),
{
    let line = find_reply_line(stdout);
    let read = parse_json(line.as_str());
    interpret_reply(line.as_str(), read)
}

/// The error for data of a reply that do not have the form that was asked for, where
/// `error` says why.
pub fn data_parse_error(error: &str) -> (r: RemoteError)
    ensures
        r@ == types::fault(
            "data_parse_error"@,
            "Helper 返回数据格式不匹配："@ + error@,
            None,
            false,
            "Helper 版本可能不兼容。请尝试升级 Helper。"@,
        ),
{
    let message = cat2("Helper 返回数据格式不匹配：", error);
    RemoteError::new(
        "data_parse_error",
        message.as_str(),
        None,
        false,
        "Helper 版本可能不兼容。请尝试升级 Helper。",
    )
}

/// A reply always means something: its data, the error that it reports, or, where it is
/// no JSON, an error that trying again does not mend.
pub proof fn lemma_reply_is_final(line: Seq<char>, read: Result<Tree, Seq<char>>)
    ensures
        reply_meaning(line, read) matches Err(e) ==> !is_recoverable(e),
        read is Err ==> reply_meaning(line, read) is Err && reply_meaning(line, read)->Err_0.code
            == "invalid_json"@,
        0 <= shown_bytes(line) <= 200,
        bytes::is_cut(line, shown_bytes(line)),
{
    bytes::lemma_cut_before(
        line,
        if bytes::size(line) < 200 {
            bytes::size(line) as int
        } else {
            200
        },
    );
}

/// The last line that is not blank, where nothing but blank lines follow it.
proof fn lemma_last_filled(before: Seq<Seq<char>>, line: Seq<char>)
    requires
        !trim::is_blank(line),
    ensures
        last_filled(before.push(line)) == Some(line),
{
    assert(before.push(line).drop_last() =~= before);
}

/// The reply of a helper is found behind whatever a login shell wrote in lines of its own
/// before it.
pub proof fn lemma_reply_is_found(noise: Seq<char>, reply: Seq<char>)
    requires
        noise.len() > 0 ==> noise.last() == '\n',
        !trim::is_blank(reply),
        forall|i: int| 0 <= i < reply.len() ==> reply[i] != '\n' && reply[i] != '\r',
    ensures
        reply_line(noise + reply) == trim::trim(reply),
        reply_line(noise + reply + "\n"@) == trim::trim(reply),
{
    trim::lemma_blank(reply);
    split::lemma_lines_joined(noise, reply);
    split::lemma_single_line(reply);
    lemma_last_filled(split::lines(noise), reply);
    assert(split::lines(noise) + seq![reply] =~= split::lines(noise).push(reply));
    split::lemma_one_line(reply);
    split::lemma_lines_joined(noise, reply + "\n"@);
    assert(noise + reply + "\n"@ =~= noise + (reply + "\n"@));
}

/// What a failure of `ssh` is taken for. A refused login comes first, then a target that
/// cannot be reached, then a helper that is missing; what `ssh` wrote is kept in each case.
pub proof fn lemma_ssh_error_kinds(
    p: HostView,
    stderr: Seq<char>,
    lower: Seq<char>,
    code: Option<i32>,
)
    ensures
        ({
            let e = ssh_error(p, stderr, lower, code);
            let refused = search::contains(lower, "publickey"@) || search::contains(
                lower,
                "authentication failed"@,
            );
            let unreachable = search::contains(lower, "connection timed out"@) || search::contains(
                lower,
                "connection refused"@,
            ) || search::contains(lower, "no route to host"@) || search::contains(
                lower,
                "network is unreachable"@,
            );
            let missing = search::contains(lower, "no such file"@) || search::contains(
                lower,
                "not found"@,
            ) || search::contains(stderr, "没有那个文件或目录"@);
            &&& e.details == Some(stderr)
            &&& e.suggestion is Some
            &&& refused ==> e.code == "ssh_auth_failed"@ && !e.recoverable
            &&& !refused && unreachable ==> e.code == "ssh_connection_failed"@ && is_recoverable(e)
            &&& !refused && !unreachable && missing ==> e.code == "helper_not_found"@
                && !e.recoverable
            &&& e.recoverable ==> !refused && !missing || unreachable
        }),
{
}

/// What a server wrote that is no fault of the login, the network or the helper tells what
/// is wrong there; what else it wrote is told by its exit code, and only a broken connection
/// is tried again.
pub proof fn lemma_other_ssh_errors(
    p: HostView,
    stderr: Seq<char>,
    lower: Seq<char>,
    code: Option<i32>,
)
    requires
        !search::contains(lower, "publickey"@),
        !search::contains(lower, "authentication failed"@),
        !search::contains(lower, "connection timed out"@),
        !search::contains(lower, "connection refused"@),
        !search::contains(lower, "no route to host"@),
        !search::contains(lower, "network is unreachable"@),
        !search::contains(lower, "no such file"@),
        !search::contains(lower, "not found"@),
        !search::contains(stderr, "没有那个文件或目录"@),
    ensures
        ({
            let e = ssh_error(p, stderr, lower, code);
            let full = search::contains(lower, "no space left"@) || search::contains(
                lower,
                "disk full"@,
            ) || search::contains(lower, "write failed"@);
            let denied = search::contains(lower, "permission denied"@);
            let shell = search::contains(lower, "syntax error"@) || search::contains(
                lower,
                ".bashrc"@,
            ) || search::contains(lower, ".profile"@) || search::contains(
                lower,
                "command not found"@,
            );
            let used = search::contains(lower, "address already in use"@) || search::contains(
                lower,
                "port is already allocated"@,
            ) || search::contains(lower, "bind: address already in use"@);
            let changed = search::contains(lower, "remote host identification has changed"@)
                || search::contains(lower, "host key verification failed"@);
            &&& full ==> e.code == "disk_full"@ && !e.recoverable
            &&& !full && denied ==> e.code == "permission_denied"@ && !e.recoverable
            &&& !full && !denied && shell ==> e.code == "shell_config_error"@ && !e.recoverable
            &&& !full && !denied && !shell && used ==> e.code == "port_in_use"@ && !e.recoverable
            &&& !full && !denied && !shell && !used && changed ==> e.code == "host_key_changed"@
                && !e.recoverable
            &&& !full && !denied && !shell && !used && !changed ==> {
                &&& code matches Some(c) ==> e.code == "ssh_exit_"@ + number::signed_decimal(
                    c as int,
                )
                &&& code is None ==> e.code == "ssh_exit_"@ + number::signed_decimal(-1)
                &&& e.recoverable == (code == Some(255i32))
            }
        }),
{
}

/// An output that is no JSON is an error, of which at most two hundred bytes are shown; so
/// is a reply that reports a failure, under a code and a message of its own or the usual
/// ones.
pub proof fn lemma_bad_replies(line: Seq<char>, error: Seq<char>, reply: Tree)
    ensures
        reply_meaning(line, Err(error)) matches Err(e) && e.code == "invalid_json"@
            && search::ends(e.message, error) && !e.recoverable,
        0 <= shown_bytes(line) <= 200,
        bytes::is_cut(line, shown_bytes(line)),
        json::bool_field(reply, "ok"@) != Some(true) && json::field(reply, "error"@) is None ==> (
        reply_meaning(line, Ok(reply)) matches Err(e) && e.code == "helper_error"@
            && !e.recoverable && e.details is None && e.suggestion is None),
        json::bool_field(reply, "ok"@) == Some(true) && json::field(reply, "data"@) is None ==>
            reply_meaning(line, Ok(reply)) == Ok::<Tree, ErrorView>(Tree::Null),
{
    search::lemma_ends_joined("Helper 返回了无效的 JSON："@, error);
    bytes::lemma_cut_before(
        line,
        if bytes::size(line) < 200 {
            bytes::size(line) as int
        } else {
            200
        },
    );
}

} // verus!
