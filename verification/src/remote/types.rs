//! Connection profiles, health reports and errors of remote operations.

use vstd::prelude::*;

use crate::json::Json;
use crate::text::chars::{self, copy_opt, copy_texts};

verus! {

/// The SSH options that a user opts in to.
#[derive(Debug, PartialEq, Eq)]
pub struct RemoteSshAdvancedOptions {
    pub legacy_compat: bool,
    pub extra_args: Vec<String>,
}

/// How a target is reached.
#[derive(Debug, Clone, Copy, PartialEq, Eq, Structural)]
pub enum RemoteTargetKind {
    Ssh,
    Wsl,
}

/// How a user proves who they are.
#[derive(Debug, PartialEq, Eq)]
pub enum RemoteAuthMethod {
    /// The keys of a running `ssh-agent`.
    SshAgent,
    Recommended {
        use_saved_keys: bool,
        use_default_key_files: bool,
        allow_password: bool,
        allow_verification_code: bool,
        remember_connection: bool,
        strict: bool,
    },
    Password {
        save_password: bool,
        allow_verification_code: bool,
        remember_connection: bool,
    },
    /// A private key in a file.
    KeyFile {
        path: String,
        save_key_password: bool,
        allow_password_fallback: bool,
        allow_verification_code: bool,
        remember_connection: bool,
    },
}

/// How a target is reached, as it is kept in the list of known targets.
pub struct RemoteHostProfile {
    pub id: String,
    pub name: String,
    pub kind: RemoteTargetKind,
    pub host: String,
    pub port: u16,
    pub distribution: Option<String>,
    pub username: String,
    pub auth_method: RemoteAuthMethod,
    pub helper_path: String,
    /// When the last connection succeeded, in seconds of Unix time.
    pub last_connected: Option<i64>,
    pub ssh_options: RemoteSshAdvancedOptions,
    /// A password for this session alone.
    pub transient_password: Option<String>,
}

/// What is known of a target after a health check.
#[derive(Debug)]
pub struct RemoteHealth {
    pub reachable: bool,
    pub helper_installed: bool,
    pub helper_version: Option<String>,
    pub desktop_version: String,
    pub compatible: bool,
    pub platform: Option<String>,
    pub arch: Option<String>,
    pub capabilities: Vec<String>,
    pub proxy_running: bool,
    pub sandbox_running: bool,
    pub last_error: Option<String>,
    /// When the check was made, in seconds of Unix time.
    pub last_check: i64,
}

/// A request to a helper in session mode.
#[derive(Debug)]
pub struct RemoteRequest {
    pub id: String,
    pub command: Vec<String>,
}

/// The answer of a helper in session mode.
#[derive(Debug)]
pub struct RemoteResponse {
    pub id: String,
    pub ok: bool,
    pub data: Option<Json>,
    pub error: Option<RemoteError>,
}

/// Why a remote operation failed.
#[derive(Debug)]
pub struct RemoteError {
    pub code: String,
    pub message: String,
    pub details: Option<String>,
    /// Whether trying again may help.
    pub recoverable: bool,
    pub suggestion: Option<String>,
}

/// The contents of an authentication method.
pub enum AuthView {
    SshAgent,
    Recommended {
        use_saved_keys: bool,
        use_default_key_files: bool,
        allow_password: bool,
        allow_verification_code: bool,
        remember_connection: bool,
        strict: bool,
    },
    Password { save_password: bool, allow_verification_code: bool, remember_connection: bool },
    KeyFile {
        path: Seq<char>,
        save_key_password: bool,
        allow_password_fallback: bool,
        allow_verification_code: bool,
        remember_connection: bool,
    },
}

impl View for RemoteAuthMethod {
    type V = AuthView;

    open spec fn view(&self) -> AuthView {
        match *self {
            RemoteAuthMethod::SshAgent => AuthView::SshAgent,
            RemoteAuthMethod::Recommended {
                use_saved_keys,
                use_default_key_files,
                allow_password,
                allow_verification_code,
                remember_connection,
                strict,
            } => AuthView::Recommended {
                use_saved_keys,
                use_default_key_files,
                allow_password,
                allow_verification_code,
                remember_connection,
                strict,
            },
            RemoteAuthMethod::Password {
                save_password,
                allow_verification_code,
                remember_connection,
            } => AuthView::Password { save_password, allow_verification_code, remember_connection },
            RemoteAuthMethod::KeyFile {
                path,
                save_key_password,
                allow_password_fallback,
                allow_verification_code,
                remember_connection,
            } => AuthView::KeyFile {
                path: path@,
                save_key_password,
                allow_password_fallback,
                allow_verification_code,
                remember_connection,
            },
        }
    }
}

/// The contents of a profile.
pub struct HostView {
    pub id: Seq<char>,
    pub name: Seq<char>,
    pub kind: RemoteTargetKind,
    pub host: Seq<char>,
    pub port: u16,
    pub distribution: Option<Seq<char>>,
    pub username: Seq<char>,
    pub auth: AuthView,
    pub helper_path: Seq<char>,
    pub last_connected: Option<i64>,
    pub legacy_compat: bool,
    pub extra_args: Seq<Seq<char>>,
    pub transient_password: Option<Seq<char>>,
}

impl View for RemoteHostProfile {
    type V = HostView;

    open spec fn view(&self) -> HostView {
        HostView {
            id: self.id@,
            name: self.name@,
            kind: self.kind,
            host: self.host@,
            port: self.port,
            distribution: chars::opt_text(self.distribution),
            username: self.username@,
            auth: self.auth_method@,
            helper_path: self.helper_path@,
            last_connected: self.last_connected,
            legacy_compat: self.ssh_options.legacy_compat,
            extra_args: chars::texts(self.ssh_options.extra_args@),
            transient_password: chars::opt_text(self.transient_password),
        }
    }
}

/// The contents of a list of profiles.
pub open spec fn hosts(v: Seq<RemoteHostProfile>) -> Seq<HostView> {
    Seq::new(v.len(), |i: int| v[i]@)
}

/// The contents of a health report.
pub struct HealthView {
    pub reachable: bool,
    pub helper_installed: bool,
    pub helper_version: Option<Seq<char>>,
    pub desktop_version: Seq<char>,
    pub compatible: bool,
    pub platform: Option<Seq<char>>,
    pub arch: Option<Seq<char>>,
    pub capabilities: Seq<Seq<char>>,
    pub proxy_running: bool,
    pub sandbox_running: bool,
    pub last_error: Option<Seq<char>>,
    pub last_check: i64,
}

impl View for RemoteHealth {
    type V = HealthView;

    open spec fn view(&self) -> HealthView {
        HealthView {
            reachable: self.reachable,
            helper_installed: self.helper_installed,
            helper_version: chars::opt_text(self.helper_version),
            desktop_version: self.desktop_version@,
            compatible: self.compatible,
            platform: chars::opt_text(self.platform),
            arch: chars::opt_text(self.arch),
            capabilities: chars::texts(self.capabilities@),
            proxy_running: self.proxy_running,
            sandbox_running: self.sandbox_running,
            last_error: chars::opt_text(self.last_error),
            last_check: self.last_check,
        }
    }
}

/// The contents of an error.
pub struct ErrorView {
    pub code: Seq<char>,
    pub message: Seq<char>,
    pub details: Option<Seq<char>>,
    pub recoverable: bool,
    pub suggestion: Option<Seq<char>>,
}

impl View for RemoteError {
    type V = ErrorView;

    open spec fn view(&self) -> ErrorView {
        ErrorView {
            code: self.code@,
            message: self.message@,
            details: chars::opt_text(self.details),
            recoverable: self.recoverable,
            suggestion: chars::opt_text(self.suggestion),
        }
    }
}

/// The contents of an error with a suggestion.
pub open spec fn fault(
    code: Seq<char>,
    message: Seq<char>,
    details: Option<Seq<char>>,
    recoverable: bool,
    suggestion: Seq<char>,
) -> ErrorView {
    ErrorView { code, message, details, recoverable, suggestion: Some(suggestion) }
}

/// The contents of the outcome of an operation that yields text.
pub open spec fn outcome(r: Result<String, RemoteError>) -> Result<Seq<char>, ErrorView> {
    match r {
        Ok(s) => Ok(s@),
        Err(e) => Err(e@),
    }
}

/// The oldest helper that the desktop works with.
pub const MIN_HELPER_VERSION: &'static str = "0.3.0";

/// What a helper must be able to do.
pub open spec fn required_capabilities() -> Seq<Seq<char>> {
    seq!["proxy"@, "config"@, "logs"@, "doctor"@, "verify"@]
}

/// What a helper may be able to do besides.
pub open spec fn optional_capabilities() -> Seq<Seq<char>> {
    seq!["sandbox"@]
}

/// What a helper must be able to do.
pub fn required_capability_names() -> (r: Vec<String>)
    ensures
        chars::texts(r@) == required_capabilities(),
{
    let mut v: Vec<String> = Vec::new();
    chars::push_text(&mut v, "proxy");
    chars::push_text(&mut v, "config");
    chars::push_text(&mut v, "logs");
    chars::push_text(&mut v, "doctor");
    chars::push_text(&mut v, "verify");
    assert(chars::texts(v@) =~= required_capabilities());
    v
}

/// What a helper may be able to do besides.
pub fn optional_capability_names() -> (r: Vec<String>)
    ensures
        chars::texts(r@) == optional_capabilities(),
{
    let mut v: Vec<String> = Vec::new();
    chars::push_text(&mut v, "sandbox");
    assert(chars::texts(v@) =~= optional_capabilities());
    v
}

/// The value of a permission that a stored profile does not mention.
pub fn default_true() -> (r: bool)
    ensures
        r,
{
    true
}

/// The kind of a stored profile that does not mention one.
pub fn default_remote_target_kind() -> (r: RemoteTargetKind)
    ensures
        r == RemoteTargetKind::Ssh,
{
    RemoteTargetKind::Ssh
}

/// The port of a stored profile that does not mention one.
pub fn default_ssh_port() -> (r: u16)
    ensures
        r == 22,
{
    22
}

impl Default for RemoteSshAdvancedOptions {
    fn default() -> (r: RemoteSshAdvancedOptions)
        ensures
            !r.legacy_compat,
            r.extra_args@.len() == 0,
    {
        RemoteSshAdvancedOptions { legacy_compat: false, extra_args: Vec::new() }
    }
}

impl Clone for RemoteAuthMethod {
    fn clone(&self) -> (r: RemoteAuthMethod)
        ensures
            r@ == self@,
    {
        match self {
            RemoteAuthMethod::SshAgent => RemoteAuthMethod::SshAgent,
            RemoteAuthMethod::Recommended {
                use_saved_keys,
                use_default_key_files,
                allow_password,
                allow_verification_code,
                remember_connection,
                strict,
            } => RemoteAuthMethod::Recommended {
                use_saved_keys: *use_saved_keys,
                use_default_key_files: *use_default_key_files,
                allow_password: *allow_password,
                allow_verification_code: *allow_verification_code,
                remember_connection: *remember_connection,
                strict: *strict,
            },
            RemoteAuthMethod::Password {
                save_password,
                allow_verification_code,
                remember_connection,
            } => RemoteAuthMethod::Password {
                save_password: *save_password,
                allow_verification_code: *allow_verification_code,
                remember_connection: *remember_connection,
            },
            RemoteAuthMethod::KeyFile {
                path,
                save_key_password,
                allow_password_fallback,
                allow_verification_code,
                remember_connection,
            } => RemoteAuthMethod::KeyFile {
                path: path.clone(),
                save_key_password: *save_key_password,
                allow_password_fallback: *allow_password_fallback,
                allow_verification_code: *allow_verification_code,
                remember_connection: *remember_connection,
            },
        }
    }
}

impl Clone for RemoteHostProfile {
    fn clone(&self) -> (r: RemoteHostProfile)
        ensures
            r@ == self@,
    {
        RemoteHostProfile {
            id: self.id.clone(),
            name: self.name.clone(),
            kind: self.kind,
            host: self.host.clone(),
            port: self.port,
            distribution: copy_opt(&self.distribution),
            username: self.username.clone(),
            auth_method: self.auth_method.clone(),
            helper_path: self.helper_path.clone(),
            last_connected: self.last_connected,
            ssh_options: RemoteSshAdvancedOptions {
                legacy_compat: self.ssh_options.legacy_compat,
                extra_args: copy_texts(&self.ssh_options.extra_args),
            },
            transient_password: copy_opt(&self.transient_password),
        }
    }
}

impl Clone for RemoteHealth {
    fn clone(&self) -> (r: RemoteHealth)
        ensures
            r@ == self@,
    {
        RemoteHealth {
            reachable: self.reachable,
            helper_installed: self.helper_installed,
            helper_version: copy_opt(&self.helper_version),
            desktop_version: self.desktop_version.clone(),
            compatible: self.compatible,
            platform: copy_opt(&self.platform),
            arch: copy_opt(&self.arch),
            capabilities: copy_texts(&self.capabilities),
            proxy_running: self.proxy_running,
            sandbox_running: self.sandbox_running,
            last_error: copy_opt(&self.last_error),
            last_check: self.last_check,
        }
    }
}

impl RemoteError {
    /// An error with a suggestion.
    pub fn new(
        code: &str,
        message: &str,
        details: Option<&str>,
        recoverable: bool,
        suggestion: &str,
    ) -> (r: RemoteError)
        ensures
            r@ == fault(code@, message@, chars::opt_str(details), recoverable, suggestion@),
    {
        RemoteError {
            code: code.to_string(),
            message: message.to_string(),
            details: match details {
                Some(d) => Some(d.to_string()),
                None => None,
            },
            recoverable,
            suggestion: Some(suggestion.to_string()),
        }
    }
}

/// An error keeps its code, its message, its details and its suggestion apart.
pub proof fn lemma_fault(
    code: Seq<char>,
    message: Seq<char>,
    details: Option<Seq<char>>,
    recoverable: bool,
    suggestion: Seq<char>,
)
    ensures
        ({
            let e = fault(code, message, details, recoverable, suggestion);
            &&& e.code == code && e.message == message && e.details == details
            &&& e.recoverable == recoverable && e.suggestion == Some(suggestion)
        }),
{
}

/// A helper must be able to run the proxy, to keep and check a configuration, to show its
/// logs and to test itself; a sandbox is not asked of it.
pub proof fn lemma_required_capabilities()
    ensures
        required_capabilities().len() == 5,
        required_capabilities().contains("proxy"@),
        required_capabilities().contains("config"@),
        required_capabilities().contains("logs"@),
        required_capabilities().contains("doctor"@),
        required_capabilities().contains("verify"@),
        optional_capabilities() == seq!["sandbox"@],
{
    let v = required_capabilities();
    assert(v[0] == "proxy"@ && v[1] == "config"@ && v[2] == "logs"@ && v[3] == "doctor"@ && v[4]
        == "verify"@);
}

} // verus!
