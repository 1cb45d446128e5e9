//! How `ssh` is told to authenticate.

use vstd::prelude::*;

use crate::crypto::{self, sha256};
use crate::paths::{self, join_path, join_path2};
use crate::remote::types::{AuthView, HostView, RemoteAuthMethod, RemoteHostProfile};
use crate::text::chars::{self, cat2, cat5, copy_opt, push_pair, push_text};
use crate::text::number::{self, hex_text, number_text};
use crate::text::options;
use crate::text::order::{self, sort_texts};
use crate::text::search::{self, finishes, starts};

verus! {

/// What `ssh` is given to authenticate with.
#[derive(Debug)]
pub struct SshAuthPlan {
    pub args: Vec<String>,
    pub env: Vec<(String, String)>,
    pub default_key_paths: Vec<String>,
    /// Whether the user may be asked for something.
    pub interactive: bool,
    /// Whether a connection is kept for the commands that follow.
    pub remember_connection: bool,
}

/// What a plan depends on besides the profile.
#[derive(Debug)]
pub struct AuthRuntimeOptions {
    pub askpass_path: Option<String>,
    pub askpass_session_dir: Option<String>,
    pub askpass_env: Vec<(String, String)>,
    pub control_path: Option<String>,
    pub default_ssh_dir: Option<String>,
    /// The names of the files in `default_ssh_dir`; none, if it cannot be read.
    pub default_key_names: Vec<String>,
}

/// The contents of a plan.
pub struct PlanView {
    pub args: Seq<Seq<char>>,
    pub env: Seq<(Seq<char>, Seq<char>)>,
    pub default_key_paths: Seq<Seq<char>>,
    pub interactive: bool,
    pub remember_connection: bool,
}

impl View for SshAuthPlan {
    type V = PlanView;

    open spec fn view(&self) -> PlanView {
        PlanView {
            args: chars::texts(self.args@),
            env: chars::pairs(self.env@),
            default_key_paths: chars::texts(self.default_key_paths@),
            interactive: self.interactive,
            remember_connection: self.remember_connection,
        }
    }
}

/// The contents of the options of a plan.
pub struct RuntimeView {
    pub askpass_path: Option<Seq<char>>,
    pub askpass_session_dir: Option<Seq<char>>,
    pub askpass_env: Seq<(Seq<char>, Seq<char>)>,
    pub control_path: Option<Seq<char>>,
    pub default_ssh_dir: Option<Seq<char>>,
    pub default_key_names: Seq<Seq<char>>,
}

impl View for AuthRuntimeOptions {
    type V = RuntimeView;

    open spec fn view(&self) -> RuntimeView {
        RuntimeView {
            askpass_path: chars::opt_text(self.askpass_path),
            askpass_session_dir: chars::opt_text(self.askpass_session_dir),
            askpass_env: chars::pairs(self.askpass_env@),
            control_path: chars::opt_text(self.control_path),
            default_ssh_dir: chars::opt_text(self.default_ssh_dir),
            default_key_names: chars::texts(self.default_key_names@),
        }
    }
}

/// A private key is kept in `id_...`, its public half in `id_....pub`.
pub open spec fn is_key_name(name: Seq<char>) -> bool {
    search::begins(name, "id_"@) && !search::ends(name, ".pub"@)
}

/// The names of private keys among `names`.
pub open spec fn key_names(names: Seq<Seq<char>>) -> Seq<Seq<char>>
    decreases names.len(),
{
    if names.len() == 0 {
        Seq::empty()
    } else if is_key_name(names.last()) {
        key_names(names.drop_last()).push(names.last())
    } else {
        key_names(names.drop_last())
    }
}

/// Where `x` first stands in `v`; the length of `v`, if nowhere.
pub open spec fn place_of(v: Seq<Seq<char>>, x: Seq<char>) -> int
    decreases v.len(),
{
    if v.len() == 0 || v[0] == x {
        0
    } else {
        1 + place_of(v.drop_first(), x)
    }
}

/// `x` alone, if `v` holds it.
pub open spec fn if_held(v: Seq<Seq<char>>, x: Seq<char>) -> Seq<Seq<char>> {
    if v.contains(x) {
        seq![x]
    } else {
        Seq::empty()
    }
}

/// `v` without the first `x` that it holds.
pub open spec fn without(v: Seq<Seq<char>>, x: Seq<char>) -> Seq<Seq<char>> {
    if v.contains(x) {
        v.remove(place_of(v, x))
    } else {
        v
    }
}

/// The names of private keys in the order in which they are tried: Ed25519,
/// ECDSA and RSA keys under their usual names first, then the others by name.
pub open spec fn ordered_key_names(names: Seq<Seq<char>>) -> Seq<Seq<char>> {
    let all = key_names(names);
    let no_ed = without(all, "id_ed25519"@);
    let no_ec = without(no_ed, "id_ecdsa"@);
    if_held(all, "id_ed25519"@) + if_held(no_ed, "id_ecdsa"@) + if_held(no_ec, "id_rsa"@)
        + order::arranged(without(no_ec, "id_rsa"@))
}

/// The paths of the private keys below the directory of the user's keys.
pub open spec fn key_paths(dir: Option<Seq<char>>, names: Seq<Seq<char>>) -> Seq<Seq<char>> {
    match dir {
        Some(dir) => ordered_key_names(names).map_values(|name: Seq<char>| paths::join(dir, name)),
        None => Seq::empty(),
    }
}

/// `-i` before each path.
pub open spec fn identity_args(paths: Seq<Seq<char>>) -> Seq<Seq<char>> {
    Seq::new(
        2 * paths.len(),
        |i: int|
            if i % 2 == 0 {
                "-i"@
            } else {
                paths[i / 2]
            },
    )
}

/// `-o` and an option.
pub open spec fn option_args(option: Seq<char>) -> Seq<Seq<char>> {
    seq!["-o"@, option]
}

/// `option`, if `given`.
pub open spec fn option_if(given: bool, option: Seq<char>) -> Seq<Seq<char>> {
    if given {
        option_args(option)
    } else {
        Seq::empty()
    }
}

/// The paths of the default keys that `ssh` is told of.
pub open spec fn plan_key_paths(auth: AuthView, runtime: RuntimeView) -> Seq<Seq<char>> {
    match auth {
        AuthView::Recommended { use_default_key_files: true, .. } => key_paths(
            runtime.default_ssh_dir,
            runtime.default_key_names,
        ),
        _ => Seq::empty(),
    }
}

/// The arguments that name keys.
pub open spec fn key_args(auth: AuthView, default_paths: Seq<Seq<char>>) -> Seq<Seq<char>> {
    match auth {
        AuthView::Recommended { strict, .. } => identity_args(default_paths) + option_if(
            strict,
            "IdentitiesOnly=yes"@,
        ),
        AuthView::KeyFile { path, allow_password_fallback, .. } => seq!["-i"@, path] + option_if(
            !allow_password_fallback,
            "IdentitiesOnly=yes"@,
        ),
        _ => Seq::empty(),
    }
}

/// Whether the user may be asked for something.
pub open spec fn asks_user(auth: AuthView) -> bool {
    match auth {
        AuthView::SshAgent => false,
        AuthView::Recommended { allow_password, allow_verification_code, .. } => allow_password
            || allow_verification_code,
        AuthView::Password { .. } => true,
        AuthView::KeyFile {
            save_key_password,
            allow_password_fallback,
            allow_verification_code,
            ..
        } => save_key_password || allow_password_fallback || allow_verification_code,
    }
}

/// Whether a connection is kept for the commands that follow.
pub open spec fn keeps_connection(auth: AuthView) -> bool {
    match auth {
        AuthView::SshAgent => false,
        AuthView::Recommended { remember_connection, .. } => remember_connection,
        AuthView::Password { remember_connection, .. } => remember_connection,
        AuthView::KeyFile { remember_connection, .. } => remember_connection,
    }
}

/// The arguments that say whether `ssh` may ask.
pub open spec fn prompt_args(interactive: bool) -> Seq<Seq<char>> {
    if interactive {
        option_args("BatchMode=no"@) + option_args("NumberOfPasswordPrompts=3"@)
    } else {
        option_args("BatchMode=yes"@) + option_args("NumberOfPasswordPrompts=0"@)
    }
}

/// The arguments that keep a connection.
pub open spec fn reuse_args(remember: bool, control_path: Option<Seq<char>>) -> Seq<Seq<char>> {
    match control_path {
        Some(path) if remember => option_args("ControlMaster=auto"@) + option_args(
            "ControlPersist=10m"@,
        ) + option_args("ControlPath="@ + path),
        _ => Seq::empty(),
    }
}

/// The arguments that admit the algorithms of old servers.
pub open spec fn legacy_args(legacy: bool) -> Seq<Seq<char>> {
    if legacy {
        option_args("HostKeyAlgorithms=+ssh-rsa"@) + option_args(
            "PubkeyAcceptedAlgorithms=+ssh-rsa"@,
        ) + option_args("KexAlgorithms=+diffie-hellman-group14-sha1"@)
    } else {
        Seq::empty()
    }
}

/// The environment that has `ssh` ask through a program.
pub open spec fn askpass_env(
    path: Option<Seq<char>>,
    more: Seq<(Seq<char>, Seq<char>)>,
) -> Seq<(Seq<char>, Seq<char>)> {
    match path {
        Some(path) => seq![
            ("SSH_ASKPASS"@, path),
            ("SSH_ASKPASS_REQUIRE"@, "force"@),
            ("DISPLAY"@, "csswitch"@),
        ] + more,
        None => Seq::empty(),
    }
}

/// The environment that tells that program where to leave its questions.
pub open spec fn session_env(dir: Option<Seq<char>>, id: Seq<char>) -> Seq<
    (Seq<char>, Seq<char>),
> {
    match dir {
        Some(dir) => seq![("CSSWITCH_ASKPASS_DIR"@, dir), ("CSSWITCH_ASKPASS_PROFILE"@, id)],
        None => Seq::empty(),
    }
}

/// The environment that tells that program which key is in use.
pub open spec fn key_env(auth: AuthView) -> Seq<(Seq<char>, Seq<char>)> {
    match auth {
        AuthView::KeyFile { path, .. } => seq![("CSSWITCH_ASKPASS_KEY_PATH"@, path)],
        _ => Seq::empty(),
    }
}

/// The plan for a profile.
pub open spec fn plan(profile: HostView, runtime: RuntimeView) -> PlanView {
    let default_paths = plan_key_paths(profile.auth, runtime);
    let interactive = asks_user(profile.auth);
    let remember = keeps_connection(profile.auth);
    PlanView {
        args: key_args(profile.auth, default_paths) + prompt_args(interactive) + reuse_args(
            remember,
            runtime.control_path,
        ) + legacy_args(profile.legacy_compat),
        env: if interactive {
            askpass_env(runtime.askpass_path, runtime.askpass_env) + session_env(
                runtime.askpass_session_dir,
                profile.id,
            ) + key_env(profile.auth)
        } else {
            Seq::empty()
        },
        default_key_paths: default_paths,
        interactive,
        remember_connection: remember,
    }
}

/// The name by which a connection is found again.
pub open spec fn connection_name(p: HostView) -> Seq<char> {
    p.username + "@"@ + p.host + ":"@ + number::decimal(p.port as nat)
}

/// The path of the socket through which a connection is shared.
pub open spec fn control_path(config_dir: Seq<char>, p: HostView) -> Seq<char> {
    paths::join2(
        config_dir,
        "ssh-control"@,
        number::hex(crypto::sha256_digest(vstd::utf8::encode_utf8(connection_name(p)))) + ".sock"@,
    )
}

/// A plan never depends on a password that the user gave for one session: it
/// reaches `ssh` neither as an argument nor in the environment.
pub proof fn lemma_plan_ignores_transient_password(
    p: HostView,
    runtime: RuntimeView,
    other: Option<Seq<char>>,
)
    ensures
        plan(HostView { transient_password: other, ..p }, runtime) == plan(p, runtime),
{
}

/// Where the user may not be asked, `ssh` gets no environment.
pub proof fn lemma_silent_plan_has_no_env(p: HostView, runtime: RuntimeView)
    requires
        !asks_user(p.auth),
    ensures
        plan(p, runtime).env.len() == 0,
{
}

/// `ssh` is told either to ask or not to ask, as the profile allows it.
pub proof fn lemma_plan_batch_mode(p: HostView, runtime: RuntimeView)
    ensures
        asks_user(p.auth) ==> plan(p, runtime).args.contains("BatchMode=no"@),
        !asks_user(p.auth) ==> plan(p, runtime).args.contains("BatchMode=yes"@),
{
    let k = key_args(p.auth, plan_key_paths(p.auth, runtime));
    let a = plan(p, runtime).args;
    assert(a[k.len() as int + 1] == prompt_args(asks_user(p.auth))[1]);
}

/// The arguments of a plan are options, each with its value.
pub proof fn lemma_plan_is_options(p: HostView, runtime: RuntimeView)
    ensures
        plan(p, runtime).args.len() % 2 == 0,
        forall|i: int|
            0 <= i < plan(p, runtime).args.len() && i % 2 == 0 ==> #[trigger] plan(
                p,
                runtime,
            ).args[i] == "-o"@ || plan(p, runtime).args[i] == "-i"@,
{
    let k = key_args(p.auth, plan_key_paths(p.auth, runtime));
    let b = prompt_args(asks_user(p.auth));
    let r = reuse_args(keeps_connection(p.auth), runtime.control_path);
    let l = legacy_args(p.legacy_compat);
    let a = plan(p, runtime).args;
    assert(k.len() % 2 == 0 && b.len() == 4 && r.len() % 2 == 0 && l.len() % 2 == 0);
    assert forall|i: int| 0 <= i < k.len() && i % 2 == 0 implies #[trigger] k[i] == "-o"@ || k[i]
        == "-i"@ by {}
    assert forall|i: int| 0 <= i < a.len() && i % 2 == 0 implies #[trigger] a[i] == "-o"@ || a[i]
        == "-i"@ by {
        if i < k.len() {
            assert(a[i] == k[i]);
        } else if i < k.len() + 4 {
            assert(a[i] == b[i - k.len()]);
        } else if i < k.len() + 4 + r.len() {
            assert(a[i] == r[i - k.len() - 4]);
        } else {
            assert(a[i] == l[i - k.len() - 4 - r.len()]);
        }
    }
}

/// The options of a plan: those of the keys, then those of the prompts, those that keep a
/// connection, and those for old servers.
proof fn lemma_plan_parts(p: HostView, runtime: RuntimeView)
    ensures
        options::in_pairs(plan(p, runtime).args) == options::in_pairs(
            key_args(p.auth, plan_key_paths(p.auth, runtime)),
        ) + options::in_pairs(prompt_args(asks_user(p.auth))) + options::in_pairs(
            reuse_args(keeps_connection(p.auth), runtime.control_path),
        ) + options::in_pairs(legacy_args(p.legacy_compat)),
{
    let k = key_args(p.auth, plan_key_paths(p.auth, runtime));
    let b = prompt_args(asks_user(p.auth));
    let r = reuse_args(keeps_connection(p.auth), runtime.control_path);
    let l = legacy_args(p.legacy_compat);
    assert(k.len() % 2 == 0 && b.len() == 4 && r.len() % 2 == 0);
    options::lemma_in_pairs_joined(k, b);
    options::lemma_in_pairs_joined(k + b, r);
    options::lemma_in_pairs_joined(k + b + r, l);
}

/// The values of the options of a plan are told apart.
proof fn lemma_option_values()
    ensures
        "BatchMode=yes"@ != "BatchMode=no"@,
        "BatchMode=yes"@[0] == 'B' && "BatchMode=no"@[0] == 'B',
        "NumberOfPasswordPrompts=3"@[0] == 'N' && "NumberOfPasswordPrompts=0"@[0] == 'N',
        "IdentitiesOnly=yes"@[0] == 'I',
        "ControlMaster=auto"@[0] == 'C' && "ControlPersist=10m"@[0] == 'C',
        forall|path: Seq<char>| #[trigger] ("ControlPath="@ + path)[0] == 'C',
        "HostKeyAlgorithms=+ssh-rsa"@[0] == 'H',
        "PubkeyAcceptedAlgorithms=+ssh-rsa"@[0] == 'P',
        "KexAlgorithms=+diffie-hellman-group14-sha1"@[0] == 'K',
        "-i"@ != "-o"@,
{
    reveal_strlit("BatchMode=yes");
    reveal_strlit("BatchMode=no");
    reveal_strlit("NumberOfPasswordPrompts=3");
    reveal_strlit("NumberOfPasswordPrompts=0");
    reveal_strlit("IdentitiesOnly=yes");
    reveal_strlit("ControlMaster=auto");
    reveal_strlit("ControlPersist=10m");
    reveal_strlit("ControlPath=");
    reveal_strlit("HostKeyAlgorithms=+ssh-rsa");
    reveal_strlit("PubkeyAcceptedAlgorithms=+ssh-rsa");
    reveal_strlit("KexAlgorithms=+diffie-hellman-group14-sha1");
    reveal_strlit("-i");
    reveal_strlit("-o");
    assert("BatchMode=yes"@.len() != "BatchMode=no"@.len());
    assert("-i"@[1] != "-o"@[1]);
}

/// What an option of a plan can be: it names a key, keeps `ssh` to the keys, says whether it
/// may ask, keeps a connection, or is for old servers.
spec fn is_planned(p: HostView, runtime: RuntimeView, o: (Seq<char>, Seq<char>)) -> bool {
    ||| o.0 == "-i"@ && key_args(p.auth, plan_key_paths(p.auth, runtime)).contains("-i"@)
    ||| o.0 == "-o"@ && o.1[0] == 'I'
    ||| o == ("-o"@, if asks_user(p.auth) {
        "BatchMode=no"@
    } else {
        "BatchMode=yes"@
    })
    ||| o.0 == "-o"@ && o.1[0] == 'N'
    ||| o.0 == "-o"@ && o.1[0] == 'C' && keeps_connection(p.auth) && runtime.control_path is Some
    ||| o.0 == "-o"@ && (o.1[0] == 'H' || o.1[0] == 'P' || o.1[0] == 'K') && p.legacy_compat
}

/// The options that name keys are as planned.
proof fn lemma_planned_keys(p: HostView, runtime: RuntimeView, i: int)
    requires
        0 <= i < options::in_pairs(key_args(p.auth, plan_key_paths(p.auth, runtime))).len(),
    ensures
        is_planned(
            p,
            runtime,
            options::in_pairs(key_args(p.auth, plan_key_paths(p.auth, runtime)))[i],
        ),
{
    lemma_option_values();
    let k = key_args(p.auth, plan_key_paths(p.auth, runtime));
    assert(k[2 * i] == "-i"@ || (k[2 * i] == "-o"@ && k[2 * i + 1] == "IdentitiesOnly=yes"@));
}

/// The other options are as planned.
proof fn lemma_planned_rest(p: HostView, runtime: RuntimeView)
    ensures
        ({
            let b = options::in_pairs(prompt_args(asks_user(p.auth)));
            let r = options::in_pairs(reuse_args(keeps_connection(p.auth), runtime.control_path));
            let l = options::in_pairs(legacy_args(p.legacy_compat));
            &&& b.len() == 2 && is_planned(p, runtime, b[0]) && is_planned(p, runtime, b[1])
            &&& r.len() == 0 || (r.len() == 3 && is_planned(p, runtime, r[0]) && is_planned(
                p,
                runtime,
                r[1],
            ) && is_planned(p, runtime, r[2]))
            &&& l.len() == 0 || (l.len() == 3 && is_planned(p, runtime, l[0]) && is_planned(
                p,
                runtime,
                l[1],
            ) && is_planned(p, runtime, l[2]))
        }),
{
    lemma_option_values();
    let b = options::in_pairs(prompt_args(asks_user(p.auth)));
    let r = options::in_pairs(reuse_args(keeps_connection(p.auth), runtime.control_path));
    let l = options::in_pairs(legacy_args(p.legacy_compat));
    assert(b[0] == ("-o"@, if asks_user(p.auth) {
        "BatchMode=no"@
    } else {
        "BatchMode=yes"@
    }));
    assert(b[1].0 == "-o"@ && b[1].1[0] == 'N');
    if r.len() > 0 {
        assert(r[0] == ("-o"@, "ControlMaster=auto"@));
        assert(r[1] == ("-o"@, "ControlPersist=10m"@));
        assert(r[2] == ("-o"@, "ControlPath="@ + runtime.control_path->0));
        assert(("ControlPath="@ + runtime.control_path->0)[0] == 'C');
    }
    if l.len() > 0 {
        assert(l[0] == ("-o"@, "HostKeyAlgorithms=+ssh-rsa"@));
        assert(l[1] == ("-o"@, "PubkeyAcceptedAlgorithms=+ssh-rsa"@));
        assert(l[2] == ("-o"@, "KexAlgorithms=+diffie-hellman-group14-sha1"@));
    }
}

/// Each option of a plan is as planned.
proof fn lemma_planned(p: HostView, runtime: RuntimeView, i: int)
    requires
        0 <= i < options::in_pairs(plan(p, runtime).args).len(),
    ensures
        is_planned(p, runtime, options::in_pairs(plan(p, runtime).args)[i]),
{
    lemma_plan_parts(p, runtime);
    lemma_planned_rest(p, runtime);
    let k = options::in_pairs(key_args(p.auth, plan_key_paths(p.auth, runtime)));
    let b = options::in_pairs(prompt_args(asks_user(p.auth)));
    let r = options::in_pairs(reuse_args(keeps_connection(p.auth), runtime.control_path));
    let l = options::in_pairs(legacy_args(p.legacy_compat));
    let given = options::in_pairs(plan(p, runtime).args);
    if i < k.len() {
        assert(given[i] == k[i]);
        lemma_planned_keys(p, runtime, i);
    } else if i < k.len() + b.len() {
        assert(given[i] == b[i - k.len()]);
    } else if i < k.len() + b.len() + r.len() {
        assert(given[i] == r[i - k.len() - b.len()]);
    } else {
        assert(given[i] == l[i - k.len() - b.len() - r.len()]);
    }
}

/// `ssh` may ask the user exactly where the profile lets it: never with an agent, always
/// with a password, and otherwise where a password or a code may be asked for, or the
/// password of a key is kept.
pub proof fn lemma_who_is_asked(p: HostView, runtime: RuntimeView)
    ensures
        ({
            let given = options::in_pairs(plan(p, runtime).args);
            let asked = given.contains(("-o"@, "BatchMode=no"@));
            &&& given.contains(("-o"@, "BatchMode=yes"@)) == !asked
            &&& plan(p, runtime).interactive == asked
            &&& match p.auth {
                AuthView::SshAgent => !asked,
                AuthView::Password { .. } => asked,
                AuthView::Recommended { allow_password, allow_verification_code, .. } => asked == (
                allow_password || allow_verification_code),
                AuthView::KeyFile {
                    save_key_password,
                    allow_password_fallback,
                    allow_verification_code,
                    ..
                } => asked == (save_key_password || allow_password_fallback
                    || allow_verification_code),
            }
        }),
{
    lemma_plan_parts(p, runtime);
    lemma_option_values();
    let k = options::in_pairs(key_args(p.auth, plan_key_paths(p.auth, runtime)));
    let b = options::in_pairs(prompt_args(asks_user(p.auth)));
    let given = options::in_pairs(plan(p, runtime).args);
    let other = if asks_user(p.auth) {
        "BatchMode=yes"@
    } else {
        "BatchMode=no"@
    };
    assert(given[k.len() as int] == b[0]);
    assert(b[0] == ("-o"@, if asks_user(p.auth) {
        "BatchMode=no"@
    } else {
        "BatchMode=yes"@
    }));
    assert forall|i: int| 0 <= i < given.len() implies #[trigger] given[i] != ("-o"@, other) by {
        lemma_planned(p, runtime, i);
    }
}

/// A connection is kept for later commands exactly where the profile says so and there is
/// a place for its socket.
pub proof fn lemma_connection_is_kept(p: HostView, runtime: RuntimeView, path: Seq<char>)
    ensures
        ({
            let given = options::in_pairs(plan(p, runtime).args);
            let kept = match p.auth {
                AuthView::SshAgent => false,
                AuthView::Recommended { remember_connection, .. } => remember_connection,
                AuthView::Password { remember_connection, .. } => remember_connection,
                AuthView::KeyFile { remember_connection, .. } => remember_connection,
            };
            &&& kept && runtime.control_path == Some(path) ==> given.contains(
                ("-o"@, "ControlMaster=auto"@),
            ) && given.contains(("-o"@, "ControlPersist=10m"@)) && given.contains(
                ("-o"@, "ControlPath="@ + path),
            )
            &&& !kept || runtime.control_path is None ==> !given.contains(
                ("-o"@, "ControlMaster=auto"@),
            ) && !given.contains(("-o"@, "ControlPath="@ + path))
        }),
{
    lemma_plan_parts(p, runtime);
    lemma_option_values();
    let k = options::in_pairs(key_args(p.auth, plan_key_paths(p.auth, runtime)));
    let r = options::in_pairs(reuse_args(keeps_connection(p.auth), runtime.control_path));
    let given = options::in_pairs(plan(p, runtime).args);
    let n = k.len() as int + 2;
    if r.len() > 0 {
        assert(given[n] == r[0] && given[n + 1] == r[1] && given[n + 2] == r[2]);
    } else {
        assert forall|i: int| 0 <= i < given.len() implies #[trigger] given[i] != (
            "-o"@,
            "ControlMaster=auto"@,
        ) && given[i] != ("-o"@, "ControlPath="@ + path) by {
            lemma_planned(p, runtime, i);
            assert(("ControlPath="@ + path)[0] == 'C');
        }
    }
}

/// The algorithms of old servers are admitted exactly where the profile says so.
pub proof fn lemma_old_servers(p: HostView, runtime: RuntimeView)
    ensures
        ({
            let given = options::in_pairs(plan(p, runtime).args);
            &&& given.contains(("-o"@, "HostKeyAlgorithms=+ssh-rsa"@)) == p.legacy_compat
            &&& given.contains(("-o"@, "PubkeyAcceptedAlgorithms=+ssh-rsa"@)) == p.legacy_compat
            &&& given.contains(("-o"@, "KexAlgorithms=+diffie-hellman-group14-sha1"@))
                == p.legacy_compat
        }),
{
    lemma_plan_parts(p, runtime);
    lemma_option_values();
    let l = options::in_pairs(legacy_args(p.legacy_compat));
    let given = options::in_pairs(plan(p, runtime).args);
    let n = given.len() - l.len();
    if p.legacy_compat {
        assert(given[n] == l[0] && given[n + 1] == l[1] && given[n + 2] == l[2]);
    } else {
        assert forall|i: int| 0 <= i < given.len() implies #[trigger] given[i] != (
            "-o"@,
            "HostKeyAlgorithms=+ssh-rsa"@,
        ) && given[i] != ("-o"@, "PubkeyAcceptedAlgorithms=+ssh-rsa"@) && given[i] != (
            "-o"@,
            "KexAlgorithms=+diffie-hellman-group14-sha1"@,
        ) by {
            lemma_planned(p, runtime, i);
        }
    }
}

/// A name is taken for that of a private key exactly if it stands in the directory, begins
/// with `id_` and does not end in `.pub`.
pub proof fn lemma_key_names(names: Seq<Seq<char>>, name: Seq<char>)
    ensures
        key_names(names).contains(name) <==> names.contains(name) && search::begins(name, "id_"@)
            && !search::ends(name, ".pub"@),
    decreases names.len(),
{
    if names.len() > 0 {
        let rest = names.drop_last();
        lemma_key_names(rest, name);
        assert(names =~= rest.push(names.last()));
        assert(names.contains(name) <==> rest.contains(name) || names.last() == name) by {
            if rest.contains(name) {
                let i = choose|i: int| 0 <= i < rest.len() && rest[i] == name;
                assert(names[i] == name);
            }
            if names.contains(name) && names.last() != name {
                let i = choose|i: int| 0 <= i < names.len() && names[i] == name;
                assert(rest[i] == name);
            }
            if names.last() == name {
                assert(names[names.len() - 1] == name);
            }
        }
        let kept = key_names(rest);
        let all = kept.push(names.last());
        assert(all.contains(name) <==> kept.contains(name) || names.last() == name) by {
            if kept.contains(name) {
                let i = choose|i: int| 0 <= i < kept.len() && kept[i] == name;
                assert(all[i] == name);
            }
            assert(all[kept.len() as int] == names.last());
            if all.contains(name) && names.last() != name {
                let i = choose|i: int| 0 <= i < all.len() && all[i] == name;
                assert(kept[i] == name);
            }
        }
    }
}

/// A profile that uses the keys of the user offers each private key in the user's
/// directory, and no other file of it.
pub proof fn lemma_default_keys_are_offered(
    p: HostView,
    runtime: RuntimeView,
    dir: Seq<char>,
    name: Seq<char>,
)
    requires
        p.auth matches AuthView::Recommended { use_default_key_files: true, .. },
        runtime.default_ssh_dir == Some(dir),
        runtime.default_key_names.contains(name),
        search::begins(name, "id_"@),
        !search::ends(name, ".pub"@),
    ensures
        options::in_pairs(plan(p, runtime).args).contains(("-i"@, paths::join(dir, name))),
        plan(p, runtime).default_key_paths.contains(paths::join(dir, name)),
{
    let names = ordered_key_names(runtime.default_key_names);
    lemma_key_names(runtime.default_key_names, name);
    lemma_ordered_key_names_same(runtime.default_key_names);
    names.to_multiset_ensures();
    key_names(runtime.default_key_names).to_multiset_ensures();
    assert(names.to_multiset().contains(name));
    assert(names.contains(name));
    let i = choose|i: int| 0 <= i < names.len() && names[i] == name;
    let offered = plan_key_paths(p.auth, runtime);
    assert(offered[i] == paths::join(dir, name));
    lemma_plan_parts(p, runtime);
    let k = options::in_pairs(key_args(p.auth, offered));
    assert(identity_args(offered)[2 * i] == "-i"@);
    assert(identity_args(offered)[2 * i + 1] == offered[(2 * i + 1) / 2]);
    assert((2 * i + 1) / 2 == i);
    assert(k[i] == ("-i"@, offered[i]));
    assert(options::in_pairs(plan(p, runtime).args)[i] == k[i]);
}

/// Without a key of its own or the keys of the user, a profile names no key.
pub proof fn lemma_no_key_is_named(p: HostView, runtime: RuntimeView)
    requires
        match p.auth {
            AuthView::SshAgent | AuthView::Password { .. } => true,
            AuthView::Recommended { use_default_key_files, .. } => !use_default_key_files,
            AuthView::KeyFile { .. } => false,
        },
    ensures
        options::lacks(options::in_pairs(plan(p, runtime).args), "-i"@),
{
    lemma_option_values();
    let given = options::in_pairs(plan(p, runtime).args);
    let k = key_args(p.auth, plan_key_paths(p.auth, runtime));
    reveal_strlit("IdentitiesOnly=yes");
    reveal_strlit("-i");
    assert("IdentitiesOnly=yes"@.len() != "-i"@.len());
    assert(!k.contains("-i"@)) by {
        assert(identity_args(Seq::empty()) =~= Seq::empty());
    }
    assert forall|i: int| 0 <= i < given.len() implies (#[trigger] given[i]).0 != "-i"@ by {
        lemma_planned(p, runtime, i);
    }
}

/// A program that asks for `ssh` is told where to leave its questions, for which profile,
/// and, for a key of its own, for which key; and `ssh` is told to ask through it.
pub proof fn lemma_askpass_environment(
    p: HostView,
    runtime: RuntimeView,
    program: Seq<char>,
    dir: Seq<char>,
)
    requires
        asks_user(p.auth),
        runtime.askpass_path == Some(program),
        runtime.askpass_session_dir == Some(dir),
        runtime.askpass_env == seq![("CSSWITCH_ASKPASS_MODE"@, "1"@)],
    ensures
        ({
            let env = plan(p, runtime).env;
            &&& options::sets(env, "SSH_ASKPASS"@, program)
            &&& options::sets(env, "SSH_ASKPASS_REQUIRE"@, "force"@)
            &&& options::sets(env, "CSSWITCH_ASKPASS_MODE"@, "1"@)
            &&& options::sets(env, "CSSWITCH_ASKPASS_DIR"@, dir)
            &&& options::sets(env, "CSSWITCH_ASKPASS_PROFILE"@, p.id)
            &&& p.auth matches AuthView::KeyFile { path, .. } ==> options::sets(
                env,
                "CSSWITCH_ASKPASS_KEY_PATH"@,
                path,
            )
            &&& !(p.auth is KeyFile) ==> options::lacks(env, "CSSWITCH_ASKPASS_KEY_PATH"@)
        }),
{
    reveal_strlit("SSH_ASKPASS");
    reveal_strlit("SSH_ASKPASS_REQUIRE");
    reveal_strlit("DISPLAY");
    reveal_strlit("CSSWITCH_ASKPASS_DIR");
    reveal_strlit("CSSWITCH_ASKPASS_PROFILE");
    reveal_strlit("CSSWITCH_ASKPASS_KEY_PATH");
    reveal_strlit("CSSWITCH_ASKPASS_MODE");
    assert("SSH_ASKPASS"@.len() != "SSH_ASKPASS_REQUIRE"@.len());
    assert("SSH_ASKPASS"@.len() != "DISPLAY"@.len());
    assert("SSH_ASKPASS"@.len() != "CSSWITCH_ASKPASS_DIR"@.len());
    assert("SSH_ASKPASS"@.len() != "CSSWITCH_ASKPASS_PROFILE"@.len());
    assert("SSH_ASKPASS"@.len() != "CSSWITCH_ASKPASS_KEY_PATH"@.len());
    assert("SSH_ASKPASS"@.len() != "CSSWITCH_ASKPASS_MODE"@.len());
    assert("SSH_ASKPASS_REQUIRE"@.len() != "DISPLAY"@.len());
    assert("SSH_ASKPASS_REQUIRE"@.len() != "CSSWITCH_ASKPASS_DIR"@.len());
    assert("SSH_ASKPASS_REQUIRE"@.len() != "CSSWITCH_ASKPASS_PROFILE"@.len());
    assert("SSH_ASKPASS_REQUIRE"@.len() != "CSSWITCH_ASKPASS_KEY_PATH"@.len());
    assert("SSH_ASKPASS_REQUIRE"@.len() != "CSSWITCH_ASKPASS_MODE"@.len());
    assert("DISPLAY"@.len() != "CSSWITCH_ASKPASS_DIR"@.len());
    assert("DISPLAY"@.len() != "CSSWITCH_ASKPASS_PROFILE"@.len());
    assert("DISPLAY"@.len() != "CSSWITCH_ASKPASS_KEY_PATH"@.len());
    assert("DISPLAY"@.len() != "CSSWITCH_ASKPASS_MODE"@.len());
    assert("CSSWITCH_ASKPASS_DIR"@.len() != "CSSWITCH_ASKPASS_PROFILE"@.len());
    assert("CSSWITCH_ASKPASS_DIR"@.len() != "CSSWITCH_ASKPASS_KEY_PATH"@.len());
    assert("CSSWITCH_ASKPASS_DIR"@.len() != "CSSWITCH_ASKPASS_MODE"@.len());
    assert("CSSWITCH_ASKPASS_PROFILE"@.len() != "CSSWITCH_ASKPASS_KEY_PATH"@.len());
    assert("CSSWITCH_ASKPASS_PROFILE"@.len() != "CSSWITCH_ASKPASS_MODE"@.len());
    assert("CSSWITCH_ASKPASS_KEY_PATH"@.len() != "CSSWITCH_ASKPASS_MODE"@.len());
    let env = plan(p, runtime).env;
    assert(env[0] == ("SSH_ASKPASS"@, program));
    assert(env[1] == ("SSH_ASKPASS_REQUIRE"@, "force"@));
    assert(env[2].0 == "DISPLAY"@);
    assert(env[3] == ("CSSWITCH_ASKPASS_MODE"@, "1"@));
    assert(env[4] == ("CSSWITCH_ASKPASS_DIR"@, dir));
    assert(env[5] == ("CSSWITCH_ASKPASS_PROFILE"@, p.id));
    if p.auth is KeyFile {
        assert(env[6] == ("CSSWITCH_ASKPASS_KEY_PATH"@, p.auth->KeyFile_path));
        options::lemma_sets(env, 6);
    }
    options::lemma_sets(env, 0);
    options::lemma_sets(env, 1);
    options::lemma_sets(env, 3);
    options::lemma_sets(env, 4);
    options::lemma_sets(env, 5);
}

/// The options of a plan for a profile with a key of its own: first that key, then the
/// option that keeps `ssh` to it unless a password may stand in for it, and then none that
/// names a key.
pub proof fn lemma_plan_with_key(p: HostView, runtime: RuntimeView)
    requires
        p.auth is KeyFile,
    ensures
        ({
            let given = options::in_pairs(plan(p, runtime).args);
            &&& given.len() > 1
            &&& given[0] == ("-i"@, p.auth->KeyFile_path)
            &&& !p.auth->allow_password_fallback ==> given[1] == ("-o"@, "IdentitiesOnly=yes"@)
            &&& forall|i: int| 0 < i < given.len() ==> (#[trigger] given[i]).0 == "-o"@
        }),
{
    lemma_plan_parts(p, runtime);
    lemma_plan_is_options(p, runtime);
    let k = options::in_pairs(key_args(p.auth, plan_key_paths(p.auth, runtime)));
    let b = options::in_pairs(prompt_args(asks_user(p.auth)));
    let r = options::in_pairs(reuse_args(keeps_connection(p.auth), runtime.control_path));
    let l = options::in_pairs(legacy_args(p.legacy_compat));
    let given = options::in_pairs(plan(p, runtime).args);
    assert(b.len() == 2 && b[0].0 == "-o"@ && b[1].0 == "-o"@);
    assert forall|i: int| 0 <= i < r.len() implies (#[trigger] r[i]).0 == "-o"@ by {}
    assert forall|i: int| 0 <= i < l.len() implies (#[trigger] l[i]).0 == "-o"@ by {}
    assert(k[0] == ("-i"@, p.auth->KeyFile_path));
    assert(given[0] == k[0]);
    assert forall|i: int| 0 < i < given.len() implies (#[trigger] given[i]).0 == "-o"@ by {
        if i < k.len() {
            assert(given[i] == k[i]);
        } else if i < k.len() + 2 {
            assert(given[i] == b[i - k.len()]);
        } else if i < k.len() + 2 + r.len() {
            assert(given[i] == r[i - k.len() - 2]);
        } else {
            assert(given[i] == l[i - k.len() - 2 - r.len()]);
        }
    }
}

/// Where `x` first stands, it stands, and not before.
proof fn lemma_place_of(v: Seq<Seq<char>>, x: Seq<char>)
    ensures
        v.contains(x) == (place_of(v, x) < v.len()),
        0 <= place_of(v, x) <= v.len(),
        v.contains(x) ==> v[place_of(v, x)] == x,
        forall|i: int| 0 <= i < place_of(v, x) ==> v[i] != x,
    decreases v.len(),
{
    if v.len() > 0 && v[0] != x {
        let w = v.drop_first();
        lemma_place_of(w, x);
        assert(v.contains(x) == w.contains(x)) by {
            if v.contains(x) {
                let i = choose|i: int| 0 <= i < v.len() && v[i] == x;
                assert(w[i - 1] == x);
            }
            if w.contains(x) {
                let i = choose|i: int| 0 <= i < w.len() && w[i] == x;
                assert(v[i + 1] == x);
            }
        }
        assert forall|i: int| 0 <= i < place_of(v, x) implies v[i] != x by {
            if i > 0 {
                assert(v[i] == w[i - 1]);
            }
        }
    }
}

/// The place of `x` is the only place that `lemma_place_of` describes.
proof fn lemma_place_of_is(v: Seq<Seq<char>>, x: Seq<char>, k: int)
    requires
        0 <= k < v.len(),
        v[k] == x,
        forall|i: int| 0 <= i < k ==> v[i] != x,
    ensures
        place_of(v, x) == k,
        v.contains(x),
{
    lemma_place_of(v, x);
    if place_of(v, x) < k {
        assert(v[place_of(v, x)] == x);
    }
}

/// Of a list of key names no name is lost and none is added by putting it in
/// order.
pub proof fn lemma_ordered_key_names_same(names: Seq<Seq<char>>)
    ensures
        ordered_key_names(names).to_multiset() == key_names(names).to_multiset(),
{
    let all = key_names(names);
    let no_ed = without(all, "id_ed25519"@);
    let no_ec = without(no_ed, "id_ecdsa"@);
    let rest = without(no_ec, "id_rsa"@);
    lemma_without(all, "id_ed25519"@);
    lemma_without(no_ed, "id_ecdsa"@);
    lemma_without(no_ec, "id_rsa"@);
    order::lemma_arranged(rest);
    let a = if_held(all, "id_ed25519"@);
    let b = if_held(no_ed, "id_ecdsa"@);
    let c = if_held(no_ec, "id_rsa"@);
    vstd::seq_lib::lemma_multiset_commutative(a, b);
    vstd::seq_lib::lemma_multiset_commutative(a + b, c);
    vstd::seq_lib::lemma_multiset_commutative(a + b + c, order::arranged(rest));
    assert(ordered_key_names(names).to_multiset() =~= all.to_multiset());
}

/// Taking out the first `x` takes one `x` out.
proof fn lemma_without(v: Seq<Seq<char>>, x: Seq<char>)
    ensures
        v.to_multiset() =~= if_held(v, x).to_multiset().add(without(v, x).to_multiset()),
{
    broadcast use vstd::seq_lib::group_to_multiset_ensures;

    v.to_multiset_ensures();
    if_held(v, x).to_multiset_ensures();
    if v.contains(x) {
        lemma_place_of(v, x);
        assert(v.to_multiset().contains(x));
        assert(seq![x] =~= Seq::<Seq<char>>::empty().push(x));
        vstd::seq_lib::to_multiset_build(Seq::<Seq<char>>::empty(), x);
        Seq::<Seq<char>>::empty().to_multiset_ensures();
        vstd::seq_lib::to_multiset_remove(v, place_of(v, x));
    } else {
        assert(without(v, x) == v);
        Seq::<Seq<char>>::empty().to_multiset_ensures();
    }
}

/// Appends an option and its value.
fn push_option_value(args: &mut Vec<String>, option: &str, value: &str)
    ensures
        chars::texts(final(args)@) == chars::texts(old(args)@) + seq![option@, value@],
{
    push_text(args, option);
    push_text(args, value);
    assert(chars::texts(args@) =~= chars::texts(old(args)@) + seq![option@, value@]);
}

/// Appends `-o` and an option.
fn push_ssh_option(args: &mut Vec<String>, option: &str)
    ensures
        chars::texts(final(args)@) == chars::texts(old(args)@) + option_args(option@),
{
    push_option_value(args, "-o", option);
}

/// Appends `-i` before each path.
fn push_identities(args: &mut Vec<String>, paths: &Vec<String>)
    ensures
        chars::texts(final(args)@) == chars::texts(old(args)@) + identity_args(
            chars::texts(paths@),
        ),
{
    let ghost all = chars::texts(paths@);
    let ghost before = chars::texts(args@);
    let mut i: usize = 0;
    assert(before + identity_args(all.take(0)) =~= before);
    while i < paths.len()
        invariant
            i <= paths@.len(),
            all == chars::texts(paths@),
            chars::texts(args@) == before + identity_args(all.take(i as int)),
        decreases paths@.len() - i,
    {
        push_option_value(args, "-i", paths[i].as_str());
        assert(identity_args(all.take(i + 1)) =~= identity_args(all.take(i as int)) + seq![
            "-i"@,
            all[i as int],
        ]);
        i = i + 1;
        assert(chars::texts(args@) =~= before + identity_args(all.take(i as int)));
    }
    assert(all.take(i as int) =~= all);
}

/// Appends the arguments that name keys.
fn push_key_args(args: &mut Vec<String>, auth: &RemoteAuthMethod, default_paths: &Vec<String>)
    ensures
        chars::texts(final(args)@) == chars::texts(old(args)@) + key_args(
            auth@,
            chars::texts(default_paths@),
        ),
{
    match auth {
        RemoteAuthMethod::Recommended { strict, .. } => {
            push_identities(args, default_paths);
            if *strict {
                push_ssh_option(args, "IdentitiesOnly=yes");
            }
        },
        RemoteAuthMethod::KeyFile { path, allow_password_fallback, .. } => {
            push_option_value(args, "-i", path.as_str());
            if !*allow_password_fallback {
                push_ssh_option(args, "IdentitiesOnly=yes");
            }
        },
        _ => {},
    }
    assert(chars::texts(args@) =~= chars::texts(old(args)@) + key_args(
        auth@,
        chars::texts(default_paths@),
    ));
}

/// Appends the arguments that say whether `ssh` may ask.
fn push_prompt_args(args: &mut Vec<String>, interactive: bool)
    ensures
        chars::texts(final(args)@) == chars::texts(old(args)@) + prompt_args(interactive),
{
    if interactive {
        push_ssh_option(args, "BatchMode=no");
        push_ssh_option(args, "NumberOfPasswordPrompts=3");
    } else {
        push_ssh_option(args, "BatchMode=yes");
        push_ssh_option(args, "NumberOfPasswordPrompts=0");
    }
    assert(chars::texts(args@) =~= chars::texts(old(args)@) + prompt_args(interactive));
}

/// Appends the arguments that keep a connection.
fn push_reuse_args(args: &mut Vec<String>, remember: bool, control_path: &Option<String>)
    ensures
        chars::texts(final(args)@) == chars::texts(old(args)@) + reuse_args(
            remember,
            chars::opt_text(*control_path),
        ),
{
    if remember {
        if let Some(path) = control_path {
            let option = cat2("ControlPath=", path.as_str());
            push_ssh_option(args, "ControlMaster=auto");
            push_ssh_option(args, "ControlPersist=10m");
            push_ssh_option(args, option.as_str());
        }
    }
    assert(chars::texts(args@) =~= chars::texts(old(args)@) + reuse_args(
        remember,
        chars::opt_text(*control_path),
    ));
}

/// Appends the arguments that admit the algorithms of old servers.
fn push_legacy_args(args: &mut Vec<String>, legacy: bool)
    ensures
        chars::texts(final(args)@) == chars::texts(old(args)@) + legacy_args(legacy),
{
    if legacy {
        push_ssh_option(args, "HostKeyAlgorithms=+ssh-rsa");
        push_ssh_option(args, "PubkeyAcceptedAlgorithms=+ssh-rsa");
        push_ssh_option(args, "KexAlgorithms=+diffie-hellman-group14-sha1");
    }
    assert(chars::texts(args@) =~= chars::texts(old(args)@) + legacy_args(legacy));
}

/// The environment of a plan that may ask the user.
fn prompt_env(profile: &RemoteHostProfile, runtime: AuthRuntimeOptions) -> (r: Vec<
    (String, String),
>)
    ensures
        chars::pairs(r@) == askpass_env(runtime@.askpass_path, runtime@.askpass_env) + session_env(
            runtime@.askpass_session_dir,
            profile@.id,
        ) + key_env(profile@.auth),
{
    let mut env: Vec<(String, String)> = Vec::new();
    let ghost given = runtime@;
    if let Some(path) = runtime.askpass_path {
        let mut more = runtime.askpass_env;
        push_pair(&mut env, "SSH_ASKPASS", path.as_str());
        push_pair(&mut env, "SSH_ASKPASS_REQUIRE", "force");
        push_pair(&mut env, "DISPLAY", "csswitch");
        let ghost own = chars::pairs(env@);
        let ghost rest = chars::pairs(more@);
        env.append(&mut more);
        assert(chars::pairs(env@) =~= own + rest);
    }
    assert(chars::pairs(env@) =~= askpass_env(given.askpass_path, given.askpass_env));
    let ghost asked = chars::pairs(env@);
    if let Some(dir) = runtime.askpass_session_dir {
        push_pair(&mut env, "CSSWITCH_ASKPASS_DIR", dir.as_str());
        push_pair(&mut env, "CSSWITCH_ASKPASS_PROFILE", profile.id.as_str());
    }
    assert(chars::pairs(env@) =~= asked + session_env(given.askpass_session_dir, profile@.id));
    let ghost told = chars::pairs(env@);
    if let RemoteAuthMethod::KeyFile { path, .. } = &profile.auth_method {
        push_pair(&mut env, "CSSWITCH_ASKPASS_KEY_PATH", path.as_str());
    }
    assert(chars::pairs(env@) =~= told + key_env(profile@.auth));
    env
}

impl SshAuthPlan {
    /// The plan for a profile.
    pub fn from_profile(profile: &RemoteHostProfile, runtime: AuthRuntimeOptions) -> (r: Self)
        ensures
            r@ == plan(profile@, runtime@),
    {
        let default_key_paths: Vec<String> = match &profile.auth_method {
            RemoteAuthMethod::Recommended { use_default_key_files: true, .. } => {
                collect_default_key_paths(&runtime.default_ssh_dir, &runtime.default_key_names)
            },
            _ => Vec::new(),
        };
        assert(chars::texts(default_key_paths@) =~= plan_key_paths(profile@.auth, runtime@));
        let (interactive, remember_connection) = match &profile.auth_method {
            RemoteAuthMethod::SshAgent => (false, false),
            RemoteAuthMethod::Recommended {
                allow_password,
                allow_verification_code,
                remember_connection,
                ..
            } => (*allow_password || *allow_verification_code, *remember_connection),
            RemoteAuthMethod::Password { remember_connection, .. } => (true, *remember_connection),
            RemoteAuthMethod::KeyFile {
                save_key_password,
                allow_password_fallback,
                allow_verification_code,
                remember_connection,
                ..
            } => (
                *save_key_password || *allow_password_fallback || *allow_verification_code,
                *remember_connection,
            ),
        };
        let mut args: Vec<String> = Vec::new();
        push_key_args(&mut args, &profile.auth_method, &default_key_paths);
        assert(chars::texts(args@) =~= key_args(profile@.auth, chars::texts(default_key_paths@)));
        push_prompt_args(&mut args, interactive);
        push_reuse_args(&mut args, remember_connection, &runtime.control_path);
        push_legacy_args(&mut args, profile.ssh_options.legacy_compat);
        let env: Vec<(String, String)> = if interactive {
            prompt_env(profile, runtime)
        } else {
            Vec::new()
        };
        assert(!interactive ==> chars::pairs(env@) =~= Seq::empty());
        SshAuthPlan { args, env, default_key_paths, interactive, remember_connection }
    }
}

impl AuthRuntimeOptions {
    /// The options for a profile where no program asks for passwords.
    pub fn default_for(
        profile: &RemoteHostProfile,
        config_dir: &str,
        home: Option<&str>,
        key_names: Vec<String>,
    ) -> (r: Self)
        ensures
            r@ == (RuntimeView {
                askpass_path: None,
                askpass_session_dir: None,
                askpass_env: Seq::empty(),
                control_path: Some(control_path(config_dir@, profile@)),
                default_ssh_dir: match home {
                    Some(home) => Some(paths::join(home@, ".ssh"@)),
                    None => None,
                },
                default_key_names: chars::texts(key_names@),
            }),
    {
        let r = AuthRuntimeOptions {
            askpass_path: None,
            askpass_session_dir: None,
            askpass_env: Vec::new(),
            control_path: default_control_path(profile, config_dir),
            default_ssh_dir: match home {
                Some(home) => Some(join_path(home, ".ssh")),
                None => None,
            },
            default_key_names: key_names,
        };
        assert(r@.askpass_env =~= Seq::empty());
        r
    }

    /// A copy of the options.
    pub fn duplicate(&self) -> (r: Self)
        ensures
            r@ == self@,
    {
        AuthRuntimeOptions {
            askpass_path: copy_opt(&self.askpass_path),
            askpass_session_dir: copy_opt(&self.askpass_session_dir),
            askpass_env: chars::copy_pairs(&self.askpass_env),
            control_path: copy_opt(&self.control_path),
            default_ssh_dir: copy_opt(&self.default_ssh_dir),
            default_key_names: chars::copy_texts(&self.default_key_names),
        }
    }
}

/// The path of the socket through which a connection is shared: one for each
/// user, host and port.
pub fn control_path_for(profile: &RemoteHostProfile, config_dir: &str) -> (r: String)
    ensures
        r@ == control_path(config_dir@, profile@),
{
    let port = number_text(profile.port as u64);
    let raw = cat5(profile.username.as_str(), "@", profile.host.as_str(), ":", port.as_str());
    let digest = sha256(raw.as_str().as_bytes());
    let name = hex_text(&digest);
    let file = cat2(name.as_str(), ".sock");
    join_path2(config_dir, "ssh-control", file.as_str())
}

/// The socket path that is used where the user names none.
fn default_control_path(profile: &RemoteHostProfile, config_dir: &str) -> (r: Option<String>)
    ensures
        chars::opt_text(r) == Some(control_path(config_dir@, profile@)),
{
    Some(control_path_for(profile, config_dir))
}

/// The paths of the private keys below the directory of the user's keys.
fn collect_default_key_paths(ssh_dir: &Option<String>, names: &Vec<String>) -> (r: Vec<String>)
    ensures
        chars::texts(r@) == key_paths(chars::opt_text(*ssh_dir), chars::texts(names@)),
{
    let mut out: Vec<String> = Vec::new();
    let dir = match ssh_dir {
        Some(dir) => dir,
        None => {
            assert(chars::texts(out@) =~= Seq::empty());
            return out;
        },
    };
    let ordered = order_default_key_names(chars::copy_texts(names));
    let ghost all = key_paths(chars::opt_text(*ssh_dir), chars::texts(names@));
    let mut i: usize = 0;
    assert(chars::texts(out@) =~= all.take(0));
    while i < ordered.len()
        invariant
            i <= ordered@.len(),
            all == chars::texts(ordered@).map_values(|name: Seq<char>| paths::join(dir@, name)),
            chars::texts(out@) == all.take(i as int),
        decreases ordered@.len() - i,
    {
        let path = join_path(dir.as_str(), ordered[i].as_str());
        push_text(&mut out, path.as_str());
        i = i + 1;
        assert(chars::texts(out@) =~= all.take(i as int));
    }
    assert(all.take(i as int) =~= all);
    out
}

/// The first place of `x` in `v`.
fn find_text(v: &Vec<String>, x: &str) -> (r: Option<usize>)
    ensures
        r is Some == chars::texts(v@).contains(x@),
        r matches Some(i) ==> i == place_of(chars::texts(v@), x@) && i < v@.len(),
{
    let mut i: usize = 0;
    while i < v.len()
        invariant
            i <= v@.len(),
            forall|j: int| 0 <= j < i ==> chars::texts(v@)[j] != x@,
        decreases v@.len() - i,
    {
        if chars::same(v[i].as_str(), x) {
            proof {
                lemma_place_of_is(chars::texts(v@), x@, i as int);
            }
            return Some(i);
        }
        i = i + 1;
    }
    None
}

/// Moves the first `x` of `from` to the end of `to`.
fn move_text(from: &mut Vec<String>, to: &mut Vec<String>, x: &str)
    ensures
        chars::texts(final(to)@) == chars::texts(old(to)@) + if_held(chars::texts(old(from)@), x@),
        chars::texts(final(from)@) == without(chars::texts(old(from)@), x@),
{
    match find_text(from, x) {
        Some(i) => {
            let ghost u = chars::texts(from@);
            proof {
                lemma_place_of(u, x@);
            }
            let name = from.remove(i);
            assert(chars::texts(from@) =~= u.remove(i as int));
            push_text(to, name.as_str());
        },
        None => {},
    }
    assert(chars::texts(to@) =~= chars::texts(old(to)@) + if_held(chars::texts(old(from)@), x@));
}

/// The names of private keys in the order in which they are tried.
pub fn order_default_key_names(names: Vec<String>) -> (r: Vec<String>)
    ensures
        chars::texts(r@) == ordered_key_names(chars::texts(names@)),
{
    let ghost given = chars::texts(names@);
    let mut rest: Vec<String> = Vec::new();
    let mut i: usize = 0;
    assert(chars::texts(rest@) =~= key_names(given.take(0)));
    while i < names.len()
        invariant
            i <= names@.len(),
            given == chars::texts(names@),
            chars::texts(rest@) == key_names(given.take(i as int)),
        decreases names@.len() - i,
    {
        let name = names[i].as_str();
        proof {
            let t = given.take(i + 1);
            assert(t.drop_last() =~= given.take(i as int));
            assert(t.last() == name@);
        }
        if starts(name, "id_") && !finishes(name, ".pub") {
            push_text(&mut rest, name);
        }
        i = i + 1;
    }
    assert(given.take(i as int) =~= given);
    let mut ordered: Vec<String> = Vec::new();
    assert(chars::texts(ordered@) =~= Seq::empty());
    move_text(&mut rest, &mut ordered, "id_ed25519");
    move_text(&mut rest, &mut ordered, "id_ecdsa");
    move_text(&mut rest, &mut ordered, "id_rsa");
    let others = sort_texts(rest);
    chars::push_texts(&mut ordered, &others);
    assert(chars::texts(ordered@) =~= ordered_key_names(given));
    ordered
}

/// A connection is shared through a socket of its own, for the user, the address and the
/// port that are logged in to; the keys that are offered stand in the directory of keys.
pub proof fn lemma_control_path(
    config_dir: Seq<char>,
    p: HostView,
    dir: Seq<char>,
    names: Seq<Seq<char>>,
    i: int,
)
    requires
        0 <= i < ordered_key_names(names).len(),
    ensures
        control_path(config_dir, p) == paths::join(
            paths::join(config_dir, "ssh-control"@),
            number::hex(
                crypto::sha256_digest(
                    vstd::utf8::encode_utf8(
                        p.username + "@"@ + p.host + ":"@ + number::decimal(p.port as nat),
                    ),
                ),
            ) + ".sock"@,
        ),
        key_paths(Some(dir), names).len() == ordered_key_names(names).len(),
        key_paths(Some(dir), names)[i] == paths::join(dir, ordered_key_names(names)[i]),
        key_paths(None, names).len() == 0,
{
}

} // verus!
