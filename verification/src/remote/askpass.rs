//! Asking the user for what `ssh` asks for, through files in a directory that the
//! asking program and the window share.

use vstd::prelude::*;

use crate::crypto::random_alphanumeric;
use crate::paths::{self, file_stem, join_path};
use crate::remote::credentials::{self, CredentialKind, KindView};
use crate::remote::prompt::{self, classify_prompt, PromptKind};
use crate::text::chars::{self, cat2, cat3, holds_text, push_text};
use crate::text::encode;
use crate::text::number::{self, number_text};
use crate::text::search::{self, finishes};
use crate::text::table::Table;
use crate::text::trim::{self, blank};

verus! {

/// How long the asking program waits for an answer, in seconds.
pub const ANSWER_TIMEOUT_SECS: u64 = 120;

/// How long it pauses before it looks again, in milliseconds.
pub const ANSWER_PAUSE_MS: u64 = 100;

/// A question.
#[derive(Debug)]
pub struct AskpassRequest {
    pub id: String,
    pub prompt: String,
    pub profile_id: String,
    pub key_path: Option<String>,
}

/// An answer.
#[derive(Debug)]
pub struct AskpassResponse {
    pub secret: Option<String>,
    pub cancelled: bool,
    pub remember: bool,
}

/// A question as the window shows it.
#[derive(Debug)]
pub struct AskpassPromptPayload {
    pub session_id: String,
    pub request_id: String,
    pub profile_id: String,
    pub prompt: String,
    pub kind: String,
    pub remember_allowed: bool,
}

/// A session whose questions the window no longer shows.
#[derive(Debug)]
pub struct AskpassClosePayload {
    pub session_id: String,
}

/// A new id: 24 random letters and digits.
fn new_id() -> (r: String)
    ensures
        r@.len() == 24,
        forall|i: int| 0 <= i < r@.len() ==> chars::is_alnum(#[trigger] r@[i]),
{
    random_alphanumeric(24)
}

impl AskpassRequest {
    /// A question with a new id.
    pub fn new(prompt: &str, profile_id: &str, key_path: Option<String>) -> (r: Self)
        ensures
            r.id@.len() == 24,
            forall|i: int| 0 <= i < r.id@.len() ==> chars::is_alnum(#[trigger] r.id@[i]),
            r.prompt@ == prompt@,
            r.profile_id@ == profile_id@,
            chars::opt_text(r.key_path) == chars::opt_text(key_path),
    {
        AskpassRequest {
            id: new_id(),
            prompt: prompt.to_string(),
            profile_id: profile_id.to_string(),
            key_path,
        }
    }
}

impl AskpassResponse {
    /// The answer with a secret.
    pub fn secret(secret: &str) -> (r: Self)
        ensures
            chars::opt_text(r.secret) == Some(secret@),
            !r.cancelled,
            !r.remember,
    {
        AskpassResponse { secret: Some(secret.to_string()), cancelled: false, remember: false }
    }

    /// The answer of a user who does not answer.
    pub fn cancelled() -> (r: Self)
        ensures
            r.secret is None,
            r.cancelled,
            !r.remember,
    {
        AskpassResponse { secret: None, cancelled: true, remember: false }
    }
}

/// A new session id.
pub fn new_session_id() -> (r: String)
    ensures
        r@.len() == 24,
        forall|i: int| 0 <= i < r@.len() ==> chars::is_alnum(#[trigger] r@[i]),
{
    new_id()
}

/// `text`, unless it is blank or there is none.
pub open spec fn filled(text: Option<Seq<char>>) -> Option<Seq<char>> {
    match text {
        Some(t) if !trim::is_blank(t) => Some(t),
        _ => None,
    }
}

/// `text`, unless it is blank or there is none.
fn filled_text(text: Option<&str>) -> (r: Option<String>)
    ensures
        chars::opt_text(r) == filled(chars::opt_str(text)),
{
    match text {
        Some(t) => if blank(t) {
            None
        } else {
            Some(t.to_string())
        },
        None => None,
    }
}

/// The question that the asking program asks, and the directory in which it asks
/// it, from its environment; `None` where it lacks the directory or the profile.
pub fn cli_request(
    prompt: &str,
    session_dir: Option<&str>,
    profile_id: Option<&str>,
    key_path: Option<&str>,
) -> (r: Option<(String, AskpassRequest)>)
    ensures
        match (filled(chars::opt_str(session_dir)), filled(chars::opt_str(profile_id))) {
            (Some(dir), Some(id)) => {
                &&& r matches Some((in_dir, request))
                &&& in_dir@ == dir
                &&& request.prompt@ == prompt@
                &&& request.profile_id@ == id
                &&& chars::opt_text(request.key_path) == filled(chars::opt_str(key_path))
                &&& request.id@.len() == 24
            },
            _ => r is None,
        },
{
    let dir = match filled_text(session_dir) {
        Some(dir) => dir,
        None => return None,
    };
    let id = match filled_text(profile_id) {
        Some(id) => id,
        None => return None,
    };
    let key = filled_text(key_path);
    Some((dir, AskpassRequest::new(prompt, id.as_str(), key)))
}

/// The contents of an answer.
pub struct ResponseView {
    pub secret: Option<Seq<char>>,
    pub cancelled: bool,
    pub remember: bool,
}

impl View for AskpassResponse {
    type V = ResponseView;

    open spec fn view(&self) -> ResponseView {
        ResponseView {
            secret: chars::opt_text(self.secret),
            cancelled: self.cancelled,
            remember: self.remember,
        }
    }
}

/// What the asking program writes, if anything, and the code that it ends with.
pub open spec fn told_to_ssh(answer: Option<ResponseView>) -> (Option<Seq<char>>, i32) {
    match answer {
        Some(response) => match response.secret {
            Some(secret) if !response.cancelled => (Some(secret), 0),
            _ => (None, 1),
        },
        None => (None, 1),
    }
}

/// What the asking program writes, if anything, and whether it succeeds.
pub fn cli_answer(answer: Result<AskpassResponse, String>) -> (r: (Option<String>, i32))
    ensures
        (chars::opt_text(r.0), r.1) == told_to_ssh(
            match answer {
                Ok(response) => Some(response@),
                Err(_) => None,
            },
        ),
{
    match answer {
        Ok(response) => {
            if response.cancelled {
                return (None, 1);
            }
            match response.secret {
                Some(secret) => (Some(secret), 0),
                None => (None, 1),
            }
        },
        Err(_) => (None, 1),
    }
}

/// What the asking program does after it looked for an answer.
#[derive(Debug)]
pub enum WaitStep {
    /// This is the answer; its file, which holds the secret, is removed.
    Answered { response: AskpassResponse, spent: String },
    Pause,
    Failed { error: String },
}

/// The file of an answer.
pub open spec fn answer_file(session_dir: Seq<char>, request_id: Seq<char>) -> Seq<char> {
    paths::join2(session_dir, "responses"@, request_id + ".json"@)
}

/// What a step makes of the answers that wait, here by their files.
pub open spec fn after_wait(files: Map<Seq<char>, AskpassResponse>, step: WaitStep) -> Map<
    Seq<char>,
    AskpassResponse,
> {
    match step {
        WaitStep::Answered { spent, .. } => files.remove(spent@),
        _ => files,
    }
}

/// An answer is read once: after the step that hands it on, it waits no longer, and the
/// other answers wait as before. A step that hands none on removes none.
pub proof fn lemma_answer_is_read_once(
    files: Map<Seq<char>, AskpassResponse>,
    step: WaitStep,
    session_dir: Seq<char>,
    request_id: Seq<char>,
    other: Seq<char>,
)
    requires
        step matches WaitStep::Answered { spent, .. } ==> spent@ == answer_file(
            session_dir,
            request_id,
        ),
        other != answer_file(session_dir, request_id),
    ensures
        step is Answered ==> !after_wait(files, step).contains_key(
            answer_file(session_dir, request_id),
        ),
        after_wait(files, step).contains_key(other) == files.contains_key(other),
        files.contains_key(other) ==> after_wait(files, step)[other] == files[other],
        !(step is Answered) ==> after_wait(files, step) == files,
{
}

/// The contents of a step.
pub enum WaitView {
    Answered { response: AskpassResponse, spent: Seq<char> },
    Pause,
    Failed { error: Seq<char> },
}

impl View for WaitStep {
    type V = WaitView;

    open spec fn view(&self) -> WaitView {
        match *self {
            WaitStep::Answered { response, spent } => WaitView::Answered { response, spent: spent@ },
            WaitStep::Pause => WaitView::Pause,
            WaitStep::Failed { error } => WaitView::Failed { error: error@ },
        }
    }
}

/// What the asking program does after it looked for an answer.
pub open spec fn wait_next(
    session_dir: Seq<char>,
    request_id: Seq<char>,
    session_exists: bool,
    looked: Result<AskpassResponse, Seq<char>>,
    elapsed: int,
    timeout: int,
) -> WaitView {
    if !session_exists {
        WaitView::Failed { error: "登录会话已结束"@ }
    } else {
        match looked {
            Ok(response) => WaitView::Answered {
                response,
                spent: answer_file(session_dir, request_id),
            },
            Err(e) => if elapsed < timeout {
                WaitView::Pause
            } else {
                WaitView::Failed { error: "等待登录验证超时："@ + e }
            },
        }
    }
}

/// An answer that is there is handed on, however long it took, and its file is the one
/// that is removed; without one the asking program waits until its time is over. Once the
/// session has ended, it gives up.
pub proof fn lemma_waiting(
    session_dir: Seq<char>,
    request_id: Seq<char>,
    response: AskpassResponse,
    error: Seq<char>,
    elapsed: int,
    timeout: int,
)
    ensures
        wait_next(session_dir, request_id, true, Ok(response), elapsed, timeout) == (
        WaitView::Answered {
            response,
            spent: paths::join(
                paths::join(session_dir, "responses"@),
                request_id + ".json"@,
            ),
        }),
        elapsed < timeout ==> wait_next(
            session_dir,
            request_id,
            true,
            Err(error),
            elapsed,
            timeout,
        ) is Pause,
        elapsed >= timeout ==> wait_next(
            session_dir,
            request_id,
            true,
            Err(error),
            elapsed,
            timeout,
        ) is Failed,
        wait_next(session_dir, request_id, false, Ok(response), elapsed, timeout) is Failed,
        wait_next(session_dir, request_id, false, Err(error), elapsed, timeout) is Failed,
{
}

/// What the asking program does after it looked for an answer, where the directory
/// is still there or not, `elapsed` nanoseconds after it began to wait.
pub fn wait_step(
    session_dir: &str,
    request_id: &str,
    session_exists: bool,
    looked: Result<AskpassResponse, String>,
    elapsed: u128,
    timeout: u128,
) -> (r: WaitStep)
    ensures
        r@ == wait_next(
            session_dir@,
            request_id@,
            session_exists,
            match looked {
                Ok(response) => Ok(response),
                Err(e) => Err(e@),
            },
            elapsed as int,
            timeout as int,
        ),
{
    if !session_exists {
        return WaitStep::Failed { error: "登录会话已结束".to_string() };
    }
    match looked {
        Ok(response) => WaitStep::Answered {
            response,
            spent: response_path(session_dir, request_id),
        },
        Err(e) => if elapsed < timeout {
            WaitStep::Pause
        } else {
            WaitStep::Failed { error: cat2("等待登录验证超时：", e.as_str()) }
        },
    }
}

/// Notes the directory of a session.
pub fn register_session(sessions: &mut Table<String>, session_id: &str, session_dir: String)
    requires
        old(sessions).wf(),
    ensures
        final(sessions).wf(),
        final(sessions)@ == old(sessions)@.insert(session_id@, session_dir),
{
    sessions.insert(session_id, session_dir);
}

/// Forgets a session, and gives its directory.
pub fn unregister_session(sessions: &mut Table<String>, session_id: &str) -> (r: Option<String>)
    requires
        old(sessions).wf(),
    ensures
        final(sessions).wf(),
        final(sessions)@ == old(sessions)@.remove(session_id@),
        r is Some == old(sessions)@.contains_key(session_id@),
        r is Some ==> r->0 == old(sessions)@[session_id@],
{
    sessions.remove(session_id)
}

/// The directory of a session that an answer is for.
pub fn session_dir_of(sessions: &Table<String>, session_id: &str) -> (r: Result<String, String>)
    ensures
        match r {
            Ok(dir) => sessions@.contains_key(session_id@) && dir == sessions@[session_id@],
            Err(e) => !sessions@.contains_key(session_id@) && e@
                == "登录会话已结束，请重新连接。"@,
        },
{
    match sessions.get(session_id) {
        Some(dir) => Ok(dir.clone()),
        None => Err("登录会话已结束，请重新连接。".to_string()),
    }
}

/// The secret that a question asks for, as it is kept: none for a code, and none
/// for the password of a key without a path.
pub open spec fn kept_kind(kind: PromptKind, key_path: Option<Seq<char>>) -> Option<KindView> {
    match kind {
        PromptKind::Password => Some(KindView::Password),
        PromptKind::KeyPassword => match key_path {
            Some(path) => Some(KindView::KeyPassword(path)),
            None => None,
        },
        PromptKind::VerificationCode | PromptKind::Unknown => None,
    }
}

/// The contents of an optional kind.
pub open spec fn opt_kind(k: Option<CredentialKind<'_>>) -> Option<KindView> {
    match k {
        Some(k) => Some(k@),
        None => None,
    }
}

/// The secret that a question of the given kind asks for, as it is kept.
pub fn kept_credential<'a>(kind: PromptKind, key_path: &'a Option<String>) -> (r: Option<
    CredentialKind<'a>,
>)
    ensures
        opt_kind(r) == kept_kind(kind, chars::opt_text(*key_path)),
{
    match kind {
        PromptKind::Password => Some(CredentialKind::Password),
        PromptKind::KeyPassword => match key_path {
            Some(path) => Some(CredentialKind::KeyPassword(path.as_str())),
            None => None,
        },
        PromptKind::VerificationCode | PromptKind::Unknown => None,
    }
}

/// What a question asks for.
pub open spec fn asked(request: AskpassRequest) -> PromptKind {
    prompt::prompt_kind(request.prompt@, encode::lowered(request.prompt@))
}

/// The secret that a question asks for, as it is kept.
pub fn remembered_credential(request: &AskpassRequest) -> (r: Option<CredentialKind<'_>>)
    ensures
        opt_kind(r) == kept_kind(asked(*request), chars::opt_text(request.key_path)),
{
    kept_credential(classify_prompt(request.prompt.as_str()), &request.key_path)
}

/// The secret in the user's answer that is to be kept, and as what: one that the user
/// gave and wants kept, to a question whose answers are kept.
pub open spec fn to_keep(
    kind: PromptKind,
    key_path: Option<Seq<char>>,
    secret: Option<Seq<char>>,
    cancelled: bool,
    remember: bool,
) -> Option<(KindView, Seq<char>)> {
    if remember && !cancelled {
        match (kept_kind(kind, key_path), secret) {
            (Some(kept), Some(secret)) => Some((kept, secret)),
            _ => None,
        }
    } else {
        None
    }
}

/// A secret is kept if and only if the user gave it, did not cancel and wants it kept,
/// and the question was for a password, or for that of a key whose path is known. It is
/// kept as the user gave it.
pub proof fn lemma_what_is_kept(
    kind: PromptKind,
    key_path: Option<Seq<char>>,
    secret: Option<Seq<char>>,
    cancelled: bool,
    remember: bool,
)
    ensures
        to_keep(kind, key_path, secret, cancelled, remember) is Some <==> remember && !cancelled
            && secret is Some && (kind == PromptKind::Password || (kind == PromptKind::KeyPassword
            && key_path is Some)),
        to_keep(kind, key_path, secret, cancelled, remember) matches Some(kept) ==> Some(kept.1)
            == secret,
{
}

/// The secret in the user's answer that is to be kept first, and as what.
pub fn remember_secret<'a>(
    request: &'a AskpassRequest,
    secret: &Option<String>,
    cancelled: bool,
    remember: bool,
) -> (r: Option<(CredentialKind<'a>, String)>)
    ensures
        ({
            let keep = to_keep(
                asked(*request),
                chars::opt_text(request.key_path),
                chars::opt_text(*secret),
                cancelled,
                remember,
            );
            match r {
                Some((kind, text)) => keep == Some((kind@, text@)),
                None => keep is None,
            }
        }),
{
    if !remember || cancelled {
        return None;
    }
    match secret {
        Some(text) => match remembered_credential(request) {
            Some(kind) => Some((kind, text.clone())),
            None => None,
        },
        None => None,
    }
}

/// The answer of the user, as it is written for the program that asked.
pub open spec fn answer_of(secret: Option<Seq<char>>, cancelled: bool, remember: bool) -> ResponseView {
    ResponseView { secret, cancelled, remember }
}

/// What the user gave is what `ssh` is told, as it is; a user who cancelled, or gave
/// nothing, has `ssh` told nothing, and so has one who was not there in time.
pub proof fn lemma_answer_reaches_ssh(secret: Seq<char>, remember: bool)
    ensures
        told_to_ssh(Some(answer_of(Some(secret), false, remember))) == (Some(secret), 0i32),
        told_to_ssh(Some(answer_of(Some(secret), true, remember))) == (None::<Seq<char>>, 1i32),
        told_to_ssh(Some(answer_of(None, false, remember))) == (None::<Seq<char>>, 1i32),
        told_to_ssh(None) == (None::<Seq<char>>, 1i32),
{
}

/// The answer of the user, as it is written for the program that asked, once what is to
/// be kept of it was saved. Where that failed there is no answer to write, but the error.
pub fn respond(
    request: &AskpassRequest,
    secret: Option<String>,
    cancelled: bool,
    remember: bool,
    saved: Result<(), String>,
) -> (r: Result<AskpassResponse, String>)
    ensures
        ({
            let keep = to_keep(
                asked(*request),
                chars::opt_text(request.key_path),
                chars::opt_text(secret),
                cancelled,
                remember,
            );
            match r {
                Ok(response) => {
                    &&& keep is None || saved is Ok
                    &&& response@ == answer_of(chars::opt_text(secret), cancelled, remember)
                },
                Err(e) => keep is Some && saved is Err && e@ == saved->Err_0@,
            }
        }),
{
    if remember_secret(request, &secret, cancelled, remember).is_some() {
        if let Err(e) = saved {
            return Err(e);
        }
    }
    Ok(AskpassResponse { secret, cancelled, remember })
}

/// The answer that is given without asking the user: the secret that is kept for a
/// question of this kind, or why there is none.
pub open spec fn auto_secret(
    kind: PromptKind,
    key_path: Option<Seq<char>>,
    kept: Option<Seq<char>>,
) -> Result<Seq<char>, Seq<char>> {
    if kind == PromptKind::KeyPassword && key_path is None {
        Err("missing key path"@)
    } else {
        match (kept_kind(kind, key_path), kept) {
            (Some(_), Some(secret)) => Ok(secret),
            _ => Err("no saved secret"@),
        }
    }
}

/// The answer that is given without asking the user, from what is kept.
pub fn try_auto_response(request: &AskpassRequest, kept: Option<String>) -> (r: Result<
    AskpassResponse,
    String,
>)
    ensures
        match auto_secret(
            asked(*request),
            chars::opt_text(request.key_path),
            chars::opt_text(kept),
        ) {
            Ok(secret) => r matches Ok(response) && response@ == answer_of(
                Some(secret),
                false,
                false,
            ),
            Err(e) => r is Err && r->Err_0@ == e,
        },
{
    let kind = classify_prompt(request.prompt.as_str());
    if kind == PromptKind::KeyPassword && request.key_path.is_none() {
        return Err("missing key path".to_string());
    }
    match (kept_credential(kind, &request.key_path), kept) {
        (Some(_), Some(secret)) => Ok(AskpassResponse::secret(secret.as_str())),
        _ => Err("no saved secret".to_string()),
    }
}

/// A secret that is kept for a question answers it without the user, as it was given: that
/// of a password, and that of a key whose path is known. Nothing else is answered so.
pub proof fn lemma_kept_secret_answers(
    kind: PromptKind,
    key_path: Option<Seq<char>>,
    secret: Seq<char>,
)
    ensures
        to_keep(kind, key_path, Some(secret), false, true) is Some <==> auto_secret(
            kind,
            key_path,
            Some(secret),
        ) is Ok,
        auto_secret(kind, key_path, Some(secret)) matches Ok(given) ==> given == secret,
        auto_secret(kind, key_path, None) is Err,
        auto_secret(PromptKind::KeyPassword, None, Some(secret)) == Err::<Seq<char>, Seq<char>>(
            "missing key path"@,
        ),
        kept_kind(PromptKind::Password, key_path) == Some(KindView::Password),
        key_path matches Some(path) ==> kept_kind(PromptKind::KeyPassword, key_path) == Some(
            KindView::KeyPassword(path),
        ),
{
}

/// A code that is good for one login only is neither kept nor answered without the user,
/// whatever is kept.
pub proof fn lemma_codes_need_the_user(
    prompt: Seq<char>,
    lower: Seq<char>,
    key_path: Option<Seq<char>>,
    secret: Option<Seq<char>>,
    cancelled: bool,
    remember: bool,
    kept: Option<Seq<char>>,
)
    requires
        prompt::asks_for_code(lower),
    ensures
        to_keep(prompt::prompt_kind(prompt, lower), key_path, secret, cancelled, remember) is None,
        auto_secret(prompt::prompt_kind(prompt, lower), key_path, kept) is Err,
{
}

/// The questions that were noted once a file was, and the id of its question, if that was
/// not noted before.
pub open spec fn noted(seen: Seq<Seq<char>>, file_name: Seq<char>) -> (
    Seq<Seq<char>>,
    Option<Seq<char>>,
) {
    let id = paths::stem(file_name);
    if seen.contains(id) {
        (seen, None)
    } else {
        (seen.push(id), Some(id))
    }
}

/// The file of a question gives its id once, the first time that it is noted.
pub proof fn lemma_noted_once(seen: Seq<Seq<char>>, id: Seq<char>)
    requires
        id.len() > 0,
    ensures
        ({
            let (after, given) = noted(seen, id + ".json"@);
            &&& !seen.contains(id) ==> given == Some(id) && after == seen.push(id)
            &&& seen.contains(id) ==> given is None && after == seen
            &&& noted(after, id + ".json"@) == (after, None::<Seq<char>>)
        }),
{
    reveal_strlit(".json");
    reveal_strlit("json");
    assert(id + ".json"@ =~= id.push('.') + "json"@);
    assert(!"json"@.contains('.'));
    paths::lemma_stem(id, "json"@);
    assert(seen.push(id)[seen.len() as int] == id);
}

/// Notes a file in the directory of questions, and gives the id of its question,
/// if it was not noted before.
pub fn note_request(seen: &mut Vec<String>, file_name: &str) -> (r: Option<String>)
    ensures
        (chars::texts(final(seen)@), chars::opt_text(r)) == noted(
            chars::texts(old(seen)@),
            file_name@,
        ),
        r is None ==> final(seen)@ == old(seen)@,
{
    let id = file_stem(file_name);
    if holds_text(seen, id.as_str()) {
        None
    } else {
        push_text(seen, id.as_str());
        Some(id)
    }
}

/// The name of a kind of question.
pub open spec fn kind_name(kind: PromptKind) -> Seq<char> {
    match kind {
        PromptKind::Password => "password"@,
        PromptKind::KeyPassword => "keyPassword"@,
        PromptKind::VerificationCode => "verificationCode"@,
        PromptKind::Unknown => "unknown"@,
    }
}

/// Whether the user may have the answer to a question of a kind kept.
pub open spec fn may_remember(kind: PromptKind) -> bool {
    kind == PromptKind::Password || kind == PromptKind::KeyPassword
}

/// The user is offered to have an answer kept exactly where it would be; the name of a kind
/// of question is that of the secret that is kept for it.
pub proof fn lemma_kinds(kind: PromptKind, path: Seq<char>)
    requires
        trim::trim(path) == path,
        path.len() > 0,
    ensures
        may_remember(kind) <==> kept_kind(kind, Some(path)) is Some,
        kept_kind(kind, Some(path)) matches Some(kept) ==> credentials::named_kind(
            kind_name(kind),
            Some(path),
        ) == Ok::<KindView, Seq<char>>(kept),
        kept_kind(kind, Some(path)) is None ==> credentials::named_kind(
            kind_name(kind),
            Some(path),
        ) is Err,
        kind_name(PromptKind::VerificationCode) == "verificationCode"@,
        kind_name(PromptKind::Unknown) == "unknown"@,
{
    reveal_strlit("password");
    reveal_strlit("keyPassword");
    reveal_strlit("verificationCode");
    reveal_strlit("unknown");
    assert("password"@.len() != "keyPassword"@.len());
    assert("password"@.len() != "verificationCode"@.len());
    assert("password"@.len() != "unknown"@.len());
    assert("keyPassword"@.len() != "verificationCode"@.len());
    assert("keyPassword"@.len() != "unknown"@.len());
    assert("verificationCode"@.len() != "unknown"@.len());
}

/// The name of a kind of question.
pub fn prompt_kind_name(kind: PromptKind) -> (r: &'static str)
    ensures
        r@ == kind_name(kind),
{
    match kind {
        PromptKind::Password => "password",
        PromptKind::KeyPassword => "keyPassword",
        PromptKind::VerificationCode => "verificationCode",
        PromptKind::Unknown => "unknown",
    }
}

/// A question of the given kind as the window shows it.
fn payload_of_kind(session_id: &str, request: &AskpassRequest, kind: PromptKind) -> (r:
    AskpassPromptPayload)
    ensures
        r.session_id@ == session_id@,
        r.request_id@ == request.id@,
        r.profile_id@ == request.profile_id@,
        r.prompt@ == request.prompt@,
        r.kind@ == kind_name(kind),
        r.remember_allowed == may_remember(kind),
{
    AskpassPromptPayload {
        session_id: session_id.to_string(),
        request_id: request.id.clone(),
        profile_id: request.profile_id.clone(),
        prompt: request.prompt.clone(),
        kind: prompt_kind_name(kind).to_string(),
        remember_allowed: matches!(kind, PromptKind::Password | PromptKind::KeyPassword),
    }
}

/// A question as the window shows it.
pub fn prompt_payload(session_id: &str, request: &AskpassRequest) -> (r: AskpassPromptPayload)
    ensures
        ({
            let kind = asked(*request);
            &&& r.session_id@ == session_id@
            &&& r.request_id@ == request.id@
            &&& r.profile_id@ == request.profile_id@
            &&& r.prompt@ == request.prompt@
            &&& r.kind@ == kind_name(kind)
            &&& r.remember_allowed == may_remember(kind)
        }),
{
    payload_of_kind(session_id, request, classify_prompt(request.prompt.as_str()))
}

/// The directory of questions.
pub fn requests_dir(session_dir: &str) -> (r: String)
    ensures
        r@ == paths::join(session_dir@, "requests"@),
{
    join_path(session_dir, "requests")
}

/// The directory of answers.
pub fn responses_dir(session_dir: &str) -> (r: String)
    ensures
        r@ == paths::join(session_dir@, "responses"@),
{
    join_path(session_dir, "responses")
}

/// The file of a question.
pub open spec fn question_file(session_dir: Seq<char>, request_id: Seq<char>) -> Seq<char> {
    paths::join2(session_dir, "requests"@, request_id + ".json"@)
}

/// A question and its answer stand under the same name in two directories; two questions
/// stand under two names.
pub proof fn lemma_question_files(session_dir: Seq<char>, a: Seq<char>, b: Seq<char>)
    requires
        a.len() > 0 && a[0] != '/',
        b.len() > 0 && b[0] != '/',
    ensures
        question_file(session_dir, a) == paths::join(
            paths::join(session_dir, "requests"@),
            a + ".json"@,
        ),
        answer_file(session_dir, a) == paths::join(
            paths::join(session_dir, "responses"@),
            a + ".json"@,
        ),
        question_file(session_dir, a) == question_file(session_dir, b) ==> a == b,
        answer_file(session_dir, a) == answer_file(session_dir, b) ==> a == b,
{
    reveal_strlit(".json");
    let (x, y) = (a + ".json"@, b + ".json"@);
    assert(x[0] == a[0] && y[0] == b[0]);
    assert(x.take(x.len() - 5) =~= a && y.take(y.len() - 5) =~= b);
    if question_file(session_dir, a) == question_file(session_dir, b) {
        paths::lemma_join_tells_apart(paths::join(session_dir, "requests"@), x, y);
    }
    if answer_file(session_dir, a) == answer_file(session_dir, b) {
        paths::lemma_join_tells_apart(paths::join(session_dir, "responses"@), x, y);
    }
}

/// The file of a question.
pub fn request_path(session_dir: &str, request_id: &str) -> (r: String)
    ensures
        r@ == question_file(session_dir@, request_id@),
{
    let dir = requests_dir(session_dir);
    let name = cat2(request_id, ".json");
    join_path(dir.as_str(), name.as_str())
}

/// The file of an answer.
pub fn response_path(session_dir: &str, request_id: &str) -> (r: String)
    ensures
        r@ == answer_file(session_dir@, request_id@),
{
    let dir = responses_dir(session_dir);
    let name = cat2(request_id, ".json");
    join_path(dir.as_str(), name.as_str())
}

/// The file that the process `pid` writes before it takes the place of the file of
/// a question or an answer.
pub fn temp_path(path: &str, pid: u32) -> (r: String)
    ensures
        r@ == path@ + (if search::ends(path@, "/.json"@) || path@ == ".json"@ {
            ".json.tmp."@
        } else {
            ".tmp."@
        }) + number::decimal(pid as nat),
{
    let id = number_text(pid as u64);
    if finishes(path, "/.json") || chars::same(path, ".json") {
        cat3(path, ".json.tmp.", id.as_str())
    } else {
        cat3(path, ".tmp.", id.as_str())
    }
}

/// A variable that is not set, or blank, counts as missing; any other is taken as it is.
pub proof fn lemma_filled(text: Seq<char>)
    ensures
        !trim::is_blank(text) ==> filled(Some(text)) == Some(text),
        trim::is_blank(text) ==> filled(Some(text)) is None,
        filled(None) is None,
{
}

} // verus!
