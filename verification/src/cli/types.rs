//! The replies of a helper.

use vstd::prelude::*;

use crate::json::{self, Json, Tree};
use crate::text::chars::{self, cat2, cat4};
use crate::text::search;

verus! {

/// The reply to one command.
#[derive(Debug)]
pub struct CliEnvelope {
    pub ok: bool,
    pub data: Option<Json>,
    pub error: Option<CliError>,
}

/// A request in session mode.
#[derive(Debug)]
pub struct CliServeRequest {
    pub id: String,
    pub command: Vec<String>,
}

/// The reply to a request in session mode.
#[derive(Debug)]
pub struct CliServeResponse {
    pub id: String,
    pub ok: bool,
    pub data: Option<Json>,
    pub error: Option<CliError>,
}

/// Why a command failed.
#[derive(Debug)]
pub struct CliError {
    pub code: String,
    pub message: String,
    pub details: Option<String>,
    pub suggestion: Option<String>,
}

/// The contents of an error.
pub struct CliErrorView {
    pub code: Seq<char>,
    pub message: Seq<char>,
    pub details: Option<Seq<char>>,
    pub suggestion: Option<Seq<char>>,
}

impl View for CliError {
    type V = CliErrorView;

    open spec fn view(&self) -> CliErrorView {
        CliErrorView {
            code: self.code@,
            message: self.message@,
            details: chars::opt_text(self.details),
            suggestion: chars::opt_text(self.suggestion),
        }
    }
}

/// The contents of an optional error.
pub open spec fn opt_error(e: Option<CliError>) -> Option<CliErrorView> {
    match e {
        Some(e) => Some(e@),
        None => None,
    }
}

/// The contents of a reply.
pub struct EnvelopeView {
    pub ok: bool,
    pub data: Option<Tree>,
    pub error: Option<CliErrorView>,
}

impl View for CliEnvelope {
    type V = EnvelopeView;

    open spec fn view(&self) -> EnvelopeView {
        EnvelopeView {
            ok: self.ok,
            data: json::opt_tree(self.data),
            error: opt_error(self.error),
        }
    }
}

/// The contents of a reply in session mode.
pub struct ResponseView {
    pub id: Seq<char>,
    pub reply: EnvelopeView,
}

impl View for CliServeResponse {
    type V = ResponseView;

    open spec fn view(&self) -> ResponseView {
        ResponseView {
            id: self.id@,
            reply: EnvelopeView {
                ok: self.ok,
                data: json::opt_tree(self.data),
                error: opt_error(self.error),
            },
        }
    }
}

/// The reply of a command that succeeded.
pub open spec fn success(data: Tree) -> EnvelopeView {
    EnvelopeView { ok: true, data: Some(data), error: None }
}

/// The reply of a command that succeeded and has nothing to report.
pub open spec fn silent_success() -> EnvelopeView {
    EnvelopeView { ok: true, data: None, error: None }
}

/// The reply of a command that failed.
pub open spec fn failure(code: Seq<char>, message: Seq<char>) -> EnvelopeView {
    EnvelopeView {
        ok: false,
        data: None,
        error: Some(CliErrorView { code, message, details: None, suggestion: None }),
    }
}

/// The reply of a command that failed, with a suggestion.
pub open spec fn failure_with_hint(
    code: Seq<char>,
    message: Seq<char>,
    suggestion: Seq<char>,
) -> EnvelopeView {
    EnvelopeView {
        ok: false,
        data: None,
        error: Some(
            CliErrorView { code, message, details: None, suggestion: Some(suggestion) },
        ),
    }
}

/// What a person is told of an error.
pub open spec fn shown_error(e: CliErrorView) -> Seq<Seq<char>> {
    let head = "错误 ["@ + e.code + "]: "@ + e.message;
    match e.suggestion {
        Some(s) => seq![head, "建议: "@ + s],
        None => seq![head],
    }
}

/// A reply is a success with what is reported or a failure with its error, never both; a
/// failure keeps its code, its message and its suggestion apart.
pub proof fn lemma_replies(
    data: Tree,
    code: Seq<char>,
    message: Seq<char>,
    suggestion: Seq<char>,
)
    ensures
        success(data).ok && success(data).data == Some(data) && success(data).error is None,
        silent_success().ok && silent_success().data is None && silent_success().error is None,
        !failure(code, message).ok && failure(code, message).data is None,
        failure(code, message).error matches Some(e) && e.code == code && e.message == message
            && e.details is None && e.suggestion is None,
        !failure_with_hint(code, message, suggestion).ok,
        failure_with_hint(code, message, suggestion).data is None,
        failure_with_hint(code, message, suggestion).error matches Some(e) && e.code == code
            && e.message == message && e.details is None && e.suggestion == Some(suggestion),
{
}

/// An error is shown with its code in brackets before its message, and its suggestion, if
/// it has one, in a line of its own.
pub proof fn lemma_shown_error(e: CliErrorView)
    ensures
        shown_error(e).len() == if e.suggestion is Some {
            2nat
        } else {
            1nat
        },
        search::ends(shown_error(e)[0], "["@ + e.code + "]: "@ + e.message),
        e.suggestion matches Some(s) ==> search::ends(shown_error(e)[1], s),
{
    reveal_strlit("错误 [");
    reveal_strlit("错误 ");
    reveal_strlit("[");
    let tail = "["@ + e.code + "]: "@ + e.message;
    assert(shown_error(e)[0] =~= "错误 "@ + tail);
    search::lemma_ends_joined("错误 "@, tail);
    if let Some(s) = e.suggestion {
        search::lemma_ends_joined("建议: "@, s);
    }
}

impl CliEnvelope {
    /// The reply of a command that succeeded.
    pub fn ok(data: Json) -> (r: Self)
        ensures
            r@ == success(data@),
    {
        CliEnvelope { ok: true, data: Some(data), error: None }
    }

    /// The reply of a command that succeeded and has nothing to report.
    pub fn ok_empty() -> (r: Self)
        ensures
            r@ == silent_success(),
    {
        CliEnvelope { ok: true, data: None, error: None }
    }

    /// The reply of a command that failed.
    pub fn err(code: &str, message: &str) -> (r: Self)
        ensures
            r@ == failure(code@, message@),
    {
        CliEnvelope {
            ok: false,
            data: None,
            error: Some(
                CliError {
                    code: code.to_string(),
                    message: message.to_string(),
                    details: None,
                    suggestion: None,
                },
            ),
        }
    }

    /// The reply of a command that failed, with a suggestion.
    pub fn err_with_hint(code: &str, message: &str, suggestion: &str) -> (r: Self)
        ensures
            r@ == failure_with_hint(code@, message@, suggestion@),
    {
        CliEnvelope {
            ok: false,
            data: None,
            error: Some(
                CliError {
                    code: code.to_string(),
                    message: message.to_string(),
                    details: None,
                    suggestion: Some(suggestion.to_string()),
                },
            ),
        }
    }
}

impl CliError {
    /// What a person is told of an error: the error, then what to do about it, if that is
    /// known.
    pub fn shown(&self) -> (r: Vec<String>)
        ensures
            chars::texts(r@) == shown_error(self@),
    {
        let mut out: Vec<String> = Vec::new();
        let head = cat4("错误 [", self.code.as_str(), "]: ", self.message.as_str());
        out.push(head);
        let ghost first = head@;
        if let Some(s) = &self.suggestion {
            let hint = cat2("建议: ", s.as_str());
            out.push(hint);
            assert(chars::texts(out@) =~= seq![first, hint@]);
        } else {
            assert(chars::texts(out@) =~= seq![first]);
        }
        out
    }
}

} // verus!
