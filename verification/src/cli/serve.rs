//! The session mode of a helper: one request in each line, one reply in each line.

use vstd::prelude::*;

use crate::cli::types::{
    self, CliEnvelope, CliError, CliServeRequest, CliServeResponse, EnvelopeView, ResponseView,
};
use crate::text::chars::{self, cat2};
use crate::text::search;
use crate::text::trim::{self, trimmed};

verus! {

/// What is done with a line.
#[derive(Debug)]
pub enum ServeStep {
    /// The line is blank.
    Skip,
    /// The line holds a request, to be read from this text.
    Read(String),
}

/// The request that a line holds, if it is not blank.
pub open spec fn request_in(line: Seq<char>) -> Option<Seq<char>> {
    if trim::is_blank(line) {
        None
    } else {
        Some(trim::trim(line))
    }
}

/// What is done with a line.
pub fn serve_line(line: &str) -> (r: ServeStep)
    ensures
        match request_in(line@) {
            Some(request) => r matches ServeStep::Read(text) && text@ == request,
            None => r is Skip,
        },
{
    let text = trimmed(line);
    if text.as_str().is_empty() {
        ServeStep::Skip
    } else {
        ServeStep::Read(text)
    }
}

/// The reply to a request that cannot be read.
pub open spec fn no_request(error: Seq<char>) -> ResponseView {
    ResponseView {
        id: "unknown"@,
        reply: types::failure("parse_error"@, "无法解析请求 JSON："@ + error),
    }
}

/// The reply to a request: what the command replied, under the id of the request.
pub open spec fn reply_to(id: Seq<char>, reply: EnvelopeView) -> ResponseView {
    ResponseView { id, reply }
}

/// A request that cannot be read is answered by a failure, under no id of a request, with
/// what is wrong with it.
pub proof fn lemma_unreadable(error: Seq<char>)
    ensures
        !no_request(error).reply.ok,
        no_request(error).id == "unknown"@,
        no_request(error).reply.error is Some,
        no_request(error).reply.error->0.code == "parse_error"@,
        search::ends(no_request(error).reply.error->0.message, error),
{
    search::lemma_ends_joined("无法解析请求 JSON："@, error);
}

/// What a command replied is sent as it is, under the id of the request that it answers.
pub proof fn lemma_reply_to(id: Seq<char>, reply: EnvelopeView)
    ensures
        reply_to(id, reply).id == id,
        reply_to(id, reply).reply == reply,
{
}

/// A request is read from its line whatever white space is around it; a line of white
/// space alone holds none.
pub proof fn lemma_request_in(before: Seq<char>, request: Seq<char>, after: Seq<char>)
    requires
        trim::is_blank(before),
        trim::is_blank(after),
        request.len() > 0,
        !chars::is_space(request[0]) && !chars::is_space(request.last()),
    ensures
        request_in(before + request + after) == Some(request),
        request_in(before) is None,
{
    trim::lemma_trim_around(before, request, after);
}

/// The reply to a request that cannot be read.
pub fn unreadable_request(error: &str) -> (r: CliServeResponse)
    ensures
        r@ == no_request(error@),
{
    CliServeResponse {
        id: "unknown".to_string(),
        ok: false,
        data: None,
        error: Some(
            CliError {
                code: "parse_error".to_string(),
                message: cat2("无法解析请求 JSON：", error),
                details: None,
                suggestion: None,
            },
        ),
    }
}

/// The reply to a request: what the command replied, under the id of the request.
pub fn respond(request: CliServeRequest, result: CliEnvelope) -> (r: CliServeResponse)
    ensures
        r@ == reply_to(request.id@, result@),
{
    CliServeResponse { id: request.id, ok: result.ok, data: result.data, error: result.error }
}

} // verus!
