//! The sandbox on this machine: where it is, whether it runs, and how it is reached.

use vstd::prelude::*;

use crate::desktop::shown::{self, first_http_url};
use crate::json::{self, parse_json, Json};
use crate::paths::{self, join_path2};
use crate::text::chars::cat2;
use crate::text::encode::{self, lossy_text};
use crate::text::number::{self, number_text};
use crate::text::split;

verus! {

/// The home directory of the sandbox.
pub open spec fn home_dir(config_dir: Seq<char>) -> Seq<char> {
    paths::join2(config_dir, "sandbox"@, "home"@)
}

/// A log of this program.
pub open spec fn log_file(config_dir: Seq<char>, name: Seq<char>) -> Seq<char> {
    paths::join2(config_dir, "logs"@, name)
}

/// The address of the sandbox, by what its program printed, if it was run.
pub open spec fn url_of(port: u16, stdout: Option<Seq<char>>) -> Seq<char> {
    match stdout {
        Some(text) => match shown::first_address(split::lines(text)) {
            Some(url) => url,
            None => plain_url(port),
        },
        None => plain_url(port),
    }
}

/// Whether the sandbox of this program runs.
pub open spec fn runs(says: Option<Result<json::Tree, Seq<char>>>, healthy: bool) -> bool {
    match says {
        None => healthy,
        Some(parsed) => says_running(parsed) && healthy,
    }
}

/// The sandbox has a home of its own, and the logs a directory of theirs.
pub proof fn lemma_places(config_dir: Seq<char>, name: Seq<char>)
    ensures
        home_dir(config_dir) == paths::join(paths::join(config_dir, "sandbox"@), "home"@),
        log_file(config_dir, name) == paths::join(paths::join(config_dir, "logs"@), name),
{
}

/// The sandbox is reached at the address that its program printed, and else at its port on
/// this machine.
pub proof fn lemma_sandbox_url(port: u16, stdout: Seq<char>, url: Seq<char>)
    ensures
        shown::first_address(split::lines(stdout)) == Some(url) ==> url_of(port, Some(stdout))
            == url,
        shown::first_address(split::lines(stdout)) is None ==> url_of(port, Some(stdout))
            == "http://127.0.0.1:"@ + number::decimal(port as nat),
        url_of(port, None) == "http://127.0.0.1:"@ + number::decimal(port as nat),
{
}

/// A sandbox runs only if something answers on its port; where its program was run, it
/// must say so too.
pub proof fn lemma_runs(said: json::Tree, error: Seq<char>, healthy: bool)
    ensures
        runs(None, healthy) == healthy,
        runs(Some(Ok(said)), healthy) ==> healthy,
        json::bool_field(said, "running"@) == Some(true) ==> runs(Some(Ok(said)), healthy)
            == healthy,
        json::bool_field(said, "running"@) != Some(true) ==> !runs(Some(Ok(said)), healthy),
        !runs(Some(Err(error)), healthy),
{
}

/// The home directory of the sandbox.
pub fn sandbox_home(config_dir: &str) -> (r: String)
    ensures
        r@ == home_dir(config_dir@),
{
    join_path2(config_dir, "sandbox", "home")
}

/// A log of this program.
pub fn log_path(config_dir: &str, name: &str) -> (r: String)
    ensures
        r@ == log_file(config_dir@, name@),
{
    join_path2(config_dir, "logs", name)
}

/// The address of a sandbox that named no other.
pub open spec fn plain_url(port: u16) -> Seq<char> {
    "http://127.0.0.1:"@ + number::decimal(port as nat)
}

/// The address of the sandbox: the first one that its program printed, if it was run and
/// printed one.
pub fn sandbox_url(port: u16, stdout: Option<&[u8]>) -> (r: String)
    ensures
        r@ == url_of(
            port,
            match stdout {
                Some(b) => Some(encode::decoded(b@)),
                None => None,
            },
        ),
{
    if let Some(b) = stdout {
        let text = lossy_text(b);
        if let Some(url) = first_http_url(text.as_str()) {
            return url;
        }
    }
    let shown = number_text(port as u64);
    cat2("http://127.0.0.1:", shown.as_str())
}

/// What the program of the sandbox says of it.
#[derive(Debug)]
pub enum DaemonAnswer {
    /// The program is not installed, or could not be run.
    Missing,
    /// It printed this.
    Printed(Vec<u8>),
}

/// Whether the program of the sandbox says that it runs, by what its output parses to.
/// Output that does not parse says that it does not.
pub open spec fn says_running(parsed: Result<json::Tree, Seq<char>>) -> bool {
    match parsed {
        Ok(t) => json::bool_field(t, "running"@) == Some(true),
        Err(_) => false,
    }
}

/// Whether the program of the sandbox says that it runs, by what its output parses to.
pub fn running_in(parsed: Result<Json, String>) -> (r: bool)
    ensures
        r == says_running(
            match parsed {
                Ok(j) => Ok(j@),
                Err(e) => Err(e@),
            },
        ),
{
    match parsed {
        Ok(j) => match j.get_bool("running") {
            Some(b) => b,
            None => false,
        },
        Err(_) => false,
    }
}

/// Whether the sandbox of this program runs: something answers on its port, and its
/// program, if it was run, says so too.
pub fn sandbox_running_ours(answer: DaemonAnswer, healthy: bool) -> (r: bool)
    ensures
        r == runs(
            match answer {
                DaemonAnswer::Missing => None,
                DaemonAnswer::Printed(b) => Some(json::json_text(encode::decoded(b@))),
            },
            healthy,
        ),
{
    match answer {
        DaemonAnswer::Missing => healthy,
        DaemonAnswer::Printed(b) => {
            let text = lossy_text(b.as_slice());
            let parsed = parse_json(text.as_str());
            running_in(parsed) && healthy
        },
    }
}

} // verus!
