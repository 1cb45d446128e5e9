//! The processes that a helper started: what is noted of each, and its logs.

use vstd::prelude::*;

use crate::paths::{self, file_stem, join_path, join_path2};
use crate::text::chars::{self, cat2};
use crate::text::split::{self, split_lines};

verus! {

/// What is noted of a process.
#[derive(Debug)]
pub struct ProcessRecord {
    pub pid: u32,
    /// When it was started, in seconds of Unix time.
    pub started_at: i64,
    pub command: String,
    pub port: u16,
    /// What its health check is asked with.
    pub secret: Option<String>,
}

/// Whether a process is running.
#[derive(Debug, Clone, Copy, PartialEq, Eq, Structural)]
pub enum ProcessStatus {
    Running(u32),
    Stopped,
    Unknown,
}

/// The files of one process.
#[derive(Debug)]
pub struct ProcessManager {
    /// The name of the file with the record, without its directory.
    pub pid_name: String,
    /// The directory of that file.
    pub config_dir: String,
}

/// One step of making room for a new log.
#[derive(Debug)]
pub enum RotateStep {
    Remove { path: String },
    /// `from` becomes `to`, in place of what `to` was; nothing happens, if there is no
    /// `from`.
    Rename { from: String, to: String },
}

/// The contents of a step.
pub enum RotateView {
    Remove { path: Seq<char> },
    Rename { from: Seq<char>, to: Seq<char> },
}

impl View for RotateStep {
    type V = RotateView;

    open spec fn view(&self) -> RotateView {
        match *self {
            RotateStep::Remove { path } => RotateView::Remove { path: path@ },
            RotateStep::Rename { from, to } => RotateView::Rename { from: from@, to: to@ },
        }
    }
}

/// The contents of a list of steps.
pub open spec fn steps(v: Seq<RotateStep>) -> Seq<RotateView> {
    Seq::new(v.len(), |i: int| v[i]@)
}

/// The steps that make room for a new log at `path`: up to three old ones are kept.
pub open spec fn rotation(path: Seq<char>) -> Seq<RotateView> {
    seq![
        RotateView::Remove { path: path + ".3"@ },
        RotateView::Rename { from: path + ".2"@, to: path + ".3"@ },
        RotateView::Rename { from: path + ".1"@, to: path + ".2"@ },
        RotateView::Rename { from: path, to: path + ".1"@ },
    ]
}

/// What a step makes of the files, here by their paths.
pub open spec fn after_step(files: Map<Seq<char>, Seq<u8>>, step: RotateView) -> Map<
    Seq<char>,
    Seq<u8>,
> {
    match step {
        RotateView::Remove { path } => files.remove(path),
        RotateView::Rename { from, to } => if files.contains_key(from) {
            files.insert(to, files[from]).remove(from)
        } else {
            files
        },
    }
}

/// What the first `n` steps of a rotation make of the files.
pub open spec fn after_rotation(files: Map<Seq<char>, Seq<u8>>, path: Seq<char>) -> Map<
    Seq<char>,
    Seq<u8>,
> {
    let s = rotation(path);
    after_step(after_step(after_step(after_step(files, s[0]), s[1]), s[2]), s[3])
}

/// A rotation loses nothing but the oldest of three logs: each log moves to the place
/// of the next older one, and no other file changes.
pub proof fn lemma_rotation(files: Map<Seq<char>, Seq<u8>>, path: Seq<char>, other: Seq<char>)
    requires
        files.contains_key(path),
        other != path,
        other != path + ".1"@,
        other != path + ".2"@,
        other != path + ".3"@,
    ensures
        ({
            let after = after_rotation(files, path);
            &&& !after.contains_key(path)
            &&& after.contains_key(path + ".1"@)
            &&& after[path + ".1"@] == files[path]
            &&& files.contains_key(path + ".1"@) ==> after.contains_key(path + ".2"@) && after[path
                + ".2"@] == files[path + ".1"@]
            &&& files.contains_key(path + ".2"@) ==> after.contains_key(path + ".3"@) && after[path
                + ".3"@] == files[path + ".2"@]
            &&& after.contains_key(other) == files.contains_key(other)
            &&& files.contains_key(other) ==> after[other] == files[other]
        }),
{
    reveal_strlit(".1");
    reveal_strlit(".2");
    reveal_strlit(".3");
    let n = path.len() as int;
    let p1 = path + ".1"@;
    let p2 = path + ".2"@;
    let p3 = path + ".3"@;
    assert(p1[n + 1] == '1' && p2[n + 1] == '2' && p3[n + 1] == '3');
    assert(path.len() != p1.len());
    assert(path.len() != p2.len());
    assert(path.len() != p3.len());
}

/// Whether a process is running, from what is noted of it and from whether a process
/// with its number exists.
pub open spec fn status_of(noted: Option<u32>, alive: bool) -> ProcessStatus {
    match noted {
        Some(pid) if alive => ProcessStatus::Running(pid),
        _ => ProcessStatus::Stopped,
    }
}

/// Whether what is noted of a process is out of date: it is, if no process with its
/// number exists.
pub open spec fn out_of_date(noted: Option<u32>, alive: bool) -> bool {
    noted is Some && !alive
}

/// Whether a process is running, where processes cannot be looked for.
pub open spec fn unprobed_status(noted: bool) -> ProcessStatus {
    if noted {
        ProcessStatus::Unknown
    } else {
        ProcessStatus::Stopped
    }
}

/// Whether the record of a process with a status is removed.
pub open spec fn drops_record(status: ProcessStatus) -> bool {
    !(status is Running)
}

/// The path of the log of the process with the record in a file.
pub open spec fn log_file(config_dir: Seq<char>, pid_name: Seq<char>) -> Seq<char> {
    paths::join2(config_dir, "logs"@, paths::stem(pid_name) + ".log"@)
}

/// The steps that make room for a new log at a path.
pub open spec fn due_rotation(path: Seq<char>, size: Option<u64>, max_bytes: u64) -> Seq<
    RotateView,
> {
    match size {
        Some(n) if n > max_bytes => rotation(path),
        _ => Seq::empty(),
    }
}

/// The last lines of a log; none, if it cannot be read.
pub open spec fn last_lines(content: Option<Seq<char>>, lines: nat) -> Seq<Seq<char>> {
    match content {
        Some(text) => split::last_pieces(split::lines(text), lines),
        None => Seq::empty(),
    }
}

impl ProcessManager {
    /// The files of the process with the given name.
    pub fn new(name: &str, config_dir: &str) -> (r: Self)
        ensures
            r.pid_name@ == name@ + ".pid"@,
            r.config_dir@ == config_dir@,
    {
        ProcessManager { pid_name: cat2(name, ".pid"), config_dir: config_dir.to_string() }
    }

    /// The path of the file with the record.
    pub fn pid_file(&self) -> (r: String)
        ensures
            r@ == paths::join(self.config_dir@, self.pid_name@),
    {
        join_path(self.config_dir.as_str(), self.pid_name.as_str())
    }

    /// The record of a process that was started at the time `now`.
    pub fn write_pid(&self, pid: u32, port: u16, command: &str, secret: Option<&str>, now: i64) -> (r:
        ProcessRecord)
        ensures
            r.pid == pid,
            r.started_at == now,
            r.command@ == command@,
            r.port == port,
            chars::opt_text(r.secret) == chars::opt_str(secret),
    {
        ProcessRecord {
            pid,
            started_at: now,
            command: command.to_string(),
            port,
            secret: match secret {
                Some(s) => Some(s.to_string()),
                None => None,
            },
        }
    }

    /// Whether a process is running, and whether its record is out of date: it is, if
    /// no process with its number exists.
    pub fn status(&self, record: Option<&ProcessRecord>, alive: bool) -> (r: (ProcessStatus, bool))
        ensures
            r.0 == status_of(
                match record {
                    Some(p) => Some(p.pid),
                    None => None,
                },
                alive,
            ),
            r.1 == out_of_date(
                match record {
                    Some(p) => Some(p.pid),
                    None => None,
                },
                alive,
            ),
    {
        match record {
            Some(p) => if alive {
                (ProcessStatus::Running(p.pid), false)
            } else {
                (ProcessStatus::Stopped, true)
            },
            None => (ProcessStatus::Stopped, false),
        }
    }

    /// Whether a process is running, on a system where processes cannot be looked for:
    /// that is not known of a process that is noted.
    pub fn status_unprobed(&self, noted: bool) -> (r: ProcessStatus)
        ensures
            r == unprobed_status(noted),
    {
        if noted {
            ProcessStatus::Unknown
        } else {
            ProcessStatus::Stopped
        }
    }

    /// Whether the record is removed: not while the process is running.
    pub fn cleanup(&self, status: ProcessStatus) -> (r: bool)
        ensures
            r == drops_record(status),
    {
        !matches!(status, ProcessStatus::Running(_))
    }

    /// The path of the log.
    pub fn log_path(&self) -> (r: String)
        ensures
            r@ == log_file(self.config_dir@, self.pid_name@),
    {
        let name = file_stem(self.pid_name.as_str());
        let file = cat2(name.as_str(), ".log");
        join_path2(self.config_dir.as_str(), "logs", file.as_str())
    }

    /// The last lines of a log; none, if it cannot be read.
    pub fn tail_logs(&self, content: Option<&str>, lines: usize) -> (r: Vec<String>)
        ensures
            chars::texts(r@) == last_lines(chars::opt_str(content), lines as nat),
    {
        let mut out: Vec<String> = Vec::new();
        match content {
            Some(text) => {
                let all = split_lines(text);
                let n = all.len();
                let start: usize = if n <= lines {
                    0
                } else {
                    n - lines
                };
                let ghost t = split::lines(text@);
                let mut i: usize = start;
                assert(chars::texts(out@) =~= t.subrange(start as int, start as int));
                while i < n
                    invariant
                        start <= i <= n,
                        n == all@.len(),
                        t == chars::texts(all@),
                        chars::texts(out@) == t.subrange(start as int, i as int),
                    decreases n - i,
                {
                    chars::push_text(&mut out, all[i].as_str());
                    i = i + 1;
                    assert(chars::texts(out@) =~= t.subrange(start as int, i as int));
                }
                assert(t.subrange(start as int, n as int) =~= split::last_pieces(t, lines as nat));
            },
            None => {
                assert(chars::texts(out@) =~= Seq::empty());
            },
        }
        out
    }

    /// The steps that make room for a new log, where the log has `size` bytes, if it is
    /// there at all, and may have `max_bytes`.
    pub fn rotate_logs(&self, size: Option<u64>, max_bytes: u64) -> (r: Vec<RotateStep>)
        ensures
            steps(r@) == due_rotation(
                log_file(self.config_dir@, self.pid_name@),
                size,
                max_bytes,
            ),
    {
        let mut v: Vec<RotateStep> = Vec::new();
        let due = match size {
            Some(n) => n > max_bytes,
            None => false,
        };
        if due {
            let path = self.log_path();
            v.push(RotateStep::Remove { path: cat2(path.as_str(), ".3") });
            v.push(
                RotateStep::Rename { from: cat2(path.as_str(), ".2"), to: cat2(path.as_str(), ".3") },
            );
            v.push(
                RotateStep::Rename { from: cat2(path.as_str(), ".1"), to: cat2(path.as_str(), ".2") },
            );
            let first = cat2(path.as_str(), ".1");
            let ghost p = path@;
            v.push(RotateStep::Rename { from: path, to: first });
            assert(steps(v@) =~= rotation(p));
        } else {
            assert(steps(v@) =~= Seq::empty());
        }
        v
    }
}

/// What is noted of a proxy.
pub open spec fn is_proxy_record(
    r: ProcessRecord,
    pid: u32,
    port: u16,
    secret: Seq<char>,
    now: i64,
) -> bool {
    &&& r.pid == pid
    &&& r.started_at == now
    &&& r.command@ == "python3 csswitch_proxy.py"@
    &&& r.port == port
    &&& chars::opt_text(r.secret) == Some(secret)
}

/// The path of the record of the process with a name.
pub open spec fn record_path(config_dir: Seq<char>, name: Seq<char>) -> Seq<char> {
    paths::join(config_dir, name + ".pid"@)
}

/// A record that is noted, where records are found by their paths, is the one that is
/// read back; it takes the place of an earlier record of the proxy, and that of the
/// sandbox stays as it is.
pub proof fn lemma_noted_record(
    records: Map<Seq<char>, ProcessRecord>,
    config_dir: Seq<char>,
    r: ProcessRecord,
)
    ensures
        ({
            let after = records.insert(record_path(config_dir, "proxy"@), r);
            let other = record_path(config_dir, "sandbox"@);
            &&& after.contains_key(record_path(config_dir, "proxy"@))
            &&& after[record_path(config_dir, "proxy"@)] == r
            &&& after.contains_key(other) == records.contains_key(other)
            &&& records.contains_key(other) ==> after[other] == records[other]
        }),
{
    reveal_strlit("proxy");
    reveal_strlit("sandbox");
    reveal_strlit(".pid");
    assert(record_path(config_dir, "proxy"@).len() != record_path(config_dir, "sandbox"@).len());
}

/// The record of a proxy that was started.
pub fn record_proxy_start(config_dir: &str, pid: u32, port: u16, secret: &str, now: i64) -> (r:
    ProcessRecord)
    ensures
        is_proxy_record(r, pid, port, secret@, now),
{
    let pm = ProcessManager::new("proxy", config_dir);
    pm.write_pid(pid, port, "python3 csswitch_proxy.py", Some(secret), now)
}

/// Whether the record of the proxy is removed after it was stopped.
pub fn record_proxy_stop(config_dir: &str, status: ProcessStatus) -> (r: bool)
    ensures
        r == drops_record(status),
{
    let pm = ProcessManager::new("proxy", config_dir);
    pm.cleanup(status)
}

/// A process that is noted and exists is running, under the number that is noted; one that
/// no longer exists is stopped, and its record is out of date and removed. A record is kept
/// while its process runs, and only then. Where nothing can be looked for, a noted process
/// is neither.
pub proof fn lemma_status(pid: u32, alive: bool)
    ensures
        status_of(Some(pid), true) == ProcessStatus::Running(pid),
        status_of(Some(pid), false) == ProcessStatus::Stopped,
        status_of(None, alive) == ProcessStatus::Stopped,
        out_of_date(Some(pid), false) && !out_of_date(Some(pid), true) && !out_of_date(None, alive),
        !drops_record(status_of(Some(pid), true)),
        drops_record(status_of(Some(pid), false)),
        unprobed_status(true) == ProcessStatus::Unknown,
        unprobed_status(false) == ProcessStatus::Stopped,
{
}

/// The log of a process stands under its name among the logs, beside its record.
pub proof fn lemma_log_file(config_dir: Seq<char>, name: Seq<char>)
    requires
        name.len() > 0,
    ensures
        log_file(config_dir, name + ".pid"@) == paths::join(
            paths::join(config_dir, "logs"@),
            name + ".log"@,
        ),
{
    reveal_strlit(".pid");
    reveal_strlit("pid");
    assert(name + ".pid"@ =~= name.push('.') + "pid"@);
    assert(!"pid"@.contains('.'));
    paths::lemma_stem(name, "pid"@);
}

/// A log is moved out of the way exactly if it has more bytes than it may have.
pub proof fn lemma_due_rotation(path: Seq<char>, size: u64, max_bytes: u64)
    ensures
        size > max_bytes ==> due_rotation(path, Some(size), max_bytes) == rotation(path),
        size <= max_bytes ==> due_rotation(path, Some(size), max_bytes).len() == 0,
        due_rotation(path, None, max_bytes).len() == 0,
        rotation(path).len() == 4,
{
}

/// Of a log of lines without line breaks the last ones are shown.
pub proof fn lemma_last_lines(earlier: Seq<Seq<char>>, last: Seq<Seq<char>>)
    requires
        last.len() > 0,
        split::lines(split::join(earlier + last, "\n"@)) == earlier + last,
    ensures
        last_lines(Some(split::join(earlier + last, "\n"@)), last.len()) == last,
        last_lines(None, last.len()).len() == 0,
{
    split::lemma_last_pieces(earlier, last);
}

/// What is noted of a proxy is its own number, port and secret, and when it was started; it
/// is then found running under that number, and its health is asked with that secret.
pub proof fn lemma_proxy_record(
    r: ProcessRecord,
    pid: u32,
    port: u16,
    secret: Seq<char>,
    now: i64,
)
    requires
        is_proxy_record(r, pid, port, secret, now),
    ensures
        status_of(Some(r.pid), true) == ProcessStatus::Running(pid),
        r.port == port,
        r.started_at == now,
        r.secret is Some && r.secret->0@ == secret,
{
}

/// The record of a process stands under its name, with the ending of a record.
pub proof fn lemma_record_path(config_dir: Seq<char>, name: Seq<char>)
    ensures
        record_path(config_dir, name) == paths::join(config_dir, name + ".pid"@),
{
}

} // verus!
