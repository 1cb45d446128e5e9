//! The list of known targets, as it is kept in one file.

use vstd::prelude::*;

use crate::paths::{self, join_path};
use crate::remote::types::{
    self, AuthView, HostView, RemoteAuthMethod, RemoteHostProfile, RemoteTargetKind,
};
use crate::text::chars::{cat2, cat4, chars_of, same};
use crate::text::number::{self, number_text};
use crate::text::search;
use crate::text::trim::{self, blank, trimmed};

verus! {

/// How long a writer waits for another one, in milliseconds.
pub const LOCK_TIMEOUT_MS: u128 = 5000;

/// How long a writer waits before it tries again, in milliseconds.
pub const LOCK_PAUSE_MS: u64 = 50;

/// `s` begins with `c`.
pub open spec fn begins_with(s: Seq<char>, c: char) -> bool {
    s.len() > 0 && s[0] == c
}

/// What is wrong with a profile; `None`, if nothing is.
pub open spec fn profile_fault(p: HostView) -> Option<Seq<char>> {
    if trim::is_blank(p.id) {
        Some("远程服务器 Profile ID 不得为空"@)
    } else if p.kind == RemoteTargetKind::Ssh && trim::is_blank(p.host) {
        Some("远程服务器地址不得为空"@)
    } else if p.kind == RemoteTargetKind::Ssh && p.port == 0 {
        Some("远程 SSH 端口不得为 0"@)
    } else if p.kind == RemoteTargetKind::Wsl && (p.distribution is None || trim::is_blank(
        p.distribution->0,
    )) {
        Some("WSL 发行版不得为空"@)
    } else if trim::is_blank(p.username) {
        Some("远程目标用户名不得为空"@)
    } else if trim::is_blank(p.helper_path) {
        Some("Helper 路径不得为空"@)
    } else if !begins_with(trim::trim(p.helper_path), '/') && !begins_with(
        trim::trim(p.helper_path),
        '~',
    ) {
        Some("Helper 路径应为绝对路径或以 ~ 开头："@ + trim::trim(p.helper_path))
    } else {
        match p.auth {
            AuthView::KeyFile { path, .. } if trim::is_blank(path) => Some(
                "选择私钥文件认证时，密钥路径不得为空"@,
            ),
            _ => None,
        }
    }
}

/// Nothing is wrong with any profile of the list.
pub open spec fn all_valid(v: Seq<HostView>) -> bool {
    forall|i: int| 0 <= i < v.len() ==> profile_fault(#[trigger] v[i]) is None
}

/// What is wrong with the first faulty profile of the list.
pub open spec fn first_fault(v: Seq<HostView>) -> Option<Seq<char>>
    decreases v.len(),
{
    if v.len() == 0 {
        None
    } else if profile_fault(v[0]) is Some {
        profile_fault(v[0])
    } else {
        first_fault(v.drop_first())
    }
}

/// Where the profile with the given id first stands; the length of the list, if
/// nowhere.
pub open spec fn place_of(v: Seq<HostView>, id: Seq<char>) -> int
    decreases v.len(),
{
    if v.len() == 0 || v[0].id == id {
        0
    } else {
        1 + place_of(v.drop_first(), id)
    }
}

/// The first profile with the given id.
pub open spec fn find(v: Seq<HostView>, id: Seq<char>) -> Option<HostView> {
    if place_of(v, id) < v.len() {
        Some(v[place_of(v, id)])
    } else {
        None
    }
}

/// The list with `p` in place of the first profile with its id, or else in front.
pub open spec fn upserted(v: Seq<HostView>, p: HostView) -> Seq<HostView> {
    if place_of(v, p.id) < v.len() {
        v.update(place_of(v, p.id), p)
    } else {
        seq![p] + v
    }
}

/// The list without the profiles with the given id.
pub open spec fn without(v: Seq<HostView>, id: Seq<char>) -> Seq<HostView>
    decreases v.len(),
{
    if v.len() == 0 {
        Seq::empty()
    } else if v.last().id == id {
        without(v.drop_last(), id)
    } else {
        without(v.drop_last(), id).push(v.last())
    }
}

/// No two profiles have the same id.
pub open spec fn unique_ids(v: Seq<HostView>) -> bool {
    forall|i: int, j: int| 0 <= i < j < v.len() ==> (#[trigger] v[i]).id != (#[trigger] v[j]).id
}

/// The place of an id is where a profile with it first stands.
proof fn lemma_place_of(v: Seq<HostView>, id: Seq<char>)
    ensures
        0 <= place_of(v, id) <= v.len(),
        place_of(v, id) < v.len() ==> v[place_of(v, id)].id == id,
        forall|i: int| 0 <= i < place_of(v, id) ==> (#[trigger] v[i]).id != id,
    decreases v.len(),
{
    if v.len() > 0 && v[0].id != id {
        lemma_place_of(v.drop_first(), id);
        assert forall|i: int| 0 <= i < place_of(v, id) implies (#[trigger] v[i]).id != id by {
            if i > 0 {
                assert(v[i] == v.drop_first()[i - 1]);
            }
        }
    }
}

/// A place with the properties of `lemma_place_of` is the place.
proof fn lemma_place_of_is(v: Seq<HostView>, id: Seq<char>, k: int)
    requires
        0 <= k <= v.len(),
        k < v.len() ==> v[k].id == id,
        forall|i: int| 0 <= i < k ==> (#[trigger] v[i]).id != id,
    ensures
        place_of(v, id) == k,
{
    lemma_place_of(v, id);
    if place_of(v, id) < k {
        assert(v[place_of(v, id)].id == id);
    }
}

/// What was stored last under an id is found under it, and what is found under
/// the other ids stays the same.
pub proof fn lemma_find_after_upsert(v: Seq<HostView>, p: HostView, id: Seq<char>)
    ensures
        find(upserted(v, p), p.id) == Some(p),
        id != p.id ==> find(upserted(v, p), id) == find(v, id),
{
    let w = upserted(v, p);
    let k = place_of(v, p.id);
    lemma_place_of(v, p.id);
    lemma_place_of(v, id);
    if k < v.len() {
        assert forall|i: int| 0 <= i < k implies (#[trigger] w[i]).id != p.id by {
            assert(w[i] == v[i]);
        }
        lemma_place_of_is(w, p.id, k);
        if id != p.id {
            let m = place_of(v, id);
            assert forall|i: int| 0 <= i < m implies (#[trigger] w[i]).id != id by {
                assert(i != k ==> w[i] == v[i]);
            }
            lemma_place_of_is(w, id, m);
        }
    } else {
        lemma_place_of_is(w, p.id, 0);
        if id != p.id {
            let m = place_of(v, id);
            assert forall|i: int| 0 <= i < m + 1 implies (#[trigger] w[i]).id != id by {
                if i > 0 {
                    assert(w[i] == v[i - 1]);
                }
            }
            assert(m < v.len() ==> w[m + 1] == v[m]);
            lemma_place_of_is(w, id, m + 1);
        }
    }
}

/// Storing a profile keeps the ids apart.
pub proof fn lemma_upsert_keeps_ids_unique(v: Seq<HostView>, p: HostView)
    requires
        unique_ids(v),
    ensures
        unique_ids(upserted(v, p)),
{
    let w = upserted(v, p);
    let k = place_of(v, p.id);
    lemma_place_of(v, p.id);
    assert forall|i: int, j: int| 0 <= i < j < w.len() implies (#[trigger] w[i]).id != (
    #[trigger] w[j]).id by {
        if k < v.len() {
            assert(i != k ==> w[i] == v[i]);
            assert(j != k ==> w[j] == v[j]);
            assert(v[i].id != v[j].id);
        } else {
            assert(w[j] == v[j - 1]);
            if i > 0 {
                assert(w[i] == v[i - 1]);
                assert(v[i - 1].id != v[j - 1].id);
            }
        }
    }
}

/// Storing a profile with nothing wrong in a list with nothing wrong leaves
/// nothing wrong, so the new list can be saved.
pub proof fn lemma_upsert_keeps_valid(v: Seq<HostView>, p: HostView)
    requires
        all_valid(v),
        profile_fault(p) is None,
    ensures
        all_valid(upserted(v, p)),
{
    let w = upserted(v, p);
    let k = place_of(v, p.id);
    lemma_place_of(v, p.id);
    assert forall|i: int| 0 <= i < w.len() implies profile_fault(#[trigger] w[i]) is None by {
        if k < v.len() {
            assert(i != k ==> w[i] == v[i]);
        } else if i > 0 {
            assert(w[i] == v[i - 1]);
        }
    }
}

/// A profile that was deleted is not found, the other profiles are kept in their
/// order, and what is found under the other ids stays the same.
pub proof fn lemma_find_after_delete(v: Seq<HostView>, deleted: Seq<char>, id: Seq<char>)
    ensures
        find(without(v, deleted), deleted) is None,
        id != deleted ==> find(without(v, deleted), id) == find(v, id),
        without(v, deleted).len() <= v.len(),
        all_valid(v) ==> all_valid(without(v, deleted)),
        forall|i: int|
            0 <= i < without(v, deleted).len() ==> (#[trigger] without(v, deleted)[i]).id
                != deleted,
    decreases v.len(),
{
    let w = without(v, deleted);
    if v.len() > 0 {
        let u = v.drop_last();
        lemma_find_after_delete(u, deleted, id);
        let wu = without(u, deleted);
        if all_valid(v) {
            assert forall|i: int| 0 <= i < u.len() implies profile_fault(#[trigger] u[i]) is None by {
                assert(u[i] == v[i]);
            }
            assert(profile_fault(v[v.len() - 1]) is None);
        }
        if id != deleted {
            lemma_find_push(u, v.last(), id);
            assert(u.push(v.last()) =~= v);
            if v.last().id != deleted {
                lemma_find_push(wu, v.last(), id);
            }
        }
    }
    lemma_place_of(w, deleted);
    if place_of(w, deleted) < w.len() {
        assert(w[place_of(w, deleted)].id != deleted);
    }
}

/// What is found in a list with one profile more at its end.
proof fn lemma_find_push(v: Seq<HostView>, p: HostView, id: Seq<char>)
    ensures
        find(v.push(p), id) == if find(v, id) is Some {
            find(v, id)
        } else if p.id == id {
            Some(p)
        } else {
            None
        },
{
    let w = v.push(p);
    let k = place_of(v, id);
    lemma_place_of(v, id);
    assert forall|i: int| 0 <= i < k implies (#[trigger] w[i]).id != id by {
        assert(w[i] == v[i]);
    }
    if k < v.len() {
        assert(w[k] == v[k]);
        lemma_place_of_is(w, id, k);
    } else if p.id == id {
        lemma_place_of_is(w, id, k);
    } else {
        assert forall|i: int| 0 <= i < k + 1 implies (#[trigger] w[i]).id != id by {
            assert(i < k ==> w[i] == v[i]);
        }
        lemma_place_of_is(w, id, k + 1);
    }
}

/// A list can be saved exactly if nothing is wrong with any of its profiles.
pub proof fn lemma_first_fault(v: Seq<HostView>)
    ensures
        first_fault(v) is None == all_valid(v),
    decreases v.len(),
{
    if v.len() > 0 {
        let w = v.drop_first();
        lemma_first_fault(w);
        if profile_fault(v[0]) is None {
            if all_valid(w) {
                assert forall|i: int| 0 <= i < v.len() implies profile_fault(
                    #[trigger] v[i],
                ) is None by {
                    if i > 0 {
                        assert(v[i] == w[i - 1]);
                    }
                }
            }
            if all_valid(v) {
                assert forall|i: int| 0 <= i < w.len() implies profile_fault(
                    #[trigger] w[i],
                ) is None by {
                    assert(w[i] == v[i + 1]);
                }
            }
        } else {
            assert(!all_valid(v));
        }
    }
}

/// The path of the list.
pub open spec fn list_file(config_dir: Seq<char>) -> Seq<char> {
    paths::join(config_dir, "remote-hosts.json"@)
}

/// The path of the file that writers lock.
pub open spec fn lock_file(config_dir: Seq<char>) -> Seq<char> {
    paths::join(config_dir, "remote-hosts.json.lock"@)
}

/// The path of the file that is written before it takes the place of the list.
pub open spec fn temp_file(config_dir: Seq<char>, pid: u32, thread: Seq<char>) -> Seq<char> {
    paths::join(
        config_dir,
        ".remote-hosts.json.tmp."@ + number::decimal(pid as nat) + "-"@ + thread,
    )
}

/// The list, its lock, and what is written before it takes its place are three files of
/// one directory.
pub proof fn lemma_list_files(config_dir: Seq<char>, pid: u32, thread: Seq<char>)
    ensures
        list_file(config_dir) == paths::join(config_dir, "remote-hosts.json"@),
        list_file(config_dir) != lock_file(config_dir),
        temp_file(config_dir, pid, thread) != list_file(config_dir),
        temp_file(config_dir, pid, thread) != lock_file(config_dir),
{
    reveal_strlit("remote-hosts.json");
    reveal_strlit("remote-hosts.json.lock");
    reveal_strlit(".remote-hosts.json.tmp.");
    let temp = ".remote-hosts.json.tmp."@ + number::decimal(pid as nat) + "-"@ + thread;
    assert(temp[0] == '.');
    assert("remote-hosts.json"@[0] == 'r' && "remote-hosts.json.lock"@[0] == 'r');
    assert("remote-hosts.json"@.len() != "remote-hosts.json.lock"@.len());
    if list_file(config_dir) == lock_file(config_dir) {
        paths::lemma_join_tells_apart(
            config_dir,
            "remote-hosts.json"@,
            "remote-hosts.json.lock"@,
        );
    }
    if temp_file(config_dir, pid, thread) == list_file(config_dir) {
        paths::lemma_join_tells_apart(config_dir, temp, "remote-hosts.json"@);
    }
    if temp_file(config_dir, pid, thread) == lock_file(config_dir) {
        paths::lemma_join_tells_apart(config_dir, temp, "remote-hosts.json.lock"@);
    }
}

/// The path of the list.
pub fn profiles_path(config_dir: &str) -> (r: String)
    ensures
        r@ == list_file(config_dir@),
{
    join_path(config_dir, "remote-hosts.json")
}

/// The path of the file that writers lock.
pub fn profiles_lock_path(config_dir: &str) -> (r: String)
    ensures
        r@ == lock_file(config_dir@),
{
    join_path(config_dir, "remote-hosts.json.lock")
}

/// The path of the file that is written before it takes the place of the list:
/// another one for each process and thread.
pub fn profiles_temp_path(config_dir: &str, pid: u32, thread: &str) -> (r: String)
    ensures
        r@ == temp_file(config_dir@, pid, thread@),
{
    let id = number_text(pid as u64);
    let name = cat4(".remote-hosts.json.tmp.", id.as_str(), "-", thread);
    join_path(config_dir, name.as_str())
}

/// Whether nothing is wrong with a profile.
pub fn validate_profile(profile: &RemoteHostProfile) -> (r: Result<(), String>)
    ensures
        match r {
            Ok(()) => profile_fault(profile@) is None,
            Err(e) => profile_fault(profile@) == Some(e@),
        },
{
    if blank(profile.id.as_str()) {
        return Err("远程服务器 Profile ID 不得为空".to_string());
    }
    match profile.kind {
        RemoteTargetKind::Ssh => {
            if blank(profile.host.as_str()) {
                return Err("远程服务器地址不得为空".to_string());
            }
            if profile.port == 0 {
                return Err("远程 SSH 端口不得为 0".to_string());
            }
        },
        RemoteTargetKind::Wsl => {
            let named = match &profile.distribution {
                Some(d) => !blank(d.as_str()),
                None => false,
            };
            if !named {
                return Err("WSL 发行版不得为空".to_string());
            }
        },
    }
    if blank(profile.username.as_str()) {
        return Err("远程目标用户名不得为空".to_string());
    }
    if blank(profile.helper_path.as_str()) {
        return Err("Helper 路径不得为空".to_string());
    }
    let path = trimmed(profile.helper_path.as_str());
    let cs = chars_of(path.as_str());
    if cs[0] != '/' && cs[0] != '~' {
        return Err(cat2("Helper 路径应为绝对路径或以 ~ 开头：", path.as_str()));
    }
    if let RemoteAuthMethod::KeyFile { path, .. } = &profile.auth_method {
        if blank(path.as_str()) {
            return Err("选择私钥文件认证时，密钥路径不得为空".to_string());
        }
    }
    Ok(())
}

/// Whether nothing is wrong with any profile of a list, as it must be when the
/// list was loaded and before it is saved.
pub fn validate_profiles(profiles: &Vec<RemoteHostProfile>) -> (r: Result<(), String>)
    ensures
        match r {
            Ok(()) => first_fault(types::hosts(profiles@)) is None && all_valid(
                types::hosts(profiles@),
            ),
            Err(e) => first_fault(types::hosts(profiles@)) == Some(e@),
        },
{
    let ghost v = types::hosts(profiles@);
    let mut i: usize = 0;
    assert(v.skip(0) =~= v);
    while i < profiles.len()
        invariant
            i <= profiles@.len(),
            v == types::hosts(profiles@),
            first_fault(v) == first_fault(v.skip(i as int)),
        decreases profiles@.len() - i,
    {
        assert(v.skip(i as int)[0] == profiles@[i as int]@);
        assert(v.skip(i as int).drop_first() =~= v.skip(i + 1));
        validate_profile(&profiles[i])?;
        i = i + 1;
    }
    proof {
        lemma_first_fault(v);
    }
    Ok(())
}

/// Where the profile with the given id first stands.
fn position_of(profiles: &Vec<RemoteHostProfile>, id: &str) -> (r: usize)
    ensures
        r == place_of(types::hosts(profiles@), id@),
        r <= profiles@.len(),
{
    let ghost v = types::hosts(profiles@);
    let n = profiles.len();
    let mut i: usize = 0;
    while i < n && !same(profiles[i].id.as_str(), id)
        invariant
            i <= n,
            n == profiles@.len(),
            v == types::hosts(profiles@),
            forall|j: int| 0 <= j < i ==> (#[trigger] v[j]).id != id@,
        decreases n - i,
    {
        assert(v[i as int].id != id@);
        i = i + 1;
    }
    proof {
        if i < n {
            assert(v[i as int].id == id@);
        }
        lemma_place_of_is(v, id@, i as int);
    }
    i
}

/// Stores a profile: in place of the one with its id, or else in front.
pub fn upsert_profile(profiles: &mut Vec<RemoteHostProfile>, profile: &RemoteHostProfile) -> (r:
    Result<(), String>)
    ensures
        match r {
            Ok(()) => profile_fault(profile@) is None && types::hosts(final(profiles)@) == upserted(
                types::hosts(old(profiles)@),
                profile@,
            ),
            Err(e) => profile_fault(profile@) == Some(e@) && final(profiles)@ == old(profiles)@,
        },
{
    validate_profile(profile)?;
    let ghost v = types::hosts(profiles@);
    let i = position_of(profiles, profile.id.as_str());
    if i < profiles.len() {
        profiles.set(i, profile.clone());
        assert(types::hosts(profiles@) =~= v.update(i as int, profile@));
    } else {
        profiles.insert(0, profile.clone());
        assert(types::hosts(profiles@) =~= seq![profile@] + v);
    }
    Ok(())
}

/// Deletes the profiles with the given id, and says whether there was one.
pub fn delete_profile(profiles: Vec<RemoteHostProfile>, id: &str) -> (r: (
    Vec<RemoteHostProfile>,
    bool,
))
    ensures
        types::hosts(r.0@) == without(types::hosts(profiles@), id@),
        r.1 == (find(types::hosts(profiles@), id@) is Some),
{
    let ghost v = types::hosts(profiles@);
    let found = position_of(&profiles, id) < profiles.len();
    let mut kept: Vec<RemoteHostProfile> = Vec::new();
    let mut i: usize = 0;
    assert(types::hosts(kept@) =~= without(v.take(0), id@));
    while i < profiles.len()
        invariant
            i <= profiles@.len(),
            v == types::hosts(profiles@),
            types::hosts(kept@) == without(v.take(i as int), id@),
        decreases profiles@.len() - i,
    {
        proof {
            assert(v.take(i + 1).drop_last() =~= v.take(i as int));
            assert(v.take(i + 1).last() == profiles@[i as int]@);
        }
        if !same(profiles[i].id.as_str(), id) {
            let ghost before = types::hosts(kept@);
            kept.push(profiles[i].clone());
            assert(types::hosts(kept@) =~= before.push(profiles@[i as int]@));
        }
        i = i + 1;
    }
    assert(v.take(i as int) =~= v);
    (kept, found)
}

/// Whether a file holds no list yet.
pub fn is_empty_store(raw: &str) -> (r: bool)
    ensures
        r == trim::is_blank(raw@),
{
    blank(raw)
}

/// What came of an attempt to lock the list.
#[derive(Debug)]
pub enum LockAttempt {
    Acquired,
    Held,
    Failed { error: String },
}

/// Whether to go on (`true`), or to wait and try again (`false`), after an attempt to lock
/// the list.
pub open spec fn lock_next(attempt: LockAttempt, elapsed_ms: int) -> Result<bool, Seq<char>> {
    match attempt {
        LockAttempt::Acquired => Ok(true),
        LockAttempt::Held => if elapsed_ms >= LOCK_TIMEOUT_MS {
            Err("获取文件锁超时（5秒）。可能有其他操作正在保存配置，请稍后重试。"@)
        } else {
            Ok(false)
        },
        LockAttempt::Failed { error } => Err("文件锁操作失败："@ + error@),
    }
}

/// A writer goes on once it holds the lock, however long that took, waits while another
/// one holds it, for five seconds, and gives up where locking fails.
pub proof fn lemma_locking(elapsed_ms: int, error: String)
    ensures
        lock_next(LockAttempt::Acquired, elapsed_ms) == Ok::<bool, Seq<char>>(true),
        elapsed_ms < 5000 ==> lock_next(LockAttempt::Held, elapsed_ms) == Ok::<bool, Seq<char>>(
            false,
        ),
        elapsed_ms >= 5000 ==> lock_next(LockAttempt::Held, elapsed_ms) is Err,
        lock_next(LockAttempt::Failed { error }, elapsed_ms) matches Err(e) && search::ends(
            e,
            error@,
        ),
{
    search::lemma_ends_joined("文件锁操作失败："@, error@);
}

/// Whether to go on (`true`), or to wait and try again (`false`), after
/// an attempt to lock the list, `elapsed_ms` milliseconds after the first.
pub fn lock_step(attempt: LockAttempt, elapsed_ms: u128) -> (r: Result<bool, String>)
    ensures
        match r {
            Ok(goes_on) => lock_next(attempt, elapsed_ms as int) == Ok::<bool, Seq<char>>(goes_on),
            Err(e) => lock_next(attempt, elapsed_ms as int) == Err::<bool, Seq<char>>(e@),
        },
{
    match attempt {
        LockAttempt::Acquired => Ok(true),
        LockAttempt::Held => if elapsed_ms >= LOCK_TIMEOUT_MS {
            Err("获取文件锁超时（5秒）。可能有其他操作正在保存配置，请稍后重试。".to_string())
        } else {
            Ok(false)
        },
        LockAttempt::Failed { error } => Err(cat2("文件锁操作失败：", error.as_str())),
    }
}

/// The steps of loading and saving the list that may fail.
#[derive(Debug, Clone, Copy, PartialEq, Eq, Structural)]
pub enum StoreStep {
    Read,
    Parse,
    CheckPath,
    CheckParent,
    CreateParent,
    CreateLock,
    Lock,
    Serialise,
    WriteTemp,
    ProtectTemp,
    Rename,
    Protect,
}

/// How the failure of a step is reported, before the error itself.
pub open spec fn store_message(step: StoreStep, path: Seq<char>) -> Seq<char> {
    match step {
        StoreStep::Read => "无法读取远程服务器配置 "@ + path + "："@,
        StoreStep::Parse => "远程服务器配置格式错误 "@ + path + "："@,
        StoreStep::CheckPath => "远程配置路径安全拒绝："@,
        StoreStep::CheckParent => "远程配置父目录安全拒绝："@,
        StoreStep::CreateParent => "无法创建远程配置目录 "@ + path + "："@,
        StoreStep::CreateLock => "无法创建锁文件 "@ + path + "："@,
        StoreStep::Lock => "文件锁操作失败："@,
        StoreStep::Serialise => "序列化远程配置失败："@,
        StoreStep::WriteTemp => "写入远程配置临时文件失败："@,
        StoreStep::ProtectTemp => "设置远程配置文件权限失败："@,
        StoreStep::Rename => "替换远程配置文件失败："@,
        StoreStep::Protect => "确认远程配置文件权限失败："@,
    }
}

/// The message for a step on `path` that failed with `error`.
pub fn store_error(step: StoreStep, path: &str, error: &str) -> (r: String)
    ensures
        r@ == store_message(step, path@) + error@,
{
    match step {
        StoreStep::Read => cat4("无法读取远程服务器配置 ", path, "：", error),
        StoreStep::Parse => cat4("远程服务器配置格式错误 ", path, "：", error),
        StoreStep::CheckPath => cat2("远程配置路径安全拒绝：", error),
        StoreStep::CheckParent => cat2("远程配置父目录安全拒绝：", error),
        StoreStep::CreateParent => cat4("无法创建远程配置目录 ", path, "：", error),
        StoreStep::CreateLock => cat4("无法创建锁文件 ", path, "：", error),
        StoreStep::Lock => cat2("文件锁操作失败：", error),
        StoreStep::Serialise => cat2("序列化远程配置失败：", error),
        StoreStep::WriteTemp => cat2("写入远程配置临时文件失败：", error),
        StoreStep::ProtectTemp => cat2("设置远程配置文件权限失败：", error),
        StoreStep::Rename => cat2("替换远程配置文件失败：", error),
        StoreStep::Protect => cat2("确认远程配置文件权限失败：", error),
    }
}

/// What is done after a step of saving the list succeeded; nothing after the last.
pub open spec fn step_after(step: StoreStep) -> Option<StoreStep> {
    match step {
        StoreStep::CheckPath => Some(StoreStep::CheckParent),
        StoreStep::CheckParent => Some(StoreStep::CreateParent),
        StoreStep::CreateParent => Some(StoreStep::CreateLock),
        StoreStep::CreateLock => Some(StoreStep::Lock),
        StoreStep::Lock => Some(StoreStep::Serialise),
        StoreStep::Serialise => Some(StoreStep::WriteTemp),
        StoreStep::WriteTemp => Some(StoreStep::ProtectTemp),
        StoreStep::ProtectTemp => Some(StoreStep::Rename),
        StoreStep::Rename => Some(StoreStep::Protect),
        _ => None,
    }
}

/// The first step of saving a list: one with a bad profile is not saved.
pub fn save_profiles(profiles: &Vec<RemoteHostProfile>) -> (r: Result<StoreStep, String>)
    ensures
        match r {
            Ok(step) => first_fault(types::hosts(profiles@)) is None && step == StoreStep::CheckPath,
            Err(e) => first_fault(types::hosts(profiles@)) == Some(e@),
        },
{
    match validate_profiles(profiles) {
        Ok(()) => Ok(StoreStep::CheckPath),
        Err(e) => Err(e),
    }
}

/// What is done after a step of saving the list, on `path`, succeeded or failed.
pub fn save_step(step: StoreStep, path: &str, outcome: Result<(), String>) -> (r: Result<
    Option<StoreStep>,
    String,
>)
    ensures
        match r {
            Ok(next) => outcome is Ok && next == step_after(step),
            Err(e) => outcome is Err && e@ == store_message(step, path@) + outcome->Err_0@,
        },
{
    if let Err(e) = outcome {
        return Err(store_error(step, path, e.as_str()));
    }
    Ok(
        match step {
            StoreStep::CheckPath => Some(StoreStep::CheckParent),
            StoreStep::CheckParent => Some(StoreStep::CreateParent),
            StoreStep::CreateParent => Some(StoreStep::CreateLock),
            StoreStep::CreateLock => Some(StoreStep::Lock),
            StoreStep::Lock => Some(StoreStep::Serialise),
            StoreStep::Serialise => Some(StoreStep::WriteTemp),
            StoreStep::WriteTemp => Some(StoreStep::ProtectTemp),
            StoreStep::ProtectTemp => Some(StoreStep::Rename),
            StoreStep::Rename => Some(StoreStep::Protect),
            _ => None,
        },
    )
}

/// Where a step of saving stands, counted from the first.
pub open spec fn step_place(step: StoreStep) -> int {
    match step {
        StoreStep::CheckPath => 0,
        StoreStep::CheckParent => 1,
        StoreStep::CreateParent => 2,
        StoreStep::CreateLock => 3,
        StoreStep::Lock => 4,
        StoreStep::Serialise => 5,
        StoreStep::WriteTemp => 6,
        StoreStep::ProtectTemp => 7,
        StoreStep::Rename => 8,
        StoreStep::Protect => 9,
        _ => 10,
    }
}

/// The list is replaced only once a lock is held, and the new one is written whole and
/// closed to others; each step is taken once, in order.
pub proof fn lemma_save_order(step: StoreStep)
    requires
        step_place(step) < 10,
    ensures
        match step_after(step) {
            Some(next) => step_place(next) == step_place(step) + 1,
            None => step == StoreStep::Protect,
        },
        step_after(step) == Some(StoreStep::Rename) ==> step == StoreStep::ProtectTemp,
        step_after(step) == Some(StoreStep::ProtectTemp) ==> step == StoreStep::WriteTemp,
        step_place(StoreStep::Lock) < step_place(StoreStep::WriteTemp) < step_place(
            StoreStep::Rename,
        ),
{
}

/// The list as it is stored: without the passwords that are for one connection alone.
pub open spec fn stored(v: Seq<HostView>) -> Seq<HostView> {
    v.map_values(|p: HostView| HostView { transient_password: None, ..p })
}

/// The list as it is stored.
pub fn stored_profiles(profiles: &Vec<RemoteHostProfile>) -> (r: Vec<RemoteHostProfile>)
    ensures
        types::hosts(r@) == stored(types::hosts(profiles@)),
{
    let mut out: Vec<RemoteHostProfile> = Vec::new();
    let ghost v = types::hosts(profiles@);
    let mut i: usize = 0;
    assert(types::hosts(out@) =~= stored(v).take(0));
    while i < profiles.len()
        invariant
            i <= profiles@.len(),
            v == types::hosts(profiles@),
            types::hosts(out@) == stored(v).take(i as int),
        decreases profiles@.len() - i,
    {
        let mut p = profiles[i].clone();
        p.transient_password = None;
        let ghost before = out@;
        out.push(p);
        i = i + 1;
        assert(types::hosts(out@) =~= types::hosts(before).push(p@));
        assert(types::hosts(out@) =~= stored(v).take(i as int));
    }
    assert(stored(v).take(i as int) =~= stored(v));
    out
}

/// A list that can be saved is accepted again when it is loaded as it was stored: every
/// profile, in the same order. What is stored holds no password, and storing it again
/// changes nothing.
pub proof fn lemma_saved_list_is_loaded(v: Seq<HostView>)
    ensures
        first_fault(v) is None == (first_fault(stored(v)) is None),
        stored(v).len() == v.len(),
        forall|i: int|
            0 <= i < v.len() ==> #[trigger] stored(v)[i] == (HostView {
                transient_password: None,
                ..v[i]
            }),
        stored(stored(v)) == stored(v),
{
    lemma_first_fault(v);
    lemma_first_fault(stored(v));
    if all_valid(v) {
        assert forall|i: int| 0 <= i < stored(v).len() implies profile_fault(
            #[trigger] stored(v)[i],
        ) is None by {
            assert(profile_fault(v[i]) is None);
        }
    }
    if all_valid(stored(v)) {
        assert forall|i: int| 0 <= i < v.len() implies profile_fault(#[trigger] v[i]) is None by {
            assert(profile_fault(stored(v)[i]) is None);
        }
    }
    assert(stored(stored(v)) =~= stored(v));
}

/// What was read of the list.
pub enum StoreRead {
    /// There is no file.
    Missing,
    Failed { error: String },
    /// The file holds nothing.
    Blank,
    /// The file holds something else.
    Other { error: String },
    Profiles(Vec<RemoteHostProfile>),
}

/// The list that was read from `path`. A list with a bad profile is not used.
pub fn load_profiles(path: &str, read: StoreRead) -> (r: Result<Vec<RemoteHostProfile>, String>)
    ensures
        match r {
            Ok(v) => match read {
                StoreRead::Missing => types::hosts(v@) == Seq::<types::HostView>::empty(),
                StoreRead::Blank => types::hosts(v@) == Seq::<types::HostView>::empty(),
                StoreRead::Profiles(w) => v == w && first_fault(types::hosts(w@)) is None,
                _ => false,
            },
            Err(e) => match read {
                StoreRead::Failed { error } => e@ == store_message(StoreStep::Read, path@) + error@,
                StoreRead::Other { error } => e@ == store_message(StoreStep::Parse, path@) + error@,
                StoreRead::Profiles(w) => first_fault(types::hosts(w@)) == Some(e@),
                _ => false,
            },
        },
{
    match read {
        StoreRead::Missing | StoreRead::Blank => {
            let none: Vec<RemoteHostProfile> = Vec::new();
            assert(types::hosts(none@) =~= Seq::empty());
            Ok(none)
        },
        StoreRead::Failed { error } => Err(store_error(StoreStep::Read, path, error.as_str())),
        StoreRead::Other { error } => Err(store_error(StoreStep::Parse, path, error.as_str())),
        StoreRead::Profiles(v) => match validate_profiles(&v) {
            Ok(()) => Ok(v),
            Err(e) => Err(e),
        },
    }
}

/// A profile is good exactly if it has an id, a user and a path of the helper that begins
/// with `/` or `~`; a server also needs an address and a port, a distribution its name, and
/// a login with a key file the path of it.
pub proof fn lemma_good_profile(p: HostView)
    ensures
        profile_fault(p) is None <==> {
            &&& !trim::is_blank(p.id)
            &&& !trim::is_blank(p.username)
            &&& p.kind is Ssh ==> !trim::is_blank(p.host) && p.port != 0
            &&& p.kind is Wsl ==> p.distribution is Some && !trim::is_blank(p.distribution->0)
            &&& !trim::is_blank(p.helper_path)
            &&& trim::trim(p.helper_path)[0] == '/' || trim::trim(p.helper_path)[0] == '~'
            &&& p.auth is KeyFile ==> !trim::is_blank(p.auth->path)
        },
{
}

/// A profile with a new id is put in front of the others, which keep their order; one with
/// an id that is there takes its place, and no other changes.
pub proof fn lemma_where_a_profile_is_put(v: Seq<HostView>, p: HostView)
    ensures
        find(v, p.id) is None ==> upserted(v, p).len() == v.len() + 1 && upserted(v, p)[0] == p
            && upserted(v, p).skip(1) == v,
        find(v, p.id) is Some ==> upserted(v, p).len() == v.len(),
        find(v, p.id) is Some ==> forall|i: int|
            0 <= i < v.len() && v[i].id != p.id ==> #[trigger] upserted(v, p)[i] == v[i],
{
    lemma_place_of(v, p.id);
    if find(v, p.id) is None {
        assert(upserted(v, p).skip(1) =~= v);
    }
}

/// What goes wrong with a step is told behind what the step was; a step on a file that can
/// be any one names the file.
pub proof fn lemma_store_messages(path: Seq<char>, error: Seq<char>, step: StoreStep)
    ensures
        search::ends(store_message(step, path) + error, error),
        step == StoreStep::Read || step == StoreStep::Parse || step == StoreStep::CreateParent
            || step == StoreStep::CreateLock ==> search::contains(store_message(step, path), path),
{
    search::lemma_ends_joined(store_message(step, path), error);
    let m = store_message(step, path);
    if step == StoreStep::Read {
        let k = "无法读取远程服务器配置 "@.len() as int;
        assert(m.subrange(k, k + path.len()) =~= path);
        assert(search::occurs_at(m, path, k));
    } else if step == StoreStep::Parse {
        let k = "远程服务器配置格式错误 "@.len() as int;
        assert(m.subrange(k, k + path.len()) =~= path);
        assert(search::occurs_at(m, path, k));
    } else if step == StoreStep::CreateParent {
        let k = "无法创建远程配置目录 "@.len() as int;
        assert(m.subrange(k, k + path.len()) =~= path);
        assert(search::occurs_at(m, path, k));
    } else if step == StoreStep::CreateLock {
        let k = "无法创建锁文件 "@.len() as int;
        assert(m.subrange(k, k + path.len()) =~= path);
        assert(search::occurs_at(m, path, k));
    }
}

} // verus!
