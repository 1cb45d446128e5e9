//! Secrets that are kept for a login: under which label, and encrypted in a file
//! of this program where the system keeps none.

use vstd::prelude::*;

use crate::crypto::{
    self, aead_open, aead_seal, base64_decode, base64_encode, hkdf_sha256, random_bytes, sha256,
};
use crate::paths::{self, join_path};
use crate::text::bytes;
use crate::text::chars::{self, cat2, cat3, cat4, same};
use crate::text::encode::utf8_text;
use crate::text::number::{self, hex_text, number_text};
use crate::text::search::{self, stripped};
use crate::text::split::{self, split_lines};
use crate::text::table::Table;
use crate::text::trim::{self, blank, trimmed, trimmed_part};

verus! {

/// The name under which the system keeps secrets of this program.
pub const SERVICE: &'static str = "CSSwitch";

/// The file with the encrypted secrets.
pub const LOCAL_SECRET_FILE: &'static str = "remote-secrets.json";

/// The file with the key that they are encrypted with.
pub const LOCAL_KEY_FILE: &'static str = "encryption.key";

/// What stands before that key in its file.
pub const LOCAL_KEY_PREFIX: &'static str = "REMOTE_SECRET_ENCRYPTION_KEY=";

/// What the derived key is for.
pub const LOCAL_HKDF_INFO: &'static str = "csswitch:remote-login-secrets:v1";

/// What a secret is for.
#[derive(Debug, Clone, Copy, PartialEq, Eq)]
pub enum CredentialKind<'a> {
    Password,
    /// The password of the private key at a path.
    KeyPassword(&'a str),
}

/// The contents of a kind.
pub enum KindView {
    Password,
    KeyPassword(Seq<char>),
}

impl<'a> View for CredentialKind<'a> {
    type V = KindView;

    open spec fn view(&self) -> KindView {
        match *self {
            CredentialKind::Password => KindView::Password,
            CredentialKind::KeyPassword(path) => KindView::KeyPassword(path@),
        }
    }
}

/// The kind of secret that `kind` names, for a key at `path` where it needs one.
pub open spec fn named_kind(kind: Seq<char>, path: Option<Seq<char>>) -> Result<
    KindView,
    Seq<char>,
> {
    if kind == "password"@ {
        Ok(KindView::Password)
    } else if kind == "keyPassword"@ {
        match path {
            Some(path) if !trim::is_blank(path) => Ok(KindView::KeyPassword(trim::trim(path))),
            _ => Err("密钥文件路径不能为空"@),
        }
    } else {
        Err("未知登录信息类型"@)
    }
}

/// The kind of secret that `kind` names, for a key at `key_path` where it needs
/// one.
pub fn credential_kind_from_parts<'a>(kind: &str, key_path: Option<&'a str>) -> (r: Result<
    CredentialKind<'a>,
    String,
>)
    ensures
        match r {
            Ok(k) => named_kind(kind@, chars::opt_str(key_path)) == Ok::<KindView, Seq<char>>(k@),
            Err(e) => named_kind(kind@, chars::opt_str(key_path)) == Err::<KindView, Seq<char>>(
                e@,
            ),
        },
{
    if same(kind, "password") {
        Ok(CredentialKind::Password)
    } else if same(kind, "keyPassword") {
        match key_path {
            Some(path) => {
                let bare = trimmed_part(path);
                if bare.is_empty() {
                    Err("密钥文件路径不能为空".to_string())
                } else {
                    Ok(CredentialKind::KeyPassword(bare))
                }
            },
            None => Err("密钥文件路径不能为空".to_string()),
        }
    } else {
        Err("未知登录信息类型".to_string())
    }
}

/// The SHA-256 digest of a text, in hexadecimal.
pub open spec fn text_digest(s: Seq<char>) -> Seq<char> {
    number::hex(crypto::sha256_digest(vstd::utf8::encode_utf8(s)))
}

/// The label of a secret. It names the profile and the key by digests alone.
pub open spec fn label(profile_id: Seq<char>, kind: KindView) -> Seq<char> {
    match kind {
        KindView::Password => "remote:"@ + text_digest(profile_id) + ":password"@,
        KindView::KeyPassword(path) => "remote:"@ + text_digest(profile_id) + ":key-password:"@
            + text_digest(path),
    }
}

/// The SHA-256 digest of a text, in hexadecimal.
fn hash_label_part(value: &str) -> (r: String)
    ensures
        r@ == text_digest(value@),
        r@.len() == 64,
{
    let digest = sha256(value.as_bytes());
    hex_text(&digest)
}

/// The label of a secret.
pub fn credential_label(profile_id: &str, kind: CredentialKind<'_>) -> (r: String)
    ensures
        r@ == label(profile_id@, kind@),
        r@.len() == match kind@ {
            KindView::Password => 80nat,
            KindView::KeyPassword(_) => 149nat,
        },
{
    proof {
        reveal_strlit("remote:");
        reveal_strlit(":password");
        reveal_strlit(":key-password:");
    }
    let profile_hash = hash_label_part(profile_id);
    match kind {
        CredentialKind::Password => cat3("remote:", profile_hash.as_str(), ":password"),
        CredentialKind::KeyPassword(path) => {
            let path_hash = hash_label_part(path);
            cat4("remote:", profile_hash.as_str(), ":key-password:", path_hash.as_str())
        },
    }
}

/// The encrypted secrets of one file, by label.
#[derive(Debug)]
pub struct LocalSecretFile {
    pub version: u32,
    pub items: Table<String>,
}

impl LocalSecretFile {
    /// No label stands twice.
    pub open spec fn wf(&self) -> bool {
        self.items.wf()
    }
}

impl Default for LocalSecretFile {
    fn default() -> (r: LocalSecretFile)
        ensures
            r.version == 1,
            r.items@ == Map::<Seq<char>, String>::empty(),
            r.wf(),
    {
        LocalSecretFile { version: 1, items: Table::new() }
    }
}

/// A key that secrets can be encrypted with: base64 of at least 16 bytes.
pub open spec fn is_root_key(key: Seq<char>) -> bool {
    match crypto::base64_decoded(key) {
        Ok(data) => data.len() >= 16,
        Err(_) => false,
    }
}

/// The key that a line of the key file holds.
pub open spec fn key_in_line(line: Seq<char>) -> Option<Seq<char>> {
    match search::after_prefix(line, LOCAL_KEY_PREFIX@) {
        Some(value) if is_root_key(trim::trim(value)) => Some(trim::trim(value)),
        _ => None,
    }
}

/// The first key that the lines of the key file hold.
pub open spec fn key_in_lines(lines: Seq<Seq<char>>) -> Option<Seq<char>>
    decreases lines.len(),
{
    if lines.len() == 0 {
        None
    } else if key_in_line(lines[0]) is Some {
        key_in_line(lines[0])
    } else {
        key_in_lines(lines.drop_first())
    }
}

/// The contents of the key file.
pub open spec fn key_file(key: Seq<char>) -> Seq<char> {
    LOCAL_KEY_PREFIX@ + key + "\n"@
}

/// The key that is read from the file that was written for it is the same key.
pub proof fn lemma_key_file_round_trip(key: Seq<char>)
    requires
        is_root_key(key),
        forall|i: int| 0 <= i < key.len() ==> crypto::is_base64_char(#[trigger] key[i]),
    ensures
        key_in_lines(split::lines(key_file(key))) == Some(key),
{
    reveal_strlit("REMOTE_SECRET_ENCRYPTION_KEY=");
    reveal_strlit("\n");
    let line = LOCAL_KEY_PREFIX@ + key;
    assert forall|i: int| 0 <= i < line.len() implies line[i] != '\n' && line[i] != '\r' by {
        if i >= LOCAL_KEY_PREFIX@.len() {
            assert(line[i] == key[i - LOCAL_KEY_PREFIX@.len()]);
        }
    }
    split::lemma_one_line(line);
    let lines = split::lines(key_file(key));
    assert(lines =~= seq![line]);
    assert(line.take(LOCAL_KEY_PREFIX@.len() as int) =~= LOCAL_KEY_PREFIX@);
    assert(line.skip(LOCAL_KEY_PREFIX@.len() as int) =~= key);
    if key.len() > 0 {
        assert(crypto::is_base64_char(key[0]));
        assert(crypto::is_base64_char(key[key.len() - 1]));
    }
    trim::lemma_trim_fixed(key);
    assert(lines[0] == line);
}

/// The first usable key that the text of a key file holds.
pub fn parse_local_key(raw: &str) -> (r: Option<String>)
    ensures
        chars::opt_text(r) == key_in_lines(split::lines(raw@)),
{
    let lines = split_lines(raw);
    let ghost t = split::lines(raw@);
    let mut i: usize = 0;
    assert(t.skip(0) =~= t);
    while i < lines.len()
        invariant
            i <= lines@.len(),
            t == chars::texts(lines@),
            t == split::lines(raw@),
            key_in_lines(t) == key_in_lines(t.skip(i as int)),
        decreases lines@.len() - i,
    {
        assert(t.skip(i as int)[0] == lines@[i as int]@);
        assert(t.skip(i as int).drop_first() =~= t.skip(i + 1));
        if let Some(value) = stripped(lines[i].as_str(), LOCAL_KEY_PREFIX) {
            let bare = trimmed(value.as_str());
            let usable = match base64_decode(bare.as_str()) {
                Ok(data) => data.len() >= 16,
                Err(_) => false,
            };
            if usable {
                return Some(bare);
            }
        }
        i = i + 1;
    }
    None
}

/// A new key, from 32 random bytes.
pub fn random_key_b64() -> (r: String)
    ensures
        crypto::base64_decoded(r@) matches Ok(data) && data.len() == 32,
        is_root_key(r@),
        forall|i: int| 0 <= i < r@.len() ==> crypto::is_base64_char(#[trigger] r@[i]),
{
    let data = random_bytes(32);
    base64_encode(data.as_slice())
}

/// The key that was found in the key file, if there is one.
pub open spec fn found_key(raw: Option<Seq<char>>) -> Option<Seq<char>> {
    match raw {
        Some(raw) => key_in_lines(split::lines(raw)),
        None => None,
    }
}

/// A key that lines hold is usable.
proof fn lemma_key_in_lines(lines: Seq<Seq<char>>)
    ensures
        key_in_lines(lines) matches Some(key) ==> is_root_key(key),
    decreases lines.len(),
{
    if lines.len() > 0 && key_in_line(lines[0]) is None {
        lemma_key_in_lines(lines.drop_first());
    }
}

/// The contents of the key file.
pub fn local_key_body(key: &str) -> (r: String)
    ensures
        r@ == key_file(key@),
{
    cat3(LOCAL_KEY_PREFIX, key, "\n")
}

/// The key that secrets are encrypted with, from the one in the key file.
pub open spec fn derived_key(root: Seq<char>) -> Result<Seq<u8>, Seq<char>> {
    match crypto::base64_decoded(trim::trim(root)) {
        Err(e) => Err("本机密码密钥不是合法 base64："@ + e),
        Ok(ikm) => if ikm.len() < 16 {
            Err("本机密码密钥长度不足"@)
        } else {
            Ok(crypto::hkdf_derived(ikm, vstd::utf8::encode_utf8(LOCAL_HKDF_INFO@)))
        },
    }
}

/// A secret, encrypted under a label, as it stands in the file.
pub open spec fn sealed_secret(
    label: Seq<char>,
    plaintext: Seq<u8>,
    root: Seq<char>,
    nonce: Seq<u8>,
) -> Result<Seq<char>, Seq<char>> {
    match derived_key(root) {
        Err(e) => Err(e),
        Ok(key) => match crypto::aead_sealed(
            key,
            nonce,
            plaintext,
            vstd::utf8::encode_utf8(label),
        ) {
            Some(sealed) => Ok("v1:"@ + crypto::base64_encoded(nonce + sealed)),
            None => Err("加密本机密码失败"@),
        },
    }
}

/// What is read back of a secret that stands in the file under a label.
pub open spec fn opened_secret(label: Seq<char>, body: Seq<char>, root: Seq<char>) -> Result<
    Seq<u8>,
    Seq<char>,
> {
    match search::after_prefix(body, "v1:"@) {
        None => Err("本机密码密文缺少 v1 前缀"@),
        Some(text) => match crypto::base64_decoded(text) {
            Err(e) => Err("本机密码密文不是合法 base64："@ + e),
            Ok(raw) => if raw.len() < 28 {
                Err("本机密码密文过短"@)
            } else {
                match derived_key(root) {
                    Err(e) => Err(e),
                    Ok(key) => match crypto::aead_opened(
                        key,
                        raw.take(12),
                        raw.skip(12),
                        vstd::utf8::encode_utf8(label),
                    ) {
                        Some(plaintext) => Ok(plaintext),
                        None => Err("解密本机密码失败"@),
                    },
                }
            },
        },
    }
}

/// Whether a secret can be encrypted: the key is good, and nothing is too long.
pub open spec fn can_seal(label: Seq<char>, plaintext: Seq<u8>, root: Seq<char>) -> bool {
    &&& derived_key(root) is Ok
    &&& plaintext.len() <= crypto::AEAD_MAX
    &&& bytes::size(label) <= crypto::AEAD_MAX
}

/// The key that secrets are encrypted with, from the one in the key file.
pub fn derive_local_key(root_key_b64: &str) -> (r: Result<Vec<u8>, String>)
    ensures
        match r {
            Ok(key) => derived_key(root_key_b64@) == Ok::<Seq<u8>, Seq<char>>(key@) && key@.len()
                == 32,
            Err(e) => derived_key(root_key_b64@) == Err::<Seq<u8>, Seq<char>>(e@),
        },
{
    let bare = trimmed(root_key_b64);
    let ikm = match base64_decode(bare.as_str()) {
        Ok(ikm) => ikm,
        Err(e) => return Err(cat2("本机密码密钥不是合法 base64：", e.as_str())),
    };
    if ikm.len() < 16 {
        return Err("本机密码密钥长度不足".to_string());
    }
    match hkdf_sha256(ikm.as_slice(), LOCAL_HKDF_INFO.as_bytes()) {
        Some(key) => Ok(key),
        None => Err("本机密码密钥派生失败".to_string()),
    }
}

/// A secret, encrypted with a nonce of 12 bytes, as it stands in the file. What
/// is read back of it is the secret.
pub fn seal_local_secret(label: &str, plaintext: &[u8], root_key_b64: &str, nonce: &Vec<u8>) -> (r:
    Result<String, String>)
    requires
        nonce@.len() == 12,
    ensures
        match r {
            Ok(body) => {
                &&& sealed_secret(label@, plaintext@, root_key_b64@, nonce@) == Ok::<
                    Seq<char>,
                    Seq<char>,
                >(body@)
                &&& opened_secret(label@, body@, root_key_b64@) == Ok::<Seq<u8>, Seq<char>>(
                    plaintext@,
                )
            },
            Err(e) => sealed_secret(label@, plaintext@, root_key_b64@, nonce@) == Err::<
                Seq<char>,
                Seq<char>,
            >(e@),
        },
        r is Ok == can_seal(label@, plaintext@, root_key_b64@),
{
    let key = match derive_local_key(root_key_b64) {
        Ok(key) => key,
        Err(e) => return Err(e),
    };
    match aead_seal(key.as_slice(), nonce.as_slice(), plaintext, label.as_bytes()) {
        Some(mut sealed) => {
            let ghost tail = sealed@;
            let mut raw: Vec<u8> = Vec::new();
            let mut i: usize = 0;
            while i < nonce.len()
                invariant
                    i <= nonce@.len(),
                    raw@ == nonce@.take(i as int),
                decreases nonce@.len() - i,
            {
                raw.push(nonce[i]);
                i = i + 1;
                assert(raw@ =~= nonce@.take(i as int));
            }
            raw.append(&mut sealed);
            assert(raw@ =~= nonce@ + tail);
            let text = base64_encode(raw.as_slice());
            let body = cat2("v1:", text.as_str());
            proof {
                reveal_strlit("v1:");
                assert(body@.take(3) =~= "v1:"@);
                assert(body@.skip(3) =~= text@);
                assert(raw@.take(12) =~= nonce@);
                assert(raw@.skip(12) =~= tail);
            }
            Ok(body)
        },
        None => Err("加密本机密码失败".to_string()),
    }
}

/// A secret, encrypted with a random nonce, as it stands in the file. What is read
/// back of it is the secret.
pub fn encrypt_local_secret(label: &str, plaintext: &[u8], root_key_b64: &str) -> (r: Result<
    String,
    String,
>)
    ensures
        match r {
            Ok(body) => {
                &&& exists|nonce: Seq<u8>|
                    nonce.len() == 12 && #[trigger] sealed_secret(
                        label@,
                        plaintext@,
                        root_key_b64@,
                        nonce,
                    ) == Ok::<Seq<char>, Seq<char>>(body@)
                &&& opened_secret(label@, body@, root_key_b64@) == Ok::<Seq<u8>, Seq<char>>(
                    plaintext@,
                )
            },
            Err(e) => e@ == match derived_key(root_key_b64@) {
                Err(why) => why,
                Ok(_) => "加密本机密码失败"@,
            },
        },
        r is Ok == can_seal(label@, plaintext@, root_key_b64@),
{
    let nonce = random_bytes(12);
    seal_local_secret(label, plaintext, root_key_b64, &nonce)
}

/// What is read back of a secret that stands in the file under a label.
pub fn decrypt_local_secret(label: &str, body: &str, root_key_b64: &str) -> (r: Result<
    Vec<u8>,
    String,
>)
    ensures
        match r {
            Ok(plaintext) => opened_secret(label@, body@, root_key_b64@) == Ok::<
                Seq<u8>,
                Seq<char>,
            >(plaintext@),
            Err(e) => opened_secret(label@, body@, root_key_b64@) == Err::<Seq<u8>, Seq<char>>(e@),
        },
{
    let text = match stripped(body, "v1:") {
        Some(text) => text,
        None => return Err("本机密码密文缺少 v1 前缀".to_string()),
    };
    let raw = match base64_decode(text.as_str()) {
        Ok(raw) => raw,
        Err(e) => return Err(cat2("本机密码密文不是合法 base64：", e.as_str())),
    };
    if raw.len() < 28 {
        return Err("本机密码密文过短".to_string());
    }
    let key = match derive_local_key(root_key_b64) {
        Ok(key) => key,
        Err(e) => return Err(e),
    };
    let nonce = vstd::slice::slice_subrange(raw.as_slice(), 0, 12);
    let sealed = vstd::slice::slice_subrange(raw.as_slice(), 12, raw.len());
    assert(nonce@ =~= raw@.take(12));
    assert(sealed@ =~= raw@.skip(12));
    match aead_open(key.as_slice(), nonce, sealed, label.as_bytes()) {
        Some(plaintext) => Ok(plaintext),
        None => Err("解密本机密码失败".to_string()),
    }
}

/// What this program did not write is refused: a body without the mark of its form, and
/// one that is too short to hold a nonce and a tag.
pub proof fn lemma_foreign_bodies_are_refused(label: Seq<char>, body: Seq<char>, root: Seq<char>)
    ensures
        search::after_prefix(body, "v1:"@) is None ==> opened_secret(label, body, root) is Err,
        search::after_prefix(body, "v1:"@) matches Some(text) ==> crypto::base64_decoded(
            text,
        ) matches Ok(raw) ==> raw.len() < 28 ==> opened_secret(label, body, root) is Err,
        derived_key(root) is Err ==> opened_secret(label, body, root) is Err,
{
}

/// The secret that is read under a label, if there is one that can be read.
pub open spec fn secret_in(
    items: Map<Seq<char>, String>,
    label: Seq<char>,
    root: Seq<char>,
) -> Option<Seq<char>> {
    if items.contains_key(label) {
        match opened_secret(label, items[label]@, root) {
            Ok(plaintext) => if vstd::utf8::valid_utf8(plaintext) {
                Some(vstd::utf8::decode_utf8(plaintext))
            } else {
                None
            },
            Err(_) => None,
        }
    } else {
        None
    }
}

/// The file with the encrypted secrets.
pub open spec fn secrets_file(dir: Seq<char>) -> Seq<char> {
    paths::join(dir, LOCAL_SECRET_FILE@)
}

/// The file with the key.
pub open spec fn key_place(dir: Seq<char>) -> Seq<char> {
    paths::join(dir, LOCAL_KEY_FILE@)
}

/// The file that is written before it takes the place of the secrets.
pub open spec fn secrets_temp_file(dir: Seq<char>, pid: u32, thread: Seq<char>) -> Seq<char> {
    paths::join(
        dir,
        "remote-secrets.json.tmp."@ + number::decimal(pid as nat) + "."@ + thread,
    )
}

/// The secrets, their key, and what is written before it takes their place are three files
/// of one directory.
pub proof fn lemma_secret_files(dir: Seq<char>, pid: u32, thread: Seq<char>)
    ensures
        secrets_file(dir) == paths::join(dir, "remote-secrets.json"@),
        key_place(dir) == paths::join(dir, "encryption.key"@),
        secrets_file(dir) != key_place(dir),
        secrets_temp_file(dir, pid, thread) != secrets_file(dir),
        secrets_temp_file(dir, pid, thread) != key_place(dir),
{
    reveal_strlit("remote-secrets.json");
    reveal_strlit("encryption.key");
    reveal_strlit("remote-secrets.json.tmp.");
    let temp = "remote-secrets.json.tmp."@ + number::decimal(pid as nat) + "."@ + thread;
    assert(temp[0] == 'r');
    assert("remote-secrets.json"@.len() != "encryption.key"@.len());
    assert(temp.len() > "remote-secrets.json"@.len());
    if secrets_file(dir) == key_place(dir) {
        paths::lemma_join_tells_apart(dir, "remote-secrets.json"@, "encryption.key"@);
    }
    if secrets_temp_file(dir, pid, thread) == secrets_file(dir) {
        paths::lemma_join_tells_apart(dir, temp, "remote-secrets.json"@);
    }
    if secrets_temp_file(dir, pid, thread) == key_place(dir) {
        paths::lemma_join_tells_apart(dir, temp, "encryption.key"@);
    }
}

/// Where secrets are kept that the system does not keep.
#[derive(Debug)]
pub struct LocalEncryptedCredentialStore {
    pub dir: String,
}

/// What becomes of the file when a secret is deleted.
#[derive(Debug)]
pub enum SecretFileChange {
    Unchanged,
    Deleted,
    Saved(LocalSecretFile),
}

/// What was read of the file.
#[derive(Debug)]
pub enum SecretFileRead {
    /// There is no file.
    Missing,
    Failed { error: String },
    /// The file holds a text, in which these secrets, or none, were found.
    Text { raw: String, found: Result<LocalSecretFile, String> },
}

impl LocalEncryptedCredentialStore {
    /// The store in a directory.
    pub fn new(dir: String) -> (r: Self)
        ensures
            r.dir@ == dir@,
    {
        LocalEncryptedCredentialStore { dir }
    }

    /// The file with the encrypted secrets.
    pub fn secrets_path(&self) -> (r: String)
        ensures
            r@ == secrets_file(self.dir@),
    {
        join_path(self.dir.as_str(), LOCAL_SECRET_FILE)
    }

    /// The file that is written before it takes the place of the secrets: another
    /// one for each process and thread.
    pub fn secrets_temp_path(&self, pid: u32, thread: &str) -> (r: String)
        ensures
            r@ == secrets_temp_file(self.dir@, pid, thread@),
    {
        let id = number_text(pid as u64);
        let name = cat4("remote-secrets.json.tmp.", id.as_str(), ".", thread);
        join_path(self.dir.as_str(), name.as_str())
    }

    /// The file with the key.
    pub fn key_path(&self) -> (r: String)
        ensures
            r@ == key_place(self.dir@),
    {
        join_path(self.dir.as_str(), LOCAL_KEY_FILE)
    }

    /// The key that secrets are encrypted with, where the key file holds `raw`, or is
    /// not there; and what is written to it first, where it holds no usable key. The
    /// same key is found in it afterwards.
    pub fn read_or_create_key(&self, raw: Option<&str>) -> (r: (String, Option<String>))
        ensures
            is_root_key(r.0@),
            match found_key(chars::opt_str(raw)) {
                Some(key) => r.0@ == key && r.1 is None,
                None => r.1 matches Some(body) && body@ == key_file(r.0@) && found_key(Some(body@))
                    == Some(r.0@),
            },
    {
        if let Some(raw) = raw {
            if let Some(key) = parse_local_key(raw) {
                proof {
                    lemma_key_in_lines(split::lines(raw@));
                }
                return (key, None);
            }
        }
        let key = random_key_b64();
        let body = local_key_body(key.as_str());
        proof {
            lemma_key_file_round_trip(key@);
        }
        (key, Some(body))
    }

    /// The secrets that were read from the file. None were saved yet where there is no
    /// file, or only white space in it.
    pub fn load_file(&self, read: SecretFileRead) -> (r: Result<LocalSecretFile, String>)
        ensures
            match read {
                SecretFileRead::Missing => r is Ok && is_new_file(r->Ok_0),
                SecretFileRead::Failed { error } => r is Err && r->Err_0@ == local_store_message(
                    LocalStoreStep::ReadFile,
                    paths::join(self.dir@, LOCAL_SECRET_FILE@),
                ) + error@,
                SecretFileRead::Text { raw, found } => if trim::is_blank(raw@) {
                    r is Ok && is_new_file(r->Ok_0)
                } else {
                    match found {
                        Ok(file) => r is Ok && r->Ok_0 == file,
                        Err(error) => r is Err && r->Err_0@ == local_store_message(
                            LocalStoreStep::ParseFile,
                            paths::join(self.dir@, LOCAL_SECRET_FILE@),
                        ) + error@,
                    }
                },
            },
    {
        let path = self.secrets_path();
        match read {
            SecretFileRead::Missing => Ok(LocalSecretFile::default()),
            SecretFileRead::Failed { error } => Err(
                local_store_error(LocalStoreStep::ReadFile, path.as_str(), error.as_str()),
            ),
            SecretFileRead::Text { raw, found } => {
                if blank(raw.as_str()) {
                    return Ok(LocalSecretFile::default());
                }
                match found {
                    Ok(file) => Ok(file),
                    Err(error) => Err(
                        local_store_error(LocalStoreStep::ParseFile, path.as_str(), error.as_str()),
                    ),
                }
            },
        }
    }
}

/// A file in which nothing was saved yet.
pub open spec fn is_new_file(file: LocalSecretFile) -> bool {
    file.version == 1 && file.items@ == Map::<Seq<char>, String>::empty() && file.wf()
}

/// `after` is the file `before` with a secret saved under a label: encrypted with some
/// nonce, and with all else as it was.
pub open spec fn is_saved(
    before: LocalSecretFile,
    after: LocalSecretFile,
    label: Seq<char>,
    secret: Seq<char>,
    key: Seq<char>,
) -> bool {
    &&& after.wf()
    &&& after.version == 1
    &&& after.items@.contains_key(label)
    &&& after.items@.remove(label) == before.items@.remove(label)
    &&& exists|nonce: Seq<u8>|
        nonce.len() == 12 && #[trigger] sealed_secret(
            label,
            vstd::utf8::encode_utf8(secret),
            key,
            nonce,
        ) == Ok::<Seq<char>, Seq<char>>(after.items@[label]@)
    &&& secret_in(after.items@, label, key) == Some(secret)
}

/// A secret that was saved is read until it is deleted, and then no more; what is read
/// under other labels stays the same throughout. It is stored in the encrypted form
/// alone, and where nothing was saved nothing is read.
pub proof fn lemma_secret_is_read_until_deleted(
    before: LocalSecretFile,
    after: LocalSecretFile,
    label: Seq<char>,
    secret: Seq<char>,
    key: Seq<char>,
    other: Seq<char>,
    other_key: Seq<char>,
)
    requires
        is_saved(before, after, label, secret, key),
        other != label,
    ensures
        secret_in(after.items@, label, key) == Some(secret),
        search::after_prefix(after.items@[label]@, "v1:"@) is Some,
        secret_in(after.items@.remove(label), label, key) is None,
        secret_in(after.items@, other, other_key) == secret_in(before.items@, other, other_key),
        secret_in(after.items@.remove(label), other, other_key) == secret_in(
            before.items@,
            other,
            other_key,
        ),
        secret_in(Map::<Seq<char>, String>::empty(), label, key) is None,
{
    assert(after.items@.remove(label).contains_key(other) == after.items@.contains_key(other));
    assert(before.items@.remove(label).contains_key(other) == before.items@.contains_key(other));
    if after.items@.contains_key(other) {
        assert(after.items@.remove(label)[other] == after.items@[other]);
        assert(before.items@.remove(label)[other] == before.items@[other]);
    }
}

/// The file with a secret saved under a label. The secret is read back under it,
/// and what is read under the other labels stays the same.
pub fn save_local_secret(file: LocalSecretFile, label: &str, secret: &str, key: &str) -> (r: Result<
    LocalSecretFile,
    String,
>)
    requires
        file.wf(),
    ensures
        match r {
            Ok(saved) => is_saved(file, saved, label@, secret@, key@),
            Err(e) => e@ == match derived_key(key@) {
                Err(why) => why,
                Ok(_) => "加密本机密码失败"@,
            },
        },
        r is Ok == can_seal(label@, vstd::utf8::encode_utf8(secret@), key@),
{
    let body = match encrypt_local_secret(label, secret.as_bytes(), key) {
        Ok(body) => body,
        Err(e) => return Err(e),
    };
    let mut saved = file;
    saved.version = 1;
    saved.items.insert(label, body);
    assert(saved.items@.remove(label@) =~= file.items@.remove(label@));
    proof {
        vstd::utf8::encode_utf8_valid_utf8(secret@);
        vstd::utf8::encode_utf8_decode_utf8(secret@);
    }
    Ok(saved)
}

/// The secret that is read under a label, if there is one that can be read.
pub fn read_local_secret(file: &LocalSecretFile, label: &str, key: &str) -> (r: Option<String>)
    ensures
        chars::opt_text(r) == secret_in(file.items@, label@, key@),
{
    let body = match file.items.get(label) {
        Some(body) => body,
        None => return None,
    };
    match decrypt_local_secret(label, body.as_str(), key) {
        Ok(plaintext) => utf8_text(plaintext),
        Err(_) => None,
    }
}

/// What becomes of the file when the secret under a label is deleted: nothing, if
/// there is none; the file goes with its last secret.
pub fn delete_local_secret(file: LocalSecretFile, label: &str) -> (r: SecretFileChange)
    requires
        file.wf(),
    ensures
        match r {
            SecretFileChange::Unchanged => !file.items@.contains_key(label@),
            SecretFileChange::Deleted => {
                &&& file.items@.contains_key(label@)
                &&& file.items@.remove(label@) == Map::<Seq<char>, String>::empty()
            },
            SecretFileChange::Saved(left) => {
                &&& file.items@.contains_key(label@)
                &&& left.wf()
                &&& left.version == file.version
                &&& left.items@ == file.items@.remove(label@)
                &&& left.items@ != Map::<Seq<char>, String>::empty()
            },
        },
{
    let mut left = file;
    if left.items.remove(label).is_none() {
        return SecretFileChange::Unchanged;
    }
    if left.items.is_empty() {
        SecretFileChange::Deleted
    } else {
        SecretFileChange::Saved(left)
    }
}

/// What is done after the system was asked to save a secret.
#[derive(Debug)]
pub enum AfterSystemSave {
    /// The copy of this program is no longer needed.
    DeleteLocal,
    /// This program must keep the secret itself.
    SaveLocal { system_error: String },
}

/// What went wrong, if anything did.
pub open spec fn fault_of(r: Result<(), String>) -> Option<Seq<char>> {
    match r {
        Ok(()) => None,
        Err(e) => Some(e@),
    }
}

/// What is wrong with saving a secret that the system did not save, by what went wrong here.
pub open spec fn saving_fault(system_error: Seq<char>, local: Option<Seq<char>>) -> Option<
    Seq<char>,
> {
    match local {
        None => None,
        Some(e) => Some(
            "系统安全存储失败："@ + system_error + "；本机加密存储也失败："@ + e,
        ),
    }
}

/// The secret that is read.
pub open spec fn preferred(system: Option<Seq<char>>, local: Option<Seq<char>>) -> Option<
    Seq<char>,
> {
    match system {
        Some(secret) => Some(secret),
        None => local,
    }
}

/// What is wrong with deleting a secret, by what went wrong in the two places.
pub open spec fn deletion_fault(system: Option<Seq<char>>, local: Option<Seq<char>>) -> Option<
    Seq<char>,
> {
    match (system, local) {
        (Some(a), Some(b)) => Some(
            "系统安全存储删除失败："@ + a + "；本机加密存储删除失败："@ + b,
        ),
        _ => None,
    }
}

/// A secret of the system comes before one of this program. Saving fails only if both
/// places failed, and so does deleting; the user is then told what went wrong in both.
pub proof fn lemma_two_places(
    secret: Seq<char>,
    local: Option<Seq<char>>,
    a: Seq<char>,
    b: Seq<char>,
)
    ensures
        preferred(Some(secret), local) == Some(secret),
        preferred(None, local) == local,
        saving_fault(a, None) is None,
        saving_fault(a, Some(b)) matches Some(all) && search::contains(all, a) && search::ends(
            all,
            b,
        ),
        deletion_fault(None, Some(b)) is None && deletion_fault(Some(a), None) is None
            && deletion_fault(None, None) is None,
        deletion_fault(Some(a), Some(b)) matches Some(all) && search::contains(all, a)
            && search::ends(all, b),
{
    let s = saving_fault(a, Some(b))->0;
    let k = "系统安全存储失败："@.len() as int;
    assert(s.subrange(k, k + a.len()) =~= a);
    assert(search::occurs_at(s, a, k));
    search::lemma_ends_joined("系统安全存储失败："@ + a + "；本机加密存储也失败："@, b);
    let t = deletion_fault(Some(a), Some(b))->0;
    let m = "系统安全存储删除失败："@.len() as int;
    assert(t.subrange(m, m + a.len()) =~= a);
    assert(search::occurs_at(t, a, m));
    search::lemma_ends_joined("系统安全存储删除失败："@ + a + "；本机加密存储删除失败："@, b);
}

/// What is done after the system was asked to save a secret.
pub fn after_system_save(saved: Result<(), String>) -> (r: AfterSystemSave)
    ensures
        match saved {
            Ok(()) => r is DeleteLocal,
            Err(e) => r matches AfterSystemSave::SaveLocal { system_error } && system_error@ == e@,
        },
{
    match saved {
        Ok(()) => AfterSystemSave::DeleteLocal,
        Err(e) => AfterSystemSave::SaveLocal { system_error: e },
    }
}

/// What saving a secret comes to where the system failed with `system_error`.
pub fn save_secret_with_fallback(system_error: &str, local: Result<(), String>) -> (r: Result<
    (),
    String,
>)
    ensures
        fault_of(r) == saving_fault(system_error@, fault_of(local)),
{
    match local {
        Ok(()) => Ok(()),
        Err(e) => Err(
            cat4("系统安全存储失败：", system_error, "；本机加密存储也失败：", e.as_str()),
        ),
    }
}

/// The secret that is read: the system's, or else that of this program.
pub fn read_secret_with_fallback(system: Option<String>, local: Option<String>) -> (r: Option<
    String,
>)
    ensures
        chars::opt_text(r) == preferred(chars::opt_text(system), chars::opt_text(local)),
{
    match system {
        Some(secret) => Some(secret),
        None => local,
    }
}

/// What deleting a secret comes to: one of the two places is enough.
pub fn delete_secret_with_fallback(system: Result<(), String>, local: Result<(), String>) -> (r:
    Result<(), String>)
    ensures
        fault_of(r) == deletion_fault(fault_of(system), fault_of(local)),
{
    match (system, local) {
        (Err(a), Err(b)) => Err(
            cat4("系统安全存储删除失败：", a.as_str(), "；本机加密存储删除失败：", b.as_str()),
        ),
        _ => Ok(()),
    }
}

/// The steps on the local files that may fail.
#[derive(Debug, Clone, Copy, PartialEq, Eq, Structural)]
pub enum LocalStoreStep {
    CheckDir,
    CreateDir,
    ProtectDir,
    CheckFile,
    ReadFile,
    ParseFile,
    SerialiseFile,
    WriteTemp,
    ProtectTemp,
    RenameTemp,
    ProtectFile,
    DeleteFile,
    CheckKey,
    ReadKey,
    WriteKey,
    ProtectKey,
}

/// How the failure of a step is reported, before the error itself.
pub open spec fn local_store_message(step: LocalStoreStep, path: Seq<char>) -> Seq<char> {
    match step {
        LocalStoreStep::CheckDir => "本机密码目录安全拒绝："@,
        LocalStoreStep::CreateDir => "无法创建本机密码目录 "@ + path + "："@,
        LocalStoreStep::ProtectDir => "设置本机密码目录权限失败："@,
        LocalStoreStep::CheckFile => "本机密码文件安全拒绝："@,
        LocalStoreStep::ReadFile => "读取本机密码文件 "@ + path + " 失败："@,
        LocalStoreStep::ParseFile => "解析本机密码文件失败："@,
        LocalStoreStep::SerialiseFile => "序列化本机密码文件失败："@,
        LocalStoreStep::WriteTemp => "写入本机密码临时文件失败："@,
        LocalStoreStep::ProtectTemp => "设置本机密码文件权限失败："@,
        LocalStoreStep::RenameTemp => "替换本机密码文件失败："@,
        LocalStoreStep::ProtectFile => "确认本机密码文件权限失败："@,
        LocalStoreStep::DeleteFile => "删除本机密码文件失败："@,
        LocalStoreStep::CheckKey => "本机密码密钥文件安全拒绝："@,
        LocalStoreStep::ReadKey => "读取本机密码密钥文件失败："@,
        LocalStoreStep::WriteKey => "写入本机密码密钥文件失败："@,
        LocalStoreStep::ProtectKey => "设置本机密码密钥文件权限失败："@,
    }
}

/// The message for a step on `path` that failed with `error`.
pub fn local_store_error(step: LocalStoreStep, path: &str, error: &str) -> (r: String)
    ensures
        r@ == local_store_message(step, path@) + error@,
{
    match step {
        LocalStoreStep::CheckDir => cat2("本机密码目录安全拒绝：", error),
        LocalStoreStep::CreateDir => cat4("无法创建本机密码目录 ", path, "：", error),
        LocalStoreStep::ProtectDir => cat2("设置本机密码目录权限失败：", error),
        LocalStoreStep::CheckFile => cat2("本机密码文件安全拒绝：", error),
        LocalStoreStep::ReadFile => cat4("读取本机密码文件 ", path, " 失败：", error),
        LocalStoreStep::ParseFile => cat2("解析本机密码文件失败：", error),
        LocalStoreStep::SerialiseFile => cat2("序列化本机密码文件失败：", error),
        LocalStoreStep::WriteTemp => cat2("写入本机密码临时文件失败：", error),
        LocalStoreStep::ProtectTemp => cat2("设置本机密码文件权限失败：", error),
        LocalStoreStep::RenameTemp => cat2("替换本机密码文件失败：", error),
        LocalStoreStep::ProtectFile => cat2("确认本机密码文件权限失败：", error),
        LocalStoreStep::DeleteFile => cat2("删除本机密码文件失败：", error),
        LocalStoreStep::CheckKey => cat2("本机密码密钥文件安全拒绝：", error),
        LocalStoreStep::ReadKey => cat2("读取本机密码密钥文件失败：", error),
        LocalStoreStep::WriteKey => cat2("写入本机密码密钥文件失败：", error),
        LocalStoreStep::ProtectKey => cat2("设置本机密码密钥文件权限失败：", error),
    }
}

/// The step of saving the file that follows a step.
pub open spec fn local_step_after(step: LocalStoreStep) -> Option<LocalStoreStep> {
    match step {
        LocalStoreStep::CheckDir => Some(LocalStoreStep::CreateDir),
        LocalStoreStep::CreateDir => Some(LocalStoreStep::ProtectDir),
        LocalStoreStep::ProtectDir => Some(LocalStoreStep::CheckFile),
        LocalStoreStep::CheckFile => Some(LocalStoreStep::SerialiseFile),
        LocalStoreStep::SerialiseFile => Some(LocalStoreStep::WriteTemp),
        LocalStoreStep::WriteTemp => Some(LocalStoreStep::ProtectTemp),
        LocalStoreStep::ProtectTemp => Some(LocalStoreStep::RenameTemp),
        LocalStoreStep::RenameTemp => Some(LocalStoreStep::ProtectFile),
        _ => None,
    }
}

/// Saving the file goes on after a step that succeeded, and ends with the error of one
/// that failed. It begins with `LocalStoreStep::CheckDir`.
pub fn save_file(step: LocalStoreStep, path: &str, outcome: Result<(), String>) -> (r: Result<
    Option<LocalStoreStep>,
    String,
>)
    ensures
        match r {
            Ok(next) => outcome is Ok && next == local_step_after(step),
            Err(e) => outcome is Err && e@ == local_store_message(step, path@) + outcome->Err_0@,
        },
{
    if let Err(e) = outcome {
        return Err(local_store_error(step, path, e.as_str()));
    }
    Ok(
        match step {
            LocalStoreStep::CheckDir => Some(LocalStoreStep::CreateDir),
            LocalStoreStep::CreateDir => Some(LocalStoreStep::ProtectDir),
            LocalStoreStep::ProtectDir => Some(LocalStoreStep::CheckFile),
            LocalStoreStep::CheckFile => Some(LocalStoreStep::SerialiseFile),
            LocalStoreStep::SerialiseFile => Some(LocalStoreStep::WriteTemp),
            LocalStoreStep::WriteTemp => Some(LocalStoreStep::ProtectTemp),
            LocalStoreStep::ProtectTemp => Some(LocalStoreStep::RenameTemp),
            LocalStoreStep::RenameTemp => Some(LocalStoreStep::ProtectFile),
            _ => None,
        },
    )
}

/// The place of a step in the order in which the file is saved.
pub open spec fn local_step_place(step: LocalStoreStep) -> int {
    match step {
        LocalStoreStep::CheckDir => 0,
        LocalStoreStep::CreateDir => 1,
        LocalStoreStep::ProtectDir => 2,
        LocalStoreStep::CheckFile => 3,
        LocalStoreStep::SerialiseFile => 4,
        LocalStoreStep::WriteTemp => 5,
        LocalStoreStep::ProtectTemp => 6,
        LocalStoreStep::RenameTemp => 7,
        LocalStoreStep::ProtectFile => 8,
        _ => 9,
    }
}

/// Secrets are written only where the directory is closed to others, and take their
/// place only once the new file is closed to others too; each step is taken once, in
/// order.
pub proof fn lemma_local_save_order(step: LocalStoreStep)
    requires
        local_step_place(step) < 9,
    ensures
        match local_step_after(step) {
            Some(next) => local_step_place(next) == local_step_place(step) + 1,
            None => step == LocalStoreStep::ProtectFile,
        },
        local_step_after(step) == Some(LocalStoreStep::RenameTemp) ==> step
            == LocalStoreStep::ProtectTemp,
        local_step_place(LocalStoreStep::ProtectDir) < local_step_place(LocalStoreStep::WriteTemp),
{
}

/// A password is named so, and so is that of a key, for which a path is needed; nothing
/// else is named.
pub proof fn lemma_named_kinds(kind: Seq<char>, path: Seq<char>)
    ensures
        named_kind("password"@, None) == Ok::<KindView, Seq<char>>(KindView::Password),
        named_kind("password"@, Some(path)) == Ok::<KindView, Seq<char>>(KindView::Password),
        !trim::is_blank(path) ==> named_kind("keyPassword"@, Some(path)) == Ok::<
            KindView,
            Seq<char>,
        >(KindView::KeyPassword(trim::trim(path))),
        trim::is_blank(path) ==> named_kind("keyPassword"@, Some(path)) is Err,
        named_kind("keyPassword"@, None) is Err,
        kind != "password"@ && kind != "keyPassword"@ ==> named_kind(kind, Some(path)) is Err,
{
    reveal_strlit("password");
    reveal_strlit("keyPassword");
    assert("password"@.len() != "keyPassword"@.len());
}

/// A label names the profile by its digest, and the key by that of its path, and tells
/// what the secret is.
pub proof fn lemma_labels(profile_id: Seq<char>, path: Seq<char>)
    ensures
        label(profile_id, KindView::Password) == "remote:"@ + text_digest(profile_id)
            + ":password"@,
        search::begins(
            label(profile_id, KindView::KeyPassword(path)),
            "remote:"@ + text_digest(profile_id) + ":key-password:"@,
        ),
        search::ends(label(profile_id, KindView::KeyPassword(path)), text_digest(path)),
        label(profile_id, KindView::Password) != label(profile_id, KindView::KeyPassword(path)),
{
    reveal_strlit(":password");
    reveal_strlit(":key-password:");
    let head = "remote:"@ + text_digest(profile_id);
    search::lemma_ends_joined(head + ":key-password:"@, text_digest(path));
    let k = head.len() as int;
    assert(label(profile_id, KindView::Password)[k + 1] == 'p');
    assert(label(profile_id, KindView::KeyPassword(path))[k + 1] == 'k');
}

/// Secrets can be encrypted with a key of at least 16 bytes in base64, whatever white space
/// is around it, and with no other; what they are encrypted with is derived from its bytes.
pub proof fn lemma_derived_key(root: Seq<char>)
    ensures
        derived_key(root) is Ok <==> is_root_key(trim::trim(root)),
        is_root_key(root) <==> (crypto::base64_decoded(root) is Ok && crypto::base64_decoded(
            root,
        )->Ok_0.len() >= 16),
        derived_key(root) matches Ok(key) ==> key == crypto::hkdf_derived(
            crypto::base64_decoded(trim::trim(root))->Ok_0,
            vstd::utf8::encode_utf8("csswitch:remote-login-secrets:v1"@),
        ),
{
}

/// A line holds a key behind its name alone; the first line with a usable one counts.
pub proof fn lemma_first_key(before: Seq<Seq<char>>, key: Seq<char>, after: Seq<Seq<char>>)
    requires
        forall|i: int| 0 <= i < before.len() ==> key_in_line(#[trigger] before[i]) is None,
        is_root_key(key),
        trim::trim(key) == key,
    ensures
        key_in_lines(before + seq!["REMOTE_SECRET_ENCRYPTION_KEY="@ + key] + after) == Some(key),
    decreases before.len(),
{
    let line = "REMOTE_SECRET_ENCRYPTION_KEY="@ + key;
    let n = "REMOTE_SECRET_ENCRYPTION_KEY="@.len() as int;
    assert(line.take(n) =~= LOCAL_KEY_PREFIX@);
    assert(line.skip(n) =~= key);
    let all = before + seq![line] + after;
    if before.len() == 0 {
        assert(all[0] == line);
    } else {
        assert(all[0] == before[0]);
        let rest = before.drop_first();
        assert forall|i: int| 0 <= i < rest.len() implies key_in_line(#[trigger] rest[i]) is None by {
            assert(rest[i] == before[i + 1]);
        }
        lemma_first_key(rest, key, after);
        assert(all.drop_first() =~= rest + seq![line] + after);
    }
}

/// What goes wrong with a step is told behind what the step was; a file or a directory that
/// can be any one is named. Nothing is read from a file in which nothing was saved.
pub proof fn lemma_local_store_messages(
    step: LocalStoreStep,
    path: Seq<char>,
    error: Seq<char>,
    file: LocalSecretFile,
    name: Seq<char>,
    key: Seq<char>,
)
    requires
        is_new_file(file),
    ensures
        search::ends(local_store_message(step, path) + error, error),
        step == LocalStoreStep::CreateDir || step == LocalStoreStep::ReadFile ==> search::contains(
            local_store_message(step, path),
            path,
        ),
        file.version == 1 && secret_in(file.items@, name, key) is None,
{
    search::lemma_ends_joined(local_store_message(step, path), error);
    let m = local_store_message(step, path);
    if step == LocalStoreStep::CreateDir {
        let k = "无法创建本机密码目录 "@.len() as int;
        assert(m.subrange(k, k + path.len()) =~= path);
        assert(search::occurs_at(m, path, k));
    } else if step == LocalStoreStep::ReadFile {
        let k = "读取本机密码文件 "@.len() as int;
        assert(m.subrange(k, k + path.len()) =~= path);
        assert(search::occurs_at(m, path, k));
    }
}

} // verus!
