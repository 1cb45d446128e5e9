//! What `ssh` asks the user for.

use vstd::prelude::*;

use crate::text::encode;
use crate::text::search::{self, includes};

verus! {

/// What a prompt asks for.
#[derive(Debug, Clone, Copy, PartialEq, Eq, Structural)]
pub enum PromptKind {
    Password,
    KeyPassword,
    VerificationCode,
    Unknown,
}

/// A prompt, in lower case, for a code that is good for one login only.
pub open spec fn asks_for_code(lower: Seq<char>) -> bool {
    ||| search::contains(lower, "one-time"@)
    ||| search::contains(lower, "one time"@)
    ||| search::contains(lower, "otp"@)
    ||| search::contains(lower, "verification"@)
    ||| search::contains(lower, "passcode"@)
    ||| search::contains(lower, "token"@)
    ||| search::contains(lower, "2fa"@)
    ||| search::contains(lower, "mfa"@)
    ||| search::contains(lower, "two-factor"@)
    ||| search::contains(lower, "multi-factor"@)
    ||| search::contains(lower, "duo"@)
    ||| search::contains(lower, "动态"@)
    ||| search::contains(lower, "一次性"@)
    ||| search::contains(lower, "验证码"@)
    ||| search::contains(lower, "令牌"@)
    ||| search::contains(lower, "双因素"@)
    ||| search::contains(lower, "多因素"@)
    ||| search::contains(lower, "短信验证"@)
    ||| search::contains(lower, "手机验证"@)
}

/// What a prompt asks for: `prompt` is the prompt itself, `lower` the same in
/// lower case.
pub open spec fn prompt_kind(prompt: Seq<char>, lower: Seq<char>) -> PromptKind {
    if asks_for_code(lower) {
        PromptKind::VerificationCode
    } else if search::contains(lower, "passphrase"@) || search::contains(prompt, "密钥密码"@) {
        PromptKind::KeyPassword
    } else if search::contains(lower, "password"@) || search::contains(prompt, "密码"@)
        || search::contains(prompt, "口令"@) {
        PromptKind::Password
    } else {
        PromptKind::Unknown
    }
}

/// A prompt for a code is never taken for one for a password, whatever else it
/// says.
pub proof fn lemma_code_prompts_are_not_passwords(prompt: Seq<char>, lower: Seq<char>)
    requires
        asks_for_code(lower),
    ensures
        prompt_kind(prompt, lower) == PromptKind::VerificationCode,
{
}

/// What a prompt asks for, where `lower` is `prompt` in lower case.
pub fn classify_lowered_prompt(prompt: &str, lower: &str) -> (r: PromptKind)
    ensures
        r == prompt_kind(prompt@, lower@),
{
    if includes(lower, "one-time")
        || includes(lower, "one time")
        || includes(lower, "otp")
        || includes(lower, "verification")
        || includes(lower, "passcode")
        || includes(lower, "token")
        || includes(lower, "2fa")
        || includes(lower, "mfa")
        || includes(lower, "two-factor")
        || includes(lower, "multi-factor")
        || includes(lower, "duo")
        || includes(lower, "动态")
        || includes(lower, "一次性")
        || includes(lower, "验证码")
        || includes(lower, "令牌")
        || includes(lower, "双因素")
        || includes(lower, "多因素")
        || includes(lower, "短信验证")
        || includes(lower, "手机验证") {
        return PromptKind::VerificationCode;
    }
    if includes(lower, "passphrase") || includes(prompt, "密钥密码") {
        return PromptKind::KeyPassword;
    }
    if includes(lower, "password") || includes(prompt, "密码") || includes(prompt, "口令") {
        return PromptKind::Password;
    }
    PromptKind::Unknown
}

/// What a prompt asks for.
pub fn classify_prompt(prompt: &str) -> (r: PromptKind)
    ensures
        r == prompt_kind(prompt@, encode::lowered(prompt@)),
{
    let lower = prompt.to_lowercase();
    classify_lowered_prompt(prompt, lower.as_str())
}

/// A prompt that speaks of a code in any of these words asks for one. Else one that speaks
/// of a passphrase asks for the password of a key, else one that speaks of a password asks
/// for it, and what else a prompt asks for is not known.
pub proof fn lemma_prompt_kinds(prompt: Seq<char>, lower: Seq<char>, word: Seq<char>)
    requires
        search::contains(lower, word),
    ensures
        word == "otp"@ || word == "token"@ || word == "2fa"@ || word == "mfa"@ || word == "duo"@
            || word == "passcode"@ || word == "verification"@ || word == "one-time"@ || word
            == "one time"@ || word == "two-factor"@ || word == "multi-factor"@ || word == "动态"@
            || word == "一次性"@ || word == "验证码"@ || word == "令牌"@ || word == "双因素"@
            || word == "多因素"@ || word == "短信验证"@ || word == "手机验证"@ ==> prompt_kind(
            prompt,
            lower,
        ) == PromptKind::VerificationCode,
        word == "passphrase"@ && !asks_for_code(lower) ==> prompt_kind(prompt, lower)
            == PromptKind::KeyPassword,
        word == "password"@ && !asks_for_code(lower) && !search::contains(lower, "passphrase"@)
            && !search::contains(prompt, "密钥密码"@) ==> prompt_kind(prompt, lower)
            == PromptKind::Password,
{
}

/// The same words in Chinese ask for the same.
pub proof fn lemma_chinese_prompts(prompt: Seq<char>, lower: Seq<char>)
    requires
        !asks_for_code(lower),
    ensures
        search::contains(prompt, "密钥密码"@) ==> prompt_kind(prompt, lower)
            == PromptKind::KeyPassword,
        !search::contains(lower, "passphrase"@) && !search::contains(prompt, "密钥密码"@) && (
        search::contains(prompt, "密码"@) || search::contains(prompt, "口令"@)) ==> prompt_kind(
            prompt,
            lower,
        ) == PromptKind::Password,
        !search::contains(lower, "passphrase"@) && !search::contains(prompt, "密钥密码"@)
            && !search::contains(lower, "password"@) && !search::contains(prompt, "密码"@)
            && !search::contains(prompt, "口令"@) ==> prompt_kind(prompt, lower)
            == PromptKind::Unknown,
{
}

} // verus!
