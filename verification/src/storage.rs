//! Configuration and chat-message records the host persists beside the
//! memory databases, and the reversible obfuscation applied to sensitive
//! fields before they are written out.

use vstd::prelude::*;
use base64::Engine;

verus! {

/// Connection settings for a language-model provider.
#[derive(Debug, Clone)]
pub struct AppConfig {
    pub provider: String,
    pub api_key: String,
    pub base_url: String,
    pub model: String,
    pub stream: bool,
    pub timeout: u32,
    pub max_retries: u32,
}

/// One chat message in a character's history.
#[derive(Debug, Clone)]
pub struct ChatMessage {
    pub character_id: String,
    pub role: String,
    pub content: String,
    pub timestamp: i64,
}

/// What the standard-alphabet encoding makes of a text's UTF-8 bytes.
pub uninterp spec fn b64_of_text(s: Seq<char>) -> Seq<char>;

/// Reversible obfuscation for sensitive fields, not cryptographic
/// protection.
///
/// Relies on base64's standard-alphabet engine: the encoding depends on
/// the input characters alone.
#[verifier::external_body]
pub fn simple_encrypt(data: &str) -> (r: String)
    ensures
        r@ == b64_of_text(data@),
{
    base64::engine::general_purpose::STANDARD.encode(data)
}

/// Undoes [`simple_encrypt`].
///
/// Relies on the same engine's decode, which inverts the encoding: fed an
/// encoded text, it yields that text's bytes, which are valid UTF-8.
#[verifier::external_body]
pub fn simple_decrypt(data: &str) -> (r: Result<String, String>)
    ensures
        forall|s: Seq<char>| data@ == #[trigger] b64_of_text(s) ==> r is Ok && r->Ok_0@ == s,
{
    base64::engine::general_purpose::STANDARD.decode(data).map(
        |v| String::from_utf8(v).unwrap_or_default(),
    ).map_err(|e| e.to_string())
}

} // verus!
