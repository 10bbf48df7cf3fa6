use vstd::prelude::*;

use base64::Engine;
use rsa::pkcs1::DecodeRsaPrivateKey;

use crate::cache::MessageField;
use crate::matcher::Matcher;

verus! {

/// Why a host capability refused a script's call. Each failure surfaces to
/// the calling script as a catchable error, never a crash.
#[derive(Clone, Copy, Debug, PartialEq, Eq, Structural)]
pub enum HostError {
    /// The packet-name argument is missing.
    MissingName,
    /// The packet-id argument is missing.
    MissingId,
    /// The field argument is missing.
    MissingField,
    /// The value argument of a decode is missing.
    MissingValue,
    /// The private-key argument is missing.
    MissingKey,
    /// The encrypted-message argument is missing.
    MissingCiphertext,
    /// The argument has a kind the capability does not take.
    InvalidType,
    /// The private key is not a PKCS#1 PEM private key.
    InvalidKey,
    /// The text is not well-formed standard base64.
    BadBase64,
    /// The ciphertext does not decrypt under the given key.
    DecryptFailed,
}

/// What standard base64 decoding yields on this text: the bytes, or nothing
/// when the text is not well-formed base64.
pub uninterp spec fn base64_decoded(text: Seq<char>) -> Option<Seq<u8>>;

/// Relies on base64::Engine::decode with the standard alphabet and padding:
/// deterministic in the text alone.
#[verifier::external_body]
fn base64_decode_raw(text: &str) -> (r: Option<Vec<u8>>)
    ensures
        match r {
            Some(b) => base64_decoded(text@) == Some(b@),
            None => base64_decoded(text@) is None,
        },
{
    base64::prelude::BASE64_STANDARD.decode(text).ok()
}

/// Whether this text parses as a PKCS#1 PEM private key.
pub uninterp spec fn pem_key_ok(pem: Seq<char>) -> bool;

/// What PKCS#1 v1.5 decryption with the key in this PEM text yields on this
/// ciphertext: the plaintext, or nothing when decryption fails.
pub uninterp spec fn rsa_decrypted(pem: Seq<char>, ciphertext: Seq<u8>) -> Option<Seq<u8>>;

/// Relies on rsa::RsaPrivateKey::from_pkcs1_pem: whether a PEM text parses as
/// a key is deterministic in the text alone.
#[verifier::external_body]
fn pem_key_check(pem: &str) -> (r: bool)
    ensures
        r == pem_key_ok(pem@),
{
    rsa::RsaPrivateKey::from_pkcs1_pem(pem).is_ok()
}

/// Relies on rsa::RsaPrivateKey::from_pkcs1_pem and on
/// rsa::RsaPrivateKey::decrypt with PKCS#1 v1.5 padding: parsing and
/// unblinded decryption are both deterministic in the PEM text and the
/// ciphertext alone.
#[verifier::external_body]
fn rsa_decrypt_raw(pem: &str, ciphertext: &[u8]) -> (r: Result<Vec<u8>, HostError>)
    ensures
        match r {
            Ok(b) => pem_key_ok(pem@) && rsa_decrypted(pem@, ciphertext@) == Some(b@),
            Err(e) => (e == HostError::InvalidKey && !pem_key_ok(pem@)) || (e
                == HostError::DecryptFailed && pem_key_ok(pem@) && rsa_decrypted(
                pem@,
                ciphertext@,
            ) is None),
        },
{
    let key = match rsa::RsaPrivateKey::from_pkcs1_pem(pem) {
        Ok(key) => key,
        Err(_) => {
            return Err(HostError::InvalidKey);
        },
    };
    match key.decrypt(rsa::Pkcs1v15Encrypt, ciphertext) {
        Ok(plain) => Ok(plain),
        Err(_) => Err(HostError::DecryptFailed),
    }
}

/// The `identify` capability: records a script's guess in the shared cache.
///
/// The arguments arrive already lifted out of the sandbox's dynamic values; a
/// missing one is refused in argument order, and nothing is recorded then.
pub fn host_identify(
    matcher: &mut Matcher,
    name: Option<String>,
    id: Option<u16>,
    field: Option<MessageField>,
) -> (r: Result<(), HostError>)
    requires
        old(matcher).wf(),
    ensures
        final(matcher).wf(),
        match r {
            Ok(_) => ({
                &&& name matches Some(n)
                &&& id matches Some(i)
                &&& field matches Some(f)
                &&& final(matcher)@.cache == old(matcher)@.cache.updated(n@, i, f@)
                &&& final(matcher)@.roster == old(matcher)@.roster
            }),
            Err(e) => final(matcher)@ == old(matcher)@ && ((e == HostError::MissingName
                && name is None) || (e == HostError::MissingId && name is Some && id is None) || (
            e == HostError::MissingField && name is Some && id is Some && field is None)),
        },
        r is Ok <==> (name is Some && id is Some && field is Some),
{
    let packet_name = match name {
        Some(n) => n,
        None => {
            return Err(HostError::MissingName);
        },
    };
    let packet_id = match id {
        Some(i) => i,
        None => {
            return Err(HostError::MissingId);
        },
    };
    let packet_field = match field {
        Some(f) => f,
        None => {
            return Err(HostError::MissingField);
        },
    };
    matcher.identify(packet_name, packet_id, packet_field);
    Ok(())
}

/// The argument a script hands to `isKnown`, classified by the embedder: a
/// numeric packet id, a text name, or a value of any other kind.
pub enum KnownQuery {
    /// A numeric argument, narrowed to a packet id.
    Id(u16),
    /// A text argument, a packet name.
    Name(String),
    /// An argument of any other kind.
    Other,
}

/// The `isKnown` capability: a numeric argument asks whether the id is known,
/// a text argument whether the name is; any other argument kind is refused.
pub fn host_is_known(matcher: &Matcher, query: Option<KnownQuery>) -> (r: Result<bool, HostError>)
    requires
        matcher.wf(),
    ensures
        match query {
            Some(KnownQuery::Id(id)) => r == Ok::<bool, HostError>(
                matcher@.cache.ids.contains(id),
            ),
            Some(KnownQuery::Name(n)) => r == Ok::<bool, HostError>(
                matcher@.cache.names.contains(n@),
            ),
            Some(KnownQuery::Other) => r == Err::<bool, HostError>(HostError::InvalidType),
            None => r == Err::<bool, HostError>(HostError::MissingId),
        },
{
    match query {
        Some(KnownQuery::Id(id)) => Ok(matcher.knowledge().id_known(id)),
        Some(KnownQuery::Name(n)) => Ok(matcher.knowledge().name_known(n.as_str())),
        Some(KnownQuery::Other) => Err(HostError::InvalidType),
        None => Err(HostError::MissingId),
    }
}

/// The `base64Decode` capability: standard base64 decoding of the script's
/// text argument; malformed input is a catchable error, never a crash.
pub fn host_base64_decode(text: Option<String>) -> (r: Result<Vec<u8>, HostError>)
    ensures
        match text {
            Some(t) => match r {
                Ok(b) => base64_decoded(t@) == Some(b@),
                Err(e) => e == HostError::BadBase64 && base64_decoded(t@) is None,
            },
            None => r == Err::<Vec<u8>, HostError>(HostError::MissingValue),
        },
{
    let t = match text {
        Some(t) => t,
        None => {
            return Err(HostError::MissingValue);
        },
    };
    match base64_decode_raw(t.as_str()) {
        Some(bytes) => Ok(bytes),
        None => Err(HostError::BadBase64),
    }
}

/// The `rsaDecrypt` capability: the private key must be PKCS#1 PEM, the
/// ciphertext standard base64. Each failure is its own catchable error, in
/// the order the call checks them: missing arguments, then the key, then the
/// ciphertext text, then the decryption itself.
pub fn host_rsa_decrypt(private_key: Option<String>, encrypted: Option<String>) -> (r: Result<
    Vec<u8>,
    HostError,
>)
    ensures
        match (private_key, encrypted) {
            (Some(k), Some(c)) => {
                if !pem_key_ok(k@) {
                    r == Err::<Vec<u8>, HostError>(HostError::InvalidKey)
                } else {
                    match base64_decoded(c@) {
                        Some(ct) => match r {
                            Ok(b) => rsa_decrypted(k@, ct) == Some(b@),
                            Err(e) => e == HostError::DecryptFailed && rsa_decrypted(
                                k@,
                                ct,
                            ) is None,
                        },
                        None => r == Err::<Vec<u8>, HostError>(HostError::BadBase64),
                    }
                }
            },
            (None, _) => r == Err::<Vec<u8>, HostError>(HostError::MissingKey),
            (Some(_), None) => r == Err::<Vec<u8>, HostError>(HostError::MissingCiphertext),
        },
{
    let key_pem = match private_key {
        Some(k) => k,
        None => {
            return Err(HostError::MissingKey);
        },
    };
    let encrypted_text = match encrypted {
        Some(c) => c,
        None => {
            return Err(HostError::MissingCiphertext);
        },
    };
    if !pem_key_check(key_pem.as_str()) {
        return Err(HostError::InvalidKey);
    }
    let ciphertext = match base64_decode_raw(encrypted_text.as_str()) {
        Some(bytes) => bytes,
        None => {
            return Err(HostError::BadBase64);
        },
    };
    rsa_decrypt_raw(key_pem.as_str(), ciphertext.as_slice())
}

/// A script-side value as the embedder classifies it for the logging
/// capabilities. Numeric and big-integer values arrive with their natural
/// text form already rendered by the embedder: rendering a float's text
/// cannot live here.
pub enum ScriptValue {
    /// An absent value.
    Undefined,
    /// A null value.
    Null,
    /// A boolean.
    Bool(bool),
    /// A number, carried as its natural text form.
    Number(String),
    /// A text value, taken as-is.
    Text(String),
    /// A symbol-like value's descriptive name, when it has one.
    Symbol(Option<String>),
    /// A big integer, carried as its decimal text.
    BigInt(String),
    /// An object's best-effort textual coercion, when one succeeded.
    Object(Option<String>),
}

/// The fixed textual policy for values a script hands to the logging
/// capabilities: absent values and every failed coercion read `undefined`,
/// null reads `null`, booleans their two word forms, and every text-bearing
/// value its text.
pub open spec fn stringify_spec(v: ScriptValue) -> Seq<char> {
    match v {
        ScriptValue::Undefined => "undefined"@,
        ScriptValue::Null => "null"@,
        ScriptValue::Bool(b) => if b {
            "true"@
        } else {
            "false"@
        },
        ScriptValue::Number(s) => s@,
        ScriptValue::Text(s) => s@,
        ScriptValue::Symbol(name) => match name {
            Some(s) => s@,
            None => "undefined"@,
        },
        ScriptValue::BigInt(s) => s@,
        ScriptValue::Object(text) => match text {
            Some(s) => s@,
            None => "undefined"@,
        },
    }
}

/// Converts a script value into the text the logging capabilities emit.
pub fn stringify_value(value: ScriptValue) -> (r: String)
    ensures
        r@ == stringify_spec(value),
{
    match value {
        ScriptValue::Undefined => "undefined".to_owned(),
        ScriptValue::Null => "null".to_owned(),
        ScriptValue::Bool(b) => {
            if b {
                "true".to_owned()
            } else {
                "false".to_owned()
            }
        },
        ScriptValue::Number(s) => s,
        ScriptValue::Text(s) => s,
        ScriptValue::Symbol(name) => match name {
            Some(s) => s,
            None => "undefined".to_owned(),
        },
        ScriptValue::BigInt(s) => s,
        ScriptValue::Object(text) => match text {
            Some(s) => s,
            None => "undefined".to_owned(),
        },
    }
}

/// What the environment-file grammar yields on this text: the key/value
/// pairs in ascending key order, or nothing when the text is malformed.
pub uninterp spec fn dotenv_parsed(content: Seq<char>) -> Option<Seq<(Seq<char>, Seq<char>)>>;

/// The views of a sequence of loaded key/value pairs.
pub open spec fn pair_views(pairs: Seq<(String, String)>) -> Seq<(Seq<char>, Seq<char>)> {
    pairs.map(|i: int, p: (String, String)| (p.0@, p.1@))
}

/// Relies on dotenv_parser::parse_dotenv: a deterministic parse of simple
/// KEY=VALUE lines into an ordered map, handed out here as its pairs in
/// ascending key order.
#[verifier::external_body]
fn parse_env_text(content: &str) -> (r: Option<Vec<(String, String)>>)
    ensures
        match r {
            Some(pairs) => dotenv_parsed(content@) == Some(pair_views(pairs@)),
            None => dotenv_parsed(content@) is None,
        },
{
    match dotenv_parser::parse_dotenv(content) {
        Ok(map) => Some(map.into_iter().collect()),
        Err(_) => None,
    }
}

/// Builds the read-only environment snapshot scripts will see, and says
/// whether a warning is due. An absent file yields an empty snapshot; a
/// malformed file yields an empty snapshot and a warning; a well-formed file
/// yields its pairs verbatim.
pub fn load_env(content: Option<&str>) -> (r: (Vec<(String, String)>, bool))
    ensures
        match content {
            None => r.0@.len() == 0 && !r.1,
            Some(text) => match dotenv_parsed(text@) {
                Some(pairs) => pair_views(r.0@) == pairs && !r.1,
                None => r.0@.len() == 0 && r.1,
            },
        },
{
    match content {
        None => (Vec::new(), false),
        Some(text) => match parse_env_text(text) {
            Some(pairs) => (pairs, false),
            None => (Vec::new(), true),
        },
    }
}

} // verus!
