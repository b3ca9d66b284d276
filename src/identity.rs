//! The local identity: nickname, signing key, key fingerprint and server
//! endpoint; and the signing of outgoing requests.
use vstd::prelude::*;
use openssl::pkey::{PKey, Private};
use crate::error::ChatError;
use crate::message::{UnmappedMessage, message_text};
use crate::envelope::envelope_text;
use crate::wire::{hex_chars, object_string, quote, decimal_string, members_view};

verus! {

#[verifier::external_type_specification]
#[verifier::external_body]
#[verifier::reject_recursive_types(T)]
pub struct ExPKey<T>(openssl::pkey::PKey<T>);

#[verifier::external_type_specification]
#[verifier::external_body]
pub struct ExPrivate(openssl::pkey::Private);

#[verifier::external_type_specification]
#[verifier::external_body]
pub struct ExUrl(url::Url);

/// The MD5 digest of some bytes.
pub uninterp spec fn md5_of(data: Seq<u8>) -> Seq<u8>;

/// Whether the URL parser accepts a text as an absolute URL.
pub uninterp spec fn url_accepts(text: Seq<char>) -> bool;

/// Two lowercase hex digits per byte, in order.
pub open spec fn hex_text(b: Seq<u8>) -> Seq<char>
    decreases b.len(),
{
    if b.len() == 0 {
        Seq::empty()
    } else {
        seq![hex_chars()[b[0] as int / 16], hex_chars()[b[0] as int % 16]] + hex_text(b.drop_first())
    }
}

pub open spec fn base64_alphabet() -> Seq<char> {
    seq![
        'A', 'B', 'C', 'D', 'E', 'F', 'G', 'H', 'I', 'J', 'K', 'L', 'M', 'N', 'O', 'P', 'Q', 'R',
        'S', 'T', 'U', 'V', 'W', 'X', 'Y', 'Z', 'a', 'b', 'c', 'd', 'e', 'f', 'g', 'h', 'i', 'j',
        'k', 'l', 'm', 'n', 'o', 'p', 'q', 'r', 's', 't', 'u', 'v', 'w', 'x', 'y', 'z', '0', '1',
        '2', '3', '4', '5', '6', '7', '8', '9', '+', '/',
    ]
}

/// Standard base64 without padding: each group of three bytes gives four
/// characters, a final group of one or two bytes gives two or three.
pub open spec fn base64_text(b: Seq<u8>) -> Seq<char>
    decreases b.len(),
{
    let a = base64_alphabet();
    let x: int = if b.len() > 0 { b[0] as int } else { 0 };
    let y: int = if b.len() > 1 { b[1] as int } else { 0 };
    let z: int = if b.len() > 2 { b[2] as int } else { 0 };
    if b.len() == 0 {
        Seq::empty()
    } else if b.len() == 1 {
        seq![a[x / 4], a[(x % 4) * 16]]
    } else if b.len() == 2 {
        seq![a[x / 4], a[(x % 4) * 16 + y / 16], a[(y % 16) * 4]]
    } else {
        seq![a[x / 4], a[(x % 4) * 16 + y / 16], a[(y % 16) * 4 + z / 64], a[z % 64]]
            + base64_text(b.skip(3))
    }
}

/// Relies on `PKeyRef::public_key_to_pem`: the PEM text of the public half
/// of the key, or `None` when openssl reports an error.
#[verifier::external_body]
fn public_key_pem(key: &PKey<Private>) -> Option<Vec<u8>> {
    key.public_key_to_pem().ok()
}

/// Relies on `openssl::hash::hash` with `MessageDigest::md5()`: the digest
/// of `data`, or `None` when openssl reports an error.
#[verifier::external_body]
fn md5_digest(data: &[u8]) -> (r: Option<Vec<u8>>)
    ensures
        r matches Some(d) ==> d@ == md5_of(data@),
{
    match openssl::hash::hash(openssl::hash::MessageDigest::md5(), data) {
        Ok(d) => Some(d.to_vec()),
        Err(_) => None,
    }
}

/// Relies on `hex::encode`: two lowercase hex digits per byte.
#[verifier::external_body]
fn hex_encode(data: &[u8]) -> (r: String)
    ensures
        r@ == hex_text(data@),
{
    hex::encode(data)
}

/// Relies on base64's `STANDARD_NO_PAD` engine, which panics only when the
/// encoded length overflows `usize`.
#[verifier::external_body]
fn base64_encode(data: &[u8]) -> (r: String)
    requires
        data@.len() <= usize::MAX / 2,
    ensures
        r@ == base64_text(data@),
{
    base64::Engine::encode(&base64::engine::general_purpose::STANDARD_NO_PAD, data)
}

/// Relies on `openssl::sign::Signer` with `MessageDigest::sha512()`: the
/// RSA signature of `data`, or `None` when openssl reports an error.
#[verifier::external_body]
fn rsa_sha512_sign(key: &PKey<Private>, data: &[u8]) -> Option<Vec<u8>> {
    let mut signer = openssl::sign::Signer::new(openssl::hash::MessageDigest::sha512(), key).ok()?;
    signer.update(data).ok()?;
    signer.sign_to_vec().ok()
}

/// Relies on `Clone` for `PKey`: another handle to the same key.
#[verifier::external_body]
fn clone_key(key: &PKey<Private>) -> PKey<Private> {
    key.clone()
}

/// Relies on `url::Url::parse`: whether it accepts the text depends on the
/// text alone.
#[verifier::external_body]
fn parse_url(text: &str) -> (r: Result<url::Url, url::ParseError>)
    ensures
        r is Ok <==> url_accepts(text@),
{
    url::Url::parse(text)
}

/// The fingerprint of a public key: the hex text of the MD5 digest of its PEM form.
pub fn fingerprint_of_pem(pem: &[u8]) -> (r: Option<String>)
    ensures
        r matches Some(f) ==> f@ == hex_text(md5_of(pem@)),
{
    match md5_digest(pem) {
        Some(d) => Some(hex_encode(d.as_slice())),
        None => None,
    }
}

/// The base64 text (standard alphabet, no padding) of a signature.
pub fn encode_signature(signature: &[u8]) -> (r: Option<String>)
    ensures
        signature@.len() <= usize::MAX / 2 ==> (r matches Some(s) && s@ == base64_text(signature@)),
        signature@.len() > usize::MAX / 2 ==> r is None,
{
    if signature.len() <= usize::MAX / 2 {
        Some(base64_encode(signature))
    } else {
        None
    }
}

/// The server endpoint as a URL.
pub fn server_endpoint(text: &str) -> (r: Result<url::Url, ChatError>)
    ensures
        r is Ok <==> url_accepts(text@),
        r matches Err(e) ==> e is Parsing,
{
    match parse_url(text) {
        Ok(u) => Ok(u),
        Err(e) => Err(ChatError::Parsing(e)),
    }
}

/// Who this client is: nickname, signing key, the key's fingerprint, and
/// the server to talk to. Immutable once made.
pub struct Configuration {
    nick: String,
    key_hex: String,
    pkey: PKey<Private>,
    server_url: String,
}

impl Configuration {
    pub closed spec fn nick_view(&self) -> Seq<char> {
        self.nick@
    }

    pub closed spec fn key_hex_view(&self) -> Seq<char> {
        self.key_hex@
    }

    pub closed spec fn server_url_view(&self) -> Seq<char> {
        self.server_url@
    }

    /// An identity for `nick` with the given key; the fingerprint is the MD5
    /// digest of the public key's PEM text, in hex. Fails only when openssl
    /// reports an error.
    pub fn new(nick: String, private_key: PKey<Private>, server_url: String) -> (r: Result<Configuration, ChatError>)
        ensures
            r matches Ok(c) ==> c.nick_view() == nick@ && c.server_url_view() == server_url@
                && exists|pem: Seq<u8>| c.key_hex_view() == hex_text(md5_of(pem)),
            r matches Err(e) ==> e is Other,
    {
        let pem = match public_key_pem(&private_key) {
            Some(p) => p,
            None => {
                return Err(ChatError::Other("unable to export the public key".to_owned()));
            },
        };
        let key_hex = match fingerprint_of_pem(pem.as_slice()) {
            Some(f) => f,
            None => {
                return Err(ChatError::Other("unable to hash the public key".to_owned()));
            },
        };
        Ok(Configuration { nick, key_hex, pkey: private_key, server_url })
    }

    pub fn get_nick(&self) -> (r: String)
        ensures
            r@ == self.nick_view(),
    {
        self.nick.clone()
    }

    pub fn get_key_hex(&self) -> (r: String)
        ensures
            r@ == self.key_hex_view(),
    {
        self.key_hex.clone()
    }

    pub fn get_private_key(&self) -> PKey<Private> {
        clone_key(&self.pkey)
    }

    pub fn get_server_url(&self) -> (r: String)
        ensures
            r@ == self.server_url_view(),
    {
        self.server_url.clone()
    }

    /// Another handle to the same identity.
    pub fn clone_identity(&self) -> (r: Configuration)
        ensures
            r.nick_view() == self.nick_view(),
            r.key_hex_view() == self.key_hex_view(),
            r.server_url_view() == self.server_url_view(),
    {
        Configuration {
            nick: self.nick.clone(),
            key_hex: self.key_hex.clone(),
            pkey: clone_key(&self.pkey),
            server_url: self.server_url.clone(),
        }
    }

    /// The PEM text of the public key, as sent in `Hello` and `Subscribe`.
    pub fn public_key_pem(&self) -> Option<Vec<u8>> {
        public_key_pem(&self.pkey)
    }
}

/// Seals a request given its signature bytes: the signature text (the
/// correlation key) and the envelope text that carries the request's
/// canonical text.
pub fn seal(request: &UnmappedMessage, signature: &[u8], key_hash: &str) -> (r: Option<(String, String)>)
    ensures
        signature@.len() <= usize::MAX / 2 ==> (r matches Some((sig, env)) && sig@ == base64_text(
            signature@) && env@ == envelope_text(message_text(*request), sig@, key_hash@)),
        signature@.len() > usize::MAX / 2 ==> r is None,
{
    let sig = match encode_signature(signature) {
        Some(s) => s,
        None => { return None; },
    };
    let mut members: Vec<(String, String)> = Vec::new();
    members.push(("message".to_owned(), request.to_text()));
    members.push(("sig".to_owned(), quote(sig.as_str())));
    members.push(("keyHash".to_owned(), quote(key_hash)));
    members.push(("protocolVersion".to_owned(), decimal_string(1)));
    proof {
        reveal_strlit("message");
        reveal_strlit("sig");
        reveal_strlit("keyHash");
        reveal_strlit("protocolVersion");
        assert(members_view(members@) =~~= crate::envelope::envelope_members(
            message_text(*request), sig@, key_hash@));
    }
    let env = object_string(&members);
    Some((sig, env))
}

/// Signs a request: its canonical text is signed with RSA over SHA-512, the
/// signature is base64-encoded without padding, and the envelope carries
/// that exact text. Fails only when openssl reports an error.
pub fn create_envelope(request: &UnmappedMessage, config: &Configuration) -> (r: Result<(String, String), ChatError>)
    ensures
        r matches Ok((sig, env)) ==> (exists|b: Seq<u8>| sig@ == base64_text(b))
            && env@ == envelope_text(message_text(*request), sig@, config.key_hex_view()),
        r matches Err(e) ==> e is Other,
{
    let text = request.to_text();
    let signature = match rsa_sha512_sign(&config.pkey, text.as_str().as_bytes()) {
        Some(s) => s,
        None => {
            return Err(ChatError::Other("unable to sign the request".to_owned()));
        },
    };
    match seal(request, signature.as_slice(), config.key_hex.as_str()) {
        Some(p) => Ok(p),
        None => Err(ChatError::Other("signature too long".to_owned())),
    }
}

} // verus!
