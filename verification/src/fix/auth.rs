//! Session authentication: the private key and the signature of a Logon.
use crate::sbe::wire::{put_bytes, put_u8};
use crate::text;
use crate::text::push_decimal;
use base64::Engine;
use ed25519_dalek::pkcs8::DecodePrivateKey;
use ed25519_dalek::Signer;
use vstd::prelude::*;
use vstd::utf8;

verus! {

/// An Ed25519 private key.
pub struct Ed25519Key {
    pub secret: [u8; 32],
}

/// Why a private key could not be read.
pub struct KeyError {
    pub cause: ed25519_dalek::pkcs8::Error,
}

/// `pkcs8::Error`: why a PKCS#8 document was refused.
#[verifier::external_type_specification]
#[verifier::external_body]
pub struct ExPkcs8Error(ed25519_dalek::pkcs8::Error);

/// The secret key in a PKCS#8 PEM document, or nothing where `from_pkcs8_pem`
/// refuses the document.
pub uninterp spec fn pkcs8_secret(pem: Seq<char>) -> Option<Seq<u8>>;

/// `SigningKey::from_pkcs8_pem` parses a PKCS#8 PEM document; what comes out, a
/// secret key of 32 bytes or an error, depends on the document alone.
#[verifier::external_body]
fn secret_from_pkcs8_pem(pem: &str) -> (res: Result<[u8; 32], ed25519_dalek::pkcs8::Error>)
    ensures
        match res {
            Ok(secret) => pkcs8_secret(pem@) == Some(secret@),
            Err(_) => pkcs8_secret(pem@) is None,
        },
{
    match ed25519_dalek::SigningKey::from_pkcs8_pem(pem) {
        Ok(key) => Ok(key.to_bytes()),
        Err(e) => Err(e),
    }
}

/// Reads an Ed25519 private key from a PKCS#8 PEM document.
pub fn parse_ed25519_pem(pem: &str) -> (res: Result<Ed25519Key, KeyError>)
    ensures
        match res {
            Ok(key) => pkcs8_secret(pem@) == Some(key.secret@),
            Err(_) => pkcs8_secret(pem@) is None,
        },
{
    match secret_from_pkcs8_pem(pem) {
        Ok(secret) => Ok(Ed25519Key { secret }),
        Err(cause) => Err(KeyError { cause }),
    }
}

/// The Ed25519 signature of a message under a secret key.
pub uninterp spec fn ed25519_signature(secret: Seq<u8>, message: Seq<u8>) -> Seq<u8>;

/// `SigningKey::sign`: the signature is a function of the secret key and the
/// message.
#[verifier::external_body]
fn ed25519_sign(secret: &[u8; 32], message: &[u8]) -> (signature: [u8; 64])
    ensures
        signature@ == ed25519_signature(secret@, message@),
{
    ed25519_dalek::SigningKey::from_bytes(secret).sign(message).to_bytes()
}

/// The character that stands for six bits.
pub open spec fn base64_char(v: int) -> char {
    if v < 26 {
        ('A' as u32 + v) as char
    } else if v < 52 {
        ('a' as u32 + (v - 26)) as char
    } else if v < 62 {
        ('0' as u32 + (v - 52)) as char
    } else if v == 62 {
        '+'
    } else {
        '/'
    }
}

/// The characters of one group of up to three bytes, of which `n` are there.
pub open spec fn base64_group(x: int, y: int, z: int, n: int) -> Seq<char> {
    seq![
        base64_char(x / 4),
        base64_char(x % 4 * 16 + y / 16),
        if n > 1 {
            base64_char(y % 16 * 4 + z / 64)
        } else {
            '='
        },
        if n > 2 {
            base64_char(z % 64)
        } else {
            '='
        },
    ]
}

/// Base64 with the standard alphabet and padding.
pub open spec fn base64_text(bytes: Seq<u8>) -> Seq<char>
    decreases bytes.len(),
{
    if bytes.len() == 0 {
        Seq::empty()
    } else if bytes.len() == 1 {
        base64_group(bytes[0] as int, 0, 0, 1)
    } else if bytes.len() == 2 {
        base64_group(bytes[0] as int, bytes[1] as int, 0, 2)
    } else {
        base64_group(bytes[0] as int, bytes[1] as int, bytes[2] as int, 3) + base64_text(
            bytes.skip(3),
        )
    }
}

/// `Engine::encode` of the `STANDARD` engine: base64 with the standard alphabet
/// and padding.
#[verifier::external_body]
fn base64_encode(bytes: &[u8; 64]) -> (res: String)
    ensures
        res@ == base64_text(bytes@),
{
    base64::engine::general_purpose::STANDARD.encode(bytes)
}

/// Separator of the signed fields.
pub const SOH: u8 = 0x01;

/// The message that a Logon signs: MsgType, SenderCompID, TargetCompID,
/// MsgSeqNum and SendingTime, with separators between them.
pub open spec fn logon_payload_spec(
    sender_comp_id: Seq<char>,
    target_comp_id: Seq<char>,
    msg_seq_num: u32,
    sending_time: Seq<char>,
) -> Seq<u8> {
    seq![0x41u8, SOH] + utf8::encode_utf8(sender_comp_id) + seq![SOH] + utf8::encode_utf8(
        target_comp_id,
    ) + seq![SOH] + utf8::encode_utf8(text::decimal(msg_seq_num as nat)) + seq![SOH]
        + utf8::encode_utf8(sending_time)
}

/// Builds the message that a Logon signs.
pub fn logon_payload(
    sender_comp_id: &str,
    target_comp_id: &str,
    msg_seq_num: u32,
    sending_time_str: &str,
) -> (payload: Vec<u8>)
    ensures
        payload@ == logon_payload_spec(
            sender_comp_id@,
            target_comp_id@,
            msg_seq_num,
            sending_time_str@,
        ),
{
    let mut seq_num = String::new();
    push_decimal(&mut seq_num, msg_seq_num as u64);
    assert(seq_num@ =~= text::decimal(msg_seq_num as nat));
    let mut payload: Vec<u8> = Vec::new();
    put_u8(&mut payload, 0x41);
    put_u8(&mut payload, SOH);
    assert(payload@ =~= seq![0x41u8, SOH]);
    put_bytes(&mut payload, sender_comp_id.as_bytes());
    put_u8(&mut payload, SOH);
    put_bytes(&mut payload, target_comp_id.as_bytes());
    put_u8(&mut payload, SOH);
    put_bytes(&mut payload, seq_num.as_str().as_bytes());
    put_u8(&mut payload, SOH);
    put_bytes(&mut payload, sending_time_str.as_bytes());
    payload
}

/// The text form of a signature.
pub fn signature_text(signature: &[u8; 64]) -> (res: String)
    ensures
        res@ == base64_text(signature@),
        utf8::encode_utf8(res@).len() == 88,
{
    let res = base64_encode(signature);
    proof {
        lemma_base64_text(signature@);
        utf8::is_ascii_chars_encode_utf8(res@);
    }
    res
}

/// Base64 makes four ASCII characters of three bytes or what is left of them.
pub proof fn lemma_base64_text(bytes: Seq<u8>)
    ensures
        base64_text(bytes).len() == (bytes.len() + 2) / 3 * 4,
        utf8::is_ascii_chars(base64_text(bytes)),
    decreases bytes.len(),
{
    if bytes.len() > 2 {
        lemma_base64_text(bytes.skip(3));
    }
}

/// The RawData of a Logon: the signature of its payload, in base64.
pub fn sign_logon(
    key: &Ed25519Key,
    sender_comp_id: &str,
    target_comp_id: &str,
    msg_seq_num: u32,
    sending_time_str: &str,
) -> (res: String)
    ensures
        res@ == base64_text(
            ed25519_signature(
                key.secret@,
                logon_payload_spec(
                    sender_comp_id@,
                    target_comp_id@,
                    msg_seq_num,
                    sending_time_str@,
                ),
            ),
        ),
        utf8::encode_utf8(res@).len() == 88,
{
    let payload = logon_payload(sender_comp_id, target_comp_id, msg_seq_num, sending_time_str);
    signature_text(&ed25519_sign(&key.secret, payload.as_slice()))
}

} // verus!
