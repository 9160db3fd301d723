//! Recovering the data-encryption key (DEK) of a received file: the server
//! encrypts it to the client's PGP key. The client's secret key is stored
//! either ASCII-armored (starting with five dashes) or binary, and has no
//! passphrase.

use vstd::prelude::*;
use vstd::utf8::{decode_utf8, valid_utf8};
use pgp::types::PublicKeyTrait;
use pgp::Deserializable;
use crate::text::utf8_string;

verus! {

#[verifier::external_type_specification]
#[verifier::external_body]
pub struct ExPgpError(pgp::errors::Error);

/// What decrypting `message` (a binary PGP message) with the ASCII-armored
/// secret key `key_text` and the empty passphrase gives: `None` where the key
/// or the message does not parse or the message does not decrypt, otherwise
/// the decrypted message's content, itself `None` where it carries none.
pub uninterp spec fn pgp_decrypt_armored(key_text: Seq<char>, message: Seq<u8>) -> Option<Option<Seq<u8>>>;

/// What decrypting `message` (a binary PGP message) with the binary secret key
/// `key` and the empty passphrase gives, as for `pgp_decrypt_armored`.
pub uninterp spec fn pgp_decrypt_binary(key: Seq<u8>, message: Seq<u8>) -> Option<Option<Seq<u8>>>;

/// For the ASCII-armored secret key `key_text`, what `SignedSecretKey::from_string`
/// parses, taken part by part (the primary key, then each subkey): the key's
/// version and, for an RSA key, the length in bytes of its modulus. `None`
/// where the key does not parse.
pub uninterp spec fn pgp_armored_key_parts(key_text: Seq<char>) -> Option<Seq<(u8, Option<usize>)>>;

/// The same for the binary secret key `key`, as `Deserializable::from_bytes`
/// of `SignedSecretKey` parses it.
pub uninterp spec fn pgp_binary_key_parts(key: Seq<u8>) -> Option<Seq<(u8, Option<usize>)>>;

/// A key part that the `pgp` crate can match against a message without
/// panicking: computing the key id of a version 2 or 3 key takes the last
/// eight bytes of its RSA modulus, which must therefore have eight.
pub open spec fn part_supported(part: (u8, Option<usize>)) -> bool {
    (part.0 == 2 || part.0 == 3) ==> (part.1 matches Some(n) && n >= 8)
}

/// Every part of a key is supported.
pub open spec fn parts_supported(parts: Seq<(u8, Option<usize>)>) -> bool {
    forall|i: int| 0 <= i < parts.len() ==> part_supported(#[trigger] parts[i])
}

/// What is known of the parts of a parsed key, or `None` where it does not parse.
pub open spec fn supported_or_unparsed(parts: Option<Seq<(u8, Option<usize>)>>) -> bool {
    parts matches Some(p) ==> parts_supported(p)
}

/// The armor line that starts an ASCII-armored key: five dashes.
pub open spec fn is_armored_key(key: Seq<u8>) -> bool {
    key.len() >= 5 && key.subrange(0, 5) == seq![0x2Du8, 0x2Du8, 0x2Du8, 0x2Du8, 0x2Du8]
}

/// A stored key can be read: an armored key must be UTF-8.
pub open spec fn key_readable(key: Seq<u8>) -> bool {
    is_armored_key(key) ==> valid_utf8(key)
}

/// What decrypting `message` with the stored key `key` gives: the key is read
/// as armored text where it starts with five dashes, as binary otherwise.
/// Meaningful where the key is readable and supported.
pub open spec fn pgp_decrypt(key: Seq<u8>, message: Seq<u8>) -> Option<Option<Seq<u8>>> {
    if is_armored_key(key) {
        pgp_decrypt_armored(decode_utf8(key), message)
    } else {
        pgp_decrypt_binary(key, message)
    }
}

/// The parts of the stored key `key`, read as `pgp_decrypt` reads it.
pub open spec fn pgp_key_parts(key: Seq<u8>) -> Option<Seq<(u8, Option<usize>)>> {
    if is_armored_key(key) {
        pgp_armored_key_parts(decode_utf8(key))
    } else {
        pgp_binary_key_parts(key)
    }
}

/// The stored key can be used: it does not parse, or none of its parts makes
/// the `pgp` crate panic.
pub open spec fn key_supported(key: Seq<u8>) -> bool {
    supported_or_unparsed(pgp_key_parts(key))
}

/// Why the DEK could not be recovered.
#[derive(Debug)]
pub enum PgpError {
    /// An armored key is not valid UTF-8.
    KeyNotUtf8,
    /// The `pgp` crate refused the key or the message, or could not decrypt it.
    Pgp(pgp::errors::Error),
    /// The decrypted message holds no content.
    NoContent,
    /// The key has a version 2 or 3 part whose RSA modulus is shorter than
    /// eight bytes, which the `pgp` crate cannot match against a message.
    UnsupportedKey,
}

/// The passphrase of the client's key: there is none.
pub fn empty_passphrase() -> (r: String)
    ensures
        r@ == Seq::<char>::empty(),
{
    String::new()
}

/// Calls `SignedSecretKey::from_string` of the `pgp` crate on the armored key
/// and gives, for the primary key and then each subkey, its version
/// (`PublicKeyTrait::version`) and, for RSA parameters
/// (`PublicKeyTrait::public_params`), the modulus length; `None` where the key
/// does not parse. What this gives is the named result.
#[verifier::external_body]
fn armored_key_parts(key_text: &str) -> (r: Option<Vec<(u8, Option<usize>)>>)
    ensures
        match r {
            Some(p) => pgp_armored_key_parts(key_text@) == Some(p@),
            None => pgp_armored_key_parts(key_text@) is None,
        },
{
    let (key, _headers) = pgp::SignedSecretKey::from_string(key_text).ok()?;
    let part = |v: pgp::types::KeyVersion, p: &pgp::types::PublicParams| (u8::from(v), match p {
        pgp::types::PublicParams::RSA { n, .. } => Some(n.len()),
        _ => None,
    });
    let mut parts = vec![part(key.primary_key.version(), key.primary_key.public_params())];
    parts.extend(key.secret_subkeys.iter().map(|s| part(s.key.version(), s.key.public_params())));
    Some(parts)
}

/// Calls `Deserializable::from_bytes` of `SignedSecretKey` on the binary key
/// and gives its parts as `armored_key_parts` does; `None` where the key does
/// not parse. What this gives is the named result.
#[verifier::external_body]
fn binary_key_parts(key: &[u8]) -> (r: Option<Vec<(u8, Option<usize>)>>)
    ensures
        match r {
            Some(p) => pgp_binary_key_parts(key@) == Some(p@),
            None => pgp_binary_key_parts(key@) is None,
        },
{
    let key = pgp::SignedSecretKey::from_bytes(key).ok()?;
    let part = |v: pgp::types::KeyVersion, p: &pgp::types::PublicParams| (u8::from(v), match p {
        pgp::types::PublicParams::RSA { n, .. } => Some(n.len()),
        _ => None,
    });
    let mut parts = vec![part(key.primary_key.version(), key.primary_key.public_params())];
    parts.extend(key.secret_subkeys.iter().map(|s| part(s.key.version(), s.key.public_params())));
    Some(parts)
}

/// Calls, in the `pgp` crate, `SignedSecretKey::from_string` on the armored
/// key (dropping the armor headers), `Deserializable::from_bytes` of `Message`
/// on the message, `Message::decrypt` with that key and the empty passphrase
/// (dropping the list of key ids), and `Message::get_content`; the first error
/// is given back. What this gives is the named result. `Message::decrypt`
/// computes the key id of every part of the key (`key_id` takes the last
/// eight bytes of the modulus of a version 2 or 3 RSA key, and panics on a
/// shorter one), so the key must be unparsable or have only supported parts.
#[verifier::external_body]
fn decrypt_with_armored_key(key_text: &str, message: &[u8]) -> (r: Result<
    Option<Vec<u8>>,
    pgp::errors::Error,
>)
    requires
        supported_or_unparsed(pgp_armored_key_parts(key_text@)),
    ensures
        match r {
            Ok(Some(c)) => pgp_decrypt_armored(key_text@, message@) == Some(Some(c@)),
            Ok(None) => pgp_decrypt_armored(key_text@, message@) == Some(None::<Seq<u8>>),
            Err(_) => pgp_decrypt_armored(key_text@, message@) is None,
        },
{
    let (key, _headers) = pgp::SignedSecretKey::from_string(key_text)?;
    let encrypted = pgp::Message::from_bytes(message)?;
    let (decrypted, _key_ids) = encrypted.decrypt(empty_passphrase, &[&key])?;
    decrypted.get_content()
}

/// Calls, in the `pgp` crate, `Deserializable::from_bytes` of
/// `SignedSecretKey` on the binary key, then the same calls on the message as
/// `decrypt_with_armored_key`. What this gives is the named result; the key
/// must be unparsable or have only supported parts, as there.
#[verifier::external_body]
fn decrypt_with_binary_key(key: &[u8], message: &[u8]) -> (r: Result<
    Option<Vec<u8>>,
    pgp::errors::Error,
>)
    requires
        supported_or_unparsed(pgp_binary_key_parts(key@)),
    ensures
        match r {
            Ok(Some(c)) => pgp_decrypt_binary(key@, message@) == Some(Some(c@)),
            Ok(None) => pgp_decrypt_binary(key@, message@) == Some(None::<Seq<u8>>),
            Err(_) => pgp_decrypt_binary(key@, message@) is None,
        },
{
    let secret_key = pgp::SignedSecretKey::from_bytes(key)?;
    let encrypted = pgp::Message::from_bytes(message)?;
    let (decrypted, _key_ids) = encrypted.decrypt(empty_passphrase, &[&secret_key])?;
    decrypted.get_content()
}

/// Whether a stored key is ASCII-armored.
pub fn is_armored(key: &[u8]) -> (r: bool)
    ensures
        r == is_armored_key(key@),
{
    if key.len() < 5 {
        return false;
    }
    let r = key[0] == 0x2D && key[1] == 0x2D && key[2] == 0x2D && key[3] == 0x2D && key[4] == 0x2D;
    proof {
        let s = key@.subrange(0, 5);
        assert(s[0] == key@[0] && s[1] == key@[1] && s[2] == key@[2] && s[3] == key@[3] && s[4]
            == key@[4]);
        if r {
            assert(s =~= seq![0x2Du8, 0x2Du8, 0x2Du8, 0x2Du8, 0x2Du8]);
        }
    }
    r
}

/// Whether every part of a parsed key is supported.
pub fn parts_are_supported(parts: &Vec<(u8, Option<usize>)>) -> (r: bool)
    ensures
        r == parts_supported(parts@),
{
    let n = parts.len();
    for i in 0..n
        invariant
            n == parts@.len(),
            forall|j: int| 0 <= j < i ==> part_supported(#[trigger] parts@[j]),
    {
        let (version, modulus) = parts[i];
        if version == 2 || version == 3 {
            match modulus {
                Some(len) => {
                    if len < 8 {
                        assert(!part_supported(parts@[i as int]));
                        return false;
                    }
                },
                None => {
                    assert(!part_supported(parts@[i as int]));
                    return false;
                },
            }
        }
    }
    true
}

/// Turns what PGP decryption gave into the DEK: the content, or why there is
/// none.
pub fn content_of(outcome: Result<Option<Vec<u8>>, pgp::errors::Error>) -> (r: Result<
    Vec<u8>,
    PgpError,
>)
    ensures
        match outcome {
            Ok(Some(c)) => r matches Ok(d) && d@ == c@,
            Ok(None) => r matches Err(PgpError::NoContent),
            Err(_) => r matches Err(PgpError::Pgp(_)),
        },
{
    match outcome {
        Ok(Some(content)) => Ok(content),
        Ok(None) => Err(PgpError::NoContent),
        Err(e) => Err(PgpError::Pgp(e)),
    }
}

/// Decrypts a PGP message with the client's stored secret key and gives the
/// message's content. A key that starts with five dashes is read as armored
/// text, and refused before anything is parsed where it is not UTF-8; any
/// other key is read as binary. A key with a part that the `pgp` crate cannot
/// match against a message is refused before the message is read.
#[allow(non_snake_case)]
pub fn DecryptWithPGP(key: &[u8], encrypted: &[u8]) -> (r: Result<Vec<u8>, PgpError>)
    ensures
        r matches Err(PgpError::KeyNotUtf8) <==> !key_readable(key@),
        r matches Err(PgpError::UnsupportedKey) <==> key_readable(key@) && !key_supported(key@),
        r is Ok <==> key_readable(key@) && key_supported(key@) && pgp_decrypt(key@, encrypted@) matches Some(Some(_)),
        r matches Ok(c) ==> pgp_decrypt(key@, encrypted@) == Some(Some(c@)),
        r matches Err(PgpError::NoContent) <==> key_readable(key@) && key_supported(key@)
            && pgp_decrypt(key@, encrypted@) == Some(None::<Seq<u8>>),
        r matches Err(PgpError::Pgp(_)) <==> key_readable(key@) && key_supported(key@)
            && pgp_decrypt(key@, encrypted@) is None,
{
    let outcome = if is_armored(key) {
        let text = match utf8_string(key) {
            Some(text) => text,
            None => return Err(PgpError::KeyNotUtf8),
        };
        if let Some(parts) = armored_key_parts(text.as_str()) {
            if !parts_are_supported(&parts) {
                return Err(PgpError::UnsupportedKey);
            }
        }
        decrypt_with_armored_key(text.as_str(), encrypted)
    } else {
        if let Some(parts) = binary_key_parts(key) {
            if !parts_are_supported(&parts) {
                return Err(PgpError::UnsupportedKey);
            }
        }
        decrypt_with_binary_key(key, encrypted)
    };
    content_of(outcome)
}

} // verus!
