//! The encryption envelope: age's passphrase-based authenticated encryption.
use std::io::{Read, Write};
use vstd::prelude::*;
use secrecy::Secret;
use crate::error::PassageError;

verus! {

#[verifier::external_type_specification]
#[verifier::external_body]
pub struct ExEncryptError(age::EncryptError);

#[verifier::external_type_specification]
#[verifier::external_body]
pub struct ExDecryptError(age::DecryptError);

/// The plaintext that an age file holds under a passphrase, as age's
/// passphrase decryption recovers it; `None` where it holds none.
pub uninterp spec fn age_plaintext_of(blob: Seq<u8>, passphrase: Seq<char>) -> Option<Seq<u8>>;

/// Relies on age's passphrase encryption (`Encryptor::with_user_passphrase`,
/// `Encryptor::wrap_output`, `StreamWriter::finish`). Its errors come only
/// from the writer, and writing to a `Vec` does not fail, so it succeeds.
/// The file holds the header and nonce, then every chunk of the plaintext
/// with its authentication tag, so it is longer than the plaintext; the
/// file decrypts under the same passphrase to the plaintext.
#[verifier::external_body]
fn age_encrypt(plaintext: &[u8], passphrase: &str) -> (r: Result<Vec<u8>, age::EncryptError>)
    ensures
        r is Ok,
        r is Ok ==> r->Ok_0@.len() > plaintext@.len(),
        r is Ok ==> age_plaintext_of(r->Ok_0@, passphrase@) == Some(plaintext@),
{
    let encryptor = age::Encryptor::with_user_passphrase(Secret::new(passphrase.to_owned()));
    let mut encrypted = vec![];
    let mut writer = encryptor.wrap_output(&mut encrypted)?;
    writer.write_all(plaintext)?;
    writer.finish()?;
    Ok(encrypted)
}

/// Relies on age's passphrase decryption (`Decryptor::new`,
/// `PassphraseDecryptor::decrypt`, reading the stream to its end). Whether it
/// succeeds also depends on the machine (the accepted work factor is measured
/// on it), so success is not promised; what it returns on success is the
/// file's plaintext. A file made for recipients rather than a passphrase is
/// reported as age's `NoMatchingKeys`.
#[verifier::external_body]
fn age_decrypt(encrypted: &[u8], passphrase: &str) -> (r: Result<Vec<u8>, age::DecryptError>)
    ensures
        r is Ok ==> age_plaintext_of(encrypted@, passphrase@) == Some(r->Ok_0@),
{
    let decryptor = match age::Decryptor::new(encrypted)? {
        age::Decryptor::Passphrase(d) => d,
        age::Decryptor::Recipients(_) => return Err(age::DecryptError::NoMatchingKeys),
    };
    let mut decrypted = vec![];
    let mut reader = decryptor.decrypt(&Secret::new(passphrase.to_owned()), None)?;
    reader.read_to_end(&mut decrypted)?;
    Ok(decrypted)
}

/// Encrypts `plaintext` under `passphrase`. The blob is longer than the
/// plaintext, so it is never empty and never taken for the empty store, and
/// it holds the plaintext under the passphrase.
pub fn encrypt(plaintext: &[u8], passphrase: &str) -> (r: Result<Vec<u8>, PassageError>)
    ensures
        r is Ok && r->Ok_0@.len() > plaintext@.len(),
        r is Ok ==> age_plaintext_of(r->Ok_0@, passphrase@) == Some(plaintext@),
{
    match age_encrypt(plaintext, passphrase) {
        Ok(c) => Ok(c),
        Err(_) => Err(PassageError::EncryptionFailed),
    }
}

/// Decrypts a blob made by `encrypt`. A wrong passphrase, a tampered blob
/// and a blob that is no encrypted file all give `DecryptionFailed`.
pub fn decrypt(encrypted: &[u8], passphrase: &str) -> (r: Result<Vec<u8>, PassageError>)
    ensures
        r is Ok ==> age_plaintext_of(encrypted@, passphrase@) == Some(r->Ok_0@),
        r is Err ==> r->Err_0 is DecryptionFailed,
{
    match age_decrypt(encrypted, passphrase) {
        Ok(p) => Ok(p),
        Err(_) => Err(PassageError::DecryptionFailed),
    }
}

/// Decrypting what `encrypt` made, with the same passphrase, gives the
/// plaintext back whenever it succeeds: `plaintext` is what `encrypt` was
/// given, `blob` what it returned, and `out` what `decrypt` then returned.
pub proof fn law_decrypt_inverts_encrypt(
    plaintext: Seq<u8>,
    passphrase: Seq<char>,
    blob: Seq<u8>,
    out: Seq<u8>,
)
    requires
        age_plaintext_of(blob, passphrase) == Some(plaintext),
        age_plaintext_of(blob, passphrase) == Some(out),
    ensures
        out == plaintext,
{
}

} // verus!
