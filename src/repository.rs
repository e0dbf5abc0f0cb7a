//! Loading the store from its encrypted blob and saving it back.
use vstd::prelude::*;
use crate::codec::{age_plaintext_of, decrypt, encrypt};
use crate::document::{plaintext_entries, storage_from_plaintext, storage_to_toml, toml_document_of};
use crate::error::PassageError;
use crate::store::Storage;

verus! {

/// The entries that a non-empty store file holds under a passphrase: those
/// of its decrypted TOML document.
pub open spec fn blob_entries(blob: Seq<u8>, passphrase: Seq<char>) -> Option<
    Map<Seq<char>, Seq<char>>,
> {
    match age_plaintext_of(blob, passphrase) {
        Some(p) => plaintext_entries(p),
        None => None,
    }
}

/// Reads the store from the content of its file. An empty file is the
/// empty store and is not decrypted; any other content is decrypted with
/// `passphrase` and read as a TOML document.
pub fn load_storage(blob: &[u8], passphrase: &str) -> (r: Result<Storage, PassageError>)
    ensures
        r is Ok ==> r->Ok_0.wf(),
        blob@.len() == 0 ==> r is Ok && r->Ok_0@ == Map::<Seq<char>, Seq<char>>::empty(),
        blob@.len() > 0 && r is Ok ==> blob_entries(blob@, passphrase@) == Some(r->Ok_0@),
        r is Err ==> r->Err_0 is DecryptionFailed || r->Err_0 is CorruptStorage,
        r is Err && r->Err_0 is CorruptStorage ==> age_plaintext_of(blob@, passphrase@) is Some
            && blob_entries(blob@, passphrase@) is None,
{
    if blob.len() == 0 {
        return Ok(Storage::new());
    }
    let plaintext = decrypt(blob, passphrase)?;
    let ghost p = plaintext@;
    let r = storage_from_plaintext(plaintext);
    r
}

/// The content of the store's file: the store as a TOML document,
/// encrypted with `passphrase`. It is never empty, so it is never read back
/// as the empty store.
pub fn save_storage(storage: &Storage, passphrase: &str) -> (r: Result<Vec<u8>, PassageError>)
    ensures
        r is Ok && r->Ok_0@.len() > 0,
        r is Ok ==> age_plaintext_of(r->Ok_0@, passphrase@) == Some(
            toml_document_of(storage.tables()),
        ),
{
    let document = storage_to_toml(storage)?;
    encrypt(document.as_slice(), passphrase)
}

} // verus!
