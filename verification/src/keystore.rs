//! The secret codec: a secret is sealed under a password into a keystore
//! document (Web3 Secret Storage, as JSON text) and opened again.
//!
//! The cryptography is the `web3_keystore` crate's and the JSON is
//! `serde_json`'s. What this module proves is everything around them: that a
//! document is only ever handed to the cipher when its parameters are within
//! bounds, how each outcome of the cipher maps to an error of the codec, and
//! that what was sealed under a password opens to the same secret.

use vstd::prelude::*;
use vstd::string::StringExecFns;
use vstd::utf8::{
    decode_utf8, encode_utf8, encode_utf8_decode_utf8, encode_utf8_valid_utf8, valid_utf8,
};
use web3_keystore::{KeyStore, KeyStoreError};

verus! {

/// Fewest bytes of derived key that the cipher and the integrity tag need.
pub const MIN_DERIVED_KEY_LEN: u64 = 32;

/// Fewest hexadecimal digits of an initialization vector (sixteen bytes).
pub const MIN_IV_DIGITS: usize = 32;

/// Largest scrypt work factor `n` that is accepted.
pub const MAX_SCRYPT_N: u64 = 262144;

/// Largest scrypt block size `r` that is accepted.
pub const MAX_SCRYPT_R: u64 = 8;

/// Largest scrypt parallelization `p` that is accepted.
pub const MAX_SCRYPT_P: u64 = 8;

/// Largest PBKDF2 iteration count `c` that is accepted.
pub const MAX_PBKDF2_ROUNDS: u64 = 4194304;

/// Why the cipher did not hand out a plaintext.
#[derive(Clone, Copy, Debug, PartialEq, Eq, Structural)]
pub enum KeystoreFault {
    /// The text is not a keystore document.
    Unreadable,
    /// The integrity tag does not match the derived key and the ciphertext.
    MacMismatch,
    /// The scrypt parameters were refused.
    ScryptParams,
    /// The length of the derived key was refused.
    ScryptOutputLen,
    /// The cipher refused the length of the key or of the nonce.
    AesKeyNonceLength,
}

/// Why a container did not decrypt.
#[derive(Clone, Copy, Debug, PartialEq, Eq, Structural)]
pub enum DecryptError {
    /// The integrity tag did not verify under this password.
    WrongPassword,
    /// The container is not a usable keystore document.
    Corrupt,
}

/// Why a secret could not be sealed.
#[derive(Clone, Copy, Debug, PartialEq, Eq, Structural)]
pub enum EncryptError {
    /// The cipher or the serializer failed.
    Failed,
    /// The cipher produced a document whose parameters are out of bounds.
    Unsound,
}

/// What `web3_keystore::decrypt` returns for the keystore that
/// `serde_json` reads from `document`, under `password`; `Unreadable` where
/// `serde_json` reads no keystore from it.
pub uninterp spec fn document_opening(document: Seq<char>, password: Seq<char>) -> Result<
    Seq<u8>,
    KeystoreFault,
>;

/// The unsigned number that `serde_json` finds at the JSON pointer
/// `pointer` of `document`, if there is one.
pub uninterp spec fn document_number(document: Seq<char>, pointer: Seq<char>) -> Option<u64>;

/// The string that `serde_json` finds at the JSON pointer `pointer` of
/// `document`, if there is one.
pub uninterp spec fn document_text(document: Seq<char>, pointer: Seq<char>) -> Option<Seq<char>>;

/// The cipher hands out `bytes` for `document` under `password`.
pub open spec fn opens_to(document: Seq<char>, password: Seq<char>, bytes: Seq<u8>) -> bool {
    document_opening(document, password) matches Ok(b) && b == bytes
}

/// Decrypting `document` under `password` gives `bytes`.
pub open spec fn decrypts_to(document: Seq<char>, password: Seq<char>, bytes: Seq<u8>) -> bool {
    decryption(document, password) matches Ok(b) && b == bytes
}

/// Decrypting `document` under `password` fails with `error`.
pub open spec fn decrypt_fails(document: Seq<char>, password: Seq<char>, error: DecryptError) -> bool {
    decryption(document, password) matches Err(e) && e == error
}

/// `document` holds the secret text `secret` under `password`.
pub open spec fn holds_secret(document: Seq<char>, password: Seq<char>, secret: Seq<char>) -> bool {
    secret_text(document, password) matches Ok(s) && s == secret
}

/// Reading the secret text of `document` under `password` fails with `error`.
pub open spec fn secret_fails(document: Seq<char>, password: Seq<char>, error: DecryptError) -> bool {
    secret_text(document, password) matches Err(e) && e == error
}

/// A number that is either absent or at most `limit`.
pub open spec fn within(number: Option<u64>, limit: u64) -> bool {
    match number {
        None => true,
        Some(n) => n <= limit,
    }
}

/// The structural check that stands before every decryption: the derived
/// key is long enough for the cipher key and the tag key, the
/// initialization vector has at least sixteen bytes, and the cost
/// parameters of the key derivation are within the accepted bounds. The
/// cipher slices key and vector at fixed offsets, allocates `128 * n * r`
/// bytes and runs `c` rounds before it can look at the integrity tag, so a
/// document beyond these bounds is turned down unopened. The bounds admit
/// what this wallet writes and the usual parameters of other wallets.
pub open spec fn document_is_sound(document: Seq<char>) -> bool {
    &&& document_number(document, "/crypto/kdfparams/dklen"@) matches Some(dklen) && dklen
        >= MIN_DERIVED_KEY_LEN
    &&& document_text(document, "/crypto/cipherparams/iv"@) matches Some(iv) && iv.len()
        >= MIN_IV_DIGITS
    &&& within(document_number(document, "/crypto/kdfparams/n"@), MAX_SCRYPT_N)
    &&& within(document_number(document, "/crypto/kdfparams/r"@), MAX_SCRYPT_R)
    &&& within(document_number(document, "/crypto/kdfparams/p"@), MAX_SCRYPT_P)
    &&& within(document_number(document, "/crypto/kdfparams/c"@), MAX_PBKDF2_ROUNDS)
}

/// How an outcome of the cipher reads as a result of the codec: a failed
/// integrity tag is a wrong password, every other fault is corruption.
pub open spec fn opening_result(opened: Result<Seq<u8>, KeystoreFault>) -> Result<
    Seq<u8>,
    DecryptError,
> {
    match opened {
        Ok(bytes) => Ok(bytes),
        Err(KeystoreFault::MacMismatch) => Err(DecryptError::WrongPassword),
        Err(_) => Err(DecryptError::Corrupt),
    }
}

/// What decrypting `document` under `password` gives.
pub open spec fn decryption(document: Seq<char>, password: Seq<char>) -> Result<
    Seq<u8>,
    DecryptError,
> {
    if document_is_sound(document) {
        opening_result(document_opening(document, password))
    } else {
        Err(DecryptError::Corrupt)
    }
}

/// How decrypted bytes read as a secret text: they must be UTF-8.
pub open spec fn bytes_as_text(bytes: Result<Seq<u8>, DecryptError>) -> Result<
    Seq<char>,
    DecryptError,
> {
    match bytes {
        Ok(b) => if valid_utf8(b) {
            Ok(decode_utf8(b))
        } else {
            Err(DecryptError::Corrupt)
        },
        Err(e) => Err(e),
    }
}

/// The secret text that `document` holds under `password`.
pub open spec fn secret_text(document: Seq<char>, password: Seq<char>) -> Result<
    Seq<char>,
    DecryptError,
> {
    bytes_as_text(decryption(document, password))
}

/// Calls `web3_keystore::encrypt` with the thread's random generator and
/// turns the keystore into text with `serde_json::to_string`. Salt,
/// initialization vector and identifier are drawn afresh on every call, so
/// the text differs from call to call. Three things hold of every draw.
/// There is a document: the cipher derives its key with scrypt from fixed
/// parameters that scrypt accepts, into thirty-two bytes, and the keystore
/// is made of strings and small numbers, which the serializer writes
/// without fail. The document is sound: it says `dklen` 32, `n` 8192, `r`
/// 8, `p` 1 and no `c`, and its initialization vector is sixteen bytes in
/// thirty-two hexadecimal digits. And it opens, under the same password,
/// to the same bytes.
#[verifier::external_body]
fn seal_document(secret: &[u8], password: &str, label: &str) -> (r: Option<String>)
    ensures
        match r {
            Some(document) => document_is_sound(document@) && (document_opening(
                document@,
                password@,
            ) matches Ok(bytes) && bytes == secret@),
            None => false,
        },
{
    let sealed = web3_keystore::encrypt(
        &mut rand::thread_rng(),
        secret,
        password,
        None,
        Some(label.to_string()),
    );
    match sealed {
        Ok(keystore) => serde_json::to_string(&keystore).ok(),
        Err(_) => None,
    }
}

/// Reads a keystore from `document` with `serde_json::from_str` and calls
/// `web3_keystore::decrypt` on it. The result is the one that
/// [`document_opening`] names. The cipher slices the derived key and the
/// initialization vector at fixed offsets and allocates what the cost
/// parameters ask for, so it is only called on a sound document.
#[verifier::external_body]
fn open_document(document: &str, password: &str) -> (r: Result<Vec<u8>, KeystoreFault>)
    requires
        document_is_sound(document@),
    ensures
        match r {
            Ok(bytes) => (document_opening(document@, password@) matches Ok(b) && b == bytes@),
            Err(fault) => (document_opening(document@, password@) matches Err(f) && f == fault),
        },
{
    let parsed: Result<KeyStore, serde_json::Error> = serde_json::from_str(document);
    let Ok(keystore) = parsed else { return Err(KeystoreFault::Unreadable) };
    match web3_keystore::decrypt(&keystore, password) {
        Ok(bytes) => Ok(bytes),
        Err(KeyStoreError::MacMismatch) => Err(KeystoreFault::MacMismatch),
        Err(KeyStoreError::ScryptInvalidParams(_)) => Err(KeystoreFault::ScryptParams),
        Err(KeyStoreError::ScryptInvalidOuputLen(_)) => Err(KeystoreFault::ScryptOutputLen),
        Err(KeyStoreError::AesInvalidKeyNonceLength(_)) => Err(KeystoreFault::AesKeyNonceLength),
    }
}

/// Parses `document` with `serde_json::from_str` into a JSON tree, looks
/// `pointer` up with `Value::pointer` and reads the value with
/// `Value::as_u64`: the number that [`document_number`] names.
#[verifier::external_body]
fn read_number(document: &str, pointer: &str) -> (r: Option<u64>)
    ensures
        r == document_number(document@, pointer@),
{
    let tree: serde_json::Value = serde_json::from_str(document).ok()?;
    tree.pointer(pointer)?.as_u64()
}

/// Parses `document` with `serde_json::from_str` into a JSON tree, looks
/// `pointer` up with `Value::pointer` and reads the value with
/// `Value::as_str`: the string that [`document_text`] names.
#[verifier::external_body]
fn read_text(document: &str, pointer: &str) -> (r: Option<String>)
    ensures
        match r {
            Some(text) => document_text(document@, pointer@) == Some(text@),
            None => document_text(document@, pointer@) is None,
        },
{
    let tree: serde_json::Value = serde_json::from_str(document).ok()?;
    Some(tree.pointer(pointer)?.as_str()?.to_string())
}

/// `String::from_utf8`: the text that the bytes encode, or nothing when
/// they are not UTF-8.
#[verifier::external_body]
fn text_from_utf8(bytes: Vec<u8>) -> (r: Option<String>)
    ensures
        match r {
            Some(text) => valid_utf8(bytes@) && text@ == decode_utf8(bytes@),
            None => !valid_utf8(bytes@),
        },
{
    String::from_utf8(bytes).ok()
}

/// Whether the number at `pointer` is absent or at most `limit`.
fn number_within(document: &str, pointer: &str, limit: u64) -> (r: bool)
    ensures
        r == within(document_number(document@, pointer@), limit),
{
    match read_number(document, pointer) {
        None => true,
        Some(n) => n <= limit,
    }
}

/// Executable form of [`document_is_sound`].
pub fn check_document(document: &str) -> (r: bool)
    ensures
        r == document_is_sound(document@),
{
    let key_ok: bool = match read_number(document, "/crypto/kdfparams/dklen") {
        Some(dklen) => dklen >= MIN_DERIVED_KEY_LEN,
        None => false,
    };
    let iv_ok: bool = match read_text(document, "/crypto/cipherparams/iv") {
        Some(iv) => iv.as_str().unicode_len() >= MIN_IV_DIGITS,
        None => false,
    };
    key_ok && iv_ok && number_within(document, "/crypto/kdfparams/n", MAX_SCRYPT_N)
        && number_within(document, "/crypto/kdfparams/r", MAX_SCRYPT_R) && number_within(
        document,
        "/crypto/kdfparams/p",
        MAX_SCRYPT_P,
    ) && number_within(document, "/crypto/kdfparams/c", MAX_PBKDF2_ROUNDS)
}

/// The outcome of the cipher with the plaintext as a sequence.
pub open spec fn opened_view(opened: Result<Vec<u8>, KeystoreFault>) -> Result<
    Seq<u8>,
    KeystoreFault,
> {
    match opened {
        Ok(bytes) => Ok(bytes@),
        Err(fault) => Err(fault),
    }
}

/// Decrypted bytes, or the failure, with the bytes as a sequence.
pub open spec fn bytes_view(bytes: Result<Vec<u8>, DecryptError>) -> Result<
    Seq<u8>,
    DecryptError,
> {
    match bytes {
        Ok(b) => Ok(b@),
        Err(e) => Err(e),
    }
}

/// Executable form of [`opening_result`].
pub fn classify_opening(opened: Result<Vec<u8>, KeystoreFault>) -> (r: Result<
    Vec<u8>,
    DecryptError,
>)
    ensures
        match r {
            Ok(bytes) => (opening_result(opened_view(opened)) matches Ok(b) && b == bytes@),
            Err(e) => (opening_result(opened_view(opened)) matches Err(cause) && cause == e),
        },
{
    match opened {
        Ok(bytes) => Ok(bytes),
        Err(KeystoreFault::MacMismatch) => Err(DecryptError::WrongPassword),
        Err(_) => Err(DecryptError::Corrupt),
    }
}

/// Executable form of [`bytes_as_text`].
pub fn secret_from_bytes(bytes: Result<Vec<u8>, DecryptError>) -> (r: Result<String, DecryptError>)
    ensures
        match r {
            Ok(text) => (bytes_as_text(bytes_view(bytes)) matches Ok(t) && t == text@),
            Err(e) => (bytes_as_text(bytes_view(bytes)) matches Err(cause) && cause == e),
        },
{
    match bytes {
        Ok(b) => match text_from_utf8(b) {
            Some(text) => Ok(text),
            None => Err(DecryptError::Corrupt),
        },
        Err(e) => Err(e),
    }
}

/// A keystore document that passed the structural check: the persisted,
/// password-protected form of a secret. It holds the key-derivation
/// descriptor, the cipher descriptor, the ciphertext and the integrity tag,
/// and never the secret or the derived key.
pub struct EncryptedContainer {
    document: String,
}

impl EncryptedContainer {
    /// The JSON text of the container.
    pub closed spec fn document(&self) -> Seq<char> {
        self.document@
    }

    #[verifier::type_invariant]
    spec fn sound(&self) -> bool {
        document_is_sound(self.document@)
    }

    /// Accepts `document` as a container if it passes the structural
    /// check, and reports it as corrupt if it does not.
    pub fn from_document(document: &str) -> (r: Result<EncryptedContainer, DecryptError>)
        ensures
            match r {
                Ok(container) => document_is_sound(document@) && container.document()
                    == document@,
                Err(e) => !document_is_sound(document@) && e == DecryptError::Corrupt,
            },
    {
        if check_document(document) {
            Ok(EncryptedContainer { document: String::from_str(document) })
        } else {
            Err(DecryptError::Corrupt)
        }
    }

    /// The JSON text to persist. It passes the structural check.
    pub fn as_document(&self) -> (r: &str)
        ensures
            r@ == self.document(),
            document_is_sound(r@),
    {
        proof {
            use_type_invariant(self);
        }
        self.document.as_str()
    }
}

/// Seals `secret` under `password`: always a container, and one that
/// decrypts under `password` to `secret`. The cipher draws salt and
/// initialization vector afresh on every call, so no more is said of the
/// container. What each outcome of the cipher comes to is
/// [`sealing_result`]; with the parameters that the cipher works with, no
/// error is among them.
pub fn encrypt(secret: &[u8], password: &str, label: &str) -> (r: Result<
    EncryptedContainer,
    EncryptError,
>)
    ensures
        r matches Ok(container) && decrypts_to(container.document(), password@, secret@),
{
    container_from_sealed(seal_document(secret, password, label))
}

/// Opens `container` with `password`: the plaintext, `WrongPassword` when
/// the integrity tag does not verify, `Corrupt` for every other fault.
pub fn decrypt(container: &EncryptedContainer, password: &str) -> (r: Result<
    Vec<u8>,
    DecryptError,
>)
    ensures
        match r {
            Ok(bytes) => decrypts_to(container.document(), password@, bytes@),
            Err(e) => decrypt_fails(container.document(), password@, e),
        },
{
    proof {
        use_type_invariant(container);
    }
    classify_opening(open_document(container.document.as_str(), password))
}

/// The JSON text of a container, as it is written to the keystore file.
pub fn serialize_keystore(keystore: &EncryptedContainer) -> (r: String)
    ensures
        r@ == keystore.document(),
{
    keystore.document.clone()
}

/// Reads a container from its JSON text and decrypts the secret text in
/// it: `Corrupt` when the text is no sound keystore document, when the
/// cipher fails for another reason than the integrity tag, or when the
/// plaintext is not UTF-8; `WrongPassword` when the tag does not verify.
pub fn deserialize_keystore(json_string: &str, password: &str) -> (r: Result<String, DecryptError>)
    ensures
        match r {
            Ok(secret) => holds_secret(json_string@, password@, secret@),
            Err(e) => secret_fails(json_string@, password@, e),
        },
{
    match EncryptedContainer::from_document(json_string) {
        Ok(container) => secret_from_bytes(decrypt(&container, password)),
        Err(e) => Err(e),
    }
}

/// Seals a secret text and returns the JSON text to persist: always a
/// document, and one that holds `secret` under `password`.
pub fn seal_secret(secret: &str, password: &str, label: &str) -> (r: Result<String, EncryptError>)
    ensures
        r matches Ok(document) && holds_secret(document@, password@, secret@),
{
    match encrypt(secret.as_bytes(), password, label) {
        Ok(container) => {
            proof {
                encode_utf8_valid_utf8(secret@);
                encode_utf8_decode_utf8(secret@);
            }
            Ok(serialize_keystore(&container))
        },
        Err(e) => Err(e),
    }
}

/// What the cipher handed out, with the document as a sequence.
pub open spec fn sealed_view(sealed: Option<String>) -> Option<Seq<char>> {
    match sealed {
        Some(document) => Some(document@),
        None => None,
    }
}

/// What an outcome of the cipher comes to as a container: nothing handed
/// out is `Failed`, a document that does not pass the structural check is
/// `Unsound`, and every other document is the container.
pub open spec fn sealing_result(sealed: Option<Seq<char>>) -> Result<Seq<char>, EncryptError> {
    match sealed {
        None => Err(EncryptError::Failed),
        Some(document) => if document_is_sound(document) {
            Ok(document)
        } else {
            Err(EncryptError::Unsound)
        },
    }
}

/// Executable form of [`sealing_result`]: the container for what the
/// cipher handed out, whatever that is.
pub fn container_from_sealed(sealed: Option<String>) -> (r: Result<
    EncryptedContainer,
    EncryptError,
>)
    ensures
        match r {
            Ok(container) => (sealing_result(sealed_view(sealed)) matches Ok(document)
                && document == container.document()),
            Err(e) => (sealing_result(sealed_view(sealed)) matches Err(cause) && cause == e),
        },
{
    match sealed {
        Some(document) => {
            if check_document(document.as_str()) {
                Ok(EncryptedContainer { document })
            } else {
                Err(EncryptError::Unsound)
            }
        },
        None => Err(EncryptError::Failed),
    }
}

/// Whether a failed decryption asks for another password.
pub fn is_wrong_password(err: DecryptError) -> (r: bool)
    ensures
        r == (err == DecryptError::WrongPassword),
{
    match err {
        DecryptError::WrongPassword => true,
        DecryptError::Corrupt => false,
    }
}

/// Whatever was sealed under a password decrypts, under that password, to
/// the secret that was sealed: if `document` opens to `secret` under
/// `password` and passes the structural check, then decrypting it gives
/// `secret`, and reading it as text gives the text that `secret` encodes.
pub proof fn lemma_decrypt_inverts_encrypt(
    document: Seq<char>,
    password: Seq<char>,
    secret: Seq<char>,
)
    requires
        document_is_sound(document),
        opens_to(document, password, encode_utf8(secret)),
    ensures
        decrypts_to(document, password, encode_utf8(secret)),
        holds_secret(document, password, secret),
{
    encode_utf8_valid_utf8(secret);
    encode_utf8_decode_utf8(secret);
}

} // verus!
