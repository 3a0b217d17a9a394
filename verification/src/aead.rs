//! Authenticated-encryption throughput: AES-256-GCM under one key and one
//! nonce, the cipher set up once and used for every round.

use vstd::prelude::*;
use aes_gcm::aead::generic_array::GenericArray;
use aes_gcm::aead::Aead;
use aes_gcm::{Aes256Gcm, KeyInit};
use crate::buffer::{pattern, pattern_buffer, BUFFER_LEN};

verus! {

/// Number of encryptions that the workload makes.
pub const AEAD_ROUNDS: u32 = 500;

/// Longest message that AES-GCM accepts, in bytes.
pub const MAX_MESSAGE_LEN: u64 = 0x10_0000_0000;

/// Length of the tag that follows the ciphertext, in bytes.
pub const TAG_LEN: usize = 16;

/// An AES-256-GCM cipher of the `aes-gcm` crate, set up for one key. What
/// is inside it is the crate's own matter: the library knows a cipher by
/// the key it was made with.
#[verifier::external_body]
pub struct Cipher {
    inner: Aes256Gcm,
}

/// The error of the `aead` crate, which tells nothing of its cause.
#[verifier::external_type_specification]
#[verifier::external_body]
pub struct ExAeadError(aes_gcm::Error);

/// The key that a cipher was made with.
pub uninterp spec fn cipher_key(cipher: Cipher) -> Seq<u8>;

/// The sealed message under AES-256-GCM: the ciphertext of `message` under
/// `key` and `nonce`, with no associated data, followed by its tag.
pub uninterp spec fn aes256_gcm_sealed(key: Seq<u8>, nonce: Seq<u8>, message: Seq<u8>) -> Seq<u8>;

/// `KeyInit::new` on `Aes256Gcm`: a cipher for the given key.
#[verifier::external_body]
fn cipher_new(key: &[u8; 32]) -> (cipher: Cipher)
    ensures
        cipher_key(cipher) == key@,
{
    Cipher { inner: Aes256Gcm::new(GenericArray::from_slice(key.as_slice())) }
}

/// `Aead::encrypt` on `Aes256Gcm`, with a message and no associated data.
/// It fails when the message is longer than AES-GCM accepts, and on nothing
/// else; else it returns the sealed message under the cipher's key. It
/// first asks for a vector with room for the message and its tag of 16
/// bytes, which std refuses with a panic beyond `isize::MAX` bytes.
#[verifier::external_body]
fn cipher_encrypt(cipher: &Cipher, nonce: &[u8; 12], message: &[u8]) -> (outcome: Result<
    Vec<u8>,
    aes_gcm::Error,
>)
    requires
        message@.len() + TAG_LEN <= isize::MAX,
    ensures
        outcome is Ok <==> message@.len() <= MAX_MESSAGE_LEN,
        outcome matches Ok(sealed) ==> sealed@ == aes256_gcm_sealed(
            cipher_key(*cipher),
            nonce@,
            message@,
        ),
{
    cipher.inner.encrypt(GenericArray::from_slice(nonce.as_slice()), message)
}

/// Why a message was not sealed.
#[derive(Clone, Copy, Debug, PartialEq, Eq, Structural)]
pub enum SealError {
    /// The cipher refused the message.
    Refused,
}

/// Turns what the cipher returned into the library's own result: the sealed
/// message as it is, and any error into `Refused`.
pub fn sealed_or_refused(outcome: Result<Vec<u8>, aes_gcm::Error>) -> (sealed: Result<
    Vec<u8>,
    SealError,
>)
    ensures
        outcome matches Ok(bytes) ==> sealed == Ok::<Vec<u8>, SealError>(bytes),
        outcome is Err ==> sealed == Err::<Vec<u8>, SealError>(SealError::Refused),
{
    match outcome {
        Ok(bytes) => Ok(bytes),
        Err(_) => Err(SealError::Refused),
    }
}

impl Cipher {
    /// The key that the cipher was made with.
    pub open spec fn key(&self) -> Seq<u8> {
        cipher_key(*self)
    }

    /// Sets a cipher up for `key`.
    pub fn new(key: &[u8; 32]) -> (cipher: Cipher)
        ensures
            cipher.key() == key@,
    {
        cipher_new(key)
    }

    /// Seals `message` under the cipher's key and `nonce`, with no
    /// associated data.
    ///
    /// A message of at most `2^36` bytes is sealed; a longer one is refused.
    /// The message and its tag together must fit a vector.
    pub fn encrypt(&self, nonce: &[u8; 12], message: &[u8]) -> (sealed: Result<Vec<u8>, SealError>)
        requires
            message@.len() + TAG_LEN <= isize::MAX,
        ensures
            message@.len() <= MAX_MESSAGE_LEN ==> sealed is Ok,
            message@.len() > MAX_MESSAGE_LEN ==> sealed == Err::<Vec<u8>, SealError>(
                SealError::Refused,
            ),
            sealed matches Ok(bytes) ==> bytes@ == aes256_gcm_sealed(self.key(), nonce@, message@),
    {
        sealed_or_refused(cipher_encrypt(self, nonce, message))
    }
}

/// The key of the workload: the bytes `0, 1, .., 31`.
pub open spec fn sequential_key_bytes() -> Seq<u8> {
    Seq::new(32, |i: int| i as u8)
}

/// The nonce of the workload: twelve zero bytes.
pub open spec fn zero_nonce_bytes() -> Seq<u8> {
    Seq::new(12, |i: int| 0u8)
}

/// Builds the key of the workload.
pub fn sequential_key() -> (key: [u8; 32])
    ensures
        key@ == sequential_key_bytes(),
{
    let mut key_bytes: [u8; 32] = [0u8; 32];
    for i in 0..32usize
        invariant
            forall|k: int| 0 <= k < i ==> #[trigger] key_bytes@[k] == k as u8,
    {
        key_bytes[i] = i as u8;
    }
    key_bytes
}

/// Seals `message` `rounds` times under one cipher for `key`, always with
/// `nonce`, and returns what the last round gave; with no round, nothing.
pub fn encrypt_rounds(key: &[u8; 32], nonce: &[u8; 12], message: &[u8], rounds: u32) -> (last:
    Option<Result<Vec<u8>, SealError>>)
    requires
        message@.len() + TAG_LEN <= isize::MAX,
    ensures
        rounds == 0 <==> last is None,
        rounds > 0 && message@.len() <= MAX_MESSAGE_LEN ==> (last matches Some(Ok(bytes))
            && bytes@ == aes256_gcm_sealed(key@, nonce@, message@)),
        rounds > 0 && message@.len() > MAX_MESSAGE_LEN ==> last == Some(
            Err::<Vec<u8>, SealError>(SealError::Refused),
        ),
{
    let cipher = Cipher::new(key);
    let mut last: Option<Result<Vec<u8>, SealError>> = None;
    for round in 0..rounds
        invariant
            message@.len() + TAG_LEN <= isize::MAX,
            cipher.key() == key@,
            round == 0 <==> last is None,
            round > 0 && message@.len() <= MAX_MESSAGE_LEN ==> (last matches Some(Ok(bytes))
                && bytes@ == aes256_gcm_sealed(key@, nonce@, message@)),
            round > 0 && message@.len() > MAX_MESSAGE_LEN ==> last == Some(
                Err::<Vec<u8>, SealError>(SealError::Refused),
            ),
    {
        last = Some(cipher.encrypt(nonce, message));
    }
    last
}

/// The encryption workload: seals the pattern buffer of 10000 bytes 500
/// times under the key `0, 1, .., 31` and the zero nonce, and returns the
/// last sealed message.
pub fn rust_aes_encrypt() -> (sealed: Vec<u8>)
    ensures
        sealed@ == aes256_gcm_sealed(sequential_key_bytes(), zero_nonce_bytes(), pattern(10000)),
{
    let key_bytes: [u8; 32] = sequential_key();
    let nonce_bytes: [u8; 12] = [0u8; 12];
    assert(nonce_bytes@ =~= zero_nonce_bytes());
    let data: Vec<u8> = pattern_buffer(BUFFER_LEN);
    encrypt_rounds(&key_bytes, &nonce_bytes, data.as_slice(), AEAD_ROUNDS).unwrap().unwrap()
}

} // verus!
