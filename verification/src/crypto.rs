//! Key derivation, authenticated encryption and length-hiding padding.

use crate::text::{
    byte_len, byte_length, char_classes, classes_of, decimal_text, has_sequential,
    has_sequential_chars, to_decimal, CharClasses,
};
use chacha20poly1305::aead::{Aead, KeyInit};
use vstd::prelude::*;
use vstd::slice::{slice_subrange, slice_to_vec};
use vstd::string::{StringExecFns, StringSliceAdditionalSpecFns};
use vstd::utf8::{
    decode_utf8, encode_utf8, encode_utf8_decode_utf8, encode_utf8_valid_utf8,
    is_ascii_chars, is_ascii_chars_encode_utf8, valid_utf8,
};

verus! {

/// Size of a padding block. A padded message is a whole number of blocks.
pub const BLOCK_SIZE: usize = 255;

/// Length of the nonce that starts every ciphertext.
pub const NONCE_SIZE: usize = 24;

/// Smallest salt that key derivation accepts.
pub const MIN_SALT_SIZE: usize = 16;

/// What goes wrong in the cipher and around it.
#[derive(Debug)]
pub enum CryptoError {
    /// The ciphertext cannot hold a nonce.
    InvalidCiphertext(String),
    /// The authentication tag does not match key, nonce and ciphertext.
    DecryptionFailed,
    /// The authenticated plaintext does not end in a valid padding marker.
    InvalidPadding(String),
    /// The operating system's random source reported a failure.
    RandomSource,
    /// A stored password hash cannot be read or checked.
    InvalidHash,
}

/// Number of padding bytes that follow a message of `len` bytes: between 1
/// and 255, and such that the total is a multiple of 255.
pub open spec fn padding_length(len: nat) -> nat {
    (255 - len % 255) as nat
}

/// The message `data` followed by `fill` and the marker byte that counts the
/// padding.
pub open spec fn padded_with(data: Seq<u8>, fill: Seq<u8>) -> Seq<u8> {
    data + fill + seq![padding_length(data.len()) as u8]
}

/// `padded` is `data` followed by a valid padding: the right length, any
/// filler, and the marker byte at the end.
pub open spec fn is_padding_of(padded: Seq<u8>, data: Seq<u8>) -> bool {
    &&& padded.len() == data.len() + padding_length(data.len())
    &&& padded.subrange(0, data.len() as int) == data
    &&& padded.last() as nat == padding_length(data.len())
}

/// What is left of `padded` once the padding that its last byte announces is
/// taken off; `None` where that byte is 0 or counts more than there is.
pub open spec fn strip_padding(padded: Seq<u8>) -> Option<Seq<u8>> {
    if padded.len() == 0 {
        None
    } else {
        let n = padded.last() as int;
        if n == 0 || n > padded.len() {
            None
        } else {
            Some(padded.subrange(0, padded.len() - n))
        }
    }
}

/// Padding never is empty, never exceeds a block, and completes a block.
pub proof fn padding_length_bounds(len: nat)
    ensures
        1 <= padding_length(len) <= 255,
        (len + padding_length(len)) % 255 == 0,
{
    assert((len + (255 - len % 255)) % 255 == 0) by (nonlinear_arith);
}

/// Whatever has a valid padding of `data` strips back to `data`.
pub proof fn strip_of_padding(padded: Seq<u8>, data: Seq<u8>)
    requires
        is_padding_of(padded, data),
    ensures
        strip_padding(padded) == Some(data),
{
    padding_length_bounds(data.len());
}

/// Removing the padding undoes adding it, for every message and every
/// filler of the right length.
pub proof fn padding_round_trip(data: Seq<u8>, fill: Seq<u8>)
    requires
        fill.len() + 1 == padding_length(data.len()),
    ensures
        is_padding_of(padded_with(data, fill), data),
        strip_padding(padded_with(data, fill)) == Some(data),
{
    padding_length_bounds(data.len());
    let padded = padded_with(data, fill);
    assert(padded.subrange(0, data.len() as int) =~= data);
    strip_of_padding(padded, data);
}

/// Pads `data` to the next multiple of 255 bytes with the filler given.
pub fn pad_with_filler(data: &[u8], fill: &[u8]) -> (padded: Vec<u8>)
    requires
        fill@.len() + 1 == padding_length(data@.len()),
    ensures
        padded@ == padded_with(data@, fill@),
        is_padding_of(padded@, data@),
        strip_padding(padded@) == Some(data@),
{
    proof {
        padding_round_trip(data@, fill@);
    }
    let mut padded: Vec<u8> = Vec::new();
    padded.extend_from_slice(data);
    padded.extend_from_slice(fill);
    let marker: usize = BLOCK_SIZE - data.len() % BLOCK_SIZE;
    padded.push(marker as u8);
    assert(padded@ =~= padded_with(data@, fill@));
    padded
}

/// Strips the padding; fails where the buffer is empty or its last byte is
/// not a possible padding length.
pub fn remove_secure_padding(padded_data: &[u8]) -> (r: Result<Vec<u8>, CryptoError>)
    ensures
        match r {
            Ok(data) => strip_padding(padded_data@) == Some(data@),
            Err(CryptoError::InvalidPadding(message)) => {
                &&& strip_padding(padded_data@) is None
                &&& message@ == (if padded_data@.len() == 0 {
                    "Empty data"@
                } else {
                    "Invalid padding length"@
                })
            },
            Err(_) => false,
        },
{
    if padded_data.len() == 0 {
        return Err(CryptoError::InvalidPadding("Empty data".to_string()));
    }
    let padding_length: usize = padded_data[padded_data.len() - 1] as usize;
    if padding_length == 0 || padding_length > BLOCK_SIZE || padding_length > padded_data.len() {
        return Err(CryptoError::InvalidPadding("Invalid padding length".to_string()));
    }
    let data_length: usize = padded_data.len() - padding_length;
    Ok(slice_to_vec(slice_subrange(padded_data, 0, data_length)))
}

/// The error of the operating system's random source.
#[verifier::external_type_specification]
#[verifier::external_body]
pub struct ExRandomError(getrandom::Error);

/// The error of the AEAD: deliberately without detail.
#[verifier::external_type_specification]
#[verifier::external_body]
pub struct ExAeadError(chacha20poly1305::aead::Error);

/// `getrandom::getrandom` fills the buffer it is given and keeps its length;
/// nothing is claimed of the bytes, nor that the call succeeds.
pub assume_specification[ getrandom::getrandom ](dest: &mut [u8]) -> (r: Result<
    (),
    getrandom::Error,
>)
    ensures
        final(dest)@.len() == old(dest)@.len(),
;

/// What XChaCha20-Poly1305 makes of a padded message under a key and a
/// 24-byte nonce: the encrypted bytes followed by the 16-byte tag.
pub uninterp spec fn xchacha20poly1305_seal(key: Seq<u8>, nonce: Seq<u8>, plaintext: Seq<u8>) -> Seq<
    u8,
>;

/// What XChaCha20-Poly1305 recovers from a sealed message under a key and a
/// 24-byte nonce, or `None` where the tag does not authenticate it.
pub uninterp spec fn xchacha20poly1305_open(key: Seq<u8>, nonce: Seq<u8>, sealed: Seq<u8>) -> Option<
    Seq<u8>,
>;

/// What Argon2id (version 0x13, no secret, no associated data) derives as a
/// 32-byte tag from a password, a salt and the three cost parameters.
pub uninterp spec fn argon2id_hash(
    password: Seq<u8>,
    salt: Seq<u8>,
    memory_cost: u32,
    time_cost: u32,
    parallelism: u32,
) -> Seq<u8>;

/// Calls `XChaCha20Poly1305::encrypt` with an empty associated data. The
/// cipher refuses only messages of 2^32 - 1 blocks of 64 bytes or more,
/// which `requires` leaves out. The contract names the result, gives its
/// length (message plus tag), and claims that the cipher opens what it
/// sealed under the same key and nonce.
#[verifier::external_body]
fn aead_seal(key: &[u8; 32], nonce: &[u8], plaintext: &[u8]) -> (sealed: Vec<u8>)
    requires
        nonce@.len() == 24,
        plaintext@.len() / 64 < u32::MAX,
        plaintext@.len() + 16 <= isize::MAX,
    ensures
        sealed@ == xchacha20poly1305_seal(key@, nonce@, plaintext@),
        sealed@.len() == plaintext@.len() + 16,
        xchacha20poly1305_open(key@, nonce@, sealed@) == Some(plaintext@),
{
    let cipher = chacha20poly1305::XChaCha20Poly1305::new(chacha20poly1305::Key::from_slice(key));
    cipher.encrypt(chacha20poly1305::XNonce::from_slice(nonce), plaintext).expect(
        "XChaCha20Poly1305 encryption failed",
    )
}

/// Calls `XChaCha20Poly1305::decrypt` with an empty associated data. The
/// contract names the result and says that an opened message is 16 bytes
/// (the tag) shorter than what was sealed.
#[verifier::external_body]
fn aead_open(key: &[u8; 32], nonce: &[u8], sealed: &[u8]) -> (r: Result<
    Vec<u8>,
    chacha20poly1305::aead::Error,
>)
    requires
        nonce@.len() == 24,
    ensures
        match r {
            Ok(plaintext) => {
                &&& xchacha20poly1305_open(key@, nonce@, sealed@) == Some(plaintext@)
                &&& plaintext@.len() + 16 == sealed@.len()
            },
            Err(_) => xchacha20poly1305_open(key@, nonce@, sealed@) is None,
        },
{
    let cipher = chacha20poly1305::XChaCha20Poly1305::new(chacha20poly1305::Key::from_slice(key));
    cipher.decrypt(chacha20poly1305::XNonce::from_slice(nonce), sealed)
}

/// Calls `Argon2::hash_password_into` for Argon2id, version 0x13, on a
/// 32-byte output buffer. `requires` holds the bounds that `Params::new` and
/// the hasher check, so that neither fails; the contract names the result.
#[verifier::external_body]
fn argon2id_derive(
    password: &[u8],
    salt: &[u8],
    memory_cost: u32,
    time_cost: u32,
    parallelism: u32,
    hash_length: Option<usize>,
) -> (key: [u8; 32])
    requires
        password@.len() <= 0xFFFF_FFFF,
        8 <= salt@.len() <= 0xFFFF_FFFF,
        1 <= parallelism <= 0xFF_FFFF,
        memory_cost >= 8 * parallelism,
        time_cost >= 1,
        hash_length matches Some(n) ==> n == 32,
    ensures
        key@ == argon2id_hash(password@, salt@, memory_cost, time_cost, parallelism),
{
    let params = argon2::Params::new(memory_cost, time_cost, parallelism, hash_length).expect(
        "Invalid Argon2id parameters",
    );
    let hasher = argon2::Argon2::new(argon2::Algorithm::Argon2id, argon2::Version::V0x13, params);
    let mut key = [0u8; 32];
    hasher.hash_password_into(password, salt, &mut key).expect("Argon2id hashing failed");
    key
}

/// Calls `Zeroize::zeroize` on a key buffer, which overwrites every byte
/// with zero.
#[verifier::external_body]
fn zeroize_key(key: &mut [u8; 32])
    ensures
        forall|i: int| 0 <= i < 32 ==> #[trigger] final(key)@[i] == 0u8,
{
    zeroize::Zeroize::zeroize(key);
}

/// Wipes a key from memory: every byte of it is zero afterwards.
pub fn wipe_key(key: &mut [u8; 32])
    ensures
        forall|i: int| 0 <= i < 32 ==> #[trigger] final(key)@[i] == 0u8,
{
    zeroize_key(key);
}

/// Cost parameters of the Argon2id key derivation.
#[derive(Debug, Clone, Copy, PartialEq, Eq, Structural)]
pub struct Argon2Config {
    /// Memory in KiB.
    pub memory_cost: u32,
    /// Number of passes.
    pub time_cost: u32,
    /// Number of lanes.
    pub parallelism: u32,
    /// Length of the output, where it is fixed.
    pub hash_length: Option<usize>,
}

impl Argon2Config {
    /// The parameters that the key derivation accepts for a 32-byte key:
    /// at least one pass, 1 to 2^24 - 1 lanes, at least 8 KiB for each lane,
    /// and an output length that is 32 where it is given.
    pub open spec fn is_valid(&self) -> bool {
        &&& 1 <= self.parallelism <= 0xFF_FFFF
        &&& self.memory_cost >= 8 * self.parallelism
        &&& self.time_cost >= 1
        &&& (self.hash_length matches Some(n) ==> n == 32)
    }

    /// Tells whether the parameters are valid.
    pub fn check(&self) -> (ok: bool)
        ensures
            ok == self.is_valid(),
    {
        let lanes_ok = 1 <= self.parallelism && self.parallelism <= 0xFF_FFFF;
        let length_ok = match self.hash_length {
            Some(n) => n == 32,
            None => true,
        };
        lanes_ok && self.memory_cost / 8 >= self.parallelism && self.time_cost >= 1 && length_ok
    }
}

impl Default for Argon2Config {
    /// 64 MiB, 3 passes, 4 lanes, 32 bytes.
    fn default() -> (config: Self)
        ensures
            config.memory_cost == 65536,
            config.time_cost == 3,
            config.parallelism == 4,
            config.hash_length == Some(32usize),
            config.is_valid(),
    {
        Self { memory_cost: 65536, time_cost: 3, parallelism: 4, hash_length: Some(32) }
    }
}

/// The key that a password and a salt give under a configuration.
pub open spec fn derived_key(pass: Seq<char>, salt: Seq<u8>, config: Argon2Config) -> Seq<u8> {
    argon2id_hash(
        vstd::utf8::encode_utf8(pass),
        salt,
        config.memory_cost,
        config.time_cost,
        config.parallelism,
    )
}

/// The configuration that `derive_key` uses.
pub open spec fn default_config() -> Argon2Config {
    Argon2Config { memory_cost: 65536, time_cost: 3, parallelism: 4, hash_length: Some(32usize) }
}

/// The inputs on which a key can be derived: a salt of at least 16 bytes,
/// and password and salt within the 2^32 - 1 bytes that the hash admits.
pub open spec fn derivable(pass: Seq<char>, salt: Seq<u8>) -> bool {
    &&& 16 <= salt.len() <= 0xFFFF_FFFF
    &&& vstd::utf8::encode_utf8(pass).len() <= 0xFFFF_FFFF
}

/// Tells whether a key can be derived from this password and salt.
pub fn can_derive(pass: &str, salt: &[u8]) -> (ok: bool)
    ensures
        ok == derivable(pass@, salt@),
{
    MIN_SALT_SIZE <= salt.len() && salt.len() <= 0xFFFF_FFFF && pass.as_bytes().len()
        <= 0xFFFF_FFFF
}

/// Derives a 32-byte key with the default configuration.
pub fn derive_key(pass: &str, salt: &[u8]) -> (key: [u8; 32])
    requires
        derivable(pass@, salt@),
    ensures
        key@ == derived_key(pass@, salt@, default_config()),
{
    let config = Argon2Config::default();
    derive_key_with_config(pass, salt, &config)
}

/// Derives a 32-byte key from a password and a salt with Argon2id.
pub fn derive_key_with_config(pass: &str, salt: &[u8], config: &Argon2Config) -> (key: [u8; 32])
    requires
        derivable(pass@, salt@),
        config.is_valid(),
    ensures
        key@ == derived_key(pass@, salt@, *config),
{
    argon2id_derive(
        pass.as_bytes(),
        salt,
        config.memory_cost,
        config.time_cost,
        config.parallelism,
        config.hash_length,
    )
}

/// The key that `derive_key` gives is the one under 64 MiB of memory, 3
/// passes, 4 lanes and 32 bytes of output.
pub proof fn default_derivation(pass: Seq<char>, salt: Seq<u8>)
    ensures
        derived_key(pass, salt, default_config()) == derived_key(
            pass,
            salt,
            Argon2Config {
                memory_cost: 65536,
                time_cost: 3,
                parallelism: 4,
                hash_length: Some(32usize),
            },
        ),
        default_config().is_valid(),
{
}

/// Two derivations from the same password, salt and configuration give the
/// same key.
pub proof fn derivation_is_deterministic(
    pass: Seq<char>,
    salt: Seq<u8>,
    config: Argon2Config,
    first: Seq<u8>,
    second: Seq<u8>,
)
    requires
        first == derived_key(pass, salt, config),
        second == derived_key(pass, salt, config),
    ensures
        first == second,
{
}

/// Draws `len` bytes from the operating system's random source. Where none
/// is asked for, the source is not called, and nothing can fail.
fn random_bytes(len: usize) -> (r: Result<Vec<u8>, CryptoError>)
    ensures
        match r {
            Ok(bytes) => bytes@.len() == len,
            Err(e) => e is RandomSource,
        },
        len == 0 ==> r is Ok,
{
    let mut buffer: Vec<u8> = vec![0u8; len];
    if len == 0 {
        return Ok(buffer);
    }
    match getrandom::getrandom(buffer.as_mut_slice()) {
        Ok(()) => Ok(buffer),
        Err(_) => Err(CryptoError::RandomSource),
    }
}

/// Adds the length-hiding padding: random filler up to the next multiple of
/// 255 bytes, a full block where the data is already aligned, and the marker
/// byte at the end. Where the data is one byte short of a block, the padding
/// is the marker alone: no random byte is drawn, and the padding cannot
/// fail.
pub fn add_secure_padding(data: &[u8]) -> (r: Result<Vec<u8>, CryptoError>)
    ensures
        match r {
            Ok(padded) => {
                &&& is_padding_of(padded@, data@)
                &&& strip_padding(padded@) == Some(data@)
            },
            Err(e) => e is RandomSource,
        },
        data@.len() % 255 == 254 ==> (r matches Ok(padded) && padded@ == data@.push(1u8)),
{
    proof {
        padding_length_bounds(data@.len());
    }
    let padding_needed: usize = BLOCK_SIZE - data.len() % BLOCK_SIZE;
    let fill = random_bytes(padding_needed - 1)?;
    let padded = pad_with_filler(data, fill.as_slice());
    assert(data@.len() % 255 == 254 ==> padded@ =~= data@.push(1u8));
    Ok(padded)
}

/// The outcome of opening a ciphertext.
pub enum Decryption {
    /// The tag matched and the padding was valid: the message.
    Plaintext(Seq<u8>),
    /// Shorter than a nonce.
    InvalidCiphertext,
    /// The tag did not match.
    DecryptionFailed,
    /// The tag matched, the padding marker is impossible.
    InvalidPadding,
}

/// A ciphertext: the nonce, then the padded message sealed under key and
/// nonce.
pub open spec fn encrypted_with(key: Seq<u8>, nonce: Seq<u8>, fill: Seq<u8>, plaintext: Seq<u8>) -> Seq<
    u8,
> {
    nonce + xchacha20poly1305_seal(key, nonce, padded_with(plaintext, fill))
}

/// What `decrypt` makes of a ciphertext under a key: it needs the 24 bytes of
/// a nonce, then at least the 16 bytes of a tag, which must match, and a
/// plaintext that ends in a valid padding.
pub open spec fn decryption(key: Seq<u8>, ciphertext: Seq<u8>) -> Decryption {
    if ciphertext.len() < 24 {
        Decryption::InvalidCiphertext
    } else if ciphertext.len() < 40 {
        // A nonce, and less than a tag after it: nothing that the cipher opens.
        Decryption::DecryptionFailed
    } else {
        match xchacha20poly1305_open(
            key,
            ciphertext.subrange(0, 24),
            ciphertext.subrange(24, ciphertext.len() as int),
        ) {
            None => Decryption::DecryptionFailed,
            Some(padded) => match strip_padding(padded) {
                None => Decryption::InvalidPadding,
                Some(message) => Decryption::Plaintext(message),
            },
        }
    }
}

/// The messages that can be encrypted: padded, they stay under the 2^32 - 1
/// blocks of 64 bytes that the cipher admits, and the ciphertext fits in
/// memory.
pub open spec fn encryptable(len: nat) -> bool {
    &&& (len + 255) / 64 < u32::MAX
    &&& len + 295 <= isize::MAX
}

/// `ciphertext` is an encryption of `plaintext` under `key`: a nonce and the
/// sealed padded message, which `decrypt` turns back into `plaintext`.
pub open spec fn is_encryption_of(ciphertext: Seq<u8>, key: Seq<u8>, plaintext: Seq<u8>) -> bool {
    &&& ciphertext.len() == 24 + plaintext.len() + padding_length(plaintext.len()) + 16
    &&& decryption(key, ciphertext) == Decryption::Plaintext(plaintext)
    &&& exists|nonce: Seq<u8>, fill: Seq<u8>|
        {
            &&& nonce.len() == 24
            &&& fill.len() + 1 == padding_length(plaintext.len())
            &&& ciphertext == #[trigger] encrypted_with(key, nonce, fill, plaintext)
        }
}

/// Decryption undoes encryption: where the cipher adds its tag of 16 bytes
/// and opens what it sealed under a key and a nonce, the ciphertext that is
/// made of a message with any nonce and any filler decrypts to the message.
pub proof fn decryption_undoes_encryption(key: Seq<u8>, nonce: Seq<u8>, fill: Seq<u8>, plaintext: Seq<u8>)
    requires
        nonce.len() == 24,
        fill.len() + 1 == padding_length(plaintext.len()),
        xchacha20poly1305_seal(key, nonce, padded_with(plaintext, fill)).len() == padded_with(
            plaintext,
            fill,
        ).len() + 16,
        xchacha20poly1305_open(
            key,
            nonce,
            xchacha20poly1305_seal(key, nonce, padded_with(plaintext, fill)),
        ) == Some(padded_with(plaintext, fill)),
    ensures
        decryption(key, encrypted_with(key, nonce, fill, plaintext)) == Decryption::Plaintext(
            plaintext,
        ),
{
    let sealed = xchacha20poly1305_seal(key, nonce, padded_with(plaintext, fill));
    let ciphertext = encrypted_with(key, nonce, fill, plaintext);
    assert(ciphertext.subrange(0, 24) =~= nonce);
    assert(ciphertext.subrange(24, ciphertext.len() as int) =~= sealed);
    padding_round_trip(plaintext, fill);
}

/// Decrypting what encryption gave returns the message: whatever is an
/// encryption of a message under a key, as `encrypt` returns it, is a
/// ciphertext that `decrypt` turns into that message under the same key.
pub proof fn decrypting_an_encryption_gives_the_message(
    ciphertext: Seq<u8>,
    key: Seq<u8>,
    plaintext: Seq<u8>,
)
    requires
        is_encryption_of(ciphertext, key, plaintext),
    ensures
        decryption(key, ciphertext) == Decryption::Plaintext(plaintext),
        ciphertext.len() >= 24 + 255 + 16,
        ciphertext.len() > plaintext.len() + 40,
{
    padding_length_bounds(plaintext.len());
}

/// Every ciphertext begins with the nonce that it was made with, so that
/// two encryptions of a message under a key with different nonces differ,
/// whatever their fillers.
pub proof fn fresh_nonces_give_different_ciphertexts(
    key: Seq<u8>,
    first_nonce: Seq<u8>,
    second_nonce: Seq<u8>,
    first_fill: Seq<u8>,
    second_fill: Seq<u8>,
    plaintext: Seq<u8>,
)
    requires
        first_nonce.len() == 24,
        second_nonce.len() == 24,
        first_nonce != second_nonce,
    ensures
        encrypted_with(key, first_nonce, first_fill, plaintext).subrange(0, 24) == first_nonce,
        encrypted_with(key, second_nonce, second_fill, plaintext).subrange(0, 24) == second_nonce,
        encrypted_with(key, first_nonce, first_fill, plaintext) != encrypted_with(
            key,
            second_nonce,
            second_fill,
            plaintext,
        ),
{
    let first = encrypted_with(key, first_nonce, first_fill, plaintext);
    let second = encrypted_with(key, second_nonce, second_fill, plaintext);
    assert(first.subrange(0, 24) =~= first_nonce);
    assert(second.subrange(0, 24) =~= second_nonce);
}

/// Tells whether a message of this length can be encrypted.
pub fn can_encrypt(len: usize) -> (ok: bool)
    ensures
        ok == encryptable(len as nat),
{
    len <= isize::MAX as usize - 295 && (len as u128 + 255) / 64 < 0xFFFF_FFFF
}

/// Encrypts with the nonce and the padding filler given.
pub fn encrypt_with(key: &[u8; 32], nonce: &[u8], fill: &[u8], plaintext: &[u8]) -> (ciphertext:
    Vec<u8>)
    requires
        nonce@.len() == 24,
        fill@.len() + 1 == padding_length(plaintext@.len()),
        encryptable(plaintext@.len()),
    ensures
        ciphertext@ == encrypted_with(key@, nonce@, fill@, plaintext@),
        is_encryption_of(ciphertext@, key@, plaintext@),
{
    proof {
        padding_length_bounds(plaintext@.len());
    }
    let padded = pad_with_filler(plaintext, fill);
    let sealed = aead_seal(key, nonce, padded.as_slice());
    let mut ciphertext: Vec<u8> = Vec::with_capacity(nonce.len() + sealed.len());
    ciphertext.extend_from_slice(nonce);
    ciphertext.extend_from_slice(sealed.as_slice());
    proof {
        assert(ciphertext@ =~= encrypted_with(key@, nonce@, fill@, plaintext@));
        assert(ciphertext@.subrange(0, 24) =~= nonce@);
        assert(ciphertext@.subrange(24, ciphertext@.len() as int) =~= sealed@);
    }
    ciphertext
}

/// Encrypts a message under a key: a fresh random 24-byte nonce, the message
/// padded to a multiple of 255 bytes, sealed with XChaCha20-Poly1305, the
/// nonce in front. What comes out decrypts to the message under the same key.
pub fn encrypt(key: &[u8; 32], plaintext: &[u8]) -> (r: Result<Vec<u8>, CryptoError>)
    requires
        encryptable(plaintext@.len()),
    ensures
        match r {
            Ok(ciphertext) => is_encryption_of(ciphertext@, key@, plaintext@),
            Err(e) => e is RandomSource,
        },
{
    proof {
        padding_length_bounds(plaintext@.len());
    }
    let nonce = random_bytes(NONCE_SIZE)?;
    let padding_needed: usize = BLOCK_SIZE - plaintext.len() % BLOCK_SIZE;
    let fill = random_bytes(padding_needed - 1)?;
    Ok(encrypt_with(key, nonce.as_slice(), fill.as_slice(), plaintext))
}

/// Decrypts a ciphertext under a key: checks that it holds a nonce, verifies
/// the tag, and strips the padding. No plaintext is returned unless the tag
/// matched.
pub fn decrypt(key: &[u8; 32], ciphertext: &[u8]) -> (r: Result<Vec<u8>, CryptoError>)
    ensures
        match r {
            Ok(plaintext) => decryption(key@, ciphertext@) == Decryption::Plaintext(plaintext@),
            Err(CryptoError::InvalidCiphertext(message)) => {
                &&& decryption(key@, ciphertext@) is InvalidCiphertext
                &&& message@ == "Ciphertext too short"@
            },
            Err(CryptoError::DecryptionFailed) => decryption(key@, ciphertext@) is DecryptionFailed,
            Err(CryptoError::InvalidPadding(message)) => {
                &&& decryption(key@, ciphertext@) is InvalidPadding
                &&& message@ == (if ciphertext@.len() == 40 {
                    "Empty data"@
                } else {
                    "Invalid padding length"@
                })
            },
            Err(_) => false,
        },
        ciphertext@.len() < 24 ==> r matches Err(CryptoError::InvalidCiphertext(_)),
        24 <= ciphertext@.len() < 40 ==> r matches Err(CryptoError::DecryptionFailed),
        r matches Ok(plaintext) ==> plaintext@.len() + 41 <= ciphertext@.len(),
{
    if ciphertext.len() < NONCE_SIZE {
        return Err(CryptoError::InvalidCiphertext("Ciphertext too short".to_string()));
    }
    let nonce = slice_subrange(ciphertext, 0, NONCE_SIZE);
    let sealed = slice_subrange(ciphertext, NONCE_SIZE, ciphertext.len());
    let padded = match aead_open(key, nonce, sealed) {
        Ok(padded) => padded,
        Err(_) => {
            return Err(CryptoError::DecryptionFailed);
        },
    };
    remove_secure_padding(padded.as_slice())
}

/// Draws a random salt of `length` bytes, and of 16 where less is asked.
pub fn generate_salt(length: usize) -> (r: Result<Vec<u8>, CryptoError>)
    ensures
        match r {
            Ok(salt) => salt@.len() == (if length < 16 {
                16
            } else {
                length as int
            }),
            Err(e) => e is RandomSource,
        },
{
    let size: usize = if length < MIN_SALT_SIZE {
        MIN_SALT_SIZE
    } else {
        length
    };
    random_bytes(size)
}

/// Compares two byte strings without leaving early at the first difference.
pub fn constant_time_eq(a: &[u8], b: &[u8]) -> (equal: bool)
    ensures
        equal == (a@ == b@),
{
    if a.len() != b.len() {
        return false;
    }
    let mut result: u8 = 0;
    let mut i: usize = 0;
    assert(a@.subrange(0, 0) =~= b@.subrange(0, 0));
    while i < a.len()
        invariant
            i <= a@.len(),
            a@.len() == b@.len(),
            result == 0 <==> a@.subrange(0, i as int) == b@.subrange(0, i as int),
        decreases a@.len() - i,
    {
        let x: u8 = a[i];
        let y: u8 = b[i];
        let previous: u8 = result;
        result = result | (x ^ y);
        proof {
            assert(((previous | (x ^ y)) == 0u8) <==> (previous == 0u8 && x == y)) by (bit_vector);
            let a0 = a@.subrange(0, i as int);
            let b0 = b@.subrange(0, i as int);
            let a1 = a@.subrange(0, i + 1);
            let b1 = b@.subrange(0, i + 1);
            assert(a1 =~= a0.push(x));
            assert(b1 =~= b0.push(y));
            if a1 == b1 {
                assert(a0 =~= a1.subrange(0, i as int));
                assert(b0 =~= b1.subrange(0, i as int));
                assert(a1[i as int] == b1[i as int]);
            }
        }
        i = i + 1;
    }
    proof {
        assert(a@.subrange(0, i as int) =~= a@);
        assert(b@.subrange(0, i as int) =~= b@);
    }
    result == 0
}

#[allow(dead_code)]
pub fn _constant_time_eq_allow(a: &[u8], b: &[u8]) -> (equal: bool)
    ensures
        equal == (a@ == b@),
{
    constant_time_eq(a, b)
}

/// What an estimate of a password's strength says.
pub struct StrengthSummary {
    pub score: u32,
    pub level: Seq<char>,
    pub feedback: Seq<Seq<char>>,
}

/// An estimate of a password's strength.
#[derive(Debug)]
pub struct PasswordStrength {
    /// From 0 to 100.
    pub score: u32,
    /// `Weak`, `Fair`, `Good` or `Strong`.
    pub level: String,
    /// What would make the password stronger.
    pub feedback: Vec<String>,
}

impl View for PasswordStrength {
    type V = StrengthSummary;

    open spec fn view(&self) -> StrengthSummary {
        StrengthSummary {
            score: self.score,
            level: self.level@,
            feedback: self.feedback@.map_values(|s: String| s@),
        }
    }
}

/// The points that a password's length in bytes earns.
pub open spec fn length_points(len: nat) -> nat {
    if len <= 7 {
        0
    } else if len <= 11 {
        20
    } else if len <= 15 {
        35
    } else {
        50
    }
}

/// The score that a length in bytes, the classes of character and a run of
/// rising characters come to: the points for the length, 10 for each class,
/// 15 less for a run; from 0 to 100.
pub open spec fn score_of(len: nat, classes: CharClasses, sequential: bool) -> nat {
    let raw = length_points(len) + 10 * classes.variety_spec();
    let scored = if sequential {
        if raw >= 15 {
            (raw - 15) as nat
        } else {
            0
        }
    } else {
        raw
    };
    if scored > 100 {
        100
    } else {
        scored
    }
}

/// The score of a password: that of its length in bytes, of the classes of
/// its characters, and of whether it holds a run of rising characters.
pub open spec fn estimated_score(password: Seq<char>) -> nat {
    score_of(byte_len(password), classes_of(password), has_sequential(password))
}

/// The name of the level that a score belongs to.
pub open spec fn strength_level(score: nat) -> Seq<char> {
    if score <= 30 {
        "Weak"@
    } else if score <= 60 {
        "Fair"@
    } else if score <= 80 {
        "Good"@
    } else if score <= 100 {
        "Strong"@
    } else {
        "Unknown"@
    }
}

/// One piece of advice where it applies, none where it does not.
pub open spec fn advice_if(applies: bool, advice: Seq<char>) -> Seq<Seq<char>> {
    if applies {
        seq![advice]
    } else {
        Seq::empty()
    }
}

/// The advice that a length in bytes, the classes of character and a run of
/// rising characters call for, in the order in which it is given.
pub open spec fn feedback_of(len: nat, classes: CharClasses, sequential: bool) -> Seq<Seq<char>> {
    advice_if(len <= 7, "Password too short (minimum 8 characters)"@) + advice_if(
        !classes.lowercase || !classes.uppercase,
        "Use both uppercase and lowercase letters"@,
    ) + advice_if(!classes.digits, "Include at least one number"@) + advice_if(
        !classes.symbols,
        "Include special characters"@,
    ) + advice_if(sequential, "Avoid sequential characters"@)
}

/// The advice on a password.
pub open spec fn estimated_feedback(password: Seq<char>) -> Seq<Seq<char>> {
    feedback_of(byte_len(password), classes_of(password), has_sequential(password))
}

/// The estimate that a length in bytes, the classes of character and a run
/// of rising characters come to.
pub open spec fn strength_of(len: nat, classes: CharClasses, sequential: bool) -> StrengthSummary {
    StrengthSummary {
        score: score_of(len, classes, sequential) as u32,
        level: strength_level(score_of(len, classes, sequential)),
        feedback: feedback_of(len, classes, sequential),
    }
}

/// The estimate of a password's strength.
pub open spec fn estimated_strength(password: Seq<char>) -> StrengthSummary {
    strength_of(byte_len(password), classes_of(password), has_sequential(password))
}

/// Names the level that a score belongs to.
pub fn level_of_score(score: u32) -> (level: String)
    ensures
        level@ == strength_level(score as nat),
{
    if score <= 30 {
        String::from_str("Weak")
    } else if score <= 60 {
        String::from_str("Fair")
    } else if score <= 80 {
        String::from_str("Good")
    } else if score <= 100 {
        String::from_str("Strong")
    } else {
        String::from_str("Unknown")
    }
}

/// Estimates the strength of a password on a scale from 0 to 100, with
/// advice on how to make it stronger.
pub fn estimate_password_strength(password: &str) -> (strength: PasswordStrength)
    ensures
        strength@ == estimated_strength(password@),
        strength.score <= 100,
{
    let classes = char_classes(password);
    let len = byte_length(password);
    let sequential = has_sequential_chars(password);
    strength_from(len, classes, sequential)
}

/// Estimates a strength from what was found in a password: its length in
/// bytes, the classes of its characters, and whether it holds a run of
/// rising characters.
pub fn strength_from(len: usize, classes: CharClasses, sequential: bool) -> (strength:
    PasswordStrength)
    ensures
        strength@ == strength_of(len as nat, classes, sequential),
        strength.score <= 100,
{
    let mut score: u32 = 0;
    let mut feedback: Vec<String> = Vec::new();
    let ghost mut advice: Seq<Seq<char>> = Seq::empty();
    assert(feedback@.map_values(|s: String| s@) =~= advice);
    if len <= 7 {
        feedback.push(String::from_str("Password too short (minimum 8 characters)"));
    } else if len <= 11 {
        score = score + 20;
    } else if len <= 15 {
        score = score + 35;
    } else {
        score = score + 50;
    }
    proof {
        advice = advice + advice_if(len <= 7, "Password too short (minimum 8 characters)"@);
        assert(feedback@.map_values(|s: String| s@) =~= advice);
    }
    score = score + classes.variety() * 10;
    if !classes.lowercase || !classes.uppercase {
        feedback.push(String::from_str("Use both uppercase and lowercase letters"));
    }
    proof {
        advice = advice + advice_if(
            !classes.lowercase || !classes.uppercase,
            "Use both uppercase and lowercase letters"@,
        );
        assert(feedback@.map_values(|s: String| s@) =~= advice);
    }
    if !classes.digits {
        feedback.push(String::from_str("Include at least one number"));
    }
    proof {
        advice = advice + advice_if(!classes.digits, "Include at least one number"@);
        assert(feedback@.map_values(|s: String| s@) =~= advice);
    }
    if !classes.symbols {
        feedback.push(String::from_str("Include special characters"));
    }
    proof {
        advice = advice + advice_if(!classes.symbols, "Include special characters"@);
        assert(feedback@.map_values(|s: String| s@) =~= advice);
    }
    if sequential {
        score = if score >= 15 {
            score - 15
        } else {
            0
        };
        feedback.push(String::from_str("Avoid sequential characters"));
    }
    proof {
        advice = advice + advice_if(sequential, "Avoid sequential characters"@);
        assert(feedback@.map_values(|s: String| s@) =~= advice);
        assert(advice == feedback_of(len as nat, classes, sequential));
    }
    let capped: u32 = if score > 100 {
        100
    } else {
        score
    };
    PasswordStrength { score: capped, level: level_of_score(capped), feedback }
}

/// The symbols that a generated password may hold, as bytes.
pub open spec fn password_symbols() -> Seq<u8> {
    seq![
        33u8, 64u8, 35u8, 36u8, 37u8, 94u8, 38u8, 42u8, 40u8, 41u8, 95u8, 43u8, 45u8, 61u8, 91u8,
        93u8, 123u8, 125u8, 124u8, 59u8, 58u8, 44u8, 46u8, 60u8, 62u8, 63u8,
    ]
}

/// A byte of the lower-case letters.
pub open spec fn is_lower_byte(b: u8) -> bool {
    97 <= b <= 122
}

/// A byte of the upper-case letters.
pub open spec fn is_upper_byte(b: u8) -> bool {
    65 <= b <= 90
}

/// A byte of the digits.
pub open spec fn is_digit_byte(b: u8) -> bool {
    48 <= b <= 57
}

/// A byte of the symbols that a generated password may hold.
pub open spec fn is_symbol_byte(b: u8) -> bool {
    password_symbols().contains(b)
}

/// A byte of the alphabet from which a password is drawn.
pub open spec fn in_alphabet(b: u8, include_symbols: bool) -> bool {
    is_lower_byte(b) || is_upper_byte(b) || is_digit_byte(b) || (include_symbols
        && is_symbol_byte(b))
}

/// The number of characters in the alphabet.
pub open spec fn alphabet_size(include_symbols: bool) -> nat {
    if include_symbols {
        88
    } else {
        62
    }
}

/// The character at a place in the alphabet: the lower-case letters, the
/// upper-case letters, the digits, then the symbols.
pub open spec fn alphabet_at(index: int) -> u8 {
    if index < 26 {
        (97 + index) as u8
    } else if index < 52 {
        (65 + index - 26) as u8
    } else if index < 62 {
        (48 + index - 52) as u8
    } else {
        password_symbols()[index - 62]
    }
}

/// The bytes of a generated password: as long as was asked, and long enough
/// for one character of each class; drawn from the alphabet; with a
/// lower-case letter, an upper-case letter and a digit, and with a symbol
/// where symbols are included.
pub open spec fn is_generated(password: Seq<u8>, length: nat, include_symbols: bool) -> bool {
    &&& password.len() == (if length < required_classes(include_symbols) {
        required_classes(include_symbols)
    } else {
        length
    })
    &&& forall|i: int| 0 <= i < password.len() ==> in_alphabet(#[trigger] password[i], include_symbols)
    &&& exists|i: int| 0 <= i < password.len() && is_lower_byte(#[trigger] password[i])
    &&& exists|i: int| 0 <= i < password.len() && is_upper_byte(#[trigger] password[i])
    &&& exists|i: int| 0 <= i < password.len() && is_digit_byte(#[trigger] password[i])
    &&& include_symbols ==> exists|i: int|
        0 <= i < password.len() && is_symbol_byte(#[trigger] password[i])
}

/// The classes of character of which a generated password holds one each.
pub open spec fn required_classes(include_symbols: bool) -> nat {
    if include_symbols {
        4
    } else {
        3
    }
}

/// The characters that stand for ASCII bytes.
pub open spec fn ascii_text(bytes: Seq<u8>) -> Seq<char> {
    Seq::new(bytes.len(), |i: int| bytes[i] as char)
}

/// Calls `String::from_utf8` on bytes that are valid UTF-8, which it turns
/// into the string that they encode.
#[verifier::external_body]
fn string_from_utf8(bytes: Vec<u8>) -> (text: String)
    requires
        valid_utf8(bytes@),
    ensures
        text@ == decode_utf8(bytes@),
{
    String::from_utf8(bytes).expect("valid UTF-8")
}

/// Turns ASCII bytes into the string of their characters.
fn ascii_string(bytes: Vec<u8>) -> (text: String)
    requires
        forall|i: int| 0 <= i < bytes@.len() ==> #[trigger] bytes@[i] < 128,
    ensures
        text@ == ascii_text(bytes@),
{
    proof {
        let chars = ascii_text(bytes@);
        assert(is_ascii_chars(chars));
        is_ascii_chars_encode_utf8(chars);
        assert(encode_utf8(chars) =~= bytes@);
        encode_utf8_valid_utf8(chars);
        encode_utf8_decode_utf8(chars);
    }
    string_from_utf8(bytes)
}

/// The symbol at a place in the list of symbols.
fn symbol_at(index: usize) -> (b: u8)
    requires
        index < 26,
    ensures
        b == password_symbols()[index as int],
        is_symbol_byte(b),
        b < 128,
{
    let table: [u8; 26] = [
        33, 64, 35, 36, 37, 94, 38, 42, 40, 41, 95, 43, 45, 61, 91, 93, 123, 125, 124, 59, 58, 44,
        46, 60, 62, 63,
    ];
    assert(table@ =~= password_symbols());
    table[index]
}

/// The character at a place in the alphabet.
fn alphabet_byte(index: usize, include_symbols: bool) -> (b: u8)
    requires
        index < alphabet_size(include_symbols),
    ensures
        b == alphabet_at(index as int),
        in_alphabet(b, include_symbols),
        b < 128,
{
    if index < 26 {
        97 + index as u8
    } else if index < 52 {
        65 + (index - 26) as u8
    } else if index < 62 {
        48 + (index - 52) as u8
    } else {
        symbol_at(index - 62)
    }
}

/// Draws a number from the operating system's random source: four bytes,
/// read as a number with the lowest byte first.
fn random_u32() -> (r: Result<u32, CryptoError>)
    ensures
        match r {
            Ok(number) => exists|bytes: Seq<u8>|
                bytes.len() == 4 && number == #[trigger] little_endian(bytes),
            Err(e) => e is RandomSource,
        },
{
    let bytes = random_bytes(4)?;
    Ok(u32_from_le_bytes(bytes.as_slice()))
}

/// The number that four bytes stand for, the lowest byte first.
pub open spec fn little_endian(bytes: Seq<u8>) -> u32 {
    (bytes[0] + bytes[1] * 0x100 + bytes[2] * 0x1_0000 + bytes[3] * 0x100_0000) as u32
}

/// Reads four bytes as a number, the lowest byte first.
pub fn u32_from_le_bytes(bytes: &[u8]) -> (number: u32)
    requires
        bytes@.len() == 4,
    ensures
        number == little_endian(bytes@),
{
    (bytes[0] as u32) + (bytes[1] as u32) * 0x100 + (bytes[2] as u32) * 0x1_0000 + (
    bytes[3] as u32) * 0x100_0000
}

/// Generates a random password: one lower-case letter, one upper-case
/// letter, one digit and, where symbols are included, one symbol; random
/// characters of the alphabet up to the length asked; all of it shuffled.
pub fn generate_password(length: usize, include_symbols: bool) -> (r: Result<String, CryptoError>)
    ensures
        match r {
            Ok(password) => exists|bytes: Seq<u8>|
                {
                    &&& #[trigger] is_generated(bytes, length as nat, include_symbols)
                    &&& password@ == ascii_text(bytes)
                },
            Err(e) => e is RandomSource,
        },
{
    let size: usize = if include_symbols {
        88
    } else {
        62
    };
    let mut password: Vec<u8> = Vec::new();
    let r0 = random_u32()?;
    password.push(alphabet_byte((r0 as usize) % 26, include_symbols));
    let r1 = random_u32()?;
    password.push(alphabet_byte(26 + (r1 as usize) % 26, include_symbols));
    let r2 = random_u32()?;
    password.push(alphabet_byte(52 + (r2 as usize) % 10, include_symbols));
    if include_symbols {
        let r3 = random_u32()?;
        password.push(symbol_at((r3 as usize) % 26));
    }
    let ghost mut lower_at: int = 0;
    let ghost mut upper_at: int = 1;
    let ghost mut digit_at: int = 2;
    let ghost mut symbol_place: int = 3;
    while password.len() < length
        invariant
            size == alphabet_size(include_symbols),
            password@.len() >= required_classes(include_symbols),
            password@.len() <= length || password@.len() == required_classes(include_symbols),
            forall|i: int|
                0 <= i < password@.len() ==> in_alphabet(#[trigger] password@[i], include_symbols)
                    && password@[i] < 128,
            0 <= lower_at < password@.len() && is_lower_byte(password@[lower_at]),
            0 <= upper_at < password@.len() && is_upper_byte(password@[upper_at]),
            0 <= digit_at < password@.len() && is_digit_byte(password@[digit_at]),
            include_symbols ==> 0 <= symbol_place < password@.len() && is_symbol_byte(
                password@[symbol_place],
            ),
        decreases length - password@.len(),
    {
        let r = random_u32()?;
        password.push(alphabet_byte((r as usize) % size, include_symbols));
    }
    let mut i: usize = password.len() - 1;
    while i > 0
        invariant
            i < password@.len(),
            password@.len() == (if length < required_classes(include_symbols) {
                required_classes(include_symbols)
            } else {
                length as nat
            }),
            forall|k: int|
                0 <= k < password@.len() ==> in_alphabet(#[trigger] password@[k], include_symbols)
                    && password@[k] < 128,
            0 <= lower_at < password@.len() && is_lower_byte(password@[lower_at]),
            0 <= upper_at < password@.len() && is_upper_byte(password@[upper_at]),
            0 <= digit_at < password@.len() && is_digit_byte(password@[digit_at]),
            include_symbols ==> 0 <= symbol_place < password@.len() && is_symbol_byte(
                password@[symbol_place],
            ),
        decreases i,
    {
        let r = random_u32()?;
        let j: usize = (r as usize) % (i + 1);
        let at_i: u8 = password[i];
        let at_j: u8 = password[j];
        password.set(i, at_j);
        password.set(j, at_i);
        proof {
            lower_at = moved(lower_at, i as int, j as int);
            upper_at = moved(upper_at, i as int, j as int);
            digit_at = moved(digit_at, i as int, j as int);
            symbol_place = moved(symbol_place, i as int, j as int);
        }
        i = i - 1;
    }
    let ghost bytes = password@;
    assert(is_generated(bytes, length as nat, include_symbols)) by {
        assert(is_lower_byte(bytes[lower_at]));
        assert(is_upper_byte(bytes[upper_at]));
        assert(is_digit_byte(bytes[digit_at]));
        if include_symbols {
            assert(is_symbol_byte(bytes[symbol_place]));
        }
    }
    Ok(ascii_string(password))
}

/// Where the item at `place` is once the items at `i` and `j` have changed
/// places.
pub open spec fn moved(place: int, i: int, j: int) -> int {
    if place == i {
        j
    } else if place == j {
        i
    } else {
        place
    }
}

/// A key derivation that takes less than 100 milliseconds is too fast for
/// its parameters to be safe.
pub open spec fn too_fast(elapsed_nanos: u128) -> bool {
    elapsed_nanos < 100_000_000
}

/// Tells whether a key derivation that took `elapsed_nanos` nanoseconds was
/// too fast for its parameters to be safe.
pub fn derivation_too_fast(elapsed_nanos: u128) -> (weak: bool)
    ensures
        weak == too_fast(elapsed_nanos),
{
    elapsed_nanos < 100_000_000
}

/// The warning that a key derivation of `elapsed_nanos` nanoseconds calls
/// for: none from 100 milliseconds on.
pub open spec fn derivation_advice(elapsed_nanos: u128) -> Option<Seq<char>> {
    if too_fast(elapsed_nanos) {
        Some(
            "Key derivation completed in "@ + decimal_text((elapsed_nanos / 1_000_000) as nat)
                + "ms (recommended: >100ms)"@,
        )
    } else {
        None
    }
}

/// A text is the warning that some key derivation calls for.
pub open spec fn is_derivation_advice(text: Seq<char>) -> bool {
    exists|elapsed_nanos: u128| #[trigger] derivation_advice(elapsed_nanos) == Some(text)
}

/// The warning that a key derivation of `elapsed_nanos` nanoseconds calls
/// for. It is advice: nothing depends on it.
pub fn derivation_warning(elapsed_nanos: u128) -> (warning: Option<String>)
    ensures
        (match warning {
            Some(text) => Some(text@),
            None => None,
        }) == derivation_advice(elapsed_nanos),
{
    if elapsed_nanos < 100_000_000 {
        let mut text = String::from_str("Key derivation completed in ");
        text.append(to_decimal((elapsed_nanos / 1_000_000) as u64).as_str());
        text.append("ms (recommended: >100ms)");
        Some(text)
    } else {
        None
    }
}

/// Derives a key and measures the derivation: the key, and the warning that
/// the time it took calls for.
pub fn derive_key_timed(pass: &str, salt: &[u8], config: &Argon2Config) -> (r: (
    [u8; 32],
    Option<String>,
))
    requires
        derivable(pass@, salt@),
        config.is_valid(),
    ensures
        r.0@ == derived_key(pass@, salt@, *config),
        r.1 matches Some(text) ==> is_derivation_advice(text@),
{
    let start = std::time::Instant::now();
    let key = derive_key_with_config(pass, salt, config);
    let elapsed = start.elapsed();
    let nanos = elapsed.as_nanos();
    let warning = derivation_warning(nanos);
    proof {
        if warning is Some {
            assert(derivation_advice(nanos) == Some(warning.unwrap()@));
        }
    }
    (key, warning)
}

/// Measures one key derivation with the default configuration, on a fixed
/// password and a fresh salt of 32 bytes.
pub fn benchmark_key_derivation() -> (r: Result<std::time::Duration, CryptoError>)
    ensures
        r matches Err(e) ==> e is RandomSource,
{
    let password = "test_password_for_benchmarking";
    let salt = generate_salt(32)?;
    proof {
        reveal_strlit("test_password_for_benchmarking");
        assert(is_ascii_chars(password@));
        is_ascii_chars_encode_utf8(password@);
    }
    let start = std::time::Instant::now();
    let mut key = derive_key(password, salt.as_slice());
    let elapsed = start.elapsed();
    wipe_key(&mut key);
    Ok(elapsed)
}

/// The mark and the name of the level that a score belongs to.
pub open spec fn strength_indicator(score: nat) -> Seq<char> {
    if score <= 30 {
        "🔴 Weak"@
    } else if score <= 60 {
        "🟡 Fair"@
    } else if score <= 80 {
        "🟢 Good"@
    } else if score <= 100 {
        "🛡️ Strong"@
    } else {
        "❓ Unknown"@
    }
}

/// The mark and the name of the level of a password's strength.
pub fn get_password_strength_indicator(password: &str) -> (indicator: String)
    ensures
        indicator@ == strength_indicator(estimated_score(password@)),
{
    let strength = estimate_password_strength(password);
    if strength.score <= 30 {
        String::from_str("🔴 Weak")
    } else if strength.score <= 60 {
        String::from_str("🟡 Fair")
    } else if strength.score <= 80 {
        String::from_str("🟢 Good")
    } else if strength.score <= 100 {
        String::from_str("🛡️ Strong")
    } else {
        String::from_str("❓ Unknown")
    }
}

/// The cost parameters that a stored hash in the PHC string format names:
/// memory in KiB, passes and lanes, each where it is given as a number;
/// `None` where the string is no such hash.
pub uninterp spec fn stored_hash_costs(hash_string: Seq<char>) -> Option<
    (Option<u32>, Option<u32>, Option<u32>),
>;

/// What checking a password against a stored hash in the PHC string format
/// comes to: whether it matches, or `None` where the hash cannot be
/// checked.
pub uninterp spec fn stored_hash_check(password: Seq<u8>, hash_string: Seq<char>) -> Option<bool>;

/// Parses a stored hash with `PasswordHash::new` and hands out the
/// parameters `m`, `t` and `p` that it names. The contract names the result.
#[verifier::external_body]
fn read_stored_costs(hash_string: &str) -> (r: Option<(Option<u32>, Option<u32>, Option<u32>)>)
    ensures
        r == stored_hash_costs(hash_string@),
{
    match argon2::PasswordHash::new(hash_string) {
        Ok(parsed) => Some(
            (
                parsed.params.get_decimal("m"),
                parsed.params.get_decimal("t"),
                parsed.params.get_decimal("p"),
            ),
        ),
        Err(_) => None,
    }
}

/// Checks a password against a stored hash with `Argon2::verify_password`,
/// which computes the hash anew under the parameters that the stored hash
/// names. `requires` leaves out the strings that are no hash and the lane
/// counts beyond 2^24 - 1, on which the parameters cannot be built. The
/// contract names the result.
#[verifier::external_body]
fn check_stored_hash(password: &[u8], hash_string: &str) -> (r: Option<bool>)
    requires
        stored_hash_costs(hash_string@) matches Some(costs) && stored_costs(costs).is_valid(),
    ensures
        r == stored_hash_check(password@, hash_string@),
{
    let parsed = argon2::PasswordHash::new(hash_string).expect("a stored hash");
    match argon2::PasswordVerifier::verify_password(&argon2::Argon2::default(), password, &parsed) {
        Ok(()) => Some(true),
        Err(argon2::password_hash::Error::Password) => Some(false),
        Err(_) => None,
    }
}

/// The configuration that the parameters of a stored hash stand for. What
/// the hash does not name is Argon2's default: 19 MiB, 2 passes, 1 lane.
pub open spec fn stored_costs(costs: (Option<u32>, Option<u32>, Option<u32>)) -> Argon2Config {
    Argon2Config {
        memory_cost: match costs.0 {
            Some(memory) => memory,
            None => 19456,
        },
        time_cost: match costs.1 {
            Some(passes) => passes,
            None => 2,
        },
        parallelism: match costs.2 {
            Some(lanes) => lanes,
            None => 1,
        },
        hash_length: None,
    }
}

/// What checking a password against a stored hash gives: the hash must be
/// one in the PHC string format and name valid cost parameters; then the
/// password matches or does not, or the hash cannot be checked.
pub open spec fn password_verification(password: Seq<u8>, hash_string: Seq<char>) -> Option<bool> {
    match stored_hash_costs(hash_string) {
        None => None,
        Some(costs) => if stored_costs(costs).is_valid() {
            stored_hash_check(password, hash_string)
        } else {
            None
        },
    }
}

/// Checks a password against a stored Argon2 hash in the PHC string format.
/// A string that is no such hash, a hash whose cost parameters are not
/// valid, and a hash that cannot be checked are all an invalid hash.
pub fn verify_password(password: &str, hash_string: &str) -> (r: Result<bool, CryptoError>)
    ensures
        match password_verification(password.spec_bytes(), hash_string@) {
            Some(matches) => r == Ok::<bool, CryptoError>(matches),
            None => r matches Err(CryptoError::InvalidHash),
        },
{
    let costs = match read_stored_costs(hash_string) {
        Some(costs) => costs,
        None => {
            return Err(CryptoError::InvalidHash);
        },
    };
    let config = Argon2Config {
        memory_cost: match costs.0 {
            Some(memory) => memory,
            None => 19456,
        },
        time_cost: match costs.1 {
            Some(passes) => passes,
            None => 2,
        },
        parallelism: match costs.2 {
            Some(lanes) => lanes,
            None => 1,
        },
        hash_length: None,
    };
    if !config.check() {
        return Err(CryptoError::InvalidHash);
    }
    match check_stored_hash(password.as_bytes(), hash_string) {
        Some(matches) => Ok(matches),
        None => Err(CryptoError::InvalidHash),
    }
}

} // verus!
