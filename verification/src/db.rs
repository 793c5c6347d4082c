//! The values that a storage adapter keeps for the vault: where the store
//! does not encrypt at rest, each value is sealed under a key of its own.

use crate::crypto::{
    can_derive, can_encrypt, decrypt, default_config, derive_key_timed, derived_key, encrypt,
    encryptable, generate_salt, is_derivation_advice, is_encryption_of, wipe_key, Argon2Config,
};
use crate::envelope::{plaintext_under, Sealed, VaultError};
use crate::text::{byte_len, byte_length};
use vstd::prelude::*;
use vstd::slice::slice_subrange;
use vstd::string::StringExecFns;

verus! {

/// The length of the salt that starts every sealed value.
pub const VALUE_SALT_SIZE: usize = 32;

/// How a store is opened.
#[derive(Debug, Clone, Copy, PartialEq, Eq, Structural)]
pub struct DbConfig {
    /// Fail where the store cannot encrypt at rest.
    pub require_sqlcipher: bool,
    /// Iterations of the store's key derivation.
    pub kdf_iterations: u32,
    /// Memory of the key derivation in KiB.
    pub memory_cost: u32,
}

impl Default for DbConfig {
    fn default() -> (config: Self)
        ensures
            config == (DbConfig { require_sqlcipher: false, kdf_iterations: 256000, memory_cost: 65536 }),
    {
        Self { require_sqlcipher: false, kdf_iterations: 256000, memory_cost: 65536 }
    }
}

/// How a value is kept.
#[derive(Debug, Clone, Copy, PartialEq, Eq, Structural)]
pub enum StorageMode {
    /// The store encrypts at rest: values are kept as they are.
    NativeEncrypted,
    /// The store does not: values are sealed before they are kept.
    ApplicationEncrypted,
}

impl DbConfig {
    /// The parameters under which the key of an encrypting store is
    /// derived: a pass for each thousand iterations, four lanes, 32 bytes.
    pub fn key_parameters(&self) -> (config: Argon2Config)
        ensures
            config.memory_cost == self.memory_cost,
            config.time_cost == self.kdf_iterations / 1000,
            config.parallelism == 4,
            config.hash_length == Some(32usize),
    {
        Argon2Config {
            memory_cost: self.memory_cost,
            time_cost: self.kdf_iterations / 1000,
            parallelism: 4,
            hash_length: Some(32),
        }
    }

    /// Chooses how values are kept, from whether the store can encrypt at
    /// rest; `None` where it cannot and the configuration requires it.
    pub fn storage_mode(&self, native_available: bool) -> (mode: Option<StorageMode>)
        ensures
            mode == (if native_available {
                Some(StorageMode::NativeEncrypted)
            } else if self.require_sqlcipher {
                None
            } else {
                Some(StorageMode::ApplicationEncrypted)
            }),
    {
        if native_available {
            Some(StorageMode::NativeEncrypted)
        } else if self.require_sqlcipher {
            None
        } else {
            Some(StorageMode::ApplicationEncrypted)
        }
    }
}

/// What a sealed value opens to under a master password: the value that
/// follows its 32 bytes of salt decrypts under the key that password and
/// salt derive.
pub open spec fn opened_value(password: Seq<char>, blob: Seq<u8>) -> Option<Seq<u8>> {
    if blob.len() <= 32 {
        None
    } else {
        plaintext_under(
            password,
            blob.subrange(0, 32),
            blob.subrange(32, blob.len() as int),
            default_config(),
        )
    }
}

/// `blob` is a sealing of `plaintext` under a master password: 32 bytes of
/// salt, and an encryption of the value under the key that they derive.
pub open spec fn is_sealed_value(blob: Seq<u8>, password: Seq<char>, plaintext: Seq<u8>) -> bool {
    &&& blob.len() > 32
    &&& is_encryption_of(
        blob.subrange(32, blob.len() as int),
        derived_key(password, blob.subrange(0, 32), default_config()),
        plaintext,
    )
    &&& opened_value(password, blob) == Some(plaintext)
}

/// A value can be sealed under a master password: the password is one
/// that the hash takes, and the value one that the cipher takes.
pub open spec fn sealable_value(password: Seq<char>, plaintext: Seq<u8>) -> bool {
    &&& byte_len(password) <= 0xFFFF_FFFF
    &&& encryptable(plaintext.len())
}

/// A value can be sealed under a master password and a salt: the salt has
/// its 32 bytes, and password and value are such as can be sealed.
pub open spec fn sealable_under(password: Seq<char>, salt: Seq<u8>, plaintext: Seq<u8>) -> bool {
    salt.len() == 32 && sealable_value(password, plaintext)
}

/// Seals a value for a store that does not encrypt at rest: a fresh salt of
/// 32 bytes, then the value encrypted under the key that the master
/// password and the salt derive. A password or a value that is too long
/// for the hash or the cipher is refused, before anything is drawn.
pub fn seal_value(master_password: &str, plaintext: &[u8]) -> (r: Result<Sealed, VaultError>)
    ensures
        match r {
            Ok(sealed) => {
                &&& sealable_value(master_password@, plaintext@)
                &&& is_sealed_value(sealed.blob@, master_password@, plaintext@)
                &&& sealed.warning matches Some(text) ==> is_derivation_advice(text@)
            },
            Err(VaultError::InvalidInput(_)) => !sealable_value(master_password@, plaintext@),
            Err(VaultError::Crypto(e)) => e is RandomSource && sealable_value(
                master_password@,
                plaintext@,
            ),
            Err(_) => false,
        },
{
    if byte_length(master_password) > 0xFFFF_FFFF || !can_encrypt(plaintext.len()) {
        return Err(VaultError::InvalidInput(String::from_str("Value too large to encrypt")));
    }
    let salt = match generate_salt(VALUE_SALT_SIZE) {
        Ok(salt) => salt,
        Err(e) => {
            return Err(VaultError::Crypto(e));
        },
    };
    seal_value_under(master_password, salt.as_slice(), plaintext)
}

/// Seals a value under a master password and the salt given: the salt, then
/// the value encrypted under the key that password and salt derive. It is
/// refused where the salt has not 32 bytes or password or value are too
/// long, before any random byte of the cipher is drawn. The key is wiped
/// before the function returns; a derivation that was too fast leaves a
/// warning to show.
pub fn seal_value_under(master_password: &str, salt: &[u8], plaintext: &[u8]) -> (r: Result<
    Sealed,
    VaultError,
>)
    ensures
        match r {
            Ok(sealed) => {
                &&& sealable_under(master_password@, salt@, plaintext@)
                &&& sealed.blob@.subrange(0, 32) == salt@
                &&& is_sealed_value(sealed.blob@, master_password@, plaintext@)
                &&& sealed.warning matches Some(text) ==> is_derivation_advice(text@)
            },
            Err(VaultError::InvalidInput(_)) => !sealable_under(
                master_password@,
                salt@,
                plaintext@,
            ),
            Err(VaultError::Crypto(e)) => e is RandomSource && sealable_under(
                master_password@,
                salt@,
                plaintext@,
            ),
            Err(_) => false,
        },
{
    if salt.len() != VALUE_SALT_SIZE || !can_derive(master_password, salt) || !can_encrypt(
        plaintext.len(),
    ) {
        return Err(VaultError::InvalidInput(String::from_str("Value too large to encrypt")));
    }
    let config = Argon2Config::default();
    let (mut key, warning) = derive_key_timed(master_password, salt, &config);
    let outcome = encrypt(&key, plaintext);
    wipe_key(&mut key);
    let sealed = match outcome {
        Ok(sealed) => sealed,
        Err(e) => {
            return Err(VaultError::Crypto(e));
        },
    };
    let mut blob: Vec<u8> = Vec::new();
    blob.extend_from_slice(salt);
    blob.extend_from_slice(sealed.as_slice());
    proof {
        assert(blob@.subrange(0, 32) =~= salt@);
        assert(blob@.subrange(32, blob@.len() as int) =~= sealed@);
    }
    Ok(Sealed { blob, warning })
}

/// What opening a sealed value gives: the value, where it opens, and the
/// warning that the key derivation called for, where one was made.
#[derive(Debug)]
pub struct OpenedValue {
    pub plaintext: Option<Vec<u8>>,
    pub warning: Option<String>,
}

/// Opens a sealed value; it gives no value where the blob is too short to
/// hold a salt and a value, or does not decrypt under the master password.
/// The key is wiped before the function returns; a derivation that was too
/// fast leaves a warning to show.
pub fn open_value(master_password: &str, blob: &[u8]) -> (opened: OpenedValue)
    ensures
        (match opened.plaintext {
            Some(p) => Some(p@),
            None => None,
        }) == opened_value(master_password@, blob@),
        opened.warning matches Some(text) ==> is_derivation_advice(text@),
{
    if blob.len() <= VALUE_SALT_SIZE {
        return OpenedValue { plaintext: None, warning: None };
    }
    let salt = slice_subrange(blob, 0, VALUE_SALT_SIZE);
    let sealed = slice_subrange(blob, VALUE_SALT_SIZE, blob.len());
    if !can_derive(master_password, salt) {
        return OpenedValue { plaintext: None, warning: None };
    }
    let config = Argon2Config::default();
    let (mut key, warning) = derive_key_timed(master_password, salt, &config);
    let outcome = decrypt(&key, sealed);
    wipe_key(&mut key);
    match outcome {
        Ok(plaintext) => OpenedValue { plaintext: Some(plaintext), warning },
        Err(_) => OpenedValue { plaintext: None, warning },
    }
}

} // verus!
