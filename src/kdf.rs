//! The key schedule: a 32-byte key from a password and a per-file random salt,
//! through Argon2id.
use vstd::prelude::*;

use crate::error::VaultError;
use crate::keystream::KEY_LEN;
use crate::random::os_random_bytes;

verus! {

#[verifier::external_type_specification]
#[verifier::external_body]
pub struct ExArgon2Error(argon2::Error);

/// The tunable costs of the password hash. Sealing and opening must use the
/// same values, or nothing sealed can be opened again.
#[derive(Debug, Clone, Copy, PartialEq, Eq, Structural)]
pub struct KdfParams {
    /// Lanes of parallelism.
    pub lanes: u32,
    /// Memory cost in KiB.
    pub mem_cost: u32,
    /// Passes over the memory.
    pub time_cost: u32,
}

impl KdfParams {
    /// Costs the hash accepts on every platform, for a password of
    /// `pwd_len` bytes.
    pub open spec fn accepted(&self, pwd_len: nat) -> bool {
        &&& 1 <= self.lanes <= 0x00FF_FFFF
        &&& 8 <= self.mem_cost <= 0x0020_0000
        &&& self.mem_cost >= 8 * self.lanes
        &&& self.time_cost >= 1
        &&& pwd_len <= 0xFFFF_FFFF
    }

    /// Costs the hash refuses on every platform.
    pub open spec fn refused(&self) -> bool {
        ||| self.lanes < 1
        ||| self.lanes > 0x00FF_FFFF
        ||| self.mem_cost < 8
        ||| self.mem_cost < 8 * self.lanes
        ||| self.time_cost < 1
    }

    /// The costs this tool runs with: 8 lanes, 16 MiB, 8 passes.
    pub fn standard() -> (r: KdfParams)
        ensures
            r.lanes == 8,
            r.mem_cost == 16 * 1024,
            r.time_cost == 8,
    {
        KdfParams { lanes: 8, mem_cost: 16 * 1024, time_cost: 8 }
    }
}

/// The Argon2id (version 0x13) hash of `pwd` under `salt`, `hash_length` bytes
/// long, with the given costs.
pub uninterp spec fn argon2id_hash(
    pwd: Seq<u8>,
    salt: Seq<u8>,
    hash_length: u32,
    lanes: u32,
    mem_cost: u32,
    time_cost: u32,
) -> Seq<u8>;

/// Relies on rust-argon2's `hash_raw`, with Argon2id and version 0x13 taken
/// from its default `Config`: it fails only on the parameter checks of
/// `Context::new`, and otherwise returns `hash_length` bytes that depend on
/// its arguments alone.
#[verifier::external_body]
fn argon2_hash_raw(pwd: &[u8], salt: &[u8], hash_length: u32, params: &KdfParams) -> (r: Result<
    Vec<u8>,
    argon2::Error,
>)
    ensures
        params.accepted(pwd@.len()) && 8 <= salt@.len() <= 0xFFFF_FFFF && hash_length >= 4
            ==> r is Ok,
        params.refused() || salt@.len() < 8 || hash_length < 4 ==> r is Err,
        r is Ok ==> r->Ok_0@ == argon2id_hash(
            pwd@,
            salt@,
            hash_length,
            params.lanes,
            params.mem_cost,
            params.time_cost,
        ) && r->Ok_0@.len() == hash_length,
{
    let config = argon2::Config {
        hash_length,
        lanes: params.lanes,
        mem_cost: params.mem_cost,
        time_cost: params.time_cost,
        ..argon2::Config::default()
    };
    argon2::hash_raw(pwd, salt, &config)
}

/// The key that `secret` and `salt` give under `params`.
pub open spec fn derived_key(secret: Seq<u8>, salt: Seq<u8>, params: KdfParams) -> Seq<u8> {
    argon2id_hash(secret, salt, KEY_LEN as u32, params.lanes, params.mem_cost, params.time_cost)
}

/// Derives the key of one file from the password and the file's salt.
pub fn derive_key(secret: &[u8], salt: &[u8; 24], params: &KdfParams) -> (r: Result<
    Vec<u8>,
    VaultError,
>)
    ensures
        params.accepted(secret@.len()) ==> r is Ok,
        params.refused() ==> r is Err,
        r is Err ==> r == Err::<Vec<u8>, VaultError>(VaultError::KeyDerivationFailure),
        r is Ok ==> r->Ok_0@ == derived_key(secret@, salt@, *params) && r->Ok_0@.len() == KEY_LEN,
{
    match argon2_hash_raw(secret, salt.as_slice(), KEY_LEN as u32, params) {
        Ok(key) => Ok(key),
        Err(_) => Err(VaultError::KeyDerivationFailure),
    }
}

/// The salt-and-nonce of one file together with the key derived from it.
pub struct KeyMaterial {
    pub nonce: [u8; 24],
    pub key: Vec<u8>,
}

impl KeyMaterial {
    /// The key is the one `secret` gives under this nonce.
    pub open spec fn derived_from(&self, secret: Seq<u8>, params: KdfParams) -> bool {
        &&& self.key@ == derived_key(secret, self.nonce@, params)
        &&& self.key@.len() == KEY_LEN
    }

    /// Draws a fresh random nonce and derives the key for it. The nonce is
    /// never taken from the file's content or path.
    pub fn generate(secret: &[u8], params: &KdfParams) -> (r: Result<KeyMaterial, VaultError>)
        ensures
            params.refused() ==> r is Err,
            r is Err ==> r == Err::<KeyMaterial, VaultError>(VaultError::KeyDerivationFailure)
                || r == Err::<KeyMaterial, VaultError>(VaultError::Io),
            params.accepted(secret@.len()) && r is Err ==> r == Err::<KeyMaterial, VaultError>(
                VaultError::Io,
            ),
            r is Ok ==> r->Ok_0.derived_from(secret@, *params),
    {
        let drawn = match os_random_bytes(24) {
            Some(b) => b,
            None => {
                return Err(VaultError::Io);
            },
        };
        let mut nonce: [u8; 24] = [0u8; 24];
        let mut i: usize = 0;
        while i < 24
            invariant
                i <= 24,
                drawn@.len() == 24,
            decreases 24 - i,
        {
            nonce[i] = drawn[i];
            i = i + 1;
        }
        match derive_key(secret, &nonce, params) {
            Ok(key) => Ok(KeyMaterial { nonce, key }),
            Err(e) => Err(e),
        }
    }
}

} // verus!
