//! Deriving a key from a password.
use vstd::prelude::*;

use crate::crypto::wiped::SecretKey;
use crate::error::{AppError, ErrorView};
use crate::text::utf8;

verus! {

pub const SALT_LEN: usize = 16;

pub const KEY_LEN: usize = 32;

/// The cost of one Argon2id derivation.
#[derive(Clone, Copy, Debug, PartialEq, Eq, Structural)]
pub struct KdfParams {
    pub m_cost: u32,
    pub t_cost: u32,
    pub p_cost: u32,
}

impl KdfParams {
    /// Tuned for roughly 300-500ms derivation time on typical desktop hardware.
    /// Stored explicitly in the config header rather than left to a default
    /// that could silently change.
    pub fn interactive() -> (r: Self)
        ensures
            r == (KdfParams { m_cost: 19_456, t_cost: 2, p_cost: 1 }),
    {
        KdfParams { m_cost: 19_456, t_cost: 2, p_cost: 1 }
    }

    /// For a password slot that is only reached when the everyday unlock path
    /// has already failed: a recovery prompt is worth seconds, not
    /// milliseconds.
    pub fn recovery() -> (r: Self)
        ensures
            r == (KdfParams { m_cost: 262_144, t_cost: 4, p_cost: 1 }),
    {
        KdfParams { m_cost: 262_144, t_cost: 4, p_cost: 1 }
    }

    /// Placeholder for slots whose key-encryption key is not stretched at all.
    pub fn none() -> (r: Self)
        ensures
            r == (KdfParams { m_cost: 0, t_cost: 0, p_cost: 0 }),
    {
        KdfParams { m_cost: 0, t_cost: 0, p_cost: 0 }
    }

    /// Whether the number of blocks that `p_cost` lanes ask for can be counted.
    pub open spec fn countable(self) -> bool {
        self.p_cost < 0x2000_0000
    }
}

/// The 32 bytes that Argon2id, version 0x13, makes of a password and a salt.
pub uninterp spec fn argon2id(password: Seq<u8>, salt: Seq<u8>, m_cost: u32, t_cost: u32, p_cost: u32) -> Seq<u8>;

/// Why Argon2id refuses these costs or a password of this many bytes, if it does.
pub open spec fn argon2_refusal(password_len: nat, params: KdfParams) -> Option<Seq<char>> {
    if params.m_cost < 8 || params.m_cost < 8 * params.p_cost {
        Some("memory cost is too small"@)
    } else if params.t_cost < 1 {
        Some("time cost is too small"@)
    } else if params.p_cost < 1 {
        Some("not enough threads"@)
    } else if params.p_cost > 0xff_ffff {
        Some("too many threads"@)
    } else if password_len > 0xffff_ffff {
        Some("password is too long"@)
    } else {
        None
    }
}

/// `argon2::Argon2::hash_password_into`, for Argon2id in version 0x13 and an
/// output of 32 bytes. The output is a function of the password, the salt and
/// the three costs. It fails exactly when `Params::new` refuses the costs or
/// the password is longer than 2^32 - 1 bytes, with the error's own sentence.
#[verifier::external_body]
fn argon2_hash(password: &str, salt: &[u8; SALT_LEN], params: KdfParams) -> (r: Result<[u8; KEY_LEN], String>)
    requires
        params.countable(),
    ensures
        match r {
            Ok(key) => argon2_refusal(utf8(password@).len(), params) is None && key@ == argon2id(
                utf8(password@),
                salt@,
                params.m_cost,
                params.t_cost,
                params.p_cost,
            ),
            Err(text) => argon2_refusal(utf8(password@).len(), params) == Some(text@),
        },
{
    let costs = argon2::Params::new(params.m_cost, params.t_cost, params.p_cost, Some(KEY_LEN))
        .map_err(|e| e.to_string())?;
    let hasher = argon2::Argon2::new(argon2::Algorithm::Argon2id, argon2::Version::V0x13, costs);
    let mut out = [0u8; KEY_LEN];
    hasher.hash_password_into(password.as_bytes(), salt, &mut out).map_err(|e| e.to_string())?;
    Ok(out)
}

/// What `derive_key` gives for a password, a salt and the costs.
pub open spec fn derived_key(password: Seq<u8>, salt: Seq<u8>, params: KdfParams) -> Result<Seq<u8>, ErrorView> {
    match argon2_refusal(password.len(), params) {
        Some(text) => Err(ErrorView::Kdf(text)),
        None => Ok(argon2id(password, salt, params.m_cost, params.t_cost, params.p_cost)),
    }
}

/// Derives a 32-byte AES-256 key from the master password using Argon2id.
pub fn derive_key(password: &str, salt: &[u8; SALT_LEN], params: KdfParams) -> (r: Result<SecretKey, AppError>)
    requires
        params.countable(),
    ensures
        match r {
            Ok(key) => derived_key(utf8(password@), salt@, params) == Ok::<Seq<u8>, ErrorView>(key@),
            Err(e) => derived_key(utf8(password@), salt@, params) == Err::<Seq<u8>, ErrorView>(e@),
        },
{
    match argon2_hash(password, salt, params) {
        Ok(key) => Ok(SecretKey::new(key)),
        Err(text) => Err(AppError::Kdf(text)),
    }
}

} // verus!
