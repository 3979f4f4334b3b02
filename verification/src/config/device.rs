//! Device-bound state, kept in the OS credential store rather than next to the
//! vault.
//!
//! Copying the vault somewhere else brings the file but not the means to open
//! it: the copy falls back to the password slot. Another process of the same
//! user can ask the credential store for the entry just as the app can; what is
//! addressed is a stolen disk, a backup or a plain `cp`.
use base64::Engine;
use vstd::prelude::*;

use crate::bytes::array_at;
use crate::config::secret::Secret;
use crate::crypto::cipher::random_master_key;
use crate::crypto::kdf::KEY_LEN;
use crate::crypto::wiped::{SecretBytes, SecretKey};
use crate::error::{AppError, ErrorView};
use crate::text::{decimal, owned, push_decimal};

verus! {

pub const DEVICE_KEY_LEN: usize = 32;

/// Seconds in a day.
pub const DAY: u64 = 86_400;

/// The bytes that a base64 text with padding stands for, or why it stands for
/// none.
pub uninterp spec fn base64_bytes(text: Seq<char>) -> Result<Seq<u8>, Seq<char>>;

/// A base64 text that stands for `bytes`.
pub open spec fn base64_ok(bytes: Seq<u8>) -> Result<Seq<u8>, Seq<char>> {
    Ok(bytes)
}

/// `base64`'s `STANDARD.encode`. The text decodes to the given bytes.
#[verifier::external_body]
fn base64_encode(bytes: &[u8; DEVICE_KEY_LEN]) -> (r: String)
    ensures
        base64_bytes(r@) == base64_ok(bytes@),
{
    base64::engine::general_purpose::STANDARD.encode(bytes)
}

/// `base64`'s `STANDARD.decode`, with the error as its own sentence.
#[verifier::external_body]
fn base64_decode(text: &str) -> (r: Result<Vec<u8>, String>)
    ensures
        match r {
            Ok(bytes) => base64_bytes(text@) == Ok::<Seq<u8>, Seq<char>>(bytes@),
            Err(e) => base64_bytes(text@) == Err::<Seq<u8>, Seq<char>>(e@),
        },
{
    base64::engine::general_purpose::STANDARD.decode(text).map_err(|e| e.to_string())
}

/// The first 32 bytes of HKDF-SHA256's output.
pub uninterp spec fn hkdf_sha256(salt: Seq<u8>, key: Seq<u8>, info: Seq<u8>) -> Seq<u8>;

/// `hkdf::Hkdf::<Sha256>::expand` to 32 bytes, which it never refuses: it only
/// refuses more than 255 blocks.
#[verifier::external_body]
fn hkdf_expand(salt: &[u8; 16], key: &[u8; DEVICE_KEY_LEN], info: &[u8]) -> (r: Result<[u8; KEY_LEN], String>)
    ensures
        match r {
            Ok(out) => out@ == hkdf_sha256(salt@, key@, info@),
            Err(_) => false,
        },
{
    let hk = hkdf::Hkdf::<sha2::Sha256>::new(Some(salt), key);
    let mut out = [0u8; KEY_LEN];
    hk.expand(info, &mut out).map_err(|e| e.to_string())?;
    Ok(out)
}

/// The system clock's seconds since the epoch (`std::time::SystemTime::elapsed`
/// of the epoch), or `None` where the clock stands before it.
#[verifier::external_body]
pub(crate) fn clock_seconds() -> (r: Option<u64>) {
    std::time::UNIX_EPOCH.elapsed().ok().map(|d| d.as_secs())
}

/// Wall-clock seconds, 0 on a clock set before the epoch.
pub fn now_unix() -> (r: u64) {
    unix_seconds(clock_seconds())
}

/// The seconds of a reading of the clock, 0 where it stands before the epoch.
pub fn unix_seconds(clock: Option<u64>) -> (r: u64)
    ensures
        r == (match clock {
            Some(now) => now,
            None => 0,
        }),
{
    match clock {
        Some(now) => now,
        None => 0,
    }
}

/// Everything about this device's relationship to one vault.
///
/// The counters live beside the device key on purpose: whoever clears
/// `failed_attempts` to keep guessing destroys `device_key` in the same move,
/// which forces the password path anyway.
pub struct DeviceState {
    /// The device key, base64 of 32 random bytes.
    pub device_key: Secret,
    /// Present only in the mode where a code is the daily factor.
    pub totp_secret: Option<Secret>,
    /// Highest step already accepted. A code at or below this is a replay.
    pub replay_step: u64,
    pub failed_attempts: u32,
    pub last_password_check_unix: u64,
}

/// The domain of the device slot's key-encryption key:
/// `ssh-control device slot v1`. Changing it makes every enrolled device unable
/// to unwrap its slot.
pub open spec fn hkdf_info() -> Seq<u8> {
    seq![
        115u8, 115, 104, 45, 99, 111, 110, 116, 114, 111, 108, 32, 100, 101, 118, 105, 99, 101, 32, 115, 108, 111, 116,
        32, 118, 49,
    ]
}

/// The key-encryption key for a device key and a salt.
pub open spec fn kek_of(device_key: Seq<u8>, salt: Seq<u8>) -> Seq<u8> {
    hkdf_sha256(salt, device_key, hkdf_info())
}

/// The key-encryption key for a device slot. The input is already 32 random
/// bytes, so there is nothing to stretch.
pub fn device_kek(device_key: &[u8; DEVICE_KEY_LEN], salt: &[u8; 16]) -> (r: Result<SecretKey, AppError>)
    ensures
        r matches Ok(kek) && kek@ == kek_of(device_key@, salt@),
{
    let info: [u8; 26] = [
        115, 115, 104, 45, 99, 111, 110, 116, 114, 111, 108, 32, 100, 101, 118, 105, 99, 101, 32, 115, 108, 111, 116,
        32, 118, 49,
    ];
    assert(info@ =~= hkdf_info());
    match hkdf_expand(salt, device_key, &info) {
        Ok(kek) => Ok(SecretKey::new(kek)),
        Err(e) => {
            let mut text = owned("hkdf expand failed: ");
            text.push_str(e.as_str());
            Err(AppError::Kdf(text))
        },
    }
}

/// What reading a stored device key gives.
pub open spec fn device_key_of(text: Seq<char>) -> Result<Seq<u8>, ErrorView> {
    match base64_bytes(text) {
        Ok(bytes) => if bytes.len() == DEVICE_KEY_LEN {
            Ok(bytes)
        } else {
            Err(ErrorView::Keyring("device key has the wrong length"@))
        },
        Err(e) => Err(ErrorView::Keyring("device key is not valid base64: "@ + e)),
    }
}

/// Whether the everyday path is refused at the time `now`.
pub open spec fn escalates(
    failed_attempts: u32,
    last_check: u64,
    max_failed: u32,
    max_age_days: u32,
    now: u64,
) -> bool {
    ||| max_failed > 0 && failed_attempts >= max_failed
    ||| max_age_days > 0 && now - last_check > max_age_days * DAY
}

impl DeviceState {
    /// The stored text of the device key.
    pub open spec fn key_text(self) -> Seq<char> {
        self.device_key@
    }

    /// A newly enrolled device: fresh key, no code secret, counters clear. Its
    /// key can be read back. Only the random source can fail.
    pub fn new() -> (r: Result<Self, AppError>)
        ensures
            match r {
                Ok(state) => {
                    &&& device_key_of(state.key_text()) is Ok
                    &&& state.totp_secret is None
                    &&& state.replay_step == 0
                    &&& state.failed_attempts == 0
                },
                Err(e) => e@ is Crypto,
            },
    {
        DeviceState::new_at(random_master_key(), now_unix())
    }

    /// A device enrolled at the time `now` under the drawn key.
    pub fn new_at(drawn: Result<SecretKey, AppError>, now: u64) -> (r: Result<Self, AppError>)
        ensures
            match drawn {
                Ok(key) => r matches Ok(state) && {
                    &&& device_key_of(state.key_text()) == Ok::<Seq<u8>, ErrorView>(key@)
                    &&& state.totp_secret is None
                    &&& state.replay_step == 0
                    &&& state.failed_attempts == 0
                    &&& state.last_password_check_unix == now
                },
                Err(e) => r == Err::<Self, AppError>(e),
            },
    {
        let key = match drawn {
            Ok(key) => key,
            Err(e) => return Err(e),
        };
        let text = base64_encode(key.as_bytes());
        Ok(
            DeviceState {
                device_key: Secret::new(text),
                totp_secret: None,
                replay_step: 0,
                failed_attempts: 0,
                last_password_check_unix: now,
            },
        )
    }

    /// The device key.
    pub fn device_key(&self) -> (r: Result<SecretKey, AppError>)
        ensures
            match r {
                Ok(key) => device_key_of(self.key_text()) == Ok::<Seq<u8>, ErrorView>(key@),
                Err(e) => device_key_of(self.key_text()) == Err::<Seq<u8>, ErrorView>(e@),
            },
    {
        let decoded: SecretBytes = match base64_decode(self.device_key.as_str()) {
            Ok(bytes) => SecretBytes::new(bytes),
            Err(e) => {
                let mut text = owned("device key is not valid base64: ");
                text.push_str(e.as_str());
                return Err(AppError::Keyring(text));
            },
        };
        if decoded.len() != DEVICE_KEY_LEN {
            return Err(AppError::Keyring(owned("device key has the wrong length")));
        }
        let key = SecretKey::new(array_at::<DEVICE_KEY_LEN>(decoded.as_slice(), 0));
        assert(key@ =~= decoded@);
        Ok(key)
    }

    /// Marks a successful password unlock, which is what clears an escalation.
    pub fn record_password_check(&mut self)
        ensures
            final(self).failed_attempts == 0,
            final(self).device_key == old(self).device_key,
            final(self).totp_secret == old(self).totp_secret,
            final(self).replay_step == old(self).replay_step,
    {
        self.record_password_check_at(now_unix());
    }

    /// Marks a password unlock at the time `now`.
    pub fn record_password_check_at(&mut self, now: u64)
        ensures
            final(self).last_password_check_unix == now,
            final(self).failed_attempts == 0,
            final(self).device_key == old(self).device_key,
            final(self).totp_secret == old(self).totp_secret,
            final(self).replay_step == old(self).replay_step,
    {
        self.last_password_check_unix = now;
        self.failed_attempts = 0;
    }

    /// Whether the everyday path should be refused in favour of the password.
    /// `max_failed` of 0 or `max_age_days` of 0 disables that trigger.
    pub fn must_escalate(&self, max_failed: u32, max_age_days: u32) -> (r: bool)
        ensures
            max_failed > 0 && self.failed_attempts >= max_failed ==> r,
            max_age_days == 0 ==> r == (max_failed > 0 && self.failed_attempts >= max_failed),
            exists|now: u64|
                r == #[trigger] escalates(
                    self.failed_attempts,
                    self.last_password_check_unix,
                    max_failed,
                    max_age_days,
                    now,
                ),
    {
        let now: u64 = now_unix();
        self.must_escalate_at(max_failed, max_age_days, now)
    }

    /// Whether the everyday path should be refused at the time `now`.
    pub fn must_escalate_at(&self, max_failed: u32, max_age_days: u32, now: u64) -> (r: bool)
        ensures
            r == escalates(self.failed_attempts, self.last_password_check_unix, max_failed, max_age_days, now),
    {
        if max_failed > 0 && self.failed_attempts >= max_failed {
            return true;
        }
        if max_age_days > 0 {
            let age: u64 = now.saturating_sub(self.last_password_check_unix);
            if age > max_age_days as u64 * DAY {
                return true;
            }
        }
        false
    }

    /// How the state is shown where a developer looks: without its secrets.
    pub open spec fn debug(self) -> Seq<char> {
        "DeviceState { device_key: \"<redacted>\", totp_secret: "@ + (if self.totp_secret is Some {
            "Some(\"<redacted>\")"@
        } else {
            "None"@
        }) + ", replay_step: "@ + decimal(self.replay_step as nat) + ", failed_attempts: "@ + decimal(
            self.failed_attempts as nat,
        ) + ", last_password_check_unix: "@ + decimal(self.last_password_check_unix as nat) + " }"@
    }

    /// How the state is shown where a developer looks.
    pub fn debug_text(&self) -> (r: String)
        ensures
            r@ == self.debug(),
    {
        let mut s = owned("DeviceState { device_key: \"<redacted>\", totp_secret: ");
        if self.totp_secret.is_some() {
            s.push_str("Some(\"<redacted>\")");
        } else {
            s.push_str("None");
        }
        s.push_str(", replay_step: ");
        push_decimal(&mut s, self.replay_step);
        s.push_str(", failed_attempts: ");
        push_decimal(&mut s, self.failed_attempts as u64);
        s.push_str(", last_password_check_unix: ");
        push_decimal(&mut s, self.last_password_check_unix);
        s.push_str(" }");
        s
    }
}

/// A threshold of 0 turns a trigger off: with both off nothing escalates.
pub proof fn zero_thresholds_never_escalate(failed_attempts: u32, last_check: u64, now: u64)
    ensures
        !escalates(failed_attempts, last_check, 0, 0, now),
{
}

/// A password unlock clears an escalation: right behind it, and for the whole
/// allowed time, nothing escalates until a code fails.
pub proof fn a_password_check_clears_the_escalation(max_failed: u32, max_age_days: u32, checked: u64, now: u64)
    requires
        now <= checked + max_age_days * DAY,
    ensures
        !escalates(0, checked, max_failed, max_age_days, now),
{
}

/// The domain of the device slot's key is the text `ssh-control device slot v1`.
pub proof fn the_domain_is_its_text(i: int)
    requires
        0 <= i < 26,
    ensures
        hkdf_info().len() == 26,
        "ssh-control device slot v1"@.len() == 26,
        hkdf_info()[i] as char == "ssh-control device slot v1"@[i],
{
    reveal_strlit("ssh-control device slot v1");
}

/// A device key reads back as the 32 bytes it was written as; a text of another
/// length, and one that is no base64, is an error of the credential store.
pub proof fn a_device_key_has_32_bytes(text: Seq<char>)
    ensures
        base64_bytes(text) matches Ok(bytes) ==> (bytes.len() == 32 ==> device_key_of(text) == Ok::<Seq<u8>, ErrorView>(
            bytes,
        )),
        device_key_of(text) matches Ok(key) ==> key.len() == 32,
        device_key_of(text) matches Err(e) ==> e is Keyring,
        base64_bytes(text) is Err ==> device_key_of(text) is Err,
{
}

/// A password that was given starts the count anew and leaves the key, the secret
/// and the last step; a new device starts with nothing against it.
pub proof fn a_given_password_starts_the_count_anew(
    device: &mut DeviceState,
    now: u64,
    key: SecretKey,
    made: Result<DeviceState, AppError>,
)
    requires
        call_ensures(DeviceState::record_password_check_at, (device, now), ()),
        call_ensures(DeviceState::new_at, (Ok(key), now), made),
    ensures
        *final(device) == (DeviceState { failed_attempts: 0, last_password_check_unix: now, ..*old(device) }),
        made matches Ok(d) && d.failed_attempts == 0 && d.replay_step == 0 && d.totp_secret is None
            && d.last_password_check_unix == now && device_key_of(d.device_key@) == Ok::<Seq<u8>, ErrorView>(key@),
{
}

/// The key of a device slot is HKDF over the device's key, with the slot's salt and
/// the domain of the slot.
pub proof fn a_device_slot_has_its_own_key(device_key: Seq<u8>, salt: Seq<u8>, domain: Seq<u8>)
    requires
        domain.len() == 26,
        forall|i: int| 0 <= i < 26 ==> (#[trigger] domain[i]) as char == "ssh-control device slot v1"@[i],
    ensures
        kek_of(device_key, salt) == hkdf_sha256(salt, device_key, domain),
{
    assert forall|i: int| 0 <= i < 26 implies domain[i] == hkdf_info()[i] by {
        the_domain_is_its_text(i);
        assert(domain[i] as char == hkdf_info()[i] as char);
    }
    the_domain_is_its_text(0);
    assert(domain =~= hkdf_info());
}

} // verus!
