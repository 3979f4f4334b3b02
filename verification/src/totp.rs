//! One-time codes, and the security modes they belong to.
use vstd::prelude::*;
use vstd::utf8::encode_utf8_decode_utf8;

use crate::config::device::clock_seconds;
use crate::text::{has_prefix, utf8};

verus! {

/// The four vault security modes, in increasing order of what they ask of the
/// user. A code never adds offline strength: it raises the bar for someone at
/// the keyboard, not for someone holding the file.
#[derive(Clone, Copy, PartialEq, Eq, Debug, Structural)]
pub enum AuthMode {
    /// No prompt at all. The vault is still encrypted, under a device key held
    /// by the OS credential store.
    NoPrompt,
    /// Password on every launch.
    Password,
    /// Password on every launch, then a code.
    PasswordTotp,
    /// A code day to day, with the password kept as the escalation path.
    TotpDaily,
}

pub const DIGITS: usize = 6;

/// One step of tolerance on either side of the current step.
pub const SKEW: u8 = 1;

pub const STEP_SECONDS: u64 = 30;

/// The last second at which every step around it can be counted.
pub const LAST_SECOND: u64 = 0xffff_ffff_ffff_ff00;

/// The outcome of checking a code.
#[derive(Clone, Copy, PartialEq, Eq, Debug, Structural)]
pub enum CodeCheck {
    /// Valid, and newer than anything accepted before. The step is what the
    /// caller must persist, and only on this outcome.
    Accepted(u64),
    /// Valid for the secret, but at a step already used.
    Replayed,
    /// Wrong, or the secret is malformed.
    Invalid,
}

/// The bytes that a base32 text without padding stands for.
pub uninterp spec fn base32_bytes(text: Seq<char>) -> Option<Seq<u8>>;

/// `totp_rs::Secret::to_bytes` of an encoded secret.
#[verifier::external_body]
fn base32_decode(text: &str) -> (r: Option<Vec<u8>>)
    ensures
        match r {
            Some(bytes) => base32_bytes(text@) == Some(bytes@),
            None => base32_bytes(text@) is None,
        },
{
    totp_rs::Secret::Encoded(text.to_string()).to_bytes().ok()
}

/// `totp_rs::Secret::generate_secret`, encoded. The 20 bytes are random; the
/// text always decodes to that many.
#[verifier::external_body]
fn random_secret() -> (r: String)
    ensures
        match base32_bytes(r@) {
            Some(bytes) => bytes.len() == 20,
            None => false,
        },
{
    totp_rs::Secret::generate_secret().to_encoded().to_string()
}

/// Whether `totp_rs::TOTP::new` takes these parameters: six to eight digits, a
/// secret of at least 128 bits, and no colon in the names.
pub open spec fn totp_takes(digits: usize, secret: Seq<u8>, issuer: Seq<char>, account: Seq<char>) -> bool {
    6 <= digits <= 8 && secret.len() >= 16 && !issuer.contains(':') && !account.contains(':')
}

/// The code of this many digits that HMAC-SHA1 makes of a secret at a time, by
/// steps of `step` seconds.
pub uninterp spec fn totp_value(digits: usize, step: u64, secret: Seq<u8>, time: u64) -> Seq<char>;

/// `totp_rs::TOTP::generate` with SHA-1. The code is a function of the number
/// of digits, the step, the secret and the time; there is one exactly where
/// `TOTP::new` takes the parameters.
#[verifier::external_body]
fn totp_generate(digits: usize, skew: u8, step: u64, secret: &Vec<u8>, issuer: &str, account: &str, time: u64) -> (r: Option<
    String,
>)
    requires
        step > 0,
    ensures
        match r {
            Some(code) => totp_takes(digits, secret@, issuer@, account@) && code@ == totp_value(
                digits,
                step,
                secret@,
                time,
            ),
            None => !totp_takes(digits, secret@, issuer@, account@),
        },
{
    let (issuer, account) = (Some(issuer.to_string()), account.to_string());
    let totp = totp_rs::TOTP::new(totp_rs::Algorithm::SHA1, digits, skew, step, secret.clone(), issuer, account).ok()?;
    Some(totp.generate(time))
}

/// The `otpauth://` address of a secret.
pub uninterp spec fn totp_url(
    digits: usize,
    step: u64,
    secret: Seq<u8>,
    issuer: Seq<char>,
    account: Seq<char>,
) -> Seq<char>;

/// `totp_rs::TOTP::get_url` with SHA-1. The address is a function of the number
/// of digits, the step, the secret and the names, and begins with
/// `otpauth://totp/`; there is one exactly where `TOTP::new` takes the
/// parameters.
#[verifier::external_body]
fn totp_get_url(digits: usize, skew: u8, step: u64, secret: &Vec<u8>, issuer: &str, account: &str) -> (r: Option<String>)
    requires
        step > 0,
    ensures
        match r {
            Some(url) => {
                &&& totp_takes(digits, secret@, issuer@, account@)
                &&& url@ == totp_url(digits, step, secret@, issuer@, account@)
                &&& has_prefix(url@, "otpauth://totp/"@)
            },
            None => !totp_takes(digits, secret@, issuer@, account@),
        },
{
    let (issuer, account) = (Some(issuer.to_string()), account.to_string());
    let totp = totp_rs::TOTP::new(totp_rs::Algorithm::SHA1, digits, skew, step, secret.clone(), issuer, account).ok()?;
    Some(totp.get_url())
}

/// Whether a secret is good for codes: base32 of at least 128 bits.
pub open spec fn usable(secret: Seq<char>) -> bool {
    base32_bytes(secret) is Some && base32_bytes(secret)->Some_0.len() >= 16
}

/// The code of a usable secret at a step.
pub open spec fn code_at(secret: Seq<char>, step: int) -> Seq<char> {
    totp_value(DIGITS, STEP_SECONDS, base32_bytes(secret)->Some_0, (step * STEP_SECONDS) as u64)
}

/// The judgement on a code, given the codes it may be, newest first.
pub open spec fn classified(candidates: Seq<(u64, Seq<char>)>, code: Seq<char>, last_step: u64) -> CodeCheck
    decreases candidates.len(),
{
    if candidates.len() == 0 {
        CodeCheck::Invalid
    } else if candidates[0].1 == code {
        if candidates[0].0 > last_step {
            CodeCheck::Accepted(candidates[0].0)
        } else {
            CodeCheck::Replayed
        }
    } else {
        classified(candidates.drop_first(), code, last_step)
    }
}

/// The codes of a secret that are valid at the time `now`, newest first: the
/// next step's, the current step's and the one before it.
pub open spec fn valid_codes(secret: Seq<char>, now: u64) -> Seq<(u64, Seq<char>)> {
    let current = (now / STEP_SECONDS) as int;
    let newest = seq![((current + 1) as u64, code_at(secret, current + 1)), (current as u64, code_at(secret, current))];
    if current == 0 {
        newest
    } else {
        newest.push(((current - 1) as u64, code_at(secret, current - 1)))
    }
}

/// The judgement on a code at the time `now`.
pub open spec fn checked(secret: Seq<char>, code: Seq<char>, last_step: u64, now: u64) -> CodeCheck {
    if usable(secret) {
        classified(valid_codes(secret, now), code, last_step)
    } else {
        CodeCheck::Invalid
    }
}

/// The judgement on a code by a reading of the clock. A clock before the epoch,
/// or past the last step that can be counted, makes every code invalid.
pub open spec fn checked_by(secret: Seq<char>, code: Seq<char>, last_step: u64, clock: Option<u64>) -> CodeCheck {
    match clock {
        Some(now) => if now <= LAST_SECOND {
            checked(secret, code, last_step, now)
        } else {
            CodeCheck::Invalid
        },
        None => CodeCheck::Invalid,
    }
}

/// A fresh random 160-bit secret, base32-encoded for display and for pasting
/// into an authenticator app. It is always usable.
pub fn generate_secret_base32() -> (r: String)
    ensures
        usable(r@),
{
    random_secret()
}

/// The code of a secret at a time, if the secret is usable.
fn generate(secret: &Vec<u8>, time: u64) -> (r: Option<String>)
    ensures
        match r {
            Some(code) => secret@.len() >= 16 && code@ == totp_value(DIGITS, STEP_SECONDS, secret@, time),
            None => secret@.len() < 16,
        },
{
    proof {
        reveal_strlit("ssh-control");
        reveal_strlit("vault");
    }
    totp_generate(DIGITS, SKEW, STEP_SECONDS, secret, "ssh-control", "vault", time)
}

/// `otpauth://` address for the given secret, so an authenticator app can scan
/// it.
pub fn otpauth_url(secret_base32: &str) -> (r: Option<String>)
    ensures
        match r {
            Some(url) => {
                &&& usable(secret_base32@)
                &&& url@ == totp_url(
                    DIGITS,
                    STEP_SECONDS,
                    base32_bytes(secret_base32@)->Some_0,
                    "ssh-control"@,
                    "vault"@,
                )
                &&& has_prefix(url@, "otpauth://totp/"@)
            },
            None => !usable(secret_base32@),
        },
{
    proof {
        reveal_strlit("ssh-control");
        reveal_strlit("vault");
    }
    match base32_decode(secret_base32) {
        Some(bytes) => totp_get_url(DIGITS, SKEW, STEP_SECONDS, &bytes, "ssh-control", "vault"),
        None => None,
    }
}

/// Judges a code against the codes it may be, newest first.
pub fn classify_code(candidates: &Vec<(u64, String)>, code: &str, last_step: u64) -> (r: CodeCheck)
    ensures
        r == classified(candidates@.map_values(|c: (u64, String)| (c.0, c.1@)), code@, last_step),
{
    let ghost all = candidates@.map_values(|c: (u64, String)| (c.0, c.1@));
    let mut i: usize = 0;
    assert(all.skip(0) =~= all);
    while i < candidates.len()
        invariant
            i <= candidates@.len(),
            all == candidates@.map_values(|c: (u64, String)| (c.0, c.1@)),
            classified(all, code@, last_step) == classified(all.skip(i as int), code@, last_step),
        decreases candidates@.len() - i,
    {
        let step: u64 = candidates[i].0;
        assert(all.skip(i as int)[0] == (step, candidates@[i as int].1@));
        assert(all.skip(i as int).drop_first() =~= all.skip(i + 1));
        if codes_match(candidates[i].1.as_str(), code) {
            return if step > last_step {
                CodeCheck::Accepted(step)
            } else {
                CodeCheck::Replayed
            };
        }
        i = i + 1;
    }
    CodeCheck::Invalid
}

/// Verifies a user-entered code and classifies it against `last_step`.
///
/// A rejected code never advances the stored step: only `Accepted` carries one.
/// A clock before the epoch, or past the last step that can be counted, makes
/// every code invalid.
pub fn check_code(secret_base32: &str, code: &str, last_step: u64) -> (r: CodeCheck)
    ensures
        !usable(secret_base32@) ==> r == CodeCheck::Invalid,
        r == CodeCheck::Invalid || exists|now: u64|
            now <= LAST_SECOND && r == #[trigger] checked(secret_base32@, code@, last_step, now),
        r matches CodeCheck::Accepted(step) ==> step > last_step,
{
    let clock: Option<u64> = clock_seconds();
    proof {
        if let Some(now) = clock {
            lemma_classified(valid_codes(secret_base32@, now), code@, last_step);
        }
    }
    check_code_by(secret_base32, code, last_step, clock)
}

/// Verifies a code by a reading of the clock.
pub fn check_code_by(secret_base32: &str, code: &str, last_step: u64, clock: Option<u64>) -> (r: CodeCheck)
    ensures
        r == checked_by(secret_base32@, code@, last_step, clock),
{
    match clock {
        Some(now) => if now <= LAST_SECOND {
            check_code_at(secret_base32, code, last_step, now)
        } else {
            CodeCheck::Invalid
        },
        None => CodeCheck::Invalid,
    }
}

/// Verifies a code as it stands at the time `now`.
pub fn check_code_at(secret_base32: &str, code: &str, last_step: u64, now: u64) -> (r: CodeCheck)
    requires
        now <= LAST_SECOND,
    ensures
        r == checked(secret_base32@, code@, last_step, now),
{
    let secret: Vec<u8> = match base32_decode(secret_base32) {
        Some(bytes) => bytes,
        None => return CodeCheck::Invalid,
    };
    let current: u64 = now / STEP_SECONDS;
    let oldest: u64 = current.saturating_sub(SKEW as u64);
    let mut candidates: Vec<(u64, String)> = Vec::new();
    // Newest step first: a code can be valid at more than one step only in
    // pathological cases, and taking the highest advances the counter as far as
    // it legitimately can.
    let mut above: u64 = current + SKEW as u64 + 1;
    let ghost all = valid_codes(secret_base32@, now);
    assert(all.take(0) =~= Seq::<(u64, Seq<char>)>::empty());
    assert(candidates@.map_values(|c: (u64, String)| (c.0, c.1@)) =~= all.take(0));
    while above > oldest
        invariant
            now <= LAST_SECOND,
            current == now / STEP_SECONDS,
            oldest == (if current == 0 { 0 } else { current - 1 }),
            oldest <= above <= current + 2,
            all == valid_codes(secret_base32@, now),
            base32_bytes(secret_base32@) == Some(secret@),
            above < current + 2 ==> usable(secret_base32@),
            candidates@.len() == current + 2 - above,
            candidates@.map_values(|c: (u64, String)| (c.0, c.1@)) == all.take(current + 2 - above),
        decreases above,
    {
        let step: u64 = above - 1;
        let ghost before = candidates@.map_values(|c: (u64, String)| (c.0, c.1@));
        match generate(&secret, step * STEP_SECONDS) {
            Some(text) => {
                assert(text@ == code_at(secret_base32@, step as int));
                assert(all[current + 1 - step] == (step, text@));
                candidates.push((step, text));
                assert(candidates@.map_values(|c: (u64, String)| (c.0, c.1@)) =~= before.push((step, text@)));
                assert(all.take(current + 2 - step) =~= all.take(current + 1 - step).push(all[current + 1 - step]));
            },
            None => return CodeCheck::Invalid,
        }
        above = step;
    }
    assert(all.take(current + 2 - oldest) =~= all);
    classify_code(&candidates, code, last_step)
}

/// Verifies a code where there is no replay history: the enrolment form, which
/// only confirms that the authenticator is set up correctly.
pub fn verify_enrollment(secret_base32: &str, code: &str) -> (r: bool)
    ensures
        !usable(secret_base32@) ==> !r,
        r ==> exists|now: u64|
            now <= LAST_SECOND && (#[trigger] checked(secret_base32@, code@, 0, now)) is Accepted,
{
    verify_enrollment_by(secret_base32, code, clock_seconds())
}

/// Confirms an authenticator by a reading of the clock.
pub fn verify_enrollment_by(secret_base32: &str, code: &str, clock: Option<u64>) -> (r: bool)
    ensures
        r == (checked_by(secret_base32@, code@, 0, clock) is Accepted),
{
    match check_code_by(secret_base32, code, 0, clock) {
        CodeCheck::Accepted(_) => true,
        _ => false,
    }
}

/// Compares two codes without an early exit on the first differing digit.
pub fn codes_match(a: &str, b: &str) -> (r: bool)
    ensures
        r == (a@ == b@),
{
    let x = a.as_bytes();
    let y = b.as_bytes();
    proof {
        encode_utf8_decode_utf8(a@);
        encode_utf8_decode_utf8(b@);
        assert(utf8(a@) == utf8(b@) <==> a@ == b@);
    }
    if x.len() != y.len() {
        return false;
    }
    let mut acc: u8 = 0;
    let mut i: usize = 0;
    while i < x.len()
        invariant
            x@.len() == y@.len(),
            i <= x@.len(),
            acc == 0 <==> forall|j: int| 0 <= j < i ==> x@[j] == y@[j],
        decreases x@.len() - i,
    {
        let p: u8 = x[i];
        let q: u8 = y[i];
        let before: u8 = acc;
        assert((before | (p ^ q)) == 0 <==> before == 0 && p == q) by (bit_vector);
        acc = before | (p ^ q);
        i = i + 1;
        proof {
            if acc == 0 {
                assert forall|j: int| 0 <= j < i implies x@[j] == y@[j] by {}
            } else if before == 0 {
                assert(x@[i - 1] != y@[i - 1]);
            }
        }
    }
    proof {
        if acc == 0 {
            assert(x@ =~= y@);
        }
    }
    acc == 0
}

/// Only `Accepted` carries a step, and that step is newer than the stored one.
proof fn lemma_classified(candidates: Seq<(u64, Seq<char>)>, code: Seq<char>, last_step: u64)
    ensures
        classified(candidates, code, last_step) matches CodeCheck::Accepted(step) ==> step > last_step,
    decreases candidates.len(),
{
    if candidates.len() > 0 && candidates[0].1 != code {
        lemma_classified(candidates.drop_first(), code, last_step);
    }
}

/// An accepted step is newer than every step accepted before it, whatever the
/// time: the stored counter only moves forward.
pub proof fn an_accepted_step_is_newer(secret: Seq<char>, code: Seq<char>, last_step: u64, now: u64)
    ensures
        checked(secret, code, last_step, now) matches CodeCheck::Accepted(step) ==> step > last_step,
{
    lemma_classified(valid_codes(secret, now), code, last_step);
}

proof fn lemma_replay(candidates: Seq<(u64, Seq<char>)>, code: Seq<char>, last_step: u64, step: u64)
    requires
        classified(candidates, code, last_step) == CodeCheck::Accepted(step),
    ensures
        classified(candidates, code, step) == CodeCheck::Replayed,
    decreases candidates.len(),
{
    if candidates[0].1 != code {
        lemma_replay(candidates.drop_first(), code, last_step, step);
    }
}

/// A code is accepted once. Checked again at the same time against the step it
/// was accepted at, it is a replay.
pub proof fn a_code_is_accepted_once(secret: Seq<char>, code: Seq<char>, last_step: u64, step: u64, now: u64)
    requires
        checked(secret, code, last_step, now) == CodeCheck::Accepted(step),
    ensures
        checked(secret, code, step, now) == CodeCheck::Replayed,
{
    lemma_replay(valid_codes(secret, now), code, last_step, step);
}

proof fn lemma_never_newer(candidates: Seq<(u64, Seq<char>)>, code: Seq<char>, a: u64, b: u64)
    requires
        classified(candidates, code, a) is Invalid,
    ensures
        classified(candidates, code, b) is Invalid,
    decreases candidates.len(),
{
    if candidates.len() > 0 {
        lemma_never_newer(candidates.drop_first(), code, a, b);
    }
}

/// Whether a code is right does not depend on the stored step: the step only
/// tells a fresh code from a replay.
pub proof fn a_wrong_code_is_wrong_whatever_was_stored(secret: Seq<char>, code: Seq<char>, a: u64, b: u64, now: u64)
    ensures
        checked(secret, code, a, now) is Invalid <==> checked(secret, code, b, now) is Invalid,
{
    let candidates = valid_codes(secret, now);
    if classified(candidates, code, a) is Invalid {
        lemma_never_newer(candidates, code, a, b);
    }
    if classified(candidates, code, b) is Invalid {
        lemma_never_newer(candidates, code, b, a);
    }
}

/// An accepted code is one of the codes it was judged against.
proof fn lemma_accepted_is_candidate(candidates: Seq<(u64, Seq<char>)>, code: Seq<char>, last_step: u64, step: u64)
    requires
        classified(candidates, code, last_step) == CodeCheck::Accepted(step),
    ensures
        exists|i: int| 0 <= i < candidates.len() && #[trigger] candidates[i] == (step, code),
    decreases candidates.len(),
{
    if candidates[0].1 == code {
        assert(candidates[0] == (step, code));
    } else {
        let rest = candidates.drop_first();
        lemma_accepted_is_candidate(rest, code, last_step, step);
        let i = choose|i: int| 0 <= i < rest.len() && #[trigger] rest[i] == (step, code);
        assert(candidates[i + 1] == (step, code));
    }
}

/// An accepted code is that of its step, and the step is the current one or the
/// one before or after it: a code is good for about ninety seconds.
pub proof fn an_accepted_code_is_of_a_near_step(secret: Seq<char>, code: Seq<char>, last_step: u64, step: u64, now: u64)
    requires
        now <= LAST_SECOND,
        checked(secret, code, last_step, now) == CodeCheck::Accepted(step),
    ensures
        now / STEP_SECONDS - 1 <= step <= now / STEP_SECONDS + 1,
        code == code_at(secret, step as int),
{
    let candidates = valid_codes(secret, now);
    lemma_accepted_is_candidate(candidates, code, last_step, step);
    let i = choose|i: int| 0 <= i < candidates.len() && #[trigger] candidates[i] == (step, code);
    assert(0 <= i < 3);
}

/// A code that was accepted is refused from then on, at whatever time it comes
/// again, unless it happens to be the code of a newer step too.
pub proof fn a_spent_code_is_refused(
    secret: Seq<char>,
    code: Seq<char>,
    last_step: u64,
    step: u64,
    now: u64,
    later: u64,
)
    requires
        now <= LAST_SECOND,
        later <= LAST_SECOND,
        checked(secret, code, last_step, now) == CodeCheck::Accepted(step),
        forall|s: int| step < s <= later / STEP_SECONDS + 1 ==> #[trigger] code_at(secret, s) != code,
    ensures
        !(checked(secret, code, step, later) is Accepted),
{
    if let CodeCheck::Accepted(again) = checked(secret, code, step, later) {
        lemma_classified(valid_codes(secret, later), code, step);
        an_accepted_code_is_of_a_near_step(secret, code, step, again, later);
        assert(code_at(secret, again as int) != code);
    }
}

/// The code of the current step, of the one before it and of the one after it is
/// accepted, where no newer step in reach has the same code and the step is newer
/// than the last that was accepted; else it is a reused one. Any other code is
/// wrong.
pub proof fn a_code_of_a_near_step_is_accepted(secret: Seq<char>, code: Seq<char>, last_step: u64, now: u64)
    requires
        now <= LAST_SECOND,
        base32_bytes(secret) matches Some(bytes) && bytes.len() >= 16,
    ensures
        ({
            let current = now as int / 30;
            let next = code_at(secret, current + 1);
            let this = code_at(secret, current);
            let last = code_at(secret, current - 1);
            let r = checked(secret, code, last_step, now);
            &&& code == next ==> r == (if current + 1 > last_step {
                CodeCheck::Accepted((current + 1) as u64)
            } else {
                CodeCheck::Replayed
            })
            &&& code == this && code != next ==> r == (if current > last_step {
                CodeCheck::Accepted(current as u64)
            } else {
                CodeCheck::Replayed
            })
            &&& current > 0 && code == last && code != this && code != next ==> r == (if current - 1 > last_step {
                CodeCheck::Accepted((current - 1) as u64)
            } else {
                CodeCheck::Replayed
            })
            &&& code != this && code != next && (current == 0 || code != last) ==> r == CodeCheck::Invalid
        }),
{
    reveal_with_fuel(classified, 4);
    let all = valid_codes(secret, now);
    let one = all.drop_first();
    let two = one.drop_first();
    assert(all[1] == one[0]);
    if now as int / 30 > 0 {
        assert(all[2] == one[1]);
        assert(one[1] == two[0]);
        assert(two.drop_first() =~= Seq::empty());
    } else {
        assert(two =~= Seq::empty());
    }
}

/// A code has six digits and lasts for thirty seconds: that of a step is made of
/// the secret and of the step's first second.
pub proof fn a_code_is_made_of_its_step(secret: Seq<char>, step: int)
    requires
        0 <= step <= 0x0888_8888_8888_8888,
        base32_bytes(secret) is Some,
    ensures
        code_at(secret, step) == totp_value(6, 30, base32_bytes(secret)->Some_0, (step * 30) as u64),
{
}

/// A code is judged at the time the clock gives; without a time that can be used
/// every code is wrong. An enrolment takes a code of any near step.
pub proof fn a_code_is_judged_by_the_clock(
    secret: &str,
    code: &str,
    last_step: u64,
    clock: Option<u64>,
    check: CodeCheck,
    enrolled: bool,
)
    requires
        call_ensures(check_code_by, (secret, code, last_step, clock), check),
        call_ensures(verify_enrollment_by, (secret, code, clock), enrolled),
    ensures
        clock is None ==> check == CodeCheck::Invalid && !enrolled,
        clock matches Some(now) ==> (now <= LAST_SECOND ==> check == checked(secret@, code@, last_step, now) && (enrolled
            <==> checked(secret@, code@, 0, now) is Accepted)),
{
}

} // verus!
