//! Wrapping and unwrapping the vault's master key.
//!
//! The vault body is encrypted under a random master key that is never derived
//! from user input. Each slot holds that key wrapped under a different
//! key-encryption key, so a vault can be opened by more than one method, and
//! changing one method rewraps 32 bytes.
use vstd::prelude::*;

use crate::bytes::array_at;
use crate::config::device::{device_kek, kek_of};
use crate::config::format::{
    slot_aad, slot_views, Slot, SlotView, KDF_ARGON2ID, KDF_HKDF_SHA256, MK_LEN, SLOT_DEVICE, SLOT_PASSWORD,
    WRAPPED_MK_LEN,
};
use crate::crypto::cipher::{decrypt, encrypt, gcm_open, gcm_seal, random_nonce, random_salt, NONCE_LEN};
use crate::crypto::kdf::{argon2_refusal, argon2id, derive_key, derived_key, KdfParams, SALT_LEN};
use crate::crypto::wiped::SecretKey;
use crate::error::{AppError, ErrorView};
use crate::text::{owned, utf8};

verus! {

/// The key that the vault body is encrypted under.
pub type MasterKey = SecretKey;

pub const DEVICE_KDF_ID: u8 = KDF_HKDF_SHA256;

/// What unwrapping a slot under `kek` gives.
pub open spec fn unwrapped_under(slot: SlotView, kek: Seq<u8>) -> Result<Seq<u8>, ErrorView> {
    match gcm_open(kek, slot.wrap_nonce, slot.desc(), slot.wrapped_mk) {
        Some(master_key) => Ok(master_key),
        None => Err(ErrorView::WrongPasswordOrCorrupt),
    }
}

/// What unwrapping a slot with a password gives.
pub open spec fn unwrapped_by_password(slot: SlotView, password: Seq<char>) -> Result<Seq<u8>, ErrorView> {
    if slot.kdf_id != KDF_ARGON2ID {
        Err(ErrorView::CorruptFile("password slot is not argon2id"@))
    } else {
        match derived_key(utf8(password), slot.salt, slot.kdf_params) {
            Ok(kek) => unwrapped_under(slot, kek),
            Err(e) => Err(e),
        }
    }
}

/// What unwrapping a slot with a device key gives.
pub open spec fn unwrapped_by_device(slot: SlotView, device_key: Seq<u8>) -> Result<Seq<u8>, ErrorView> {
    if slot.kdf_id != DEVICE_KDF_ID {
        Err(ErrorView::CorruptFile("device slot is not hkdf-sha256"@))
    } else {
        unwrapped_under(slot, kek_of(device_key, slot.salt))
    }
}

/// The slot that wraps `master_key` under `kek` with this nonce.
pub open spec fn wrapped_slot(
    kind: u8,
    kdf_id: u8,
    params: KdfParams,
    salt: Seq<u8>,
    nonce: Seq<u8>,
    kek: Seq<u8>,
    master_key: Seq<u8>,
) -> SlotView {
    let bare = SlotView { kind, kdf_id, kdf_params: params, salt, wrap_nonce: nonce, wrapped_mk: Seq::empty() };
    SlotView { wrapped_mk: gcm_seal(kek, nonce, bare.desc(), master_key), ..bare }
}

/// Whether a result is `expected`, by its views.
pub open spec fn key_is(r: Result<MasterKey, AppError>, expected: Result<Seq<u8>, ErrorView>) -> bool {
    match r {
        Ok(key) => expected == Ok::<Seq<u8>, ErrorView>(key@),
        Err(e) => expected == Err::<Seq<u8>, ErrorView>(e@),
    }
}

/// What was drawn for one slot: its salt and its nonce.
pub struct Draw {
    pub salt: Result<[u8; SALT_LEN], AppError>,
    pub nonce: Result<[u8; NONCE_LEN], AppError>,
}

impl Draw {
    /// Whether a draw that failed says so with a `Crypto` error.
    pub open spec fn honest(self) -> bool {
        &&& self.salt matches Err(e) ==> e@ is Crypto
        &&& self.nonce matches Err(e) ==> e@ is Crypto
    }

    /// A fresh salt and a fresh nonce.
    pub fn fresh() -> (r: Draw)
        ensures
            r.honest(),
    {
        Draw { salt: random_salt(), nonce: random_nonce() }
    }
}

/// What wrapping a master key under a password gives, for what was drawn.
pub open spec fn wrapped_by_password(
    password: Seq<char>,
    params: KdfParams,
    draw: Draw,
    master_key: Seq<u8>,
) -> Result<SlotView, ErrorView> {
    match draw.salt {
        Err(e) => Err(e@),
        Ok(salt) => match derived_key(utf8(password), salt@, params) {
            Err(e) => Err(e),
            Ok(kek) => match draw.nonce {
                Err(e) => Err(e@),
                Ok(nonce) => Ok(
                    wrapped_slot(SLOT_PASSWORD, KDF_ARGON2ID, params, salt@, nonce@, kek, master_key),
                ),
            },
        },
    }
}

/// What wrapping a master key under a device key gives, for what was drawn.
pub open spec fn wrapped_by_device(device_key: Seq<u8>, draw: Draw, master_key: Seq<u8>) -> Result<SlotView, ErrorView> {
    match draw.salt {
        Err(e) => Err(e@),
        Ok(salt) => match draw.nonce {
            Err(e) => Err(e@),
            Ok(nonce) => Ok(
                wrapped_slot(
                    SLOT_DEVICE,
                    DEVICE_KDF_ID,
                    KdfParams { m_cost: 0, t_cost: 0, p_cost: 0 },
                    salt@,
                    nonce@,
                    kek_of(device_key, salt@),
                    master_key,
                ),
            ),
        },
    }
}

/// Whether a result is `expected`, by its views.
pub open spec fn slot_is(r: Result<Slot, AppError>, expected: Result<SlotView, ErrorView>) -> bool {
    match r {
        Ok(slot) => expected == Ok::<SlotView, ErrorView>(slot@),
        Err(e) => expected == Err::<SlotView, ErrorView>(e@),
    }
}

/// Wraps `master_key` under a key derived from `password`. The salt and the
/// nonce are fresh; whatever they are, the same password unwraps the slot to
/// the same key.
pub fn wrap_password(password: &str, params: KdfParams, master_key: &MasterKey) -> (r: Result<Slot, AppError>)
    requires
        params.countable(),
    ensures
        match r {
            Ok(slot) => {
                &&& argon2_refusal(utf8(password@).len(), params) is None
                &&& slot.kind == SLOT_PASSWORD
                &&& slot.kdf_id == KDF_ARGON2ID
                &&& slot.kdf_params == params
                &&& unwrapped_by_password(slot@, password@) == Ok::<Seq<u8>, ErrorView>(master_key@)
            },
            Err(e) => e@ is Crypto || argon2_refusal(utf8(password@).len(), params) is Some && e@ == ErrorView::Kdf(
                argon2_refusal(utf8(password@).len(), params)->Some_0,
            ),
        },
{
    wrap_password_with(password, params, Draw::fresh(), master_key)
}

/// Wraps `master_key` under a key derived from `password`, with the salt and the
/// nonce that were drawn.
pub fn wrap_password_with(password: &str, params: KdfParams, draw: Draw, master_key: &MasterKey) -> (r: Result<
    Slot,
    AppError,
>)
    requires
        params.countable(),
    ensures
        slot_is(r, wrapped_by_password(password@, params, draw, master_key@)),
        r matches Ok(slot) ==> {
            &&& slot.kind == SLOT_PASSWORD
            &&& slot.kdf_id == KDF_ARGON2ID
            &&& slot.kdf_params == params
            &&& unwrapped_by_password(slot@, password@) == Ok::<Seq<u8>, ErrorView>(master_key@)
        },
{
    let salt: [u8; SALT_LEN] = match draw.salt {
        Ok(salt) => salt,
        Err(e) => return Err(e),
    };
    let kek = match derive_key(password, &salt, params) {
        Ok(kek) => kek,
        Err(e) => return Err(e),
    };
    let nonce: [u8; NONCE_LEN] = match draw.nonce {
        Ok(nonce) => nonce,
        Err(e) => return Err(e),
    };
    wrap_with_nonce(SLOT_PASSWORD, KDF_ARGON2ID, params, salt, nonce, &kek, master_key)
}

/// Unwraps the master key from a password slot. A wrong password is
/// `WrongPasswordOrCorrupt`.
pub fn unwrap_password(slot: &Slot, password: &str) -> (r: Result<MasterKey, AppError>)
    requires
        slot.kdf_id == KDF_ARGON2ID ==> slot.kdf_params.countable(),
    ensures
        key_is(r, unwrapped_by_password(slot@, password@)),
{
    if slot.kdf_id != KDF_ARGON2ID {
        return Err(AppError::CorruptFile(owned("password slot is not argon2id")));
    }
    match derive_key(password, &slot.salt, slot.kdf_params) {
        Ok(kek) => unwrap_under(slot, &kek),
        Err(e) => Err(e),
    }
}

/// The shared tail of every `wrap_*`: pick a nonce, encrypt the master key with
/// the slot's own descriptor as additional data, and assemble the slot. Only
/// the random source can fail.
pub fn wrap_under(
    kind: u8,
    kdf_id: u8,
    params: KdfParams,
    salt: [u8; SALT_LEN],
    kek: &SecretKey,
    master_key: &MasterKey,
) -> (r: Result<Slot, AppError>)
    ensures
        match r {
            Ok(slot) => {
                &&& slot@ == wrapped_slot(kind, kdf_id, params, salt@, slot.wrap_nonce@, kek@, master_key@)
                &&& unwrapped_under(slot@, kek@) == Ok::<Seq<u8>, ErrorView>(master_key@)
            },
            Err(e) => e@ is Crypto,
        },
{
    let wrap_nonce: [u8; NONCE_LEN] = match random_nonce() {
        Ok(nonce) => nonce,
        Err(e) => return Err(e),
    };
    wrap_with_nonce(kind, kdf_id, params, salt, wrap_nonce, kek, master_key)
}

/// Encrypts the master key under `kek` and this nonce and assembles the slot.
/// It always succeeds.
pub fn wrap_with_nonce(
    kind: u8,
    kdf_id: u8,
    params: KdfParams,
    salt: [u8; SALT_LEN],
    wrap_nonce: [u8; NONCE_LEN],
    kek: &SecretKey,
    master_key: &MasterKey,
) -> (r: Result<Slot, AppError>)
    ensures
        r matches Ok(slot) && {
            &&& slot@ == wrapped_slot(kind, kdf_id, params, salt@, wrap_nonce@, kek@, master_key@)
            &&& unwrapped_under(slot@, kek@) == Ok::<Seq<u8>, ErrorView>(master_key@)
        },
{
    // The descriptor is fully determined before the wrap, so the additional
    // data can be built from a slot whose wrapped key is still a placeholder.
    let bare = Slot { kind, kdf_id, kdf_params: params, salt, wrap_nonce, wrapped_mk: [0u8; 48] };
    let aad = slot_aad(&bare);
    let sealed: Vec<u8> = match encrypt(kek.as_bytes(), &wrap_nonce, &aad, master_key.as_bytes()) {
        Ok(sealed) => sealed,
        Err(e) => return Err(e),
    };
    if sealed.len() != WRAPPED_MK_LEN {
        return Err(AppError::Crypto(owned("wrapped master key has the wrong length")));
    }
    let wrapped_mk: [u8; WRAPPED_MK_LEN] = array_at::<WRAPPED_MK_LEN>(&sealed, 0);
    assert(wrapped_mk@ =~= sealed@);
    let slot = Slot { kind, kdf_id, kdf_params: params, salt, wrap_nonce, wrapped_mk };
    proof {
        let view = wrapped_slot(kind, kdf_id, params, salt@, wrap_nonce@, kek@, master_key@);
        assert(view.desc() == bare@.desc());
        assert(slot@.desc() == bare@.desc());
    }
    Ok(slot)
}

/// Unwraps a slot's copy of the master key under `kek`.
pub fn unwrap_under(slot: &Slot, kek: &SecretKey) -> (r: Result<MasterKey, AppError>)
    ensures
        key_is(r, unwrapped_under(slot@, kek@)),
{
    let aad = slot_aad(slot);
    let plain = match decrypt(kek.as_bytes(), &slot.wrap_nonce, &aad, &slot.wrapped_mk) {
        Ok(plain) => plain,
        Err(e) => return Err(e),
    };
    if plain.len() != MK_LEN {
        return Err(AppError::CorruptFile(owned("unwrapped master key has the wrong length")));
    }
    let master_key = SecretKey::new(array_at::<MK_LEN>(plain.as_slice(), 0));
    assert(master_key@ =~= plain@);
    Ok(master_key)
}

/// The place of the first slot of `kind`, or the number of slots.
pub open spec fn slot_index(slots: Seq<Slot>, kind: u8) -> int
    decreases slots.len(),
{
    if slots.len() == 0 || slots[0].kind == kind {
        0
    } else {
        1 + slot_index(slots.drop_first(), kind)
    }
}

/// Whether there is a slot of `kind`.
pub open spec fn has_slot(slots: Seq<Slot>, kind: u8) -> bool {
    slot_index(slots, kind) < slots.len()
}

proof fn lemma_slot_index(slots: Seq<Slot>, kind: u8, i: int)
    requires
        0 <= i <= slots.len(),
        forall|j: int| 0 <= j < i ==> (#[trigger] slots[j]).kind != kind,
        i < slots.len() ==> slots[i].kind == kind,
    ensures
        slot_index(slots, kind) == i,
    decreases slots.len(),
{
    if i > 0 {
        assert(slots[0].kind != kind);
        let rest = slots.drop_first();
        assert forall|j: int| 0 <= j < i - 1 implies (#[trigger] rest[j]).kind != kind by {
            assert(rest[j] == slots[j + 1]);
        }
        lemma_slot_index(rest, kind, i - 1);
    }
}

/// The first slot of `kind` among slots by their views.
pub open spec fn first_of_kind(slots: Seq<SlotView>, kind: u8) -> Option<SlotView>
    decreases slots.len(),
{
    if slots.len() == 0 {
        None
    } else if slots[0].kind == kind {
        Some(slots[0])
    } else {
        first_of_kind(slots.drop_first(), kind)
    }
}

/// Finding a slot and finding its view are the same.
proof fn lemma_first_of_kind(slots: Seq<Slot>, kind: u8)
    ensures
        first_of_kind(slot_views(slots), kind) == (if has_slot(slots, kind) {
            Some(slots[slot_index(slots, kind)]@)
        } else {
            None
        }),
    decreases slots.len(),
{
    if slots.len() > 0 && slots[0].kind != kind {
        let rest = slots.drop_first();
        lemma_first_of_kind(rest, kind);
        lemma_has_slot(rest, kind);
        assert(slot_views(slots).drop_first() =~= slot_views(rest));
    }
}

/// `has_slot` says that some slot has the kind.
pub proof fn lemma_has_slot(slots: Seq<Slot>, kind: u8)
    ensures
        has_slot(slots, kind) <==> exists|i: int| 0 <= i < slots.len() && (#[trigger] slots[i]).kind == kind,
        has_slot(slots, kind) ==> slots[slot_index(slots, kind)].kind == kind && 0 <= slot_index(slots, kind),
    decreases slots.len(),
{
    if slots.len() > 0 && slots[0].kind != kind {
        let rest = slots.drop_first();
        lemma_has_slot(rest, kind);
        if has_slot(rest, kind) {
            assert(slots[slot_index(rest, kind) + 1] == rest[slot_index(rest, kind)]);
        }
        if exists|i: int| 0 <= i < slots.len() && (#[trigger] slots[i]).kind == kind {
            let i = choose|i: int| 0 <= i < slots.len() && (#[trigger] slots[i]).kind == kind;
            assert(rest[i - 1] == slots[i]);
        }
    } else if slots.len() > 0 {
        assert(slots[0].kind == kind);
    }
}

/// The first slot of `kind`, if the vault has one.
pub fn find(slots: &[Slot], kind: u8) -> (r: Option<&Slot>)
    ensures
        match r {
            Some(slot) => {
                &&& has_slot(slots@, kind)
                &&& *slot == slots@[slot_index(slots@, kind)]
                &&& slot.kind == kind
                &&& first_of_kind(slot_views(slots@), kind) == Some(slot@)
            },
            None => !has_slot(slots@, kind) && first_of_kind(slot_views(slots@), kind) is None,
        },
{
    let mut i: usize = 0;
    while i < slots.len()
        invariant
            i <= slots@.len(),
            forall|j: int| 0 <= j < i ==> (#[trigger] slots@[j]).kind != kind,
        decreases slots@.len() - i,
    {
        if slots[i].kind == kind {
            proof {
                lemma_slot_index(slots@, kind, i as int);
                lemma_first_of_kind(slots@, kind);
            }
            return Some(&slots[i]);
        }
        i = i + 1;
    }
    proof {
        lemma_slot_index(slots@, kind, i as int);
        lemma_first_of_kind(slots@, kind);
    }
    None
}

/// Whether the vault has a slot of `kind`.
pub fn has(slots: &[Slot], kind: u8) -> (r: bool)
    ensures
        r == has_slot(slots@, kind),
{
    find(slots, kind).is_some()
}

/// The slots of `kind`, in order.
pub open spec fn of_kind(slots: Seq<Slot>, kind: u8) -> Seq<Slot> {
    slots.filter(|s: Slot| s.kind == kind)
}

/// Whether the slots stand in the order of their kinds.
pub open spec fn sorted_by_kind(slots: Seq<Slot>) -> bool {
    forall|i: int, j: int| 0 <= i < j < slots.len() ==> (#[trigger] slots[i]).kind <= (#[trigger] slots[j]).kind
}

proof fn lemma_of_kind_push(slots: Seq<Slot>, s: Slot, kind: u8)
    ensures
        of_kind(slots.push(s), kind) == of_kind(slots, kind) + (if s.kind == kind { seq![s] } else { Seq::empty() }),
{
    reveal(Seq::filter);
    assert(slots.push(s).drop_last() =~= slots);
    assert(of_kind(slots.push(s), kind) =~= of_kind(slots, kind) + (if s.kind == kind {
        seq![s]
    } else {
        Seq::empty()
    }));
}

proof fn lemma_of_kind_none(slots: Seq<Slot>, kind: u8)
    requires
        forall|i: int| 0 <= i < slots.len() ==> (#[trigger] slots[i]).kind != kind,
    ensures
        of_kind(slots, kind) == Seq::<Slot>::empty(),
    decreases slots.len(),
{
    reveal(Seq::filter);
    if slots.len() > 0 {
        let front = slots.drop_last();
        assert forall|i: int| 0 <= i < front.len() implies (#[trigger] front[i]).kind != kind by {
            assert(front[i] == slots[i]);
        }
        lemma_of_kind_none(front, kind);
        assert(slots.last() == slots[slots.len() - 1]);
    }
    assert(of_kind(slots, kind) =~= Seq::<Slot>::empty());
}

/// Inserting a slot behind every slot of a kind up to its own appends it to the
/// slots of its kind and leaves the others.
proof fn lemma_of_kind_insert(slots: Seq<Slot>, at: int, s: Slot, kind: u8)
    requires
        0 <= at <= slots.len(),
        forall|i: int| at <= i < slots.len() ==> (#[trigger] slots[i]).kind > s.kind,
    ensures
        of_kind(slots.insert(at, s), kind) == of_kind(slots, kind) + (if s.kind == kind {
            seq![s]
        } else {
            Seq::empty()
        }),
{
    let front = slots.take(at);
    let back = slots.skip(at);
    let pred = |x: Slot| x.kind == kind;
    assert(slots =~= front + back);
    assert(slots.insert(at, s) =~= front.push(s) + back);
    Seq::filter_distributes_over_add(front, back, pred);
    Seq::filter_distributes_over_add(front.push(s), back, pred);
    lemma_of_kind_push(front, s, kind);
    if s.kind == kind {
        assert forall|i: int| 0 <= i < back.len() implies (#[trigger] back[i]).kind != kind by {
            assert(back[i] == slots[at + i]);
        }
        lemma_of_kind_none(back, kind);
    }
    assert(of_kind(slots.insert(at, s), kind) =~= of_kind(slots, kind) + (if s.kind == kind {
        seq![s]
    } else {
        Seq::empty()
    }));
}

/// Inserts `slot` behind every slot of a kind up to its own.
fn insert_sorted(slots: &mut Vec<Slot>, slot: Slot)
    requires
        sorted_by_kind(old(slots)@),
    ensures
        sorted_by_kind(final(slots)@),
        forall|k: u8|
            #[trigger] of_kind(final(slots)@, k) == of_kind(old(slots)@, k) + (if slot.kind == k {
                seq![slot]
            } else {
                Seq::empty()
            }),
{
    let mut at: usize = slots.len();
    while at > 0 && slots[at - 1].kind > slot.kind
        invariant
            at <= slots@.len(),
            sorted_by_kind(slots@),
            forall|i: int| at <= i < slots@.len() ==> (#[trigger] slots@[i]).kind > slot.kind,
        decreases at,
    {
        at = at - 1;
    }
    slots.insert(at, slot);
    proof {
        assert forall|k: u8| #[trigger] of_kind(slots@, k) == of_kind(old(slots)@, k) + (if slot.kind == k {
            seq![slot]
        } else {
            Seq::empty()
        }) by {
            lemma_of_kind_insert(old(slots)@, at as int, slot, k);
        }
        let before = old(slots)@;
        let now = slots@;
        assert forall|i: int, j: int| 0 <= i < j < now.len() implies (#[trigger] now[i]).kind <= (#[trigger] now[j]).kind by {
            let a = if i < at { i } else { i - 1 };
            let b = if j < at { j } else { j - 1 };
            if i != at {
                assert(now[i] == before[a]);
            }
            if j != at {
                assert(now[j] == before[b]);
            }
            if i == at {
                assert(before[b].kind > slot.kind);
            } else if j == at {
                assert(at > 0);
                assert(before[at - 1].kind <= slot.kind);
                assert(i < at);
                assert(before[a].kind <= before[at - 1].kind || a == at - 1);
            } else {
                assert(a < b);
            }
        }
    }
}

/// What `replace` keeps of a kind, and what it adds.
pub open spec fn replaced(before: Seq<Slot>, kind: u8, replacement: Slot, k: u8) -> Seq<Slot> {
    (if k == kind {
        Seq::empty()
    } else {
        of_kind(before, k)
    }) + (if replacement.kind == k {
        seq![replacement]
    } else {
        Seq::empty()
    })
}

/// Replaces every slot of `kind` with `replacement`, or appends it if the vault
/// has none. The slots come to stand in the order of their kinds, those of one
/// kind as they stood, so that the header does not churn between saves.
pub fn replace(slots: &mut Vec<Slot>, kind: u8, replacement: Slot)
    ensures
        sorted_by_kind(final(slots)@),
        forall|k: u8| #[trigger] of_kind(final(slots)@, k) == replaced(old(slots)@, kind, replacement, k),
{
    let mut kept: Vec<Slot> = Vec::new();
    let mut i: usize = 0;
    let ghost before = slots@;
    proof {
        assert forall|k: u8| #[trigger] of_kind(kept@, k) == (if k == kind {
            Seq::empty()
        } else {
            of_kind(before.take(0), k)
        }) by {
            lemma_of_kind_none(kept@, k);
            lemma_of_kind_none(before.take(0), k);
        }
    }
    while i < slots.len()
        invariant
            i <= slots@.len(),
            slots@ == before,
            sorted_by_kind(kept@),
            forall|k: u8|
                #[trigger] of_kind(kept@, k) == (if k == kind {
                    Seq::empty()
                } else {
                    of_kind(before.take(i as int), k)
                }),
        decreases slots@.len() - i,
    {
        let ghost kept_before = kept@;
        let slot: Slot = slots[i];
        proof {
            assert(before.take(i + 1) =~= before.take(i as int).push(slot));
        }
        if slot.kind != kind {
            insert_sorted(&mut kept, slot);
        }
        proof {
            assert forall|k: u8| #[trigger] of_kind(kept@, k) == (if k == kind {
                Seq::empty()
            } else {
                of_kind(before.take(i + 1), k)
            }) by {
                lemma_of_kind_push(before.take(i as int), slot, k);
                assert(of_kind(kept_before, k) == (if k == kind {
                    Seq::empty()
                } else {
                    of_kind(before.take(i as int), k)
                }));
                assert(of_kind(kept@, k) =~= (if k == kind {
                    Seq::empty()
                } else {
                    of_kind(before.take(i + 1), k)
                }));
            }
        }
        i = i + 1;
    }
    insert_sorted(&mut kept, replacement);
    assert(before.take(before.len() as int) =~= before);
    *slots = kept;
}

/// After a replacement the vault has exactly one slot of the replaced kind, and
/// the slots of every other kind are untouched.
pub proof fn replace_leaves_the_other_kinds(before: Seq<Slot>, after: Seq<Slot>, replacement: Slot, other: u8)
    requires
        forall|k: u8| #[trigger] of_kind(after, k) == replaced(before, replacement.kind, replacement, k),
        other != replacement.kind,
    ensures
        of_kind(after, replacement.kind) == seq![replacement],
        of_kind(after, other) == of_kind(before, other),
{
    assert(of_kind(after, replacement.kind) =~= seq![replacement]);
    assert(of_kind(after, other) =~= of_kind(before, other));
}

/// Wraps `master_key` under this device's key. The salt and the nonce are
/// fresh; whatever they are, the same device key unwraps the slot to the same
/// key. Only the random source can fail.
pub fn wrap_device(device_key: &SecretKey, master_key: &MasterKey) -> (r: Result<Slot, AppError>)
    ensures
        match r {
            Ok(slot) => {
                &&& slot.kind == SLOT_DEVICE
                &&& slot.kdf_id == DEVICE_KDF_ID
                &&& slot.kdf_params == (KdfParams { m_cost: 0, t_cost: 0, p_cost: 0 })
                &&& unwrapped_by_device(slot@, device_key@) == Ok::<Seq<u8>, ErrorView>(master_key@)
            },
            Err(e) => e@ is Crypto,
        },
{
    wrap_device_with(device_key, Draw::fresh(), master_key)
}

/// Wraps `master_key` under this device's key, with the salt and the nonce that
/// were drawn.
pub fn wrap_device_with(device_key: &SecretKey, draw: Draw, master_key: &MasterKey) -> (r: Result<Slot, AppError>)
    ensures
        slot_is(r, wrapped_by_device(device_key@, draw, master_key@)),
        r matches Ok(slot) ==> {
            &&& slot.kind == SLOT_DEVICE
            &&& slot.kdf_id == DEVICE_KDF_ID
            &&& slot.kdf_params == (KdfParams { m_cost: 0, t_cost: 0, p_cost: 0 })
            &&& unwrapped_by_device(slot@, device_key@) == Ok::<Seq<u8>, ErrorView>(master_key@)
        },
{
    let salt: [u8; SALT_LEN] = match draw.salt {
        Ok(salt) => salt,
        Err(e) => return Err(e),
    };
    let kek = match device_kek(device_key.as_bytes(), &salt) {
        Ok(kek) => kek,
        Err(e) => return Err(e),
    };
    let nonce: [u8; NONCE_LEN] = match draw.nonce {
        Ok(nonce) => nonce,
        Err(e) => return Err(e),
    };
    wrap_with_nonce(SLOT_DEVICE, DEVICE_KDF_ID, KdfParams::none(), salt, nonce, &kek, master_key)
}

/// Unwraps the master key from a device slot.
pub fn unwrap_device(slot: &Slot, device_key: &SecretKey) -> (r: Result<MasterKey, AppError>)
    ensures
        key_is(r, unwrapped_by_device(slot@, device_key@)),
{
    if slot.kdf_id != DEVICE_KDF_ID {
        return Err(AppError::CorruptFile(owned("device slot is not hkdf-sha256")));
    }
    match device_kek(device_key.as_bytes(), &slot.salt) {
        Ok(kek) => unwrap_under(slot, &kek),
        Err(e) => Err(e),
    }
}

/// A slot that wraps a master key under a password, and under whose key the
/// cipher opens what it sealed, unwraps with the same password to the same key.
/// Under another kdf id the slot is refused as corrupt, whatever the password.
/// With another password, or with another kind or salt, it either authenticates
/// or is `WrongPasswordOrCorrupt`: there is no third outcome.
pub proof fn a_wrapped_key_unwraps_with_its_password(
    password: Seq<char>,
    params: KdfParams,
    draw: Draw,
    master_key: Seq<u8>,
    slot: SlotView,
    kdf_id: u8,
    kind: u8,
    salt: Seq<u8>,
    other: Seq<char>,
)
    requires
        wrapped_by_password(password, params, draw, master_key) == Ok::<SlotView, ErrorView>(slot),
        derived_key(utf8(password), slot.salt, params) matches Ok(kek) && unwrapped_under(slot, kek) == Ok::<
            Seq<u8>,
            ErrorView,
        >(master_key),
        utf8(other).len() <= u32::MAX,
    ensures
        unwrapped_by_password(slot, password) == Ok::<Seq<u8>, ErrorView>(master_key),
        kdf_id != KDF_ARGON2ID ==> unwrapped_by_password(SlotView { kdf_id, ..slot }, other) == Err::<
            Seq<u8>,
            ErrorView,
        >(ErrorView::CorruptFile("password slot is not argon2id"@)),
        unwrapped_by_password(SlotView { kind, salt, ..slot }, other) matches Err(e) ==> e
            == ErrorView::WrongPasswordOrCorrupt,
{
}

/// Whether the cost of every password slot can be counted, as it can in every
/// vault that was decoded.
pub open spec fn all_countable(slots: Seq<Slot>) -> bool {
    forall|i: int| 0 <= i < slots.len() ==> (#[trigger] slots[i]).kdf_id == KDF_ARGON2ID ==> slots[i].kdf_params.countable()
}

/// A copy of the slots.
pub fn copy_slots(slots: &Vec<Slot>) -> (r: Vec<Slot>)
    ensures
        r@ == slots@,
{
    let mut out: Vec<Slot> = Vec::new();
    let mut i: usize = 0;
    while i < slots.len()
        invariant
            i <= slots@.len(),
            out@ == slots@.take(i as int),
        decreases slots@.len() - i,
    {
        out.push(slots[i]);
        i = i + 1;
        assert(slots@.take(i as int) =~= slots@.take(i - 1).push(slots@[i - 1]));
    }
    assert(slots@.take(slots@.len() as int) =~= slots@);
    out
}

/// What a replacement holds, it holds of the slots before it and of the
/// replacement.
pub proof fn lemma_replaced_countable(before: Seq<Slot>, after: Seq<Slot>, kind: u8, replacement: Slot)
    requires
        all_countable(before),
        replacement.kdf_id == KDF_ARGON2ID ==> replacement.kdf_params.countable(),
        forall|k: u8| #[trigger] of_kind(after, k) == replaced(before, kind, replacement, k),
    ensures
        all_countable(after),
{
    assert forall|i: int| 0 <= i < after.len() implies (#[trigger] after[i]).kdf_id == KDF_ARGON2ID
        ==> after[i].kdf_params.countable() by {
        let slot = after[i];
        let k = slot.kind;
        let pred = |s: Slot| s.kind == k;
        after.lemma_filter_contains(pred, i);
        let all = of_kind(after, k);
        assert(all.contains(slot));
        let j = choose|j: int| 0 <= j < all.len() && all[j] == slot;
        let front: Seq<Slot> = if k == kind {
            Seq::empty()
        } else {
            of_kind(before, k)
        };
        if j < front.len() {
            lemma_of_kind_from(before, k, j);
            let m = choose|m: int| 0 <= m < before.len() && before[m] == of_kind(before, k)[j];
            assert(before[m] == slot);
        } else {
            assert(slot == replacement);
        }
    }
}

proof fn lemma_of_kind_from(slots: Seq<Slot>, kind: u8, j: int)
    requires
        0 <= j < of_kind(slots, kind).len(),
    ensures
        exists|m: int| 0 <= m < slots.len() && slots[m] == of_kind(slots, kind)[j],
    decreases slots.len(),
{
    reveal(Seq::filter);
    let front = slots.drop_last();
    if slots.len() > 0 {
        if j < of_kind(front, kind).len() {
            lemma_of_kind_from(front, kind, j);
            let m = choose|m: int| 0 <= m < front.len() && front[m] == of_kind(front, kind)[j];
            assert(slots[m] == of_kind(slots, kind)[j]);
        } else {
            assert(slots[slots.len() - 1] == of_kind(slots, kind)[j]);
        }
    }
}

/// A password unwraps a slot exactly where the key that Argon2id derives from it,
/// with the salt and the costs of the slot, opens the wrapped key under the slot's
/// nonce and its whole descriptor. A device key does so through HKDF.
pub proof fn a_slot_is_unwrapped_under_its_descriptor(
    slot: SlotView,
    password: Seq<char>,
    device_key: Seq<u8>,
    master_key: Seq<u8>,
)
    ensures
        unwrapped_by_password(slot, password) == Ok::<Seq<u8>, ErrorView>(master_key) <==> slot.kdf_id == 1
            && argon2_refusal(utf8(password).len(), slot.kdf_params) is None && gcm_open(
            argon2id(
                utf8(password),
                slot.salt,
                slot.kdf_params.m_cost,
                slot.kdf_params.t_cost,
                slot.kdf_params.p_cost,
            ),
            slot.wrap_nonce,
            slot.desc(),
            slot.wrapped_mk,
        ) == Some(master_key),
        unwrapped_by_device(slot, device_key) == Ok::<Seq<u8>, ErrorView>(master_key) <==> slot.kdf_id == 2 && gcm_open(
            kek_of(device_key, slot.salt),
            slot.wrap_nonce,
            slot.desc(),
            slot.wrapped_mk,
        ) == Some(master_key),
{
}

/// A slot that is made holds the salt and the nonce that were drawn and the costs
/// it was asked for, and its key is sealed under the very descriptor it is written
/// with.
pub proof fn a_made_slot_holds_what_was_drawn(
    password: Seq<char>,
    params: KdfParams,
    device_key: Seq<u8>,
    draw: Draw,
    master_key: Seq<u8>,
)
    ensures
        wrapped_by_password(password, params, draw, master_key) matches Ok(slot) ==> {
            &&& slot.kind == 1 && slot.kdf_id == 1 && slot.kdf_params == params
            &&& draw.salt matches Ok(salt) && slot.salt == salt@
            &&& draw.nonce matches Ok(nonce) && slot.wrap_nonce == nonce@
            &&& slot.wrapped_mk == gcm_seal(
                argon2id(utf8(password), slot.salt, params.m_cost, params.t_cost, params.p_cost),
                slot.wrap_nonce,
                slot.desc(),
                master_key,
            )
        },
        wrapped_by_device(device_key, draw, master_key) matches Ok(slot) ==> {
            &&& slot.kind == 2 && slot.kdf_id == 2
            &&& draw.salt matches Ok(salt) && slot.salt == salt@
            &&& draw.nonce matches Ok(nonce) && slot.wrap_nonce == nonce@
            &&& slot.wrapped_mk == gcm_seal(kek_of(device_key, slot.salt), slot.wrap_nonce, slot.desc(), master_key)
        },
        draw.salt is Ok && draw.nonce is Ok ==> wrapped_by_device(device_key, draw, master_key) is Ok,
        draw.salt is Ok && draw.nonce is Ok && argon2_refusal(utf8(password).len(), params) is None
            ==> wrapped_by_password(password, params, draw, master_key) is Ok,
{
}

} // verus!
