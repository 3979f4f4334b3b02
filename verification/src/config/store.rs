//! Opening and sealing the vault: what stands between the file's bytes and the
//! decrypted config.
use vstd::prelude::*;

use crate::config::format::{
    decode_any, decoded_any, encode, file_bytes, first_kdf_error, header_aad, header_aad_v1, header_bytes,
    header_v1_bytes, kdf_error, slot_views, encoded_file_decodes, all_sized, AnyEnvelope, AnyView, Envelope, EnvelopeV1,
    EnvelopeV1View, EnvelopeView, Slot, SlotView, ends_before_slot_count, KDF_ARGON2ID, MAX_SLOTS, SLOT_DEVICE,
    SLOT_PASSWORD,
};
use crate::config::keyslot::{
    all_countable, find, first_of_kind, has_slot, unwrap_device, unwrap_password, unwrapped_by_device,
    unwrapped_by_password, wrap_password_with, wrapped_by_password, Draw, MasterKey,
};
use crate::config::model::{
    uuid_string, uuid_text, Config, ConnectMode, ServerSort, Uuid, CURRENT_SCHEMA_VERSION, DEFAULT_AUTO_LOCK_MINUTES,
};
use crate::crypto::cipher::{
    decrypt, encrypt, gcm_open, gcm_seal, gcm_takes, random_master_key, random_nonce, NONCE_LEN, TAG_LEN,
};
use crate::crypto::kdf::{derive_key, derived_key, KdfParams};
use crate::crypto::wiped::{SecretBytes, SecretKey};
use crate::error::{AppError, ErrorView};
use crate::text::{chars_of, owned, text_of, trim, trimmed, utf8};

verus! {

/// Which unlock methods a vault carries, read from the header without opening
/// it.
#[derive(Clone, Copy, PartialEq, Eq, Debug, Structural)]
pub enum VaultShape {
    /// A password slot only.
    Password,
    /// A device slot only: opened with no user input at all.
    Device,
    /// Both: a code against device-bound state day to day, with the password as
    /// the escalation path.
    DeviceAndPassword,
}

/// An open vault. `slots` travels with the key because every save rewrites the
/// whole envelope: dropping them would lock the user out of every unlock method
/// the current screen did not happen to use.
pub struct Unlocked {
    pub config: Config,
    pub master_key: MasterKey,
    pub slots: Vec<Slot>,
}

/// An open vault whose config is still the bytes it is stored as.
pub struct Opened {
    pub plaintext: SecretBytes,
    pub master_key: MasterKey,
    pub slots: Vec<Slot>,
    /// Whether the file was of the first layout, so that the vault is to be
    /// written again, under the new master key and slots.
    pub upgraded: bool,
}

/// An `Opened` by its views.
#[verifier::ext_equal]
pub struct OpenedView {
    pub plaintext: Seq<u8>,
    pub master_key: Seq<u8>,
    pub slots: Seq<SlotView>,
    pub upgraded: bool,
}

impl View for Opened {
    type V = OpenedView;

    open spec fn view(&self) -> OpenedView {
        OpenedView {
            plaintext: self.plaintext@,
            master_key: self.master_key@,
            slots: slot_views(self.slots@),
            upgraded: self.upgraded,
        }
    }
}

/// The shape of a vault with these slots.
pub open spec fn shape(slots: Seq<Slot>) -> VaultShape {
    if has_slot(slots, SLOT_DEVICE) {
        if has_slot(slots, SLOT_PASSWORD) {
            VaultShape::DeviceAndPassword
        } else {
            VaultShape::Device
        }
    } else {
        VaultShape::Password
    }
}

/// The shape of a vault by the views of its slots.
pub open spec fn shape_by_view(slots: Seq<SlotView>) -> VaultShape {
    if first_of_kind(slots, SLOT_DEVICE) is Some {
        if first_of_kind(slots, SLOT_PASSWORD) is Some {
            VaultShape::DeviceAndPassword
        } else {
            VaultShape::Device
        }
    } else {
        VaultShape::Password
    }
}

/// Which unlock methods these slots offer. A vault with neither cannot be
/// written, so no device slot means password.
pub fn shape_of(slots: &[Slot]) -> (r: VaultShape)
    ensures
        r == shape(slots@),
        r == shape_by_view(slot_views(slots@)),
{
    let password = find(slots, SLOT_PASSWORD).is_some();
    let device = find(slots, SLOT_DEVICE).is_some();
    if password && device {
        VaultShape::DeviceAndPassword
    } else if device {
        VaultShape::Device
    } else {
        VaultShape::Password
    }
}

/// Which unlock methods a vault file carries, without opening it. A file of the
/// first layout was always password-keyed.
pub fn peek_shape(bytes: &[u8]) -> (r: Result<VaultShape, AppError>)
    requires
        !ends_before_slot_count(bytes@),
    ensures
        match decoded_any(bytes@) {
            Ok(AnyView::V1(_)) => r == Ok::<VaultShape, AppError>(VaultShape::Password),
            Ok(AnyView::V2(e)) => r == Ok::<VaultShape, AppError>(shape_by_view(e.slots)),
            Err(x) => r matches Err(e) && e@ == x,
        },
{
    match decode_any(bytes) {
        Ok(AnyEnvelope::V1(_)) => Ok(VaultShape::Password),
        Ok(AnyEnvelope::V2(envelope)) => Ok(shape_of(&envelope.slots)),
        Err(e) => Err(e),
    }
}

/// The body of a vault: what its ciphertext opens to under the master key.
pub open spec fn body(e: EnvelopeView, master_key: Seq<u8>) -> Result<Seq<u8>, ErrorView> {
    match gcm_open(master_key, e.nonce, header_bytes(e.slots), e.ciphertext) {
        Some(plaintext) => Ok(plaintext),
        None => Err(ErrorView::WrongPasswordOrCorrupt),
    }
}

/// The open vault, once its master key is known.
pub open spec fn opened_under(e: EnvelopeView, key: Result<Seq<u8>, ErrorView>) -> Result<OpenedView, ErrorView> {
    match key {
        Ok(master_key) => match body(e, master_key) {
            Ok(plaintext) => Ok(OpenedView { plaintext, master_key, slots: e.slots, upgraded: false }),
            Err(x) => Err(x),
        },
        Err(x) => Err(x),
    }
}

/// What opening a file of the current layout with a password gives.
pub open spec fn opened_by_password(e: EnvelopeView, password: Seq<char>) -> Result<OpenedView, ErrorView> {
    match first_of_kind(e.slots, SLOT_PASSWORD) {
        Some(slot) => opened_under(e, unwrapped_by_password(slot, password)),
        None => Err(ErrorView::WrongPasswordOrCorrupt),
    }
}

/// What opening a file of the current layout with a device key gives.
pub open spec fn opened_by_device(e: EnvelopeView, device_key: Seq<u8>) -> Result<OpenedView, ErrorView> {
    match first_of_kind(e.slots, SLOT_DEVICE) {
        Some(slot) => opened_under(e, unwrapped_by_device(slot, device_key)),
        None => Err(ErrorView::WrongPasswordOrCorrupt),
    }
}

/// The body of a file of the first layout, whose key is the password's own.
pub open spec fn body_v1(e: EnvelopeV1View, password: Seq<char>) -> Result<Seq<u8>, ErrorView> {
    match derived_key(utf8(password), e.salt, e.kdf_params) {
        Ok(key) => match gcm_open(key, e.nonce, header_v1_bytes(e), e.ciphertext) {
            Some(plaintext) => Ok(plaintext),
            None => Err(ErrorView::WrongPasswordOrCorrupt),
        },
        Err(x) => Err(x),
    }
}

/// Whether a result is `expected`, by its views.
pub open spec fn opened_is(r: Result<Opened, AppError>, expected: Result<OpenedView, ErrorView>) -> bool {
    match r {
        Ok(o) => expected == Ok::<OpenedView, ErrorView>(o@),
        Err(e) => expected == Err::<OpenedView, ErrorView>(e@),
    }
}

/// Decrypts the body under the master key, with the header as additional data.
fn decrypt_body(envelope: &Envelope, master_key: &MasterKey) -> (r: Result<SecretBytes, AppError>)
    ensures
        match r {
            Ok(plaintext) => body(envelope@, master_key@) == Ok::<Seq<u8>, ErrorView>(plaintext@),
            Err(e) => body(envelope@, master_key@) == Err::<Seq<u8>, ErrorView>(e@),
        },
{
    let aad = header_aad(&envelope.slots);
    decrypt(master_key.as_bytes(), &envelope.nonce, &aad, &envelope.ciphertext)
}

/// A slot that stands in a decoded file has been checked.
proof fn lemma_checked(slots: Seq<SlotView>, i: int)
    requires
        first_kdf_error(slots) is None,
        0 <= i < slots.len(),
    ensures
        kdf_error(slots[i].kdf_id, slots[i].kdf_params) is None,
    decreases slots.len(),
{
    if i < slots.len() - 1 {
        lemma_checked(slots.drop_last(), i);
    }
}

/// The costs of the slots of a decoded file can be counted.
proof fn lemma_all_checked(slots: Seq<Slot>)
    requires
        first_kdf_error(slot_views(slots)) is None,
    ensures
        all_countable(slots),
{
    assert forall|i: int|
        0 <= i < slots.len() && (#[trigger] slots[i]).kdf_id == KDF_ARGON2ID implies slots[i].kdf_params.countable() by {
        assert(slot_views(slots)[i] == slots[i]@);
        lemma_checked(slot_views(slots), i);
    }
}

proof fn lemma_first_checked(slots: Seq<SlotView>, kind: u8)
    requires
        first_kdf_error(slots) is None,
    ensures
        first_of_kind(slots, kind) matches Some(s) ==> kdf_error(s.kdf_id, s.kdf_params) is None,
{
    lemma_first_is_one(slots, kind);
    if let Some(s) = first_of_kind(slots, kind) {
        let i = choose|i: int| 0 <= i < slots.len() && slots[i] == s;
        lemma_checked(slots, i);
    }
}

proof fn lemma_first_is_one(slots: Seq<SlotView>, kind: u8)
    ensures
        first_of_kind(slots, kind) matches Some(s) ==> exists|i: int| 0 <= i < slots.len() && slots[i] == s,
    decreases slots.len(),
{
    if slots.len() > 0 && slots[0].kind != kind {
        lemma_first_is_one(slots.drop_first(), kind);
        if let Some(s) = first_of_kind(slots.drop_first(), kind) {
            let i = choose|i: int| 0 <= i < slots.drop_first().len() && slots.drop_first()[i] == s;
            assert(slots[i + 1] == s);
        }
    } else if slots.len() > 0 {
        assert(slots[0] == slots[0]);
    }
}

/// Opens a vault file with the password. A file of the first layout comes back
/// with a fresh master key in one password slot, at the cost it was written
/// with, and is to be written again.
pub fn load(bytes: &[u8], password: &str) -> (r: Result<Opened, AppError>)
    requires
        !ends_before_slot_count(bytes@),
    ensures
        match decoded_any(bytes@) {
            Ok(AnyView::V2(e)) => opened_is(r, opened_by_password(e, password@)),
            Ok(AnyView::V1(e)) => upgraded_from(r, e, password@),
            Err(x) => r matches Err(e) && e@ == x,
        },
        r matches Ok(o) ==> all_countable(o.slots@),
{
    match decode_any(bytes) {
        Ok(AnyEnvelope::V2(envelope)) => {
            let slot: Slot = match find(&envelope.slots, SLOT_PASSWORD) {
                Some(slot) => *slot,
                None => return Err(AppError::WrongPasswordOrCorrupt),
            };
            proof {
                lemma_first_checked(slot_views(envelope.slots@), SLOT_PASSWORD);
                lemma_all_checked(envelope.slots@);
            }
            match unwrap_password(&slot, password) {
                Ok(master_key) => finish_opening(envelope, master_key),
                Err(e) => Err(e),
            }
        },
        Ok(AnyEnvelope::V1(v1)) => upgrade_v1_with(&v1, password, random_master_key(), Draw::fresh()),
        Err(e) => Err(e),
    }
}

/// Opens a vault through its device slot. A file of the first layout has none.
pub fn load_with_device(bytes: &[u8], device_key: &SecretKey) -> (r: Result<Opened, AppError>)
    requires
        !ends_before_slot_count(bytes@),
    ensures
        match decoded_any(bytes@) {
            Ok(AnyView::V2(e)) => opened_is(r, opened_by_device(e, device_key@)),
            Ok(AnyView::V1(_)) => r matches Err(e) && e@ == ErrorView::WrongPasswordOrCorrupt,
            Err(x) => r matches Err(e) && e@ == x,
        },
        r matches Ok(o) ==> all_countable(o.slots@),
{
    match decode_any(bytes) {
        Ok(AnyEnvelope::V2(envelope)) => {
            let slot: Slot = match find(&envelope.slots, SLOT_DEVICE) {
                Some(slot) => *slot,
                None => return Err(AppError::WrongPasswordOrCorrupt),
            };
            proof {
                lemma_all_checked(envelope.slots@);
            }
            match unwrap_device(&slot, device_key) {
                Ok(master_key) => finish_opening(envelope, master_key),
                Err(e) => Err(e),
            }
        },
        Ok(AnyEnvelope::V1(_)) => Err(AppError::WrongPasswordOrCorrupt),
        Err(e) => Err(e),
    }
}

/// Decrypts the body under the unwrapped master key.
fn finish_opening(envelope: Envelope, master_key: MasterKey) -> (r: Result<Opened, AppError>)
    ensures
        opened_is(r, opened_under(envelope@, Ok(master_key@))),
        r matches Ok(o) ==> o.slots == envelope.slots,
{
    match decrypt_body(&envelope, &master_key) {
        Ok(plaintext) => Ok(Opened { plaintext, master_key, slots: envelope.slots, upgraded: false }),
        Err(e) => Err(e),
    }
}

/// Whether a result is what opening a file of the first layout gives: its body,
/// and a master key in one password slot that the password opens. Where the
/// body cannot be read that is the error; else only the random source can fail.
pub open spec fn upgraded_from(r: Result<Opened, AppError>, e: EnvelopeV1View, password: Seq<char>) -> bool {
    match body_v1(e, password) {
        Ok(plaintext) => match r {
            Ok(o) => {
                &&& o.upgraded
                &&& o.plaintext@ == plaintext
                &&& o.slots@.len() == 1
                &&& o.slots@[0].kind == SLOT_PASSWORD
                &&& o.slots@[0].kdf_id == KDF_ARGON2ID
                &&& o.slots@[0].kdf_params == e.kdf_params
                &&& unwrapped_by_password(o.slots@[0]@, password) == Ok::<Seq<u8>, ErrorView>(o.master_key@)
            },
            Err(x) => x@ is Crypto,
        },
        Err(x) => match r {
            Ok(_) => false,
            Err(y) => y@ == x,
        },
    }
}

/// What opening a file of the first layout gives, for what was drawn.
pub open spec fn opened_v1(
    e: EnvelopeV1View,
    password: Seq<char>,
    key: Result<MasterKey, AppError>,
    draw: Draw,
) -> Result<OpenedView, ErrorView> {
    match body_v1(e, password) {
        Err(x) => Err(x),
        Ok(plaintext) => match key {
            Err(x) => Err(x@),
            Ok(master_key) => match wrapped_by_password(password, e.kdf_params, draw, master_key@) {
                Err(x) => Err(x),
                Ok(slot) => Ok(
                    OpenedView { plaintext, master_key: master_key@, slots: seq![slot], upgraded: true },
                ),
            },
        },
    }
}

/// Converts a vault of the first layout, whose Argon2id output was the vault
/// key, into one with the drawn master key and a password slot. It keeps the
/// cost parameters it was written with.
pub fn upgrade_v1_with(v1: &EnvelopeV1, password: &str, key: Result<MasterKey, AppError>, draw: Draw) -> (r: Result<
    Opened,
    AppError,
>)
    requires
        v1.kdf_params.countable(),
    ensures
        opened_is(r, opened_v1(v1@, password@, key, draw)),
        draw.honest() && (key matches Err(e) ==> e@ is Crypto) ==> upgraded_from(r, v1@, password@),
        r matches Ok(o) ==> all_countable(o.slots@),
{
    let plaintext = {
        let old_key = match derive_key(password, &v1.salt, v1.kdf_params) {
            Ok(key) => key,
            Err(e) => return Err(e),
        };
        let aad = header_aad_v1(v1);
        match decrypt(old_key.as_bytes(), &v1.nonce, &aad, &v1.ciphertext) {
            Ok(plaintext) => plaintext,
            Err(e) => return Err(e),
        }
    };
    let master_key = match key {
        Ok(key) => key,
        Err(e) => return Err(e),
    };
    let slot: Slot = match wrap_password_with(password, v1.kdf_params, draw, &master_key) {
        Ok(slot) => slot,
        Err(e) => return Err(e),
    };
    let mut slots: Vec<Slot> = Vec::new();
    slots.push(slot);
    assert(slot_views(slots@) =~= seq![slot@]);
    Ok(Opened { plaintext, master_key, slots, upgraded: true })
}

/// The vault file that holds `plaintext` under these slots, key and nonce.
pub open spec fn sealed_file(plaintext: Seq<u8>, master_key: Seq<u8>, slots: Seq<SlotView>, nonce: Seq<u8>) -> Seq<u8> {
    file_bytes(slots, nonce, gcm_seal(master_key, nonce, header_bytes(slots), plaintext))
}

/// Encrypts the stored form of a config under the master key, with a fresh
/// nonce, and encodes the whole file. A vault with no slots is refused: nothing
/// could ever open it.
pub fn seal(plaintext: &[u8], master_key: &MasterKey, slots: &[Slot]) -> (r: Result<Vec<u8>, AppError>)
    ensures
        match r {
            Ok(bytes) => slots@.len() > 0 && exists|nonce: Seq<u8>|
                nonce.len() == NONCE_LEN && bytes@ == #[trigger] sealed_file(
                    plaintext@,
                    master_key@,
                    slot_views(slots@),
                    nonce,
                ) && gcm_open(master_key@, nonce, header_bytes(slot_views(slots@)), gcm_seal(
                    master_key@,
                    nonce,
                    header_bytes(slot_views(slots@)),
                    plaintext@,
                )) == Some(plaintext@),
            Err(e) => if slots@.len() == 0 {
                e@ == ErrorView::Crypto("refusing to write a vault with no key slots"@)
            } else {
                e@ is Crypto
            },
        },
{
    if slots.len() == 0 {
        return Err(AppError::Crypto(owned("refusing to write a vault with no key slots")));
    }
    let nonce: [u8; NONCE_LEN] = match random_nonce() {
        Ok(nonce) => nonce,
        Err(e) => return Err(e),
    };
    seal_with_nonce(plaintext, master_key, slots, &nonce)
}

/// Encrypts and encodes a vault file with this nonce.
pub fn seal_with_nonce(plaintext: &[u8], master_key: &MasterKey, slots: &[Slot], nonce: &[u8; NONCE_LEN]) -> (r: Result<
    Vec<u8>,
    AppError,
>)
    ensures
        match r {
            Ok(bytes) => {
                &&& slots@.len() > 0
                &&& gcm_takes(header_bytes(slot_views(slots@)).len(), plaintext@.len())
                &&& bytes@ == sealed_file(plaintext@, master_key@, slot_views(slots@), nonce@)
                &&& gcm_seal(master_key@, nonce@, header_bytes(slot_views(slots@)), plaintext@).len()
                    == plaintext@.len() + TAG_LEN
                &&& gcm_open(
                    master_key@,
                    nonce@,
                    header_bytes(slot_views(slots@)),
                    gcm_seal(master_key@, nonce@, header_bytes(slot_views(slots@)), plaintext@),
                ) == Some(plaintext@)
            },
            Err(e) => if slots@.len() == 0 {
                e@ == ErrorView::Crypto("refusing to write a vault with no key slots"@)
            } else {
                !gcm_takes(header_bytes(slot_views(slots@)).len(), plaintext@.len()) && e@ == ErrorView::Crypto(
                    "aead::Error"@,
                )
            },
        },
{
    if slots.len() == 0 {
        return Err(AppError::Crypto(owned("refusing to write a vault with no key slots")));
    }
    let aad = header_aad(slots);
    let ciphertext = match encrypt(master_key.as_bytes(), nonce, &aad, plaintext) {
        Ok(sealed) => sealed,
        Err(e) => return Err(e),
    };
    Ok(encode(slots, nonce, &ciphertext))
}

/// What `seal` guarantees of the file that it makes, with its length within what
/// a file can record.
pub open spec fn seals(plaintext: Seq<u8>, master_key: Seq<u8>, slots: Seq<SlotView>, nonce: Seq<u8>) -> bool {
    let sealed = gcm_seal(master_key, nonce, header_bytes(slots), plaintext);
    &&& nonce.len() == NONCE_LEN
    &&& sealed.len() < 0x1_0000_0000
    &&& gcm_open(master_key, nonce, header_bytes(slots), sealed) == Some(plaintext)
}

/// What a read gives back of a write: a vault that was sealed opens, with the
/// password that unwraps its password slot to the master key, to the same
/// bytes, the same key and the same slots.
pub proof fn a_sealed_vault_opens_with_its_password(
    plaintext: Seq<u8>,
    master_key: Seq<u8>,
    slots: Seq<SlotView>,
    nonce: Seq<u8>,
    password: Seq<char>,
)
    requires
        all_sized(slots),
        1 <= slots.len() <= MAX_SLOTS,
        first_kdf_error(slots) is None,
        seals(plaintext, master_key, slots, nonce),
        first_of_kind(slots, SLOT_PASSWORD) matches Some(slot) && unwrapped_by_password(slot, password) == Ok::<
            Seq<u8>,
            ErrorView,
        >(master_key),
    ensures
        decoded_any(sealed_file(plaintext, master_key, slots, nonce)) matches Ok(AnyView::V2(e)) && opened_by_password(
            e,
            password,
        ) == Ok::<OpenedView, ErrorView>(OpenedView { plaintext, master_key, slots, upgraded: false }),
{
    encoded_file_decodes(slots, nonce, gcm_seal(master_key, nonce, header_bytes(slots), plaintext));
}

/// The same through the device slot.
pub proof fn a_sealed_vault_opens_on_its_device(
    plaintext: Seq<u8>,
    master_key: Seq<u8>,
    slots: Seq<SlotView>,
    nonce: Seq<u8>,
    device_key: Seq<u8>,
)
    requires
        all_sized(slots),
        1 <= slots.len() <= MAX_SLOTS,
        first_kdf_error(slots) is None,
        seals(plaintext, master_key, slots, nonce),
        first_of_kind(slots, SLOT_DEVICE) matches Some(slot) && unwrapped_by_device(slot, device_key) == Ok::<
            Seq<u8>,
            ErrorView,
        >(master_key),
    ensures
        decoded_any(sealed_file(plaintext, master_key, slots, nonce)) matches Ok(AnyView::V2(e)) && opened_by_device(
            e,
            device_key,
        ) == Ok::<OpenedView, ErrorView>(OpenedView { plaintext, master_key, slots, upgraded: false }),
{
    encoded_file_decodes(slots, nonce, gcm_seal(master_key, nonce, header_bytes(slots), plaintext));
}

/// The config of a vault in which nothing is stored yet.
pub open spec fn is_empty_config(c: Config) -> bool {
    &&& c.schema_version == CURRENT_SCHEMA_VERSION
    &&& c.servers@.len() == 0
    &&& c.auto_lock_minutes == DEFAULT_AUTO_LOCK_MINUTES
    &&& c.server_sort == ServerSort::Name
    &&& c.connect_mode == ConnectMode::FullScreen
}

/// First-run setup: a random master key in a single password slot, and the
/// default config. The config is for the caller to write.
pub fn init(master_password: &str) -> (r: Result<Unlocked, AppError>)
    ensures
        match r {
            Ok(u) => {
                &&& u.slots@.len() == 1
                &&& u.slots@[0].kind == SLOT_PASSWORD
                &&& u.slots@[0].kdf_params == (KdfParams { m_cost: 19_456, t_cost: 2, p_cost: 1 })
                &&& unwrapped_by_password(u.slots@[0]@, master_password@) == Ok::<Seq<u8>, ErrorView>(u.master_key@)
                &&& is_empty_config(u.config)
                &&& u.config.totp is None
                &&& all_countable(u.slots@)
            },
            Err(e) => e@ is Crypto || utf8(master_password@).len() > u32::MAX && e@ == ErrorView::Kdf(
                "password is too long"@,
            ),
        },
{
    let r = init_with(master_password, KdfParams::interactive(), random_master_key(), Draw::fresh());
    assert(r matches Ok(u) ==> slot_views(u.slots@).len() == 1 && slot_views(u.slots@)[0] == u.slots@[0]@);
    r
}

/// First-run setup with the master key, the salt and the nonce that were drawn,
/// its password slot at these costs.
pub fn init_with(master_password: &str, costs: KdfParams, key: Result<MasterKey, AppError>, draw: Draw) -> (r: Result<
    Unlocked,
    AppError,
>)
    requires
        costs.countable(),
    ensures
        match key {
            Err(e) => r == Err::<Unlocked, AppError>(e),
            Ok(master_key) => match wrapped_by_password(master_password@, costs, draw, master_key@) {
                Err(x) => r matches Err(e) && e@ == x,
                Ok(slot) => r matches Ok(u) && {
                    &&& u.master_key == master_key
                    &&& slot_views(u.slots@) == seq![slot]
                    &&& is_empty_config(u.config)
                    &&& u.config.totp is None
                    &&& all_countable(u.slots@)
                    &&& unwrapped_by_password(slot, master_password@) == Ok::<Seq<u8>, ErrorView>(master_key@)
                },
            },
        },
{
    let master_key = match key {
        Ok(key) => key,
        Err(e) => return Err(e),
    };
    let slot: Slot = match wrap_password_with(master_password, costs, draw, &master_key) {
        Ok(slot) => slot,
        Err(e) => return Err(e),
    };
    let mut slots: Vec<Slot> = Vec::new();
    slots.push(slot);
    assert(slot_views(slots@) =~= seq![slot@]);
    Ok(Unlocked { config: Config::default(), master_key, slots })
}

/// A path with its last component replaced.
pub uninterp spec fn path_with_file_name(path: Seq<char>, name: Seq<char>) -> Seq<char>;

/// `std::path::Path::with_file_name`: a function of the path and the name.
#[verifier::external_body]
fn with_file_name(path: &str, name: &str) -> (r: String)
    ensures
        r@ == path_with_file_name(path@, name@),
{
    std::path::Path::new(path).with_file_name(name).to_string_lossy().into_owned()
}

/// The last component of a path, empty where there is none.
pub uninterp spec fn path_file_name(path: Seq<char>) -> Seq<char>;

/// `std::path::Path::file_name`: a function of the path.
#[verifier::external_body]
fn file_name(path: &str) -> (r: String)
    ensures
        r@ == path_file_name(path@),
{
    std::path::Path::new(path).file_name().unwrap_or_default().to_string_lossy().into_owned()
}

/// Where a vault and the files beside it are.
pub struct ConfigStore {
    pub path: String,
}

impl ConfigStore {
    /// The store whose vault file is `path`.
    pub fn new(path: String) -> (r: Self)
        ensures
            r.path == path,
    {
        ConfigStore { path }
    }

    /// The unencrypted UI-language preference, which must be readable before
    /// the password is entered.
    pub fn prefs_path(&self) -> (r: String)
        ensures
            r@ == path_with_file_name(self.path@, "prefs.lang"@),
    {
        with_file_name(self.path.as_str(), "prefs.lang")
    }

    /// The secret left behind by the retired mode without a password. It is
    /// read once, to convert the vault, and then deleted; nothing writes it.
    pub fn totp_only_secret_path(&self) -> (r: String)
        ensures
            r@ == path_with_file_name(self.path@, "totp-only.secret"@),
    {
        with_file_name(self.path.as_str(), "totp-only.secret")
    }

    /// The identifier naming this vault's credential-store entry.
    pub fn vault_id_path(&self) -> (r: String)
        ensures
            r@ == path_with_file_name(self.path@, "vault-id"@),
    {
        with_file_name(self.path.as_str(), "vault-id")
    }
}

/// A step of replacing a file without ever leaving a partial one behind.
#[derive(Clone, Copy, PartialEq, Eq, Debug, Structural)]
pub enum StageStep {
    /// Make the directory, for its owner alone.
    Prepare,
    /// Create the staging file beside the destination, for its owner alone.
    Create,
    /// Write the bytes to the staging file and flush it to the disk.
    Write,
    /// Rename the staging file to the destination.
    Rename,
    /// Flush the directory, best effort.
    SyncDir,
    /// Remove the staging file, best effort.
    Remove,
    Done,
    Failed,
}

impl StageStep {
    /// What follows a step that went well or did not.
    pub open spec fn after(self, ok: bool) -> StageStep {
        match self {
            StageStep::Prepare => if ok {
                StageStep::Create
            } else {
                StageStep::Failed
            },
            StageStep::Create => if ok {
                StageStep::Write
            } else {
                StageStep::Failed
            },
            StageStep::Write => if ok {
                StageStep::Rename
            } else {
                StageStep::Remove
            },
            StageStep::Rename => if ok {
                StageStep::SyncDir
            } else {
                StageStep::Remove
            },
            StageStep::SyncDir => StageStep::Done,
            StageStep::Remove => StageStep::Failed,
            other => other,
        }
    }

    /// What follows a step.
    pub fn next(self, ok: bool) -> (r: StageStep)
        ensures
            r == self.after(ok),
    {
        match self {
            StageStep::Prepare => if ok {
                StageStep::Create
            } else {
                StageStep::Failed
            },
            StageStep::Create => if ok {
                StageStep::Write
            } else {
                StageStep::Failed
            },
            StageStep::Write => if ok {
                StageStep::Rename
            } else {
                StageStep::Remove
            },
            StageStep::Rename => if ok {
                StageStep::SyncDir
            } else {
                StageStep::Remove
            },
            StageStep::SyncDir => StageStep::Done,
            StageStep::Remove => StageStep::Failed,
            other => other,
        }
    }

    /// The step reached after these outcomes.
    pub open spec fn reached(outcomes: Seq<bool>) -> StageStep
        decreases outcomes.len(),
    {
        if outcomes.len() == 0 {
            StageStep::Prepare
        } else {
            StageStep::reached(outcomes.drop_last()).after(outcomes.last())
        }
    }
}

/// The destination is replaced only by a file that was written and flushed
/// whole: the rename, which alone touches the destination, comes behind a write
/// that went well, however the steps before it went.
pub proof fn only_a_flushed_file_replaces_the_vault(outcomes: Seq<bool>)
    requires
        StageStep::reached(outcomes) == StageStep::Rename,
    ensures
        outcomes.len() > 0,
        outcomes.last(),
        StageStep::reached(outcomes.drop_last()) == StageStep::Write,
{
}

/// A replacement that failed before its rename never comes to one: the previous
/// file is intact.
pub proof fn a_failed_write_never_replaces_the_vault(outcomes: Seq<bool>, ok: bool)
    requires
        StageStep::reached(outcomes) == StageStep::Remove || StageStep::reached(outcomes) == StageStep::Failed,
    ensures
        StageStep::reached(outcomes.push(ok)) == StageStep::Failed,
{
    assert(outcomes.push(ok).drop_last() =~= outcomes);
}

/// The file that running instances contend on: a sibling of the vault, which
/// itself is replaced at every write.
pub fn lock_sibling(path: &str) -> (r: String)
    ensures
        r@ == path_with_file_name(path@, path_file_name(path@) + ".lock"@),
{
    let mut name = file_name(path);
    name.push_str(".lock");
    with_file_name(path, name.as_str())
}

/// The identifier of a vault, given what its identifier file holds, and whether
/// it is a fresh one that has yet to be written there. What is stored stands,
/// without its surrounding whitespace; a missing or blank file gets a new one.
pub fn vault_id(existing: Option<&str>) -> (r: (String, bool))
    ensures
        match existing {
            Some(text) if trimmed(text@).len() > 0 => r.0@ == trimmed(text@) && !r.1,
            _ => r.1 && r.0@.len() == 36 && exists|fresh: u128| r.0@ == #[trigger] uuid_text(fresh),
        },
{
    if let Some(text) = existing {
        let all = chars_of(text);
        let id = trim(&all);
        if id.len() > 0 {
            return (text_of(id), false);
        }
    }
    (uuid_string(Uuid::new_v4().bits), true)
}

/// The file that a write is staged in: beside `path`, so that the rename stays
/// within one filesystem.
pub fn tmp_sibling(path: &str) -> (r: String)
    ensures
        r@ == path_with_file_name(path@, path_file_name(path@) + ".tmp"@),
{
    let mut name = file_name(path);
    name.push_str(".tmp");
    with_file_name(path, name.as_str())
}

/// A replacement is prepared, created, written, renamed and flushed, in this order;
/// one that fails once there is a file to remove removes it, and the flush of the
/// directory may fail.
pub proof fn a_replacement_is_staged(ok: bool)
    ensures
        StageStep::Prepare.after(true) == StageStep::Create,
        StageStep::Create.after(true) == StageStep::Write,
        StageStep::Write.after(true) == StageStep::Rename,
        StageStep::Rename.after(true) == StageStep::SyncDir,
        StageStep::SyncDir.after(ok) == StageStep::Done,
        StageStep::Prepare.after(false) == StageStep::Failed,
        StageStep::Create.after(false) == StageStep::Failed,
        StageStep::Write.after(false) == StageStep::Remove,
        StageStep::Rename.after(false) == StageStep::Remove,
        StageStep::Remove.after(ok) == StageStep::Failed,
        StageStep::Done.after(ok) == StageStep::Done,
        StageStep::Failed.after(ok) == StageStep::Failed,
{
}

/// A vault is opened by what its slots are for: the password where there is no
/// device slot, the device where it stands alone, and both where both are there.
pub proof fn the_slots_tell_the_way_in(slots: Seq<Slot>)
    ensures
        shape(slots) == VaultShape::Password <==> forall|i: int|
            0 <= i < slots.len() ==> (#[trigger] slots[i]).kind != 2,
        shape(slots) == VaultShape::DeviceAndPassword <==> (exists|i: int|
            0 <= i < slots.len() && (#[trigger] slots[i]).kind == 2) && (exists|i: int|
            0 <= i < slots.len() && (#[trigger] slots[i]).kind == 1),
{
    crate::config::keyslot::lemma_has_slot(slots, SLOT_DEVICE);
    crate::config::keyslot::lemma_has_slot(slots, SLOT_PASSWORD);
}

/// A vault whose key is known opens to what its cipher gives under that key, with
/// that key and its own slots; a wrong password stays one error.
pub proof fn an_opened_vault_has_its_key_and_slots(e: EnvelopeView, password: Seq<char>)
    ensures
        opened_by_password(e, password) matches Ok(o) ==> {
            &&& !o.upgraded
            &&& o.slots == e.slots
            &&& gcm_open(o.master_key, e.nonce, header_bytes(e.slots), e.ciphertext) == Some(o.plaintext)
            &&& first_of_kind(e.slots, 1) matches Some(slot) && unwrapped_by_password(slot, password) == Ok::<
                Seq<u8>,
                ErrorView,
            >(o.master_key)
        },
        first_of_kind(e.slots, 1) is None ==> opened_by_password(e, password) == Err::<OpenedView, ErrorView>(
            ErrorView::WrongPasswordOrCorrupt,
        ),
{
}

/// The same of a vault that its device opens.
pub proof fn a_vault_opened_on_a_device_has_its_key_and_slots(e: EnvelopeView, device_key: Seq<u8>)
    ensures
        opened_by_device(e, device_key) matches Ok(o) ==> {
            &&& !o.upgraded
            &&& o.slots == e.slots
            &&& gcm_open(o.master_key, e.nonce, header_bytes(e.slots), e.ciphertext) == Some(o.plaintext)
            &&& first_of_kind(e.slots, 2) matches Some(slot) && unwrapped_by_device(slot, device_key) == Ok::<
                Seq<u8>,
                ErrorView,
            >(o.master_key)
        },
        first_of_kind(e.slots, 2) is None ==> opened_by_device(e, device_key) == Err::<OpenedView, ErrorView>(
            ErrorView::WrongPasswordOrCorrupt,
        ),
{
}

/// A vault of the first format opens to its plaintext with a new key, which the
/// same password unwraps at the costs the file had; it is marked as upgraded.
pub proof fn an_old_vault_is_upgraded(
    e: EnvelopeV1View,
    password: Seq<char>,
    key: Result<MasterKey, AppError>,
    draw: Draw,
)
    ensures
        opened_v1(e, password, key, draw) matches Ok(o) ==> {
            &&& o.upgraded
            &&& key matches Ok(k) && o.master_key == k@
            &&& o.slots.len() == 1 && o.slots[0].kind == 1 && o.slots[0].kdf_params == e.kdf_params
            &&& derived_key(utf8(password), e.salt, e.kdf_params) matches Ok(old) && gcm_open(
                old,
                e.nonce,
                header_v1_bytes(e),
                e.ciphertext,
            ) == Some(o.plaintext)
        },
        derived_key(utf8(password), e.salt, e.kdf_params) matches Ok(old) ==> (gcm_open(
            old,
            e.nonce,
            header_v1_bytes(e),
            e.ciphertext,
        ) is None ==> opened_v1(e, password, key, draw) == Err::<OpenedView, ErrorView>(
            ErrorView::WrongPasswordOrCorrupt,
        )),
{
}

/// An old vault that was opened has its plaintext, and a single password slot that
/// the same password unwraps to its new key.
pub proof fn an_upgraded_vault_opens_with_the_same_password(
    o: Opened,
    e: EnvelopeV1View,
    password: Seq<char>,
)
    requires
        upgraded_from(Ok(o), e, password),
    ensures
        o.upgraded,
        derived_key(utf8(password), e.salt, e.kdf_params) matches Ok(old) && gcm_open(
            old,
            e.nonce,
            header_v1_bytes(e),
            e.ciphertext,
        ) == Some(o.plaintext@),
        o.slots@.len() == 1 && o.slots@[0].kind == 1 && o.slots@[0].kdf_id == 1 && o.slots@[0].kdf_params == e.kdf_params,
        unwrapped_by_password(o.slots@[0]@, password) == Ok::<Seq<u8>, ErrorView>(o.master_key@),
{
}

/// What is in a file decides how it opens: one of the second format by its password
/// slot or its device slot, one of the first by its password alone.
pub proof fn a_file_opens_by_its_format(
    bytes: &[u8],
    password: &str,
    device_key: SecretKey,
    by_password: Result<Opened, AppError>,
    by_device: Result<Opened, AppError>,
    shape: Result<VaultShape, AppError>,
)
    requires
        !ends_before_slot_count(bytes@),
        call_ensures(load, (bytes, password), by_password),
        call_ensures(load_with_device, (bytes, &device_key), by_device),
        call_ensures(peek_shape, (bytes,), shape),
    ensures
        decoded_any(bytes@) matches Ok(AnyView::V2(e)) ==> {
            &&& by_password matches Ok(o) ==> !o.upgraded && slot_views(o.slots@) == e.slots && gcm_open(
                o.master_key@,
                e.nonce,
                header_bytes(e.slots),
                e.ciphertext,
            ) == Some(o.plaintext@)
            &&& by_device matches Ok(o) ==> !o.upgraded && slot_views(o.slots@) == e.slots && gcm_open(
                o.master_key@,
                e.nonce,
                header_bytes(e.slots),
                e.ciphertext,
            ) == Some(o.plaintext@)
            &&& shape == Ok::<VaultShape, AppError>(VaultShape::Password) <==> first_of_kind(e.slots, 2) is None
            &&& shape == Ok::<VaultShape, AppError>(VaultShape::DeviceAndPassword) <==> first_of_kind(e.slots, 2) is Some
                && first_of_kind(e.slots, 1) is Some
        },
        decoded_any(bytes@) matches Ok(AnyView::V1(_)) ==> by_device is Err && shape == Ok::<VaultShape, AppError>(
            VaultShape::Password,
        ) && (by_password matches Ok(o) ==> o.upgraded),
        decoded_any(bytes@) matches Err(x) ==> (by_password matches Err(e) && e@ == x) && (by_device matches Err(e) && e@
            == x) && (shape matches Err(e) && e@ == x),
{
}

/// A vault keeps the identity it has; only one without gets a new one, which is to
/// be written.
pub proof fn a_vault_keeps_its_identity(existing: Option<&str>, r: (String, bool))
    requires
        call_ensures(vault_id, (existing,), r),
    ensures
        existing matches Some(text) ==> (trimmed(text@).len() > 0 ==> r.0@ == trimmed(text@) && !r.1),
        existing matches Some(text) ==> (trimmed(text@).len() == 0 ==> r.1),
        existing is None ==> r.1,
        r.1 ==> r.0@.len() == 36,
{
}

} // verus!
