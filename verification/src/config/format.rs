//! The vault file: a header of key slots, then the encrypted body.
use vstd::prelude::*;

use crate::bytes::{
    array_at, copy_range, from_le32, le32, lemma_le32_bytes, lemma_le32_round_trip, push_all, push_le32, read_le32,
    same_bytes,
};
use crate::crypto::cipher::NONCE_LEN;
use crate::crypto::kdf::{KdfParams, SALT_LEN};
use crate::error::{AppError, ErrorView};
use crate::text::{decimal, owned, push_decimal};

verus! {

/// `SSHCTRL1`.
pub const MAGIC: [u8; 8] = [83, 83, 72, 67, 84, 82, 76, 49];

pub const FORMAT_VERSION: u8 = 2;

/// The first layout, of a single key. Still decodable so that an old vault can be
/// read once and rewritten; never written any more.
pub const FORMAT_VERSION_V1: u8 = 1;

pub const KDF_ARGON2ID: u8 = 1;

pub const KDF_HKDF_SHA256: u8 = 2;

/// Slot kinds. The byte is wider than the two values in use: a slot of another
/// kind is carried along, not rejected.
pub const SLOT_PASSWORD: u8 = 1;

pub const SLOT_DEVICE: u8 = 2;

/// Length of the master key the vault is encrypted under, and of that key once
/// wrapped (AES-256-GCM appends a 16-byte tag).
pub const MK_LEN: usize = 32;

pub const WRAPPED_MK_LEN: usize = 48;

/// Bounds on the cost parameters read out of a file's header, so that a hostile
/// file cannot make the app allocate without limit before its tag is verified.
pub const MAX_M_COST_KIB: u32 = 1_048_576;

pub const MIN_M_COST_KIB: u32 = 8;

pub const MAX_T_COST: u32 = 64;

pub const MAX_P_COST: u32 = 64;

/// No file makes the app read more slots than this.
pub const MAX_SLOTS: u8 = 4;

/// Kind, kdf id, three costs, salt.
pub const SLOT_DESC_LEN: usize = 30;

pub const SLOT_LEN: usize = 90;

/// Magic, version, slot count.
pub const V2_PREFIX_LEN: usize = 10;

pub const V1_HEADER_LEN: usize = 38;

/// One way of getting at the master key. Every slot wraps the same master key
/// under a different key-encryption key.
#[derive(Clone, Copy, Debug)]
pub struct Slot {
    pub kind: u8,
    pub kdf_id: u8,
    pub kdf_params: KdfParams,
    pub salt: [u8; SALT_LEN],
    pub wrap_nonce: [u8; NONCE_LEN],
    pub wrapped_mk: [u8; WRAPPED_MK_LEN],
}

/// A decoded vault file.
#[derive(Debug)]
pub struct Envelope {
    pub slots: Vec<Slot>,
    pub nonce: [u8; NONCE_LEN],
    pub ciphertext: Vec<u8>,
}

/// A file of the first layout: one Argon2id derivation whose output is the
/// vault key, with no master key and no slots.
#[derive(Debug)]
pub struct EnvelopeV1 {
    pub kdf_params: KdfParams,
    pub salt: [u8; SALT_LEN],
    pub nonce: [u8; NONCE_LEN],
    pub ciphertext: Vec<u8>,
}

#[derive(Debug)]
pub enum AnyEnvelope {
    V1(EnvelopeV1),
    V2(Envelope),
}

/// A `Slot` with its arrays as sequences.
#[verifier::ext_equal]
pub struct SlotView {
    pub kind: u8,
    pub kdf_id: u8,
    pub kdf_params: KdfParams,
    pub salt: Seq<u8>,
    pub wrap_nonce: Seq<u8>,
    pub wrapped_mk: Seq<u8>,
}

/// An `Envelope` as sequences.
#[verifier::ext_equal]
pub struct EnvelopeView {
    pub slots: Seq<SlotView>,
    pub nonce: Seq<u8>,
    pub ciphertext: Seq<u8>,
}

/// An `EnvelopeV1` as sequences.
#[verifier::ext_equal]
pub struct EnvelopeV1View {
    pub kdf_params: KdfParams,
    pub salt: Seq<u8>,
    pub nonce: Seq<u8>,
    pub ciphertext: Seq<u8>,
}

#[verifier::ext_equal]
pub enum AnyView {
    V1(EnvelopeV1View),
    V2(EnvelopeView),
}

impl View for Slot {
    type V = SlotView;

    open spec fn view(&self) -> SlotView {
        SlotView {
            kind: self.kind,
            kdf_id: self.kdf_id,
            kdf_params: self.kdf_params,
            salt: self.salt@,
            wrap_nonce: self.wrap_nonce@,
            wrapped_mk: self.wrapped_mk@,
        }
    }
}

/// The views of a sequence of slots.
pub open spec fn slot_views(slots: Seq<Slot>) -> Seq<SlotView> {
    slots.map_values(|s: Slot| s@)
}

impl View for Envelope {
    type V = EnvelopeView;

    open spec fn view(&self) -> EnvelopeView {
        EnvelopeView { slots: slot_views(self.slots@), nonce: self.nonce@, ciphertext: self.ciphertext@ }
    }
}

impl View for EnvelopeV1 {
    type V = EnvelopeV1View;

    open spec fn view(&self) -> EnvelopeV1View {
        EnvelopeV1View {
            kdf_params: self.kdf_params,
            salt: self.salt@,
            nonce: self.nonce@,
            ciphertext: self.ciphertext@,
        }
    }
}

impl View for AnyEnvelope {
    type V = AnyView;

    open spec fn view(&self) -> AnyView {
        match *self {
            AnyEnvelope::V1(e) => AnyView::V1(e@),
            AnyEnvelope::V2(e) => AnyView::V2(e@),
        }
    }
}

impl SlotView {
    /// Whether the parts have the lengths that every slot's have.
    pub open spec fn sized(self) -> bool {
        self.salt.len() == SALT_LEN && self.wrap_nonce.len() == NONCE_LEN && self.wrapped_mk.len() == WRAPPED_MK_LEN
    }

    /// The part of a slot that is authenticated when its own wrapped key is
    /// unwrapped.
    pub open spec fn desc(self) -> Seq<u8> {
        seq![self.kind, self.kdf_id] + le32(self.kdf_params.m_cost) + le32(self.kdf_params.t_cost) + le32(
            self.kdf_params.p_cost,
        ) + self.salt
    }

    /// The slot as it stands in the file.
    pub open spec fn bytes(self) -> Seq<u8> {
        self.desc() + self.wrap_nonce + self.wrapped_mk
    }
}

/// The slots as they stand in the file, one behind the other.
pub open spec fn slots_bytes(slots: Seq<SlotView>) -> Seq<u8>
    decreases slots.len(),
{
    if slots.len() == 0 {
        Seq::empty()
    } else {
        slots_bytes(slots.drop_last()) + slots.last().bytes()
    }
}

/// The header: magic, version, number of slots, and every slot in full.
pub open spec fn header_bytes(slots: Seq<SlotView>) -> Seq<u8> {
    MAGIC@ + seq![FORMAT_VERSION, (slots.len() % 256) as u8] + slots_bytes(slots)
}

/// A whole vault file.
pub open spec fn file_bytes(slots: Seq<SlotView>, nonce: Seq<u8>, ciphertext: Seq<u8>) -> Seq<u8> {
    header_bytes(slots) + nonce + le32((ciphertext.len() % 0x1_0000_0000) as u32) + ciphertext
}

/// The header of a file of the first layout.
pub open spec fn header_v1_bytes(e: EnvelopeV1View) -> Seq<u8> {
    MAGIC@ + seq![FORMAT_VERSION_V1, KDF_ARGON2ID] + le32(e.kdf_params.m_cost) + le32(e.kdf_params.t_cost) + le32(
        e.kdf_params.p_cost,
    ) + e.salt
}

/// A `CorruptFile` error.
pub open spec fn corrupt(text: Seq<char>) -> ErrorView {
    ErrorView::CorruptFile(text)
}

/// Whether the costs of an Argon2id slot are within the bounds.
pub open spec fn costs_in_range(params: KdfParams) -> bool {
    MIN_M_COST_KIB <= params.m_cost <= MAX_M_COST_KIB && 1 <= params.t_cost <= MAX_T_COST && 1 <= params.p_cost
        <= MAX_P_COST
}

/// What is wrong with a slot's kdf id and costs, if anything.
pub open spec fn kdf_error(kdf_id: u8, params: KdfParams) -> Option<ErrorView> {
    if kdf_id == KDF_ARGON2ID {
        if costs_in_range(params) {
            None
        } else {
            Some(
                corrupt(
                    "kdf parameters out of range (m="@ + decimal(params.m_cost as nat) + ", t="@ + decimal(
                        params.t_cost as nat,
                    ) + ", p="@ + decimal(params.p_cost as nat) + ")"@,
                ),
            )
        }
    } else if kdf_id == KDF_HKDF_SHA256 {
        None
    } else {
        Some(corrupt("unknown kdf id "@ + decimal(kdf_id as nat)))
    }
}

/// The error of the first slot that has one.
pub open spec fn first_kdf_error(slots: Seq<SlotView>) -> Option<ErrorView>
    decreases slots.len(),
{
    if slots.len() == 0 {
        None
    } else {
        match first_kdf_error(slots.drop_last()) {
            Some(e) => Some(e),
            None => kdf_error(slots.last().kdf_id, slots.last().kdf_params),
        }
    }
}

/// The cost parameters at `at`.
pub open spec fn params_at(bytes: Seq<u8>, at: int) -> KdfParams {
    KdfParams {
        m_cost: from_le32(bytes.subrange(at, at + 4)),
        t_cost: from_le32(bytes.subrange(at + 4, at + 8)),
        p_cost: from_le32(bytes.subrange(at + 8, at + 12)),
    }
}

/// The slot in the 90 bytes at `at`.
pub open spec fn slot_at(bytes: Seq<u8>, at: int) -> SlotView {
    SlotView {
        kind: bytes[at],
        kdf_id: bytes[at + 1],
        kdf_params: params_at(bytes, at + 2),
        salt: bytes.subrange(at + 14, at + 30),
        wrap_nonce: bytes.subrange(at + 30, at + 42),
        wrapped_mk: bytes.subrange(at + 42, at + 90),
    }
}

/// The first `count` slots of a file.
pub open spec fn slots_of(bytes: Seq<u8>, count: int) -> Seq<SlotView> {
    Seq::new(count as nat, |i: int| slot_at(bytes, V2_PREFIX_LEN + i * SLOT_LEN))
}

/// A file that ends behind the version byte of the current layout, so that not
/// even the number of its slots is there.
pub open spec fn ends_before_slot_count(bytes: Seq<u8>) -> bool {
    bytes.len() == 9 && bytes.subrange(0, 8) == MAGIC@ && bytes[8] == FORMAT_VERSION
}

/// What a file of the current layout decodes to.
pub open spec fn decoded_v2(bytes: Seq<u8>) -> Result<EnvelopeView, ErrorView> {
    let count = bytes[9] as int;
    let body = V2_PREFIX_LEN + count * SLOT_LEN;
    if count == 0 || count > MAX_SLOTS {
        Err(corrupt("slot count "@ + decimal(count as nat) + " out of range"@))
    } else if bytes.len() < body + NONCE_LEN + 4 {
        Err(corrupt("file too short"@))
    } else if let Some(e) = first_kdf_error(slots_of(bytes, count)) {
        Err(e)
    } else if bytes.len() != body + NONCE_LEN + 4 + from_le32(bytes.subrange(body + NONCE_LEN, body + NONCE_LEN + 4)) {
        Err(corrupt("ciphertext length mismatch"@))
    } else {
        Ok(
            EnvelopeView {
                slots: slots_of(bytes, count),
                nonce: bytes.subrange(body, body + NONCE_LEN),
                ciphertext: bytes.skip(body + NONCE_LEN + 4),
            },
        )
    }
}

/// What a file of the first layout decodes to.
pub open spec fn decoded_v1(bytes: Seq<u8>) -> Result<EnvelopeV1View, ErrorView> {
    let body = V1_HEADER_LEN as int;
    if bytes.len() < body + NONCE_LEN + 4 {
        Err(corrupt("file too short"@))
    } else if bytes[9] != KDF_ARGON2ID {
        Err(corrupt("unknown kdf id "@ + decimal(bytes[9] as nat)))
    } else if let Some(e) = kdf_error(bytes[9], params_at(bytes, 10)) {
        Err(e)
    } else if bytes.len() != body + NONCE_LEN + 4 + from_le32(bytes.subrange(body + NONCE_LEN, body + NONCE_LEN + 4)) {
        Err(corrupt("ciphertext length mismatch"@))
    } else {
        Ok(
            EnvelopeV1View {
                kdf_params: params_at(bytes, 10),
                salt: bytes.subrange(22, 38),
                nonce: bytes.subrange(body, body + NONCE_LEN),
                ciphertext: bytes.skip(body + NONCE_LEN + 4),
            },
        )
    }
}

/// What a file of either layout decodes to.
pub open spec fn decoded_any(bytes: Seq<u8>) -> Result<AnyView, ErrorView> {
    if bytes.len() < 9 {
        Err(corrupt("file too short"@))
    } else if bytes.subrange(0, 8) != MAGIC@ {
        Err(ErrorView::NotOurFile)
    } else if bytes[8] == FORMAT_VERSION_V1 {
        match decoded_v1(bytes) {
            Ok(e) => Ok(AnyView::V1(e)),
            Err(e) => Err(e),
        }
    } else if bytes[8] == FORMAT_VERSION {
        match decoded_v2(bytes) {
            Ok(e) => Ok(AnyView::V2(e)),
            Err(e) => Err(e),
        }
    } else {
        Err(ErrorView::UnsupportedFormatVersion(bytes[8]))
    }
}

/// Whether a result is `expected`, by its views.
pub open spec fn decodes_to(r: Result<AnyEnvelope, AppError>, expected: Result<AnyView, ErrorView>) -> bool {
    match r {
        Ok(e) => expected == Ok::<AnyView, ErrorView>(e@),
        Err(e) => expected == Err::<AnyView, ErrorView>(e@),
    }
}

fn encode_slot_desc(slot: &Slot) -> (buf: Vec<u8>)
    ensures
        buf@ == slot@.desc(),
{
    let mut buf: Vec<u8> = Vec::with_capacity(SLOT_DESC_LEN);
    buf.push(slot.kind);
    buf.push(slot.kdf_id);
    assert(buf@ =~= seq![slot.kind, slot.kdf_id]);
    push_le32(&mut buf, slot.kdf_params.m_cost);
    push_le32(&mut buf, slot.kdf_params.t_cost);
    push_le32(&mut buf, slot.kdf_params.p_cost);
    push_all(&mut buf, &slot.salt);
    buf
}

/// Additional data for unwrapping this slot's copy of the master key.
pub fn slot_aad(slot: &Slot) -> (buf: Vec<u8>)
    ensures
        buf@ == slot@.desc(),
{
    encode_slot_desc(slot)
}

fn encode_slot(slot: &Slot) -> (buf: Vec<u8>)
    ensures
        buf@ == slot@.bytes(),
{
    let mut buf = encode_slot_desc(slot);
    push_all(&mut buf, &slot.wrap_nonce);
    push_all(&mut buf, &slot.wrapped_mk);
    buf
}

/// Encodes the header, which doubles as the additional data of the vault body.
/// Every slot is in it in full, so neither a weakened cost parameter nor a slot
/// spliced in from another file survives the tag check.
fn encode_header(slots: &[Slot]) -> (buf: Vec<u8>)
    ensures
        buf@ == header_bytes(slot_views(slots@)),
{
    let mut buf: Vec<u8> = Vec::new();
    push_all(&mut buf, &MAGIC);
    buf.push(FORMAT_VERSION);
    buf.push((slots.len() % 256) as u8);
    let ghost prefix = MAGIC@ + seq![FORMAT_VERSION, (slots@.len() % 256) as u8];
    assert(buf@ =~= prefix);
    let mut i: usize = 0;
    assert(slot_views(slots@.take(0)) =~= Seq::<SlotView>::empty());
    while i < slots.len()
        invariant
            i <= slots@.len(),
            buf@ == prefix + slots_bytes(slot_views(slots@.take(i as int))),
        decreases slots@.len() - i,
    {
        let one = encode_slot(&slots[i]);
        push_all(&mut buf, &one);
        i = i + 1;
        let ghost now = slot_views(slots@.take(i as int));
        assert(now.drop_last() =~= slot_views(slots@.take(i - 1)));
        assert(now.last() == slots@[i - 1]@);
        assert(buf@ =~= prefix + slots_bytes(now));
    }
    assert(slots@.take(slots@.len() as int) =~= slots@);
    buf
}

/// The additional data of the vault body.
pub fn header_aad(slots: &[Slot]) -> (buf: Vec<u8>)
    ensures
        buf@ == header_bytes(slot_views(slots@)),
{
    encode_header(slots)
}

/// A whole vault file.
pub fn encode(slots: &[Slot], nonce: &[u8; NONCE_LEN], ciphertext: &[u8]) -> (buf: Vec<u8>)
    ensures
        buf@ == file_bytes(slot_views(slots@), nonce@, ciphertext@),
{
    let mut buf = encode_header(slots);
    push_all(&mut buf, nonce);
    push_le32(&mut buf, (ciphertext.len() as u64 % 0x1_0000_0000) as u32);
    push_all(&mut buf, ciphertext);
    buf
}

/// Cost parameters only mean something for Argon2id slots. An HKDF slot
/// stretches nothing and stores zeroes there.
fn check_kdf_params(kdf_id: u8, params: &KdfParams) -> (r: Result<(), AppError>)
    ensures
        match r {
            Ok(_) => kdf_error(kdf_id, *params) is None,
            Err(e) => kdf_error(kdf_id, *params) == Some(e@),
        },
{
    if kdf_id == KDF_ARGON2ID {
        if !(MIN_M_COST_KIB <= params.m_cost && params.m_cost <= MAX_M_COST_KIB) || !(1 <= params.t_cost
            && params.t_cost <= MAX_T_COST) || !(1 <= params.p_cost && params.p_cost <= MAX_P_COST) {
            let mut text = owned("kdf parameters out of range (m=");
            push_decimal(&mut text, params.m_cost as u64);
            text.push_str(", t=");
            push_decimal(&mut text, params.t_cost as u64);
            text.push_str(", p=");
            push_decimal(&mut text, params.p_cost as u64);
            text.push_str(")");
            return Err(AppError::CorruptFile(text));
        }
        Ok(())
    } else if kdf_id == KDF_HKDF_SHA256 {
        Ok(())
    } else {
        let mut text = owned("unknown kdf id ");
        push_decimal(&mut text, kdf_id as u64);
        Err(AppError::CorruptFile(text))
    }
}

/// Decodes a file of the current layout.
pub fn decode(bytes: &[u8]) -> (r: Result<Envelope, AppError>)
    requires
        !ends_before_slot_count(bytes@),
    ensures
        match r {
            Ok(e) => decoded_any(bytes@) == Ok::<AnyView, ErrorView>(AnyView::V2(e@)),
            Err(e) => match decoded_any(bytes@) {
                Ok(AnyView::V1(_)) => e@ == corrupt("v1 file needs migration"@),
                Ok(AnyView::V2(_)) => false,
                Err(x) => e@ == x,
            },
        },
{
    match decode_any(bytes) {
        Ok(AnyEnvelope::V2(envelope)) => Ok(envelope),
        Ok(AnyEnvelope::V1(_)) => Err(AppError::CorruptFile(owned("v1 file needs migration"))),
        Err(e) => Err(e),
    }
}

/// Whether a file ends before its slot count: no decoder takes such a file.
pub fn is_cut_before_slot_count(bytes: &[u8]) -> (r: bool)
    ensures
        r == ends_before_slot_count(bytes@),
{
    if bytes.len() != 9 {
        return false;
    }
    let head: [u8; 8] = array_at::<8>(bytes, 0);
    same_bytes(&head, &MAGIC) && bytes[8] == FORMAT_VERSION
}

/// Decodes a file of either layout.
pub fn decode_any(bytes: &[u8]) -> (r: Result<AnyEnvelope, AppError>)
    requires
        !ends_before_slot_count(bytes@),
    ensures
        decodes_to(r, decoded_any(bytes@)),
{
    if bytes.len() < 9 {
        return Err(AppError::CorruptFile(owned("file too short")));
    }
    let head: [u8; 8] = array_at::<8>(bytes, 0);
    if !same_bytes(&head, &MAGIC) {
        return Err(AppError::NotOurFile);
    }
    let version: u8 = bytes[8];
    if version == FORMAT_VERSION_V1 {
        match decode_v1(bytes) {
            Ok(e) => Ok(AnyEnvelope::V1(e)),
            Err(e) => Err(e),
        }
    } else if version == FORMAT_VERSION {
        match decode_v2(bytes) {
            Ok(e) => Ok(AnyEnvelope::V2(e)),
            Err(e) => Err(e),
        }
    } else {
        Err(AppError::UnsupportedFormatVersion(version))
    }
}

/// The cost parameters at `at`.
fn read_params(bytes: &[u8], at: usize) -> (r: KdfParams)
    requires
        at + 12 <= bytes@.len(),
        at < 1000,
    ensures
        r == params_at(bytes@, at as int),
{
    KdfParams {
        m_cost: read_le32(bytes, at),
        t_cost: read_le32(bytes, at + 4),
        p_cost: read_le32(bytes, at + 8),
    }
}

/// The slot at `at`.
fn read_slot(bytes: &[u8], at: usize) -> (r: Slot)
    requires
        at + SLOT_LEN <= bytes@.len(),
        at < 900,
    ensures
        r@ == slot_at(bytes@, at as int),
{
    Slot {
        kind: bytes[at],
        kdf_id: bytes[at + 1],
        kdf_params: read_params(bytes, at + 2),
        salt: array_at::<SALT_LEN>(bytes, at + 14),
        wrap_nonce: array_at::<NONCE_LEN>(bytes, at + 30),
        wrapped_mk: array_at::<WRAPPED_MK_LEN>(bytes, at + 42),
    }
}

fn decode_v2(bytes: &[u8]) -> (r: Result<Envelope, AppError>)
    requires
        bytes@.len() >= 10,
    ensures
        match r {
            Ok(e) => decoded_v2(bytes@) == Ok::<EnvelopeView, ErrorView>(e@),
            Err(e) => decoded_v2(bytes@) == Err::<EnvelopeView, ErrorView>(e@),
        },
{
    let slot_count: u8 = bytes[9];
    if slot_count == 0 || slot_count > MAX_SLOTS {
        let mut text = owned("slot count ");
        push_decimal(&mut text, slot_count as u64);
        text.push_str(" out of range");
        return Err(AppError::CorruptFile(text));
    }
    let count: usize = slot_count as usize;
    let body: usize = V2_PREFIX_LEN + count * SLOT_LEN;
    if bytes.len() < body + NONCE_LEN + 4 {
        return Err(AppError::CorruptFile(owned("file too short")));
    }
    let mut slots: Vec<Slot> = Vec::with_capacity(count);
    let mut i: usize = 0;
    assert(slots_of(bytes@, 0) =~= Seq::<SlotView>::empty());
    assert(slot_views(slots@) =~= slots_of(bytes@, 0));
    while i < count
        invariant
            i <= count <= 4,
            body == V2_PREFIX_LEN + count * SLOT_LEN,
            body + NONCE_LEN + 4 <= bytes@.len(),
            count == bytes@[9],
            0 < count,
            slot_views(slots@) == slots_of(bytes@, i as int),
            first_kdf_error(slots_of(bytes@, i as int)) is None,
        decreases count - i,
    {
        let slot = read_slot(bytes, V2_PREFIX_LEN + i * SLOT_LEN);
        let ghost next = slots_of(bytes@, i + 1);
        assert(next.drop_last() =~= slots_of(bytes@, i as int));
        assert(next.last() == slot@);
        match check_kdf_params(slot.kdf_id, &slot.kdf_params) {
            Ok(_) => {},
            Err(e) => {
                proof {
                    assert(first_kdf_error(next) == Some(e@));
                    lemma_first_error_stays(slots_of(bytes@, count as int), i + 1);
                    assert(slots_of(bytes@, count as int).take(i + 1) =~= next);
                }
                return Err(e);
            },
        }
        let ghost before = slot_views(slots@);
        slots.push(slot);
        i = i + 1;
        assert(slot_views(slots@) =~= before.push(slot@));
        assert(next =~= before.push(slot@));
    }
    let nonce: [u8; NONCE_LEN] = array_at::<NONCE_LEN>(bytes, body);
    let ciphertext_len: u32 = read_le32(bytes, body + NONCE_LEN);
    let offset: usize = body + NONCE_LEN + 4;
    if (bytes.len() - offset) as u64 != ciphertext_len as u64 {
        return Err(AppError::CorruptFile(owned("ciphertext length mismatch")));
    }
    let ciphertext = copy_range(bytes, offset, bytes.len());
    assert(ciphertext@ =~= bytes@.skip(offset as int));
    Ok(Envelope { slots, nonce, ciphertext })
}

fn decode_v1(bytes: &[u8]) -> (r: Result<EnvelopeV1, AppError>)
    ensures
        match r {
            Ok(e) => decoded_v1(bytes@) == Ok::<EnvelopeV1View, ErrorView>(e@),
            Err(e) => decoded_v1(bytes@) == Err::<EnvelopeV1View, ErrorView>(e@),
        },
{
    if bytes.len() < V1_HEADER_LEN + NONCE_LEN + 4 {
        return Err(AppError::CorruptFile(owned("file too short")));
    }
    let kdf_id: u8 = bytes[9];
    if kdf_id != KDF_ARGON2ID {
        let mut text = owned("unknown kdf id ");
        push_decimal(&mut text, kdf_id as u64);
        return Err(AppError::CorruptFile(text));
    }
    let kdf_params = read_params(bytes, 10);
    match check_kdf_params(kdf_id, &kdf_params) {
        Ok(_) => {},
        Err(e) => return Err(e),
    }
    let salt: [u8; SALT_LEN] = array_at::<SALT_LEN>(bytes, 22);
    let nonce: [u8; NONCE_LEN] = array_at::<NONCE_LEN>(bytes, V1_HEADER_LEN);
    let ciphertext_len: u32 = read_le32(bytes, V1_HEADER_LEN + NONCE_LEN);
    let offset: usize = V1_HEADER_LEN + NONCE_LEN + 4;
    if (bytes.len() - offset) as u64 != ciphertext_len as u64 {
        return Err(AppError::CorruptFile(owned("ciphertext length mismatch")));
    }
    let ciphertext = copy_range(bytes, offset, bytes.len());
    assert(ciphertext@ =~= bytes@.skip(offset as int));
    Ok(EnvelopeV1 { kdf_params, salt, nonce, ciphertext })
}

/// Rebuilds the exact additional data that a file of the first layout was
/// written with.
pub fn header_aad_v1(envelope: &EnvelopeV1) -> (buf: Vec<u8>)
    ensures
        buf@ == header_v1_bytes(envelope@),
{
    let mut buf: Vec<u8> = Vec::with_capacity(V1_HEADER_LEN);
    push_all(&mut buf, &MAGIC);
    buf.push(FORMAT_VERSION_V1);
    buf.push(KDF_ARGON2ID);
    assert(buf@ =~= MAGIC@ + seq![FORMAT_VERSION_V1, KDF_ARGON2ID]);
    push_le32(&mut buf, envelope.kdf_params.m_cost);
    push_le32(&mut buf, envelope.kdf_params.t_cost);
    push_le32(&mut buf, envelope.kdf_params.p_cost);
    push_all(&mut buf, &envelope.salt);
    buf
}

/// An error among the first slots is the error of all of them.
proof fn lemma_first_error_stays(slots: Seq<SlotView>, k: int)
    requires
        0 <= k <= slots.len(),
        first_kdf_error(slots.take(k)) is Some,
    ensures
        first_kdf_error(slots) == first_kdf_error(slots.take(k)),
    decreases slots.len(),
{
    if k == slots.len() {
        assert(slots.take(k) =~= slots);
    } else {
        assert(slots.drop_last().take(k) =~= slots.take(k));
        lemma_first_error_stays(slots.drop_last(), k);
    }
}

/// The bytes of a slot read back as that slot.
#[verifier::spinoff_prover]
#[verifier::rlimit(60)]
proof fn lemma_slot_at(bytes: Seq<u8>, at: int, s: SlotView)
    requires
        s.sized(),
        0 <= at,
        at + SLOT_LEN <= bytes.len(),
        bytes.subrange(at, at + SLOT_LEN) == s.bytes(),
    ensures
        slot_at(bytes, at) == s,
{
    let b = s.bytes();
    lemma_le32_round_trip(s.kdf_params.m_cost);
    lemma_le32_round_trip(s.kdf_params.t_cost);
    lemma_le32_round_trip(s.kdf_params.p_cost);
    assert(b.len() == SLOT_LEN);
    assert forall|i: int| 0 <= i < SLOT_LEN implies bytes[at + i] == #[trigger] b[i] by {
        assert(bytes.subrange(at, at + SLOT_LEN)[i] == bytes[at + i]);
    }
    assert(bytes[at] == b[0] && bytes[at + 1] == b[1]);
    assert(bytes.subrange(at + 2, at + 6) =~= le32(s.kdf_params.m_cost)) by {
        assert forall|i: int| 0 <= i < 4 implies bytes[at + 2 + i] == le32(s.kdf_params.m_cost)[i] by {
            assert(b[2 + i] == le32(s.kdf_params.m_cost)[i]);
        }
    }
    assert(bytes.subrange(at + 6, at + 10) =~= le32(s.kdf_params.t_cost)) by {
        assert forall|i: int| 0 <= i < 4 implies bytes[at + 6 + i] == le32(s.kdf_params.t_cost)[i] by {
            assert(b[6 + i] == le32(s.kdf_params.t_cost)[i]);
        }
    }
    assert(bytes.subrange(at + 10, at + 14) =~= le32(s.kdf_params.p_cost)) by {
        assert forall|i: int| 0 <= i < 4 implies bytes[at + 10 + i] == le32(s.kdf_params.p_cost)[i] by {
            assert(b[10 + i] == le32(s.kdf_params.p_cost)[i]);
        }
    }
    assert(bytes.subrange(at + 14, at + 30) =~= s.salt) by {
        assert forall|i: int| 0 <= i < 16 implies bytes[at + 14 + i] == s.salt[i] by {
            assert(b[14 + i] == s.salt[i]);
        }
    }
    assert(bytes.subrange(at + 30, at + 42) =~= s.wrap_nonce) by {
        assert forall|i: int| 0 <= i < 12 implies bytes[at + 30 + i] == s.wrap_nonce[i] by {
            assert(b[30 + i] == s.wrap_nonce[i]);
        }
    }
    assert(bytes.subrange(at + 42, at + 90) =~= s.wrapped_mk) by {
        assert forall|i: int| 0 <= i < 48 implies bytes[at + 42 + i] == s.wrapped_mk[i] by {
            assert(b[42 + i] == s.wrapped_mk[i]);
        }
    }
}

/// The bytes read as a slot are that slot's bytes.
proof fn lemma_slot_bytes(bytes: Seq<u8>, at: int)
    requires
        0 <= at,
        at + SLOT_LEN <= bytes.len(),
    ensures
        slot_at(bytes, at).sized(),
        slot_at(bytes, at).bytes() == bytes.subrange(at, at + SLOT_LEN),
{
    let s = slot_at(bytes, at);
    lemma_le32_bytes(bytes.subrange(at + 2, at + 6));
    lemma_le32_bytes(bytes.subrange(at + 6, at + 10));
    lemma_le32_bytes(bytes.subrange(at + 10, at + 14));
    assert(s.bytes() =~= bytes.subrange(at, at + SLOT_LEN));
}

/// Whether every slot has parts of the right lengths.
pub open spec fn all_sized(slots: Seq<SlotView>) -> bool {
    forall|i: int| 0 <= i < slots.len() ==> (#[trigger] slots[i]).sized()
}

/// Each slot stands in its own 90 bytes.
proof fn lemma_slots_bytes(slots: Seq<SlotView>)
    requires
        all_sized(slots),
    ensures
        slots_bytes(slots).len() == slots.len() * SLOT_LEN,
        forall|i: int|
            0 <= i < slots.len() ==> slots_bytes(slots).subrange(i * SLOT_LEN, i * SLOT_LEN + SLOT_LEN)
                == (#[trigger] slots[i]).bytes(),
    decreases slots.len(),
{
    if slots.len() > 0 {
        let front = slots.drop_last();
        assert forall|i: int| 0 <= i < front.len() implies (#[trigger] front[i]).sized() by {
            assert(front[i] == slots[i]);
        }
        lemma_slots_bytes(front);
        let last = slots.last();
        assert(last.sized());
        assert(last.bytes().len() == SLOT_LEN);
        assert forall|i: int| 0 <= i < slots.len() implies slots_bytes(slots).subrange(
            i * SLOT_LEN,
            i * SLOT_LEN + SLOT_LEN,
        ) == (#[trigger] slots[i]).bytes() by {
            if i < front.len() {
                assert(front[i] == slots[i]);
                assert(slots_bytes(slots).subrange(i * SLOT_LEN, i * SLOT_LEN + SLOT_LEN) =~= slots_bytes(
                    front,
                ).subrange(i * SLOT_LEN, i * SLOT_LEN + SLOT_LEN));
            } else {
                assert(slots_bytes(slots).subrange(i * SLOT_LEN, i * SLOT_LEN + SLOT_LEN) =~= last.bytes());
            }
        }
    }
}

/// Whether a file of the current layout is made of these parts, one behind the
/// other.
#[verifier::opaque]
spec fn made_of(bytes: Seq<u8>, slots: Seq<SlotView>, nonce: Seq<u8>, ciphertext: Seq<u8>) -> bool {
    let body = V2_PREFIX_LEN + slots.len() * SLOT_LEN;
    &&& bytes.len() == body + 16 + ciphertext.len()
    &&& bytes.subrange(0, 8) == MAGIC@
    &&& bytes[8] == FORMAT_VERSION
    &&& bytes[9] == slots.len()
    &&& bytes.subrange(10, body) == slots_bytes(slots)
    &&& bytes.subrange(body, body + 12) == nonce
    &&& bytes.subrange(body + 12, body + 16) == le32(ciphertext.len() as u32)
    &&& bytes.skip(body + 16) == ciphertext
}

/// A vault file that was encoded decodes to what was encoded: the same slots in
/// the same order, the same nonce and the same ciphertext.
pub proof fn encoded_file_decodes(slots: Seq<SlotView>, nonce: Seq<u8>, ciphertext: Seq<u8>)
    requires
        all_sized(slots),
        1 <= slots.len() <= MAX_SLOTS,
        first_kdf_error(slots) is None,
        nonce.len() == NONCE_LEN,
        ciphertext.len() < 0x1_0000_0000,
    ensures
        !ends_before_slot_count(file_bytes(slots, nonce, ciphertext)),
        decoded_any(file_bytes(slots, nonce, ciphertext)) == Ok::<AnyView, ErrorView>(
            AnyView::V2(EnvelopeView { slots, nonce, ciphertext }),
        ),
{
    lemma_file_made_of(slots, nonce, ciphertext);
    lemma_made_of_decodes(file_bytes(slots, nonce, ciphertext), slots, nonce, ciphertext);
}

/// Each slot reads back from its own 90 bytes.
proof fn lemma_slots_read_back(bytes: Seq<u8>, slots: Seq<SlotView>, body: int)
    requires
        all_sized(slots),
        body == V2_PREFIX_LEN + slots.len() * SLOT_LEN,
        body <= bytes.len(),
        bytes.subrange(10, body) == slots_bytes(slots),
    ensures
        slots_of(bytes, slots.len() as int) == slots,
{
    let n = slots.len() as int;
    lemma_slots_bytes(slots);
    assert forall|i: int| 0 <= i < n implies slot_at(bytes, V2_PREFIX_LEN + i * SLOT_LEN) == #[trigger] slots[i] by {
        let at = V2_PREFIX_LEN + i * SLOT_LEN;
        assert(bytes.subrange(at, at + SLOT_LEN) =~= bytes.subrange(10, body).subrange(
            i * SLOT_LEN,
            i * SLOT_LEN + SLOT_LEN,
        ));
        assert(slots[i].sized());
        lemma_slot_at(bytes, at, slots[i]);
    }
    assert(slots_of(bytes, n) =~= slots);
}

/// A file made of these parts decodes to them.
proof fn lemma_made_of_decodes(bytes: Seq<u8>, slots: Seq<SlotView>, nonce: Seq<u8>, ciphertext: Seq<u8>)
    requires
        all_sized(slots),
        1 <= slots.len() <= MAX_SLOTS,
        first_kdf_error(slots) is None,
        ciphertext.len() < 0x1_0000_0000,
        made_of(bytes, slots, nonce, ciphertext),
    ensures
        !ends_before_slot_count(bytes),
        decoded_any(bytes) == Ok::<AnyView, ErrorView>(AnyView::V2(EnvelopeView { slots, nonce, ciphertext })),
{
    reveal(made_of);
    let body = V2_PREFIX_LEN + slots.len() * SLOT_LEN;
    lemma_slots_read_back(bytes, slots, body);
    let len = bytes.subrange(body + 12, body + 16);
    lemma_le32_round_trip(ciphertext.len() as u32);
    assert(from_le32(len) == ciphertext.len());
    lemma_parts_decode(bytes, slots, nonce, ciphertext, body);
}

/// A file with these parts decodes to them.
proof fn lemma_parts_decode(bytes: Seq<u8>, slots: Seq<SlotView>, nonce: Seq<u8>, ciphertext: Seq<u8>, body: int)
    requires
        1 <= slots.len() <= MAX_SLOTS,
        body == V2_PREFIX_LEN + slots.len() * SLOT_LEN,
        first_kdf_error(slots) is None,
        bytes.len() == body + 16 + ciphertext.len(),
        bytes.subrange(0, 8) == MAGIC@,
        bytes[8] == FORMAT_VERSION,
        bytes[9] == slots.len(),
        slots_of(bytes, slots.len() as int) == slots,
        bytes.subrange(body, body + 12) == nonce,
        from_le32(bytes.subrange(body + 12, body + 16)) == ciphertext.len(),
        bytes.skip(body + 16) == ciphertext,
    ensures
        decoded_any(bytes) == Ok::<AnyView, ErrorView>(AnyView::V2(EnvelopeView { slots, nonce, ciphertext })),
{
}

/// An encoded file is made of its parts.
proof fn lemma_file_made_of(slots: Seq<SlotView>, nonce: Seq<u8>, ciphertext: Seq<u8>)
    requires
        all_sized(slots),
        slots.len() <= MAX_SLOTS,
        nonce.len() == NONCE_LEN,
        ciphertext.len() < 0x1_0000_0000,
    ensures
        made_of(file_bytes(slots, nonce, ciphertext), slots, nonce, ciphertext),
{
    lemma_slots_bytes(slots);
    let len = le32((ciphertext.len() % 0x1_0000_0000) as u32);
    lemma_le32_round_trip((ciphertext.len() % 0x1_0000_0000) as u32);
    let prefix = MAGIC@ + seq![FORMAT_VERSION, (slots.len() % 256) as u8];
    assert(MAGIC@.len() == 8);
    assert(prefix.subrange(0, 8) =~= MAGIC@);
    lemma_five_parts(prefix, slots_bytes(slots), nonce, len, ciphertext);
    reveal(made_of);
    let bytes = file_bytes(slots, nonce, ciphertext);
    assert(bytes == prefix + slots_bytes(slots) + nonce + len + ciphertext);
    assert(bytes.subrange(0, 8) =~= bytes.subrange(0, 10).subrange(0, 8));
    assert(bytes[8] == bytes.subrange(0, 10)[8]);
    assert(bytes[9] == bytes.subrange(0, 10)[9]);
}

/// Where five parts stand that are put one behind the other.
proof fn lemma_five_parts(a: Seq<u8>, b: Seq<u8>, c: Seq<u8>, d: Seq<u8>, e: Seq<u8>)
    requires
        a.len() == 10,
        c.len() == 12,
        d.len() == 4,
    ensures
        ({
            let s = a + b + c + d + e;
            let body = 10 + b.len() as int;
            &&& s.len() == body + 16 + e.len()
            &&& s.subrange(0, 10) == a
            &&& s.subrange(10, body) == b
            &&& s.subrange(body, body + 12) == c
            &&& s.subrange(body + 12, body + 16) == d
            &&& s.skip(body + 16) == e
        }),
{
    let s = a + b + c + d + e;
    let body = 10 + b.len() as int;
    assert(s.subrange(0, 10) =~= a);
    assert(s.subrange(10, body) =~= b);
    assert(s.subrange(body, body + 12) =~= c);
    assert(s.subrange(body + 12, body + 16) =~= d);
    assert(s.skip(body + 16) =~= e);
}

/// A file that decodes is exactly what encoding the decoded parts gives, so no
/// two files decode to the same vault, and its header is the body's additional
/// data.
pub proof fn decoded_file_encodes_back(bytes: Seq<u8>, e: EnvelopeView)
    requires
        decoded_any(bytes) == Ok::<AnyView, ErrorView>(AnyView::V2(e)),
        !ends_before_slot_count(bytes),
    ensures
        file_bytes(e.slots, e.nonce, e.ciphertext) == bytes,
        header_bytes(e.slots) == bytes.take((V2_PREFIX_LEN + e.slots.len() * SLOT_LEN) as int),
        all_sized(e.slots),
        1 <= e.slots.len() <= MAX_SLOTS,
        first_kdf_error(e.slots) is None,
{
    lemma_decoded_made_of(bytes, e);
    lemma_made_of_encodes(bytes, e.slots, e.nonce, e.ciphertext);
}

/// A decoded file is made of its parts.
proof fn lemma_decoded_made_of(bytes: Seq<u8>, e: EnvelopeView)
    requires
        decoded_any(bytes) == Ok::<AnyView, ErrorView>(AnyView::V2(e)),
        !ends_before_slot_count(bytes),
    ensures
        made_of(bytes, e.slots, e.nonce, e.ciphertext),
        all_sized(e.slots),
        1 <= e.slots.len() <= MAX_SLOTS,
        first_kdf_error(e.slots) is None,
        e.nonce.len() == NONCE_LEN,
        e.ciphertext.len() < 0x1_0000_0000,
{
    let n = bytes[9] as int;
    let body = V2_PREFIX_LEN + n * SLOT_LEN;
    let slots = e.slots;
    lemma_decoded_parts(bytes, e);
    assert forall|i: int| 0 <= i < slots.len() implies (#[trigger] slots[i]).sized() by {
        lemma_slot_bytes(bytes, V2_PREFIX_LEN + i * SLOT_LEN);
    }
    lemma_slots_from_file(bytes, n);
    let len_bytes = bytes.subrange(body + 12, body + 16);
    lemma_le32_bytes(len_bytes);
    assert(from_le32(len_bytes) == e.ciphertext.len());
    reveal(made_of);
}

/// A file made of these parts is their encoding.
proof fn lemma_made_of_encodes(bytes: Seq<u8>, slots: Seq<SlotView>, nonce: Seq<u8>, ciphertext: Seq<u8>)
    requires
        made_of(bytes, slots, nonce, ciphertext),
        all_sized(slots),
        slots.len() <= MAX_SLOTS,
        nonce.len() == NONCE_LEN,
        ciphertext.len() < 0x1_0000_0000,
    ensures
        file_bytes(slots, nonce, ciphertext) == bytes,
        header_bytes(slots) == bytes.take((V2_PREFIX_LEN + slots.len() * SLOT_LEN) as int),
{
    reveal(made_of);
    let body = V2_PREFIX_LEN + slots.len() * SLOT_LEN;
    lemma_header_from_file(bytes, slots, body);
    let header = bytes.take(body);
    let len = bytes.subrange(body + 12, body + 16);
    assert(header + bytes.subrange(body, body + 12) + len + bytes.skip(body + 16) =~= bytes);
}

/// The parts that a decoded file is made of.
proof fn lemma_decoded_parts(bytes: Seq<u8>, e: EnvelopeView)
    requires
        decoded_any(bytes) == Ok::<AnyView, ErrorView>(AnyView::V2(e)),
        !ends_before_slot_count(bytes),
    ensures
        ({
            let n = bytes[9] as int;
            let body = V2_PREFIX_LEN + n * SLOT_LEN;
            &&& 1 <= n <= MAX_SLOTS
            &&& body + 16 <= bytes.len()
            &&& bytes.len() == body + 16 + from_le32(bytes.subrange(body + 12, body + 16))
            &&& bytes.subrange(0, 8) == MAGIC@
            &&& bytes[8] == FORMAT_VERSION
            &&& e.slots == slots_of(bytes, n)
            &&& e.nonce == bytes.subrange(body, body + 12)
            &&& e.ciphertext == bytes.skip(body + 16)
            &&& first_kdf_error(e.slots) is None
        }),
{
}

/// The header in a file is the encoding of its slots.
proof fn lemma_header_from_file(bytes: Seq<u8>, slots: Seq<SlotView>, body: int)
    requires
        slots.len() == bytes[9],
        body == V2_PREFIX_LEN + slots.len() * SLOT_LEN,
        body <= bytes.len(),
        bytes.subrange(0, 8) == MAGIC@,
        bytes[8] == FORMAT_VERSION,
        slots_bytes(slots) == bytes.subrange(V2_PREFIX_LEN as int, body),
    ensures
        header_bytes(slots) == bytes.take(body),
{
    assert(MAGIC@.len() == 8);
    assert(bytes.subrange(0, 8) + seq![bytes[8], bytes[9]] + bytes.subrange(10, body) =~= bytes.take(body));
}

/// The slots read from a file are the bytes behind its prefix.
proof fn lemma_slots_from_file(bytes: Seq<u8>, n: int)
    requires
        0 <= n,
        V2_PREFIX_LEN + n * SLOT_LEN <= bytes.len(),
    ensures
        slots_bytes(slots_of(bytes, n)) == bytes.subrange(V2_PREFIX_LEN as int, V2_PREFIX_LEN + n * SLOT_LEN),
    decreases n,
{
    if n > 0 {
        lemma_slots_from_file(bytes, n - 1);
        assert(slots_of(bytes, n).drop_last() =~= slots_of(bytes, n - 1));
        lemma_slot_bytes(bytes, V2_PREFIX_LEN + (n - 1) * SLOT_LEN);
    }
    assert(slots_bytes(slots_of(bytes, n)) =~= bytes.subrange(V2_PREFIX_LEN as int, V2_PREFIX_LEN + n * SLOT_LEN));
}

/// The body's additional data covers every slot in full: change any part of any
/// slot, or their number or order, and it changes.
#[verifier::spinoff_prover]
#[verifier::rlimit(60)]
pub proof fn header_covers_every_slot(a: Seq<SlotView>, b: Seq<SlotView>)
    requires
        all_sized(a),
        all_sized(b),
        header_bytes(a) == header_bytes(b),
    ensures
        a == b,
{
    lemma_slots_bytes(a);
    lemma_slots_bytes(b);
    assert(MAGIC@.len() == 8);
    assert(header_bytes(a).len() == 10 + a.len() * SLOT_LEN);
    assert(header_bytes(b).len() == 10 + b.len() * SLOT_LEN);
    assert(a.len() == b.len());
    assert forall|i: int| 0 <= i < a.len() implies a[i] == b[i] by {
        let at = V2_PREFIX_LEN + i * SLOT_LEN;
        assert(header_bytes(a).subrange(at, at + SLOT_LEN) =~= slots_bytes(a).subrange(
            i * SLOT_LEN,
            i * SLOT_LEN + SLOT_LEN,
        ));
        assert(header_bytes(b).subrange(at, at + SLOT_LEN) =~= slots_bytes(b).subrange(
            i * SLOT_LEN,
            i * SLOT_LEN + SLOT_LEN,
        ));
        assert(a[i].sized() && b[i].sized());
        lemma_slot_at(header_bytes(a), at, a[i]);
        lemma_slot_at(header_bytes(b), at, b[i]);
    }
    assert(a =~= b);
}

/// A slot's own additional data covers its whole descriptor, and nothing of its
/// nonce or wrapped key.
pub proof fn slot_aad_covers_the_descriptor(a: SlotView, b: SlotView)
    requires
        a.sized(),
        b.sized(),
    ensures
        a.desc() == b.desc() <==> a.kind == b.kind && a.kdf_id == b.kdf_id && a.kdf_params == b.kdf_params && a.salt
            == b.salt,
{
    if a.desc() == b.desc() {
        let c = SlotView { wrap_nonce: a.wrap_nonce, wrapped_mk: a.wrapped_mk, ..b };
        assert(a.bytes() == c.bytes());
        assert(a.bytes().len() == SLOT_LEN);
        assert(a.bytes().subrange(0, 90) =~= a.bytes());
        lemma_slot_at(a.bytes(), 0, a);
        lemma_slot_at(a.bytes(), 0, c);
    }
}

/// The additional data rebuilt for a file of the first layout is the header
/// that the file begins with, byte for byte.
pub proof fn v1_header_is_rebuilt(bytes: Seq<u8>, e: EnvelopeV1View)
    requires
        decoded_any(bytes) == Ok::<AnyView, ErrorView>(AnyView::V1(e)),
    ensures
        header_v1_bytes(e) == bytes.take(V1_HEADER_LEN as int),
{
    lemma_le32_bytes(bytes.subrange(10, 14));
    lemma_le32_bytes(bytes.subrange(14, 18));
    lemma_le32_bytes(bytes.subrange(18, 22));
    assert(MAGIC@.len() == 8);
    assert forall|i: int| 0 <= i < 8 implies MAGIC@[i] == bytes[i] by {
        assert(bytes.subrange(0, 8)[i] == bytes[i]);
    }
    assert(header_v1_bytes(e) =~= bytes.take(38));
}

/// A file that does not begin with the eight bytes `SSHCTRL1` is not ours; of ours,
/// version 1 and version 2 are read, and any other is refused by its number.
pub proof fn only_our_files_are_read(bytes: Seq<u8>)
    requires
        bytes.len() >= 9,
    ensures
        bytes.subrange(0, 8) != seq![83u8, 83, 72, 67, 84, 82, 76, 49] ==> decoded_any(bytes) == Err::<AnyView, ErrorView>(
            ErrorView::NotOurFile,
        ),
        bytes.subrange(0, 8) == seq![83u8, 83, 72, 67, 84, 82, 76, 49] && bytes[8] != 1 && bytes[8] != 2 ==> decoded_any(
            bytes,
        ) == Err::<AnyView, ErrorView>(ErrorView::UnsupportedFormatVersion(bytes[8])),
        decoded_any(bytes) matches Ok(AnyView::V1(_)) ==> bytes[8] == 1,
        decoded_any(bytes) matches Ok(AnyView::V2(_)) ==> bytes[8] == 2,
{
    assert(MAGIC@ =~= seq![83u8, 83, 72, 67, 84, 82, 76, 49]);
}

/// Costs are taken from 8 KiB to 1 GiB, from one pass to 64, and from one lane to
/// 64; outside of that the file is corrupt, and so it is with an unknown kdf. A
/// device slot has no costs to check.
pub proof fn costs_are_bounded(kdf_id: u8, params: KdfParams)
    ensures
        kdf_id == 1 ==> (kdf_error(kdf_id, params) is None <==> 8 <= params.m_cost <= 1_048_576 && 1 <= params.t_cost
            <= 64 && 1 <= params.p_cost <= 64),
        kdf_id == 2 ==> kdf_error(kdf_id, params) is None,
        kdf_id != 1 && kdf_id != 2 ==> kdf_error(kdf_id, params) == Some(
            ErrorView::CorruptFile("unknown kdf id "@ + decimal(kdf_id as nat)),
        ),
        kdf_error(kdf_id, params) matches Some(e) ==> e is CorruptFile,
{
}

/// A file has one slot to four.
pub proof fn a_file_has_one_slot_to_four(bytes: Seq<u8>)
    requires
        bytes.len() >= 10,
    ensures
        bytes[9] == 0 || bytes[9] > 4 ==> decoded_v2(bytes) == Err::<EnvelopeView, ErrorView>(
            ErrorView::CorruptFile("slot count "@ + decimal(bytes[9] as nat) + " out of range"@),
        ),
        decoded_v2(bytes) matches Ok(e) ==> e.slots.len() == bytes[9] && 1 <= e.slots.len() <= 4,
{
}

/// The descriptor of a slot is its kind, its kdf, its three costs and its salt, in
/// this order; the slot is that, its nonce and the wrapped key.
pub proof fn a_slot_is_laid_out_in_order(slot: SlotView)
    ensures
        slot.desc() == seq![slot.kind, slot.kdf_id] + le32(slot.kdf_params.m_cost) + le32(slot.kdf_params.t_cost) + le32(
            slot.kdf_params.p_cost,
        ) + slot.salt,
        slot.bytes() == slot.desc() + slot.wrap_nonce + slot.wrapped_mk,
        SLOT_PASSWORD == 1 && SLOT_DEVICE == 2 && KDF_ARGON2ID == 1 && KDF_HKDF_SHA256 == 2,
{
}

/// A file of the first layout is its header, its nonce, the length of the sealed
/// part and that part, with nothing behind it.
pub proof fn an_old_file_is_read_by_its_layout(bytes: Seq<u8>, e: EnvelopeV1View)
    requires
        decoded_any(bytes) == Ok::<AnyView, ErrorView>(AnyView::V1(e)),
    ensures
        bytes == header_v1_bytes(e) + e.nonce + le32(e.ciphertext.len() as u32) + e.ciphertext,
        e.nonce.len() == 12,
        e.salt.len() == 16,
{
    v1_header_is_rebuilt(bytes, e);
    lemma_le32_bytes(bytes.subrange(50, 54));
    assert(bytes =~= bytes.take(38) + e.nonce + bytes.subrange(50, 54) + e.ciphertext);
}

} // verus!
