//! The encrypted-notification side channel: per-recipient seeds, per-channel
//! counters, deterministic notification ids, and authenticated encryption of
//! the pushed game state.
//!
//! The state is an explicit value handed in by the host; every function
//! states exactly how it reads or changes it. The cryptographic primitives
//! themselves are named, trusted wrappers (see `crypto`).

use vstd::prelude::*;

use crate::crypto::cbor_encode_game_update;
use crate::crypto::cbor_game_update_of;
use crate::crypto::chacha20poly1305_of;
use crate::crypto::chacha20poly1305_seal;
use crate::crypto::hkdf_sha256;
use crate::crypto::hkdf_sha256_of;
use crate::crypto::hmac_sha256;
use crate::crypto::hmac_sha256_of;
use crate::crypto::sha256;
use crate::crypto::sha256_of;
use crate::strmap::StrMap;
use crate::util::append_bytes;
use crate::util::append_slice;
use crate::util::bytes_eq;
use crate::util::contains_string;
use crate::util::dup_bytes;
use crate::util::dup_strings;
use crate::util::spec_contains_string;
use crate::util::spec_dec_bytes;
use crate::util::u64_dec_bytes;
use vstd::utf8::encode_utf8;

verus! {

/// Notifications are padded to a multiple of this many bytes before
/// encryption, so third parties learn nothing from the ciphertext length.
pub const DATA_LEN: usize = 256;

/// id for the `game_listed` channel
pub const GAME_LISTED_CHANNEL_ID: &'static str = "game_listed";

/// CDDL Schema for game listed data
pub const GAME_LISTED_CHANNEL_SCHEMA: &'static str =
    "game_listed=[game_id:text,title:text,wager_uscrt:biguint]";

/// id for the `game_updated` channel
pub const GAME_UPDATED_CHANNEL_ID: &'static str = "game_updated";

/// CDDL Schema for the game updated data
pub const GAME_UPDATED_CHANNEL_SCHEMA: &'static str =
    "game_updated=[game_id:text,home:[100 uint],turn:uint]";

/// Why a seed rotation was refused.
#[derive(Clone, Copy, PartialEq, Eq, Structural, Debug)]
pub enum NotifyError {
    /// the signature of the signed document did not verify
    InvalidSignature,
    /// the document was signed by an account other than the sender
    WrongSigner,
    /// the document names another contract
    WrongContract,
    /// the document's `previous_seed` is not the sender's current seed
    WrongPreviousSeed,
}

/// A named notification topic, with an optional CDDL schema for its payload.
pub struct Channel {
    pub id: String,
    pub schema: Option<String>,
}

/// The whole notification side-channel state: the contract-wide secret,
/// explicitly stored per-address seeds, per-channel per-address counters,
/// and the channel registry.
pub struct NotificationState {
    /// contract-wide secret that absent seeds are derived from
    pub secret: Vec<u8>,
    /// explicitly stored seeds, by recipient address
    pub seeds: StrMap<Vec<u8>>,
    /// notification counters: channel id, then recipient address
    pub counters: StrMap<StrMap<u64>>,
    /// registered channel ids
    pub channels: Vec<String>,
    /// CDDL schema per channel id
    pub schemata: StrMap<String>,
}

impl NotificationState {
    /// Every stored seed is 32 bytes (a SHA-256 digest or HKDF output).
    pub open spec fn wf(self) -> bool {
        forall|a: Seq<char>| self.seeds@.contains_key(a) ==> (#[trigger] self.seeds@[a])@.len()
            == 32
    }

    pub fn new(secret: Vec<u8>) -> (r: Self)
        ensures
            r.wf(),
            r.secret@ == secret@,
            r.seeds@ == Map::<Seq<char>, Vec<u8>>::empty(),
            r.counters@ == Map::<Seq<char>, StrMap<u64>>::empty(),
            r.channels@ == Seq::<String>::empty(),
            r.schemata@ == Map::<Seq<char>, String>::empty(),
    {
        NotificationState {
            secret,
            seeds: StrMap::new(),
            counters: StrMap::new(),
            channels: Vec::new(),
            schemata: StrMap::new(),
        }
    }
}

/// The counter for `channel` and `addr`: stored value, or 0.
pub open spec fn spec_count(state: NotificationState, channel: Seq<char>, addr: Seq<char>) -> u64 {
    if state.counters@.contains_key(channel) && state.counters@[channel]@.contains_key(addr) {
        state.counters@[channel]@[addr]
    } else {
        0
    }
}

/// The seed for `addr`: the stored one, or else derived from the
/// contract-wide secret and the address, without being persisted.
pub open spec fn spec_seed(state: NotificationState, addr: Seq<char>) -> Seq<u8> {
    if state.seeds@.contains_key(addr) {
        state.seeds@[addr]@
    } else {
        hkdf_sha256_of(state.secret@, encode_utf8(addr))
    }
}

/// The HMAC material for a notification id: `channel ":" decimal(counter)`.
pub open spec fn material_of(channel: Seq<char>, counter: u64) -> Seq<u8> {
    encode_utf8(channel) + seq![58u8] + spec_dec_bytes(counter)
}

/// The notification id before the counter is incremented.
pub open spec fn spec_notification_id(
    state: NotificationState,
    addr: Seq<char>,
    channel: Seq<char>,
) -> Seq<u8> {
    hmac_sha256_of(spec_seed(state, addr), material_of(channel, spec_count(state, channel, addr)))
}

/// The counter as 8 big-endian bytes.
pub open spec fn spec_be64(n: u64) -> Seq<u8> {
    seq![
        (n >> 56) as u8,
        (n >> 48) as u8,
        (n >> 40) as u8,
        (n >> 32) as u8,
        (n >> 24) as u8,
        (n >> 16) as u8,
        (n >> 8) as u8,
        n as u8,
    ]
}

/// The 12-byte nonce: the first 12 bytes of the channel id's SHA-256,
/// XOR-ed with the counter (big-endian, left-padded with four zero bytes).
pub open spec fn nonce_of(channel: Seq<char>, counter: u64) -> Seq<u8> {
    Seq::new(
        12,
        |i: int|
            sha256_of(encode_utf8(channel))[i] ^ (seq![0u8, 0u8, 0u8, 0u8] + spec_be64(counter))[i],
    )
}

/// `m` padded with zero bytes to the next multiple of `b` (unchanged when
/// already a multiple).
pub open spec fn spec_zero_pad(m: Seq<u8>, b: int) -> Seq<u8> {
    if b >= 1 && m.len() as int % b != 0 {
        m + Seq::new((b - m.len() as int % b) as nat, |i: int| 0u8)
    } else {
        m
    }
}

/// The associated data: `decimal(block_height) ":" sender`.
pub open spec fn aad_of(height: u64, sender: Seq<char>) -> Seq<u8> {
    spec_dec_bytes(height) + seq![58u8] + encode_utf8(sender)
}

/// The encrypted payload for a notification, before the counter is
/// incremented.
pub open spec fn spec_encrypted(
    state: NotificationState,
    height: u64,
    sender: Seq<char>,
    recipient: Seq<char>,
    channel: Seq<char>,
    plaintext: Seq<u8>,
) -> Seq<u8> {
    chacha20poly1305_of(
        spec_seed(state, recipient),
        nonce_of(channel, spec_count(state, channel, recipient)),
        spec_zero_pad(plaintext, DATA_LEN as int),
        aad_of(height, sender),
    )
}

/// Everything but the counter table is unchanged, and in the counter table
/// only (`channel`, `addr`) differs.
pub open spec fn only_counter_bumped(
    old_state: NotificationState,
    new_state: NotificationState,
    channel: Seq<char>,
    addr: Seq<char>,
) -> bool {
    &&& new_state.secret == old_state.secret
    &&& new_state.seeds == old_state.seeds
    &&& new_state.channels == old_state.channels
    &&& new_state.schemata == old_state.schemata
    &&& spec_count(new_state, channel, addr) == spec_count(old_state, channel, addr).wrapping_add(
        1,
    )
    &&& forall|c: Seq<char>, a: Seq<char>|
        !(c == channel && a == addr) ==> spec_count(new_state, c, a) == spec_count(old_state, c, a)
}

/// Take a `Vec<u8>` and pad it up to a multiple of `block_size`, using 0x00
/// at the end.
pub fn zero_pad(message: &mut Vec<u8>, block_size: usize)
    requires
        block_size >= 1,
        old(message)@.len() + block_size <= usize::MAX,
    ensures
        final(message)@ == spec_zero_pad(old(message)@, block_size as int),
{
    let len = message.len();
    let surplus = len % block_size;
    if surplus == 0 {
        return ;
    }
    let missing = block_size - surplus;
    let mut k: usize = 0;
    while k < missing
        invariant
            k <= missing,
            missing == block_size - (old(message)@.len() as int % (block_size as int)),
            block_size >= 1,
            old(message)@.len() + block_size <= usize::MAX,
            message@ == old(message)@ + Seq::new(k as nat, |i: int| 0u8),
        decreases missing - k,
    {
        message.push(0);
        k = k + 1;
        proof {
            assert(old(message)@ + Seq::new((k - 1) as nat, |i: int| 0u8) + seq![0u8]
                =~= old(message)@ + Seq::new(k as nat, |i: int| 0u8));
        }
    }
}

/// get counter for a given address
pub fn get_count(state: &NotificationState, channel: &String, addr: &String) -> (r: u64)
    ensures
        r == spec_count(*state, channel@, addr@),
{
    match state.counters.get(channel) {
        Some(inner) => match inner.get(addr) {
            Some(c) => *c,
            None => 0,
        },
        None => 0,
    }
}

/// increment counter for a given address
pub fn increment_count(state: &mut NotificationState, channel: &String, addr: &String) -> (r: u64)
    ensures
        r == spec_count(*old(state), channel@, addr@).wrapping_add(1),
        only_counter_bumped(*old(state), *final(state), channel@, addr@),
{
    let mut inner: StrMap<u64> = match state.counters.take(channel) {
        Some(m) => m,
        None => StrMap::new(),
    };
    let count = match inner.get(addr) {
        Some(c) => *c,
        None => 0,
    };
    let new_count = count.wrapping_add(1);
    inner.insert(addr.clone(), new_count);
    state.counters.insert(channel.clone(), inner);
    proof {
        assert(spec_count(*state, channel@, addr@) == new_count);
        assert forall|c: Seq<char>, a: Seq<char>| !(c == channel@ && a == addr@) implies spec_count(
            *state,
            c,
            a,
        ) == spec_count(*old(state), c, a) by {
            if c == channel@ {
                assert(state.counters@[c]@.contains_key(a) == (old(
                    state,
                ).counters@.contains_key(c) && old(state).counters@[c]@.contains_key(a)));
            }
        }
    }
    new_count
}

/// store the seed for a given address
pub fn store_seed(state: &mut NotificationState, addr: &String, seed: Vec<u8>)
    requires
        seed@.len() == 32,
    ensures
        final(state).seeds@ == old(state).seeds@.insert(addr@, seed),
        final(state).secret == old(state).secret,
        final(state).counters == old(state).counters,
        final(state).channels == old(state).channels,
        final(state).schemata == old(state).schemata,
        old(state).wf() ==> final(state).wf(),
{
    state.seeds.insert(addr.clone(), seed);
}

/// get the seed for a given address: the stored one, or one derived from
/// the contract-wide secret and the address (not persisted).
pub fn get_seed(state: &NotificationState, addr: &String) -> (r: Vec<u8>)
    ensures
        r@ == spec_seed(*state, addr@),
        state.wf() ==> r@.len() == 32,
{
    match state.seeds.get(addr) {
        Some(s) => dup_bytes(s),
        None => hkdf_sha256(state.secret.as_slice(), addr.as_str().as_bytes()),
    }
}

/// Returns a notification id for the given address and channel id:
/// HMAC-SHA-256 over `channel ":" decimal(counter)` keyed by the
/// recipient's seed.
pub fn notification_id(state: &NotificationState, addr: &String, channel: &String) -> (r: Vec<u8>)
    ensures
        r@ == spec_notification_id(*state, addr@, channel@),
{
    let counter = get_count(state, channel, addr);
    let seed = get_seed(state, addr);
    let mut material: Vec<u8> = Vec::new();
    append_slice(&mut material, channel.as_str().as_bytes());
    material.push(58);
    let dec = u64_dec_bytes(counter);
    append_bytes(&mut material, &dec);
    proof {
        assert(material@ =~= material_of(channel@, counter));
    }
    hmac_sha256(seed.as_slice(), material.as_slice())
}

/// Returns encrypted bytes given plaintext bytes, recipient address, and
/// channel id: the plaintext is zero-padded to a block, the nonce is the
/// channel hash XOR-ed with the counter, and the associated data binds the
/// block height and sender.
pub fn encrypt_notification_data(
    state: &NotificationState,
    block_height: u64,
    sender: &String,
    recipient: &String,
    channel: &String,
    plaintext: Vec<u8>,
) -> (r: Vec<u8>)
    requires
        state.wf(),
        plaintext@.len() + DATA_LEN < 0x10000000,
    ensures
        r@ == spec_encrypted(*state, block_height, sender@, recipient@, channel@, plaintext@),
        r@.len() == spec_zero_pad(plaintext@, DATA_LEN as int).len() + 16,
{
    let counter = get_count(state, channel, recipient);
    let mut padded_plaintext = plaintext;
    zero_pad(&mut padded_plaintext, DATA_LEN);

    let seed = get_seed(state, recipient);
    let channel_hash = sha256(channel.as_str().as_bytes());

    let mut counter_bytes: Vec<u8> = Vec::new();
    counter_bytes.push(0);
    counter_bytes.push(0);
    counter_bytes.push(0);
    counter_bytes.push(0);
    counter_bytes.push((counter >> 56) as u8);
    counter_bytes.push((counter >> 48) as u8);
    counter_bytes.push((counter >> 40) as u8);
    counter_bytes.push((counter >> 32) as u8);
    counter_bytes.push((counter >> 24) as u8);
    counter_bytes.push((counter >> 16) as u8);
    counter_bytes.push((counter >> 8) as u8);
    counter_bytes.push(counter as u8);
    proof {
        assert(counter_bytes@ =~= seq![0u8, 0u8, 0u8, 0u8] + spec_be64(counter));
    }

    let mut nonce: Vec<u8> = Vec::new();
    let mut i: usize = 0;
    while i < 12
        invariant
            i <= 12,
            channel_hash@.len() == 32,
            counter_bytes@.len() == 12,
            counter_bytes@ == seq![0u8, 0u8, 0u8, 0u8] + spec_be64(counter),
            channel_hash@ == sha256_of(encode_utf8(channel@)),
            nonce@.len() == i,
            forall|j: int| 0 <= j < i ==> nonce@[j] == nonce_of(channel@, counter)[j],
        decreases 12 - i,
    {
        nonce.push(channel_hash[i] ^ counter_bytes[i]);
        i = i + 1;
    }
    proof {
        assert(nonce@ =~= nonce_of(channel@, counter));
    }

    let mut aad: Vec<u8> = Vec::new();
    let height_dec = u64_dec_bytes(block_height);
    append_bytes(&mut aad, &height_dec);
    aad.push(58);
    append_slice(&mut aad, sender.as_str().as_bytes());
    proof {
        assert(aad@ =~= aad_of(block_height, sender@));
    }

    chacha20poly1305_seal(
        seed.as_slice(),
        nonce.as_slice(),
        padded_plaintext.as_slice(),
        aad.as_slice(),
    )
}

/// Allows clients to set a new shared secret. The host has already checked
/// the detached signature of the signed document against its embedded
/// public key and derived the signer's account; this function makes the
/// remaining decisions: the signer must be the sender, the document must
/// name this contract, and its `previous_seed` must match the sender's
/// current seed. On success the new seed is the SHA-256 of the signature.
pub fn update_seed(
    state: &mut NotificationState,
    sender: &String,
    contract_address: &String,
    doc_contract: &String,
    doc_previous_seed: &Vec<u8>,
    signer_account: &String,
    signature_verified: bool,
    signature: &Vec<u8>,
) -> (r: Result<Vec<u8>, NotifyError>)
    ensures
        match r {
            Ok(seed) => {
                &&& signature_verified
                &&& signer_account@ == sender@
                &&& doc_contract@ == contract_address@
                &&& doc_previous_seed@ == spec_seed(*old(state), sender@)
                &&& seed@ == sha256_of(signature@)
                &&& spec_seed(*final(state), sender@) == sha256_of(signature@)
                &&& final(state).seeds@.dom() == old(state).seeds@.dom().insert(sender@)
                &&& forall|a: Seq<char>|
                    a != sender@ ==> spec_seed(*final(state), a) == spec_seed(*old(state), a)
                &&& final(state).secret == old(state).secret
                &&& final(state).counters == old(state).counters
                &&& final(state).channels == old(state).channels
                &&& final(state).schemata == old(state).schemata
                &&& (old(state).wf() ==> final(state).wf())
            },
            Err(e) => {
                &&& *final(state) == *old(state)
                &&& (e == NotifyError::InvalidSignature || e == NotifyError::WrongSigner || e
                    == NotifyError::WrongContract || e == NotifyError::WrongPreviousSeed)
                &&& (e == NotifyError::InvalidSignature <==> !signature_verified)
                &&& (e == NotifyError::WrongSigner <==> signature_verified && signer_account@
                    != sender@)
                &&& (e == NotifyError::WrongContract <==> signature_verified && signer_account@
                    == sender@ && doc_contract@ != contract_address@)
                &&& (e == NotifyError::WrongPreviousSeed <==> signature_verified && signer_account@
                    == sender@ && doc_contract@ == contract_address@ && doc_previous_seed@
                    != spec_seed(*old(state), sender@))
            },
        },
{
    if !signature_verified {
        return Err(NotifyError::InvalidSignature);
    }
    if !signer_account.eq(sender) {
        return Err(NotifyError::WrongSigner);
    }
    if !doc_contract.eq(contract_address) {
        return Err(NotifyError::WrongContract);
    }
    let previous_seed = get_seed(state, sender);
    if !bytes_eq(&previous_seed, doc_previous_seed) {
        return Err(NotifyError::WrongPreviousSeed);
    }
    let new_seed = sha256(signature.as_slice());
    let returned = dup_bytes(&new_seed);
    store_seed(state, sender, new_seed);
    proof {
        assert(state.seeds@.dom() =~= old(state).seeds@.dom().insert(sender@));
    }
    Ok(returned)
}

impl Channel {
    /// Register the channel id, and store or clear its schema. Storing a
    /// channel a second time leaves the registry as it was, so the
    /// operation is idempotent.
    pub fn store(self, state: &mut NotificationState)
        ensures
            final(state).channels@ == (if spec_contains_string(old(state).channels@, self.id@) {
                old(state).channels@
            } else {
                old(state).channels@.push(self.id)
            }),
            final(state).schemata@ == match self.schema {
                Some(schema) => old(state).schemata@.insert(self.id@, schema),
                None => old(state).schemata@.remove(self.id@),
            },
            final(state).secret == old(state).secret,
            final(state).seeds == old(state).seeds,
            final(state).counters == old(state).counters,
            old(state).wf() ==> final(state).wf(),
    {
        if !contains_string(&state.channels, &self.id) {
            let ghost before = state.channels@;
            let id = self.id.clone();
            proof {
                assert(id == self.id);
            }
            state.channels.push(id);
            proof {
                assert(state.channels@ == before.push(self.id));
            }
        }
        match self.schema {
            Some(schema) => {
                state.schemata.insert(self.id, schema);
            },
            None => {
                // double check it does not already have a schema stored,
                // and if it does remove it.
                state.schemata.remove(&self.id);
            },
        }
    }
}

/// Public query: list all notification channels.
pub fn query_list_channels(state: &NotificationState) -> (r: Vec<String>)
    ensures
        r@ == state.channels@,
{
    dup_strings(&state.channels)
}

/// One entry of the authenticated `ChannelInfo` query: the recipient's
/// seed, the channel's counter, and the id the next notification will bear.
pub struct ChannelInfo {
    /// shared secret in base64
    pub seed: Vec<u8>,
    /// same as query input
    pub channel: String,
    /// current counter value
    pub counter: u64,
    /// the next Notification ID
    pub next_id: Vec<u8>,
    /// optional CDDL schema definition string for the CBOR-encoded
    /// notification data
    pub cddl: Option<String>,
}

/// Authenticated query: seed, counter and next notification id for each
/// named channel, as of the current state.
pub fn query_channel_info(state: &NotificationState, channels: Vec<String>, sender: &String) -> (r:
    Vec<ChannelInfo>)
    ensures
        r@.len() == channels@.len(),
        forall|i: int|
            0 <= i < r@.len() ==> {
                &&& (#[trigger] r@[i]).channel == channels@[i]
                &&& r@[i].seed@ == spec_seed(*state, sender@)
                &&& r@[i].counter == spec_count(*state, channels@[i]@, sender@)
                &&& r@[i].next_id@ == spec_notification_id(*state, sender@, channels@[i]@)
                &&& r@[i].cddl == (if state.schemata@.contains_key(channels@[i]@) {
                    Some(state.schemata@[channels@[i]@])
                } else {
                    Option::<String>::None
                })
            },
{
    let mut out: Vec<ChannelInfo> = Vec::new();
    let n = channels.len();
    let mut i: usize = 0;
    while i < n
        invariant
            n == channels@.len(),
            i <= n,
            out@.len() == i,
            forall|j: int|
                0 <= j < i ==> {
                    &&& (#[trigger] out@[j]).channel == channels@[j]
                    &&& out@[j].seed@ == spec_seed(*state, sender@)
                    &&& out@[j].counter == spec_count(*state, channels@[j]@, sender@)
                    &&& out@[j].next_id@ == spec_notification_id(*state, sender@, channels@[j]@)
                    &&& out@[j].cddl == (if state.schemata@.contains_key(channels@[j]@) {
                        Some(state.schemata@[channels@[j]@])
                    } else {
                        Option::<String>::None
                    })
                },
        decreases n - i,
    {
        let channel = channels[i].clone();
        let next_id = notification_id(state, sender, &channel);
        let counter = get_count(state, &channel, sender);
        let seed = get_seed(state, sender);
        let cddl = match state.schemata.get(&channel) {
            Some(s) => Some(s.clone()),
            None => None,
        };
        out.push(ChannelInfo { seed, channel, counter, next_id, cddl });
        i = i + 1;
    }
    out
}

/// Compute the notification id and encrypted payload of one `game_updated`
/// push for `recipient`, then advance that recipient's counter on the
/// channel, exactly once.
pub fn send_game_updated(
    state: &mut NotificationState,
    recipient: &String,
    block_height: u64,
    sender: &String,
    game_id: &String,
    board: &Vec<u8>,
    turn: u8,
) -> (r: (Vec<u8>, Vec<u8>))
    requires
        old(state).wf(),
        game_id@.len() <= 1024,
        board@.len() <= 256,
    ensures
        r.0@ == spec_notification_id(*old(state), recipient@, GAME_UPDATED_CHANNEL_ID@),
        r.1@ == spec_encrypted(
            *old(state),
            block_height,
            sender@,
            recipient@,
            GAME_UPDATED_CHANNEL_ID@,
            cbor_game_update_of(game_id@, board@, turn),
        ),
        only_counter_bumped(*old(state), *final(state), GAME_UPDATED_CHANNEL_ID@, recipient@),
        final(state).wf(),
{
    let channel: String = GAME_UPDATED_CHANNEL_ID.to_owned();
    let id = notification_id(state, recipient, &channel);
    let data = cbor_encode_game_update(game_id, board, turn);
    let encrypted = encrypt_notification_data(
        state,
        block_height,
        sender,
        recipient,
        &channel,
        data,
    );
    increment_count(state, &channel, recipient);
    (id, encrypted)
}

/// For one recipient and channel, the notification materials of two
/// different counter values differ: each id rotation feeds fresh HMAC
/// input. (That the HMACs themselves differ rests on the cryptographic
/// properties of HMAC, which are not modelled here.)
pub proof fn lemma_material_injective(channel: Seq<char>, c1: u64, c2: u64)
    requires
        c1 != c2,
    ensures
        material_of(channel, c1) != material_of(channel, c2),
{
    if material_of(channel, c1) == material_of(channel, c2) {
        let p = encode_utf8(channel).len() + 1;
        crate::util::lemma_dec_bytes_len(c1);
        crate::util::lemma_dec_bytes_len(c2);
        assert(spec_dec_bytes(c1) =~= material_of(channel, c1).skip(p as int));
        assert(spec_dec_bytes(c2) =~= material_of(channel, c2).skip(p as int));
        crate::util::lemma_dec_bytes_injective(c1, c2);
    }
}


/// The id sequence advances: after a counter bump (as `increment_count`
/// and every notification sender guarantee), the next notification id is
/// keyed over different material than the one just used, as long as the
/// counter has not wrapped around.
pub proof fn lemma_id_material_rotates(
    s0: NotificationState,
    s1: NotificationState,
    channel: Seq<char>,
    addr: Seq<char>,
)
    requires
        only_counter_bumped(s0, s1, channel, addr),
        spec_count(s0, channel, addr) < u64::MAX,
    ensures
        material_of(channel, spec_count(s1, channel, addr)) != material_of(
            channel,
            spec_count(s0, channel, addr),
        ),
{
    lemma_material_injective(channel, spec_count(s1, channel, addr), spec_count(s0, channel, addr));
}

} // verus!
