//! Small rules of the canisters around a group: the identifier under
//! which the proposals bot posts a proposal, the size of the pool of
//! spare canisters, and the queue of confirmation codes to send.

use vstd::prelude::*;
use vstd::bytes::{spec_u128_from_le_bytes, spec_u64_to_le_bytes, u128_from_le_bytes, u64_to_le_bytes};
use vstd::slice::slice_subrange;
use vstd::string::StringSliceAdditionalSpecFns;
use sha2::{Digest, Sha256};
use std::collections::VecDeque;
use crate::types::MessageId;

verus! {

/// Spare canisters kept ready in production.
pub const CANISTER_POOL_TARGET_SIZE: u16 = 20;

/// Spare canisters kept ready in test mode.
pub const TEST_CANISTER_POOL_TARGET_SIZE: u16 = 3;

/// How long a confirmation code stays valid: one hour.
pub const CONFIRMATION_CODE_EXPIRY_MILLIS: u64 = 3_600_000;

/// The SHA-256 digest of `data`, as `sha2` computes it.
pub uninterp spec fn sha256(data: Seq<u8>) -> Seq<u8>;

/// `sha2::Sha256::digest`: the SHA-256 digest of the data, 32 bytes long.
#[verifier::external_body]
fn sha256_digest(data: &Vec<u8>) -> (r: Vec<u8>)
    ensures
        r@ == sha256(data@),
        r@.len() == 32,
{
    Sha256::digest(data.as_slice()).to_vec()
}

/// The bytes that are hashed to name the message for a proposal: a fixed
/// prefix, the identifier of the governance canister, and the identifier
/// of the proposal in little-endian order.
pub open spec fn message_id_preimage(governance_canister_id: Seq<u8>, proposal_id: u64) -> Seq<u8> {
    "proposals_bot".spec_bytes() + governance_canister_id + spec_u64_to_le_bytes(proposal_id)
}

/// The message identifier that a digest gives: its first sixteen bytes
/// read as a number in little-endian order.
pub open spec fn digest_message_id(digest: Seq<u8>) -> MessageId {
    spec_u128_from_le_bytes(digest.subrange(0, 16))
}

/// The message identifier that a digest gives, if the digest is long enough.
pub fn message_id_from_digest(digest: &Vec<u8>) -> (r: Option<MessageId>)
    ensures
        r == if digest@.len() >= 16 {
            Some(digest_message_id(digest@))
        } else {
            None
        },
{
    if digest.len() >= 16 {
        Some(u128_from_le_bytes(slice_subrange(digest.as_slice(), 0, 16)))
    } else {
        None
    }
}

/// The identifier of the message that announces a proposal. It depends
/// on nothing but the governance canister and the proposal, so that the
/// same proposal is never announced twice.
pub fn generate_message_id(governance_canister_id: &Vec<u8>, proposal_id: u64) -> (r: MessageId)
    ensures
        r == digest_message_id(sha256(message_id_preimage(governance_canister_id@, proposal_id))),
{
    let prefix = "proposals_bot".as_bytes();
    let id_bytes = u64_to_le_bytes(proposal_id);
    let mut data: Vec<u8> = Vec::new();
    let mut i: usize = 0;
    while i < prefix.len()
        invariant
            i <= prefix@.len(),
            prefix@ == "proposals_bot".spec_bytes(),
            data@ == prefix@.take(i as int),
        decreases prefix@.len() - i,
    {
        data.push(prefix[i]);
        assert(prefix@.take(i as int + 1) == prefix@.take(i as int).push(prefix@[i as int]));
        i += 1;
    }
    assert(prefix@.take(prefix@.len() as int) == prefix@);
    let mut j: usize = 0;
    while j < governance_canister_id.len()
        invariant
            j <= governance_canister_id@.len(),
            data@ == "proposals_bot".spec_bytes() + governance_canister_id@.take(j as int),
        decreases governance_canister_id@.len() - j,
    {
        data.push(governance_canister_id[j]);
        assert(governance_canister_id@.take(j as int + 1) == governance_canister_id@.take(j as int).push(
            governance_canister_id@[j as int],
        ));
        j += 1;
    }
    assert(governance_canister_id@.take(governance_canister_id@.len() as int) == governance_canister_id@);
    let mut k: usize = 0;
    while k < id_bytes.len()
        invariant
            k <= id_bytes@.len(),
            id_bytes@ == spec_u64_to_le_bytes(proposal_id),
            data@ == "proposals_bot".spec_bytes() + governance_canister_id@ + id_bytes@.take(k as int),
        decreases id_bytes@.len() - k,
    {
        data.push(id_bytes[k]);
        assert(id_bytes@.take(k as int + 1) == id_bytes@.take(k as int).push(id_bytes@[k as int]));
        k += 1;
    }
    assert(id_bytes@.take(id_bytes@.len() as int) == id_bytes@);
    let digest = sha256_digest(&data);
    u128_from_le_bytes(slice_subrange(digest.as_slice(), 0, 16))
}

/// How many spare canisters to keep ready.
pub fn canister_pool_target_size(test_mode: bool) -> (r: u16)
    ensures
        r == if test_mode {
            TEST_CANISTER_POOL_TARGET_SIZE
        } else {
            CANISTER_POOL_TARGET_SIZE
        },
{
    if test_mode {
        TEST_CANISTER_POOL_TARGET_SIZE
    } else {
        CANISTER_POOL_TARGET_SIZE
    }
}

/// A confirmation code waiting to be sent by text message.
#[derive(Debug)]
pub struct ConfirmationCodeSms {
    pub phone_number: String,
    pub confirmation_code: String,
    pub index: u64,
}

/// Puts a confirmation code at the front of the queue, numbered one
/// above the code that was at the front, or zero in an empty queue.
pub fn append_sms_to_queue(queue: &mut VecDeque<ConfirmationCodeSms>, phone_number: String, confirmation_code: String)
    requires
        old(queue)@.len() > 0 ==> old(queue)@[0].index < u64::MAX,
    ensures
        final(queue)@.len() == old(queue)@.len() + 1,
        final(queue)@.subrange(1, final(queue)@.len() as int) == old(queue)@,
        final(queue)@[0] == (ConfirmationCodeSms {
            phone_number,
            confirmation_code,
            index: if old(queue)@.len() > 0 {
                (old(queue)@[0].index + 1) as u64
            } else {
                0
            },
        }),
{
    let index = if queue.len() > 0 {
        queue[0].index + 1
    } else {
        0
    };
    queue.push_front(ConfirmationCodeSms { phone_number, confirmation_code, index });
    assert(queue@.subrange(1, queue@.len() as int) =~= old(queue)@);
}

} // verus!
