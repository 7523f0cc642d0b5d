//! The ban gate: a caller's textual address is hashed, the ban table is
//! consulted, and stale records are deleted lazily.

use vstd::prelude::*;

use crate::store::Store;

verus! {

/// The 28-byte digest the ban table is keyed by.
pub uninterp spec fn keccak224_of(data: Seq<u8>) -> Seq<u8>;

/// Relies on `sha3::Keccak224` (through the `Digest` trait): the Keccak-224
/// digest is a pure function of its input and is 224 bits, 28 bytes, long.
#[verifier::external_body]
pub fn keccak224(data: &Vec<u8>) -> (r: Vec<u8>)
    ensures
        r@ == keccak224_of(data@),
        r@.len() == 28,
{
    <sha3::Keccak224 as sha3::Digest>::digest(data.as_slice()).as_slice().to_vec()
}

/// Whether a ban on digest `k` is still in force at time `now`.
pub open spec fn ban_active(m: Map<Seq<u8>, u64>, k: Seq<u8>, now: u64) -> bool {
    m.contains_key(k) && m[k] > now
}

/// What lazy expiry leaves of the ban table: a stale record for `k` is
/// deleted, anything else is kept.
pub open spec fn ban_after(m: Map<Seq<u8>, u64>, k: Seq<u8>, now: u64) -> Map<Seq<u8>, u64> {
    if m.contains_key(k) && m[k] <= now {
        m.remove(k)
    } else {
        m
    }
}

/// What the ban middleware does with a looked-up expiry.
#[derive(Clone, Copy, Debug, PartialEq, Eq, Structural)]
pub enum BanDecision {
    /// An unexpired record exists: reject the request.
    Blocked,
    /// A record exists but its expiry has passed: delete it and proceed.
    AllowedStale,
    /// No record: proceed.
    Allowed,
}

/// The three-way ban decision, from the looked-up expiry and the current
/// time alone.
pub fn ban_decision(expiry: Option<u64>, now: u64) -> (r: BanDecision)
    ensures
        (r is Blocked) <==> (expiry matches Option::Some(e) && e > now),
        (r is AllowedStale) <==> (expiry matches Option::Some(e) && e <= now),
        (r is Allowed) <==> expiry is None,
{
    match expiry {
        Option::None => BanDecision::Allowed,
        Option::Some(e) => {
            if e > now {
                BanDecision::Blocked
            } else {
                BanDecision::AllowedStale
            }
        },
    }
}

/// The request-time gate: hashes the caller's address bytes, allows the
/// request unless an unexpired ban record exists, and lazily deletes a
/// record whose expiry has passed.
pub fn check_banned(store: &mut Store, ip_bytes: &Vec<u8>, now: u64) -> (allowed: bool)
    requires
        old(store).wf(),
    ensures
        final(store).wf(),
        allowed == !ban_active(old(store)@.banned, keccak224_of(ip_bytes@), now),
        final(store)@.banned == if allowed {
            ban_after(old(store)@.banned, keccak224_of(ip_bytes@), now)
        } else {
            old(store)@.banned
        },
        final(store)@.boards == old(store)@.boards,
        final(store)@.threads == old(store)@.threads,
        final(store)@.post_count == old(store)@.post_count,
{
    let digest = keccak224(ip_bytes);
    match ban_decision(store.get_ban(&digest), now) {
        BanDecision::Blocked => false,
        BanDecision::AllowedStale => {
            store.remove_ban(&digest);
            true
        },
        BanDecision::Allowed => true,
    }
}

} // verus!
