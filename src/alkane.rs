//! Identifiers of contracts and tokens, and the transfers that move them.
use vstd::prelude::*;

use crate::encoding::{
    le_value, lemma_le_bytes_of_value, lemma_le_value_bound, lemma_pow256_16,
    lemma_u128_le_round_trip, push_u128_le, u128_from_le_bytes, u128_le,
};

verus! {

/// Names a contract or a token class: a block and a transaction index.
#[derive(Clone, Copy, Debug, PartialEq, Eq, Structural)]
pub struct AlkaneId {
    pub block: u128,
    pub tx: u128,
}

/// A quantity of one token class moving into or out of an invocation.
#[derive(Clone, Copy, Debug, PartialEq, Eq, Structural)]
pub struct AlkaneTransfer {
    pub id: AlkaneId,
    pub value: u128,
}

/// The 32-byte form of an identifier: block, then transaction index, each
/// 16 bytes little-endian.
pub open spec fn id_bytes(id: AlkaneId) -> Seq<u8> {
    u128_le(id.block) + u128_le(id.tx)
}

/// The identifier spelled by the first 32 bytes of `s`.
pub open spec fn id_of_bytes(s: Seq<u8>) -> AlkaneId {
    AlkaneId { block: le_value(s.subrange(0, 16)) as u128, tx: le_value(s.subrange(16, 32)) as u128 }
}

/// Decoding the 32-byte form of an identifier gives the identifier back.
pub proof fn lemma_id_bytes_round_trip(id: AlkaneId)
    ensures
        id_bytes(id).len() == 32,
        id_of_bytes(id_bytes(id)) == id,
{
    lemma_u128_le_round_trip(id.block);
    lemma_u128_le_round_trip(id.tx);
    let s = id_bytes(id);
    assert(s.subrange(0, 16) =~= u128_le(id.block));
    assert(s.subrange(16, 32) =~= u128_le(id.tx));
}

/// Encoding the identifier that 32 bytes spell gives the same bytes.
pub proof fn lemma_id_of_bytes_round_trip(s: Seq<u8>)
    requires
        s.len() == 32,
    ensures
        id_bytes(id_of_bytes(s)) == s,
{
    let lo = s.subrange(0, 16);
    let hi = s.subrange(16, 32);
    lemma_pow256_16();
    lemma_le_value_bound(lo);
    lemma_le_value_bound(hi);
    lemma_le_bytes_of_value(lo);
    lemma_le_bytes_of_value(hi);
    assert(id_bytes(id_of_bytes(s)) =~= s);
}

impl AlkaneId {
    /// The 32-byte form of this identifier.
    pub fn to_bytes(&self) -> (r: Vec<u8>)
        ensures
            r@ == id_bytes(*self),
    {
        let mut out: Vec<u8> = Vec::new();
        push_u128_le(&mut out, self.block);
        push_u128_le(&mut out, self.tx);
        assert(out@ =~= id_bytes(*self));
        out
    }

    /// The identifier spelled by the first 32 bytes of `b`.
    pub fn from_bytes(b: &[u8]) -> (r: AlkaneId)
        requires
            b@.len() >= 32,
        ensures
            r == id_of_bytes(b@),
    {
        let block = u128_from_le_bytes(b, 0);
        let tx = u128_from_le_bytes(b, 16);
        AlkaneId { block, tx }
    }
}

/// The total that the transfers of `parcel` move of the token class `id`.
pub open spec fn amount_of(parcel: Seq<AlkaneTransfer>, id: AlkaneId) -> int
    decreases parcel.len(),
{
    if parcel.len() == 0 {
        0
    } else {
        amount_of(parcel.drop_last(), id) + if parcel.last().id == id {
            parcel.last().value as int
        } else {
            0
        }
    }
}

pub proof fn lemma_amount_of_nonnegative(parcel: Seq<AlkaneTransfer>, id: AlkaneId)
    ensures
        amount_of(parcel, id) >= 0,
    decreases parcel.len(),
{
    if parcel.len() > 0 {
        lemma_amount_of_nonnegative(parcel.drop_last(), id);
    }
}

/// The total that `parcel` moves of `id`, or `u128::MAX` where the total
/// does not fit.
pub fn amount_received(parcel: &Vec<AlkaneTransfer>, id: AlkaneId) -> (r: u128)
    ensures
        r == if amount_of(parcel@, id) <= u128::MAX {
            amount_of(parcel@, id)
        } else {
            u128::MAX as int
        },
{
    let mut acc: u128 = 0;
    let mut i: usize = 0;
    while i < parcel.len()
        invariant
            i <= parcel@.len(),
            acc == if amount_of(parcel@.subrange(0, i as int), id) <= u128::MAX {
                amount_of(parcel@.subrange(0, i as int), id)
            } else {
                u128::MAX as int
            },
        decreases parcel@.len() - i,
    {
        let t = parcel[i];
        proof {
            let next = parcel@.subrange(0, i + 1);
            assert(next.drop_last() =~= parcel@.subrange(0, i as int));
            assert(next.last() == t);
            lemma_amount_of_nonnegative(parcel@.subrange(0, i as int), id);
        }
        if t.id == id {
            if acc > u128::MAX - t.value {
                acc = u128::MAX;
            } else {
                acc = acc + t.value;
            }
        }
        i = i + 1;
    }
    assert(parcel@.subrange(0, parcel@.len() as int) =~= parcel@);
    acc
}

} // verus!
