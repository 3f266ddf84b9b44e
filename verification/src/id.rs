use vstd::prelude::*;
use vstd::bytes::{
    spec_u128_from_le_bytes, spec_u128_to_le_bytes, u128_from_le_bytes, u128_to_le_bytes,
};
use vstd::slice::slice_subrange;
use crate::error::ContractError;

verus! {

/// The identifier of an alkane: the block and transaction that created it.
#[derive(Debug, Clone, Copy, PartialEq, Eq, Structural)]
pub struct AlkaneId {
    pub block: u128,
    pub tx: u128,
}

/// An amount of one alkane moving into or out of a call.
#[derive(Debug, Clone, Copy, PartialEq, Eq, Structural)]
pub struct AlkaneTransfer {
    pub id: AlkaneId,
    pub value: u128,
}

/// What a contract call answers: the alkanes it sends back, and its return data.
#[derive(Debug)]
pub struct CallResponse {
    pub alkanes: Vec<AlkaneTransfer>,
    pub data: Vec<u8>,
}

/// The total of `id` among `s`.
pub open spec fn amount_of(s: Seq<AlkaneTransfer>, id: AlkaneId) -> nat
    decreases s.len(),
{
    if s.len() == 0 {
        0
    } else {
        amount_of(s.drop_last(), id) + if s.last().id == id {
            s.last().value as nat
        } else {
            0
        }
    }
}

/// The transfers of `s` of any alkane but `id`, in their order.
pub open spec fn without_id(s: Seq<AlkaneTransfer>, id: AlkaneId) -> Seq<AlkaneTransfer>
    decreases s.len(),
{
    if s.len() == 0 {
        Seq::empty()
    } else if s.last().id == id {
        without_id(s.drop_last(), id)
    } else {
        without_id(s.drop_last(), id).push(s.last())
    }
}

/// What a call that keeps `desired` of `token` sends back of `incoming`: every other
/// alkane as it came, then the rest of `token`.
pub open spec fn refund_transfers(
    incoming: Seq<AlkaneTransfer>,
    token: AlkaneId,
    desired: u128,
) -> Seq<AlkaneTransfer> {
    without_id(incoming, token).push(
        AlkaneTransfer { id: token, value: (amount_of(incoming, token) - desired) as u128 },
    )
}

/// The bytes under which an id is stored: the block, then the transaction, each as
/// 16 little-endian bytes.
pub open spec fn id_bytes(id: AlkaneId) -> Seq<u8> {
    spec_u128_to_le_bytes(id.block) + spec_u128_to_le_bytes(id.tx)
}

/// The id read back from stored bytes: two little-endian numbers; `None` when fewer than
/// 32 bytes are stored. Bytes after the 32nd are not read.
pub open spec fn id_from_bytes(b: Seq<u8>) -> Option<AlkaneId> {
    if b.len() < 32 {
        None
    } else {
        Some(
            AlkaneId {
                block: spec_u128_from_le_bytes(b.subrange(0, 16)),
                tx: spec_u128_from_le_bytes(b.subrange(16, 32)),
            },
        )
    }
}

/// A prefix of a list of transfers holds no more of an alkane than the whole list.
pub proof fn lemma_amount_of_prefix(s: Seq<AlkaneTransfer>, id: AlkaneId, i: int)
    requires
        0 <= i <= s.len(),
    ensures
        amount_of(s.take(i), id) <= amount_of(s, id),
    decreases s.len(),
{
    if i < s.len() {
        assert(s.drop_last().take(i) =~= s.take(i));
        lemma_amount_of_prefix(s.drop_last(), id, i);
    } else {
        assert(s.take(i) =~= s);
    }
}

/// Sums the transfers of `id` among `transfers`.
pub fn incoming_amount(transfers: &Vec<AlkaneTransfer>, id: AlkaneId) -> (total: u128)
    requires
        amount_of(transfers@, id) <= u128::MAX,
    ensures
        total == amount_of(transfers@, id),
{
    let mut total: u128 = 0;
    let mut i: usize = 0;
    assert(transfers@.take(0) =~= Seq::<AlkaneTransfer>::empty());
    while i < transfers.len()
        invariant
            i <= transfers@.len(),
            amount_of(transfers@, id) <= u128::MAX,
            total == amount_of(transfers@.take(i as int), id),
        decreases transfers@.len() - i,
    {
        let t = transfers[i];
        proof {
            assert(transfers@.take(i + 1).drop_last() =~= transfers@.take(i as int));
            lemma_amount_of_prefix(transfers@, id, i + 1);
        }
        if t.id == id {
            total = total + t.value;
        }
        i = i + 1;
    }
    assert(transfers@.take(i as int) =~= transfers@);
    total
}

/// Sums the transfers of `id` among `transfers`; `None` when the sum does not fit in
/// 128 bits.
pub fn checked_incoming_amount(transfers: &Vec<AlkaneTransfer>, id: AlkaneId) -> (r: Option<u128>)
    ensures
        match r {
            Some(total) => total == amount_of(transfers@, id),
            None => amount_of(transfers@, id) > u128::MAX,
        },
{
    let mut total: u128 = 0;
    let mut i: usize = 0;
    assert(transfers@.take(0) =~= Seq::<AlkaneTransfer>::empty());
    while i < transfers.len()
        invariant
            i <= transfers@.len(),
            total == amount_of(transfers@.take(i as int), id),
        decreases transfers@.len() - i,
    {
        let t = transfers[i];
        proof {
            assert(transfers@.take(i + 1).drop_last() =~= transfers@.take(i as int));
            lemma_amount_of_prefix(transfers@, id, i + 1);
        }
        if t.id == id {
            match total.checked_add(t.value) {
                Some(v) => {
                    total = v;
                },
                None => {
                    return None;
                },
            }
        }
        i = i + 1;
    }
    assert(transfers@.take(i as int) =~= transfers@);
    Some(total)
}

/// Copies a list of transfers.
pub fn copy_transfers(transfers: &Vec<AlkaneTransfer>) -> (out: Vec<AlkaneTransfer>)
    ensures
        out@ == transfers@,
{
    let mut out: Vec<AlkaneTransfer> = Vec::new();
    let mut i: usize = 0;
    while i < transfers.len()
        invariant
            i <= transfers@.len(),
            out@ == transfers@.take(i as int),
        decreases transfers@.len() - i,
    {
        out.push(transfers[i]);
        i = i + 1;
        assert(out@ =~= transfers@.take(i as int));
    }
    assert(transfers@.take(i as int) =~= transfers@);
    out
}

/// Appends to `out` every transfer of `transfers` whose alkane is not `id`, in order.
pub fn push_others(out: &mut Vec<AlkaneTransfer>, transfers: &Vec<AlkaneTransfer>, id: AlkaneId)
    ensures
        final(out)@ == old(out)@ + without_id(transfers@, id),
{
    let mut i: usize = 0;
    assert(without_id(transfers@.take(0), id) =~= Seq::<AlkaneTransfer>::empty());
    assert(out@ =~= old(out)@ + without_id(transfers@.take(0), id));
    while i < transfers.len()
        invariant
            i <= transfers@.len(),
            out@ == old(out)@ + without_id(transfers@.take(i as int), id),
        decreases transfers@.len() - i,
    {
        let t = transfers[i];
        proof {
            assert(transfers@.take(i + 1).drop_last() =~= transfers@.take(i as int));
        }
        if t.id != id {
            out.push(t);
        }
        i = i + 1;
        assert(out@ =~= old(out)@ + without_id(transfers@.take(i as int), id));
    }
    assert(transfers@.take(i as int) =~= transfers@);
}

impl CallResponse {
    /// A response that sends back exactly what came in, with no data.
    pub fn forward(incoming: &Vec<AlkaneTransfer>) -> (r: CallResponse)
        ensures
            r.alkanes@ == incoming@,
            r.data@ == Seq::<u8>::empty(),
    {
        CallResponse { alkanes: copy_transfers(incoming), data: Vec::new() }
    }

    /// Adds a transfer to what the response sends back.
    pub fn pay(&mut self, transfer: AlkaneTransfer)
        ensures
            final(self).alkanes@ == old(self).alkanes@.push(transfer),
            final(self).data@ == old(self).data@,
    {
        self.alkanes.push(transfer);
    }
}

/// Keeps `desired_amount` of `desired_token` from what came in and sends everything
/// else back: the other alkanes first, in their order, then the rest of the token.
/// Refused when less of the token came in than is kept.
pub fn refund_and_check_inputs(
    incoming: &Vec<AlkaneTransfer>,
    desired_token: AlkaneId,
    desired_amount: u128,
) -> (r: Result<CallResponse, ContractError>)
    requires
        amount_of(incoming@, desired_token) <= u128::MAX,
    ensures
        match r {
            Ok(resp) => {
                &&& desired_amount <= amount_of(incoming@, desired_token)
                &&& resp.alkanes@ == refund_transfers(incoming@, desired_token, desired_amount)
                &&& resp.data@ == Seq::<u8>::empty()
            },
            Err(e) => {
                &&& desired_amount > amount_of(incoming@, desired_token)
                &&& e == (ContractError::InsufficientInput {
                    desired: desired_amount,
                    received: amount_of(incoming@, desired_token) as u128,
                })
            },
        },
{
    let received = incoming_amount(incoming, desired_token);
    let mut ret = CallResponse { alkanes: Vec::new(), data: Vec::new() };
    push_others(&mut ret.alkanes, incoming, desired_token);
    if desired_amount > received {
        return Err(ContractError::InsufficientInput { desired: desired_amount, received });
    }
    ret.pay(AlkaneTransfer { id: desired_token, value: received - desired_amount });
    assert(ret.alkanes@ =~= refund_transfers(incoming@, desired_token, desired_amount));
    Ok(ret)
}

impl AlkaneId {
    pub fn new(block: u128, tx: u128) -> (r: AlkaneId)
        ensures
            r == (AlkaneId { block, tx }),
    {
        AlkaneId { block, tx }
    }

    /// The bytes under which the id is stored.
    pub fn to_bytes(&self) -> (b: Vec<u8>)
        ensures
            b@ == id_bytes(*self),
    {
        let mut b = u128_to_le_bytes(self.block);
        let mut t = u128_to_le_bytes(self.tx);
        b.append(&mut t);
        b
    }

    /// Reads an id back from stored bytes; refused when fewer than 32 bytes are stored.
    pub fn from_bytes(b: &Vec<u8>) -> (r: Result<AlkaneId, ContractError>)
        ensures
            match r {
                Ok(id) => id_from_bytes(b@) == Some(id),
                Err(e) => id_from_bytes(b@) is None && e == ContractError::StorageDecode,
            },
    {
        if b.len() < 16 {
            return Err(ContractError::StorageDecode);
        }
        let block = u128_from_le_bytes(slice_subrange(b.as_slice(), 0, 16));
        if b.len() < 32 {
            return Err(ContractError::StorageDecode);
        }
        let tx = u128_from_le_bytes(slice_subrange(b.as_slice(), 16, 32));
        Ok(AlkaneId { block, tx })
    }
}

/// An id read back from its stored bytes is the id itself.
pub proof fn lemma_id_bytes_roundtrip(id: AlkaneId)
    ensures
        id_from_bytes(id_bytes(id)) == Some(id),
{
    vstd::bytes::lemma_auto_spec_u128_to_from_le_bytes();
    let b = id_bytes(id);
    assert(b.subrange(0, 16) =~= spec_u128_to_le_bytes(id.block));
    assert(b.subrange(16, 32) =~= spec_u128_to_le_bytes(id.tx));
}

/// Copies a byte string.
pub fn copy_bytes(b: &Vec<u8>) -> (out: Vec<u8>)
    ensures
        out@ == b@,
{
    let mut out: Vec<u8> = Vec::new();
    let mut i: usize = 0;
    while i < b.len()
        invariant
            i <= b@.len(),
            out@ == b@.take(i as int),
        decreases b@.len() - i,
    {
        out.push(b[i]);
        i = i + 1;
        assert(out@ =~= b@.take(i as int));
    }
    assert(b@.take(i as int) =~= b@);
    out
}

/// `s` begins with `p`.
pub open spec fn starts_with(s: Seq<u128>, p: Seq<u128>) -> bool {
    p.len() <= s.len() && s.subrange(0, p.len() as int) == p
}

} // verus!
