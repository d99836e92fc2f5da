//! The output records of the tracked token's transfers, and the decoding of
//! the transfer logs they come from.
use crate::balance::{
    extract_balances_from_call, from_balance_of, to_balance_of, TransferEvent,
};
use crate::decimal::{concat_text, decimal_text, signed_decimal, u32_decimal};
use crate::hex_text::{encode_lower_hex, lower_hex};
use crate::numeric::signed_be;
use crate::preimage::{index_of, map_hashes_to_addresses};
use crate::trace::CallTrace;
use vstd::prelude::*;

verus! {

#[verifier::external_type_specification]
#[verifier::external_body]
pub struct ExTimestamp(prost_types::Timestamp);

/// The token contract whose transfers are followed.
pub const GRT_TRACKED_CONTRACT: [u8; 20] = [
    0xc9, 0x44, 0xe9, 0x0c, 0x64, 0xb2, 0xc0, 0x76, 0x62, 0xa2,
    0x92, 0xbe, 0x62, 0x44, 0xbd, 0xf0, 0x5c, 0xda, 0x44, 0xa7,
];

/// The first topic of a `Transfer(address,address,uint256)` log: the keccak
/// hash of that signature.
pub const TRANSFER_TOPIC: [u8; 32] = [
    0xdd, 0xf2, 0x52, 0xad, 0x1b, 0xe2, 0xc8, 0x9b, 0x69, 0xc2, 0xb0, 0x68, 0xfc, 0x37, 0x8d, 0xaa,
    0x95, 0x2b, 0xa7, 0xf1, 0x63, 0xc4, 0xa1, 0x16, 0x28, 0xf5, 0x5a, 0x4d, 0xf5, 0x23, 0xb3, 0xef,
];

/// A transfer of the tracked token, with the endpoints written as hex text.
pub struct Transfer {
    pub evt_tx_hash: String,
    pub evt_index: u32,
    pub evt_block_time: Option<prost_types::Timestamp>,
    pub evt_block_number: u64,
    pub from: String,
    pub to: String,
    pub value: String,
    pub from_balance: String,
    pub to_balance: String,
}

/// The transfers of one block.
pub struct Transfers {
    pub transfers: Vec<Transfer>,
}

/// A transfer of the tracked token, with the endpoints kept as bytes.
pub struct GrtTransfer {
    pub evt_tx_hash: String,
    pub evt_index: u32,
    pub evt_block_time: Option<prost_types::Timestamp>,
    pub evt_block_number: u64,
    pub from: Vec<u8>,
    pub to: Vec<u8>,
    pub value: String,
    pub from_balance: String,
    pub to_balance: String,
}

/// The tracked token's transfers in one block.
pub struct Events {
    pub grt_transfers: Vec<GrtTransfer>,
}

/// Where a log stands: its transaction, its index in the block, and the
/// block's time and number.
pub struct LogSite {
    pub tx_hash: Vec<u8>,
    pub log_index: u32,
    pub block_time: Option<prost_types::Timestamp>,
    pub block_number: u64,
}

/// The bytes `from..to` of `s`.
fn bytes_range(s: &Vec<u8>, from: usize, to: usize) -> (r: Vec<u8>)
    requires
        from <= to <= s@.len(),
    ensures
        r@ == s@.subrange(from as int, to as int),
{
    let mut r: Vec<u8> = Vec::new();
    let mut i: usize = from;
    while i < to
        invariant
            from <= i <= to <= s@.len(),
            r@ == s@.subrange(from as int, i as int),
        decreases to - i,
    {
        r.push(s[i]);
        proof {
            assert(s@.subrange(from as int, i + 1) =~= s@.subrange(from as int, i as int).push(
                s@[i as int],
            ));
        }
        i = i + 1;
    }
    r
}

/// `s` equals the constant `c`, byte for byte.
fn equals_const<const N: usize>(s: &Vec<u8>, c: &[u8; N]) -> (r: bool)
    ensures
        r == (s@ == c@),
{
    if s.len() != N {
        return false;
    }
    let mut i: usize = 0;
    while i < N
        invariant
            s@.len() == N,
            c@.len() == N,
            0 <= i <= N,
            forall|j: int| 0 <= j < i ==> s@[j] == c@[j],
        decreases N - i,
    {
        if s[i] != c[i] {
            return false;
        }
        i = i + 1;
    }
    assert(s@ =~= c@);
    true
}

/// The log was emitted by the tracked token contract.
pub fn is_tracked_contract(address: &Vec<u8>) -> (r: bool)
    ensures
        r == (address@ == GRT_TRACKED_CONTRACT@),
{
    equals_const(address, &GRT_TRACKED_CONTRACT)
}

/// The transfer that a log with these topics and data records: both
/// endpoints indexed as 32-byte words, the amount an unsigned 256-bit word.
pub open spec fn transfer_of_log(topics: Seq<Vec<u8>>, data: Seq<u8>) -> Option<
    (Seq<u8>, Seq<u8>, Seq<u8>),
> {
    if topics.len() == 3 && data.len() == 32 && topics[0]@ == TRANSFER_TOPIC@
        && topics[1]@.len() >= 32 && topics[2]@.len() >= 32 {
        Some((topics[1]@.subrange(12, 32), topics[2]@.subrange(12, 32), seq![0u8] + data))
    } else {
        None
    }
}

/// Decodes a `Transfer` log; `None` for any other log.
pub fn decode_transfer(topics: &Vec<Vec<u8>>, data: &Vec<u8>) -> (r: Option<TransferEvent>)
    ensures
        r matches Some(t) ==> transfer_of_log(topics@, data@) == Some((t.from@, t.to@, t.value@)),
        r is None ==> transfer_of_log(topics@, data@) is None,
{
    if topics.len() != 3 || data.len() != 32 || !equals_const(&topics[0], &TRANSFER_TOPIC)
        || topics[1].len() < 32 || topics[2].len() < 32 {
        return None;
    }
    let from = bytes_range(&topics[1], 12, 32);
    let to = bytes_range(&topics[2], 12, 32);
    let mut value: Vec<u8> = Vec::new();
    value.push(0u8);
    let mut i: usize = 0;
    while i < 32
        invariant
            data@.len() == 32,
            0 <= i <= 32,
            value@ == seq![0u8] + data@.take(i as int),
        decreases 32 - i,
    {
        value.push(data[i]);
        proof {
            assert(data@.take(i + 1) =~= data@.take(i as int).push(data@[i as int]));
            assert(seq![0u8] + data@.take(i + 1) =~= (seq![0u8] + data@.take(i as int)).push(
                data@[i as int],
            ));
        }
        i = i + 1;
    }
    assert(data@.take(32) =~= data@);
    Some(TransferEvent { from, to, value })
}

/// The sender's balance after the transfer, as decimal text.
pub open spec fn from_balance_text(call: CallTrace, transfer: TransferEvent) -> Seq<char> {
    decimal_text(
        signed_be(from_balance_of(call.storage_changes@, index_of(call.keccak_preimages@), transfer)),
    )
}

/// The receiver's balance after the transfer, as decimal text.
pub open spec fn to_balance_text(call: CallTrace, transfer: TransferEvent) -> Seq<char> {
    decimal_text(
        signed_be(to_balance_of(call.storage_changes@, index_of(call.keccak_preimages@), transfer)),
    )
}

/// Runs the address index and the balance matcher on one call, and writes
/// the two balances as decimal text.
pub fn balances_text(call: &CallTrace, transfer: &TransferEvent) -> (r: (String, String))
    ensures
        r.0@ == from_balance_text(*call, *transfer),
        r.1@ == to_balance_text(*call, *transfer),
{
    let hash_to_address = map_hashes_to_addresses(call);
    let balances = extract_balances_from_call(call, transfer, &hash_to_address);
    (signed_decimal(&balances.from_balance), signed_decimal(&balances.to_balance))
}

/// `0x` followed by the lower-case hex of `b`.
pub open spec fn prefixed_hex(b: Seq<u8>) -> Seq<char> {
    seq!['0', 'x'] + lower_hex(b)
}

fn encode_prefixed_hex(b: &Vec<u8>) -> (r: String)
    ensures
        r@ == prefixed_hex(b@),
{
    let digits = encode_lower_hex(b.as_slice());
    proof {
        reveal_strlit("0x");
    }
    concat_text("0x", digits.as_str())
}

/// The record of a transfer, endpoints and transaction hash written as
/// `0x`-prefixed hex, amounts and balances as decimal text.
pub fn transfer_record(site: LogSite, call: &CallTrace, transfer: &TransferEvent) -> (r: Transfer)
    ensures
        r.evt_tx_hash@ == prefixed_hex(site.tx_hash@),
        r.evt_index == site.log_index,
        r.evt_block_time == site.block_time,
        r.evt_block_number == site.block_number,
        r.from@ == prefixed_hex(transfer.from@),
        r.to@ == prefixed_hex(transfer.to@),
        r.value@ == decimal_text(signed_be(transfer.value@)),
        r.from_balance@ == from_balance_text(*call, *transfer),
        r.to_balance@ == to_balance_text(*call, *transfer),
{
    let (from_balance, to_balance) = balances_text(call, transfer);
    Transfer {
        evt_tx_hash: encode_prefixed_hex(&site.tx_hash),
        evt_index: site.log_index,
        evt_block_time: site.block_time,
        evt_block_number: site.block_number,
        from: encode_prefixed_hex(&transfer.from),
        to: encode_prefixed_hex(&transfer.to),
        value: signed_decimal(&transfer.value),
        from_balance,
        to_balance,
    }
}

/// The record of a transfer, transaction hash written as lower-case hex,
/// endpoints kept as bytes, amounts and balances as decimal text.
pub fn grt_transfer_record(site: LogSite, call: &CallTrace, transfer: TransferEvent) -> (r:
    GrtTransfer)
    ensures
        r.evt_tx_hash@ == lower_hex(site.tx_hash@),
        r.evt_index == site.log_index,
        r.evt_block_time == site.block_time,
        r.evt_block_number == site.block_number,
        r.from@ == transfer.from@,
        r.to@ == transfer.to@,
        r.value@ == decimal_text(signed_be(transfer.value@)),
        r.from_balance@ == from_balance_text(*call, transfer),
        r.to_balance@ == to_balance_text(*call, transfer),
{
    let (from_balance, to_balance) = balances_text(call, &transfer);
    let value = signed_decimal(&transfer.value);
    GrtTransfer {
        evt_tx_hash: encode_lower_hex(site.tx_hash.as_slice()),
        evt_index: site.log_index,
        evt_block_time: site.block_time,
        evt_block_number: site.block_number,
        from: transfer.from,
        to: transfer.to,
        value,
        from_balance,
        to_balance,
    }
}

/// The identifier of a transfer's row in the entity tables:
/// `<transaction hash>-<log index>`.
pub fn row_id(evt_tx_hash: &String, evt_index: u32) -> (r: String)
    ensures
        r@ == evt_tx_hash@ + seq!['-'] + decimal_text(evt_index as int),
{
    proof {
        reveal_strlit("-");
    }
    let head = concat_text(evt_tx_hash.as_str(), "-");
    let index = u32_decimal(evt_index);
    concat_text(head.as_str(), index.as_str())
}

} // verus!
