//! Block records: what a node reports for one block, and the row that the
//! table of recent blocks keeps for it.

use bitcoincore_rpc::bitcoin::{BlockHash, TxMerkleNode};
use vstd::prelude::*;

verus! {

/// The sixteen lowercase hexadecimal digits, in order.
pub open spec fn hex_digits() -> Seq<char> {
    seq!['0', '1', '2', '3', '4', '5', '6', '7', '8', '9', 'a', 'b', 'c', 'd', 'e', 'f']
}

/// The text form of a double-SHA256 digest: two lowercase hexadecimal digits
/// per byte, high digit first, the bytes taken from the last to the first.
pub open spec fn digest_text(bytes: Seq<u8>) -> Seq<char> {
    Seq::new(
        2 * bytes.len(),
        |i: int|
            {
                let byte = bytes[bytes.len() - 1 - i / 2];
                if i % 2 == 0 {
                    hex_digits()[byte as int / 16]
                } else {
                    hex_digits()[byte as int % 16]
                }
            },
    )
}

/// Two digests with the same text are the same digest.
pub proof fn lemma_digest_text_injective(a: Seq<u8>, b: Seq<u8>)
    requires
        digest_text(a) == digest_text(b),
    ensures
        a == b,
{
    let digits = hex_digits();
    assert forall|x: int, y: int| 0 <= x < 16 && 0 <= y < 16 && digits[x] == digits[y] implies x
        == y by {}
    assert(digest_text(a).len() == 2 * a.len());
    assert(digest_text(b).len() == 2 * b.len());
    let n = a.len() as int;
    assert forall|k: int| 0 <= k < n implies a[k] == b[k] by {
        let i = 2 * (n - 1 - k);
        assert(i / 2 == n - 1 - k && i % 2 == 0);
        assert((i + 1) / 2 == n - 1 - k && (i + 1) % 2 == 1);
        assert(digest_text(a)[i] == digits[a[k] as int / 16]);
        assert(digest_text(b)[i] == digits[b[k] as int / 16]);
        assert(digest_text(a)[i + 1] == digits[a[k] as int % 16]);
        assert(digest_text(b)[i + 1] == digits[b[k] as int % 16]);
        assert(a[k] as int / 16 == b[k] as int / 16);
        assert(a[k] as int % 16 == b[k] as int % 16);
    }
    assert(a =~= b);
}

/// What a node reports for one block, reduced to the fields that are kept.
#[derive(Clone, Copy, Debug, PartialEq, Eq)]
pub struct BlockHeader {
    /// Hash of the block, as its 32 digest bytes.
    pub hash: [u8; 32],
    /// Height of the block in the chain.
    pub height: usize,
    /// Creation time, in seconds since the epoch.
    pub time: usize,
    /// Serialized size in bytes.
    pub size: usize,
    /// Merkle root over the block's transactions, as its 32 digest bytes.
    pub merkle_root: [u8; 32],
    /// Number of transactions in the block.
    pub tx_count: usize,
    /// Hash of the block's predecessor; `None` for the genesis block.
    pub previous: Option<[u8; 32]>,
}

/// One row of the window of recent blocks.
#[derive(Debug, PartialEq, Eq)]
pub struct BlockInfo {
    /// Position within the window: 1 is the chain tip.
    pub id: usize,
    /// Block hash, as text.
    pub hash: String,
    /// Height of the block in the chain.
    pub height: usize,
    /// Creation time, in seconds since the epoch.
    pub timestamp: usize,
    /// Serialized size in bytes.
    pub size: usize,
    /// Merkle root over the block's transactions, as text.
    pub merkle_root: String,
    /// Number of transactions in the block.
    pub num_transactions: usize,
}

/// The mathematical content of a [`BlockInfo`].
pub struct BlockRow {
    pub id: nat,
    pub hash: Seq<char>,
    pub height: nat,
    pub timestamp: nat,
    pub size: nat,
    pub merkle_root: Seq<char>,
    pub num_transactions: nat,
}

impl View for BlockInfo {
    type V = BlockRow;

    open spec fn view(&self) -> BlockRow {
        BlockRow {
            id: self.id as nat,
            hash: self.hash@,
            height: self.height as nat,
            timestamp: self.timestamp as nat,
            size: self.size as nat,
            merkle_root: self.merkle_root@,
            num_transactions: self.num_transactions as nat,
        }
    }
}

/// The row that stands for `header` at position `id` of a window.
pub open spec fn row_of(id: nat, header: BlockHeader) -> BlockRow {
    BlockRow {
        id,
        hash: digest_text(header.hash@),
        height: header.height as nat,
        timestamp: header.time as nat,
        size: header.size as nat,
        merkle_root: digest_text(header.merkle_root@),
        num_transactions: header.tx_count as nat,
    }
}

/// The rows that a sequence of records stands for.
pub open spec fn rows(blocks: Seq<BlockInfo>) -> Seq<BlockRow> {
    blocks.map_values(|b: BlockInfo| b@)
}

/// Calls `Display` of `bitcoin::BlockHash` (through `to_string`) on the hash
/// made of `bytes`. The contract claims what the crate's formatting code
/// does for such a hash: lowercase hexadecimal, two digits per byte, the
/// bytes written from the last to the first, with no prefix or padding.
#[verifier::external_body]
fn block_hash_text(bytes: &[u8; 32]) -> (text: String)
    ensures
        text@ == digest_text(bytes@),
{
    <BlockHash as bitcoincore_rpc::bitcoin::hashes::Hash>::from_byte_array(*bytes).to_string()
}

/// Calls `Display` of `bitcoin::TxMerkleNode` (through `to_string`) on the
/// node made of `bytes`. The contract claims the same form as for a block
/// hash: lowercase hexadecimal, the bytes written from the last to the first.
#[verifier::external_body]
fn merkle_node_text(bytes: &[u8; 32]) -> (text: String)
    ensures
        text@ == digest_text(bytes@),
{
    <TxMerkleNode as bitcoincore_rpc::bitcoin::hashes::Hash>::from_byte_array(*bytes).to_string()
}

impl Clone for BlockInfo {
    fn clone(&self) -> (copy: BlockInfo)
        ensures
            copy@ == self@,
    {
        BlockInfo {
            id: self.id,
            hash: self.hash.clone(),
            height: self.height,
            timestamp: self.timestamp,
            size: self.size,
            merkle_root: self.merkle_root.clone(),
            num_transactions: self.num_transactions,
        }
    }
}

impl BlockInfo {
    /// Builds the row for `header` at position `id` of a window.
    pub fn from_header(id: usize, header: &BlockHeader) -> (row: BlockInfo)
        ensures
            row@ == row_of(id as nat, *header),
    {
        BlockInfo {
            id,
            hash: block_hash_text(&header.hash),
            height: header.height,
            timestamp: header.time,
            size: header.size,
            merkle_root: merkle_node_text(&header.merkle_root),
            num_transactions: header.tx_count,
        }
    }
}

} // verus!
