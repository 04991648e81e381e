//! Blocks, the block chain, and its validation rules.

use sha3::{Digest, Sha3_256};
use vstd::prelude::*;

verus! {

use vstd::string::StrSliceExecFns;

/// The SHA3-256 digest of a byte sequence. The digest is a fixed function of
/// the input bytes alone; nothing further is assumed about its value.
pub uninterp spec fn sha3_256_of(input: Seq<u8>) -> Seq<u8>;

/// Relies on sha3::Sha3_256 (the SHA3-256 hash): the digest depends on the
/// input bytes alone and is always 32 bytes long.
#[verifier::external_body]
fn sha3_256(input: &[u8]) -> (r: Vec<u8>)
    ensures
        r@ == sha3_256_of(input@),
        r@.len() == 32,
{
    Sha3_256::digest(input).to_vec()
}

/// Relies on chrono::Utc::now: renders the current wall-clock time as text.
/// The result is time-dependent, so nothing is promised about its value.
#[verifier::external_body]
fn current_time_string() -> String {
    format!("{}", chrono::Utc::now())
}

/// The exact byte layout that is hashed for a block: the index as 4
/// little-endian bytes, then the UTF-8 bytes of the timestamp, the raw bytes
/// of the previous hash, and the UTF-8 bytes of the payload, with no
/// delimiters between the fields.
pub open spec fn spec_hash_input(
    index: u32,
    time: Seq<char>,
    pre_hash: Seq<u8>,
    data: Seq<char>,
) -> Seq<u8> {
    vstd::bytes::spec_u32_to_le_bytes(index) + vstd::utf8::encode_utf8(time) + pre_hash
        + vstd::utf8::encode_utf8(data)
}

/// The hash a block with these fields must carry to be well formed.
pub open spec fn spec_block_hash(
    index: u32,
    time: Seq<char>,
    pre_hash: Seq<u8>,
    data: Seq<char>,
) -> Seq<u8> {
    sha3_256_of(spec_hash_input(index, time, pre_hash, data))
}

/// Calculate the hash of a block's fields with SHA3-256.
pub fn calculate_hash(index: u32, time: &str, pre_hash: &[u8], data: &str) -> (r: Vec<u8>)
    ensures
        r@ == spec_block_hash(index, time@, pre_hash@, data@),
        r@.len() == 32,
{
    let mut input: Vec<u8> = vstd::bytes::u32_to_le_bytes(index);
    let mut time_bytes: Vec<u8> = time.as_bytes_vec();
    input.append(&mut time_bytes);
    let mut pre_hash_bytes: Vec<u8> = vstd::slice::slice_to_vec(pre_hash);
    input.append(&mut pre_hash_bytes);
    let mut data_bytes: Vec<u8> = data.as_bytes_vec();
    input.append(&mut data_bytes);
    proof {
        assert(input@ =~= spec_hash_input(index, time@, pre_hash@, data@));
    }
    sha3_256(input.as_slice())
}

/// A ledger entry. `index` 0 is reserved for the genesis block; every other
/// block extends the block whose `hash` equals its `pre_hash`, and carries in
/// `hash` the SHA3-256 digest of its own fields.
#[derive(Debug)]
pub struct Block {
    pub index: u32,
    pub time: String,
    pub hash: Vec<u8>,
    pub pre_hash: Vec<u8>,
    pub data: String,
}

impl Block {
    /// Build a block from its fields, exactly as given.
    pub fn new(index: u32, time: String, hash: Vec<u8>, pre_hash: Vec<u8>, data: String) -> (b:
        Block)
        ensures
            b.index == index,
            b.time == time,
            b.hash == hash,
            b.pre_hash == pre_hash,
            b.data == data,
    {
        Block { index, time, hash, pre_hash, data }
    }
}

/// Copy a byte vector, element by element.
fn clone_bytes(v: &Vec<u8>) -> (r: Vec<u8>)
    ensures
        r@ == v@,
{
    let mut r: Vec<u8> = Vec::new();
    let mut i: usize = 0;
    while i < v.len()
        invariant
            i <= v.len(),
            r@ == v@.subrange(0, i as int),
        decreases v.len() - i,
    {
        r.push(v[i]);
        i = i + 1;
        proof {
            assert(r@ =~= v@.subrange(0, i as int));
        }
    }
    proof {
        assert(r@ =~= v@);
    }
    r
}

impl Clone for Block {
    /// The copy carries the same field contents as the original.
    fn clone(&self) -> (r: Self)
        ensures
            r.index == self.index,
            r.time@ == self.time@,
            r.hash@ == self.hash@,
            r.pre_hash@ == self.pre_hash@,
            r.data@ == self.data@,
    {
        Block {
            index: self.index,
            time: self.time.clone(),
            hash: clone_bytes(&self.hash),
            pre_hash: clone_bytes(&self.pre_hash),
            data: self.data.clone(),
        }
    }
}

/// The three checks a candidate block must pass against the block it extends:
/// the index is one past the parent's, the previous-hash field equals the
/// parent's hash, and the stored hash is the digest of the block's own fields.
pub open spec fn spec_validate_block(parent: Block, block: Block) -> bool {
    &&& parent.index + 1 == block.index
    &&& parent.hash@ == block.pre_hash@
    &&& block.hash@ == spec_block_hash(block.index, block.time@, block.pre_hash@, block.data@)
}

/// Validate a candidate block against the block it claims to extend.
pub fn validate_block(pre_block: &Block, block: &Block) -> (r: bool)
    ensures
        r == spec_validate_block(*pre_block, *block),
{
    let recalc_hash = calculate_hash(
        block.index,
        block.time.as_str(),
        block.pre_hash.as_slice(),
        block.data.as_str(),
    );
    if pre_block.index == u32::MAX || pre_block.index + 1 != block.index {
        false
    } else if !bytes_equal(&pre_block.hash, &block.pre_hash) {
        false
    } else if !bytes_equal(&recalc_hash, &block.hash) {
        false
    } else {
        true
    }
}

/// Compare two byte vectors for equal contents.
pub(crate) fn bytes_equal(a: &Vec<u8>, b: &Vec<u8>) -> (r: bool)
    ensures
        r == (a@ == b@),
{
    if a.len() != b.len() {
        proof {
            assert(a@.len() != b@.len());
        }
        return false;
    }
    let mut i: usize = 0;
    while i < a.len()
        invariant
            i <= a.len(),
            a@.len() == b@.len(),
            forall|j: int| 0 <= j < i ==> a@[j] == b@[j],
        decreases a.len() - i,
    {
        if a[i] != b[i] {
            return false;
        }
        i = i + 1;
    }
    proof {
        assert(a@ =~= b@);
    }
    true
}

/// The hash every node hard-codes for the genesis block.
pub open spec fn genesis_hash() -> Seq<u8> {
    seq![
        58u8, 189u8, 197u8, 52u8, 175u8, 113u8, 254u8, 248u8, 138u8, 252u8, 216u8, 166u8, 7u8,
        222u8, 247u8, 172u8, 174u8, 235u8, 214u8, 143u8, 214u8, 32u8, 59u8, 211u8, 64u8, 58u8,
        123u8, 29u8, 148u8, 66u8, 54u8, 185u8,
    ]
}

/// The genesis block's fields are fixed constants agreed by every node: index
/// 0, an empty previous hash, and a hard-coded timestamp, payload and hash.
pub open spec fn is_genesis_block(b: Block) -> bool {
    &&& b.index == 0
    &&& b.time@ == "1970-01-01 00:00:00 UTC"@
    &&& b.hash@ == genesis_hash()
    &&& b.pre_hash@ == Seq::<u8>::empty()
    &&& b.data@ == "Genesis block."@
}

/// Every consecutive pair of blocks passes `validate_block`; the first block
/// (the genesis block) is trusted as it stands, so a chain of one block is
/// trivially valid.
pub open spec fn spec_valid_chain(s: Seq<Block>) -> bool {
    forall|i: int| 1 <= i < s.len() ==> #[trigger] spec_validate_block(s[i - 1], s[i])
}

/// An append-only, hash-linked sequence of blocks, starting at the genesis
/// block. It is mutated only by appending a validated tip or by wholesale
/// replacement with a longer valid foreign chain.
#[derive(Debug)]
pub struct BlockChain {
    chain: Vec<Block>,
}

impl View for BlockChain {
    type V = Seq<Block>;

    closed spec fn view(&self) -> Seq<Block> {
        self.chain@
    }
}

impl BlockChain {
    /// A chain always holds at least its first block.
    pub open spec fn wf(self) -> bool {
        self@.len() >= 1
    }

    /// Create a new block chain holding only the hard-coded genesis block.
    pub fn new() -> (r: BlockChain)
        ensures
            r@.len() == 1,
            is_genesis_block(r@[0]),
            r.wf(),
            spec_valid_chain(r@),
    {
        let time: String = "1970-01-01 00:00:00 UTC".to_owned();
        let pre_hash: Vec<u8> = Vec::new();
        let data: String = "Genesis block.".to_owned();
        let hash: Vec<u8> = vec![
            58u8, 189u8, 197u8, 52u8, 175u8, 113u8, 254u8, 248u8, 138u8, 252u8, 216u8, 166u8, 7u8,
            222u8, 247u8, 172u8, 174u8, 235u8, 214u8, 143u8, 214u8, 32u8, 59u8, 211u8, 64u8, 58u8,
            123u8, 29u8, 148u8, 66u8, 54u8, 185u8,
        ];
        proof {
            assert(hash@ =~= genesis_hash());
        }
        let mut chain: Vec<Block> = Vec::new();
        chain.push(Block::new(0, time, hash, pre_hash, data));
        BlockChain { chain }
    }

    /// Rebuild a chain from its blocks, for example after decoding one that a
    /// peer sent.
    pub fn from_blocks(blocks: Vec<Block>) -> (r: BlockChain)
        ensures
            r@ == blocks@,
    {
        BlockChain { chain: blocks }
    }

    /// The blocks of the chain, lowest index first.
    pub fn blocks(&self) -> (r: &Vec<Block>)
        ensures
            r@ == self@,
    {
        &self.chain
    }

    /// Generate the block that extends the current tip with the given
    /// payload, stamped with the current wall-clock time.
    pub fn generate_next_block(&self, data: String) -> (b: Block)
        requires
            self.wf(),
            self@.last().index < u32::MAX,
        ensures
            b.index == self@.last().index + 1,
            b.pre_hash@ == self@.last().hash@,
            b.data@ == data@,
            b.hash@ == spec_block_hash(b.index, b.time@, b.pre_hash@, b.data@),
            spec_validate_block(self@.last(), b),
    {
        let pre_block = &self.chain[self.chain.len() - 1];
        let index = pre_block.index + 1;
        let pre_hash = clone_bytes(&pre_block.hash);
        let time = current_time_string();
        let hash = calculate_hash(index, time.as_str(), pre_hash.as_slice(), data.as_str());
        Block::new(index, time, hash, pre_hash, data)
    }

    /// Append the block if it validates against the current tip; otherwise
    /// leave the chain unchanged and report the rejection.
    pub fn add_new_block(&mut self, block: Block) -> (r: bool)
        requires
            old(self).wf(),
        ensures
            r == spec_validate_block(old(self)@.last(), block),
            r ==> final(self)@ == old(self)@.push(block),
            !r ==> final(self)@ == old(self)@,
            final(self).wf(),
            spec_valid_chain(old(self)@) ==> spec_valid_chain(final(self)@),
    {
        let is_valid = validate_block(&self.chain[self.chain.len() - 1], &block);
        if is_valid {
            proof {
                if spec_valid_chain(self@) {
                    lemma_valid_chain_extend(self@, block);
                }
            }
            self.chain.push(block);
        }
        is_valid
    }

    /// The number of blocks in the chain.
    pub fn len(&self) -> (r: usize)
        ensures
            r == self@.len(),
    {
        self.chain.len()
    }

    /// The tip: the highest-index block, if the chain is not empty.
    pub fn get_latest(&self) -> (r: Option<&Block>)
        ensures
            match r {
                Some(b) => self@.len() > 0 && *b == self@.last(),
                None => self@.len() == 0,
            },
    {
        if self.chain.len() == 0 {
            None
        } else {
            Some(&self.chain[self.chain.len() - 1])
        }
    }

    /// Remove and return the tip, if the chain is not empty.
    pub fn pop_latest(&mut self) -> (r: Option<Block>)
        ensures
            match r {
                Some(b) => old(self)@.len() > 0 && b == old(self)@.last() && final(self)@ == old(
                    self,
                )@.drop_last(),
                None => old(self)@.len() == 0 && final(self)@ == old(self)@,
            },
    {
        let r = self.chain.pop();
        proof {
            if old(self)@.len() > 0 {
                assert(final(self)@ =~= old(self)@.drop_last());
            }
        }
        r
    }
}

/// Validate a whole chain: the genesis block is trusted as it stands, and
/// every later block must validate against its predecessor.
pub fn validate_chain(block_chain: &BlockChain) -> (r: bool)
    ensures
        r == spec_valid_chain(block_chain@),
{
    let blocks = &block_chain.chain;
    let mut i: usize = 1;
    while i < blocks.len()
        invariant
            1 <= i,
            blocks@ == block_chain@,
            forall|j: int| 1 <= j < i && j < blocks@.len() ==> #[trigger] spec_validate_block(
                blocks@[j - 1],
                blocks@[j],
            ),
        decreases blocks.len() - i,
    {
        if !validate_block(&blocks[i - 1], &blocks[i]) {
            proof {
                assert(!spec_validate_block(block_chain@[i - 1], block_chain@[i as int]));
            }
            return false;
        }
        i = i + 1;
    }
    true
}

/// The fork-choice rule: the foreign chain is adopted if and only if it is
/// fully valid and strictly longer than the local one; otherwise nothing
/// changes and `None` signals the rejection.
pub fn replace_to_new_chain(old_chain: &BlockChain, new_chain: BlockChain) -> (r: Option<
    BlockChain,
>)
    ensures
        match r {
            Some(c) => spec_valid_chain(new_chain@) && new_chain@.len() > old_chain@.len() && c
                == new_chain,
            None => !(spec_valid_chain(new_chain@) && new_chain@.len() > old_chain@.len()),
        },
{
    if validate_chain(&new_chain) && new_chain.len() > old_chain.len() {
        Some(new_chain)
    } else {
        None
    }
}

/// A valid chain stays valid when a block that validates against its tip is
/// appended: chains built solely by generating and adding blocks on top of
/// the genesis chain therefore always pass `validate_chain`.
pub proof fn lemma_valid_chain_extend(chain: Seq<Block>, b: Block)
    requires
        chain.len() > 0,
        spec_valid_chain(chain),
        spec_validate_block(chain.last(), b),
    ensures
        spec_valid_chain(chain.push(b)),
{
    let c2 = chain.push(b);
    assert forall|i: int| 1 <= i < c2.len() implies #[trigger] spec_validate_block(
        c2[i - 1],
        c2[i],
    ) by {
        if i < chain.len() {
            assert(spec_validate_block(chain[i - 1], chain[i]));
        } else {
            assert(c2[i - 1] == chain.last());
            assert(c2[i] == b);
        }
    }
}

/// Changing the `index` of any non-genesis block of a valid chain, to any
/// different value, makes the chain invalid: the link from its predecessor no
/// longer carries the successor index.
pub proof fn lemma_tampered_index_invalidates(chain: Seq<Block>, i: int, b: Block)
    requires
        spec_valid_chain(chain),
        1 <= i < chain.len(),
        b.index != chain[i].index,
    ensures
        !spec_valid_chain(chain.update(i, b)),
{
    let c2 = chain.update(i, b);
    assert(spec_validate_block(chain[i - 1], chain[i]));
    assert(!spec_validate_block(c2[i - 1], c2[i]));
}

/// Changing the `pre_hash` of any non-genesis block of a valid chain, to any
/// different contents, makes the chain invalid: it no longer names the
/// predecessor's hash.
pub proof fn lemma_tampered_pre_hash_invalidates(chain: Seq<Block>, i: int, b: Block)
    requires
        spec_valid_chain(chain),
        1 <= i < chain.len(),
        b.pre_hash@ != chain[i].pre_hash@,
    ensures
        !spec_valid_chain(chain.update(i, b)),
{
    let c2 = chain.update(i, b);
    assert(spec_validate_block(chain[i - 1], chain[i]));
    assert(!spec_validate_block(c2[i - 1], c2[i]));
}

/// Changing the `data` payload (or the timestamp) of any non-genesis block
/// of a valid chain invalidates it whenever the digest of the changed fields
/// differs from the stored one. Whether two distinct inputs can share a
/// SHA3-256 digest cannot be settled from the digest's contract, so that
/// hypothesis stands in the `requires`; the runtime tests exercise concrete
/// payload changes.
pub proof fn lemma_tampered_payload_invalidates(chain: Seq<Block>, i: int, b: Block)
    requires
        spec_valid_chain(chain),
        1 <= i < chain.len(),
        b.index == chain[i].index,
        b.pre_hash@ == chain[i].pre_hash@,
        b.hash@ == chain[i].hash@,
        spec_block_hash(b.index, b.time@, b.pre_hash@, b.data@) != chain[i].hash@,
    ensures
        !spec_valid_chain(chain.update(i, b)),
{
    let c2 = chain.update(i, b);
    assert(spec_validate_block(chain[i - 1], chain[i]));
    assert(!spec_validate_block(c2[i - 1], c2[i]));
}

/// Changing the stored `hash` of any non-genesis block of a valid chain,
/// while the hashed fields stay the same, makes the chain invalid: the stored
/// hash no longer equals the recomputed digest.
pub proof fn lemma_tampered_hash_invalidates(chain: Seq<Block>, i: int, b: Block)
    requires
        spec_valid_chain(chain),
        1 <= i < chain.len(),
        b.hash@ != chain[i].hash@,
        b.index == chain[i].index,
        b.time@ == chain[i].time@,
        b.pre_hash@ == chain[i].pre_hash@,
        b.data@ == chain[i].data@,
    ensures
        !spec_valid_chain(chain.update(i, b)),
{
    let c2 = chain.update(i, b);
    assert(spec_validate_block(chain[i - 1], chain[i]));
    assert(!spec_validate_block(c2[i - 1], c2[i]));
}

} // verus!
