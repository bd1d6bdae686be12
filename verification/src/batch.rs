use vstd::prelude::*;

verus! {

/// Per-block parameters carried inside a batch proposal.  The range
/// derivation reads only how many entries there are.
pub struct BlockParams {
    pub num_transactions: u16,
    pub time_shift: u8,
}

/// A decoded batch-proposal record observed on the settlement chain.
/// Holds the plain fields that the revenue computation reads; decoding the
/// raw log into this shape is the caller's concern.
pub struct BatchProposed {
    pub batch_id: u64,
    pub last_block_id: u64,
    pub last_block_timestamp: u64,
    pub block_params: Vec<BlockParams>,
}

/// First block number of the range covered by a batch whose last block is
/// `last` and whose reported count is `count >= 1`: `last - count + 1`,
/// clamped at zero when the count exceeds the available numbers.
pub open spec fn range_first(last: u64, count: u64) -> u64 {
    if count - 1 <= last {
        (last - (count - 1)) as u64
    } else {
        0
    }
}

/// The block numbers covered by a batch: empty for a zero count, exactly
/// block `0` for the genesis ambiguity (`last == 0` with a positive count),
/// and otherwise the contiguous ascending run ending at `last` whose lower
/// bound is clamped at zero.
pub open spec fn derived_range(last: u64, count: u64) -> Seq<u64> {
    if count == 0 {
        Seq::empty()
    } else if last == 0 {
        seq![0u64]
    } else {
        Seq::new(
            (last - range_first(last, count) + 1) as nat,
            |i: int| (range_first(last, count) + i) as u64,
        )
    }
}

/// Expands a batch's `(lastBlockId, blockCount)` metadata into the ordered
/// list of layer-2 block numbers the batch covers.
pub fn derive_block_range(last_block_id: u64, block_count: u64) -> (r: Vec<u64>)
    ensures
        r@ == derived_range(last_block_id, block_count),
{
    let mut r: Vec<u64> = Vec::new();
    if block_count == 0 {
        assert(r@ =~= derived_range(last_block_id, block_count));
        return r;
    }
    if last_block_id == 0 {
        r.push(0);
        assert(r@ =~= derived_range(last_block_id, block_count));
        return r;
    }
    let first: u64 = if block_count - 1 <= last_block_id {
        last_block_id - (block_count - 1)
    } else {
        0
    };
    let span: u64 = last_block_id - first;
    assert(span < u64::MAX);
    let mut k: u64 = 0;
    while k <= span
        invariant
            first == range_first(last_block_id, block_count),
            first <= last_block_id,
            last_block_id >= 1,
            block_count >= 1,
            span == last_block_id - first,
            span < u64::MAX,
            k <= span + 1,
            r@ == Seq::new(k as nat, |j: int| (first + j) as u64),
        decreases span + 1 - k,
    {
        r.push(first + k);
        assert(r@ =~= Seq::new((k + 1) as nat, |j: int| (first + j) as u64));
        k = k + 1;
    }
    assert(r@ =~= derived_range(last_block_id, block_count));
    r
}

impl BatchProposed {
    /// The block numbers proposed by this batch, derived from `last_block_id`
    /// and the number of per-block parameter entries.
    pub fn block_numbers_proposed(&self) -> (r: Vec<u64>)
        ensures
            r@ == derived_range(self.last_block_id, self.block_params.len() as u64),
    {
        derive_block_range(self.last_block_id, self.block_params.len() as u64)
    }

    pub fn last_block_number(&self) -> (r: u64)
        ensures
            r == self.last_block_id,
    {
        self.last_block_id
    }

    pub fn last_block_timestamp(&self) -> (r: u64)
        ensures
            r == self.last_block_timestamp,
    {
        self.last_block_timestamp
    }
}

/// For any positive count, the derived range is contiguous, ascending and
/// ends at `last`; its length is the reported count, cut down to the
/// `last + 1` numbers that exist below the end of the range.
pub proof fn lemma_range_shape(last: u64, count: u64)
    requires
        count >= 1,
    ensures
        derived_range(last, count).len() == if count <= last {
            count as int
        } else {
            last + 1
        },
        derived_range(last, count).last() == last,
        forall|i: int|
            0 <= i < derived_range(last, count).len() ==> derived_range(last, count)[i] == last + 1
                - derived_range(last, count).len() + i,
{
    if last == 0 {
        assert(derived_range(last, count) =~= seq![0u64]);
    }
}

/// For a count `1 <= c <= last + 1` of blocks ending at `last >= 1`, the
/// derived range is exactly `c` contiguous ascending numbers ending at
/// `last`.
pub proof fn lemma_range_general(last: u64, count: u64)
    requires
        1 <= count,
        1 <= last,
        count <= last + 1,
    ensures
        derived_range(last, count).len() == count,
        forall|i: int|
            0 <= i < count ==> derived_range(last, count)[i] == last - count + 1 + i,
        derived_range(last, count)[count - 1] == last,
{
}

/// A positive count ending at block `0` covers exactly block `0`.
pub proof fn lemma_range_genesis(count: u64)
    requires
        count >= 1,
    ensures
        derived_range(0, count) =~= seq![0u64],
{
}

/// A zero count covers no blocks at all.
pub proof fn lemma_range_empty(last: u64)
    ensures
        derived_range(last, 0) =~= Seq::<u64>::empty(),
{
}

/// When the reported count exceeds the last block number, the lower bound
/// clamps at block `0` instead of underflowing: the range runs from `0` to
/// `last` inclusive.
pub proof fn lemma_range_clamps_at_zero(last: u64, count: u64)
    requires
        count > last,
    ensures
        derived_range(last, count).len() == last + 1,
        derived_range(last, count)[0] == 0,
        forall|i: int| 0 <= i <= last ==> derived_range(last, count)[i] == i,
{
    if last == 0 {
        assert(derived_range(last, count) =~= seq![0u64]);
    }
}

} // verus!
