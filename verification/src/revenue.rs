use vstd::prelude::*;

use crate::amount::{Amount, clamped};
use crate::pipeline::present_of;

verus! {

broadcast use vstd::seq_lib::group_to_multiset_ensures;

/// The execution outcome of one confirmed transaction, reduced to the plain
/// fields the revenue computation reads.
#[derive(Clone, Copy, Debug)]
pub struct Receipt {
    pub tx_hash: [u8; 32],
    pub gas_used: u64,
    pub effective_gas_price: u128,
}

/// Computed revenue for one layer-2 block.
#[derive(Clone, Copy, PartialEq, Eq, Structural, Debug)]
pub struct RevenueResult {
    pub block_number: u64,
    pub tx_count: usize,
    pub total_paid_wei: Amount,
}

/// The fee one transaction paid: gas used times effective gas price.
pub open spec fn fee_of(r: Receipt) -> nat {
    (r.gas_used as nat) * (r.effective_gas_price as nat)
}

/// The exact mathematical sum of the fees of a list of receipts.
pub open spec fn fees_total(s: Seq<Receipt>) -> nat
    decreases s.len(),
{
    if s.len() == 0 {
        0
    } else {
        fees_total(s.drop_last()) + fee_of(s.last())
    }
}

/// The exact sum of the per-block totals of a list of results.
pub open spec fn sum_paid(s: Seq<RevenueResult>) -> nat
    decreases s.len(),
{
    if s.len() == 0 {
        0
    } else {
        sum_paid(s.drop_last()) + s.last().total_paid_wei.value()
    }
}

/// The exact sum of the per-block transaction counts of a list of results.
pub open spec fn sum_counts(s: Seq<RevenueResult>) -> nat
    decreases s.len(),
{
    if s.len() == 0 {
        0
    } else {
        sum_counts(s.drop_last()) + (s.last().tx_count as nat)
    }
}

/// Ascending block-number order.
pub open spec fn sorted_by_block(s: Seq<RevenueResult>) -> bool {
    forall|i: int, j: int| 0 <= i < j < s.len() ==> s[i].block_number <= s[j].block_number
}

/// Folds the receipts retrieved for one block into its revenue figure.
/// A `None` stands for a transaction whose receipt could not be fetched or
/// does not exist; it is excluded from both the count and the total rather
/// than treated as an error.  The total is the exact fee sum of the
/// retrieved receipts, clamped at the top of the 256-bit range.
pub fn compute_block_revenue(block_number: u64, receipts: &Vec<Option<Receipt>>) -> (r:
    RevenueResult)
    ensures
        r.block_number == block_number,
        r.tx_count == present_of(receipts@).len(),
        r.total_paid_wei.value() == clamped(fees_total(present_of(receipts@))),
{
    let mut total = Amount::zero();
    let mut count: usize = 0;
    let mut i: usize = 0;
    while i < receipts.len()
        invariant
            i <= receipts@.len(),
            count == present_of(receipts@.take(i as int)).len(),
            count <= i,
            total.value() == clamped(fees_total(present_of(receipts@.take(i as int)))),
        decreases receipts@.len() - i,
    {
        proof {
            assert(receipts@.take(i + 1).drop_last() =~= receipts@.take(i as int));
            assert(receipts@.take(i + 1).last() == receipts@[i as int]);
            crate::pipeline::lemma_present_len(receipts@.take(i as int));
        }
        let item: Option<Receipt> = receipts[i];
        match item {
            Some(rcpt) => {
                let f = Amount::fee(rcpt.gas_used, rcpt.effective_gas_price);
                proof {
                    let pres = present_of(receipts@.take(i as int));
                    assert(present_of(receipts@.take(i + 1)) == pres.push(rcpt));
                    assert(fees_total(pres.push(rcpt)) == fees_total(pres) + fee_of(rcpt)) by {
                        assert(pres.push(rcpt).drop_last() =~= pres);
                    }
                    crate::amount::lemma_clamped_add(fees_total(pres), fee_of(rcpt));
                }
                total = total.saturating_add(f);
                count = count + 1;
            },
            None => {
                proof {
                    assert(present_of(receipts@.take(i + 1)) == present_of(
                    receipts@.take(i as int)));
                }
            },
        }
        i = i + 1;
    }
    proof {
        assert(receipts@.take(receipts@.len() as int) =~= receipts@);
    }
    RevenueResult { block_number, tx_count: count, total_paid_wei: total }
}

/// The per-block results whose whole-block computation succeeded, in input
/// order; failed blocks are dropped, never an error.
pub fn successful_results(fetched: &Vec<Option<RevenueResult>>) -> (r: Vec<RevenueResult>)
    ensures
        r@ == present_of(fetched@),
{
    let mut r: Vec<RevenueResult> = Vec::new();
    let mut i: usize = 0;
    while i < fetched.len()
        invariant
            i <= fetched@.len(),
            r@ == present_of(fetched@.take(i as int)),
        decreases fetched@.len() - i,
    {
        proof {
            assert(fetched@.take(i + 1).drop_last() =~= fetched@.take(i as int));
            assert(fetched@.take(i + 1).last() == fetched@[i as int]);
        }
        let item: Option<RevenueResult> = fetched[i];
        match item {
            Some(res) => {
                r.push(res);
            },
            None => {},
        }
        i = i + 1;
    }
    proof {
        assert(fetched@.take(fetched@.len() as int) =~= fetched@);
    }
    r
}

/// Sorts per-block results into ascending block-number order, keeping
/// exactly the same collection of results.
pub fn sort_by_block_number(input: Vec<RevenueResult>) -> (r: Vec<RevenueResult>)
    ensures
        sorted_by_block(r@),
        r@.to_multiset() == input@.to_multiset(),
{
    let ghost orig = input@;
    let mut rest = input;
    let mut out: Vec<RevenueResult> = Vec::new();
    proof {
        assert(out@.to_multiset().add(rest@.to_multiset()) =~= orig.to_multiset());
    }
    while rest.len() > 0
        invariant
            out@.to_multiset().add(rest@.to_multiset()) == orig.to_multiset(),
            sorted_by_block(out@),
            forall|i: int, k: int|
                0 <= i < out@.len() && 0 <= k < rest@.len() ==> out@[i].block_number
                    <= rest@[k].block_number,
        decreases rest@.len(),
    {
        let mut m: usize = 0;
        let mut j: usize = 1;
        while j < rest.len()
            invariant
                m < rest@.len(),
                1 <= j <= rest@.len(),
                forall|k: int|
                    0 <= k < j ==> rest@[m as int].block_number <= rest@[k].block_number,
            decreases rest@.len() - j,
        {
            if rest[j].block_number < rest[m].block_number {
                m = j;
            }
            j = j + 1;
        }
        let ghost prev_rest = rest@;
        let ghost prev_out = out@;
        let x = rest.remove(m);
        out.push(x);
        proof {
            assert(prev_rest.contains(x));
            assert(rest@.to_multiset() == prev_rest.to_multiset().remove(x));
            assert(out@.to_multiset() == prev_out.to_multiset().insert(x));
            assert(out@.to_multiset().add(rest@.to_multiset()) =~= orig.to_multiset());
            assert(forall|k: int|
                0 <= k < rest@.len() ==> rest@[k] == (if k < m {
                    prev_rest[k]
                } else {
                    prev_rest[k + 1]
                }));
        }
    }
    proof {
        assert(out@.to_multiset() =~= orig.to_multiset());
    }
    out
}

/// Revenue for a whole batch: keep the blocks whose computation succeeded
/// and present them in ascending block-number order, whatever order the
/// chunks of the bounded fetch completed in.
pub fn compute_batch_revenue(fetched: Vec<Option<RevenueResult>>) -> (r: Vec<RevenueResult>)
    ensures
        sorted_by_block(r@),
        r@.to_multiset() == present_of(fetched@).to_multiset(),
{
    let kept = successful_results(&fetched);
    sort_by_block_number(kept)
}

/// Grand totals over the per-block results of a batch: the saturating sum
/// of the amounts paid and the exact count of transactions.
pub fn batch_totals(results: &Vec<RevenueResult>) -> (t: (Amount, u128))
    ensures
        t.0.value() == clamped(sum_paid(results@)),
        t.1 == sum_counts(results@),
{
    let mut paid = Amount::zero();
    let mut txs: u128 = 0;
    let mut i: usize = 0;
    while i < results.len()
        invariant
            i <= results@.len(),
            paid.value() == clamped(sum_paid(results@.take(i as int))),
            txs == sum_counts(results@.take(i as int)),
            txs <= (i as nat) * 0xffff_ffff_ffff_ffff,
        decreases results@.len() - i,
    {
        proof {
            assert(results@.take(i + 1).drop_last() =~= results@.take(i as int));
            assert(results@.take(i + 1).last() == results@[i as int]);
            crate::amount::lemma_clamped_add(
                sum_paid(results@.take(i as int)),
                results@[i as int].total_paid_wei.value(),
            );
            assert((results@[i as int].tx_count as u128) <= 0xffff_ffff_ffff_ffffu128);
            assert((txs as nat) + (results@[i as int].tx_count as nat) <= ((i as nat) + 1)
                * 0xffff_ffff_ffff_ffff && ((i as nat) + 1) * 0xffff_ffff_ffff_ffff
                < 0x100000000000000000000000000000000nat) by (nonlinear_arith)
                requires
                    txs <= (i as nat) * 0xffff_ffff_ffff_ffff,
                    (results@[i as int].tx_count as nat) <= 0xffff_ffff_ffff_ffffnat,
                    (i as nat) + 1 <= 0x1_0000_0000_0000_0000nat,
            ;
        }
        let block = &results[i];
        paid = paid.saturating_add(block.total_paid_wei);
        txs = txs + (block.tx_count as u128);
        i = i + 1;
    }
    proof {
        assert(results@.take(results@.len() as int) =~= results@);
    }
    (paid, txs)
}

} // verus!
