use taiko_batch_revenue::amount::Amount;
use taiko_batch_revenue::batch::{derive_block_range, BatchProposed, BlockParams};
use taiko_batch_revenue::display::format_wei_eth;
use taiko_batch_revenue::pipeline::chunk_spans;
use taiko_batch_revenue::revenue::{
    batch_totals, compute_batch_revenue, compute_block_revenue, Receipt, RevenueResult,
};
use taiko_batch_revenue::scanner::{scan_block_window, signature_diagnostic_sample};
use taiko_batch_revenue::ComputeError;

fn receipt(gas_used: u64, effective_gas_price: u128) -> Receipt {
    Receipt { tx_hash: [0u8; 32], gas_used, effective_gas_price }
}

#[test]
fn range_general_case() {
    assert_eq!(derive_block_range(100, 5), vec![96, 97, 98, 99, 100]);
    assert_eq!(derive_block_range(7, 1), vec![7]);
}

#[test]
fn range_three_blocks_ending_at_ten() {
    assert_eq!(derive_block_range(10, 3), vec![8, 9, 10]);
}

#[test]
fn range_genesis_special_case() {
    assert_eq!(derive_block_range(0, 7), vec![0]);
    assert_eq!(derive_block_range(0, 1), vec![0]);
}

#[test]
fn range_zero_count_is_empty() {
    assert_eq!(derive_block_range(0, 0), Vec::<u64>::new());
    assert_eq!(derive_block_range(12345, 0), Vec::<u64>::new());
}

#[test]
fn range_count_larger_than_last_clamps_at_zero() {
    assert_eq!(derive_block_range(5, 10), vec![0, 1, 2, 3, 4, 5]);
    assert_eq!(derive_block_range(1, 3), vec![0, 1]);
}

#[test]
fn range_at_top_of_u64() {
    assert_eq!(derive_block_range(u64::MAX, 3), vec![u64::MAX - 2, u64::MAX - 1, u64::MAX]);
}

#[test]
fn batch_proposed_methods() {
    let batch = BatchProposed {
        batch_id: 42,
        last_block_id: 10,
        last_block_timestamp: 1_700_000_000,
        block_params: vec![
            BlockParams { num_transactions: 3, time_shift: 0 },
            BlockParams { num_transactions: 1, time_shift: 2 },
            BlockParams { num_transactions: 0, time_shift: 1 },
        ],
    };
    assert_eq!(batch.block_numbers_proposed(), vec![8, 9, 10]);
    assert_eq!(batch.last_block_number(), 10);
    assert_eq!(batch.last_block_timestamp(), 1_700_000_000);
}

#[test]
fn amount_fee_is_exact_product() {
    let f = Amount::fee(21_000, 1_000_000_000);
    assert_eq!(f, Amount::from_u128(21_000_000_000_000));
    let zero = Amount::fee(0, u128::MAX);
    assert_eq!(zero, Amount::zero());
}

#[test]
fn amount_fee_crosses_the_low_word() {
    // gas * price > 2^128: the product must carry into the high word.
    let f = Amount::fee(u64::MAX, u128::MAX);
    // (2^64 - 1) * (2^128 - 1) = (2^64 - 1) * 2^128 - (2^64 - 1)
    assert_eq!(f.hi, u64::MAX as u128 - 1);
    assert_eq!(f.lo, u128::MAX - u64::MAX as u128 + 1);
}

#[test]
fn amount_saturating_add_carries() {
    let a = Amount { hi: 0, lo: u128::MAX };
    let one = Amount::from_u128(1);
    let sum = a.saturating_add(one);
    assert_eq!(sum, Amount { hi: 1, lo: 0 });
}

#[test]
fn amount_saturating_add_clamps_at_max() {
    let top = Amount { hi: u128::MAX, lo: u128::MAX };
    let sum = top.saturating_add(Amount::from_u128(1));
    assert_eq!(sum, top);
    let sum2 = top.saturating_add(top);
    assert_eq!(sum2, top);
}

#[test]
fn block_revenue_scenario_two_receipts_one_absent() {
    let receipts = vec![
        Some(receipt(21_000, 1_000_000_000)),
        Some(receipt(50_000, 2_000_000_000)),
        None,
    ];
    let r = compute_block_revenue(77, &receipts);
    assert_eq!(r.block_number, 77);
    assert_eq!(r.tx_count, 2);
    // 21000e9 + 100000e9 = 1.21e14
    assert_eq!(r.total_paid_wei, Amount::from_u128(121_000_000_000_000));
}

#[test]
fn block_revenue_all_retrievals_failed() {
    let receipts: Vec<Option<Receipt>> = vec![None, None, None];
    let r = compute_block_revenue(9, &receipts);
    assert_eq!(r.tx_count, 0);
    assert_eq!(r.total_paid_wei, Amount::zero());
}

#[test]
fn block_revenue_empty_block() {
    let receipts: Vec<Option<Receipt>> = Vec::new();
    let r = compute_block_revenue(0, &receipts);
    assert_eq!(r.tx_count, 0);
    assert_eq!(r.total_paid_wei, Amount::zero());
}

#[test]
fn block_revenue_many_receipts() {
    // More receipts than one fetch chunk ever holds, with failures mixed in.
    let mut receipts: Vec<Option<Receipt>> = Vec::new();
    for i in 0..130u64 {
        if i % 10 == 3 {
            receipts.push(None);
        } else {
            receipts.push(Some(receipt(i, 2)));
        }
    }
    let r = compute_block_revenue(1, &receipts);
    assert_eq!(r.tx_count, 117);
    // sum of 2*i over 0..130 except i % 10 == 3
    let expected: u128 = (0..130u128).filter(|i| i % 10 != 3).map(|i| 2 * i).sum();
    assert_eq!(r.total_paid_wei, Amount::from_u128(expected));
}

fn result(block_number: u64, tx_count: usize, total: u128) -> RevenueResult {
    RevenueResult { block_number, tx_count, total_paid_wei: Amount::from_u128(total) }
}

#[test]
fn batch_revenue_drops_failures_and_sorts() {
    // Results arrive in completion order, not block order, with one failure.
    let fetched = vec![
        Some(result(12, 1, 5)),
        None,
        Some(result(10, 2, 7)),
        Some(result(11, 0, 0)),
    ];
    let out = compute_batch_revenue(fetched);
    assert_eq!(out, vec![result(10, 2, 7), result(11, 0, 0), result(12, 1, 5)]);
}

#[test]
fn batch_revenue_of_nothing_is_empty() {
    let out = compute_batch_revenue(Vec::new());
    assert_eq!(out, Vec::<RevenueResult>::new());
}

#[test]
fn chunk_spans_input_smaller_equal_and_larger_than_cap() {
    assert_eq!(chunk_spans(5, 64), vec![(0, 5)]);
    assert_eq!(chunk_spans(64, 64), vec![(0, 64)]);
    assert_eq!(chunk_spans(130, 64), vec![(0, 64), (64, 128), (128, 130)]);
    assert_eq!(chunk_spans(0, 16), Vec::<(usize, usize)>::new());
    assert_eq!(chunk_spans(3, 1), vec![(0, 1), (1, 2), (2, 3)]);
}

#[test]
fn batch_totals_sums_counts_and_amounts() {
    let results = vec![result(1, 2, 100), result(2, 3, 250), result(3, 0, 0)];
    let (paid, txs) = batch_totals(&results);
    assert_eq!(paid, Amount::from_u128(350));
    assert_eq!(txs, 5);
}

#[test]
fn batch_totals_of_empty_is_zero() {
    let (paid, txs) = batch_totals(&Vec::new());
    assert_eq!(paid, Amount::zero());
    assert_eq!(txs, 0);
}

#[test]
fn scan_window_single_block_and_radius() {
    assert_eq!(scan_block_window(500, None), (500, 500));
    assert_eq!(scan_block_window(500, Some(100)), (400, 600));
}

#[test]
fn scan_window_saturates_at_both_ends() {
    assert_eq!(scan_block_window(3, Some(10)), (0, 13));
    assert_eq!(scan_block_window(u64::MAX - 1, Some(5)), (u64::MAX - 6, u64::MAX));
}

#[test]
fn diagnostic_fires_only_for_silent_filter() {
    assert_eq!(signature_diagnostic_sample(0, 7), Some(5));
    assert_eq!(signature_diagnostic_sample(0, 3), Some(3));
    assert_eq!(signature_diagnostic_sample(2, 7), None);
    assert_eq!(signature_diagnostic_sample(0, 0), None);
}

#[test]
fn scenario_empty_filter_with_address_logs_and_zero_revenue() {
    // The filtered query matched nothing, the address itself produced logs:
    // the fingerprint diagnostic is owed, and the aggregate stays at zero.
    assert_eq!(signature_diagnostic_sample(0, 9), Some(5));
    let out = compute_batch_revenue(Vec::new());
    let (paid, txs) = batch_totals(&out);
    assert_eq!(txs, 0);
    assert_eq!(paid, Amount::zero());
}

#[test]
fn error_descriptions() {
    let e = ComputeError::MissingEnv("L2_RPC_URL");
    assert_eq!(e.describe(), "missing env var L2_RPC_URL");
    let e = ComputeError::Rpc("connection refused".to_string());
    assert_eq!(e.describe(), "rpc error: connection refused");
}

#[test]
fn format_small_and_zero_amounts() {
    let v = Amount::from_u128(121_000_000_000_000);
    assert_eq!(format_wei_eth(&v), "121000000000000 wei (~0.000121000000000000 ETH)");
    assert_eq!(format_wei_eth(&Amount::zero()), "0 wei (~0.000000000000000000 ETH)");
}

#[test]
fn format_whole_and_fractional_ether() {
    let v = Amount::from_u128(1_500_000_000_000_000_000);
    assert_eq!(format_wei_eth(&v), "1500000000000000000 wei (~1.500000000000000000 ETH)");
}

#[test]
fn format_value_wider_than_128_bits() {
    // 2^128 wei, rendered exactly.
    let v = Amount { hi: 1, lo: 0 };
    assert_eq!(
        format_wei_eth(&v),
        "340282366920938463463374607431768211456 wei (~340282366920938463463.374607431768211456 ETH)"
    );
}
