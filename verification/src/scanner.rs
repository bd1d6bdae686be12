use vstd::prelude::*;

verus! {

/// How many observed event-signature fingerprints the scanner surfaces when
/// diagnosing a filter that matched nothing.
pub const FINGERPRINT_SAMPLE: usize = 5;

/// The inclusive settlement-chain block window to scan around `l1_block`:
/// the single block itself, or `radius` blocks to either side, saturating
/// at the ends of the representable range.
pub fn scan_block_window(l1_block: u64, radius: Option<u64>) -> (w: (u64, u64))
    ensures
        radius is None ==> w == (l1_block, l1_block),
        radius is Some ==> {
            let d = radius.unwrap();
            &&& w.0 == if d <= l1_block {
                (l1_block - d) as u64
            } else {
                0u64
            }
            &&& w.1 == if l1_block + d <= u64::MAX {
                (l1_block + d) as u64
            } else {
                u64::MAX
            }
        },
        w.0 <= l1_block <= w.1,
{
    match radius {
        None => (l1_block, l1_block),
        Some(d) => {
            let from = if d <= l1_block {
                l1_block - d
            } else {
                0
            };
            let to = if d <= u64::MAX - l1_block {
                l1_block + d
            } else {
                u64::MAX
            };
            (from, to)
        },
    }
}

/// The event scanner's diagnostic decision.  When the signature-filtered
/// query matched nothing although unfiltered queries against the same
/// address and range returned logs, the scanner surfaces a bounded sample
/// of the signature fingerprints it saw, so an operator can spot a
/// schema or address mismatch; otherwise no diagnostic is owed.  Returns
/// how many fingerprints to show, or `None` when the diagnostic does not
/// apply.
pub fn signature_diagnostic_sample(matched_logs: usize, address_logs: usize) -> (r: Option<usize>)
    ensures
        matched_logs == 0 && address_logs > 0 ==> r == Some(
            if address_logs < FINGERPRINT_SAMPLE {
                address_logs
            } else {
                FINGERPRINT_SAMPLE
            },
        ),
        !(matched_logs == 0 && address_logs > 0) ==> r is None,
{
    if matched_logs == 0 && address_logs > 0 {
        if address_logs < FINGERPRINT_SAMPLE {
            Some(address_logs)
        } else {
            Some(FINGERPRINT_SAMPLE)
        }
    } else {
        None
    }
}

} // verus!
