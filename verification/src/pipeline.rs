use vstd::prelude::*;

verus! {

/// The items that survive a best-effort fetch, in input order: every
/// successful result is kept, every failed or absent one is dropped.
pub open spec fn present_of<T>(s: Seq<Option<T>>) -> Seq<T>
    decreases s.len(),
{
    if s.len() == 0 {
        Seq::empty()
    } else if s.last() is Some {
        present_of(s.drop_last()).push(s.last().unwrap())
    } else {
        present_of(s.drop_last())
    }
}

/// No more items survive than were attempted.
pub proof fn lemma_present_len<T>(s: Seq<Option<T>>)
    ensures
        present_of(s).len() <= s.len(),
    decreases s.len(),
{
    if s.len() > 0 {
        lemma_present_len(s.drop_last());
    }
}

/// When every retrieval failed, nothing survives: the computation that
/// consumes the survivors sees an empty list, not an error.
pub proof fn lemma_present_of_all_absent<T>(s: Seq<Option<T>>)
    requires
        forall|i: int| 0 <= i < s.len() ==> s[i] is None,
    ensures
        present_of(s) == Seq::<T>::empty(),
    decreases s.len(),
{
    if s.len() > 0 {
        lemma_present_of_all_absent(s.drop_last());
    }
}

/// Splitting a fetch into chunks does not change which items survive:
/// filtering the pieces and concatenating equals filtering the whole.  This
/// is why the result set of the bounded pipeline is independent of the
/// concurrency ceiling used to partition the work.
pub proof fn lemma_present_of_concat<T>(a: Seq<Option<T>>, b: Seq<Option<T>>)
    ensures
        present_of(a + b) == present_of(a) + present_of(b),
    decreases b.len(),
{
    if b.len() == 0 {
        assert(a + b =~= a);
        assert(present_of(a) + present_of(b) =~= present_of(a));
    } else {
        assert((a + b).drop_last() =~= a + b.drop_last());
        assert((a + b).last() == b.last());
        lemma_present_of_concat(a, b.drop_last());
        if b.last() is Some {
            assert(present_of(a) + present_of(b) =~= (present_of(a) + present_of(
            b.drop_last())).push(b.last().unwrap()));
        } else {
            assert(present_of(b) == present_of(b.drop_last()));
        }
    }
}

/// Partition `len` work items into contiguous spans of at most `cap` items
/// each.  One span is launched concurrently and awaited as a whole; the next
/// span starts only after it resolves, which bounds peak concurrency by
/// `cap`.
pub fn chunk_spans(len: usize, cap: usize) -> (spans: Vec<(usize, usize)>)
    requires
        cap >= 1,
    ensures
        forall|k: int|
            0 <= k < spans@.len() ==> (#[trigger] spans@[k]).0 < spans@[k].1 && spans@[k].1 <= len
                && spans@[k].1 - spans@[k].0 <= cap,
        forall|k: int|
            0 <= k < spans@.len() && (#[trigger] spans@[k]).1 < len ==> spans@[k].1 - spans@[k].0
                == cap,
        forall|k: int| 0 < k < spans@.len() ==> (#[trigger] spans@[k]).0 == spans@[k - 1].1,
        spans@.len() == 0 <==> len == 0,
        len > 0 ==> spans@[0].0 == 0 && spans@[spans@.len() - 1].1 == len,
{
    let mut spans: Vec<(usize, usize)> = Vec::new();
    let mut idx: usize = 0;
    while idx < len
        invariant
            cap >= 1,
            idx <= len,
            forall|k: int|
                0 <= k < spans@.len() ==> (#[trigger] spans@[k]).0 < spans@[k].1 && spans@[k].1
                    <= len && spans@[k].1 - spans@[k].0 <= cap,
            forall|k: int|
                0 <= k < spans@.len() && (#[trigger] spans@[k]).1 < len ==> spans@[k].1
                    - spans@[k].0 == cap,
            forall|k: int| 0 < k < spans@.len() ==> (#[trigger] spans@[k]).0 == spans@[k - 1].1,
            spans@.len() == 0 ==> idx == 0,
            spans@.len() > 0 ==> spans@[0].0 == 0 && spans@[spans@.len() - 1].1 == idx,
            idx > 0 ==> spans@.len() > 0,
        decreases len - idx,
    {
        let end: usize = if cap <= len - idx {
            idx + cap
        } else {
            len
        };
        spans.push((idx, end));
        idx = end;
    }
    spans
}

} // verus!
