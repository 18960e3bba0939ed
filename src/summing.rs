//! Summing a list of `u32` with overflow detection.
use vstd::prelude::*;

verus! {

/// The mathematical sum of `s`.
pub open spec fn seq_sum(s: Seq<u32>) -> int
    decreases s.len(),
{
    if s.len() == 0 {
        0
    } else {
        seq_sum(s.drop_last()) + s.last()
    }
}

/// Extending a prefix by one element adds that element to its sum.
pub proof fn lemma_sum_take_next(s: Seq<u32>, i: int)
    requires
        0 <= i < s.len(),
    ensures
        seq_sum(s.take(i + 1)) == seq_sum(s.take(i)) + s[i],
{
    assert(s.take(i + 1).drop_last() =~= s.take(i));
}

/// A prefix never sums to more than the whole sequence.
pub proof fn lemma_sum_prefix_le(s: Seq<u32>, i: int)
    requires
        0 <= i <= s.len(),
    ensures
        seq_sum(s.take(i)) <= seq_sum(s),
    decreases s.len(),
{
    if i == s.len() {
        assert(s.take(i) =~= s);
    } else {
        let t = s.drop_last();
        lemma_sum_prefix_le(t, i);
        assert(t.take(i) =~= s.take(i));
    }
}

/// The sum of `list`, or `None` when it does not fit in a `u32`.
pub fn sum(list: &[u32]) -> (r: Option<u32>)
    ensures
        r == (if seq_sum(list@) <= u32::MAX {
            Some(seq_sum(list@) as u32)
        } else {
            None
        }),
{
    let mut total: u32 = 0;
    let mut i: usize = 0;
    while i < list.len()
        invariant
            i <= list@.len(),
            total == seq_sum(list@.take(i as int)),
        decreases list@.len() - i,
    {
        proof {
            lemma_sum_take_next(list@, i as int);
        }
        match total.checked_add(list[i]) {
            Some(v) => total = v,
            None => {
                proof {
                    lemma_sum_prefix_le(list@, i + 1);
                }
                return None;
            },
        }
        i += 1;
    }
    assert(list@.take(i as int) =~= list@);
    Some(total)
}

/// The same sum as [`sum`], computed as a fold that stops at the first
/// overflow.
pub fn sum_2(list: &[u32]) -> (r: Option<u32>)
    ensures
        r == (if seq_sum(list@) <= u32::MAX {
            Some(seq_sum(list@) as u32)
        } else {
            None
        }),
{
    let mut acc: Option<u32> = Some(0);
    let mut i: usize = 0;
    while i < list.len() && acc.is_some()
        invariant
            i <= list@.len(),
            match acc {
                Some(a) => a == seq_sum(list@.take(i as int)),
                None => seq_sum(list@.take(i as int)) > u32::MAX,
            },
        decreases list@.len() - i,
    {
        proof {
            lemma_sum_take_next(list@, i as int);
        }
        acc = match acc {
            Some(a) => a.checked_add(list[i]),
            None => None,
        };
        i += 1;
    }
    proof {
        lemma_sum_prefix_le(list@, i as int);
        if acc.is_some() {
            assert(list@.take(i as int) =~= list@);
        }
    }
    acc
}

} // verus!
