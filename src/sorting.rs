//! In-place bubble sort, for `i32` and for any partially ordered type.
use core::cmp::Ordering;
use vstd::multiset::group_multiset_properties;
use vstd::prelude::*;
use vstd::seq_lib::group_to_multiset_ensures;
use vstd::std_specs::cmp::PartialOrdSpec;

verus! {

/// Relies on `<[T]>::swap`: it exchanges the elements at positions `a` and
/// `b`, and panics when either is out of bounds.
pub assume_specification<X>[ <[X]>::swap ](s: &mut [X], a: usize, b: usize)
    requires
        a < old(s)@.len(),
        b < old(s)@.len(),
    ensures
        final(s)@ == old(s)@.update(a as int, old(s)@[b as int]).update(b as int, old(s)@[a as int]),
;

/// Exchanging two neighbours keeps the same elements.
proof fn lemma_swap_keeps_elements<T>(s: Seq<T>, a: int, b: int)
    requires
        0 <= a < s.len(),
        0 <= b < s.len(),
        a != b,
    ensures
        s.update(a, s[b]).update(b, s[a]).to_multiset() == s.to_multiset(),
{
    broadcast use group_to_multiset_ensures, group_multiset_properties;

    let s1 = s.update(a, s[b]);
    assert(s1[b] == s[b]);
    assert(s1.update(b, s[a]).to_multiset() =~= s.to_multiset());
}

/// `s` is in ascending order.
pub open spec fn sorted_i32(s: Seq<i32>) -> bool {
    forall|a: int, b: int| 0 <= a < b < s.len() ==> s[a] <= s[b]
}

/// Sorts `arr` into ascending order.
pub fn bubble_sort(arr: &mut [i32])
    ensures
        sorted_i32(final(arr)@),
        final(arr)@.to_multiset() == old(arr)@.to_multiset(),
{
    let len = arr.len();
    let mut i: usize = 0;
    while i < len
        invariant
            len == arr@.len(),
            i <= len,
            arr@.to_multiset() == old(arr)@.to_multiset(),
            forall|a: int, b: int| len - i <= a < b < len ==> arr@[a] <= arr@[b],
            forall|a: int, b: int| 0 <= a < len - i <= b < len ==> arr@[a] <= arr@[b],
        decreases len - i,
    {
        let mut j: usize = 0;
        while j < len - i - 1
            invariant
                len == arr@.len(),
                i < len,
                j <= len - i - 1,
                arr@.to_multiset() == old(arr)@.to_multiset(),
                forall|a: int, b: int| len - i <= a < b < len ==> arr@[a] <= arr@[b],
                forall|a: int, b: int| 0 <= a < len - i <= b < len ==> arr@[a] <= arr@[b],
                forall|k: int| 0 <= k <= j ==> arr@[k] <= arr@[j as int],
            decreases len - i - 1 - j,
        {
            if arr[j] > arr[j + 1] {
                proof {
                    lemma_swap_keeps_elements(arr@, j as int, j + 1);
                }
                arr.swap(j, j + 1);
            }
            j += 1;
        }
        i += 1;
    }
}

/// `a` compares greater than `b`.
pub open spec fn greater<T: PartialOrd + PartialOrdSpec>(a: T, b: T) -> bool {
    a.partial_cmp_spec(&b) == Some(Ordering::Greater)
}

/// "Greater than" is a strict weak order: asymmetric, and "not greater
/// than" is transitive. This is what a bubble sort needs of an order.
pub open spec fn strict_weak_order<T: PartialOrd + PartialOrdSpec>() -> bool {
    &&& forall|x: T, y: T| #[trigger] greater(x, y) ==> !greater(y, x)
    &&& forall|x: T, y: T, z: T|
        #![trigger greater(x, y), greater(y, z)]
        !greater(x, y) && !greater(y, z) ==> !greater(x, z)
}

/// No element of `s` compares greater than a later one.
pub open spec fn sorted_by<T: PartialOrd + PartialOrdSpec>(s: Seq<T>) -> bool {
    forall|a: int, b: int| 0 <= a < b < s.len() ==> !greater(s[a], s[b])
}

/// Sorts `arr` with bubble sort. The elements are always kept; they come out
/// in order whenever the type's comparison follows its specification and
/// that specification is a strict weak order.
pub fn bubble_sort_generics<T: PartialOrd + PartialOrdSpec>(arr: &mut [T])
    ensures
        final(arr)@.to_multiset() == old(arr)@.to_multiset(),
        T::obeys_partial_cmp_spec() && strict_weak_order::<T>() ==> sorted_by(final(arr)@),
{
    let len = arr.len();
    let ghost ordered = T::obeys_partial_cmp_spec() && strict_weak_order::<T>();
    let mut i: usize = 0;
    while i < len
        invariant
            len == arr@.len(),
            i <= len,
            ordered == (T::obeys_partial_cmp_spec() && strict_weak_order::<T>()),
            arr@.to_multiset() == old(arr)@.to_multiset(),
            ordered ==> forall|a: int, b: int|
                len - i <= a < b < len ==> !greater(arr@[a], arr@[b]),
            ordered ==> forall|a: int, b: int|
                0 <= a < len - i <= b < len ==> !greater(arr@[a], arr@[b]),
        decreases len - i,
    {
        let mut j: usize = 0;
        while j < len - i - 1
            invariant
                len == arr@.len(),
                i < len,
                j <= len - i - 1,
                ordered == (T::obeys_partial_cmp_spec() && strict_weak_order::<T>()),
                arr@.to_multiset() == old(arr)@.to_multiset(),
                ordered ==> forall|a: int, b: int|
                    len - i <= a < b < len ==> !greater(arr@[a], arr@[b]),
                ordered ==> forall|a: int, b: int|
                    0 <= a < len - i <= b < len ==> !greater(arr@[a], arr@[b]),
                ordered ==> forall|k: int| 0 <= k < j ==> !greater(arr@[k], arr@[j as int]),
            decreases len - i - 1 - j,
        {
            let swap = arr[j] > arr[j + 1];
            if swap {
                proof {
                    lemma_swap_keeps_elements(arr@, j as int, j + 1);
                }
                arr.swap(j, j + 1);
            }
            proof {
                if ordered && !swap {
                    assert forall|k: int| 0 <= k < j + 1 implies !greater(
                        #[trigger] arr@[k],
                        arr@[j + 1],
                    ) by {
                        if k < j {
                            assert(!greater(arr@[k], arr@[j as int]));
                            assert(!greater(arr@[j as int], arr@[j + 1]));
                        }
                    }
                }
            }
            j += 1;
        }
        i += 1;
    }
}

} // verus!
