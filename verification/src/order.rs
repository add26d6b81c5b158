//! The order of handles: by content, whatever the allocation.
//!
//! Content is ordered as its bytes are, lexicographically. This is a
//! different relation from `==` on handles, which goes by identity: two
//! handles of equal content that come from different pools compare as equal
//! here and are still not `==`. For handles of one pool the two agree.

use crate::content::{Buffer, Content};
use crate::handle::Interned;
use std::cmp::Ordering;
use vstd::prelude::*;
use vstd::std_specs::cmp::PartialOrdSpecImpl;

verus! {

/// Whether `a` comes before `b`: at the first place where they differ, `a`
/// has ended or has the smaller byte.
pub open spec fn precedes(a: Seq<u8>, b: Seq<u8>) -> bool {
    exists|k: int|
        0 <= k <= a.len() && k < b.len() && #[trigger] a.take(k) == b.take(k) && (k < a.len()
            ==> a[k] < b[k])
}

/// The lexicographic order of `a` and `b`.
pub open spec fn content_order(a: Seq<u8>, b: Seq<u8>) -> Ordering {
    if a == b {
        Ordering::Equal
    } else if precedes(a, b) {
        Ordering::Less
    } else {
        Ordering::Greater
    }
}

/// The length of the longest common prefix of `a` and `b`: the place where
/// they first differ, which decides their order.
pub fn mismatch(a: &[u8], b: &[u8]) -> (k: usize)
    ensures
        k <= a.len(),
        k <= b.len(),
        a@.take(k as int) == b@.take(k as int),
        k < a.len() && k < b.len() ==> a@[k as int] != b@[k as int],
        a@ == b@ <==> k == a.len() && k == b.len(),
        precedes(a@, b@) <==> k < b.len() && (k < a.len() ==> a@[k as int] < b@[k as int]),
{
    let mut k: usize = 0;
    while k < a.len() && k < b.len() && a[k] == b[k]
        invariant
            k <= a.len(),
            k <= b.len(),
            forall|i: int| 0 <= i < k ==> a@[i] == b@[i],
        decreases a.len() - k,
    {
        k += 1;
    }
    proof {
        assert(a@.take(k as int) =~= b@.take(k as int));
        lemma_precedes_at(a@, b@, k as int);
    }
    k
}

/// Two byte sequences part ways at one place only: if `a` comes before `b`,
/// then where they first differ `a` has ended or has the smaller byte.
pub proof fn lemma_precedes_at(a: Seq<u8>, b: Seq<u8>, k: int)
    requires
        0 <= k <= a.len(),
        k <= b.len(),
        a.take(k) == b.take(k),
        k < a.len() && k < b.len() ==> a[k] != b[k],
    ensures
        precedes(a, b) <==> k < b.len() && (k < a.len() ==> a[k] < b[k]),
        a == b <==> k == a.len() && k == b.len(),
{
    if precedes(a, b) {
        let m = choose|m: int|
            0 <= m <= a.len() && m < b.len() && #[trigger] a.take(m) == b.take(m) && (m < a.len()
                ==> a[m] < b[m]);
        if m < k {
            assert(a.take(k)[m] == a[m]);
            assert(b.take(k)[m] == b[m]);
        } else if k < m {
            assert(a.take(m)[k] == a[k]);
            assert(b.take(m)[k] == b[k]);
        }
    }
    if k < b.len() && (k < a.len() ==> a[k] < b[k]) {
        assert(a.take(k) == b.take(k));
        assert(precedes(a, b));
    }
    if k == a.len() && k == b.len() {
        assert(a.take(k) =~= a);
        assert(b.take(k) =~= b);
    }
}

/// Compares `a` and `b` lexicographically.
pub fn compare_bytes(a: &[u8], b: &[u8]) -> (order: Ordering)
    ensures
        order == content_order(a@, b@),
{
    let k = mismatch(a, b);
    if k == a.len() {
        if k == b.len() {
            Ordering::Equal
        } else {
            Ordering::Less
        }
    } else if k == b.len() {
        Ordering::Greater
    } else if a[k] < b[k] {
        Ordering::Less
    } else {
        Ordering::Greater
    }
}

impl<B: Content + ?Sized, O: Buffer<B>> Interned<B, O> {
    /// Compares the handles by content.
    pub fn compare(&self, other: &Self) -> (order: Ordering)
        ensures
            order == content_order(self.content(), other.content()),
    {
        compare_bytes(self.borrow().content_bytes(), other.borrow().content_bytes())
    }
}

impl<B: Content + ?Sized, O: Buffer<B>> PartialOrd for Interned<B, O> {
    fn partial_cmp(&self, other: &Self) -> (order: Option<Ordering>) {
        Some(self.compare(other))
    }
}

impl<B: Content + ?Sized, O: Buffer<B>> PartialOrdSpecImpl for Interned<B, O> {
    open spec fn obeys_partial_cmp_spec() -> bool {
        true
    }

    open spec fn partial_cmp_spec(&self, other: &Self) -> Option<Ordering> {
        Some(content_order(self.content(), other.content()))
    }
}

} // verus!
