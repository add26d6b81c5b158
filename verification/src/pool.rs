//! The interning pool: one canonical handle for each distinct content.

use crate::content::{same_bytes, Buffer, Content, Internable};
use crate::digest::{fnv1a, fnv_digest};
use crate::handle::Interned;
use std::collections::HashMap;
use std::sync::Arc;
use vstd::prelude::*;

verus! {

/// No content is held twice, and no two handles share an identity.
pub open spec fn canonical<B: Content + ?Sized, O: Buffer<B>>(
    entries: Seq<Interned<B, O>>,
) -> bool {
    forall|i: int, j: int|
        0 <= i < j < entries.len() ==> (#[trigger] entries[i]).content() != (
        #[trigger] entries[j]).content() && !entries[i].same(&entries[j])
}

/// Whether one of `entries` holds `content`.
pub open spec fn holds<B: Content + ?Sized, O: Buffer<B>>(
    entries: Seq<Interned<B, O>>,
    content: Seq<u8>,
) -> bool {
    exists|i: int| 0 <= i < entries.len() && (#[trigger] entries[i]).content() == content
}

/// The handle among `entries` that holds `content`, if there is one.
pub open spec fn locate<B: Content + ?Sized, O: Buffer<B>>(
    entries: Seq<Interned<B, O>>,
    content: Seq<u8>,
) -> Option<Interned<B, O>> {
    if holds(entries, content) {
        Some(
            entries[choose|i: int|
                0 <= i < entries.len() && (#[trigger] entries[i]).content() == content],
        )
    } else {
        None
    }
}

/// What one interning does: from the entries `before`, interning `content`
/// leaves the entries `after` and hands out `handle`.
///
/// Content that is held already comes back as the handle that holds it, and
/// nothing changes. Content that is new gets a handle of its own, which joins
/// the entries at the end. Either way the handle holds the content and is then
/// the one that the entries locate for it, and every handle that was located
/// before is located still.
pub open spec fn interns<B: Content + ?Sized, O: Buffer<B>>(
    before: Seq<Interned<B, O>>,
    content: Seq<u8>,
    after: Seq<Interned<B, O>>,
    handle: Interned<B, O>,
) -> bool {
    &&& canonical(after)
    &&& handle.content() == content
    &&& match locate(before, content) {
        Some(known) => handle == known && after == before,
        None => after == before.push(handle),
    }
    &&& locate(after, content) == Some(handle)
    &&& forall|other: Seq<u8>|
        holds(before, other) ==> #[trigger] locate(after, other) == locate(before, other)
}

/// A deduplicating set of handles, looked up by borrowed content.
///
/// The handles are kept in the order in which their content first came in.
/// An index from the FNV-1a digest of a content to the places that hold
/// content with that digest makes a lookup touch only those places.
pub struct InternPool<B: Content + ?Sized, O: Buffer<B>> {
    entries: Vec<Interned<B, O>>,
    index: HashMap<u64, Vec<usize>>,
}

impl<B: Content + ?Sized, O: Buffer<B>> View for InternPool<B, O> {
    type V = Seq<Interned<B, O>>;

    /// The canonical handles, oldest first.
    closed spec fn view(&self) -> Seq<Interned<B, O>> {
        self.entries@
    }
}

/// Every place that `index` names exists and holds content of that digest.
spec fn index_sound<B: Content + ?Sized, O: Buffer<B>>(
    entries: Seq<Interned<B, O>>,
    index: Map<u64, Vec<usize>>,
) -> bool {
    forall|d: u64, k: int|
        index.contains_key(d) && 0 <= k < index[d]@.len() ==> {
            &&& (#[trigger] index[d]@[k]) < entries.len()
            &&& fnv1a(entries[index[d]@[k] as int].content()) == d
        }
}

/// Whether `bucket` names the place `i`.
spec fn names(bucket: Seq<usize>, i: int) -> bool {
    exists|m: int| 0 <= m < bucket.len() && (#[trigger] bucket[m]) == i
}

/// Every place is named by `index` under the digest of its content.
spec fn index_complete<B: Content + ?Sized, O: Buffer<B>>(
    entries: Seq<Interned<B, O>>,
    index: Map<u64, Vec<usize>>,
) -> bool {
    forall|i: int|
        0 <= i < entries.len() ==> {
            &&& index.contains_key(fnv1a((#[trigger] entries[i]).content()))
            &&& names(index[fnv1a(entries[i].content())]@, i)
        }
}

/// In canonical entries, the handle at a place is the one located by its content.
pub proof fn lemma_located<B: Content + ?Sized, O: Buffer<B>>(entries: Seq<Interned<B, O>>, i: int)
    requires
        canonical(entries),
        0 <= i < entries.len(),
    ensures
        locate(entries, entries[i].content()) == Some(entries[i]),
{
    let content = entries[i].content();
    let j = choose|j: int| 0 <= j < entries.len() && (#[trigger] entries[j]).content() == content;
    assert(i == j);
}

/// Content is absent when none of the places under its digest holds it.
proof fn lemma_absent<B: Content + ?Sized, O: Buffer<B>>(
    entries: Seq<Interned<B, O>>,
    index: Map<u64, Vec<usize>>,
    content: Seq<u8>,
    bucket: Seq<usize>,
)
    requires
        index_complete(entries, index),
        index.contains_key(fnv1a(content)) ==> index[fnv1a(content)]@ == bucket,
        forall|m: int|
            0 <= m < bucket.len() ==> entries[(#[trigger] bucket[m]) as int].content() != content,
    ensures
        locate(entries, content) is None,
{
    if holds(entries, content) {
        let i = choose|i: int| 0 <= i < entries.len() && (#[trigger] entries[i]).content() == content;
        assert(names(index[fnv1a(entries[i].content())]@, i));
        let m = choose|m: int| 0 <= m < bucket.len() && (#[trigger] bucket[m]) == i;
        assert(entries[bucket[m] as int].content() != content);
    }
}

/// Entries that stay canonical when a handle joins them locate the handle by
/// its content, and locate what they held before as before.
pub proof fn lemma_grown<B: Content + ?Sized, O: Buffer<B>>(
    entries: Seq<Interned<B, O>>,
    handle: Interned<B, O>,
)
    requires
        canonical(entries.push(handle)),
    ensures
        canonical(entries),
        locate(entries.push(handle), handle.content()) == Some(handle),
        forall|other: Seq<u8>|
            holds(entries, other) ==> #[trigger] locate(entries.push(handle), other) == locate(
                entries,
                other,
            ),
{
    let grown = entries.push(handle);
    assert forall|i: int, j: int| 0 <= i < j < entries.len() implies (#[trigger] entries[i]).content()
        != (#[trigger] entries[j]).content() && !entries[i].same(&entries[j]) by {
        assert(grown[i] == entries[i] && grown[j] == entries[j]);
    }
    assert(grown[entries.len() as int] == handle);
    lemma_located(grown, entries.len() as int);
    assert forall|other: Seq<u8>| holds(entries, other) implies #[trigger] locate(grown, other)
        == locate(entries, other) by {
        let i = choose|i: int| 0 <= i < entries.len() && (#[trigger] entries[i]).content() == other;
        assert(grown[i] == entries[i]);
        lemma_located(entries, i);
        lemma_located(grown, i);
    }
}

/// A handle with new content, set apart from the entries, can join them:
/// the entries stay canonical, and the index holds once the new place is
/// named under the digest of the new content.
proof fn lemma_joined<B: Content + ?Sized, O: Buffer<B>>(
    entries: Seq<Interned<B, O>>,
    index: Map<u64, Vec<usize>>,
    handle: Interned<B, O>,
    bucket: Seq<usize>,
    joined: Map<u64, Vec<usize>>,
)
    requires
        canonical(entries),
        index_sound(entries, index),
        index_complete(entries, index),
        !holds(entries, handle.content()),
        forall|i: int|
            0 <= i < entries.len() && (#[trigger] entries[i]).id() == handle.id()
                ==> entries[i].value() == handle.value(),
        entries.len() <= usize::MAX,
        bucket == if index.contains_key(fnv1a(handle.content())) {
            index[fnv1a(handle.content())]@
        } else {
            Seq::empty()
        },
        joined.dom() == index.dom().insert(fnv1a(handle.content())),
        joined[fnv1a(handle.content())]@ == bucket.push(entries.len() as usize),
        forall|d: u64| d != fnv1a(handle.content()) && index.contains_key(d) ==> joined[d] == index[d],
    ensures
        canonical(entries.push(handle)),
        index_sound(entries.push(handle), joined),
        index_complete(entries.push(handle), joined),
{
    let d0 = fnv1a(handle.content());
    let grown = entries.push(handle);
    assert forall|i: int, j: int| 0 <= i < j < grown.len() implies (#[trigger] grown[i]).content()
        != (#[trigger] grown[j]).content() && !grown[i].same(&grown[j]) by {
        if j < entries.len() {
            assert(grown[i] == entries[i] && grown[j] == entries[j]);
        } else {
            assert(grown[i] == entries[i]);
        }
    }
    assert forall|d: u64, k: int| joined.contains_key(d) && 0 <= k < joined[d]@.len() implies {
        &&& (#[trigger] joined[d]@[k]) < grown.len()
        &&& fnv1a(grown[joined[d]@[k] as int].content()) == d
    } by {
        if d == d0 {
            if k < bucket.len() {
                assert(joined[d]@[k] == index[d]@[k]);
                assert(grown[index[d]@[k] as int] == entries[index[d]@[k] as int]);
            }
        } else {
            assert(joined[d]@[k] == index[d]@[k]);
            assert(grown[index[d]@[k] as int] == entries[index[d]@[k] as int]);
        }
    }
    assert forall|i: int| 0 <= i < grown.len() implies {
        &&& joined.contains_key(fnv1a((#[trigger] grown[i]).content()))
        &&& names(joined[fnv1a(grown[i].content())]@, i)
    } by {
        if i < entries.len() {
            assert(grown[i] == entries[i]);
            let d = fnv1a(entries[i].content());
            assert(names(index[d]@, i));
            let m = choose|m: int| 0 <= m < index[d]@.len() && (#[trigger] index[d]@[m]) == i;
            assert(joined[d]@[m] == i);
        } else {
            assert(joined[d0]@[bucket.len() as int] == i);
        }
    }
}

impl<B: Content + ?Sized, O: Buffer<B>> InternPool<B, O> {
    #[verifier::type_invariant]
    spec fn inv(&self) -> bool {
        &&& canonical(self.entries@)
        &&& index_sound(self.entries@, self.index@)
        &&& index_complete(self.entries@, self.index@)
    }

    /// An empty pool.
    pub fn new() -> (pool: Self)
        ensures
            pool@ == Seq::<Interned<B, O>>::empty(),
    {
        InternPool { entries: Vec::new(), index: HashMap::new() }
    }

    /// Whether the pool holds nothing.
    pub fn is_empty(&self) -> (empty: bool)
        ensures
            empty == (self@.len() == 0),
    {
        self.entries.len() == 0
    }

    /// The number of distinct contents in the pool.
    pub fn len(&self) -> (n: usize)
        ensures
            n == self@.len(),
    {
        self.entries.len()
    }

    /// The place that holds `content`, whose digest is `digest`, if any does.
    fn place_of(&self, content: &[u8], digest: u64) -> (found: Option<usize>)
        requires
            digest == fnv1a(content@),
        ensures
            canonical(self@),
            match found {
                Some(place) => place < self@.len() && self@[place as int].content() == content@
                    && locate(self@, content@) == Some(self@[place as int]),
                None => locate(self@, content@) is None,
            },
    {
        proof {
            use_type_invariant(self);
        }
        match self.index.get(&digest) {
            None => {
                proof {
                    lemma_absent(self.entries@, self.index@, content@, Seq::empty());
                }
                None
            },
            Some(bucket) => {
                let mut k: usize = 0;
                while k < bucket.len()
                    invariant
                        k <= bucket.len(),
                        digest == fnv1a(content@),
                        self.index@.contains_key(digest),
                        self.index@[digest] == *bucket,
                        canonical(self.entries@),
                        index_sound(self.entries@, self.index@),
                        forall|m: int|
                            0 <= m < k ==> self.entries@[(#[trigger] bucket@[m]) as int].content()
                                != content@,
                    decreases bucket.len() - k,
                {
                    let place = bucket[k];
                    if same_bytes(self.entries[place].borrow().content_bytes(), content) {
                        proof {
                            lemma_located(self.entries@, place as int);
                        }
                        return Some(place);
                    }
                    k += 1;
                }
                proof {
                    lemma_absent(self.entries@, self.index@, content@, bucket@);
                }
                None
            },
        }
    }

    /// The canonical handle for the content `obj`, if the pool holds it.
    /// The pool is not changed, and nothing is allocated.
    pub fn get(&self, obj: &B) -> (found: Option<&Interned<B, O>>)
        ensures
            canonical(self@),
            match found {
                Some(handle) => locate(self@, obj.content()) == Some(*handle),
                None => locate(self@, obj.content()) is None,
            },
    {
        let content = obj.content_bytes();
        match self.place_of(content, fnv_digest(content)) {
            Some(place) => Some(&self.entries[place]),
            None => None,
        }
    }

    /// The canonical handle for the content of `obj`.
    ///
    /// Content that the pool holds already comes back as its existing
    /// handle: the pool stays as it is and `obj` is dropped. Content that is
    /// new is moved into an allocation of its own, whose handle joins the
    /// pool.
    pub fn intern<X: Internable<B, O>>(&mut self, obj: X) -> (handle: Interned<B, O>)
        ensures
            interns(old(self)@, obj.offered(), final(self)@, handle),
    {
        let digest = fnv_digest(obj.peek().content_bytes());
        match self.place_of(obj.peek().content_bytes(), digest) {
            Some(place) => {
                return self.entries[place].clone();
            },
            None => {},
        }
        let shared = Arc::new(obj.into_buffer());
        let mut taken = InternPool::new();
        core::mem::swap(self, &mut taken);
        proof {
            use_type_invariant(&taken);
        }
        let InternPool { mut entries, mut index } = taken;
        let ghost old_entries = entries@;
        let ghost old_index = index@;
        let handle = Interned::beside(shared, &entries);
        let place = entries.len();
        let mut bucket = match index.remove(&digest) {
            Some(bucket) => bucket,
            None => Vec::new(),
        };
        let ghost old_bucket = bucket@;
        bucket.push(place);
        index.insert(digest, bucket);
        entries.push(handle.clone());
        proof {
            assert(index@.dom() =~= old_index.dom().insert(digest));
            lemma_joined(old_entries, old_index, handle, old_bucket, index@);
            lemma_grown(old_entries, handle);
        }
        *self = InternPool { entries, index };
        handle
    }
}

impl<B: Content + ?Sized, O: Buffer<B>> Default for InternPool<B, O> {
    /// An empty pool.
    fn default() -> (pool: Self)
        ensures
            pool@ == Seq::<Interned<B, O>>::empty(),
    {
        InternPool::new()
    }
}

} // verus!
