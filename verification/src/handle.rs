//! The canonical handle: a shared, immutable value that compares by identity.

use crate::content::{Buffer, Content};
use crate::digest::{fnv1a, fnv_digest};
use std::hash::{Hash, Hasher};
use std::marker::PhantomData;
use std::sync::Arc;
use vstd::prelude::*;
use vstd::std_specs::cmp::PartialEqSpecImpl;

verus! {

/// A handle on one shared allocation of an owned buffer `O`, read through the
/// borrowed view `B`.
///
/// Two handles are equal (`==`) exactly when they stand for the same
/// allocation; what the allocations hold plays no part in it. Order, hash and
/// digest go by content instead. Among the handles of one pool the two notions
/// agree, since a pool keeps one allocation for each content; handles of
/// different pools, or made with [`Interned::new`], may hold equal content
/// and are still not equal.
///
/// A handle shares its allocation with its clones and keeps it alive; the
/// value in it never changes.
#[derive(Debug)]
pub struct Interned<B: ?Sized, O> {
    inner: Arc<O>,
    /// Where the allocation behind `inner` lives, read when the handle is made.
    addr: usize,
    _phantom: PhantomData<B>,
}

/// `Arc::as_ptr`, as an integer: where the allocation behind `shared` lives.
///
/// An allocation stays where it is while one of its owners is alive, and no
/// two allocations that are alive at one time share an address. Each peer
/// owns the allocation whose address it carries, so a peer that carries the
/// address returned here owns the allocation behind `shared`, and finds the
/// same value in it. Nothing else is said of the address.
#[verifier::external_body]
fn address_of<B: ?Sized, O>(shared: &Arc<O>, peers: &Vec<Interned<B, O>>) -> (addr: usize)
    ensures
        forall|i: int|
            0 <= i < peers.len() && (#[trigger] peers[i]).addr == addr ==> *peers[i].inner
                == **shared,
{
    Arc::as_ptr(shared) as usize
}

/// `Arc::clone`: one more owner of the same allocation; the value is not copied.
#[verifier::external_body]
fn share<O>(shared: &Arc<O>) -> (again: Arc<O>)
    ensures
        *again == **shared,
{
    Arc::clone(shared)
}

/// `Hasher::write`: hands `bytes` to the hasher. Nothing is said of what the
/// hasher makes of them.
#[verifier::external_body]
fn feed<H: Hasher>(state: &mut H, bytes: &[u8]) {
    state.write(bytes)
}

impl<B: ?Sized, O> Interned<B, O> {
    /// The owned value behind the handle.
    pub closed spec fn value(&self) -> O {
        *self.inner
    }

    /// The identity of the handle: the address of its allocation.
    pub closed spec fn id(&self) -> usize {
        self.addr
    }

    /// Whether the handle stands for the same allocation as `other`.
    pub open spec fn same(&self, other: &Self) -> bool {
        self.id() == other.id()
    }

    /// A handle on an allocation that belongs to no pool.
    pub fn new(inner: Arc<O>) -> (handle: Self)
        ensures
            handle.value() == *inner,
    {
        let peers: Vec<Interned<B, O>> = Vec::new();
        let addr = address_of(&inner, &peers);
        Interned { inner, addr, _phantom: PhantomData }
    }

    /// A handle on `inner` that is set apart from `peers`: it shares its
    /// identity with a peer only if it shares its value too.
    pub(crate) fn beside(inner: Arc<O>, peers: &Vec<Interned<B, O>>) -> (handle: Self)
        ensures
            handle.value() == *inner,
            forall|i: int|
                0 <= i < peers.len() && (#[trigger] peers[i]).id() == handle.id()
                    ==> peers[i].value() == handle.value(),
    {
        let addr = address_of(&inner, peers);
        Interned { inner, addr, _phantom: PhantomData }
    }
}

impl<B: Content + ?Sized, O: Buffer<B>> Interned<B, O> {
    /// The content behind the handle, as bytes.
    pub open spec fn content(&self) -> Seq<u8> {
        self.value().held()
    }

    /// The content, borrowed from the shared allocation.
    pub fn borrow(&self) -> (v: &B)
        ensures
            v.content() == self.content(),
    {
        self.inner.as_content()
    }

    /// The FNV-1a digest of the content. Handles of equal content have equal
    /// digests, whatever their identity.
    pub fn digest(&self) -> (digest: u64)
        ensures
            digest == fnv1a(self.content()),
    {
        fnv_digest(self.inner.as_content().content_bytes())
    }
}

impl<B: Content + ?Sized, O: Buffer<B>> std::ops::Deref for Interned<B, O> {
    type Target = B;

    /// The content, borrowed from the shared allocation.
    fn deref(&self) -> (v: &B)
        ensures
            v.content() == self.content(),
    {
        self.inner.as_content()
    }
}

impl<B: Content + ?Sized, O: Buffer<B>> Hash for Interned<B, O> {
    /// Feeds the bytes of the content, and nothing of the identity, to `state`.
    fn hash<H: Hasher>(&self, state: &mut H) {
        feed(state, self.inner.as_content().content_bytes());
    }
}

impl<B: ?Sized, O> Clone for Interned<B, O> {
    /// Another handle on the same allocation.
    fn clone(&self) -> (handle: Self)
        ensures
            handle == *self,
    {
        Interned { inner: share(&self.inner), addr: self.addr, _phantom: PhantomData }
    }
}

impl<B: ?Sized, O> PartialEq for Interned<B, O> {
    fn eq(&self, rhs: &Self) -> (same: bool) {
        self.addr == rhs.addr
    }
}

impl<B: ?Sized, O> PartialEqSpecImpl for Interned<B, O> {
    open spec fn obeys_eq_spec() -> bool {
        true
    }

    open spec fn eq_spec(&self, rhs: &Self) -> bool {
        self.same(rhs)
    }
}

impl<B: ?Sized, O> Eq for Interned<B, O> {}

} // verus!
