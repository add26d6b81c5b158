//! What a pool can hold: a borrowed view of content, the owned buffer behind
//! it, and the values that can be offered for interning.

use vstd::prelude::*;
use vstd::string::StringSliceAdditionalSpecFns;

verus! {

/// A borrowed view of content. Two views are the same content exactly when
/// their bytes are the same.
pub trait Content {
    /// The content, as bytes.
    spec fn content(&self) -> Seq<u8>;

    /// The content's bytes, borrowed from the view.
    fn content_bytes(&self) -> (b: &[u8])
        ensures
            b@ == self.content(),
    ;
}

impl Content for str {
    open spec fn content(&self) -> Seq<u8> {
        self.spec_bytes()
    }

    fn content_bytes(&self) -> (b: &[u8]) {
        self.as_bytes()
    }
}

impl Content for [u8] {
    open spec fn content(&self) -> Seq<u8> {
        self@
    }

    fn content_bytes(&self) -> (b: &[u8]) {
        self
    }
}

/// Whether `a` and `b` hold the same bytes.
pub fn same_bytes(a: &[u8], b: &[u8]) -> (same: bool)
    ensures
        same == (a@ == b@),
{
    if a.len() != b.len() {
        return false;
    }
    let mut i: usize = 0;
    while i < a.len()
        invariant
            a.len() == b.len(),
            i <= a.len(),
            forall|k: int| 0 <= k < i ==> a@[k] == b@[k],
        decreases a.len() - i,
    {
        if a[i] != b[i] {
            return false;
        }
        i += 1;
    }
    assert(a@ =~= b@);
    true
}

/// An owned buffer that can be looked at through the borrowed view `B`.
pub trait Buffer<B: Content + ?Sized>: Sized {
    /// The bytes that the buffer holds.
    spec fn held(&self) -> Seq<u8>;

    /// Borrows the buffer as its view, without copying.
    fn as_content(&self) -> (v: &B)
        ensures
            v.content() == self.held(),
    ;
}

impl Buffer<str> for String {
    open spec fn held(&self) -> Seq<u8> {
        vstd::utf8::encode_utf8(self@)
    }

    fn as_content(&self) -> (v: &str) {
        self.as_str()
    }
}

impl Buffer<[u8]> for Vec<u8> {
    open spec fn held(&self) -> Seq<u8> {
        self@
    }

    fn as_content(&self) -> (v: &[u8]) {
        self.as_slice()
    }
}

/// A value that can be offered to a pool: it can be looked at as the view
/// `B` and turned into the owned buffer `O`.
pub trait Internable<B: Content + ?Sized, O: Buffer<B>>: Sized {
    /// The bytes of the offered content.
    spec fn offered(&self) -> Seq<u8>;

    /// The offered content as a view, without copying.
    fn peek(&self) -> (v: &B)
        ensures
            v.content() == self.offered(),
    ;

    /// Turns the value into the owned buffer; allocates only for a borrowed value.
    fn into_buffer(self) -> (o: O)
        ensures
            o.held() == self.offered(),
    ;
}

impl<'a> Internable<str, String> for &'a str {
    open spec fn offered(&self) -> Seq<u8> {
        self.spec_bytes()
    }

    fn peek(&self) -> (v: &str) {
        *self
    }

    fn into_buffer(self) -> (o: String) {
        self.to_owned()
    }
}

impl Internable<str, String> for String {
    open spec fn offered(&self) -> Seq<u8> {
        vstd::utf8::encode_utf8(self@)
    }

    fn peek(&self) -> (v: &str) {
        self.as_str()
    }

    fn into_buffer(self) -> (o: String) {
        self
    }
}

impl<'a> Internable<[u8], Vec<u8>> for &'a [u8] {
    open spec fn offered(&self) -> Seq<u8> {
        self@
    }

    fn peek(&self) -> (v: &[u8]) {
        *self
    }

    fn into_buffer(self) -> (o: Vec<u8>) {
        vstd::slice::slice_to_vec(self)
    }
}

impl Internable<[u8], Vec<u8>> for Vec<u8> {
    open spec fn offered(&self) -> Seq<u8> {
        self@
    }

    fn peek(&self) -> (v: &[u8]) {
        self.as_slice()
    }

    fn into_buffer(self) -> (o: Vec<u8>) {
        self
    }
}

} // verus!
