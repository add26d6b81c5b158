//! What holds of every pool, whatever is interned and in whatever order.

use crate::content::{Buffer, Content};
use crate::handle::Interned;
use crate::pool::{canonical, holds, interns, locate};
use vstd::prelude::*;

verus! {

/// Interning is idempotent: interning the same content a second time hands
/// out the same handle, identical to the first, and leaves the pool as the
/// first interning left it, so the pool does not grow.
pub proof fn law_intern_idempotent<B: Content + ?Sized, O: Buffer<B>>(
    start: Seq<Interned<B, O>>,
    content: Seq<u8>,
    middle: Seq<Interned<B, O>>,
    first: Interned<B, O>,
    end: Seq<Interned<B, O>>,
    second: Interned<B, O>,
)
    requires
        interns(start, content, middle, first),
        interns(middle, content, end, second),
    ensures
        second == first,
        first.same(&second),
        end == middle,
        end.len() == middle.len(),
{
}

/// Interning preserves content: the handle that comes back holds exactly the
/// content that went in.
pub proof fn law_intern_preserves_content<B: Content + ?Sized, O: Buffer<B>>(
    before: Seq<Interned<B, O>>,
    content: Seq<u8>,
    after: Seq<Interned<B, O>>,
    handle: Interned<B, O>,
)
    requires
        interns(before, content, after, handle),
    ensures
        handle.content() == content,
{
}

/// Two texts with the same bytes are the same text: content kept as bytes
/// gives back the characters that went in.
pub proof fn law_text_follows_bytes(a: &str, b: &str)
    requires
        a.content() == b.content(),
    ensures
        a@ == b@,
{
    vstd::utf8::encode_utf8_decode_utf8(a@);
    vstd::utf8::encode_utf8_decode_utf8(b@);
}

/// No false aliasing: handles interned for different contents are never
/// identical.
pub proof fn law_no_false_aliasing<B: Content + ?Sized, O: Buffer<B>>(
    start: Seq<Interned<B, O>>,
    content1: Seq<u8>,
    middle: Seq<Interned<B, O>>,
    first: Interned<B, O>,
    content2: Seq<u8>,
    end: Seq<Interned<B, O>>,
    second: Interned<B, O>,
)
    requires
        interns(start, content1, middle, first),
        interns(middle, content2, end, second),
        content1 != content2,
    ensures
        !first.same(&second),
{
    assert(holds(middle, content1));
    assert(locate(end, content1) == Some(first));
    law_identity_follows_content(end, content1, content2);
}

/// Within one pool identity and content agree: the handles located for two
/// contents are identical exactly when the contents are the same.
pub proof fn law_identity_follows_content<B: Content + ?Sized, O: Buffer<B>>(
    entries: Seq<Interned<B, O>>,
    content1: Seq<u8>,
    content2: Seq<u8>,
)
    requires
        canonical(entries),
        holds(entries, content1),
        holds(entries, content2),
    ensures
        locate(entries, content1).unwrap().same(&locate(entries, content2).unwrap()) <==> content1
            == content2,
        locate(entries, content1).unwrap().content() == content1,
{
    let i = choose|i: int| 0 <= i < entries.len() && (#[trigger] entries[i]).content() == content1;
    let j = choose|j: int| 0 <= j < entries.len() && (#[trigger] entries[j]).content() == content2;
    if content1 != content2 {
        if i < j {
            assert(!entries[i].same(&entries[j]));
        } else {
            assert(!entries[j].same(&entries[i]));
        }
    }
}

/// A pool never lets go of a handle: whatever it located before an interning
/// it locates after it, the same handle for the same content.
pub proof fn law_handles_stay<B: Content + ?Sized, O: Buffer<B>>(
    before: Seq<Interned<B, O>>,
    content: Seq<u8>,
    after: Seq<Interned<B, O>>,
    handle: Interned<B, O>,
    other: Seq<u8>,
)
    requires
        interns(before, content, after, handle),
        holds(before, other),
    ensures
        locate(after, other) == locate(before, other),
        before.len() <= after.len() <= before.len() + 1,
{
}

} // verus!
