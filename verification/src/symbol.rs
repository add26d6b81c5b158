//! The two pools in everyday use: one for text, one for raw bytes.

use crate::content::Content;
use crate::handle::Interned;
use crate::pool::InternPool;
use vstd::prelude::*;

verus! {

/// A handle on interned text.
pub type Symbol = Interned<str, String>;

/// A pool of text.
pub type SymbolPool = InternPool<str, String>;

/// A handle on an interned byte sequence.
pub type ByteSymbol = Interned<[u8], Vec<u8>>;

/// A pool of byte sequences.
pub type ByteSymbolPool = InternPool<[u8], Vec<u8>>;

impl Interned<str, String> {
    /// The text behind the handle.
    pub open spec fn text(&self) -> Seq<char> {
        self.value()@
    }

    /// The text, borrowed from the shared allocation.
    pub fn as_str(&self) -> (text: &str)
        ensures
            text@ == self.text(),
    {
        let text = self.borrow();
        proof {
            vstd::utf8::encode_utf8_decode_utf8(text@);
            vstd::utf8::encode_utf8_decode_utf8(self.text());
        }
        text
    }
}

impl Interned<[u8], Vec<u8>> {
    /// The bytes, borrowed from the shared allocation.
    pub fn as_bytes(&self) -> (bytes: &[u8])
        ensures
            bytes@ == self.content(),
    {
        self.borrow()
    }
}

/// A text handle holds the text whose bytes are its content.
pub proof fn lemma_text_of_content(handle: Interned<str, String>, text: &str)
    requires
        handle.content() == text.content(),
    ensures
        handle.text() == text@,
{
    vstd::utf8::encode_utf8_decode_utf8(text@);
    vstd::utf8::encode_utf8_decode_utf8(handle.text());
}

} // verus!
