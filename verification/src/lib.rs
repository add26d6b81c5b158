//! A value-interning pool: equal content is stored once and handed out as a
//! shared handle that compares by identity.
//!
//! [`InternPool`] keeps one allocation for each distinct content. Its
//! handles, [`Interned`], are cheap to clone and compare by the allocation
//! they stand for, so that within one pool two handles are equal exactly when
//! their contents are. [`Symbol`] and [`ByteSymbol`] are the handles of the
//! text pool and of the byte pool.

pub mod content;
pub mod digest;
pub mod handle;
pub mod laws;
pub mod order;
pub mod pool;
pub mod symbol;

pub use content::{Buffer, Content, Internable};
pub use handle::Interned;
pub use pool::InternPool;
pub use symbol::{ByteSymbol, ByteSymbolPool, Symbol, SymbolPool};
