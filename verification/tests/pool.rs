use intern_pool::{ByteSymbolPool, InternPool, Interned, SymbolPool};
use std::sync::Arc;

#[test]
fn interning_twice_gives_the_same_handle() {
    let mut pool = SymbolPool::new();
    let first = pool.intern("foo");
    let second = pool.intern("foo");
    assert!(first == second);
    assert_eq!(pool.len(), 1);
}

#[test]
fn second_interning_does_not_grow_the_pool() {
    let mut pool = SymbolPool::new();
    pool.intern("foo");
    let before = pool.len();
    pool.intern("foo");
    assert_eq!(pool.len(), before);
}

#[test]
fn different_contents_get_different_handles() {
    let mut pool = SymbolPool::new();
    let foo = pool.intern("foo");
    let bar = pool.intern("bar");
    assert!(foo != bar);
    assert_eq!(pool.len(), 2);
}

#[test]
fn text_and_byte_pools_do_not_interact() {
    let mut bytes = ByteSymbolPool::new();
    let mut text = SymbolPool::new();
    let raw = bytes.intern(vec![1u8, 2, 3]);
    let foo = text.intern("foo");
    assert_eq!(bytes.len(), 1);
    assert_eq!(text.len(), 1);
    assert_eq!(raw.as_bytes(), &[1u8, 2, 3][..]);
    assert_eq!(foo.as_str(), "foo");
    assert!(bytes.get(b"foo").is_none());
    assert!(text.get("\u{1}\u{2}\u{3}").is_none());
}

#[test]
fn lookup_without_insert_finds_nothing() {
    let pool = SymbolPool::new();
    assert!(pool.get("foo").is_none());
    assert_eq!(pool.len(), 0);
    assert!(pool.is_empty());
}

#[test]
fn lookup_does_not_insert() {
    let mut pool = SymbolPool::new();
    pool.intern("foo");
    assert!(pool.get("bar").is_none());
    assert!(pool.get("bar").is_none());
    assert_eq!(pool.len(), 1);
}

#[test]
fn lookup_finds_the_interned_handle() {
    let mut pool = SymbolPool::new();
    let foo = pool.intern("foo");
    pool.intern("bar");
    let found = pool.get("foo");
    assert!(found.is_some());
    assert!(*found.unwrap() == foo);
    assert_eq!(found.unwrap().as_str(), "foo");
}

#[test]
fn interning_preserves_content() {
    let mut pool = SymbolPool::new();
    let handle = pool.intern("hello, world");
    assert_eq!(&*handle, "hello, world");
    assert_eq!(handle.borrow(), "hello, world");
    let accented = pool.intern("h\u{e9}llo \u{4e16}\u{754c}");
    assert_eq!(accented.as_str(), "h\u{e9}llo \u{4e16}\u{754c}");
}

#[test]
fn owned_and_borrowed_values_intern_alike() {
    let mut pool = SymbolPool::new();
    let borrowed = pool.intern("foo");
    let owned = pool.intern(String::from("foo"));
    assert!(borrowed == owned);
    assert_eq!(pool.len(), 1);

    let mut bytes = ByteSymbolPool::new();
    let owned = bytes.intern(vec![9u8, 8, 7]);
    let borrowed = bytes.intern(&[9u8, 8, 7][..]);
    assert!(borrowed == owned);
    assert_eq!(bytes.len(), 1);
}

#[test]
fn empty_content_is_content_too() {
    let mut pool = SymbolPool::new();
    let empty = pool.intern("");
    let again = pool.intern(String::new());
    assert!(empty == again);
    assert_eq!(empty.as_str(), "");
    assert_eq!(pool.len(), 1);

    let mut bytes = ByteSymbolPool::new();
    let none = bytes.intern(Vec::new());
    assert_eq!(none.as_bytes().len(), 0);
    assert!(bytes.get(&[][..]).is_some());
}

#[test]
fn a_clone_outlives_the_handle_it_was_made_from() {
    let mut pool = SymbolPool::new();
    let first = pool.intern("foo");
    let copy = first.clone();
    assert!(copy == first);
    drop(first);
    assert_eq!(copy.as_str(), "foo");
    let fresh = pool.intern("foo");
    assert!(fresh == copy);
}

#[test]
fn a_handle_outlives_its_pool() {
    let handle = {
        let mut pool = SymbolPool::new();
        pool.intern("foo")
    };
    assert_eq!(handle.as_str(), "foo");
}

#[test]
fn handles_of_different_pools_are_never_equal() {
    let mut one = SymbolPool::new();
    let mut other = SymbolPool::new();
    let a = one.intern("foo");
    let b = other.intern("foo");
    assert!(a != b);
    assert_eq!(a.as_str(), b.as_str());
}

#[test]
fn a_handle_made_by_hand_belongs_to_no_pool() {
    let mut pool = SymbolPool::new();
    let interned = pool.intern("foo");
    let loose: Interned<str, String> = Interned::new(Arc::new(String::from("foo")));
    assert!(loose != interned);
    assert!(loose == loose.clone());
    assert_eq!(loose.as_str(), "foo");
    assert_eq!(pool.len(), 1);
}

#[test]
fn handles_of_one_allocation_are_equal() {
    let shared = Arc::new(String::from("foo"));
    let a: Interned<str, String> = Interned::new(shared.clone());
    let b: Interned<str, String> = Interned::new(shared);
    assert!(a == b);
}

#[test]
fn many_contents_are_kept_apart() {
    let mut pool = SymbolPool::new();
    let mut handles = Vec::new();
    for i in 0..2000 {
        handles.push(pool.intern(format!("symbol-{}", i)));
    }
    assert_eq!(pool.len(), 2000);
    for i in 0..2000 {
        let text = format!("symbol-{}", i);
        let again = pool.intern(text.as_str());
        assert!(again == handles[i]);
        assert_eq!(again.as_str(), text);
        assert!(*pool.get(text.as_str()).unwrap() == handles[i]);
    }
    assert_eq!(pool.len(), 2000);
    for i in 0..2000 {
        for j in (i + 1)..2000 {
            if j - i > 3 {
                break;
            }
            assert!(handles[i] != handles[j]);
        }
    }
}

#[test]
fn a_default_pool_is_empty() {
    let pool: InternPool<[u8], Vec<u8>> = Default::default();
    assert!(pool.is_empty());
    assert_eq!(pool.len(), 0);
}
