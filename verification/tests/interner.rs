use maproom::memory::interner::StringInterner;
use std::sync::Arc;

#[test]
fn test_basic_interning() {
    let mut interner = StringInterner::new();

    let s1 = interner.intern("hello");
    let s2 = interner.intern("hello");
    let s3 = interner.intern("world");

    assert!(Arc::ptr_eq(&s1, &s2));
    assert!(!Arc::ptr_eq(&s1, &s3));

    assert_eq!(interner.len(), 2);
}

#[test]
fn test_intern_owned() {
    let mut interner = StringInterner::new();

    let s1 = interner.intern_owned("hello".to_string());
    let s2 = interner.intern("hello");

    assert!(Arc::ptr_eq(&s1, &s2));
    assert_eq!(interner.len(), 1);
}

#[test]
fn test_stats() {
    let mut interner = StringInterner::new();

    interner.intern("a");
    interner.intern("a");
    interner.intern("b");
    interner.intern("a");

    let stats = interner.stats();
    assert_eq!(stats.total_interns, 4);
    assert_eq!(stats.hits, 2);
    assert_eq!(stats.misses, 2);
    assert_eq!(stats.unique_strings, 2);
}

#[test]
fn test_clear() {
    let mut interner = StringInterner::new();

    let s1 = interner.intern("hello");
    assert_eq!(interner.len(), 1);

    interner.clear();
    assert_eq!(interner.len(), 0);

    assert_eq!(&*s1, "hello");

    let s2 = interner.intern("hello");
    assert!(!Arc::ptr_eq(&s1, &s2));
}

#[test]
fn test_with_capacity() {
    let mut interner = StringInterner::with_capacity(100);
    assert_eq!(interner.len(), 0);

    for i in 0..50 {
        interner.intern(&format!("string_{}", i));
    }

    assert_eq!(interner.len(), 50);
}

#[test]
fn test_memory_estimation() {
    let mut interner = StringInterner::new();

    interner.intern("short");
    interner.intern("a_longer_string");

    let memory = interner.estimated_memory_bytes();
    assert!(memory > 0);
    assert!(memory > 100);
    assert_eq!(memory, 64 + 5 + 64 + 15);
}

#[test]
fn test_empty_string() {
    let mut interner = StringInterner::new();

    let s1 = interner.intern("");
    let s2 = interner.intern("");

    assert!(Arc::ptr_eq(&s1, &s2));
    assert_eq!(&*s1, "");
}

#[test]
fn test_unicode_strings() {
    let mut interner = StringInterner::new();

    let s1 = interner.intern("你好世界");
    let s2 = interner.intern("你好世界");
    let s3 = interner.intern("こんにちは");

    assert!(Arc::ptr_eq(&s1, &s2));
    assert!(!Arc::ptr_eq(&s1, &s3));
}

#[test]
fn test_deduplication_ratio() {
    let mut interner = StringInterner::new();

    for _ in 0..100 {
        interner.intern("repeated");
    }

    let stats = interner.stats();
    assert_eq!(stats.unique_strings, 1);
    assert_eq!(stats.total_interns, 100);
}

#[test]
fn clear_keeps_call_counts() {
    let mut interner = StringInterner::new();
    interner.intern("x");
    interner.intern("x");
    interner.clear();
    let stats = interner.stats();
    assert_eq!(stats.total_interns, 2);
    assert_eq!(stats.hits, 1);
    assert_eq!(stats.unique_strings, 0);
    assert!(interner.is_empty());
}
