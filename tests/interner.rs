use interner::sync;
use interner::unsync;
use interner::Interner;

#[derive(Debug, PartialEq, Eq, Hash)]
enum Type {
    Int,
    Array(usize),
}

#[test]
fn lib_addr() {
    let interner: Interner<i32> = Interner::new();

    let a1 = interner.intern(1);
    let b1 = interner.intern(1);
    interner.intern(2);

    assert!(interner.try_resolve(&1) == Some(a1));

    assert_eq!(a1, b1);
}

#[test]
fn lib_recursive() {
    let interner = Interner::new();
    let int = interner.intern(Type::Int);
    let array = interner.intern(Type::Array(int));
    println!("{array:?}");
    assert_ne!(int, array);
    assert_eq!(interner.intern(Type::Array(int)), array);
}

#[test]
fn sync_addr() {
    let interner: sync::Interner<i32> = sync::Interner::new();

    let a1 = interner.intern(1);
    let b1 = interner.intern(1);
    interner.intern(2);

    assert!(interner.try_resolve(&1) == Some(a1));

    assert_eq!(a1, b1);
}

#[test]
fn sync_recursive() {
    let interner = sync::Interner::new();
    let int = interner.intern(Type::Int);
    let array = interner.intern(Type::Array(int));
    println!("{array:?}");
    assert_eq!(interner.len(), 2);
}

#[test]
fn concrete_scenario() {
    let mut interner: unsync::Interner<i32> = unsync::Interner::new();
    assert!(interner.is_empty());
    let p1 = interner.intern(1);
    assert_eq!(interner.intern(1), p1);
    let p2 = interner.intern(2);
    assert_ne!(p1, p2);
    assert_eq!(interner.try_resolve(&1), Some(p1));
    assert_eq!(*interner.resolve(p1), 1);
    assert_eq!(*interner.resolve(p2), 2);
    assert_eq!(interner.len(), 2);
    assert!(!interner.is_empty());
}

#[test]
fn miss_before_insert() {
    let interner: unsync::Interner<i32> = unsync::Interner::new();
    assert_eq!(interner.try_resolve(&5), None);
    let shared: Interner<i32> = Interner::new();
    assert_eq!(shared.try_resolve(&5), None);
    assert_eq!(shared.len(), 0);
    let synced: sync::Interner<i32> = sync::Interner::new();
    assert_eq!(synced.try_resolve(&5), None);
    assert!(synced.is_empty());
}

#[test]
fn lookup_does_not_insert() {
    let mut interner: unsync::Interner<i32> = unsync::Interner::new();
    interner.intern(3);
    assert_eq!(interner.try_resolve(&4), None);
    assert_eq!(interner.try_resolve(&4), None);
    assert_eq!(interner.len(), 1);
    let synced: sync::Interner<i32> = sync::Interner::new();
    assert_eq!(synced.try_resolve(&4), None);
    assert_eq!(synced.len(), 0);
}

#[test]
fn dedup_either_order() {
    let mut a: unsync::Interner<String> = unsync::Interner::new();
    let x = a.intern(String::from("ab"));
    let y = a.intern(String::from("ab"));
    assert_eq!(x, y);
    let mut b: unsync::Interner<String> = unsync::Interner::new();
    let z = b.intern(String::from("cd"));
    let x2 = b.intern(String::from("ab"));
    let y2 = b.intern(String::from("ab"));
    assert_eq!(x2, y2);
    assert_ne!(z, x2);
    assert_eq!(b.len(), 2);
}

#[test]
fn slots_stay_valid() {
    let mut interner: unsync::Interner<Type> = unsync::Interner::new();
    let int = interner.intern(Type::Int);
    let array = interner.intern(Type::Array(int));
    for i in 0..1000usize {
        interner.intern(Type::Array(i + 10));
    }
    assert_eq!(*interner.resolve(array), Type::Array(int));
    assert_eq!(*interner.resolve(int), Type::Int);
    assert_eq!(interner.try_resolve(&Type::Array(int)), Some(array));
    assert_eq!(interner.len(), 1002);
}

#[test]
fn many_values_all_found() {
    let mut interner: unsync::Interner<u64> = unsync::Interner::new();
    let mut slots = Vec::new();
    for v in 0..5000u64 {
        slots.push(interner.intern(v * 7));
    }
    for v in 0..5000u64 {
        assert_eq!(interner.intern(v * 7), slots[v as usize]);
        assert_eq!(interner.try_resolve(&(v * 7)), Some(slots[v as usize]));
    }
    assert_eq!(interner.len(), 5000);
}

#[test]
fn len_counts_distinct_values() {
    let shared: Interner<i32> = Interner::new();
    for _ in 0..50 {
        for v in [4, 8, 15, 16, 23, 42] {
            shared.intern(v);
        }
    }
    assert_eq!(shared.len(), 6);
    let store = shared.into_inner();
    assert_eq!(store.len(), 6);
}

#[test]
fn intern_new_skips_the_check() {
    let mut interner: unsync::Interner<i32> = unsync::Interner::new();
    let a = interner.intern_new(9);
    let b = interner.intern_new(9);
    assert_ne!(a, b);
    assert_eq!(interner.len(), 2);
    assert_eq!(interner.intern(9), a);

    let synced: sync::Interner<i32> = sync::Interner::new();
    let c = synced.intern_new(9);
    let d = synced.intern_new(9);
    assert_ne!(c, d);
    assert_eq!(synced.len(), 2);
    assert_eq!(synced.intern(9), c);
}

#[test]
fn arena_only_values_are_not_found() {
    let mut interner: unsync::Interner<i32> = unsync::Interner::new();
    let a = interner.insert_arena(6);
    assert_eq!(interner.len(), 0);
    assert_eq!(interner.try_resolve(&6), None);
    assert_eq!(*interner.resolve(a), 6);
    let b = interner.intern(6);
    assert_ne!(a, b);
    assert_eq!(interner.len(), 1);
}

#[test]
fn explicit_hash_decides_the_bucket() {
    let mut interner: unsync::Interner<i32> = unsync::Interner::new();
    let a = interner.intern_with(7, 42);
    assert_eq!(interner.try_resolve_with(&7, 42), Some(a));
    assert_eq!(interner.try_resolve_with(&7, 43), None);
    assert_eq!(interner.try_resolve_with(&8, 42), None);
    assert_eq!(interner.intern_with(7, 42), a);
    let b = interner.insert(42, 7);
    assert_ne!(a, b);
    assert_eq!(interner.len(), 2);
}

#[test]
fn default_is_empty() {
    let interner: unsync::Interner<i32> = Default::default();
    assert!(interner.is_empty());
    assert_eq!(interner.try_resolve(&0), None);
}
