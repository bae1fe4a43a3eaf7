use exp_rs::arena_pool::ArenaPool;

fn checkout_checkin() {
    let mut pool = ArenaPool::with_capacity(2, 1024);

    let checkout1 = pool.checkout().expect("Should get first arena");
    assert_eq!(pool.active_count(), 1);

    let checkout2 = pool.checkout().expect("Should get second arena");
    assert_eq!(pool.active_count(), 2);

    assert!(pool.checkout().is_none());

    pool.release(checkout1);
    assert_eq!(pool.active_count(), 1);

    let checkout3 = pool.checkout().expect("Should get arena after return");
    assert_eq!(pool.active_count(), 2);

    pool.release(checkout2);
    pool.release(checkout3);
    assert_eq!(pool.active_count(), 0);
}

fn reset_on_checkout() {
    let mut pool = ArenaPool::with_capacity(1, 1024);

    let bytes_after_alloc = {
        let checkout = pool.checkout().unwrap();
        let _val = pool.arena(&checkout).alloc(42u32);
        let bytes = pool.arena(&checkout).allocated_bytes();
        pool.release(checkout);
        bytes
    };
    assert!(bytes_after_alloc > 0);

    let checkout = pool.checkout().unwrap();
    let _val2 = pool.arena(&checkout).alloc(42u32);
    assert_eq!(*_val2, 42u32);
    pool.release(checkout);
}

#[test]
fn arena_pool_test_arena_pool_checkout_checkin() {
    checkout_checkin();
}

#[test]
fn ffi_test_arena_pool_checkout_checkin() {
    checkout_checkin();
}

#[test]
fn arena_pool_test_arena_reset_on_checkout() {
    reset_on_checkout();
}

#[test]
fn ffi_test_arena_reset_on_checkout() {
    reset_on_checkout();
}

#[test]
fn pool_capacity_and_default_size() {
    let pool = ArenaPool::new();
    assert_eq!(exp_rs::arena_pool::capacity(&pool), exp_rs::arena_pool::DEFAULT_POOL_SIZE);
    assert_eq!(exp_rs::arena_pool::active_count(&pool), 0);
}

#[test]
fn pool_release_of_free_slot_changes_nothing() {
    let mut pool = ArenaPool::with_capacity(2, 64);
    let a = pool.checkout().unwrap();
    pool.release(a);
    assert_eq!(pool.active_count(), 0);
    let b = pool.checkout().unwrap();
    let c = pool.checkout().unwrap();
    assert!(pool.checkout().is_none());
    pool.release(b);
    pool.release(c);
    assert_eq!(pool.active_count(), 0);
    assert_eq!(pool.capacity(), 2);
}
