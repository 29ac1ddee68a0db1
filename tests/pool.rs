use block_pool::{MemoryPool, CAPACITY_EXCEEDED, CLOCK_BEFORE_EPOCH};

fn payload_of(pool: &mut MemoryPool<i32>, key: &str) -> Option<i32> {
    pool.deallocate(key).map(|mut block| block.access(|v| *v))
}

#[test]
fn test_allocation() {
    let mut pool = MemoryPool::new(10);
    let result = pool.allocate("test_key".to_string(), 42);
    assert!(result.is_ok());
}

#[test]
fn full_pool_refuses_next_key() {
    let mut pool = MemoryPool::new(3);
    for key in ["k0", "k1", "k2"] {
        assert_eq!(pool.allocate(key.to_string(), 0), Ok(()));
    }
    assert_eq!(pool.len(), 3);
    assert_eq!(pool.allocate("k3".to_string(), 0), Err(CAPACITY_EXCEEDED));
    assert_eq!(pool.len(), 3);
    assert_eq!(CAPACITY_EXCEEDED, "Memory pool capacity exceeded");
}

#[test]
fn zero_capacity_pool_is_full() {
    let mut pool = MemoryPool::new(0);
    assert_eq!(pool.allocate("a".to_string(), 1), Err(CAPACITY_EXCEEDED));
    assert_eq!(pool.len(), 0);
    assert!(pool.deallocate("a").is_none());
}

#[test]
fn reallocation_replaces_block() {
    let mut pool = MemoryPool::new(2);
    assert!(pool.allocate("a".to_string(), 1).is_ok());
    assert!(pool.allocate("a".to_string(), 7).is_ok());
    assert_eq!(pool.len(), 1);
    assert_eq!(payload_of(&mut pool, "a"), Some(7));
    assert_eq!(pool.len(), 0);
}

#[test]
fn reallocation_in_full_pool_is_refused() {
    let mut pool = MemoryPool::new(1);
    assert!(pool.allocate("a".to_string(), 1).is_ok());
    assert_eq!(pool.allocate("a".to_string(), 2), Err(CAPACITY_EXCEEDED));
    assert_eq!(payload_of(&mut pool, "a"), Some(1));
}

#[test]
fn deallocating_absent_key_changes_nothing() {
    let mut pool = MemoryPool::new(2);
    assert!(pool.allocate("a".to_string(), 1).is_ok());
    assert!(pool.deallocate("never").is_none());
    assert_eq!(pool.len(), 1);
    assert_eq!(payload_of(&mut pool, "a"), Some(1));
}

#[test]
fn deallocation_makes_room_in_full_pool() {
    let mut pool = MemoryPool::new(2);
    assert!(pool.allocate("a".to_string(), 1).is_ok());
    assert!(pool.allocate("b".to_string(), 2).is_ok());
    assert!(pool.deallocate("a").is_some());
    assert!(pool.allocate("a".to_string(), 5).is_ok());
    assert_eq!(pool.len(), 2);
    assert_eq!(payload_of(&mut pool, "a"), Some(5));
    assert_eq!(payload_of(&mut pool, "b"), Some(2));
}

#[test]
fn capacity_two_scenario() {
    let mut pool = MemoryPool::new(2);
    assert_eq!(pool.allocate("a".to_string(), 1), Ok(()));
    assert_eq!(pool.allocate("b".to_string(), 2), Ok(()));
    assert_eq!(pool.allocate("c".to_string(), 3), Err(CAPACITY_EXCEEDED));
    let mut block = pool.deallocate("a").expect("block under a");
    assert_eq!(block.access(|v| *v), 1);
    assert_eq!(pool.allocate("c".to_string(), 3), Ok(()));
    assert_eq!(payload_of(&mut pool, "c"), Some(3));
}

#[test]
fn allocated_block_is_fresh_and_tagged_from_key() {
    let mut pool = MemoryPool::new(4);
    assert!(pool.allocate("key".to_string(), 9).is_ok());
    let block = pool.deallocate("key").expect("block under key");
    assert_eq!(block.get_metrics().1, 0);
    let tag = block.signature();
    assert!(tag.starts_with("SIG-key-"));
    let stamp = &tag["SIG-key-".len()..];
    assert!(!stamp.is_empty());
    assert!(stamp.chars().all(|c| c.is_ascii_digit()));
    assert!(stamp == "0" || !stamp.starts_with('0'));
}

#[test]
fn capacity_is_fixed() {
    let mut pool = MemoryPool::new(1);
    assert_eq!(pool.capacity(), 1);
    assert!(pool.allocate("a".to_string(), 1).is_ok());
    assert!(pool.allocate("b".to_string(), 2).is_err());
    assert!(pool.deallocate("a").is_some());
    assert_eq!(pool.capacity(), 1);
}

#[test]
fn stamped_allocation_stores_given_tag_and_time() {
    let mut pool = MemoryPool::new(1);
    assert_eq!(pool.allocate_stamped("k".to_string(), 4, "tag-k".to_string(), 99), Ok(()));
    assert_eq!(
        pool.allocate_stamped("j".to_string(), 5, "tag-j".to_string(), 100),
        Err(CAPACITY_EXCEEDED)
    );
    assert_eq!(pool.allocate_stamped("k".to_string(), 6, "again".to_string(), 101), Err(CAPACITY_EXCEEDED));
    let mut block = pool.deallocate("k").expect("block under k");
    assert_eq!(block.get_metrics(), (99, 0));
    assert_eq!(block.signature(), "tag-k");
    assert_eq!(block.access(|v| *v), 4);
    assert_eq!(pool.len(), 0);
}

#[test]
fn clock_error_differs_from_capacity_error() {
    assert_eq!(CLOCK_BEFORE_EPOCH, "System clock reads before the Unix epoch");
    assert_ne!(CLOCK_BEFORE_EPOCH, CAPACITY_EXCEEDED);
}
