use block_pool::SafeBlock;

#[test]
fn new_block_keeps_tag_and_starts_uncounted() {
    let block = SafeBlock::new(3u8, "tag-1".to_string()).expect("clock after the Unix epoch");
    assert_eq!(block.signature(), "tag-1");
    let (timestamp, count) = block.get_metrics();
    assert_eq!(count, 0);
    assert!(timestamp > 0);
}

#[test]
fn access_accumulates_payload() {
    let mut block = SafeBlock::new(0, "t".to_string()).expect("clock after the Unix epoch");
    for _ in 0..3 {
        block.access(|v| *v += 5);
    }
    assert_eq!(block.get_metrics().1, 3);
    assert_eq!(block.access(|v| *v), 15);
    assert_eq!(block.get_metrics().1, 4);
}

#[test]
fn access_count_tracks_calls() {
    let mut block = SafeBlock::new(String::new(), "t".to_string()).expect("clock after the Unix epoch");
    for n in 1..=6usize {
        block.access(|_| ());
        assert_eq!(block.get_metrics().1, n);
    }
}

#[test]
fn timestamp_stays_across_accesses() {
    let mut block = SafeBlock::new(vec![1u32], "t".to_string()).expect("clock after the Unix epoch");
    let (before, _) = block.get_metrics();
    for i in 0..10u32 {
        let len = block.access(|v| {
            v.push(i);
            v.len()
        });
        assert_eq!(len, i as usize + 2);
        assert_eq!(block.get_metrics().0, before);
    }
}

#[test]
fn access_returns_mutator_result() {
    let mut block = SafeBlock::new(10i64, "t".to_string()).expect("clock after the Unix epoch");
    let doubled = block.access(|v| {
        *v *= 2;
        *v + 1
    });
    assert_eq!(doubled, 21);
    assert_eq!(block.access(|v| *v), 20);
}

#[test]
fn clones_share_payload_but_count_apart() {
    let mut first = SafeBlock::new(1, "t".to_string()).expect("clock after the Unix epoch");
    let mut second = first.clone();
    second.access(|v| *v += 1);
    second.access(|v| *v += 1);
    assert_eq!(first.access(|v| *v), 3);
    assert_eq!(first.get_metrics().1, 1);
    assert_eq!(second.get_metrics().1, 2);
    assert_eq!(first.get_metrics().0, second.get_metrics().0);
    assert_eq!(second.signature(), "t");
}

#[test]
fn block_with_timestamp_is_stamped_as_given() {
    let mut block = SafeBlock::with_timestamp(7u16, "stamped".to_string(), 1_700_000_000);
    assert_eq!(block.get_metrics(), (1_700_000_000, 0));
    assert_eq!(block.signature(), "stamped");
    assert_eq!(block.access(|v| *v), 7);
    assert_eq!(block.get_metrics(), (1_700_000_000, 1));
}
