use nexus::ring_buffer::RingBuffer;
use nexus::utils::ring_buffer::RingBuffer as NamedRingBuffer;
use nexus::utils::ring_map::RingMap;

#[test]
fn ring_buffer_keeps_latest_newest_first() {
    let mut rb: RingBuffer<u64> = RingBuffer::new(3);
    assert!(rb.is_empty());
    for x in 1..=5u64 {
        rb.push(x);
    }
    assert!(rb.full());
    assert_eq!(rb.len(), 3);
    assert_eq!(rb.take(), vec![5, 4, 3]);
    assert!(rb.is_empty());
    assert_eq!(rb.capacity, 3);
}

#[test]
fn ring_buffer_below_capacity_keeps_all() {
    let mut rb: RingBuffer<i32> = RingBuffer::new(4);
    rb.push(-1);
    rb.push(2);
    assert!(!rb.full());
    assert_eq!(rb.len(), 2);
    assert_eq!(rb.take(), vec![2, -1]);
}

#[test]
fn ring_buffer_zero_capacity_still_holds_the_last_push() {
    let mut rb: RingBuffer<u8> = RingBuffer::new(0);
    rb.push(7);
    rb.push(8);
    assert_eq!(rb.len(), 2);
    assert_eq!(rb.take(), vec![8, 7]);
}

#[test]
fn named_ring_buffer_orders() {
    let mut rb: NamedRingBuffer<u32> = NamedRingBuffer::new(3, "bars".to_string());
    assert!(rb.front().is_none());
    for x in [10u32, 20, 30, 40] {
        rb.push(x);
    }
    assert_eq!(rb.front(), Some(&40));
    assert_eq!(rb.vec(), vec![20, 30, 40]);
    assert_eq!(rb.rev_vec(), vec![40, 30, 20]);
    assert_eq!(rb.find(|x| *x < 35), Some(&30));
    assert_eq!(rb.find(|x| *x > 100), None);
    assert!(rb.full());
    assert_eq!(rb.id, "bars");
    assert_eq!(rb.take(), vec![40, 30, 20]);
    assert!(rb.is_empty());
    assert_eq!(rb.len(), 0);
}

#[test]
fn ring_map_reads_what_was_written() {
    let mut m: RingMap<u64, &str> = RingMap::new(2);
    assert!(m.is_empty());
    m.insert(1, "a");
    m.insert(2, "b");
    assert_eq!(m.get(&1), Some(&"a"));
    assert_eq!(m.get(&2), Some(&"b"));
    assert_eq!(m.newest(), Some((&2, &"b")));
    // updating a key keeps its place
    m.insert(1, "c");
    assert_eq!(m.get(&1), Some(&"c"));
    assert_eq!(m.key_values(), vec![(&1, &"c"), (&2, &"b")]);
    assert_eq!(m.newest(), Some((&2, &"b")));
}

#[test]
fn ring_map_evicts_oldest_when_full() {
    let mut m: RingMap<u64, u64> = RingMap::new(2);
    m.insert(10, 100);
    m.insert(20, 200);
    m.insert(30, 300);
    assert_eq!(m.len(), 2);
    assert_eq!(m.get(&10), None);
    assert_eq!(m.values(), vec![&200, &300]);
    assert_eq!(m.newest(), Some((&30, &300)));
}

#[test]
fn ring_map_remove_keeps_order() {
    let mut m: RingMap<u64, u64> = RingMap::new(3);
    m.insert(1, 11);
    m.insert(2, 22);
    m.insert(3, 33);
    assert_eq!(m.remove(&2), Some(22));
    assert_eq!(m.remove(&2), None);
    assert_eq!(m.get(&2), None);
    assert_eq!(m.len(), 2);
    assert_eq!(m.key_values(), vec![(&1, &11), (&3, &33)]);
    m.insert(4, 44);
    assert_eq!(m.len(), 3);
    assert_eq!(m.get(&1), Some(&11));
}
