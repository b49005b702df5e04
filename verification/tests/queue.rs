use bored_node::queue::{ClipboardItem, ClipboardQueue, QueueError, MAX_QUEUE_BYTES, MAX_QUEUE_ITEMS};

#[test]
fn test_push_respects_count_limit() {
    let mut queue = ClipboardQueue::default();

    for i in 0..MAX_QUEUE_ITEMS {
        queue.push(format!("item-{i}")).unwrap();
    }

    assert_eq!(queue.pending.len(), MAX_QUEUE_ITEMS);
    assert_eq!(
        queue.push("overflow".to_string()),
        Err(QueueError::QueueFull)
    );
    assert_eq!(queue.pending.len(), MAX_QUEUE_ITEMS);
}

#[test]
fn test_push_respects_memory_limit() {
    let mut queue = ClipboardQueue::default();
    let chunk_size = 200_000_000; // 200MB chunks
    let chunk = "A".repeat(chunk_size);

    // Push 2 chunks (count = 2, total bytes = 400,000,000)
    queue.push(chunk.clone()).unwrap();
    queue.push(chunk.clone()).unwrap();

    assert_eq!(queue.current_bytes, MAX_QUEUE_BYTES);
    assert_eq!(queue.pending.len(), 2);

    let before = queue.current_bytes;
    // Error should be returned because the queue is full in terms of bytes
    assert_eq!(queue.push("A".repeat(1)), Err(QueueError::QueueFull));
    assert_eq!(queue.current_bytes, before);
}

#[test]
fn test_triage_frees_space() {
    let mut queue = ClipboardQueue::default();
    for i in 0..MAX_QUEUE_ITEMS {
        queue.push(format!("item-{i}")).unwrap();
    }

    let _ = queue.next();
    assert_eq!(queue.pending.len(), MAX_QUEUE_ITEMS - 1);
    assert!(queue.push("replacement".to_string()).is_ok());
}

#[test]
fn test_star_current_moves_item() {
    let mut queue = ClipboardQueue::default();
    let text = "important".to_string();

    queue.push(text.clone()).unwrap();
    let starred_item = queue.star_current().unwrap();

    assert!(queue.pending.is_empty());
    assert_eq!(starred_item.text, text);
    assert_eq!(queue.current_bytes, 0);
}

#[test]
fn test_next_reduces_bytes() {
    let mut queue = ClipboardQueue::default();
    let payload = "A".repeat(1_000_000);

    queue.push(payload).unwrap();
    assert_eq!(queue.current_bytes, 1_000_000);

    let _ = queue.next();
    assert!(queue.pending.is_empty());
    assert_eq!(queue.current_bytes, 0);
}

#[test]
fn test_peek_does_not_remove() {
    let mut queue = ClipboardQueue::default();
    queue.push("Safe Item".to_string()).unwrap();

    // Peeking should leave the item in the queue
    let peeked = queue.peek_current().cloned();
    assert!(peeked.is_some());
    assert_eq!(queue.pending.len(), 1);

    // Starring should remove it
    let starred = queue.star_current();
    assert!(starred.is_some());
    assert_eq!(queue.pending.len(), 0);
}

#[test]
fn queue_items_leave_in_arrival_order() {
    let mut queue = ClipboardQueue::default();
    queue.push_stamped(1, "first".to_string(), None).unwrap();
    queue.push_stamped(2, "second".to_string(), Some("peer-a".to_string())).unwrap();
    let first = queue.next().unwrap();
    assert_eq!(first.id, 1);
    assert_eq!(first.text, "first");
    let second = queue.next().unwrap();
    assert_eq!(second.id, 2);
    assert_eq!(second.from.as_deref(), Some("peer-a"));
    assert!(queue.next().is_none());
    assert_eq!(queue.current_bytes, 0);
}

#[test]
fn queue_counts_utf8_bytes() {
    let mut queue = ClipboardQueue::default();
    queue.push("héllo".to_string()).unwrap();
    assert_eq!(queue.current_bytes, 6);
    assert_eq!(queue.pending[0].size_bytes, 6);
}

#[test]
fn queue_accepts_exactly_up_to_byte_limit() {
    let mut queue = ClipboardQueue::default();
    queue.push("A".repeat(MAX_QUEUE_BYTES - 1)).unwrap();
    assert!(queue.push("B".to_string()).is_ok());
    assert_eq!(queue.current_bytes, MAX_QUEUE_BYTES);
    assert_eq!(queue.push(String::new()), Ok(()));
    assert_eq!(queue.push("C".to_string()), Err(QueueError::QueueFull));
}

#[test]
fn queue_refusal_leaves_queue_untouched() {
    let mut queue = ClipboardQueue::default();
    for i in 0..MAX_QUEUE_ITEMS {
        queue.push_stamped(i as u128, format!("x{i}"), None).unwrap();
    }
    let bytes = queue.current_bytes;
    assert_eq!(queue.push_stamped(99, "y".to_string(), None), Err(QueueError::QueueFull));
    assert_eq!(queue.current_bytes, bytes);
    assert_eq!(queue.pending.len(), MAX_QUEUE_ITEMS);
    assert_eq!(queue.pending[MAX_QUEUE_ITEMS - 1].id, (MAX_QUEUE_ITEMS - 1) as u128);
}

#[test]
fn queue_empty_operations_return_nothing() {
    let mut queue = ClipboardQueue::default();
    assert!(queue.peek_current().is_none());
    assert!(queue.next().is_none());
    assert!(queue.star_current().is_none());
    assert_eq!(queue.current_bytes, 0);
    assert!(queue.list_all().is_empty());
}

#[test]
fn queue_list_all_is_front_first() {
    let mut queue = ClipboardQueue::default();
    queue.push_stamped(5, "a".to_string(), None).unwrap();
    queue.push_stamped(6, "b".to_string(), None).unwrap();
    let items = queue.list_all();
    assert_eq!(items.len(), 2);
    assert_eq!(items[0].id, 5);
    assert_eq!(items[1].text, "b");
    assert_eq!(queue.pending.len(), 2);
}

#[test]
fn queue_error_message() {
    assert_eq!(QueueError::QueueFull.message(), "queue full");
}

#[test]
fn item_records_text_size_and_time() {
    let item = ClipboardItem::new_with_source("ab€".to_string(), Some("p".to_string()));
    assert_eq!(item.size_bytes, 5);
    assert_eq!(item.from.as_deref(), Some("p"));
    assert!(item.id > 0);
    let plain = ClipboardItem::new("x".to_string());
    assert!(plain.from.is_none());
    let fixed = ClipboardItem::with_id(42, "xyz".to_string(), None);
    assert_eq!(fixed.id, 42);
    assert_eq!(fixed.size_bytes, 3);
    let copy = fixed.clone();
    assert_eq!(copy.id, 42);
    assert_eq!(copy.text, "xyz");
}
