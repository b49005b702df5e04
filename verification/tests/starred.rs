use bored_node::queue::ClipboardItem;
use bored_node::starred::{metadata_from_row, parse_starred_key, plan_insert, starred_key, starred_row, MAX_STARRED_ITEMS};

#[test]
fn insert_allowed_below_limit() {
    let item = ClipboardItem::with_id(1_700_000_000_123_456_789, "note".to_string(), Some("peer".to_string()));
    let row = plan_insert(MAX_STARRED_ITEMS - 1, &item).unwrap();
    assert_eq!(row.key, "1700000000123456789");
    assert_eq!(row.text, "note");
    assert_eq!(row.size_bytes, 4);
    assert_eq!(row.from_peer.as_deref(), Some("peer"));
    assert_eq!(row.created_at, 1_700_000_000_123);
}

#[test]
fn insert_refused_at_limit() {
    let item = ClipboardItem::with_id(5, "x".to_string(), None);
    assert_eq!(plan_insert(999, &item).unwrap_err(), "starred item limit reached (999)");
    assert!(plan_insert(1000, &item).is_err());
    assert!(plan_insert(0, &item).is_ok());
}

#[test]
fn starred_key_reads_back() {
    for id in [0u128, 1, 1_700_000_000_000_000_000, u128::MAX] {
        assert_eq!(starred_key(id), id.to_string());
        assert_eq!(parse_starred_key(&starred_key(id)), Some(id));
    }
}

#[test]
fn row_created_at_is_milliseconds() {
    let item = ClipboardItem::with_id(2_500_000, "t".to_string(), None);
    let row = starred_row(&item);
    assert_eq!(row.created_at, 2);
    assert!(row.from_peer.is_none());
}

#[test]
fn metadata_from_rows() {
    let meta = metadata_from_row("123", "pre".to_string(), 10, Some("p".to_string())).unwrap();
    assert_eq!(meta.id, 123);
    assert_eq!(meta.preview, "pre");
    assert_eq!(meta.size_bytes, 10);
    assert_eq!(meta.from.as_deref(), Some("p"));
    assert!(metadata_from_row("abc", "pre".to_string(), 10, None).is_none());
}
