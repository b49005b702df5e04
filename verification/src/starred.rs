use vstd::prelude::*;
use crate::protocol::StarredMetadata;
use crate::queue::ClipboardItem;
use crate::text::{decimal, decimal_string, parse_u128, parse_u128_spec};

verus! {

/// The most items that the starred store keeps.
pub const MAX_STARRED_ITEMS: i64 = 999;

/// The text of the error given when the starred store is full.
pub open spec fn starred_full_message() -> Seq<char> {
    "starred item limit reached (999)"@
}

/// The key under which an item is stored: the decimal text of its id.
pub open spec fn starred_key_spec(id: u128) -> Seq<char> {
    decimal(id as nat)
}

/// The stored creation time of an item, in milliseconds: its id (nanoseconds
/// since the Unix epoch) divided by a million, cast to `i64`.
pub open spec fn created_at_spec(id: u128) -> i64 {
    (id / 1_000_000) as i64
}

/// The columns of one stored starred item.
#[derive(Debug)]
pub struct StarredRow {
    pub key: String,
    pub text: String,
    pub size_bytes: i64,
    pub from_peer: Option<String>,
    pub created_at: i64,
}

/// The key under which an item with identifier `id` is stored.
pub fn starred_key(id: u128) -> (key: String)
    ensures
        key@ == starred_key_spec(id),
{
    decimal_string(id)
}

/// The identifier that a stored key names, if it is the decimal text of one.
pub fn parse_starred_key(key: &str) -> (id: Option<u128>)
    ensures
        id == parse_u128_spec(key@),
{
    parse_u128(key)
}

/// The row that stores `item`.
pub fn starred_row(item: &ClipboardItem) -> (row: StarredRow)
    ensures
        row.key@ == starred_key_spec(item.id),
        row.text == item.text,
        row.size_bytes == item.size_bytes as i64,
        row.from_peer == item.from,
        row.created_at == created_at_spec(item.id),
{
    let from_peer = match &item.from {
        Some(peer) => Some(peer.clone()),
        None => None,
    };
    StarredRow {
        key: starred_key(item.id),
        text: item.text.clone(),
        size_bytes: item.size_bytes as i64,
        from_peer,
        created_at: (item.id / 1_000_000) as i64,
    }
}

/// Decides whether `item` may be stored when the store already holds `count`
/// items: it may while fewer than `MAX_STARRED_ITEMS` are stored, and then
/// the row to write is `starred_row(item)`.
pub fn plan_insert(count: i64, item: &ClipboardItem) -> (plan: Result<StarredRow, String>)
    ensures
        plan is Ok <==> count < MAX_STARRED_ITEMS,
        plan matches Err(message) ==> message@ == starred_full_message(),
        plan matches Ok(row) ==> {
            &&& row.key@ == starred_key_spec(item.id)
            &&& row.text == item.text
            &&& row.size_bytes == item.size_bytes as i64
            &&& row.from_peer == item.from
            &&& row.created_at == created_at_spec(item.id)
        },
{
    if count >= MAX_STARRED_ITEMS {
        return Err("starred item limit reached (999)".to_owned());
    }
    Ok(starred_row(item))
}

/// The metadata of a stored item from the columns read back: `None` when the
/// key is not the decimal text of an identifier.
pub fn metadata_from_row(key: &str, preview: String, size_bytes: i64, from: Option<String>) -> (meta:
    Option<StarredMetadata>)
    ensures
        meta is None <==> parse_u128_spec(key@) is None,
        meta matches Some(m) ==> {
            &&& Some(m.id) == parse_u128_spec(key@)
            &&& m.preview == preview
            &&& m.size_bytes == size_bytes as usize
            &&& m.from == from
        },
{
    match parse_starred_key(key) {
        Some(id) => Some(StarredMetadata { id, preview, size_bytes: size_bytes as usize, from }),
        None => None,
    }
}

/// Law: the key of a stored item reads back as the item's identifier.
pub proof fn law_starred_key_roundtrip(id: u128)
    ensures
        parse_u128_spec(starred_key_spec(id)) == Some(id),
{
    crate::text::law_decimal_roundtrip(id);
}

} // verus!
