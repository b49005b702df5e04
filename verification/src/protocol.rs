use vstd::prelude::*;
use crate::queue::ClipboardItem;

verus! {

/// The number of starred items that one page lists when no page size is given.
pub const STARRED_PAGE_SIZE: usize = 50;

/// What a page of starred items shows of one of them.
#[derive(Debug, Clone)]
pub struct StarredMetadata {
    pub id: u128,
    pub preview: String,
    pub size_bytes: usize,
    pub from: Option<String>,
}

/// The request that one node sends another: a clipboard text.
#[derive(Debug, Clone)]
pub struct ClipboardRequest {
    pub text: String,
}

/// The answer to a `ClipboardRequest`: whether the text was queued, and why not.
#[derive(Debug, Clone)]
pub struct ClipboardResponse {
    pub ack: bool,
    pub reason: Option<String>,
}

/// Events that the node reports to its user interface.
#[derive(Debug, Clone)]
pub enum NetworkEvent {
    ListeningOn(String),
    PeerDiscovered(String),
    PeerExpired(String),
    PeerConnected(String),
    PeerDisconnected(String),
    PeerUnreachable(String),
    MessageSent { text: String },
    MessageReceived {
        from: String,
        text: String,
        queue_was_empty: bool,
        queue_len: usize,
        queue_bytes: usize,
    },
    DeliveryFailed { peer: String, reason: String },
    QueueRejected { reason: String },
    QueueItemDismissed { dismissed: ClipboardItem, next: Option<ClipboardItem> },
    QueueItemStarred { starred: ClipboardItem, next: Option<ClipboardItem> },
    QueuePendingList { items: Vec<ClipboardItem> },
    QueueItemUnstarred { id: u128 },
    StarredPageLoaded { items: Vec<StarredMetadata>, offset: usize },
    StarredTextLoaded { id: u128, text: String },
    DatabaseError(String),
    QueueEmpty,
    NetworkError { peer: String, error: String },
    List {
        listen_addresses: Vec<String>,
        discovered_peers: Vec<(String, Vec<String>)>,
        connected_peers: Vec<String>,
    },
}

/// Commands that the user interface gives the node.
#[derive(Debug, Clone)]
pub enum NetworkCommand {
    BroadcastText(String),
    SendTextTo { target_peer_id: String, text: String },
    DismissCurrent,
    StarCurrent,
    ListPending,
    Unstar(u128),
    LoadStarredPage { limit: usize, offset: usize },
    GetFullStarredText(u128),
    List,
}

/// The command that lists the first page of starred items.
pub fn first_starred_page() -> (command: NetworkCommand)
    ensures
        command == (NetworkCommand::LoadStarredPage { limit: STARRED_PAGE_SIZE, offset: 0 }),
{
    NetworkCommand::LoadStarredPage { limit: STARRED_PAGE_SIZE, offset: 0 }
}

} // verus!
