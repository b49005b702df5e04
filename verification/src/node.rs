use vstd::prelude::*;
use crate::peer_id::{is_valid_peer_id, peer_id_parses};
use crate::protocol::{ClipboardRequest, ClipboardResponse, NetworkCommand, NetworkEvent, StarredMetadata};
use crate::queue::{law_take_makes_room, text_size, ClipboardItem, ClipboardQueue, QueueView};

verus! {

/// What the node asks its surroundings to do, in the order given.
#[derive(Debug)]
pub enum Action {
    /// Report an event to the user interface.
    Emit(NetworkEvent),
    /// Send a clipboard request to a peer.
    SendRequest { peer: String, request: ClipboardRequest },
    /// Answer the request that is being handled.
    Respond(ClipboardResponse),
    /// Tell the transport at which address a peer can be reached.
    AddPeerAddress { peer: String, address: String },
    /// Store an item among the starred ones, and report back how that went.
    StoreStarred(ClipboardItem),
    /// Read a page of starred items.
    QueryStarredPage { limit: usize, offset: usize },
    /// Delete a starred item.
    DeleteStarred(u128),
    /// Read the full text of a starred item.
    FetchStarredText(u128),
    /// Gather the connected peers and hand them to `NodeState::status`.
    ReportStatus,
}

/// A peer found on the local network, with the addresses it was seen at.
struct KnownPeer {
    peer_id: String,
    addresses: Vec<String>,
}

/// The abstract form of a known peer: its identifier and its addresses.
pub struct PeerRecord {
    pub id: String,
    pub addrs: Seq<Seq<char>>,
}

/// The text of each string in `v`.
pub open spec fn texts(v: Seq<String>) -> Seq<Seq<char>> {
    v.map_values(|s: String| s@)
}

impl KnownPeer {
    spec fn record(&self) -> PeerRecord {
        PeerRecord { id: self.peer_id, addrs: texts(self.addresses@) }
    }
}

/// The abstract state of a node: its queue, the addresses it listens on, and
/// the peers it knows of.
pub struct NodeView {
    pub queue: QueueView,
    pub listening: Seq<Seq<char>>,
    pub peers: Seq<PeerRecord>,
}

/// Whether some known peer has the identifier `id`.
pub open spec fn knows_peer(peers: Seq<PeerRecord>, id: Seq<char>) -> bool {
    exists|i: int| 0 <= i < peers.len() && peers[i].id@ == id
}

/// The position of the known peer with identifier `id`.
pub open spec fn peer_position(peers: Seq<PeerRecord>, id: Seq<char>) -> int {
    choose|i: int| 0 <= i < peers.len() && peers[i].id@ == id
}

/// The peer table's invariant: identifiers are distinct, and every peer has at
/// least one address, none twice.
pub open spec fn peers_wf(peers: Seq<PeerRecord>) -> bool {
    &&& forall|i: int, j: int|
        0 <= i < peers.len() && 0 <= j < peers.len() && i != j ==> #[trigger] peers[i].id@
            != #[trigger] peers[j].id@
    &&& forall|i: int|
        0 <= i < peers.len() ==> #[trigger] peers[i].addrs.len() > 0
            && peers[i].addrs.no_duplicates()
}

/// The peers after `peer` is announced at `address`: a new peer is added with
/// that one address; a known one gains the address unless it has it already.
pub open spec fn after_discovery(peers: Seq<PeerRecord>, peer: String, address: String) -> Seq<
    PeerRecord,
> {
    if !knows_peer(peers, peer@) {
        peers.push(PeerRecord { id: peer, addrs: seq![address@] })
    } else {
        let i = peer_position(peers, peer@);
        if peers[i].addrs.contains(address@) {
            peers
        } else {
            peers.update(i, PeerRecord { id: peers[i].id, addrs: peers[i].addrs.push(address@) })
        }
    }
}

/// What the node does when `peer` is announced at `address`: it tells the
/// transport of the address, and reports the peer if it was not known.
pub open spec fn discovery_actions(peers: Seq<PeerRecord>, peer: String, address: String) -> Seq<
    Action,
> {
    seq![Action::AddPeerAddress { peer, address }] + if knows_peer(peers, peer@) {
        Seq::<Action>::empty()
    } else {
        seq![Action::Emit(NetworkEvent::PeerDiscovered(peer))]
    }
}

/// The peers after each announcement of `list`, in order.
pub open spec fn discover_all(peers: Seq<PeerRecord>, list: Seq<(String, String)>) -> Seq<
    PeerRecord,
>
    decreases list.len(),
{
    if list.len() == 0 {
        peers
    } else {
        after_discovery(discover_all(peers, list.drop_last()), list.last().0, list.last().1)
    }
}

/// What the node does for each announcement of `list`, in order.
pub open spec fn discover_all_actions(peers: Seq<PeerRecord>, list: Seq<(String, String)>) -> Seq<
    Action,
>
    decreases list.len(),
{
    if list.len() == 0 {
        Seq::empty()
    } else {
        discover_all_actions(peers, list.drop_last()) + discovery_actions(
            discover_all(peers, list.drop_last()),
            list.last().0,
            list.last().1,
        )
    }
}

/// The addresses that a known `peer` keeps when `address` expires.
pub open spec fn remaining_addrs(peers: Seq<PeerRecord>, peer: Seq<char>, address: Seq<char>) -> Seq<
    Seq<char>,
> {
    let addrs = peers[peer_position(peers, peer)].addrs;
    if addrs.contains(address) {
        addrs.remove(addrs.index_of(address))
    } else {
        addrs
    }
}

/// The peers after the address `address` of `peer` expires: the address is
/// dropped, and the peer too when that was its last address.
pub open spec fn after_expiry(peers: Seq<PeerRecord>, peer: String, address: String) -> Seq<
    PeerRecord,
> {
    if !knows_peer(peers, peer@) {
        peers
    } else {
        let i = peer_position(peers, peer@);
        let rest = remaining_addrs(peers, peer@, address@);
        if rest.len() == 0 {
            peers.remove(i)
        } else {
            peers.update(i, PeerRecord { id: peers[i].id, addrs: rest })
        }
    }
}

/// What the node does when an address of `peer` expires: it reports the peer
/// as gone when that was its last address.
pub open spec fn expiry_actions(peers: Seq<PeerRecord>, peer: String, address: String) -> Seq<
    Action,
> {
    if knows_peer(peers, peer@) && remaining_addrs(peers, peer@, address@).len() == 0 {
        seq![Action::Emit(NetworkEvent::PeerExpired(peer))]
    } else {
        Seq::empty()
    }
}

/// The peers after each expiry of `list`, in order.
pub open spec fn expire_all(peers: Seq<PeerRecord>, list: Seq<(String, String)>) -> Seq<PeerRecord>
    decreases list.len(),
{
    if list.len() == 0 {
        peers
    } else {
        after_expiry(expire_all(peers, list.drop_last()), list.last().0, list.last().1)
    }
}

/// What the node does for each expiry of `list`, in order.
pub open spec fn expire_all_actions(peers: Seq<PeerRecord>, list: Seq<(String, String)>) -> Seq<
    Action,
>
    decreases list.len(),
{
    if list.len() == 0 {
        Seq::empty()
    } else {
        expire_all_actions(peers, list.drop_last()) + expiry_actions(
            expire_all(peers, list.drop_last()),
            list.last().0,
            list.last().1,
        )
    }
}

/// The front item of a queue, if any.
pub open spec fn front(queue: QueueView) -> Option<ClipboardItem> {
    if queue.items.len() > 0 {
        Some(queue.items[0])
    } else {
        None
    }
}

/// A request carrying `text` to every known peer, in table order.
pub open spec fn requests_to_all(peers: Seq<PeerRecord>, text: String) -> Seq<Action> {
    peers.map_values(|p: PeerRecord| Action::SendRequest { peer: p.id, request: ClipboardRequest { text } })
}

/// Whether `action` reports a network error about `peer` with the text `error`.
pub open spec fn is_network_error(action: Action, peer: Seq<char>, error: Seq<char>) -> bool {
    action matches Action::Emit(NetworkEvent::NetworkError { peer: p, error: e }) && p@ == peer
        && e@ == error
}

/// Whether `action` reports a database error with the text `message`.
pub open spec fn is_database_error(action: Action, message: Seq<char>) -> bool {
    action matches Action::Emit(NetworkEvent::DatabaseError(m)) && m@ == message
}

/// Broadcasting `text`: an error when no peer is known, else the text is
/// reported as sent and a request goes to every known peer.
pub open spec fn broadcast_result(pre: NodeView, text: String, actions: Seq<Action>) -> bool {
    if pre.peers.len() == 0 {
        actions.len() == 1 && is_network_error(
            actions[0],
            "broadcast"@,
            "no peers discovered on the LAN"@,
        )
    } else {
        actions == seq![Action::Emit(NetworkEvent::MessageSent { text })] + requests_to_all(
            pre.peers,
            text,
        )
    }
}

/// Sending `text` to `target`, given whether `target` is a valid peer id.
pub open spec fn send_to_result(target: String, text: String, valid: bool, actions: Seq<Action>) -> bool {
    if valid {
        actions == seq![
            Action::Emit(NetworkEvent::MessageSent { text }),
            Action::SendRequest { peer: target, request: ClipboardRequest { text } },
        ]
    } else {
        &&& actions.len() == 1
        &&& actions[0] matches Action::Emit(NetworkEvent::NetworkError { peer: p, error: e }) && p
            == target && e@ == "invalid peer id"@
    }
}

/// Dismissing the front item: it leaves the queue and is reported with the
/// item that follows it; an empty queue is reported as such.
pub open spec fn dismiss_result(pre: NodeView, post: NodeView, actions: Seq<Action>) -> bool {
    if pre.queue.items.len() == 0 {
        post == pre && actions == seq![Action::Emit(NetworkEvent::QueueEmpty)]
    } else {
        &&& post == (NodeView { queue: pre.queue.popped(), ..pre })
        &&& actions == seq![
            Action::Emit(
                NetworkEvent::QueueItemDismissed {
                    dismissed: pre.queue.items[0],
                    next: front(pre.queue.popped()),
                },
            ),
        ]
    }
}

/// Starring the front item: it is handed to the starred store (and stays in
/// the queue until the store has kept it); an empty queue is reported.
pub open spec fn star_result(pre: NodeView, actions: Seq<Action>) -> bool {
    if pre.queue.items.len() == 0 {
        actions == seq![Action::Emit(NetworkEvent::QueueEmpty)]
    } else {
        actions == seq![Action::StoreStarred(pre.queue.items[0])]
    }
}

/// Listing the queue: all pending items, front first.
pub open spec fn pending_list_result(pre: NodeView, actions: Seq<Action>) -> bool {
    &&& actions.len() == 1
    &&& actions[0] matches Action::Emit(NetworkEvent::QueuePendingList { items }) && items@
        == pre.queue.items
}

/// What a command does to the state and what it asks for, given whether the
/// target of a `SendTextTo` is a valid peer id.
pub open spec fn command_result(
    pre: NodeView,
    command: NetworkCommand,
    target_valid: bool,
    post: NodeView,
    actions: Seq<Action>,
) -> bool {
    match command {
        NetworkCommand::BroadcastText(text) => post == pre && broadcast_result(pre, text, actions),
        NetworkCommand::SendTextTo { target_peer_id, text } => post == pre && send_to_result(
            target_peer_id,
            text,
            target_valid,
            actions,
        ),
        NetworkCommand::DismissCurrent => dismiss_result(pre, post, actions),
        NetworkCommand::StarCurrent => post == pre && star_result(pre, actions),
        NetworkCommand::ListPending => post == pre && pending_list_result(pre, actions),
        NetworkCommand::Unstar(id) => post == pre && actions == seq![Action::DeleteStarred(id)],
        NetworkCommand::LoadStarredPage { limit, offset } => post == pre && actions == seq![
            Action::QueryStarredPage { limit, offset },
        ],
        NetworkCommand::GetFullStarredText(id) => post == pre && actions == seq![
            Action::FetchStarredText(id),
        ],
        NetworkCommand::List => post == pre && actions == seq![Action::ReportStatus],
    }
}

/// Whether `listed` shows each known peer, in table order, with its addresses.
pub open spec fn lists_peers(peers: Seq<PeerRecord>, listed: Seq<(String, Vec<String>)>) -> bool {
    &&& listed.len() == peers.len()
    &&& forall|i: int|
        0 <= i < peers.len() ==> #[trigger] listed[i].0 == peers[i].id && texts(listed[i].1@)
            == peers[i].addrs
}

/// How the starred store answered a request to keep an item.
#[derive(Debug)]
pub enum StoreOutcome {
    /// The item is kept.
    Stored,
    /// The store refused it, with this reason.
    Refused(String),
    /// The request never reached the store.
    NotSent,
    /// The store dropped the request without answering.
    Dropped,
}

/// What the node does once the starred store has answered: a kept item leaves
/// the queue and is reported with the item that follows; otherwise the queue
/// stays as it was and a database error is reported.
pub open spec fn store_outcome_result(
    pre: NodeView,
    outcome: StoreOutcome,
    post: NodeView,
    actions: Seq<Action>,
) -> bool {
    match outcome {
        StoreOutcome::Stored => {
            &&& post == (NodeView { queue: pre.queue.popped(), ..pre })
            &&& actions == seq![
                Action::Emit(
                    NetworkEvent::QueueItemStarred {
                        starred: pre.queue.items[0],
                        next: front(pre.queue.popped()),
                    },
                ),
            ]
        },
        StoreOutcome::Refused(reason) => post == pre && actions == seq![
            Action::Emit(NetworkEvent::DatabaseError(reason)),
        ],
        StoreOutcome::NotSent => post == pre && actions.len() == 1 && is_database_error(
            actions[0],
            "Failed to send insert command to DB"@,
        ),
        StoreOutcome::Dropped => post == pre && actions.len() == 1 && is_database_error(
            actions[0],
            "DB thread dropped request"@,
        ),
    }
}

/// Whether `action` answers a request as refused because the queue is full.
pub open spec fn is_refusal(action: Action) -> bool {
    action matches Action::Respond(r) && !r.ack && (r.reason matches Some(why) && why@
        == "queue full"@)
}

/// A text from `peer` arrives: it joins the back of the queue when there is
/// room, is reported with the queue's new length and size, and is answered
/// with an acknowledgement; else the queue stays as it was, the refusal is
/// reported, and the answer says that the queue is full.
pub open spec fn request_result(
    pre: NodeView,
    peer: String,
    request: ClipboardRequest,
    post: NodeView,
    actions: Seq<Action>,
) -> bool {
    if pre.queue.has_room(text_size(request.text@) as int) {
        let item = post.queue.items.last();
        &&& post == (NodeView { queue: pre.queue.pushed(item), ..pre })
        &&& item.text == request.text
        &&& item.from == Some(peer)
        &&& item.wf()
        &&& actions == seq![
            Action::Emit(
                NetworkEvent::MessageReceived {
                    from: peer,
                    text: request.text,
                    queue_was_empty: pre.queue.items.len() == 0,
                    queue_len: post.queue.items.len() as usize,
                    queue_bytes: post.queue.bytes as usize,
                },
            ),
            Action::Respond(ClipboardResponse { ack: true, reason: None }),
        ]
    } else {
        &&& post == pre
        &&& actions.len() == 2
        &&& actions[0] matches Action::Emit(NetworkEvent::QueueRejected { reason }) && reason@
            == "queue full"@
        &&& is_refusal(actions[1])
    }
}

/// What a database reply turns into when it failed: the error's text, or a
/// note that the store dropped the request.
pub open spec fn is_failed_reply_event<T>(reply: DbReply<T>, event: NetworkEvent) -> bool {
    match reply {
        DbReply::Done(_) => false,
        DbReply::Failed(message) => event == NetworkEvent::DatabaseError(message),
        DbReply::Dropped => event matches NetworkEvent::DatabaseError(m) && m@
            == "DB thread dropped request"@,
    }
}

/// How the starred store answered a read or a delete.
#[derive(Debug)]
pub enum DbReply<T> {
    /// The operation succeeded with this value.
    Done(T),
    /// The operation failed with this error text.
    Failed(String),
    /// The store dropped the request without answering.
    Dropped,
}

fn failed_reply_event<T>(reply: DbReply<T>) -> (event: NetworkEvent)
    requires
        !(reply is Done),
    ensures
        is_failed_reply_event(reply, event),
{
    match reply {
        DbReply::Failed(message) => NetworkEvent::DatabaseError(message),
        _ => NetworkEvent::DatabaseError("DB thread dropped request".to_owned()),
    }
}

/// The event that reports a page of starred items read at `offset`.
pub fn starred_page_event(offset: usize, reply: DbReply<Vec<StarredMetadata>>) -> (event: NetworkEvent)
    ensures
        match reply {
            DbReply::Done(items) => event == (NetworkEvent::StarredPageLoaded { items, offset }),
            _ => is_failed_reply_event(reply, event),
        },
{
    match reply {
        DbReply::Done(items) => NetworkEvent::StarredPageLoaded { items, offset },
        _ => failed_reply_event(reply),
    }
}

/// The event that reports the deletion of the starred item `id`.
pub fn unstar_event(id: u128, reply: DbReply<()>) -> (event: NetworkEvent)
    ensures
        match reply {
            DbReply::Done(_) => event == (NetworkEvent::QueueItemUnstarred { id }),
            _ => is_failed_reply_event(reply, event),
        },
{
    match reply {
        DbReply::Done(_) => NetworkEvent::QueueItemUnstarred { id },
        _ => failed_reply_event(reply),
    }
}

/// The event that reports the full text of the starred item `id`.
pub fn starred_text_event(id: u128, reply: DbReply<String>) -> (event: NetworkEvent)
    ensures
        match reply {
            DbReply::Done(text) => event == (NetworkEvent::StarredTextLoaded { id, text }),
            _ => is_failed_reply_event(reply, event),
        },
{
    match reply {
        DbReply::Done(text) => NetworkEvent::StarredTextLoaded { id, text },
        _ => failed_reply_event(reply),
    }
}

impl NodeView {
    /// The node's invariant.
    pub open spec fn wf(self) -> bool {
        &&& self.queue.wf()
        &&& self.listening.no_duplicates()
        &&& peers_wf(self.peers)
    }
}

/// The state that the node's event loop keeps between events.
pub struct NodeState {
    queue: ClipboardQueue,
    listen_addresses: Vec<String>,
    peers: Vec<KnownPeer>,
}

impl View for NodeState {
    type V = NodeView;

    closed spec fn view(&self) -> NodeView {
        NodeView {
            queue: self.queue@,
            listening: texts(self.listen_addresses@),
            peers: self.peers@.map_values(|p: KnownPeer| p.record()),
        }
    }
}

/// Where `s` first occurs, by text, in `v`.
fn position_of(v: &Vec<String>, s: &String) -> (pos: Option<usize>)
    ensures
        match pos {
            Some(i) => i < v@.len() && v@[i as int]@ == s@ && forall|j: int|
                0 <= j < i ==> v@[j]@ != s@,
            None => forall|j: int| 0 <= j < v@.len() ==> v@[j]@ != s@,
        },
{
    let mut i: usize = 0;
    while i < v.len()
        invariant
            i <= v@.len(),
            forall|j: int| 0 <= j < i ==> v@[j]@ != s@,
        decreases v@.len() - i,
    {
        if v[i] == *s {
            return Some(i);
        }
        i = i + 1;
    }
    None
}

impl NodeState {
    /// The state of a node that has just started: an empty queue, no
    /// addresses, no peers.
    pub fn new() -> (state: Self)
        ensures
            state@ == (NodeView {
                queue: QueueView { items: Seq::empty(), bytes: 0 },
                listening: Seq::empty(),
                peers: Seq::empty(),
            }),
            state@.wf(),
    {
        let state = NodeState {
            queue: ClipboardQueue::default(),
            listen_addresses: Vec::new(),
            peers: Vec::new(),
        };
        assert(state@.listening =~= Seq::<Seq<char>>::empty());
        assert(state@.peers =~= Seq::<PeerRecord>::empty());
        state
    }

    /// The number of items waiting in the queue.
    pub fn pending_len(&self) -> (len: usize)
        ensures
            len == self@.queue.items.len(),
    {
        self.queue.pending.len()
    }

    /// A new listening address: reported the first time it is seen.
    pub fn on_new_listen_addr(&mut self, address: String) -> (actions: Vec<Action>)
        requires
            old(self)@.wf(),
        ensures
            final(self)@.wf(),
            if old(self)@.listening.contains(address@) {
                &&& final(self)@ == old(self)@
                &&& actions@ == Seq::<Action>::empty()
            } else {
                &&& final(self)@ == (NodeView {
                    listening: old(self)@.listening.push(address@),
                    ..old(self)@
                })
                &&& actions@ == seq![Action::Emit(NetworkEvent::ListeningOn(address))]
            },
    {
        let mut actions: Vec<Action> = Vec::new();
        match position_of(&self.listen_addresses, &address) {
            Some(i) => {
                assert(texts(self.listen_addresses@)[i as int] == address@);
            },
            None => {
                proof {
                    assert forall|j: int| 0 <= j < texts(self.listen_addresses@).len() implies
                        texts(self.listen_addresses@)[j] != address@ by {}
                }
                self.listen_addresses.push(address.clone());
                assert(texts(self.listen_addresses@) =~= texts(old(self).listen_addresses@).push(address@));
                actions.push(Action::Emit(NetworkEvent::ListeningOn(address)));
            },
        }
        actions
    }

    /// Where the peer with identifier `id` stands in the table.
    fn find_peer(&self, id: &String) -> (pos: Option<usize>)
        requires
            self@.wf(),
        ensures
            match pos {
                Some(i) => {
                    &&& knows_peer(self@.peers, id@)
                    &&& i == peer_position(self@.peers, id@)
                    &&& i < self@.peers.len()
                },
                None => !knows_peer(self@.peers, id@),
            },
    {
        let mut i: usize = 0;
        while i < self.peers.len()
            invariant
                i <= self.peers@.len(),
                self@.wf(),
                self@.peers.len() == self.peers@.len(),
                forall|j: int| 0 <= j < i ==> self@.peers[j].id@ != id@,
            decreases self.peers@.len() - i,
        {
            if self.peers[i].peer_id == *id {
                proof {
                    assert(self@.peers[i as int].id@ == id@);
                    let k = peer_position(self@.peers, id@);
                    assert(self@.peers[k].id@ == id@);
                    assert(k == i);
                }
                return Some(i);
            }
            i = i + 1;
        }
        None
    }

    fn discover_one(&mut self, peer: String, address: String, actions: &mut Vec<Action>)
        requires
            old(self)@.wf(),
        ensures
            final(self)@.wf(),
            final(self)@ == (NodeView {
                peers: after_discovery(old(self)@.peers, peer, address),
                ..old(self)@
            }),
            final(actions)@ == old(actions)@ + discovery_actions(old(self)@.peers, peer, address),
    {
        let ghost old_peers = self@.peers;
        actions.push(Action::AddPeerAddress { peer: peer.clone(), address: address.clone() });
        match self.find_peer(&peer) {
            None => {
                actions.push(Action::Emit(NetworkEvent::PeerDiscovered(peer.clone())));
                let mut addresses: Vec<String> = Vec::new();
                addresses.push(address);
                assert(texts(addresses@) =~= seq![address@]);
                self.peers.push(KnownPeer { peer_id: peer, addresses });
                proof {
                    assert(texts(addresses@) =~= seq![address@]);
                    assert(self@.peers =~= old_peers.push(
                        PeerRecord { id: peer, addrs: seq![address@] },
                    ));
                }
            },
            Some(i) => {
                match position_of(&self.peers[i].addresses, &address) {
                    Some(j) => {
                        assert(old_peers[i as int].addrs[j as int] == address@);
                    },
                    None => {
                        proof {
                            assert forall|j: int| 0 <= j < old_peers[i as int].addrs.len() implies
                                old_peers[i as int].addrs[j] != address@ by {}
                        }
                        self.peers[i].addresses.push(address);
                        proof {
                            let rec = PeerRecord {
                                id: old_peers[i as int].id,
                                addrs: old_peers[i as int].addrs.push(address@),
                            };
                            assert(texts(self.peers@[i as int].addresses@) =~= rec.addrs);
                            assert(self@.peers =~= old_peers.update(i as int, rec));
                        }
                    },
                }
            },
        }
        assert(actions@ =~= old(actions)@ + discovery_actions(old_peers, peer, address));
    }

    /// Peers announced on the local network, each with one address.
    pub fn on_discovered(&mut self, list: Vec<(String, String)>) -> (actions: Vec<Action>)
        requires
            old(self)@.wf(),
        ensures
            final(self)@.wf(),
            final(self)@ == (NodeView {
                peers: discover_all(old(self)@.peers, list@),
                ..old(self)@
            }),
            actions@ == discover_all_actions(old(self)@.peers, list@),
    {
        let mut actions: Vec<Action> = Vec::new();
        let mut i: usize = 0;
        while i < list.len()
            invariant
                i <= list@.len(),
                self@.wf(),
                self@ == (NodeView {
                    peers: discover_all(old(self)@.peers, list@.take(i as int)),
                    ..old(self)@
                }),
                actions@ == discover_all_actions(old(self)@.peers, list@.take(i as int)),
            decreases list@.len() - i,
        {
            let peer = list[i].0.clone();
            let address = list[i].1.clone();
            self.discover_one(peer, address, &mut actions);
            assert(list@.take(i as int + 1).drop_last() =~= list@.take(i as int));
            i = i + 1;
        }
        assert(list@.take(i as int) =~= list@);
        actions
    }

    fn expire_one(&mut self, peer: String, address: String, actions: &mut Vec<Action>)
        requires
            old(self)@.wf(),
        ensures
            final(self)@.wf(),
            final(self)@ == (NodeView {
                peers: after_expiry(old(self)@.peers, peer, address),
                ..old(self)@
            }),
            final(actions)@ == old(actions)@ + expiry_actions(old(self)@.peers, peer, address),
    {
        let ghost old_peers = self@.peers;
        match self.find_peer(&peer) {
            None => {},
            Some(i) => {
                let ghost addrs = old_peers[i as int].addrs;
                match position_of(&self.peers[i].addresses, &address) {
                    Some(j) => {
                        proof {
                            assert(addrs[j as int] == address@);
                            assert(addrs.contains(address@));
                            let k = addrs.index_of(address@);
                            assert(addrs[k] == address@);
                            assert(k == j);
                        }
                        self.peers[i].addresses.remove(j);
                        assert(texts(self.peers@[i as int].addresses@) =~= addrs.remove(j as int));
                    },
                    None => {
                        assert(!addrs.contains(address@));
                    },
                }
                let ghost rest = remaining_addrs(old_peers, peer@, address@);
                assert(texts(self.peers@[i as int].addresses@) == rest);
                if self.peers[i].addresses.len() == 0 {
                    self.peers.remove(i);
                    actions.push(Action::Emit(NetworkEvent::PeerExpired(peer)));
                    proof {
                        assert(self@.peers =~= old_peers.remove(i as int));
                    }
                } else {
                    proof {
                        let rec = PeerRecord { id: old_peers[i as int].id, addrs: rest };
                        assert(self@.peers =~= old_peers.update(i as int, rec));
                        assert forall|a: int, b: int| 0 <= a < rest.len() && 0 <= b < rest.len() && a != b implies rest[a] != rest[b] by {
                            if addrs.contains(address@) {
                                let k = addrs.index_of(address@);
                                let a2 = if a < k { a } else { a + 1 };
                                let b2 = if b < k { b } else { b + 1 };
                                assert(rest[a] == addrs[a2]);
                                assert(rest[b] == addrs[b2]);
                            }
                        }
                    }
                }
            },
        }
        assert(actions@ =~= old(actions)@ + expiry_actions(old_peers, peer, address));
    }

    /// Addresses of peers that the local network no longer announces.
    pub fn on_expired(&mut self, list: Vec<(String, String)>) -> (actions: Vec<Action>)
        requires
            old(self)@.wf(),
        ensures
            final(self)@.wf(),
            final(self)@ == (NodeView {
                peers: expire_all(old(self)@.peers, list@),
                ..old(self)@
            }),
            actions@ == expire_all_actions(old(self)@.peers, list@),
    {
        let mut actions: Vec<Action> = Vec::new();
        let mut i: usize = 0;
        while i < list.len()
            invariant
                i <= list@.len(),
                self@.wf(),
                self@ == (NodeView {
                    peers: expire_all(old(self)@.peers, list@.take(i as int)),
                    ..old(self)@
                }),
                actions@ == expire_all_actions(old(self)@.peers, list@.take(i as int)),
            decreases list@.len() - i,
        {
            let peer = list[i].0.clone();
            let address = list[i].1.clone();
            self.expire_one(peer, address, &mut actions);
            assert(list@.take(i as int + 1).drop_last() =~= list@.take(i as int));
            i = i + 1;
        }
        assert(list@.take(i as int) =~= list@);
        actions
    }

    /// Broadcasts `text` to every known peer.
    pub fn on_broadcast(&self, text: String) -> (actions: Vec<Action>)
        requires
            self@.wf(),
        ensures
            broadcast_result(self@, text, actions@),
    {
        let mut actions: Vec<Action> = Vec::new();
        if self.peers.len() == 0 {
            actions.push(
                Action::Emit(
                    NetworkEvent::NetworkError {
                        peer: "broadcast".to_owned(),
                        error: "no peers discovered on the LAN".to_owned(),
                    },
                ),
            );
            return actions;
        }
        actions.push(Action::Emit(NetworkEvent::MessageSent { text: text.clone() }));
        let mut i: usize = 0;
        while i < self.peers.len()
            invariant
                i <= self.peers@.len(),
                self@.peers.len() == self.peers@.len(),
                actions@ == seq![Action::Emit(NetworkEvent::MessageSent { text })]
                    + requests_to_all(self@.peers.take(i as int), text),
            decreases self.peers@.len() - i,
        {
            let request = ClipboardRequest { text: text.clone() };
            actions.push(Action::SendRequest { peer: self.peers[i].peer_id.clone(), request });
            proof {
                assert(requests_to_all(self@.peers.take(i as int + 1), text) =~= requests_to_all(
                    self@.peers.take(i as int),
                    text,
                ).push(actions@.last()));
            }
            i = i + 1;
        }
        assert(self@.peers.take(i as int) =~= self@.peers);
        actions
    }

    /// What sending `text` to `target` asks for, given whether `target` is a
    /// valid peer id.
    pub fn send_to_actions(target: String, text: String, target_valid: bool) -> (actions: Vec<Action>)
        ensures
            send_to_result(target, text, target_valid, actions@),
    {
        let mut actions: Vec<Action> = Vec::new();
        if target_valid {
            let request = ClipboardRequest { text: text.clone() };
            actions.push(Action::Emit(NetworkEvent::MessageSent { text }));
            actions.push(Action::SendRequest { peer: target, request });
            assert(actions@ =~= seq![
                Action::Emit(NetworkEvent::MessageSent { text }),
                Action::SendRequest { peer: target, request: ClipboardRequest { text } },
            ]);
        } else {
            actions.push(
                Action::Emit(
                    NetworkEvent::NetworkError { peer: target, error: "invalid peer id".to_owned() },
                ),
            );
        }
        actions
    }

    fn front_copy(&self) -> (copy: Option<ClipboardItem>)
        ensures
            copy == front(self@.queue),
    {
        match self.queue.peek_current() {
            Some(item) => Some(item.clone()),
            None => None,
        }
    }

    /// Dismisses the front item of the queue.
    pub fn on_dismiss(&mut self) -> (actions: Vec<Action>)
        requires
            old(self)@.wf(),
        ensures
            final(self)@.wf(),
            dismiss_result(old(self)@, final(self)@, actions@),
    {
        let mut actions: Vec<Action> = Vec::new();
        match self.queue.next() {
            Some(dismissed) => {
                let next = self.front_copy();
                actions.push(Action::Emit(NetworkEvent::QueueItemDismissed { dismissed, next }));
            },
            None => {
                actions.push(Action::Emit(NetworkEvent::QueueEmpty));
            },
        }
        actions
    }

    /// Asks the starred store to keep the front item of the queue.
    pub fn on_star(&self) -> (actions: Vec<Action>)
        requires
            self@.wf(),
        ensures
            star_result(self@, actions@),
    {
        let mut actions: Vec<Action> = Vec::new();
        match self.front_copy() {
            Some(item) => actions.push(Action::StoreStarred(item)),
            None => actions.push(Action::Emit(NetworkEvent::QueueEmpty)),
        }
        actions
    }

    /// Carries on once the starred store has answered a `StoreStarred`.
    pub fn on_store_outcome(&mut self, outcome: StoreOutcome) -> (actions: Vec<Action>)
        requires
            old(self)@.wf(),
            outcome is Stored ==> old(self)@.queue.items.len() > 0,
        ensures
            final(self)@.wf(),
            store_outcome_result(old(self)@, outcome, final(self)@, actions@),
    {
        let mut actions: Vec<Action> = Vec::new();
        match outcome {
            StoreOutcome::Stored => {
                let starred = match self.queue.star_current() {
                    Some(item) => item,
                    None => {
                        assert(false);
                        return actions;
                    },
                };
                let next = self.front_copy();
                actions.push(Action::Emit(NetworkEvent::QueueItemStarred { starred, next }));
            },
            StoreOutcome::Refused(reason) => {
                actions.push(Action::Emit(NetworkEvent::DatabaseError(reason)));
            },
            StoreOutcome::NotSent => {
                actions.push(
                    Action::Emit(
                        NetworkEvent::DatabaseError("Failed to send insert command to DB".to_owned()),
                    ),
                );
            },
            StoreOutcome::Dropped => {
                actions.push(
                    Action::Emit(NetworkEvent::DatabaseError("DB thread dropped request".to_owned())),
                );
            },
        }
        actions
    }

    /// Lists the pending items of the queue.
    pub fn on_list_pending(&self) -> (actions: Vec<Action>)
        ensures
            pending_list_result(self@, actions@),
    {
        let mut actions: Vec<Action> = Vec::new();
        let items = self.queue.list_all();
        actions.push(Action::Emit(NetworkEvent::QueuePendingList { items }));
        actions
    }

    /// Handles a command from the user interface.
    pub fn on_command(&mut self, command: NetworkCommand) -> (actions: Vec<Action>)
        requires
            old(self)@.wf(),
        ensures
            final(self)@.wf(),
            command_result(
                old(self)@,
                command,
                command matches NetworkCommand::SendTextTo { target_peer_id, .. } && peer_id_parses(
                    target_peer_id@,
                ),
                final(self)@,
                actions@,
            ),
    {
        match command {
            NetworkCommand::BroadcastText(text) => self.on_broadcast(text),
            NetworkCommand::SendTextTo { target_peer_id, text } => {
                let valid = is_valid_peer_id(target_peer_id.as_str());
                Self::send_to_actions(target_peer_id, text, valid)
            },
            NetworkCommand::DismissCurrent => self.on_dismiss(),
            NetworkCommand::StarCurrent => self.on_star(),
            NetworkCommand::ListPending => self.on_list_pending(),
            NetworkCommand::Unstar(id) => {
                let mut actions: Vec<Action> = Vec::new();
                actions.push(Action::DeleteStarred(id));
                actions
            },
            NetworkCommand::LoadStarredPage { limit, offset } => {
                let mut actions: Vec<Action> = Vec::new();
                actions.push(Action::QueryStarredPage { limit, offset });
                actions
            },
            NetworkCommand::GetFullStarredText(id) => {
                let mut actions: Vec<Action> = Vec::new();
                actions.push(Action::FetchStarredText(id));
                actions
            },
            NetworkCommand::List => {
                let mut actions: Vec<Action> = Vec::new();
                actions.push(Action::ReportStatus);
                actions
            },
        }
    }

    /// A text sent to this node by `peer`.
    pub fn on_request(&mut self, peer: String, request: ClipboardRequest) -> (actions: Vec<Action>)
        requires
            old(self)@.wf(),
        ensures
            final(self)@.wf(),
            request_result(old(self)@, peer, request, final(self)@, actions@),
    {
        let mut actions: Vec<Action> = Vec::new();
        let queue_was_empty = self.queue.pending.len() == 0;
        let ghost text = request.text;
        match self.queue.push_with_source(request.text.clone(), Some(peer.clone())) {
            Ok(()) => {
                let queue_len = self.queue.pending.len();
                let queue_bytes = self.queue.current_bytes;
                actions.push(
                    Action::Emit(
                        NetworkEvent::MessageReceived {
                            from: peer,
                            text: request.text,
                            queue_was_empty,
                            queue_len,
                            queue_bytes,
                        },
                    ),
                );
                actions.push(Action::Respond(ClipboardResponse { ack: true, reason: None }));
                proof {
                    let item = self@.queue.items.last();
                    assert(self@ == (NodeView { queue: old(self)@.queue.pushed(item), ..old(self)@ }));
                    assert(actions@ =~= seq![
                        Action::Emit(
                            NetworkEvent::MessageReceived {
                                from: peer,
                                text,
                                queue_was_empty: old(self)@.queue.items.len() == 0,
                                queue_len: self@.queue.items.len() as usize,
                                queue_bytes: self@.queue.bytes as usize,
                            },
                        ),
                        Action::Respond(ClipboardResponse { ack: true, reason: None }),
                    ]);
                }
            },
            Err(e) => {
                actions.push(
                    Action::Emit(NetworkEvent::QueueRejected { reason: e.message().to_owned() }),
                );
                actions.push(
                    Action::Respond(
                        ClipboardResponse { ack: false, reason: Some(e.message().to_owned()) },
                    ),
                );
            },
        }
        actions
    }

    /// The answer of `peer` to a request of this node: a refusal is reported
    /// with its reason, or `delivery failed` when it gave none.
    pub fn on_response(&self, peer: String, response: ClipboardResponse) -> (actions: Vec<Action>)
        ensures
            response.ack ==> actions@ == Seq::<Action>::empty(),
            !response.ack ==> {
                &&& actions@.len() == 1
                &&& actions@[0] matches Action::Emit(NetworkEvent::DeliveryFailed { peer: p, reason })
                    && p == peer && match response.reason {
                    Some(r) => reason == r,
                    None => reason@ == "delivery failed"@,
                }
            },
    {
        let mut actions: Vec<Action> = Vec::new();
        if !response.ack {
            let reason = match response.reason {
                Some(r) => r,
                None => "delivery failed".to_owned(),
            };
            actions.push(Action::Emit(NetworkEvent::DeliveryFailed { peer, reason }));
        }
        actions
    }

    /// A request of this node to `peer` failed on the way out.
    pub fn on_outbound_failure(&self, peer: String) -> (actions: Vec<Action>)
        ensures
            actions@ == seq![Action::Emit(NetworkEvent::PeerUnreachable(peer))],
    {
        let mut actions: Vec<Action> = Vec::new();
        actions.push(Action::Emit(NetworkEvent::PeerUnreachable(peer)));
        actions
    }

    /// A request from `peer` failed on the way in, with the error text `error`.
    pub fn on_inbound_failure(&self, peer: String, error: String) -> (actions: Vec<Action>)
        ensures
            actions@.len() == 1,
            actions@[0] matches Action::Emit(NetworkEvent::NetworkError { peer: p, error: e }) && p
                == peer && e@ == "Inbound error: "@ + error@,
    {
        let mut actions: Vec<Action> = Vec::new();
        let mut text = "Inbound error: ".to_owned();
        text.append(error.as_str());
        actions.push(Action::Emit(NetworkEvent::NetworkError { peer, error: text }));
        actions
    }

    /// The status report: the addresses this node listens on, the known peers
    /// with their addresses, and the peers the transport is connected to.
    pub fn status(&self, connected_peers: Vec<String>) -> (actions: Vec<Action>)
        ensures
            actions@.len() == 1,
            actions@[0] matches Action::Emit(
                NetworkEvent::List { listen_addresses, discovered_peers, connected_peers: c },
            ) && texts(listen_addresses@) == self@.listening && c == connected_peers && lists_peers(
                self@.peers,
                discovered_peers@,
            ),
    {
        let mut listen_addresses: Vec<String> = Vec::new();
        let mut i: usize = 0;
        while i < self.listen_addresses.len()
            invariant
                i <= self.listen_addresses@.len(),
                listen_addresses@ == self.listen_addresses@.take(i as int),
            decreases self.listen_addresses@.len() - i,
        {
            listen_addresses.push(self.listen_addresses[i].clone());
            assert(listen_addresses@ =~= self.listen_addresses@.take(i as int + 1));
            i = i + 1;
        }
        assert(listen_addresses@ =~= self.listen_addresses@);
        let mut discovered_peers: Vec<(String, Vec<String>)> = Vec::new();
        let mut k: usize = 0;
        while k < self.peers.len()
            invariant
                k <= self.peers@.len(),
                self@.peers.len() == self.peers@.len(),
                discovered_peers@.len() == k,
                forall|j: int|
                    0 <= j < k ==> #[trigger] discovered_peers@[j].0 == self@.peers[j].id
                        && texts(discovered_peers@[j].1@) == self@.peers[j].addrs,
            decreases self.peers@.len() - k,
        {
            let mut addresses: Vec<String> = Vec::new();
            let mut a: usize = 0;
            while a < self.peers[k].addresses.len()
                invariant
                    k < self.peers@.len(),
                    self@.peers.len() == self.peers@.len(),
                    discovered_peers@.len() == k,
                    forall|j: int|
                        0 <= j < k ==> #[trigger] discovered_peers@[j].0 == self@.peers[j].id
                            && texts(discovered_peers@[j].1@) == self@.peers[j].addrs,
                    a <= self.peers@[k as int].addresses@.len(),
                    addresses@ == self.peers@[k as int].addresses@.take(a as int),
                decreases self.peers@[k as int].addresses@.len() - a,
            {
                addresses.push(self.peers[k].addresses[a].clone());
                assert(addresses@ =~= self.peers@[k as int].addresses@.take(a as int + 1));
                a = a + 1;
            }
            assert(addresses@ =~= self.peers@[k as int].addresses@);
            discovered_peers.push((self.peers[k].peer_id.clone(), addresses));
            k = k + 1;
        }
        assert(texts(listen_addresses@) =~= self@.listening);
        assert(lists_peers(self@.peers, discovered_peers@));
        let ghost listed = discovered_peers@;
        let ghost shown = listen_addresses@;
        let mut actions: Vec<Action> = Vec::new();
        actions.push(
            Action::Emit(NetworkEvent::List { listen_addresses, discovered_peers, connected_peers }),
        );
        assert(actions@[0] matches Action::Emit(NetworkEvent::List { listen_addresses: l, discovered_peers: d, connected_peers: c })
            && l@ == shown && d@ == listed && c == connected_peers);
        actions
    }

    /// A connection to `peer` came up: reported when the transport says the
    /// peer is connected.
    pub fn on_connection_established(&self, peer: String, is_connected: bool) -> (actions: Vec<
        Action,
    >)
        ensures
            actions@ == if is_connected {
                seq![Action::Emit(NetworkEvent::PeerConnected(peer))]
            } else {
                Seq::<Action>::empty()
            },
    {
        let mut actions: Vec<Action> = Vec::new();
        if is_connected {
            actions.push(Action::Emit(NetworkEvent::PeerConnected(peer)));
        }
        actions
    }

    /// A connection to `peer` closed: reported when it was the last one and
    /// the transport no longer counts the peer as connected.
    pub fn on_connection_closed(&self, peer: String, num_established: u32, is_connected: bool) -> (actions: Vec<Action>)
        ensures
            actions@ == if num_established == 0 && !is_connected {
                seq![Action::Emit(NetworkEvent::PeerDisconnected(peer))]
            } else {
                Seq::<Action>::empty()
            },
    {
        let mut actions: Vec<Action> = Vec::new();
        if num_established == 0 && !is_connected {
            actions.push(Action::Emit(NetworkEvent::PeerDisconnected(peer)));
        }
        actions
    }
}

} // verus!

verus! {

/// The peer table as a map from peer identifier to the set of its addresses.
pub open spec fn peer_map(peers: Seq<PeerRecord>) -> Map<Seq<char>, Set<Seq<char>>> {
    Map::new(
        |id: Seq<char>| knows_peer(peers, id),
        |id: Seq<char>| peers[peer_position(peers, id)].addrs.to_set(),
    )
}

/// The addresses that the table holds for `id` (none for an unknown peer).
pub open spec fn addresses_of(peers: Seq<PeerRecord>, id: Seq<char>) -> Set<Seq<char>> {
    if knows_peer(peers, id) {
        peer_map(peers)[id]
    } else {
        Set::empty()
    }
}

proof fn lemma_position_unique(peers: Seq<PeerRecord>, i: int)
    requires
        peers_wf(peers),
        0 <= i < peers.len(),
    ensures
        knows_peer(peers, peers[i].id@),
        peer_position(peers, peers[i].id@) == i,
{
    let k = peer_position(peers, peers[i].id@);
    assert(peers[k].id@ == peers[i].id@);
}

/// Law: announcing `peer` at `address` keeps the table well formed and adds
/// the address to the peer's set, which starts empty for a new peer.
pub proof fn law_discovery_table(peers: Seq<PeerRecord>, peer: String, address: String)
    requires
        peers_wf(peers),
    ensures
        peers_wf(after_discovery(peers, peer, address)),
        peer_map(after_discovery(peers, peer, address)) == peer_map(peers).insert(
            peer@,
            addresses_of(peers, peer@).insert(address@),
        ),
{
    let post = after_discovery(peers, peer, address);
    let expected = peer_map(peers).insert(peer@, addresses_of(peers, peer@).insert(address@));
    if !knows_peer(peers, peer@) {
        assert(post =~= peers.push(PeerRecord { id: peer, addrs: seq![address@] }));
        assert forall|i: int| 0 <= i < peers.len() implies #[trigger] post[i] == peers[i] by {}
        assert(peers_wf(post)) by {
            assert(seq![address@].no_duplicates());
        }
        assert forall|id: Seq<char>| #[trigger] expected.contains_key(id) implies knows_peer(post, id) by {
            if id == peer@ {
                assert(post[peers.len() as int].id@ == id);
            } else {
                let k = peer_position(peers, id);
                assert(post[k].id@ == id);
            }
        }
        assert forall|id: Seq<char>| knows_peer(post, id) implies #[trigger] expected.contains_key(id) by {
            let k = peer_position(post, id);
            if k < peers.len() {
                assert(peers[k].id@ == id);
            }
        }
        assert forall|id: Seq<char>| #[trigger] expected.contains_key(id) implies peer_map(post)[id]
            == expected[id] by {
            if id == peer@ {
                lemma_position_unique(post, peers.len() as int);
                Seq::<Seq<char>>::empty().lemma_push_to_set_commute(address@);
                assert(Seq::<Seq<char>>::empty().push(address@) =~= seq![address@]);
                assert(Seq::<Seq<char>>::empty().to_set() =~= Set::<Seq<char>>::empty());
            } else {
                let k = peer_position(peers, id);
                lemma_position_unique(peers, k);
                lemma_position_unique(post, k);
            }
        }
        assert(peer_map(post) =~= expected);
    } else {
        let i = peer_position(peers, peer@);
        let addrs = peers[i].addrs;
        lemma_position_unique(peers, i);
        if addrs.contains(address@) {
            assert(addrs.to_set().insert(address@) =~= addrs.to_set());
            assert forall|id: Seq<char>| #[trigger] expected.contains_key(id) implies peer_map(peers)[id]
                == expected[id] by {}
            assert(peer_map(post) =~= expected);
        } else {
            let rec = PeerRecord { id: peers[i].id, addrs: addrs.push(address@) };
            assert(post == peers.update(i, rec));
            assert(peers_wf(post)) by {
                assert forall|a: int, b: int|
                    0 <= a < rec.addrs.len() && 0 <= b < rec.addrs.len() && a != b implies rec.addrs[a]
                    != rec.addrs[b] by {
                    if a == addrs.len() {
                        assert(rec.addrs[b] == addrs[b]);
                    } else if b == addrs.len() {
                        assert(rec.addrs[a] == addrs[a]);
                    }
                }
            }
            assert forall|id: Seq<char>| #[trigger] peer_map(post).contains_key(id) <==> expected.contains_key(id) by {
                if knows_peer(post, id) {
                    let k = peer_position(post, id);
                    assert(peers[k].id@ == id);
                }
                if knows_peer(peers, id) {
                    let k = peer_position(peers, id);
                    assert(post[k].id@ == id);
                }
            }
            assert(peer_map(post).dom() =~= expected.dom());
            assert forall|id: Seq<char>| #[trigger] expected.contains_key(id) implies peer_map(post)[id]
                == expected[id] by {
                let k = peer_position(peers, id);
                lemma_position_unique(peers, k);
                lemma_position_unique(post, k);
                if id == peer@ {
                    assert(k == i);
                    addrs.lemma_push_to_set_commute(address@);
                }
            }
            assert(peer_map(post) =~= expected);
        }
    }
}


proof fn lemma_remove_to_set(s: Seq<Seq<char>>, j: int)
    requires
        s.no_duplicates(),
        0 <= j < s.len(),
    ensures
        s.remove(j).to_set() == s.to_set().remove(s[j]),
        s.remove(j).no_duplicates(),
{
    let r = s.remove(j);
    assert forall|a: int, b: int| 0 <= a < r.len() && 0 <= b < r.len() && a != b implies r[a] != r[b] by {
        let a2 = if a < j { a } else { a + 1 };
        let b2 = if b < j { b } else { b + 1 };
        assert(r[a] == s[a2]);
        assert(r[b] == s[b2]);
    }
    assert forall|x: Seq<char>| r.to_set().contains(x) <==> #[trigger] s.to_set().remove(s[j]).contains(x) by {
        if r.contains(x) {
            let a = choose|a: int| 0 <= a < r.len() && r[a] == x;
            let a2 = if a < j { a } else { a + 1 };
            assert(s[a2] == x);
        }
        if s.contains(x) && x != s[j] {
            let a = choose|a: int| 0 <= a < s.len() && s[a] == x;
            assert(a != j);
            let a2 = if a < j { a } else { a - 1 };
            assert(r[a2] == x);
        }
    }
    assert(r.to_set() =~= s.to_set().remove(s[j]));
}

/// Law: when the address `address` of `peer` expires, the table stays well
/// formed and the address leaves the peer's set; a peer left with no address
/// leaves the table, and this is exactly when the peer is reported gone.
pub proof fn law_expiry_table(peers: Seq<PeerRecord>, peer: String, address: String)
    requires
        peers_wf(peers),
    ensures
        peers_wf(after_expiry(peers, peer, address)),
        !knows_peer(peers, peer@) ==> peer_map(after_expiry(peers, peer, address)) == peer_map(
            peers,
        ),
        knows_peer(peers, peer@) ==> {
            let rest = peer_map(peers)[peer@].remove(address@);
            peer_map(after_expiry(peers, peer, address)) == if rest.is_empty() {
                peer_map(peers).remove(peer@)
            } else {
                peer_map(peers).insert(peer@, rest)
            }
        },
        expiry_actions(peers, peer, address).len() > 0 <==> (knows_peer(peers, peer@)
            && !knows_peer(after_expiry(peers, peer, address), peer@)),
{
    let post = after_expiry(peers, peer, address);
    if knows_peer(peers, peer@) {
        let i = peer_position(peers, peer@);
        lemma_position_unique(peers, i);
        let addrs = peers[i].addrs;
        let rest = remaining_addrs(peers, peer@, address@);
        let rest_set = peer_map(peers)[peer@].remove(address@);
        if addrs.contains(address@) {
            let j = addrs.index_of(address@);
            lemma_remove_to_set(addrs, j);
        } else {
            assert(addrs.to_set().remove(address@) =~= addrs.to_set());
        }
        assert(rest.to_set() == rest_set);
        assert(rest.no_duplicates());
        if rest.len() == 0 {
            assert(rest_set =~= Set::<Seq<char>>::empty());
            assert(post == peers.remove(i));
            assert forall|a: int, b: int|
                0 <= a < post.len() && 0 <= b < post.len() && a != b implies #[trigger] post[a].id@
                != #[trigger] post[b].id@ by {
                let a2 = if a < i { a } else { a + 1 };
                let b2 = if b < i { b } else { b + 1 };
                assert(post[a] == peers[a2]);
                assert(post[b] == peers[b2]);
            }
            assert forall|a: int| 0 <= a < post.len() implies #[trigger] post[a].addrs.len() > 0
                && post[a].addrs.no_duplicates() by {
                let a2 = if a < i { a } else { a + 1 };
                assert(post[a] == peers[a2]);
            }
            let expected = peer_map(peers).remove(peer@);
            assert forall|id: Seq<char>| #[trigger] peer_map(post).contains_key(id) <==> expected.contains_key(id) by {
                if knows_peer(post, id) {
                    let k = peer_position(post, id);
                    let k2 = if k < i { k } else { k + 1 };
                    assert(post[k] == peers[k2]);
                    assert(peers[k2].id@ == id);
                    assert(k2 != i);
                }
                if knows_peer(peers, id) && id != peer@ {
                    let k = peer_position(peers, id);
                    assert(k != i);
                    let k2 = if k < i { k } else { k - 1 };
                    assert(post[k2] == peers[k]);
                }
            }
            assert(peer_map(post).dom() =~= expected.dom());
            assert forall|id: Seq<char>| #[trigger] expected.contains_key(id) implies peer_map(post)[id]
                == expected[id] by {
                let k = peer_position(post, id);
                let k2 = if k < i { k } else { k + 1 };
                assert(post[k] == peers[k2]);
                lemma_position_unique(peers, k2);
            }
            assert(peer_map(post) =~= expected);
            assert(!knows_peer(post, peer@)) by {
                if knows_peer(post, peer@) {
                    let k = peer_position(post, peer@);
                    let k2 = if k < i { k } else { k + 1 };
                    assert(post[k] == peers[k2]);
                }
            }
        } else {
            assert(rest[0] == rest[0]);
            assert(rest_set.contains(rest[0]));
            let rec = PeerRecord { id: peers[i].id, addrs: rest };
            assert(post == peers.update(i, rec));
            assert(post[i].id@ == peer@);
            let expected = peer_map(peers).insert(peer@, rest_set);
            assert forall|id: Seq<char>| #[trigger] peer_map(post).contains_key(id) <==> expected.contains_key(id) by {
                if knows_peer(post, id) {
                    let k = peer_position(post, id);
                    assert(peers[k].id@ == id);
                }
                if knows_peer(peers, id) {
                    let k = peer_position(peers, id);
                    assert(post[k].id@ == id);
                }
            }
            assert(peer_map(post).dom() =~= expected.dom());
            assert forall|id: Seq<char>| #[trigger] expected.contains_key(id) implies peer_map(post)[id]
                == expected[id] by {
                let k = peer_position(peers, id);
                lemma_position_unique(peers, k);
                lemma_position_unique(post, k);
            }
            assert(peer_map(post) =~= expected);
        }
    } else {
        assert(peer_map(post) =~= peer_map(peers));
    }
}

/// The peer that a `SendRequest` goes to (an arbitrary value for other actions).
pub open spec fn request_target(action: Action) -> Seq<char> {
    match action {
        Action::SendRequest { peer, .. } => peer@,
        _ => arbitrary(),
    }
}

/// Law: broadcasting with at least one known peer reports the text as sent
/// once and sends it to every known peer exactly once, and to no other peer.
pub proof fn law_broadcast_reaches_every_peer(pre: NodeView, text: String, actions: Seq<Action>)
    requires
        pre.wf(),
        pre.peers.len() > 0,
        broadcast_result(pre, text, actions),
    ensures
        actions.len() == pre.peers.len() + 1,
        actions[0] == Action::Emit(NetworkEvent::MessageSent { text }),
        forall|k: int|
            1 <= k < actions.len() ==> #[trigger] actions[k] == (Action::SendRequest {
                peer: pre.peers[k - 1].id,
                request: ClipboardRequest { text },
            }),
        forall|k: int|
            1 <= k < actions.len() ==> peer_map(pre.peers).contains_key(
                #[trigger] request_target(actions[k]),
            ),
        forall|id: Seq<char>|
            #[trigger] peer_map(pre.peers).contains_key(id) ==> exists|k: int|
                1 <= k < actions.len() && request_target(actions[k]) == id,
        forall|a: int, b: int|
            1 <= a < actions.len() && 1 <= b < actions.len() && a != b ==> request_target(
                #[trigger] actions[a],
            ) != request_target(#[trigger] actions[b]),
{
    assert forall|k: int| 1 <= k < actions.len() implies #[trigger] actions[k] == Action::SendRequest {
        peer: pre.peers[k - 1].id,
        request: ClipboardRequest { text },
    } by {}
    assert forall|k: int| 1 <= k < actions.len() implies peer_map(pre.peers).contains_key(
        #[trigger] request_target(actions[k]),
    ) by {
        assert(pre.peers[k - 1].id@ == request_target(actions[k]));
    }
    assert forall|id: Seq<char>| #[trigger] peer_map(pre.peers).contains_key(id) implies exists|k: int|
        1 <= k < actions.len() && request_target(actions[k]) == id by {
        let p = peer_position(pre.peers, id);
        assert(request_target(actions[p + 1]) == id);
    }
}

/// Law: a text from another node is acknowledged exactly when it was queued;
/// a queued text is the new back item and the rest of the queue is unchanged;
/// a refused text leaves the whole state unchanged and is answered with the
/// reason `queue full`.
pub proof fn law_request_acked_iff_queued(
    pre: NodeView,
    peer: String,
    request: ClipboardRequest,
    post: NodeView,
    actions: Seq<Action>,
)
    requires
        request_result(pre, peer, request, post, actions),
    ensures
        actions.len() == 2,
        actions[1] is Respond,
        actions[1]->Respond_0.ack <==> pre.queue.has_room(text_size(request.text@) as int),
        actions[1]->Respond_0.ack ==> {
            &&& post.queue.items.len() == pre.queue.items.len() + 1
            &&& post.queue.items.drop_last() == pre.queue.items
            &&& post.queue.items.last().text == request.text
            &&& post.queue.items.last().from == Some(peer)
        },
        !actions[1]->Respond_0.ack ==> post == pre && is_refusal(actions[1]),
{
    if pre.queue.has_room(text_size(request.text@) as int) {
        assert(post.queue.items.drop_last() =~= pre.queue.items);
    }
}

/// Law: starring hands the store the front item, and once the store has kept
/// it, that same item leaves the front of the queue and is reported starred;
/// the queue then changes just as when the item is dismissed.
pub proof fn law_star_keeps_front_item(
    pre: NodeView,
    star_actions: Seq<Action>,
    post: NodeView,
    stored_actions: Seq<Action>,
    dismissed: NodeView,
    dismiss_actions: Seq<Action>,
)
    requires
        pre.wf(),
        pre.queue.items.len() > 0,
        star_result(pre, star_actions),
        store_outcome_result(pre, StoreOutcome::Stored, post, stored_actions),
        dismiss_result(pre, dismissed, dismiss_actions),
    ensures
        star_actions == seq![Action::StoreStarred(pre.queue.items[0])],
        stored_actions[0] matches Action::Emit(NetworkEvent::QueueItemStarred { starred, .. })
            && starred == pre.queue.items[0],
        post.queue.items == pre.queue.items.drop_first(),
        post == dismissed,
        post.wf(),
{
    law_take_makes_room(pre.queue, 0);
}

/// Law: a peer that was not known, announced at one address that then
/// expires, leaves the table as it was; it is reported found, then gone.
pub proof fn law_discover_then_expire(peers: Seq<PeerRecord>, peer: String, address: String)
    requires
        peers_wf(peers),
        !knows_peer(peers, peer@),
    ensures
        after_expiry(after_discovery(peers, peer, address), peer, address) == peers,
        discovery_actions(peers, peer, address) == seq![
            Action::AddPeerAddress { peer, address },
            Action::Emit(NetworkEvent::PeerDiscovered(peer)),
        ],
        expiry_actions(after_discovery(peers, peer, address), peer, address) == seq![
            Action::Emit(NetworkEvent::PeerExpired(peer)),
        ],
{
    let post = after_discovery(peers, peer, address);
    law_discovery_table(peers, peer, address);
    lemma_position_unique(post, peers.len() as int);
    let addrs = post[peers.len() as int].addrs;
    assert(addrs[0] == address@);
    assert(addrs.contains(address@));
    assert(addrs.index_of(address@) == 0);
    assert(addrs.remove(0).len() == 0);
    assert(post.remove(peers.len() as int) =~= peers);
    assert(discovery_actions(peers, peer, address) =~= seq![
        Action::AddPeerAddress { peer, address },
        Action::Emit(NetworkEvent::PeerDiscovered(peer)),
    ]);
}

/// Law: dismissing the front item of a non-empty queue reports that item,
/// and as the next item the one that now stands at the front: the old
/// second item, or none when the dismissed item was the only one.
pub proof fn law_dismiss_shows_new_front(pre: NodeView, post: NodeView, actions: Seq<Action>)
    requires
        pre.wf(),
        pre.queue.items.len() > 0,
        dismiss_result(pre, post, actions),
    ensures
        post.queue.items == pre.queue.items.drop_first(),
        post.wf(),
        actions.len() == 1,
        actions[0] matches Action::Emit(NetworkEvent::QueueItemDismissed { dismissed, next })
            && dismissed == pre.queue.items[0] && next == (if pre.queue.items.len() >= 2 {
            Some(pre.queue.items[1])
        } else {
            None::<ClipboardItem>
        }) && (post.queue.items.len() > 0 ==> next == Some(post.queue.items[0])) && (
        post.queue.items.len() == 0 ==> next is None),
{
    law_take_makes_room(pre.queue, 0);
}

/// Law: once the store has kept the starred item, the report names that item
/// and, as the next item, the one that now stands at the front of the queue:
/// the old second item, or none when the starred item was the only one.
pub proof fn law_stored_shows_new_front(pre: NodeView, post: NodeView, actions: Seq<Action>)
    requires
        pre.wf(),
        pre.queue.items.len() > 0,
        store_outcome_result(pre, StoreOutcome::Stored, post, actions),
    ensures
        post.queue.items == pre.queue.items.drop_first(),
        post.wf(),
        actions.len() == 1,
        actions[0] matches Action::Emit(NetworkEvent::QueueItemStarred { starred, next })
            && starred == pre.queue.items[0] && next == (if pre.queue.items.len() >= 2 {
            Some(pre.queue.items[1])
        } else {
            None::<ClipboardItem>
        }) && (post.queue.items.len() > 0 ==> next == Some(post.queue.items[0])) && (
        post.queue.items.len() == 0 ==> next is None),
{
    law_take_makes_room(pre.queue, 0);
}

/// Law: the commands that read or change the starred store leave the node's
/// state alone and ask the store for exactly what the command names: the
/// page with the given limit and offset, the text of the given id, the
/// deletion of the given id.
pub proof fn law_store_commands_keep_arguments(
    pre: NodeView,
    command: NetworkCommand,
    target_valid: bool,
    post: NodeView,
    actions: Seq<Action>,
)
    requires
        command_result(pre, command, target_valid, post, actions),
    ensures
        command matches NetworkCommand::LoadStarredPage { limit, offset } ==> post == pre
            && actions.len() == 1 && actions[0] == (Action::QueryStarredPage { limit, offset }),
        command matches NetworkCommand::GetFullStarredText(id) ==> post == pre && actions.len() == 1
            && actions[0] == Action::FetchStarredText(id),
        command matches NetworkCommand::Unstar(id) ==> post == pre && actions.len() == 1
            && actions[0] == Action::DeleteStarred(id),
{
}

} // verus!
