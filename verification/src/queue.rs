use vstd::prelude::*;
use std::collections::VecDeque;
use crate::clock::nanos_since_epoch;

verus! {

/// The most items the local queue holds at once.
pub const MAX_QUEUE_ITEMS: usize = 20;

/// The most text bytes the local queue holds at once.
pub const MAX_QUEUE_BYTES: usize = 400_000_000;

/// The number of bytes that `s` takes in UTF-8.
pub open spec fn text_size(s: Seq<char>) -> usize {
    vstd::utf8::encode_utf8(s).len() as usize
}

/// One clipboard entry waiting in (or taken from) the local queue.
#[derive(Debug)]
pub struct ClipboardItem {
    pub id: u128,
    pub text: String,
    pub size_bytes: usize,
    pub from: Option<String>,
}

impl ClipboardItem {
    /// An item is well formed when its recorded size is the UTF-8 length of its text.
    pub open spec fn wf(&self) -> bool {
        self.size_bytes == text_size(self.text@)
    }

    /// Builds an item with a given identifier.
    pub fn with_id(id: u128, text: String, from: Option<String>) -> (item: Self)
        ensures
            item.id == id,
            item.text == text,
            item.from == from,
            item.wf(),
    {
        let size_bytes = text.as_str().len();
        ClipboardItem { id, text, size_bytes, from }
    }

    /// Builds an item with no known sender, identified by the current time.
    pub fn new(text: String) -> (item: Self)
        ensures
            item.text == text,
            item.from is None,
            item.wf(),
    {
        Self::new_with_source(text, None)
    }

    /// Builds an item identified by the current time (nanoseconds since the
    /// Unix epoch, or 0 when the clock reads earlier than the epoch).
    pub fn new_with_source(text: String, from: Option<String>) -> (item: Self)
        ensures
            item.text == text,
            item.from == from,
            item.wf(),
    {
        let id = nanos_since_epoch();
        Self::with_id(id, text, from)
    }
}

impl Clone for ClipboardItem {
    fn clone(&self) -> (copy: Self)
        ensures
            copy == *self,
    {
        let from = match &self.from {
            Some(peer) => Some(peer.clone()),
            None => None,
        };
        ClipboardItem { id: self.id, text: self.text.clone(), size_bytes: self.size_bytes, from }
    }
}

/// Why the queue refused an item.
#[derive(Debug, Clone, Copy, PartialEq, Eq, Structural)]
pub enum QueueError {
    QueueFull,
}

impl QueueError {
    /// The text that describes the error.
    pub fn message(&self) -> (text: &'static str)
        ensures
            text@ == "queue full"@,
    {
        match self {
            QueueError::QueueFull => "queue full",
        }
    }
}

/// The sum of the recorded sizes of `items`.
pub open spec fn total_size(items: Seq<ClipboardItem>) -> int
    decreases items.len(),
{
    if items.len() == 0 {
        0
    } else {
        items[0].size_bytes + total_size(items.drop_first())
    }
}

/// Appending an item adds its size to the total.
pub proof fn lemma_total_size_push(items: Seq<ClipboardItem>, item: ClipboardItem)
    ensures
        total_size(items.push(item)) == total_size(items) + item.size_bytes,
    decreases items.len(),
{
    if items.len() == 0 {
        assert(items.push(item).drop_first() =~= Seq::<ClipboardItem>::empty());
        assert(total_size(Seq::<ClipboardItem>::empty()) == 0);
    } else {
        assert(items.push(item).drop_first() =~= items.drop_first().push(item));
        assert(items.push(item)[0] == items[0]);
        lemma_total_size_push(items.drop_first(), item);
    }
}

/// The totals of non-negative sizes are non-negative.
pub proof fn lemma_total_size_nonneg(items: Seq<ClipboardItem>)
    ensures
        total_size(items) >= 0,
    decreases items.len(),
{
    if items.len() > 0 {
        lemma_total_size_nonneg(items.drop_first());
    }
}

/// The abstract state of a `ClipboardQueue`: its items, front first, and its
/// byte count.
pub struct QueueView {
    pub items: Seq<ClipboardItem>,
    pub bytes: int,
}

impl QueueView {
    /// The queue's invariant: at most `MAX_QUEUE_ITEMS` well-formed items, the
    /// byte count is the sum of their sizes, and that sum is at most
    /// `MAX_QUEUE_BYTES`.
    pub open spec fn wf(self) -> bool {
        &&& self.items.len() <= MAX_QUEUE_ITEMS
        &&& self.bytes == total_size(self.items)
        &&& self.bytes <= MAX_QUEUE_BYTES
        &&& forall|i: int| 0 <= i < self.items.len() ==> #[trigger] self.items[i].wf()
    }

    /// Whether the queue has room for one more item of `size` bytes.
    pub open spec fn has_room(self, size: int) -> bool {
        &&& self.items.len() < MAX_QUEUE_ITEMS
        &&& self.bytes + size <= MAX_QUEUE_BYTES
    }

    /// The queue after `item` joins it at the back.
    pub open spec fn pushed(self, item: ClipboardItem) -> QueueView {
        QueueView { items: self.items.push(item), bytes: self.bytes + item.size_bytes }
    }

    /// The queue after its front item leaves; the byte count goes down by the
    /// item's size, and not below zero.
    pub open spec fn popped(self) -> QueueView {
        let size = self.items[0].size_bytes;
        QueueView {
            items: self.items.drop_first(),
            bytes: if self.bytes >= size {
                self.bytes - size
            } else {
                0
            },
        }
    }
}

/// Law: on a well-formed queue that is not empty, adding an item at the back
/// and taking one from the front give the same queue in either order; the
/// queue is first in, first out.
pub proof fn law_push_pop_commute(q: QueueView, item: ClipboardItem)
    requires
        q.wf(),
        q.items.len() > 0,
    ensures
        q.pushed(item).popped() == q.popped().pushed(item),
        q.pushed(item).items[0] == q.items[0],
{
    assert(q.items.drop_first() =~= q.items.subrange(1, q.items.len() as int));
    assert(total_size(q.items) == q.items[0].size_bytes + total_size(q.items.drop_first()));
    lemma_total_size_nonneg(q.items.drop_first());
    assert(q.items.push(item).drop_first() =~= q.items.drop_first().push(item));
}

/// Law: an item that joins an empty queue is the next one taken, and taking
/// it leaves the queue empty again, with no bytes counted.
pub proof fn law_push_then_take_on_empty(item: ClipboardItem)
    ensures
        (QueueView { items: Seq::empty(), bytes: 0 }).pushed(item).items[0] == item,
        (QueueView { items: Seq::empty(), bytes: 0 }).pushed(item).popped() == (QueueView {
            items: Seq::empty(),
            bytes: 0,
        }),
{
    let q = QueueView { items: Seq::<ClipboardItem>::empty(), bytes: 0 };
    assert(q.pushed(item).items.drop_first() =~= Seq::<ClipboardItem>::empty());
}

/// Law: taking the front item off a well-formed queue leaves room for any
/// text no larger than that item, whatever the limits were before.
pub proof fn law_take_makes_room(q: QueueView, size: int)
    requires
        q.wf(),
        q.items.len() > 0,
        0 <= size <= q.items[0].size_bytes,
    ensures
        q.popped().has_room(size),
        q.popped().wf(),
{
    assert(q.items.drop_first() =~= q.items.subrange(1, q.items.len() as int));
    assert(total_size(q.items) == q.items[0].size_bytes + total_size(q.items.drop_first()));
    lemma_total_size_nonneg(q.items.drop_first());
    assert forall|i: int| 0 <= i < q.popped().items.len() implies #[trigger] q.popped().items[i].wf() by {
        assert(q.popped().items[i] == q.items[i + 1]);
    }
}

/// The local first-in first-out queue of received clipboard items, bounded in
/// item count and in text bytes.
#[derive(Debug, Clone)]
pub struct ClipboardQueue {
    pub pending: VecDeque<ClipboardItem>,
    pub current_bytes: usize,
}

impl View for ClipboardQueue {
    type V = QueueView;

    open spec fn view(&self) -> QueueView {
        QueueView { items: self.pending@, bytes: self.current_bytes as int }
    }
}

impl Default for ClipboardQueue {
    fn default() -> (queue: Self)
        ensures
            queue@ == (QueueView { items: Seq::empty(), bytes: 0 }),
            queue.wf(),
    {
        let queue = ClipboardQueue { pending: VecDeque::new(), current_bytes: 0 };
        assert(queue@.items =~= Seq::<ClipboardItem>::empty());
        queue
    }
}

impl ClipboardQueue {
    /// See `QueueView::wf`.
    pub open spec fn wf(&self) -> bool {
        self@.wf()
    }

    fn has_room_for(&self, size: usize) -> (room: bool)
        ensures
            room == self@.has_room(size as int),
    {
        self.pending.len() < MAX_QUEUE_ITEMS && size <= MAX_QUEUE_BYTES && self.current_bytes
            <= MAX_QUEUE_BYTES - size
    }

    fn append_item(&mut self, item: ClipboardItem)
        requires
            old(self)@.has_room(item.size_bytes as int),
        ensures
            final(self)@ == old(self)@.pushed(item),
            old(self).wf() && item.wf() ==> final(self).wf(),
    {
        self.current_bytes = self.current_bytes + item.size_bytes;
        self.pending.push_back(item);
        proof {
            lemma_total_size_push(old(self).pending@, item);
            if old(self).wf() && item.wf() {
                assert forall|i: int| 0 <= i < self.pending@.len() implies #[trigger] self.pending@[i].wf() by {
                    if i < old(self).pending@.len() {
                        assert(self.pending@[i] == old(self).pending@[i]);
                    }
                }
            }
        }
    }

    /// Adds `text` from an unknown sender to the back of the queue.
    pub fn push(&mut self, text: String) -> (result: Result<(), QueueError>)
        ensures
            result is Ok <==> old(self)@.has_room(text_size(text@) as int),
            result is Err ==> final(self)@ == old(self)@,
            result is Ok ==> {
                let item = final(self).pending@.last();
                &&& final(self)@ == old(self)@.pushed(item)
                &&& item.text == text
                &&& item.from is None
                &&& item.wf()
            },
            old(self).wf() ==> final(self).wf(),
    {
        self.push_with_source(text, None)
    }

    /// Adds `text` sent by `from` to the back of the queue, stamped with the
    /// current time, unless the queue already holds `MAX_QUEUE_ITEMS` items or
    /// the text would take it past `MAX_QUEUE_BYTES`.
    pub fn push_with_source(&mut self, text: String, from: Option<String>) -> (result: Result<
        (),
        QueueError,
    >)
        ensures
            result is Ok <==> old(self)@.has_room(text_size(text@) as int),
            result is Err ==> final(self)@ == old(self)@,
            result is Ok ==> {
                let item = final(self).pending@.last();
                &&& final(self)@ == old(self)@.pushed(item)
                &&& item.text == text
                &&& item.from == from
                &&& item.wf()
            },
            old(self).wf() ==> final(self).wf(),
    {
        let new_size = text.as_str().len();
        if !self.has_room_for(new_size) {
            return Err(QueueError::QueueFull);
        }
        let item = ClipboardItem::new_with_source(text, from);
        self.append_item(item);
        Ok(())
    }

    /// Like `push_with_source`, with the item's identifier given.
    pub fn push_stamped(&mut self, id: u128, text: String, from: Option<String>) -> (result:
        Result<(), QueueError>)
        ensures
            result is Ok <==> old(self)@.has_room(text_size(text@) as int),
            result is Err ==> final(self)@ == old(self)@,
            result is Ok ==> final(self)@ == old(self)@.pushed(
                (ClipboardItem { id, text, size_bytes: text_size(text@), from }),
            ),
            old(self).wf() ==> final(self).wf(),
    {
        let new_size = text.as_str().len();
        if !self.has_room_for(new_size) {
            return Err(QueueError::QueueFull);
        }
        let item = ClipboardItem::with_id(id, text, from);
        self.append_item(item);
        Ok(())
    }

    /// The item at the front of the queue, left in place.
    pub fn peek_current(&self) -> (current: Option<&ClipboardItem>)
        ensures
            current == (if self.pending@.len() > 0 {
                Some(&self.pending@[0])
            } else {
                None
            }),
    {
        if self.pending.len() > 0 {
            Some(&self.pending[0])
        } else {
            None
        }
    }

    /// Takes the item at the front of the queue off it.
    pub fn next(&mut self) -> (taken: Option<ClipboardItem>)
        ensures
            match taken {
                Some(item) => {
                    &&& old(self)@.items.len() > 0
                    &&& item == old(self)@.items[0]
                    &&& final(self)@ == old(self)@.popped()
                },
                None => {
                    &&& old(self)@.items.len() == 0
                    &&& final(self)@ == old(self)@
                },
            },
            old(self).wf() ==> final(self).wf(),
    {
        let item = self.pending.pop_front();
        if let Some(ref current) = item {
            self.current_bytes = self.current_bytes.saturating_sub(current.size_bytes);
        }
        proof {
            let old_items = old(self).pending@;
            if item is Some {
                assert(old_items.drop_first() =~= old_items.subrange(1, old_items.len() as int));
            }
            if old(self).wf() && item is Some {
                lemma_total_size_nonneg(old_items.drop_first());
                assert forall|i: int| 0 <= i < self.pending@.len() implies #[trigger] self.pending@[i].wf() by {
                    assert(self.pending@[i] == old_items[i + 1]);
                }
            }
        }
        item
    }

    /// Takes the item at the front of the queue off it so that it can be
    /// kept; the queue changes exactly as with `next`.
    pub fn star_current(&mut self) -> (taken: Option<ClipboardItem>)
        ensures
            match taken {
                Some(item) => {
                    &&& old(self)@.items.len() > 0
                    &&& item == old(self)@.items[0]
                    &&& final(self)@ == old(self)@.popped()
                },
                None => {
                    &&& old(self)@.items.len() == 0
                    &&& final(self)@ == old(self)@
                },
            },
            old(self).wf() ==> final(self).wf(),
    {
        self.next()
    }

    /// Copies of all pending items, front first.
    pub fn list_all(&self) -> (items: Vec<ClipboardItem>)
        ensures
            items@ == self.pending@,
    {
        let mut items: Vec<ClipboardItem> = Vec::new();
        let mut i: usize = 0;
        while i < self.pending.len()
            invariant
                i <= self.pending@.len(),
                items@ == self.pending@.subrange(0, i as int),
            decreases self.pending@.len() - i,
        {
            items.push(self.pending[i].clone());
            i = i + 1;
            assert(items@ =~= self.pending@.subrange(0, i as int));
        }
        items
    }
}

} // verus!
