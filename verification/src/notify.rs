//! Best-effort notification channels.
//!
//! A channel queues human-readable event texts keyed by order id for
//! asynchronous out-of-band delivery. An unconfigured channel drops
//! every enqueue silently. Delivery itself happens outside this core,
//! strictly after the data change: a consumer empties `queue`.

use vstd::prelude::*;

verus! {

/// One queued notification.
pub struct Notification {
    pub order_id: u32,
    pub message: String,
}

/// One delivery channel: its queue, and whether a destination is
/// configured at all.
pub struct Channel {
    pub configured: bool,
    pub queue: Vec<Notification>,
}

/// What a channel has queued, as plain values.
pub open spec fn msgs_of(q: Seq<Notification>) -> Seq<(u32, Seq<char>)> {
    q.map_values(|n: Notification| (n.order_id, n.message@))
}

/// The channel's queue grew by exactly one entry for `id` with text
/// `text` when it is configured, and stayed untouched when not.
pub open spec fn queued(pre: Channel, post: Channel, id: u32, text: Seq<char>) -> bool {
    &&& post.configured == pre.configured
    &&& (if pre.configured {
        msgs_of(post.queue@) == msgs_of(pre.queue@).push((id, text))
    } else {
        post.queue@ == pre.queue@
    })
}

/// The channel did not change at all.
pub open spec fn untouched(pre: Channel, post: Channel) -> bool {
    &&& post.configured == pre.configured
    &&& post.queue@ == pre.queue@
}

impl Channel {
    pub fn new(configured: bool) -> (r: Channel)
        ensures
            r.configured == configured,
            r.queue@ == Seq::<Notification>::empty(),
    {
        let r = Channel { configured, queue: Vec::new() };
        proof {
            assert(r.queue@ =~= Seq::<Notification>::empty());
        }
        r
    }

    /// Queues one notification, or drops it when no destination is
    /// configured. Never blocks and never reports failure upstream.
    pub fn enqueue(&mut self, order_id: u32, message: String)
        ensures
            queued(*old(self), *final(self), order_id, message@),
    {
        if self.configured {
            self.queue.push(Notification { order_id, message });
            proof {
                assert(msgs_of(self.queue@) =~~= msgs_of(old(self).queue@).push(
                    (order_id, message@),
                ));
            }
        }
    }
}

} // verus!
