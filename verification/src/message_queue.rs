use vstd::prelude::*;
use std::collections::VecDeque;
use crate::constants::MessageType;
use crate::handle_table::{GenericHandle, Handle};
use crate::two_d::Point;

verus! {

/// A message posted to a window.
#[derive(Debug, Copy, Clone)]
pub struct WindowMessage {
    pub h_wnd: Handle,
    pub message: MessageType,
    pub w_param: u16,
    pub l_param: u32,
    pub time: u32,
    pub point: Point,
}

/// The messages waiting for a task, oldest first.
pub struct MessageQueue {
    messages: VecDeque<WindowMessage>,
}

impl View for MessageQueue {
    type V = Seq<WindowMessage>;

    closed spec fn view(&self) -> Seq<WindowMessage> {
        self.messages@
    }
}

/// Whether a receive filtered on `h_wnd` takes `m`: the null handle takes every message.
pub open spec fn passes_filter(m: WindowMessage, h_wnd: Handle) -> bool {
    h_wnd.id() == 0 || m.h_wnd.id() == h_wnd.id()
}

/// `index` is the oldest message of `q` that passes the filter.
pub open spec fn is_first_match(q: Seq<WindowMessage>, h_wnd: Handle, index: int) -> bool {
    &&& 0 <= index < q.len()
    &&& passes_filter(q[index], h_wnd)
    &&& forall|j: int| 0 <= j < index ==> !passes_filter(#[trigger] q[j], h_wnd)
}

/// A queue has at most one oldest message that passes a filter.
pub proof fn lemma_first_match_unique(q: Seq<WindowMessage>, h_wnd: Handle, k1: int, k2: int)
    requires
        is_first_match(q, h_wnd, k1),
        is_first_match(q, h_wnd, k2),
    ensures
        k1 == k2,
{
    if k1 < k2 {
        assert(!passes_filter(q[k1], h_wnd));
    } else if k2 < k1 {
        assert(!passes_filter(q[k2], h_wnd));
    }
}

/// The message that a receive filtered on `h_wnd` takes from `q`, if any.
pub open spec fn received(q: Seq<WindowMessage>, h_wnd: Handle) -> Option<WindowMessage> {
    if exists|k: int| is_first_match(q, h_wnd, k) {
        Some(q[choose|k: int| is_first_match(q, h_wnd, k)])
    } else {
        None
    }
}

/// What is left of `q` after a receive filtered on `h_wnd`: the messages after the one
/// taken, or nothing when none passes.
pub open spec fn left_after_receive(q: Seq<WindowMessage>, h_wnd: Handle) -> Seq<WindowMessage> {
    if exists|k: int| is_first_match(q, h_wnd, k) {
        q.subrange((choose|k: int| is_first_match(q, h_wnd, k)) + 1, q.len() as int)
    } else {
        Seq::empty()
    }
}

impl MessageQueue {
    pub fn new() -> (r: Self)
        ensures
            r@ == Seq::<WindowMessage>::empty(),
    {
        Self { messages: VecDeque::new() }
    }

    /// Appends a message; it is always accepted.
    pub fn send(&mut self, msg: WindowMessage) -> (r: bool)
        ensures
            r,
            final(self)@ == old(self)@.push(msg),
    {
        self.messages.push_back(msg);
        true
    }

    /// Takes the oldest message that passes the filter of `h_wnd`, discarding the older
    /// ones that do not; with no such message the queue is emptied and `None` returned.
    pub fn receive(&mut self, h_wnd: Handle) -> (r: Option<WindowMessage>)
        ensures
            match r {
                Some(m) => exists|k: int|
                    #![trigger is_first_match(old(self)@, h_wnd, k)]
                    is_first_match(old(self)@, h_wnd, k) && m == old(self)@[k] && final(self)@
                        == old(self)@.subrange(k + 1, old(self)@.len() as int),
                None => (forall|j: int|
                    0 <= j < old(self)@.len() ==> !passes_filter(#[trigger] old(self)@[j], h_wnd))
                    && final(self)@ == Seq::<WindowMessage>::empty(),
            },
            r == received(old(self)@, h_wnd),
            final(self)@ == left_after_receive(old(self)@, h_wnd),
    {
        let ghost start = self.messages@;
        let null = Handle::null().as_u16();
        let filter = h_wnd.as_u16();
        loop
            invariant
                null == 0,
                filter == h_wnd.id(),
                start == old(self)@,
                self.messages@.len() <= start.len(),
                self.messages@ == start.subrange(
                    start.len() - self.messages@.len(),
                    start.len() as int,
                ),
                forall|j: int|
                    0 <= j < start.len() - self.messages@.len() ==> !passes_filter(
                        #[trigger] start[j],
                        h_wnd,
                    ),
            decreases self.messages@.len(),
        {
            match self.messages.pop_front() {
                Some(message) => {
                    // h_wnd acts as a filter, if the handle does not match, the message must be discarded
                    // Null handle means that no filtering should take place.
                    if filter != null && message.h_wnd.as_u16() != filter {
                        continue;
                    }
                    proof {
                        let k = start.len() - self.messages@.len() - 1;
                        assert(is_first_match(start, h_wnd, k));
                        let c = choose|k2: int| is_first_match(start, h_wnd, k2);
                        lemma_first_match_unique(start, h_wnd, k, c);
                    }
                    return Some(message);
                },
                None => {
                    proof {
                        assert forall|k: int| !is_first_match(start, h_wnd, k) by {
                            if 0 <= k < start.len() {
                                assert(!passes_filter(start[k], h_wnd));
                            }
                        }
                    }
                    return None;
                },
            }
        }
    }
}

} // verus!
