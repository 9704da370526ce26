//! Connection proxies, one per receiver, and the failover router in front of
//! them.
//!
//! A proxy owns the outbound channel of one receiver connection. The router
//! offers each message to the proxies in configuration order; the first
//! connected proxy whose channel takes it wins. A message that no proxy takes
//! waits in a bounded retry queue.

use vstd::prelude::*;
use std::collections::VecDeque;
use futures::sync::mpsc::{UnboundedReceiver, UnboundedSender};
use crate::codec::{MessageView, RelayMessage, RelayMsgFramer};
use crate::settings::{RelaySubmitterSettings, SubmitterSettingsView};

verus! {

/// Most messages the retry queue holds; when it is full the oldest is dropped.
pub const RETRY_QUEUE_CAPACITY: usize = 65536;

#[verifier::external_type_specification]
#[verifier::external_body]
#[verifier::reject_recursive_types(T)]
pub struct ExUnboundedSender<T>(UnboundedSender<T>);

#[verifier::external_type_specification]
#[verifier::external_body]
#[verifier::reject_recursive_types(T)]
pub struct ExUnboundedReceiver<T>(UnboundedReceiver<T>);

/// Relies on `futures::sync::mpsc::unbounded`: a fresh channel, both ends.
#[verifier::external_body]
fn new_channel() -> (r: (UnboundedSender<RelayMessage>, UnboundedReceiver<RelayMessage>)) {
    futures::sync::mpsc::unbounded()
}

/// Relies on `UnboundedSender::unbounded_send`: queues the message without
/// blocking; `false` when the channel refused it (its receiver is gone).
#[verifier::external_body]
fn channel_send(tx: &UnboundedSender<RelayMessage>, msg: RelayMessage) -> (r: bool) {
    tx.unbounded_send(msg).is_ok()
}

/// The abstract state of one connection proxy.
pub struct HandlerView {
    /// Shared secret sent first on every new connection.
    pub password: Seq<char>,
    /// A live outbound channel exists.
    pub connected: bool,
    /// Every message the outbound channels took, oldest first.
    pub sent: Seq<MessageView>,
    /// Every message offered while connected that the channel refused.
    pub refused: Seq<MessageView>,
}

/// The proxy of one receiver connection.
pub struct RelayHandler {
    password: String,
    is_connected: bool,
    stream: Option<UnboundedSender<RelayMessage>>,
    sent: Ghost<Seq<MessageView>>,
    refused: Ghost<Seq<MessageView>>,
}

impl View for RelayHandler {
    type V = HandlerView;

    closed spec fn view(&self) -> HandlerView {
        HandlerView {
            password: self.password@,
            connected: self.is_connected,
            sent: self.sent@,
            refused: self.refused@,
        }
    }
}

impl RelayHandler {
    /// The outbound channel is present exactly when the proxy is connected.
    pub closed spec fn wf(&self) -> bool {
        self.stream.is_some() == self.is_connected
    }

    /// A disconnected proxy that will authenticate with `password`.
    pub fn new(password: String) -> (r: RelayHandler)
        ensures
            r.wf(),
            r@ == (HandlerView {
                password: password@,
                connected: false,
                sent: Seq::empty(),
                refused: Seq::empty(),
            }),
    {
        RelayHandler {
            password,
            is_connected: false,
            stream: None,
            sent: Ghost(Seq::empty()),
            refused: Ghost(Seq::empty()),
        }
    }

    pub fn is_connected(&self) -> (r: bool)
        ensures
            r == self@.connected,
    {
        self.is_connected
    }

    /// Offers `msg` to the connection: `true` when its channel took it.
    /// A disconnected proxy refuses without trying.
    pub fn send(&mut self, msg: RelayMessage) -> (r: bool)
        requires
            old(self).wf(),
        ensures
            final(self).wf(),
            r ==> old(self)@.connected,
            final(self)@ == (if r {
                HandlerView { sent: old(self)@.sent.push(msg@), ..old(self)@ }
            } else if old(self)@.connected {
                HandlerView { refused: old(self)@.refused.push(msg@), ..old(self)@ }
            } else {
                old(self)@
            }),
    {
        if !self.is_connected {
            return false;
        }
        let ghost m = msg@;
        match &self.stream {
            Some(tx) => {
                if channel_send(tx, msg) {
                    self.sent = Ghost(self.sent@.push(m));
                    true
                } else {
                    self.refused = Ghost(self.refused@.push(m));
                    false
                }
            },
            None => false,
        }
    }

    /// A connection was established: opens a fresh channel, queues the
    /// authentication message on it first, and only then publishes it.
    /// Returns the codec and the channel's receiving end for the transport.
    pub fn new_connection(&mut self) -> (r: (RelayMsgFramer, UnboundedReceiver<RelayMessage>))
        requires
            old(self).wf(),
        ensures
            final(self).wf(),
            r.0.wf(),
            final(self)@.password == old(self)@.password,
            final(self)@.refused == old(self)@.refused,
            final(self)@.sent == (if final(self)@.connected {
                old(self)@.sent.push(MessageView::Auth(old(self)@.password))
            } else {
                old(self)@.sent
            }),
    {
        let (tx, rx) = new_channel();
        let auth = RelayMessage::AuthMessage { password: self.password.clone() };
        let ghost m = auth@;
        if channel_send(&tx, auth) {
            self.sent = Ghost(self.sent@.push(m));
            self.stream = Some(tx);
            self.is_connected = true;
        } else {
            self.stream = None;
            self.is_connected = false;
        }
        (RelayMsgFramer::new(), rx)
    }

    /// The connection is gone: drops the outbound channel.
    pub fn connection_closed(&mut self)
        requires
            old(self).wf(),
        ensures
            final(self).wf(),
            final(self)@ == (HandlerView { connected: false, ..old(self)@ }),
    {
        self.is_connected = false;
        self.stream = None;
    }
}

/// The abstract state of the router.
pub struct SubmitterView {
    /// The settings the router was set up with.
    pub settings: SubmitterSettingsView,
    /// The proxies, in failover order.
    pub proxies: Seq<HandlerView>,
    /// Messages waiting for a retry, oldest first.
    pub queue: Seq<MessageView>,
}

/// `q` with `m` appended, dropping the oldest entry when `q` is full.
pub open spec fn enqueue_bounded(q: Seq<MessageView>, m: MessageView) -> Seq<MessageView> {
    if q.len() < RETRY_QUEUE_CAPACITY {
        q.push(m)
    } else {
        q.drop_first().push(m)
    }
}

/// The proxy state after offering `m` to a proxy in state `h` that refused it.
pub open spec fn after_refusal(h: HandlerView, m: MessageView) -> HandlerView {
    if h.connected {
        HandlerView { refused: h.refused.push(m), ..h }
    } else {
        h
    }
}

/// What one submission of `m` does to the router state `pre`, ending in
/// `post`, where `r` is the index of the proxy that took it: every proxy
/// before the taker was offered `m` and refused it, the taker added `m` to
/// its sent messages, the later ones were not offered it; with no taker,
/// every proxy refused and `m` joined the retry queue.
pub open spec fn send_outcome(
    pre: SubmitterView,
    m: MessageView,
    r: Option<usize>,
    post: SubmitterView,
) -> bool {
    &&& post.settings == pre.settings
    &&& post.proxies.len() == pre.proxies.len()
    &&& match r {
        Some(k) => {
            &&& k < pre.proxies.len()
            &&& pre.proxies[k as int].connected
            &&& post.proxies[k as int] == HandlerView {
                sent: pre.proxies[k as int].sent.push(m),
                ..pre.proxies[k as int]
            }
            &&& forall|j: int|
                0 <= j < k ==> #[trigger] post.proxies[j] == after_refusal(pre.proxies[j], m)
            &&& forall|j: int| k < j < pre.proxies.len() ==> #[trigger] post.proxies[j] == pre.proxies[j]
            &&& post.queue == pre.queue
        },
        None => {
            &&& forall|j: int|
                0 <= j < pre.proxies.len() ==> #[trigger] post.proxies[j] == after_refusal(
                    pre.proxies[j],
                    m,
                )
            &&& post.queue == enqueue_bounded(pre.queue, m)
        },
    }
}

/// A proxy that was just created for a receiver: disconnected, nothing sent.
pub open spec fn fresh_proxy(password: Seq<char>) -> HandlerView {
    HandlerView { password, connected: false, sent: Seq::empty(), refused: Seq::empty() }
}

/// When only receiver `k` is connected, a submission is offered to it and to
/// no other receiver: it either takes the message or refuses it, in which
/// case the message is queued for a retry.
pub proof fn lemma_failover_reaches_only_connected(
    pre: SubmitterView,
    m: MessageView,
    r: Option<usize>,
    post: SubmitterView,
    k: int,
)
    requires
        0 <= k < pre.proxies.len(),
        pre.proxies[k].connected,
        forall|j: int| 0 <= j < pre.proxies.len() && j != k ==> !#[trigger] pre.proxies[j].connected,
        send_outcome(pre, m, r, post),
    ensures
        forall|j: int|
            0 <= j < pre.proxies.len() && j != k ==> #[trigger] post.proxies[j] == pre.proxies[j],
        r == Some(k as usize) ==> post.proxies[k].sent == pre.proxies[k].sent.push(m),
        r is None ==> post.proxies[k].refused == pre.proxies[k].refused.push(m) && post.queue
            == enqueue_bounded(pre.queue, m),
        r is None || r == Some(k as usize),
{
    match r {
        Some(i) => {
            assert(i as int == k);
        },
        None => {
            assert(post.proxies[k] == after_refusal(pre.proxies[k], m));
        },
    }
}

/// With no receiver connected, a submission changes no proxy and leaves the
/// message as the newest entry of the retry queue.
pub proof fn lemma_queued_when_disconnected(
    pre: SubmitterView,
    m: MessageView,
    r: Option<usize>,
    post: SubmitterView,
)
    requires
        forall|j: int| 0 <= j < pre.proxies.len() ==> !#[trigger] pre.proxies[j].connected,
        send_outcome(pre, m, r, post),
    ensures
        r is None,
        post.proxies == pre.proxies,
        post.queue.len() > 0,
        post.queue.last() == m,
{
    assert(post.proxies =~= pre.proxies);
}

/// A retry of the oldest queued message either hands it to a connected
/// proxy's channel or puts it back as the newest entry: it is never lost.
pub proof fn lemma_retry_delivers_or_requeues(
    pre: SubmitterView,
    r: Option<usize>,
    post: SubmitterView,
)
    requires
        pre.queue.len() > 0,
        pre.queue.len() <= RETRY_QUEUE_CAPACITY,
        send_outcome(SubmitterView { queue: pre.queue.drop_first(), ..pre }, pre.queue[0], r, post),
    ensures
        r is Some ==> pre.proxies[r.unwrap() as int].connected && post.proxies[r.unwrap() as int].sent
            == pre.proxies[r.unwrap() as int].sent.push(pre.queue[0]),
        r is None ==> post.queue.len() == pre.queue.len() && post.queue.last() == pre.queue[0],
{
}

/// The router: the proxies in failover order and the retry queue.
pub struct RelaySubmitterState {
    settings: RelaySubmitterSettings,
    handlers: Vec<RelayHandler>,
    retry: VecDeque<RelayMessage>,
}

impl View for RelaySubmitterState {
    type V = SubmitterView;

    closed spec fn view(&self) -> SubmitterView {
        SubmitterView {
            settings: self.settings@,
            proxies: self.handlers@.map_values(|h: RelayHandler| h@),
            queue: self.retry@.map_values(|m: RelayMessage| m@),
        }
    }
}

impl RelaySubmitterState {
    /// Every proxy is well formed and the retry queue is within its bound.
    pub closed spec fn wf(&self) -> bool {
        &&& forall|i: int| 0 <= i < self.handlers@.len() ==> #[trigger] self.handlers@[i].wf()
        &&& self.retry@.len() <= RETRY_QUEUE_CAPACITY
    }

    /// A router with one disconnected proxy per configured receiver, in
    /// configuration order, and an empty retry queue.
    pub fn setup_submitter(settings: RelaySubmitterSettings) -> (r: RelaySubmitterState)
        requires
            settings@.hosts.len() > 0,
        ensures
            r.wf(),
            r@.settings == settings@,
            r@.proxies.len() == settings@.hosts.len(),
            forall|j: int|
                0 <= j < r@.proxies.len() ==> #[trigger] r@.proxies[j] == fresh_proxy(
                    settings@.password,
                ),
            r@.queue.len() == 0,
    {
        let n = settings.receiver_hosts().len();
        let mut handlers: Vec<RelayHandler> = Vec::new();
        let mut i: usize = 0;
        while i < n
            invariant
                n == settings@.hosts.len(),
                i <= n,
                handlers@.len() == i,
                forall|j: int| 0 <= j < i ==> #[trigger] handlers@[j].wf(),
                forall|j: int| 0 <= j < i ==> #[trigger] handlers@[j]@ == fresh_proxy(settings@.password),
            decreases n - i,
        {
            let h = RelayHandler::new(settings.password().clone());
            handlers.push(h);
            i = i + 1;
        }
        let r = RelaySubmitterState { settings, handlers, retry: VecDeque::new() };
        assert(r@.queue =~= Seq::empty());
        r
    }

    /// The settings the router was set up with.
    pub fn settings(&self) -> (r: &RelaySubmitterSettings)
        ensures
            r@ == self@.settings,
    {
        &self.settings
    }

    /// The number of receivers.
    pub fn receiver_count(&self) -> (r: usize)
        ensures
            r == self@.proxies.len(),
    {
        self.handlers.len()
    }

    /// The number of messages waiting for a retry.
    pub fn queued_count(&self) -> (r: usize)
        requires
            self.wf(),
        ensures
            r == self@.queue.len(),
    {
        self.retry.len()
    }

    /// Whether the proxy of receiver `i` is connected.
    pub fn is_connected(&self, i: usize) -> (r: bool)
        requires
            i < self@.proxies.len(),
        ensures
            r == self@.proxies[i as int].connected,
    {
        self.handlers[i].is_connected()
    }

    /// Offers `msg` to the proxies in failover order and stops at the first
    /// that takes it; queues it for a retry when none does. Returns the index
    /// of the proxy that took it.
    pub fn send(&mut self, msg: RelayMessage) -> (r: Option<usize>)
        requires
            old(self).wf(),
        ensures
            final(self).wf(),
            send_outcome(old(self)@, msg@, r, final(self)@),
    {
        let n = self.handlers.len();
        let mut i: usize = 0;
        while i < n
            invariant
                n == self.handlers@.len(),
                n == old(self).handlers@.len(),
                i <= n,
                self.wf(),
                self.retry@ == old(self).retry@,
                self.settings == old(self).settings,
                forall|j: int|
                    0 <= j < i ==> #[trigger] self@.proxies[j] == after_refusal(
                        old(self)@.proxies[j],
                        msg@,
                    ),
                forall|j: int| i <= j < n ==> #[trigger] self@.proxies[j] == old(self)@.proxies[j],
            decreases n - i,
        {
            let ghost before = self@.proxies;
            let ghost hs = self.handlers@;
            let copy = msg.duplicate();
            let taken = self.handlers[i].send(copy);
            let ghost h = self.handlers@[i as int]@;
            assert(self.handlers@ == hs.update(i as int, self.handlers@[i as int]));
            assert(self@.proxies =~= before.update(i as int, h));
            assert(before[i as int] == old(self)@.proxies[i as int]);
            if taken {
                assert(self.wf());
                assert(send_outcome(old(self)@, msg@, Some(i), self@));
                return Some(i);
            }
            assert(h == after_refusal(old(self)@.proxies[i as int], msg@));
            i = i + 1;
        }
        self.send_message(msg);
        None
    }

    /// Queues `msg` for a retry, dropping the oldest queued message when the
    /// queue is full.
    pub fn send_message(&mut self, msg: RelayMessage)
        requires
            old(self).wf(),
        ensures
            final(self).wf(),
            final(self)@.proxies == old(self)@.proxies,
            final(self)@.settings == old(self)@.settings,
            final(self)@.queue == enqueue_bounded(old(self)@.queue, msg@),
    {
        if self.retry.len() >= RETRY_QUEUE_CAPACITY {
            let _ = self.retry.pop_front();
        }
        self.retry.push_back(msg);
        assert(self@.queue =~= enqueue_bounded(old(self)@.queue, msg@));
    }

    /// Sends a serialised share or weak-block record.
    pub fn send_share(&mut self, data: String) -> (r: Option<usize>)
        requires
            old(self).wf(),
        ensures
            final(self).wf(),
            send_outcome(
                old(self)@,
                MessageView::Share(data@),
                r,
                final(self)@,
            ),
    {
        self.send(RelayMessage::ShareMessage { data })
    }

    /// Takes the oldest queued message, if any, and sends it again as `send`
    /// does (so it goes back to the end of the queue when no proxy takes it).
    /// Returns `None` when the queue was empty, else the outcome of the send.
    pub fn retry_next(&mut self) -> (r: Option<Option<usize>>)
        requires
            old(self).wf(),
        ensures
            final(self).wf(),
            old(self)@.queue.len() == 0 ==> r is None && final(self)@ == old(self)@,
            old(self)@.queue.len() > 0 ==> r is Some && send_outcome(
                SubmitterView { queue: old(self)@.queue.drop_first(), ..old(self)@ },
                old(self)@.queue[0],
                r.unwrap(),
                final(self)@,
            ),
    {
        match self.retry.pop_front() {
            None => None,
            Some(msg) => {
                assert(self@.queue =~= old(self)@.queue.drop_first());
                Some(self.send(msg))
            },
        }
    }

    /// A connection to receiver `i` was established; see
    /// [`RelayHandler::new_connection`].
    pub fn new_connection(&mut self, i: usize) -> (r: (RelayMsgFramer, UnboundedReceiver<RelayMessage>))
        requires
            old(self).wf(),
            i < old(self)@.proxies.len(),
        ensures
            final(self).wf(),
            r.0.wf(),
            final(self)@.queue == old(self)@.queue,
            final(self)@.settings == old(self)@.settings,
            final(self)@.proxies.len() == old(self)@.proxies.len(),
            forall|j: int|
                0 <= j < old(self)@.proxies.len() && j != i ==> #[trigger] final(self)@.proxies[j]
                    == old(self)@.proxies[j],
            final(self)@.proxies[i as int].password == old(self)@.proxies[i as int].password,
            final(self)@.proxies[i as int].refused == old(self)@.proxies[i as int].refused,
            final(self)@.proxies[i as int].sent == (if final(self)@.proxies[i as int].connected {
                old(self)@.proxies[i as int].sent.push(
                    MessageView::Auth(old(self)@.proxies[i as int].password),
                )
            } else {
                old(self)@.proxies[i as int].sent
            }),
    {
        let r = self.handlers[i].new_connection();
        assert(self@.proxies =~= old(self)@.proxies.update(i as int, self.handlers@[i as int]@));
        r
    }

    /// The connection to receiver `i` is gone.
    pub fn connection_closed(&mut self, i: usize)
        requires
            old(self).wf(),
            i < old(self)@.proxies.len(),
        ensures
            final(self).wf(),
            final(self)@ == (SubmitterView {
                proxies: old(self)@.proxies.update(
                    i as int,
                    HandlerView { connected: false, ..old(self)@.proxies[i as int] },
                ),
                ..old(self)@
            }),
    {
        self.handlers[i].connection_closed();
        assert(self@.proxies =~= old(self)@.proxies.update(
            i as int,
            HandlerView { connected: false, ..old(self)@.proxies[i as int] },
        ));
    }
}

} // verus!
