use vstd::prelude::*;
use crate::models::WebhookRequest;
use tokio::sync::broadcast::{Receiver, Sender};

verus! {

#[verifier::external_type_specification]
#[verifier::external_body]
#[verifier::reject_recursive_types(T)]
pub struct ExSender<T>(Sender<T>);

#[verifier::external_type_specification]
#[verifier::external_body]
#[verifier::reject_recursive_types(T)]
pub struct ExReceiver<T>(Receiver<T>);

/// Items a live channel buffers before its slowest subscriber starts to lose them.
pub const CHANNEL_CAPACITY: usize = 256;

/// How many items a channel buffers, as it was opened with.
pub uninterp spec fn channel_capacity(tx: Sender<WebhookRequest>) -> nat;

/// The channel a sender sends into.
pub uninterp spec fn sender_channel(tx: Sender<WebhookRequest>) -> int;

/// The channel a receiver reads from.
pub uninterp spec fn receiver_channel(rx: Receiver<WebhookRequest>) -> int;

/// `n` is 1, 2, 4, 8, ...
pub open spec fn is_power_of_two(n: nat) -> bool
    decreases n,
{
    if n <= 1 {
        n == 1
    } else {
        n % 2 == 0 && is_power_of_two(n / 2)
    }
}

/// Relies on `tokio::sync::broadcast::channel`: a sender and one receiver that
/// share one channel, whose buffer holds `capacity` rounded up to a power of
/// two, so a power of two exactly; it panics only on a capacity of 0 or above
/// `usize::MAX / 2`.
#[verifier::external_body]
fn open_channel(capacity: usize) -> (r: (Sender<WebhookRequest>, Receiver<WebhookRequest>))
    requires
        0 < capacity <= usize::MAX / 2,
    ensures
        is_power_of_two(capacity as nat) ==> channel_capacity(r.0) == capacity,
        receiver_channel(r.1) == sender_channel(r.0),
{
    tokio::sync::broadcast::channel(capacity)
}

/// Relies on `tokio::sync::broadcast::Sender::subscribe`: a new receiver on the
/// sender's channel, of the items sent after this call; it panics only once a
/// channel holds `usize::MAX >> 2` receivers, more than memory can hold.
#[verifier::external_body]
fn subscribe_to(tx: &Sender<WebhookRequest>) -> (r: Receiver<WebhookRequest>)
    ensures
        receiver_channel(r) == sender_channel(*tx),
{
    tx.subscribe()
}

/// Relies on `tokio::sync::broadcast::Sender::receiver_count`: the receivers
/// alive at the moment of the call.
#[verifier::external_body]
fn live_receivers(tx: &Sender<WebhookRequest>) -> usize {
    tx.receiver_count()
}

/// Relies on `tokio::sync::broadcast::Sender::send`: `Ok` with the number of
/// receivers, at least one, or `Err` when there is none.
#[verifier::external_body]
fn offer(tx: &Sender<WebhookRequest>, item: WebhookRequest) -> (r: Option<usize>)
    ensures
        r matches Some(n) ==> n >= 1,
{
    tx.send(item).ok()
}

/// What became of a published request.
#[derive(Debug, PartialEq, Eq, Structural)]
pub enum PublishOutcome {
    /// No channel is open for the session.
    NoChannel,
    /// The channel is open but nobody listens.
    NoSubscribers,
    /// Offered to this many subscribers.
    Delivered(usize),
}

pub type Entry = (Seq<char>, Sender<WebhookRequest>);

/// Sessions of the entries, in order.
pub open spec fn sessions(v: Seq<Entry>) -> Seq<Seq<char>> {
    v.map_values(|e: Entry| e.0)
}

/// No session has two channels.
pub open spec fn distinct_sessions(v: Seq<Entry>) -> bool {
    forall|i: int, j: int| 0 <= i < j < v.len() ==> v[i].0 != v[j].0
}

/// The entries whose receiver count is not zero, in their order.
pub open spec fn live_entries(v: Seq<Entry>, counts: Seq<usize>) -> Seq<Entry>
    decreases v.len(),
{
    if v.len() == 0 || counts.len() == 0 {
        Seq::empty()
    } else {
        let rest = live_entries(v.drop_first(), counts.drop_first());
        if counts[0] > 0 {
            seq![v[0]] + rest
        } else {
            rest
        }
    }
}

/// Maps each session that has live subscribers to its broadcast channel.
pub struct ChannelRegistry {
    entries: Vec<(String, Sender<WebhookRequest>)>,
}

impl View for ChannelRegistry {
    type V = Seq<Entry>;

    closed spec fn view(&self) -> Seq<Entry> {
        self.entries@.map_values(|e: (String, Sender<WebhookRequest>)| (e.0@, e.1))
    }
}

proof fn lemma_remove_keeps_distinct(v: Seq<Entry>, k: int)
    requires
        distinct_sessions(v),
        0 <= k < v.len(),
    ensures
        distinct_sessions(v.remove(k)),
{
    let w = v.remove(k);
    assert forall|i: int, j: int| 0 <= i < j < w.len() implies w[i].0 != w[j].0 by {
        let i2 = if i < k { i } else { i + 1 };
        let j2 = if j < k { j } else { j + 1 };
        assert(w[i] == v[i2] && w[j] == v[j2]);
    }
}

proof fn lemma_remove_drops_session(v: Seq<Entry>, k: int)
    requires
        distinct_sessions(v),
        0 <= k < v.len(),
    ensures
        !sessions(v.remove(k)).contains(v[k].0),
{
    let w = v.remove(k);
    assert forall|j: int| 0 <= j < sessions(w).len() implies sessions(w)[j] != v[k].0 by {
        if j < k {
            assert(w[j] == v[j]);
        } else {
            assert(w[j] == v[j + 1]);
        }
    }
}

impl ChannelRegistry {
    /// No session has two channels, and each channel buffers `CHANNEL_CAPACITY` items.
    pub closed spec fn wf(&self) -> bool {
        &&& distinct_sessions(self@)
        &&& forall|i: int| 0 <= i < self@.len() ==> channel_capacity(#[trigger] self@[i].1) == CHANNEL_CAPACITY
    }

    /// The channel of a session, if one is open.
    pub fn sender_of(&self, session_id: &str) -> (r: Option<&Sender<WebhookRequest>>)
        requires
            self.wf(),
        ensures
            r is None <==> !sessions(self@).contains(session_id@),
            r matches Some(tx) ==> exists|i: int|
                0 <= i < self@.len() && self@[i].0 == session_id@ && self@[i].1 == *tx,
    {
        match self.position(session_id) {
            Some(i) => {
                proof {
                    assert(sessions(self@)[i as int] == session_id@);
                }
                Some(&self.entries[i].1)
            },
            None => None,
        }
    }

    /// An empty registry.
    pub fn new() -> (r: ChannelRegistry)
        ensures
            r.wf(),
            r@ == Seq::<Entry>::empty(),
    {
        let r = ChannelRegistry { entries: Vec::new() };
        assert(r@ =~= Seq::<Entry>::empty());
        r
    }

    /// Number of open channels.
    pub fn channel_count(&self) -> (r: usize)
        ensures
            r == self@.len(),
    {
        self.entries.len()
    }

    fn position(&self, session_id: &str) -> (r: Option<usize>)
        requires
            self.wf(),
        ensures
            r matches Some(i) ==> i < self@.len() && self@[i as int].0 == session_id@,
            r is None ==> !sessions(self@).contains(session_id@),
    {
        let key = String::from_str(session_id);
        let n = self.entries.len();
        let mut i: usize = 0;
        while i < n
            invariant
                n == self.entries@.len(),
                i <= n,
                key@ == session_id@,
                forall|j: int| 0 <= j < i ==> self@[j].0 != session_id@,
            decreases n - i,
        {
            if self.entries[i].0 == key {
                return Some(i);
            }
            i = i + 1;
        }
        proof {
            assert forall|j: int| 0 <= j < sessions(self@).len() implies sessions(self@)[j]
                != session_id@ by {}
        }
        None
    }

    /// Subscribes to a session's channel, opening it first if there is none.
    pub fn subscribe(&mut self, session_id: &str) -> (r: Receiver<WebhookRequest>)
        requires
            old(self).wf(),
        ensures
            final(self).wf(),
            sessions(old(self)@).contains(session_id@) ==> final(self)@ == old(self)@,
            !sessions(old(self)@).contains(session_id@) ==> final(self)@.len() == old(self)@.len() + 1
                && final(self)@.drop_last() == old(self)@ && final(self)@.last().0 == session_id@,
            forall|i: int|
                0 <= i < final(self)@.len() ==> channel_capacity(#[trigger] final(self)@[i].1)
                    == CHANNEL_CAPACITY,
            exists|i: int|
                0 <= i < final(self)@.len() && final(self)@[i].0 == session_id@ && receiver_channel(r)
                    == sender_channel(final(self)@[i].1),
    {
        match self.position(session_id) {
            Some(i) => {
                proof {
                    assert(sessions(self@)[i as int] == session_id@);
                }
                let rx = subscribe_to(&self.entries[i].1);
                assert(receiver_channel(rx) == sender_channel(self@[i as int].1));
                rx
            },
            None => {
                proof {
                    assert(is_power_of_two(1));
                    assert(is_power_of_two(2));
                    assert(is_power_of_two(4));
                    assert(is_power_of_two(8));
                    assert(is_power_of_two(16));
                    assert(is_power_of_two(32));
                    assert(is_power_of_two(64));
                    assert(is_power_of_two(128));
                    assert(is_power_of_two(256));
                }
                let (tx, rx) = open_channel(CHANNEL_CAPACITY);
                let ghost before = self@;
                let ghost fresh = tx;
                self.entries.push((String::from_str(session_id), tx));
                proof {
                    assert(self@.last().1 == fresh);
                    assert(self@[self@.len() - 1].0 == session_id@);
                    assert forall|k: int| 0 <= k < self@.len() implies channel_capacity(
                        #[trigger] self@[k].1,
                    ) == CHANNEL_CAPACITY by {
                        if k < before.len() {
                            assert(self@[k] == before[k]);
                        }
                    }
                    assert(self@.drop_last() =~= before);
                    assert forall|j: int| 0 <= j < before.len() implies before[j].0 != session_id@ by {
                        assert(sessions(before)[j] == before[j].0);
                    }
                    assert forall|a: int, b: int| 0 <= a < b < self@.len() implies self@[a].0
                        != self@[b].0 by {
                        assert(self@[a] == before[a]);
                        if b < before.len() {
                            assert(self@[b] == before[b]);
                        }
                    }
                }
                rx
            },
        }
    }

    /// Offers a request to the subscribers of a session's channel, if one is open.
    /// The registry is left as it is.
    pub fn publish(&self, session_id: &str, request: &WebhookRequest) -> (r: PublishOutcome)
        requires
            self.wf(),
        ensures
            r is NoChannel <==> !sessions(self@).contains(session_id@),
            r matches PublishOutcome::Delivered(n) ==> n >= 1,
    {
        match self.sender_of(session_id) {
            Some(tx) => match offer(tx, request.clone()) {
                Some(n) => PublishOutcome::Delivered(n),
                None => PublishOutcome::NoSubscribers,
            },
            None => PublishOutcome::NoChannel,
        }
    }

    /// Closes a session's channel given its receiver count: it goes exactly
    /// when it exists and the count is zero.
    pub fn close_if_idle(&mut self, session_id: &str, receivers: usize)
        requires
            old(self).wf(),
        ensures
            final(self).wf(),
            (receivers > 0 || !sessions(old(self)@).contains(session_id@)) ==> final(self)@ == old(self)@,
            receivers == 0 && sessions(old(self)@).contains(session_id@) ==> exists|i: int|
                0 <= i < old(self)@.len() && old(self)@[i].0 == session_id@ && final(self)@
                    == old(self)@.remove(i),
            receivers == 0 ==> !sessions(final(self)@).contains(session_id@),
    {
        if receivers == 0 {
            if let Some(i) = self.position(session_id) {
                proof {
                    assert(sessions(self@)[i as int] == session_id@);
                }
                let ghost before = self@;
                self.entries.remove(i);
                proof {
                    assert(self@ =~= before.remove(i as int));
                    lemma_remove_keeps_distinct(before, i as int);
                    lemma_remove_drops_session(before, i as int);
                }
            }
        }
    }

    /// Closes a session's channel if nobody subscribes to it at this instant.
    pub fn cleanup(&mut self, session_id: &str)
        requires
            old(self).wf(),
        ensures
            final(self).wf(),
            !sessions(old(self)@).contains(session_id@) ==> final(self)@ == old(self)@,
            final(self)@ == old(self)@ || exists|i: int|
                0 <= i < old(self)@.len() && old(self)@[i].0 == session_id@ && final(self)@
                    == old(self)@.remove(i),
            final(self)@ != old(self)@ ==> !sessions(final(self)@).contains(session_id@),
    {
        let receivers = match self.sender_of(session_id) {
            Some(tx) => live_receivers(tx),
            None => 1,
        };
        self.close_if_idle(session_id, receivers);
    }

    /// Closes the channel of each entry whose receiver count in `counts` is zero,
    /// keeping the others in order.
    pub fn retain_live(&mut self, counts: &Vec<usize>)
        requires
            old(self).wf(),
            counts@.len() == old(self)@.len(),
        ensures
            final(self).wf(),
            final(self)@ == live_entries(old(self)@, counts@),
    {
        let n = self.entries.len();
        let ghost orig = self@;
        let mut i: usize = n;
        proof {
            assert(orig.subrange(n as int, n as int) =~= Seq::<Entry>::empty());
            assert(orig.subrange(0, n as int) =~= orig);
            assert(self@ =~= orig.subrange(0, n as int) + live_entries(
                orig.subrange(n as int, n as int),
                counts@.subrange(n as int, n as int),
            ));
        }
        while i > 0
            invariant
                n == orig.len(),
                n == counts@.len(),
                i <= n,
                self.wf(),
                self@ == orig.subrange(0, i as int) + live_entries(
                    orig.subrange(i as int, n as int),
                    counts@.subrange(i as int, n as int),
                ),
            decreases i,
        {
            let k = i - 1;
            let ghost tail = live_entries(orig.subrange(i as int, n as int), counts@.subrange(i as int, n as int));
            proof {
                assert(orig.subrange(k as int, n as int).drop_first() =~= orig.subrange(i as int, n as int));
                assert(counts@.subrange(k as int, n as int).drop_first() =~= counts@.subrange(i as int, n as int));
                assert(orig.subrange(k as int, n as int)[0] == orig[k as int]);
                assert(orig.subrange(0, i as int) =~= orig.subrange(0, k as int).push(orig[k as int]));
            }
            assert(self@.len() == self.entries@.len());
            if counts[k] == 0 {
                let ghost before = self@;
                self.entries.remove(k);
                proof {
                    assert(self@ =~= before.remove(k as int));
                    lemma_remove_keeps_distinct(before, k as int);
                    assert(before.remove(k as int) =~= orig.subrange(0, k as int) + tail);
                }
            } else {
                proof {
                    assert(self@ =~= orig.subrange(0, k as int) + (seq![orig[k as int]] + tail));
                }
            }
            i = k;
        }
        proof {
            assert(orig.subrange(0, 0) =~= Seq::<Entry>::empty());
            assert(orig.subrange(0, n as int) =~= orig);
            assert(counts@.subrange(0, n as int) =~= counts@);
            assert(self@ =~= live_entries(orig, counts@));
        }
    }

    /// Closes every channel that nobody subscribes to at the instant it is inspected.
    pub fn cleanup_all(&mut self)
        requires
            old(self).wf(),
        ensures
            final(self).wf(),
            exists|counts: Seq<usize>|
                counts.len() == old(self)@.len() && final(self)@ == live_entries(old(self)@, counts),
    {
        let n = self.entries.len();
        let mut counts: Vec<usize> = Vec::new();
        let mut i: usize = 0;
        while i < n
            invariant
                n == self.entries@.len(),
                i <= n,
                counts@.len() == i,
            decreases n - i,
        {
            counts.push(live_receivers(&self.entries[i].1));
            i = i + 1;
        }
        self.retain_live(&counts);
    }
}

} // verus!
