//! The sampler's decisions: what a timer tick leads to, the deliveries of one
//! fan-out round, and how a publish outcome is settled.
use vstd::prelude::*;

use crate::link::{LinkDefinition, LinkView};
use crate::metrics::{event_for, AgentIdentity, EventView, IdentityView, MetricEvent, SystemMetrics};
use crate::registry::{represents, EntryView, Snapshot, SubscriberRegistry};

verus! {

/// The time between two sampling ticks, in seconds.
pub const TICK_INTERVAL_SECS: u64 = 10;

/// What one timer tick leads to.
pub enum TickAction {
    /// Nobody is subscribed: no sample is taken and nothing is published.
    Skip,
    /// Take one sample and publish it to every subscriber of the snapshot.
    Sample(Snapshot),
}

/// The action for a tick that finds the registry in its current state.
pub fn plan_tick(registry: &SubscriberRegistry) -> (r: TickAction)
    requires
        registry.wf(),
    ensures
        match r {
            TickAction::Skip => registry@ == Map::<Seq<char>, LinkView>::empty(),
            TickAction::Sample(s) => registry@ != Map::<Seq<char>, LinkView>::empty()
                && represents(s@, registry@),
        },
{
    if registry.is_empty() {
        TickAction::Skip
    } else {
        TickAction::Sample(registry.snapshot())
    }
}

/// One publish to make: the event for one subscriber, with the link to reach it.
#[derive(Debug)]
pub struct Delivery {
    pub subscriber: String,
    pub link: LinkDefinition,
    pub event: MetricEvent,
}

pub struct DeliveryView {
    pub subscriber: Seq<char>,
    pub link: LinkView,
    pub event: EventView,
}

impl View for Delivery {
    type V = DeliveryView;

    open spec fn view(&self) -> DeliveryView {
        DeliveryView { subscriber: self.subscriber@, link: self.link@, event: self.event@ }
    }
}

/// The delivery owed to the subscriber of `entry` when the agent `id` has
/// taken sample `m`.
pub open spec fn delivery_for(entry: EntryView, id: IdentityView, m: SystemMetrics) -> DeliveryView {
    DeliveryView { subscriber: entry.0, link: entry.1, event: event_for(id, m) }
}

/// The deliveries of one round: one per entry of the snapshot, in its order.
pub open spec fn round(entries: Seq<EntryView>, id: IdentityView, m: SystemMetrics) -> Seq<DeliveryView> {
    entries.map_values(|e: EntryView| delivery_for(e, id, m))
}

pub open spec fn deliveries_view(d: Seq<Delivery>) -> Seq<DeliveryView> {
    d.map_values(|x: Delivery| x@)
}

/// The deliveries for sample `metrics` to every subscriber of `snapshot`.
pub fn fan_out(snapshot: &Snapshot, identity: &AgentIdentity, metrics: SystemMetrics) -> (r: Vec<Delivery>)
    ensures
        deliveries_view(r@) == round(snapshot@, identity@, metrics),
{
    let mut out: Vec<Delivery> = Vec::new();
    let n: usize = snapshot.len();
    let mut i: usize = 0;
    while i < n
        invariant
            n == snapshot@.len(),
            i <= n,
            out@.len() == i,
            forall|k: int| 0 <= k < i ==> #[trigger] out@[k]@ == delivery_for(snapshot@[k], identity@, metrics),
        decreases n - i,
    {
        let (id, link) = snapshot.entry(i);
        out.push(Delivery {
            subscriber: id.clone(),
            link: link.duplicate(),
            event: MetricEvent::new(identity, metrics),
        });
        i = i + 1;
    }
    assert(deliveries_view(out@) =~= round(snapshot@, identity@, metrics));
    out
}

/// A publish that failed: to whom, and why.
#[derive(Debug)]
pub struct PublishFailure {
    pub subscriber: String,
    pub error: String,
}

/// What the outcome of publishing `delivery` leaves to report: nothing on
/// success, else the failure with the subscriber's id and the error's text.
pub fn settle(delivery: &Delivery, outcome: Result<(), String>) -> (r: Option<PublishFailure>)
    ensures
        match outcome {
            Ok(()) => r is None,
            Err(e) => r matches Some(f) && f.subscriber@ == delivery.subscriber@ && f.error@ == e@,
        },
{
    match outcome {
        Ok(()) => None,
        Err(e) => Some(PublishFailure { subscriber: delivery.subscriber.clone(), error: e }),
    }
}

/// One round to `n` subscribers is `n` deliveries, one to each subscriber with
/// its own link, and every one of them carries the same event: the round's
/// single sample, under one instance id and one host name.
pub proof fn lemma_round_uniform(entries: Seq<EntryView>, id: IdentityView, m: SystemMetrics)
    ensures
        round(entries, id, m).len() == entries.len(),
        forall|j: int|
            0 <= j < entries.len() ==> (#[trigger] round(entries, id, m)[j]).subscriber == entries[j].0
                && round(entries, id, m)[j].link == entries[j].1,
        forall|j: int|
            0 <= j < entries.len() ==> (#[trigger] round(entries, id, m)[j]).event.system == Some(m)
                && round(entries, id, m)[j].event.uuid == id.instance_id
                && round(entries, id, m)[j].event.hostname == id.hostname,
        forall|a: int, b: int|
            0 <= a < entries.len() && 0 <= b < entries.len() ==> (#[trigger] round(entries, id, m)[a]).event
                == (#[trigger] round(entries, id, m)[b]).event,
{
}

/// What one subscriber receives does not depend on any other subscriber: the
/// delivery to subscriber `j` is the same whether or not subscriber `i` takes
/// part in the round, so a publish to `i` that fails neither keeps `j` from
/// its delivery nor changes what `j` is sent.
pub proof fn lemma_fault_isolation(entries: Seq<EntryView>, id: IdentityView, m: SystemMetrics, i: int, j: int)
    requires
        0 <= i < entries.len(),
        0 <= j < entries.len(),
        i != j,
    ensures
        round(entries, id, m)[j] == delivery_for(entries[j], id, m),
        round(entries.remove(i), id, m)[if j < i { j } else { j - 1 }] == round(entries, id, m)[j],
{
    let k = if j < i { j } else { j - 1 };
    assert(entries.remove(i)[k] == entries[j]);
}

/// After the link of `k` is replaced by a second insert, the next round
/// reaches `k` exactly once, through the newer link.
pub proof fn lemma_reinsert_uses_latest(
    m: Map<Seq<char>, LinkView>,
    k: Seq<char>,
    d1: LinkView,
    d2: LinkView,
    snap: Seq<EntryView>,
    id: IdentityView,
    metrics: SystemMetrics,
)
    requires
        represents(snap, m.insert(k, d1).insert(k, d2)),
    ensures
        exists|j: int|
            0 <= j < snap.len() && (#[trigger] round(snap, id, metrics)[j]).subscriber == k
                && round(snap, id, metrics)[j].link == d2,
        forall|j: int|
            0 <= j < snap.len() && (#[trigger] round(snap, id, metrics)[j]).subscriber == k
                ==> round(snap, id, metrics)[j].link == d2,
        forall|a: int, b: int|
            0 <= a < snap.len() && 0 <= b < snap.len() && (#[trigger] round(snap, id, metrics)[a]).subscriber
                == k && (#[trigger] round(snap, id, metrics)[b]).subscriber == k ==> a == b,
{
    let r = m.insert(k, d1).insert(k, d2);
    assert(r.contains_key(k));
    let j = choose|j: int| 0 <= j < snap.len() && snap[j].0 == k;
    assert(round(snap, id, metrics)[j].subscriber == k);
}

/// Removing subscriber `a` and adding a different subscriber `b` between two
/// ticks changes the next round accordingly: nothing goes to `a`, `b` is
/// reached through its new link, every other subscriber is reached as before,
/// and no one else is.
pub proof fn lemma_replace_subscriber(
    m: Map<Seq<char>, LinkView>,
    a: Seq<char>,
    b: Seq<char>,
    d: LinkView,
    snap: Seq<EntryView>,
    id: IdentityView,
    metrics: SystemMetrics,
)
    requires
        a != b,
        represents(snap, m.remove(a).insert(b, d)),
    ensures
        forall|j: int| 0 <= j < snap.len() ==> (#[trigger] round(snap, id, metrics)[j]).subscriber != a,
        exists|j: int|
            0 <= j < snap.len() && (#[trigger] round(snap, id, metrics)[j]).subscriber == b
                && round(snap, id, metrics)[j].link == d,
        forall|k: Seq<char>|
            k != a && k != b && #[trigger] m.contains_key(k) ==> exists|j: int|
                0 <= j < snap.len() && round(snap, id, metrics)[j].subscriber == k
                    && round(snap, id, metrics)[j].link == m[k],
        forall|j: int|
            0 <= j < snap.len() ==> (#[trigger] round(snap, id, metrics)[j]).subscriber == b || m.contains_key(
                round(snap, id, metrics)[j].subscriber,
            ),
{
    let r = m.remove(a).insert(b, d);
    assert forall|j: int| 0 <= j < snap.len() implies (#[trigger] round(snap, id, metrics)[j]).subscriber != a by {
        assert(r.contains_key(snap[j].0));
    }
    assert(r.contains_key(b));
    let jb = choose|j: int| 0 <= j < snap.len() && snap[j].0 == b;
    assert(round(snap, id, metrics)[jb].subscriber == b);
    assert forall|k: Seq<char>| k != a && k != b && #[trigger] m.contains_key(k) implies exists|j: int|
        0 <= j < snap.len() && round(snap, id, metrics)[j].subscriber == k
            && round(snap, id, metrics)[j].link == m[k] by {
        assert(r.contains_key(k));
        let j = choose|j: int| 0 <= j < snap.len() && snap[j].0 == k;
        assert(round(snap, id, metrics)[j].subscriber == k);
    }
    assert forall|j: int| 0 <= j < snap.len() implies (#[trigger] round(snap, id, metrics)[j]).subscriber == b
        || m.contains_key(round(snap, id, metrics)[j].subscriber) by {
        assert(r.contains_key(snap[j].0));
    }
}

} // verus!
