//! A single-writer, many-reader latest-value cell.
//!
//! Only the newest published value is kept. Every publish bumps a version
//! number; a subscription remembers the last version it was handed and is
//! handed the newest value whenever the cell has moved past it. Values
//! published while a subscription was not looking are skipped, never queued.
use vstd::prelude::*;

verus! {

/// What a publisher is, mathematically.
pub ghost struct PublisherView<T> {
    /// The value a fresh subscription is handed once anything has been published.
    pub latest: T,
    /// How many values have been published so far.
    pub version: nat,
    /// How many subscriptions are currently attached.
    pub subscribers: nat,
    /// Every value ever published, oldest first (ghost: it costs no memory).
    pub published: Seq<T>,
}

impl<T> PublisherView<T> {
    /// The state after `value` is published.
    pub open spec fn after_publish(self, value: T) -> PublisherView<T> {
        PublisherView {
            latest: value,
            version: self.version + 1,
            subscribers: self.subscribers,
            published: self.published.push(value),
        }
    }

    /// The state after one subscription attaches.
    pub open spec fn after_subscribe(self) -> PublisherView<T> {
        PublisherView { subscribers: self.subscribers + 1, ..self }
    }

    /// The state after one subscription detaches.
    pub open spec fn after_unsubscribe(self) -> PublisherView<T> {
        PublisherView { subscribers: (self.subscribers - 1) as nat, ..self }
    }

    /// The state after publishing each of `values` in turn.
    pub open spec fn after_publish_all(self, values: Seq<T>) -> PublisherView<T>
        decreases values.len(),
    {
        if values.len() == 0 {
            self
        } else {
            self.after_publish_all(values.drop_last()).after_publish(values.last())
        }
    }

    /// The latest value is the last one published, or the initial value while
    /// nothing has been published.
    pub open spec fn wf(self) -> bool {
        &&& self.published.len() == self.version
        &&& self.version > 0 ==> self.latest == self.published.last()
    }
}

/// What a subscription is, mathematically.
pub ghost struct SubscriptionView {
    /// The version of the last value handed out, or 0 if none was.
    pub seen: nat,
    /// The version of each value handed out, in the order they were handed out.
    pub delivered: Seq<nat>,
}

impl SubscriptionView {
    /// A subscription that has been handed nothing yet.
    pub open spec fn fresh() -> SubscriptionView {
        SubscriptionView { seen: 0, delivered: Seq::empty() }
    }

    /// Versions handed out only ever increase, start at 1, and the last one is
    /// `seen`.
    pub open spec fn wf(self) -> bool {
        &&& forall|i: int, j: int|
            0 <= i < j < self.delivered.len() ==> self.delivered[i] < self.delivered[j]
        &&& forall|i: int| 0 <= i < self.delivered.len() ==> self.delivered[i] >= 1
        &&& self.delivered.len() == 0 ==> self.seen == 0
        &&& self.delivered.len() > 0 ==> self.delivered.last() == self.seen
    }

    /// The publisher holds a value this subscription has not been handed.
    pub open spec fn pending<T>(self, p: PublisherView<T>) -> bool {
        p.version > self.seen
    }

    /// The subscription after it is handed the value `p` holds.
    pub open spec fn after_delivery<T>(self, p: PublisherView<T>) -> SubscriptionView {
        SubscriptionView { seen: p.version, delivered: self.delivered.push(p.version) }
    }

    /// The values handed out so far, read back from the publisher's history.
    pub open spec fn observed<T>(self, p: PublisherView<T>) -> Seq<T> {
        self.delivered.map_values(|k: nat| p.published[k - 1])
    }
}

/// A reader's cursor into a publisher.
pub struct Subscription {
    seen: u64,
    delivered: Ghost<Seq<nat>>,
}

impl View for Subscription {
    type V = SubscriptionView;

    closed spec fn view(&self) -> SubscriptionView {
        SubscriptionView { seen: self.seen as nat, delivered: self.delivered@ }
    }
}

impl Subscription {
    /// The version of the last value this subscription was handed, 0 if none.
    pub fn seen(&self) -> (r: u64)
        ensures
            r == self@.seen,
    {
        self.seen
    }
}

/// The cell. `T` is the snapshot type; only one value of it is ever held.
pub struct Publisher<T> {
    latest: T,
    version: u64,
    subscribers: u64,
    published: Ghost<Seq<T>>,
}

impl<T> View for Publisher<T> {
    type V = PublisherView<T>;

    closed spec fn view(&self) -> PublisherView<T> {
        PublisherView {
            latest: self.latest,
            version: self.version as nat,
            subscribers: self.subscribers as nat,
            published: self.published@,
        }
    }
}

impl<T> Publisher<T> {
    pub open spec fn wf(&self) -> bool {
        self@.wf()
    }

    /// A cell that holds `initial` until the first publish, with no
    /// subscriptions.
    pub fn new(initial: T) -> (p: Publisher<T>)
        ensures
            p.wf(),
            p@.latest == initial,
            p@.version == 0,
            p@.subscribers == 0,
            p@.published == Seq::<T>::empty(),
    {
        Publisher { latest: initial, version: 0, subscribers: 0, published: Ghost(Seq::empty()) }
    }

    /// Replaces the held value by `value` and returns the value it replaces.
    /// Never waits on, nor looks at, any subscription.
    pub fn publish(&mut self, value: T) -> (previous: T)
        requires
            old(self).wf(),
            old(self)@.version < u64::MAX,
        ensures
            final(self).wf(),
            final(self)@ == old(self)@.after_publish(value),
            previous == old(self)@.latest,
    {
        let mut value = value;
        std::mem::swap(&mut self.latest, &mut value);
        self.version = self.version + 1;
        self.published = Ghost(self.published@.push(self.latest));
        value
    }

    /// Attaches a new subscription. It is handed the held value as soon as
    /// anything has been published, and before that it waits for the first
    /// publish.
    pub fn subscribe(&mut self) -> (sub: Subscription)
        requires
            old(self).wf(),
            old(self)@.subscribers < u64::MAX,
        ensures
            final(self).wf(),
            final(self)@ == old(self)@.after_subscribe(),
            sub@ == SubscriptionView::fresh(),
            sub@.wf(),
    {
        self.subscribers = self.subscribers + 1;
        Subscription { seen: 0, delivered: Ghost(Seq::empty()) }
    }

    /// Detaches `sub`, releasing it. Nothing else about the cell changes.
    pub fn unsubscribe(&mut self, sub: Subscription)
        requires
            old(self).wf(),
            old(self)@.subscribers > 0,
        ensures
            final(self).wf(),
            final(self)@ == old(self)@.after_unsubscribe(),
    {
        self.subscribers = self.subscribers - 1;
    }

    /// Hands `sub` the held value if it has not been handed it yet, and
    /// nothing otherwise. Values published since its last delivery but
    /// already replaced are skipped.
    pub fn poll<'a>(&'a self, sub: &mut Subscription) -> (r: Option<&'a T>)
        requires
            self.wf(),
            old(sub)@.wf(),
        ensures
            final(sub)@.wf(),
            old(sub)@.pending(self@) ==> r is Some && *r.unwrap() == self@.latest
                && final(sub)@ == old(sub)@.after_delivery(self@),
            !old(sub)@.pending(self@) ==> r is None && final(sub)@ == old(sub)@,
    {
        if self.version > sub.seen {
            sub.seen = self.version;
            sub.delivered = Ghost(sub.delivered@.push(self.version as nat));
            Some(&self.latest)
        } else {
            None
        }
    }

    /// The held value.
    pub fn latest(&self) -> (r: &T)
        ensures
            *r == self@.latest,
    {
        &self.latest
    }

    /// How many values have been published.
    pub fn version(&self) -> (r: u64)
        ensures
            r == self@.version,
    {
        self.version
    }

    /// How many subscriptions are attached.
    pub fn subscriber_count(&self) -> (r: u64)
        ensures
            r == self@.subscribers,
    {
        self.subscribers
    }
}

/// Publishing never depends on subscriptions, and however many values are
/// published the cell keeps exactly one of them, the last, while the
/// subscriptions attached stay as they were.
pub proof fn lemma_publishes_keep_only_latest<T>(p: PublisherView<T>, values: Seq<T>)
    requires
        p.wf(),
    ensures
        p.after_publish_all(values).wf(),
        p.after_publish_all(values).version == p.version + values.len(),
        p.after_publish_all(values).subscribers == p.subscribers,
        p.after_publish_all(values).published == p.published + values,
        values.len() > 0 ==> p.after_publish_all(values).latest == values.last(),
        values.len() == 0 ==> p.after_publish_all(values) == p,
    decreases values.len(),
{
    if values.len() > 0 {
        lemma_publishes_keep_only_latest(p, values.drop_last());
        assert(p.published + values =~= (p.published + values.drop_last()).push(values.last()));
    }
}

/// A subscription attached before anything was published is handed nothing
/// until the first publish, and is then handed exactly that first value.
pub proof fn lemma_first_publish_is_observed<T>(p: PublisherView<T>, value: T)
    requires
        p.wf(),
        p.version == 0,
    ensures
        !SubscriptionView::fresh().pending(p),
        SubscriptionView::fresh().pending(p.after_publish(value)),
        p.after_publish(value).latest == value,
        SubscriptionView::fresh().after_delivery(p.after_publish(value)).observed(
            p.after_publish(value),
        ) == seq![value],
{
    let q = p.after_publish(value);
    let s = SubscriptionView::fresh().after_delivery(q);
    assert(s.delivered =~= seq![1nat]);
    assert(s.observed(q) =~= seq![value]);
}

/// What a subscription is handed is published values in publish order: never
/// out of order, never the same publish twice, and once it has caught up the
/// last value it was handed is the newest one.
pub proof fn lemma_observed_in_publish_order<T>(p: PublisherView<T>, s: SubscriptionView)
    requires
        p.wf(),
        s.wf(),
        s.seen <= p.version,
    ensures
        s.observed(p).len() == s.delivered.len(),
        forall|i: int, j: int|
            0 <= i < j < s.delivered.len() ==> s.delivered[i] < s.delivered[j],
        forall|i: int|
            0 <= i < s.delivered.len() ==> 1 <= s.delivered[i] <= p.version
                && #[trigger] s.observed(p)[i] == p.published[s.delivered[i] - 1],
        s.seen == p.version && p.version > 0 ==> s.observed(p).last() == p.latest,
{
    assert forall|i: int| 0 <= i < s.delivered.len() implies s.delivered[i] <= p.version by {
        if i < s.delivered.len() - 1 {
            assert(s.delivered[i] < s.delivered[s.delivered.len() - 1]);
        }
    }
}

/// Publishing keeps every subscription's cursor meaningful: the value it was
/// last handed stays in the history, and it now has a newer value pending.
pub proof fn lemma_publish_keeps_subscription<T>(p: PublisherView<T>, s: SubscriptionView, value: T)
    requires
        p.wf(),
        s.wf(),
        s.seen <= p.version,
    ensures
        s.seen <= p.after_publish(value).version,
        s.pending(p.after_publish(value)),
        s.observed(p.after_publish(value)) == s.observed(p),
{
    lemma_observed_in_publish_order(p, s);
    let q = p.after_publish(value);
    assert(s.observed(q) =~= s.observed(p));
}

/// A subscription that keeps pace, polling after every publish, is handed
/// each published value once, in publish order.
pub proof fn lemma_keeping_pace_sees_each_publish<T>(
    p: PublisherView<T>,
    s: SubscriptionView,
    value: T,
)
    requires
        p.wf(),
        s.wf(),
        s.seen == p.version,
    ensures
        s.pending(p.after_publish(value)),
        s.after_delivery(p.after_publish(value)).wf(),
        s.after_delivery(p.after_publish(value)).observed(p.after_publish(value)) == s.observed(
            p,
        ).push(value),
{
    let q = p.after_publish(value);
    let t = s.after_delivery(q);
    lemma_observed_in_publish_order(p, s);
    assert(t.observed(q) =~= s.observed(p).push(value));
}

/// Detaching one subscription releases its slot and changes nothing that any
/// other subscription is or will be handed.
pub proof fn lemma_unsubscribe_leaves_others<T>(p: PublisherView<T>, other: SubscriptionView)
    requires
        p.wf(),
        p.subscribers > 0,
    ensures
        p.after_unsubscribe().wf(),
        p.after_unsubscribe().subscribers == p.subscribers - 1,
        p.after_unsubscribe().latest == p.latest,
        p.after_unsubscribe().published == p.published,
        other.pending(p.after_unsubscribe()) == other.pending(p),
        other.after_delivery(p.after_unsubscribe()) == other.after_delivery(p),
        other.observed(p.after_unsubscribe()) == other.observed(p),
{
}

} // verus!
