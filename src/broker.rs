//! A publish/subscribe broker that routes each event to the subscribers of its type.
use std::any::Any;
use std::any::TypeId;
use std::sync::Arc;
use vstd::prelude::*;

verus! {

#[verifier::external_type_specification]
#[verifier::external_body]
pub struct ExTypeId(TypeId);

/// A subscriber callback whose event type has been erased, so that callbacks
/// for different event types can share one list.
#[verifier::external_body]
pub struct Handler {
    call: Box<dyn Fn(&dyn Any) + Send + Sync>,
}

/// Relies on `std::any::TypeId::of`: the identifier of the type `T`.
#[verifier::external_body]
fn type_key<T: 'static>() -> (r: TypeId)
{
    TypeId::of::<T>()
}

/// Relies on `TypeId`'s `==`: two identifiers compare equal exactly when they are the same value.
#[verifier::external_body]
fn same_type(a: &TypeId, b: &TypeId) -> (r: bool)
    ensures
        r == (*a == *b),
{
    *a == *b
}

/// Relies on `Any::downcast_ref`: the handler calls `callback` with the event
/// exactly when the event it is handed is an `Arc<T>`.
#[verifier::external_body]
fn make_handler<T: 'static + Send + Sync, F: Fn(Arc<T>) + Send + Sync + 'static>(callback: F) -> (r: Handler)
{
    Handler {
        call: Box::new(
            move |event: &dyn Any|
                {
                    if let Some(ev) = event.downcast_ref::<Arc<T>>() {
                        callback(ev.clone())
                    }
                },
        ),
    }
}

impl Handler {
    /// Relies on calling the boxed closure that `make_handler` built.
    #[verifier::external_body]
    fn deliver<T: 'static + Send + Sync>(&self, event: &Arc<T>)
    {
        (self.call)(event)
    }
}

/// How many of the subscriptions in `entries` are for the event type `k`.
pub open spec fn count_key(entries: Seq<(TypeId, Handler)>, k: TypeId) -> nat
    decreases entries.len(),
{
    if entries.len() == 0 {
        0
    } else {
        count_key(entries.drop_last(), k) + if entries.last().0 == k {
            1nat
        } else {
            0nat
        }
    }
}

/// The subscriptions in `entries` that are not for the event type `k`, in order.
pub open spec fn without_key(entries: Seq<(TypeId, Handler)>, k: TypeId) -> Seq<(TypeId, Handler)>
    decreases entries.len(),
{
    if entries.len() == 0 {
        Seq::empty()
    } else if entries.last().0 == k {
        without_key(entries.drop_last(), k)
    } else {
        without_key(entries.drop_last(), k).push(entries.last())
    }
}

proof fn lemma_without_key_count(entries: Seq<(TypeId, Handler)>, k: TypeId, j: TypeId)
    ensures
        count_key(without_key(entries, k), j) == if j == k {
            0
        } else {
            count_key(entries, j)
        },
    decreases entries.len(),
{
    if entries.len() > 0 {
        lemma_without_key_count(entries.drop_last(), k, j);
        let w = without_key(entries.drop_last(), k);
        assert(w.push(entries.last()).drop_last() =~= w);
    }
}

/// Routes published events to the callbacks subscribed for their type, in the
/// order in which they subscribed.
pub struct EventBroker {
    entries: Vec<(TypeId, Handler)>,
}

impl EventBroker {
    /// The subscriptions, oldest first: the event type and its callback.
    pub closed spec fn subscriptions(&self) -> Seq<(TypeId, Handler)> {
        self.entries@
    }

    pub fn new() -> (r: Self)
        ensures
            r.subscriptions() == Seq::<(TypeId, Handler)>::empty(),
    {
        EventBroker { entries: Vec::new() }
    }

    /// Adds a subscription for the events of type `key`.
    pub fn subscribe_key(&mut self, key: TypeId, handler: Handler)
        ensures
            final(self).subscriptions() == old(self).subscriptions().push((key, handler)),
    {
        self.entries.push((key, handler));
    }

    /// Subscribes `callback` to every event of type `T` published from now on.
    pub fn subscribe<T, F>(&mut self, callback: F)
        where
            T: 'static + Send + Sync,
            F: Fn(Arc<T>) + Send + Sync + 'static,
        ensures
            final(self).subscriptions().len() == old(self).subscriptions().len() + 1,
            final(self).subscriptions().drop_last() == old(self).subscriptions(),
    {
        let key = type_key::<T>();
        let handler = make_handler::<T, F>(callback);
        self.subscribe_key(key, handler);
        proof {
            assert(self.subscriptions().drop_last() =~= old(self).subscriptions());
        }
    }

    /// Hands `event` to every subscription for the type `key`, oldest first.
    /// Returns how many there were.
    pub fn publish_key<T: 'static + Send + Sync>(&self, key: &TypeId, event: &Arc<T>) -> (r: usize)
        ensures
            r == count_key(self.subscriptions(), *key),
    {
        let mut delivered: usize = 0;
        let mut i: usize = 0;
        while i < self.entries.len()
            invariant
                i <= self.entries@.len(),
                delivered == count_key(self.entries@.take(i as int), *key),
                delivered <= i,
            decreases self.entries@.len() - i,
        {
            proof {
                assert(self.entries@.take(i + 1).drop_last() =~= self.entries@.take(i as int));
            }
            if same_type(&self.entries[i].0, key) {
                self.entries[i].1.deliver(event);
                delivered += 1;
            }
            i += 1;
        }
        proof {
            assert(self.entries@.take(i as int) =~= self.entries@);
        }
        delivered
    }

    /// Hands `event` to every callback subscribed for its type, oldest first.
    pub fn publish<T: 'static + Send + Sync>(&self, event: T) {
        let key = type_key::<T>();
        let shared = Arc::new(event);
        self.publish_key(&key, &shared);
    }

    /// Removes every subscription for the type `key`; the others keep their order.
    pub fn clear_key(&mut self, key: &TypeId)
        ensures
            final(self).subscriptions() == without_key(old(self).subscriptions(), *key),
    {
        let ghost orig = self.entries@;
        let mut i: usize = 0;
        let mut j: usize = 0;
        let n = self.entries.len();
        while j < n
            invariant
                n == orig.len(),
                j <= n,
                i <= j,
                i as int == without_key(orig.take(j as int), *key).len(),
                self.entries@ == without_key(orig.take(j as int), *key) + orig.skip(j as int),
            decreases n - j,
        {
            proof {
                assert(orig.take(j + 1).drop_last() =~= orig.take(j as int));
                assert(orig.take(j + 1).last() == orig[j as int]);
                assert(self.entries@[i as int] == orig[j as int]);
            }
            if same_type(&self.entries[i].0, key) {
                self.entries.remove(i);
                proof {
                    assert(self.entries@ =~= without_key(orig.take(j + 1), *key) + orig.skip(j + 1));
                }
            } else {
                i += 1;
                proof {
                    assert(self.entries@ =~= without_key(orig.take(j + 1), *key) + orig.skip(j + 1));
                }
            }
            j += 1;
        }
        proof {
            assert(orig.take(n as int) =~= orig);
            assert(self.entries@ =~= without_key(orig, *key));
        }
    }

    /// Removes every subscription for the event type `T`.
    pub fn clear_subscribers<T: 'static + Send + Sync>(&mut self)
        ensures
            exists|k: TypeId| final(self).subscriptions() == #[trigger] without_key(old(self).subscriptions(), k),
    {
        let key = type_key::<T>();
        self.clear_key(&key);
    }

    /// How many subscriptions there are for the type `key`.
    pub fn subscriber_count_key(&self, key: &TypeId) -> (r: usize)
        ensures
            r == count_key(self.subscriptions(), *key),
    {
        let mut count: usize = 0;
        let mut i: usize = 0;
        while i < self.entries.len()
            invariant
                i <= self.entries@.len(),
                count == count_key(self.entries@.take(i as int), *key),
                count <= i,
            decreases self.entries@.len() - i,
        {
            proof {
                assert(self.entries@.take(i + 1).drop_last() =~= self.entries@.take(i as int));
            }
            if same_type(&self.entries[i].0, key) {
                count += 1;
            }
            i += 1;
        }
        proof {
            assert(self.entries@.take(i as int) =~= self.entries@);
        }
        count
    }

    /// How many callbacks are subscribed for the event type `T`.
    pub fn subscriber_count<T: 'static + Send + Sync>(&self) -> (r: usize)
        ensures
            exists|k: TypeId| r == #[trigger] count_key(self.subscriptions(), k),
    {
        let key = type_key::<T>();
        self.subscriber_count_key(&key)
    }
}

impl Default for EventBroker {
    fn default() -> (r: Self)
        ensures
            r.subscriptions() == Seq::<(TypeId, Handler)>::empty(),
    {
        EventBroker::new()
    }
}

/// Clearing one event type leaves no subscription for it and leaves the count
/// of every other type as it was.
pub proof fn lemma_clear_counts(broker: EventBroker, k: TypeId, j: TypeId)
    ensures
        count_key(without_key(broker.subscriptions(), k), k) == 0,
        j != k ==> count_key(without_key(broker.subscriptions(), k), j) == count_key(
            broker.subscriptions(),
            j,
        ),
{
    lemma_without_key_count(broker.subscriptions(), k, k);
    lemma_without_key_count(broker.subscriptions(), k, j);
}

} // verus!
