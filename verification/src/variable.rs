//! A value owned by the audio side, with a sender through which other
//! threads post replacements and updates. The owner applies all of them, in
//! the order in which they were posted, when it asks for the value.

use tokio::sync::mpsc::{UnboundedReceiver, UnboundedSender};
use vstd::prelude::*;

verus! {

/// `tokio::sync::mpsc::UnboundedSender`, the posting end of a queue. Nothing
/// is known of what it holds.
#[verifier::external_type_specification]
#[verifier::external_body]
#[verifier::reject_recursive_types(T)]
pub struct ExUnboundedSender<T>(UnboundedSender<T>);

/// `tokio::sync::mpsc::UnboundedReceiver`, the taking end of a queue.
/// Nothing is known of what it holds.
#[verifier::external_type_specification]
#[verifier::external_body]
#[verifier::reject_recursive_types(T)]
pub struct ExUnboundedReceiver<T>(UnboundedReceiver<T>);

/// What a sender can post.
pub enum Update<T, F> {
    /// Replace the value.
    Replace(T),
    /// Replace the value by what the function makes of it.
    Apply(F),
}

/// `after` is what `update` can make of `before`.
pub open spec fn applies<T, F: Fn(&T) -> T>(update: Update<T, F>, before: T, after: T) -> bool {
    match update {
        Update::Replace(v) => after == v,
        Update::Apply(f) => call_ensures(f, (&before,), after),
    }
}

/// `values` is what `updates`, applied one after the other, make of
/// `values[0]`: one value more than there are updates, each the result of
/// applying the update before it to the value before it.
pub open spec fn run_of<T, F: Fn(&T) -> T>(updates: Seq<Update<T, F>>, values: Seq<T>) -> bool {
    &&& values.len() == updates.len() + 1
    &&& forall|i: int|
        0 <= i < updates.len() ==> applies(updates[i], #[trigger] values[i], values[i + 1])
}

/// Every function of type `F` can be called on every value.
pub open spec fn always_callable<T, F: Fn(&T) -> T>() -> bool {
    forall|f: F, v: T| call_requires(f, (&v,))
}

/// Makes a channel of tokio without bound: `tokio::sync::mpsc::unbounded_channel`.
/// Nothing is claimed of the two halves.
#[verifier::external_body]
fn open_channel<U>() -> (ends: (UnboundedSender<U>, UnboundedReceiver<U>)) {
    tokio::sync::mpsc::unbounded_channel()
}

/// Queues `update` with `UnboundedSender::send`, which never waits. Where the
/// receiver is gone the update is dropped. Nothing is claimed.
#[verifier::external_body]
fn post<U>(tx: &UnboundedSender<U>, update: U) {
    let _ = tx.send(update);
}

/// The number of queued messages that `UnboundedReceiver::len` reports.
/// Other threads may be posting meanwhile, so nothing is claimed of it.
#[verifier::external_body]
fn pending<U>(rx: &UnboundedReceiver<U>) -> (n: usize) {
    rx.len()
}

/// The oldest queued message, taken with `UnboundedReceiver::try_recv`, or
/// `None` where the queue is empty or closed. Nothing is claimed of it.
#[verifier::external_body]
fn try_next<U>(rx: &mut UnboundedReceiver<U>) -> (next: Option<U>) {
    rx.try_recv().ok()
}

/// Something through which a value can be posted.
pub trait VariableSetter<T> {
    /// Posts `value` as the new value.
    fn set(&self, value: T);
}

/// The posting side of a `Variable`.
#[verifier::reject_recursive_types(T)]
#[verifier::reject_recursive_types(F)]
pub struct VariableSender<T, F> {
    tx: UnboundedSender<Update<T, F>>,
}

impl<T, F: Fn(&T) -> T> VariableSender<T, F> {
    /// Posts `update`. It takes effect when the owner next updates.
    pub fn send(&self, update: Update<T, F>) {
        post(&self.tx, update);
    }

    /// Posts a function to be applied to the value.
    pub fn apply(&self, f: F) {
        post(&self.tx, Update::Apply(f));
    }
}

impl<T, F: Fn(&T) -> T> VariableSetter<T> for VariableSender<T, F> {
    fn set(&self, value: T) {
        post(&self.tx, Update::Replace(value));
    }
}

/// Applies one update to a value.
pub fn apply_update<T, F: Fn(&T) -> T>(value: &T, update: Update<T, F>) -> (r: T)
    requires
        update matches Update::Apply(f) ==> call_requires(f, (value,)),
    ensures
        applies(update, *value, r),
{
    match update {
        Update::Replace(v) => v,
        Update::Apply(f) => f(value),
    }
}

/// A value with a queue of updates that other threads fill.
#[verifier::reject_recursive_types(T)]
#[verifier::reject_recursive_types(F)]
pub struct Variable<T, F> {
    value: T,
    rx: UnboundedReceiver<Update<T, F>>,
}

impl<T, F: Fn(&T) -> T> Variable<T, F> {
    /// The value as of the last update.
    pub closed spec fn current(&self) -> T {
        self.value
    }

    /// A variable that holds `value`, and the sender that posts to it.
    pub fn new(value: T) -> (r: (Self, VariableSender<T, F>))
        ensures
            r.0.current() == value,
    {
        let (tx, rx) = open_channel();
        (Self { value, rx }, VariableSender { tx })
    }

    /// The value as of the last update; the queue is not looked at.
    pub fn value(&self) -> (v: &T)
        ensures
            *v == self.current(),
    {
        &self.value
    }

    /// The value itself, to be changed in place; the queue is not looked at.
    pub fn value_mut(&mut self) -> (v: &mut T)
        ensures
            *v == old(self).current(),
            final(self).current() == *final(v),
    {
        &mut self.value
    }

    /// Applies every update that is queued, oldest first, and never waits:
    /// the new value is what some sequence of updates makes of the old one,
    /// step by step. With nothing queued the value stays.
    pub fn update(&mut self) -> (v: &T)
        requires
            always_callable::<T, F>(),
        ensures
            exists|updates: Seq<Update<T, F>>, values: Seq<T>|
                {
                    &&& #[trigger] run_of(updates, values)
                    &&& values[0] == old(self).current()
                    &&& values.last() == final(self).current()
                },
            *v == final(self).current(),
    {
        let n: usize = pending(&self.rx);
        let ghost mut updates: Seq<Update<T, F>> = Seq::empty();
        let ghost mut values: Seq<T> = seq![self.value];
        let mut i: usize = 0;
        while i < n
            invariant
                always_callable::<T, F>(),
                run_of(updates, values),
                values[0] == old(self).current(),
                values.last() == self.value,
            decreases n - i,
        {
            match try_next(&mut self.rx) {
                Some(update) => {
                    let next = apply_update(&self.value, update);
                    proof {
                        let ghost before = values;
                        updates = updates.push(update);
                        values = values.push(next);
                        assert forall|k: int| 0 <= k < updates.len() implies applies(
                            updates[k],
                            #[trigger] values[k],
                            values[k + 1],
                        ) by {
                            if k < updates.len() - 1 {
                                assert(values[k] == before[k]);
                                assert(values[k + 1] == before[k + 1]);
                            }
                        }
                    }
                    self.value = next;
                    i = i + 1;
                },
                None => {
                    i = n;
                },
            }
        }
        &self.value
    }

    /// Like `update`, and hands out the value itself, to be changed in
    /// place.
    pub fn update_mut(&mut self) -> (v: &mut T)
        requires
            always_callable::<T, F>(),
        ensures
            exists|updates: Seq<Update<T, F>>, values: Seq<T>|
                {
                    &&& #[trigger] run_of(updates, values)
                    &&& values[0] == old(self).current()
                    &&& values.last() == *v
                },
            final(self).current() == *final(v),
    {
        let _ = self.update();
        self.value_mut()
    }
}

} // verus!
