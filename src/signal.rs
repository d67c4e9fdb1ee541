//! A signal: a mutable reactive cell that remembers who read it and tells
//! each of them once per batch that it changed.
//!
//! The reading context is passed in explicitly. Writes only mark the signal
//! changed; `flush` ends the batch and hands out the subscribers to notify,
//! so no notification runs inside a write.
use vstd::prelude::*;

verus! {

pub struct Signal<T> {
    value: T,
    subscribers: Vec<u64>,
    changed: bool,
}

/// The abstract contents of a signal.
pub struct SignalView<T> {
    pub value: T,
    pub subscribers: Seq<u64>,
    pub changed: bool,
}

impl<T> View for Signal<T> {
    type V = SignalView<T>;

    closed spec fn view(&self) -> SignalView<T> {
        SignalView { value: self.value, subscribers: self.subscribers@, changed: self.changed }
    }
}

impl<T> SignalView<T> {
    /// Each subscriber is recorded once.
    pub open spec fn wf(self) -> bool {
        self.subscribers.no_duplicates()
    }

    /// Effect of a read from context `ctx`.
    pub open spec fn read_by(self, ctx: Option<u64>) -> SignalView<T> {
        match ctx {
            Some(c) => if self.subscribers.contains(c) {
                self
            } else {
                SignalView { subscribers: self.subscribers.push(c), ..self }
            },
            None => self,
        }
    }

    /// Effect of writing `v`.
    pub open spec fn written(self, v: T) -> SignalView<T> {
        SignalView { value: v, changed: true, ..self }
    }

    /// Who a flush notifies.
    pub open spec fn to_notify(self) -> Seq<u64> {
        if self.changed {
            self.subscribers
        } else {
            seq![]
        }
    }
}

impl<T> Signal<T> {
    /// A signal holding `value`, with no subscriber and nothing to notify.
    pub fn new(value: T) -> (r: Signal<T>)
        ensures
            r@ == (SignalView { value, subscribers: Seq::<u64>::empty(), changed: false }),
    {
        Signal { value, subscribers: Vec::new(), changed: false }
    }

    /// Reads the value; a read inside context `ctx` subscribes it.
    pub fn read(&mut self, ctx: Option<u64>) -> (r: &T)
        requires
            old(self)@.wf(),
        ensures
            final(self)@ == old(self)@.read_by(ctx),
            final(self)@.wf(),
            *r == old(self)@.value,
    {
        if let Some(c) = ctx {
            let n = self.subscribers.len();
            let mut i: usize = 0;
            let mut found = false;
            while i < n
                invariant
                    n == self@.subscribers.len(),
                    self@ == old(self)@,
                    0 <= i <= n,
                    found == exists|j: int| 0 <= j < i && self@.subscribers[j] == c,
                decreases n - i,
            {
                if self.subscribers[i] == c {
                    found = true;
                }
                i = i + 1;
            }
            if !found {
                self.subscribers.push(c);
            }
        }
        &self.value
    }

    /// The value, read outside any context.
    pub fn get(&self) -> (r: &T)
        ensures
            *r == self@.value,
    {
        &self.value
    }

    /// Replaces the value and marks the signal changed for this batch.
    pub fn write(&mut self, v: T)
        ensures
            final(self)@ == old(self)@.written(v),
    {
        self.value = v;
        self.changed = true;
    }

    /// Ends the batch: returns the subscribers to notify, each once, or
    /// none when nothing was written since the last flush.
    pub fn flush(&mut self) -> (r: Vec<u64>)
        ensures
            r@ == old(self)@.to_notify(),
            final(self)@ == (SignalView { changed: false, ..old(self)@ }),
    {
        if self.changed {
            self.changed = false;
            let n = self.subscribers.len();
            let mut out: Vec<u64> = Vec::new();
            let mut i: usize = 0;
            while i < n
                invariant
                    n == self@.subscribers.len(),
                    self@.subscribers == old(self)@.subscribers,
                    0 <= i <= n,
                    out@ == self@.subscribers.subrange(0, i as int),
                decreases n - i,
            {
                out.push(self.subscribers[i]);
                assert(out@ =~= self@.subscribers.subrange(0, i + 1));
                i = i + 1;
            }
            assert(out@ =~= self@.subscribers);
            out
        } else {
            Vec::new()
        }
    }
}

/// However many writes a batch holds, its flush notifies every subscriber
/// exactly once, and a flush right after it notifies nobody.
pub proof fn lemma_once_per_batch<T>(v: SignalView<T>, writes: Seq<T>)
    requires
        v.wf(),
        writes.len() > 0,
    ensures
        written_all(v, writes).to_notify() == v.subscribers,
        written_all(v, writes).to_notify().no_duplicates(),
        (SignalView { changed: false, ..written_all(v, writes) }).to_notify().len() == 0,
    decreases writes.len(),
{
    if writes.len() > 1 {
        lemma_once_per_batch(v.written(writes[0]), writes.drop_first());
    } else {
        assert(written_all(v.written(writes[0]), writes.drop_first()) == v.written(writes[0]));
    }
}

/// The signal after each of `writes` in turn.
pub open spec fn written_all<T>(v: SignalView<T>, writes: Seq<T>) -> SignalView<T>
    decreases writes.len(),
{
    if writes.len() == 0 {
        v
    } else {
        written_all(v.written(writes[0]), writes.drop_first())
    }
}

} // verus!
