//! The signals emitted so far.
use vstd::prelude::*;

use crate::types::signal::Signal;

verus! {

/// Keeps every signal published, in order.
#[derive(Debug, Clone)]
pub struct SignalPublisher {
    emitted: Vec<Signal>,
}

impl View for SignalPublisher {
    type V = Seq<Signal>;

    closed spec fn view(&self) -> Seq<Signal> {
        self.emitted@
    }
}

impl SignalPublisher {
    /// A publisher that keeps signals in memory only.
    pub fn new_memory() -> (r: SignalPublisher)
        ensures
            r@ == Seq::<Signal>::empty(),
    {
        SignalPublisher { emitted: Vec::new() }
    }

    /// Records the signal.
    pub fn publish(&mut self, signal: Signal)
        ensures
            final(self)@ == old(self)@.push(signal),
    {
        self.emitted.push(signal);
    }

    /// Records each signal in order and returns how many there were.
    pub fn publish_many(&mut self, signals: Vec<Signal>) -> (r: usize)
        ensures
            final(self)@ == old(self)@ + signals@,
            r == signals@.len(),
    {
        let ghost start = self@;
        let ghost all = signals@;
        let n = signals.len();
        let mut source = signals;
        let mut count: usize = 0;
        assert(all.take(0) =~= Seq::<Signal>::empty());
        assert(start =~= start + all.take(0));
        while source.len() > 0
            invariant
                count + source@.len() == n,
                n == all.len(),
                source@ == all.skip(count as int),
                start == old(self)@,
                self@ == start + all.take(count as int),
            decreases source@.len(),
        {
            let s = source.remove(0);
            proof {
                assert(all.take(count + 1) =~= all.take(count as int).push(s));
                assert(all.skip(count + 1) =~= all.skip(count as int).drop_first());
            }
            self.publish(s);
            assert(self@ =~= start + all.take(count + 1));
            count = count + 1;
        }
        assert(all.take(count as int) =~= all);
        count
    }

    /// The signals published, in order.
    pub fn emitted(&self) -> (r: &Vec<Signal>)
        ensures
            r@ == self@,
    {
        &self.emitted
    }

    pub fn len(&self) -> (r: usize)
        ensures
            r == self@.len(),
    {
        self.emitted.len()
    }

    pub fn is_empty(&self) -> (r: bool)
        ensures
            r == (self@.len() == 0),
    {
        self.emitted.len() == 0
    }

    /// Forgets the signals kept in memory.
    pub fn clear_memory(&mut self)
        ensures
            final(self)@ == Seq::<Signal>::empty(),
    {
        self.emitted = Vec::new();
    }
}

} // verus!
