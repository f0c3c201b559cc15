//! The sequential delivery driver. It owns the batching state and the batch
//! counter; the surrounding program feeds it one line at a time, performs one
//! HTTP round trip per dispatched batch, and reports each outcome before the
//! next batch is built.

use vstd::prelude::*;
use crate::batch::{Batcher, batch_ok, batches_of, body_of, line_len, sum_len};

verus! {

/// One batch ready to be transmitted: its index in the run, its byte size
/// (the sum of its line lengths), and the request body.
pub struct Dispatch {
    pub index: usize,
    pub size: usize,
    pub body: String,
}

/// The driver's state: a run moves through reading and batching, dispatching
/// one batch at a time, until the input is exhausted and the last partial
/// batch has been flushed.
pub struct Orchestrator {
    batcher: Batcher,
    next_index: usize,
    done: bool,
}

impl Orchestrator {
    /// The configured threshold.
    pub closed spec fn max_spec(&self) -> nat {
        self.batcher.max_spec()
    }

    /// The views of all lines fed in so far.
    pub closed spec fn lines_in(&self) -> Seq<Seq<char>> {
        self.batcher.pushed()
    }

    /// The views of all batches dispatched so far.
    pub closed spec fn sent(&self) -> Seq<Seq<Seq<char>>> {
        self.batcher.emitted()
    }

    /// The views of the lines accumulated toward the batch being built.
    pub closed spec fn pending(&self) -> Seq<Seq<char>> {
        self.batcher.pending()
    }

    /// Whether the input has been declared exhausted.
    pub closed spec fn is_done(&self) -> bool {
        self.done
    }

    /// The driver's invariant: the batcher is consistent and the batch
    /// counter equals the number of batches dispatched so far.
    pub closed spec fn wf(&self) -> bool {
        &&& self.batcher.wf()
        &&& self.next_index == self.sent().len()
        &&& (self.done ==> self.pending().len() == 0 && self.lines_in().len() == 0)
    }

    /// A fresh driver with nothing read and nothing sent.
    pub fn new(max_bytes: usize) -> (r: Orchestrator)
        ensures
            r.wf(),
            !r.is_done(),
            r.max_spec() == max_bytes as nat,
            r.lines_in() == Seq::<Seq<char>>::empty(),
            r.sent() == Seq::<Seq<Seq<char>>>::empty(),
            r.pending() == Seq::<Seq<char>>::empty(),
    {
        Orchestrator { batcher: Batcher::new(max_bytes), next_index: 0, done: false }
    }

    /// How many batches have been dispatched so far.
    pub fn dispatched(&self) -> (n: usize)
        requires
            self.wf(),
        ensures
            n == self.sent().len(),
    {
        self.next_index
    }

    /// Whether the run has ended.
    pub fn finished(&self) -> (b: bool)
        ensures
            b == self.is_done(),
    {
        self.done
    }

    /// Feed the next line of the input. `Some` is returned exactly when the
    /// line completes the batch being built; that batch is then to be
    /// transmitted before any further line is read.
    pub fn offer_line(&mut self, line: String) -> (r: Option<Dispatch>)
        requires
            old(self).wf(),
            !old(self).is_done(),
            old(self).sent().len() < usize::MAX,
        ensures
            final(self).wf(),
            !final(self).is_done(),
            final(self).max_spec() == old(self).max_spec(),
            final(self).lines_in() == old(self).lines_in().push(line@),
            (r is Some <==> (0 < old(self).pending().len() && old(self).max_spec() <= sum_len(
                old(self).pending(),
            ) + line_len(line@))),
            (match r {
                Some(d) => {
                    &&& final(self).sent() == old(self).sent().push(old(self).pending())
                    &&& d.index == old(self).sent().len()
                    &&& d.size == sum_len(old(self).pending())
                    &&& d.body@ == body_of(old(self).pending())
                    &&& batch_ok(old(self).pending(), old(self).max_spec())
                    &&& final(self).pending() == seq![line@]
                },
                None => {
                    &&& final(self).sent() == old(self).sent()
                    &&& final(self).pending() == old(self).pending().push(line@)
                },
            }),
    {
        match self.batcher.push_line(line) {
            Some(b) => {
                let d = Dispatch { index: self.next_index, size: b.size(), body: b.body() };
                self.next_index = self.next_index + 1;
                Some(d)
            },
            None => None,
        }
    }

    /// Declare the input exhausted. The final partial batch, if any, is
    /// handed back for transmission, and the batches dispatched over the
    /// whole run are exactly the batches of the lines fed in.
    pub fn end_of_input(&mut self) -> (r: Option<Dispatch>)
        requires
            old(self).wf(),
            !old(self).is_done(),
            old(self).sent().len() < usize::MAX,
        ensures
            final(self).wf(),
            final(self).is_done(),
            final(self).max_spec() == old(self).max_spec(),
            (r is Some <==> 0 < old(self).pending().len()),
            (match r {
                Some(d) => {
                    &&& d.index == old(self).sent().len()
                    &&& d.size == sum_len(old(self).pending())
                    &&& d.body@ == body_of(old(self).pending())
                    &&& batch_ok(old(self).pending(), old(self).max_spec())
                    &&& old(self).sent().push(old(self).pending()) == batches_of(
                        old(self).lines_in(),
                        old(self).max_spec(),
                    )
                },
                None => old(self).sent() == batches_of(old(self).lines_in(), old(self).max_spec()),
            }),
    {
        match self.batcher.finish() {
            Some(b) => {
                let d = Dispatch { index: self.next_index, size: b.size(), body: b.body() };
                self.next_index = 0;
                self.done = true;
                Some(d)
            },
            None => {
                self.next_index = 0;
                self.done = true;
                None
            },
        }
    }
}

} // verus!
