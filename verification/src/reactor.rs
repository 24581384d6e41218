//! Bookkeeping half of the per-thread reactor: two maps from resource key to
//! the wakers pending on its readability or writability.
//!
//! The reactor bridges OS readiness events to wakers. The OS poller itself
//! lives outside this crate; every operation here is pure bookkeeping and
//! reports the `Interest` mask the surrounding code should (re)arm the OS
//! poller with. Entries are one-shot: draining a batch of ready keys hands
//! out all wakers pending on them and removes their entries.

use std::collections::HashMap;
use vstd::prelude::*;

verus! {

broadcast use vstd::std_specs::hash::group_hash_axioms;

/// The interest mask for one resource, derived from which pending-waker maps
/// currently hold its key: the poller is asked for readiness exactly in the
/// directions some waker waits on.
#[derive(Clone, Copy, Debug, PartialEq, Eq, Structural)]
pub enum Interest {
    /// No waker is pending on the resource: ask the poller for nothing.
    Nothing,
    /// Only readers are pending.
    Readable,
    /// Only writers are pending.
    Writable,
    /// Readers and writers are both pending: watch both directions.
    All,
}

/// The list a pending-waker map holds for `key`, or the empty list if the
/// key has no entry.
pub open spec fn pending<W>(m: Map<u64, Seq<W>>, key: u64) -> Seq<W> {
    if m.contains_key(key) {
        m[key]
    } else {
        Seq::empty()
    }
}

/// The wakers a drain of the ready keys `events` hands out: for each key in
/// batch order, the readers pending on it followed by the writers, where a
/// key repeated in the batch contributes nothing the second time.
pub open spec fn spec_drain<W>(
    readers: Map<u64, Seq<W>>,
    writers: Map<u64, Seq<W>>,
    events: Seq<u64>,
) -> Seq<W>
    decreases events.len(),
{
    if events.len() == 0 {
        Seq::empty()
    } else {
        let key = events[0];
        pending(readers, key) + pending(writers, key) + spec_drain(
            readers.remove(key),
            writers.remove(key),
            events.skip(1),
        )
    }
}

/// Pending-waker state of one worker thread's reactor, generic in the waker
/// handle `W` it stores (the runtime stores task wakers; the scheduler model
/// stores job ids).
#[verifier::reject_recursive_types(W)]
pub struct Reactor<W> {
    readable: HashMap<u64, Vec<W>>,
    writable: HashMap<u64, Vec<W>>,
}

impl<W> Reactor<W> {
    /// The wakers pending on readability, keyed by resource.
    pub closed spec fn readers(self) -> Map<u64, Seq<W>> {
        self.readable@.map_values(|v: Vec<W>| v@)
    }

    /// The wakers pending on writability, keyed by resource.
    pub closed spec fn writers(self) -> Map<u64, Seq<W>> {
        self.writable@.map_values(|v: Vec<W>| v@)
    }

    /// The interest mask `get_interest` reports for `key`: read-interest
    /// iff a reader is pending, write-interest iff a writer is pending.
    pub open spec fn spec_interest(self, key: u64) -> Interest {
        if self.readers().contains_key(key) && self.writers().contains_key(key) {
            Interest::All
        } else if self.readers().contains_key(key) {
            Interest::Readable
        } else if self.writers().contains_key(key) {
            Interest::Writable
        } else {
            Interest::Nothing
        }
    }

    /// True iff any resource still has a pending waker.
    pub open spec fn spec_waiting(self) -> bool {
        !self.readers().is_empty() || !self.writers().is_empty()
    }

    /// A reactor with no pending wakers at all.
    pub fn new() -> (r: Reactor<W>)
        ensures
            r.readers() == Map::<u64, Seq<W>>::empty(),
            r.writers() == Map::<u64, Seq<W>>::empty(),
    {
        let r = Reactor { readable: HashMap::new(), writable: HashMap::new() };
        proof {
            assert(r.readers() =~= Map::<u64, Seq<W>>::empty());
            assert(r.writers() =~= Map::<u64, Seq<W>>::empty());
        }
        r
    }

    /// The interest mask to register or re-arm `key` with on the OS poller.
    pub fn get_interest(&self, key: u64) -> (i: Interest)
        ensures
            i == self.spec_interest(key),
    {
        let readable = self.readable.contains_key(&key);
        let writable = self.writable.contains_key(&key);
        match (readable, writable) {
            (true, true) => Interest::All,
            (true, false) => Interest::Readable,
            (false, true) => Interest::Writable,
            (false, false) => Interest::Nothing,
        }
    }

    /// Forget a resource entirely: both pending lists drop their entries for
    /// `key`. The caller also removes the resource from the OS poller.
    pub fn deregister(&mut self, key: u64)
        ensures
            final(self).readers() == old(self).readers().remove(key),
            final(self).writers() == old(self).writers().remove(key),
    {
        self.readable.remove(&key);
        self.writable.remove(&key);
        proof {
            assert(self.readers() =~= old(self).readers().remove(key));
            assert(self.writers() =~= old(self).writers().remove(key));
        }
    }

    /// Append `w` to the wakers pending on readability of `key` and report
    /// the interest mask to re-arm the OS poller with.
    pub fn wake_on_readable(&mut self, key: u64, w: W) -> (i: Interest)
        ensures
            final(self).readers() == old(self).readers().insert(
                key,
                pending(old(self).readers(), key).push(w),
            ),
            final(self).writers() == old(self).writers(),
            i == final(self).spec_interest(key),
    {
        let mut list = match self.readable.remove(&key) {
            Some(list) => list,
            None => Vec::new(),
        };
        list.push(w);
        self.readable.insert(key, list);
        proof {
            assert(self.readers() =~= old(self).readers().insert(
                key,
                pending(old(self).readers(), key).push(w),
            ));
            assert(self.writers() =~= old(self).writers());
        }
        self.get_interest(key)
    }

    /// Append `w` to the wakers pending on writability of `key` and report
    /// the interest mask to re-arm the OS poller with.
    pub fn wake_on_writable(&mut self, key: u64, w: W) -> (i: Interest)
        ensures
            final(self).writers() == old(self).writers().insert(
                key,
                pending(old(self).writers(), key).push(w),
            ),
            final(self).readers() == old(self).readers(),
            i == final(self).spec_interest(key),
    {
        let mut list = match self.writable.remove(&key) {
            Some(list) => list,
            None => Vec::new(),
        };
        list.push(w);
        self.writable.insert(key, list);
        proof {
            assert(self.writers() =~= old(self).writers().insert(
                key,
                pending(old(self).writers(), key).push(w),
            ));
            assert(self.readers() =~= old(self).readers());
        }
        self.get_interest(key)
    }

    /// True iff any resource currently has a pending waker; the worker keeps
    /// blocking on its reactor exactly as long as this holds.
    pub fn waiting_on_events(&self) -> (waiting: bool)
        ensures
            waiting == self.spec_waiting(),
    {
        let waiting = !self.readable.is_empty() || !self.writable.is_empty();
        proof {
            assert(self.readable@.dom() =~= self.readers().dom());
            assert(self.writable@.dom() =~= self.writers().dom());
        }
        waiting
    }

    /// Consume a batch of ready resource keys: hand out every waker pending
    /// on any of them, readers before writers per key, in batch order, and
    /// drop those entries (they are one-shot; re-arming requires a new
    /// `wake_on_readable` or `wake_on_writable`).
    pub fn drain(&mut self, events: &Vec<u64>) -> (wakers: Vec<W>)
        ensures
            wakers@ == spec_drain(old(self).readers(), old(self).writers(), events@),
            final(self).readers() == old(self).readers().remove_keys(events@.to_set()),
            final(self).writers() == old(self).writers().remove_keys(events@.to_set()),
    {
        let mut wakers: Vec<W> = Vec::new();
        let mut i: usize = 0;
        proof {
            assert(events@.take(0).to_set() =~= Set::<u64>::empty());
            assert(self.readers() =~= old(self).readers().remove_keys(events@.take(0).to_set()));
            assert(self.writers() =~= old(self).writers().remove_keys(events@.take(0).to_set()));
            assert(events@.skip(0) =~= events@);
            assert(wakers@ + spec_drain(self.readers(), self.writers(), events@) =~= spec_drain(
                old(self).readers(),
                old(self).writers(),
                events@,
            ));
        }
        while i < events.len()
            invariant
                i <= events@.len(),
                self.readers() == old(self).readers().remove_keys(events@.take(i as int).to_set()),
                self.writers() == old(self).writers().remove_keys(events@.take(i as int).to_set()),
                spec_drain(old(self).readers(), old(self).writers(), events@) == wakers@
                    + spec_drain(self.readers(), self.writers(), events@.skip(i as int)),
            decreases events@.len() - i,
        {
            let key = events[i];
            let ghost readers_before = self.readers();
            let ghost writers_before = self.writers();
            let ghost wakers_before = wakers@;
            if let Some(mut readers) = self.readable.remove(&key) {
                wakers.append(&mut readers);
            }
            if let Some(mut writers) = self.writable.remove(&key) {
                wakers.append(&mut writers);
            }
            proof {
                assert(self.readers() =~= readers_before.remove(key));
                assert(self.writers() =~= writers_before.remove(key));
                assert(wakers@ =~= wakers_before + pending(readers_before, key) + pending(
                    writers_before,
                    key,
                ));
                assert(events@.take(i as int + 1) =~= events@.take(i as int) + seq![key]);
                Seq::<u64>::lemma_to_set_insert_commutes(events@.take(i as int), key);
                assert(self.readers() =~= old(self).readers().remove_keys(
                    events@.take(i as int + 1).to_set(),
                ));
                assert(self.writers() =~= old(self).writers().remove_keys(
                    events@.take(i as int + 1).to_set(),
                ));
                assert(events@.skip(i as int)[0] == key);
                assert(events@.skip(i as int).skip(1) =~= events@.skip(i as int + 1));
                assert(spec_drain(readers_before, writers_before, events@.skip(i as int))
                    == pending(readers_before, key) + pending(writers_before, key) + spec_drain(
                    readers_before.remove(key),
                    writers_before.remove(key),
                    events@.skip(i as int + 1),
                ));
                assert(wakers@ + spec_drain(
                    self.readers(),
                    self.writers(),
                    events@.skip(i as int + 1),
                ) =~= wakers_before + spec_drain(readers_before, writers_before, events@.skip(i as int)));
            }
            i = i + 1;
        }
        proof {
            assert(events@.take(events@.len() as int) =~= events@);
            assert(events@.skip(events@.len() as int) =~= Seq::<u64>::empty());
            assert(wakers@ + Seq::<W>::empty() =~= wakers@);
        }
        wakers
    }
}

} // verus!
