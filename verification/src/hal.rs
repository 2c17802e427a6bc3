//! Requests to the host: arguments, and the waiters of requests in flight.
use std::collections::HashMap;

use vstd::prelude::*;

verus! {

/// An argument of a load request to the host.
#[derive(Debug)]
pub enum Arg {
    Number(u64),
    String(String),
    Buffer(Vec<u8>),
    Empty,
}

/// The waiters of load requests in flight, by request hash. The first waiter of a
/// hash makes the request; later ones only wait for the same answer.
pub struct LoadWaiters<W> {
    map: HashMap<u64, Vec<W>>,
}

impl<W> LoadWaiters<W> {
    /// Request hash -> its waiters, in the order they came.
    pub closed spec fn pending(&self) -> Map<u64, Seq<W>> {
        self.map@.map_values(|v: Vec<W>| v@)
    }

    /// No request in flight.
    pub fn new() -> (r: Self)
        ensures
            r.pending() == Map::<u64, Seq<W>>::empty(),
    {
        let r = LoadWaiters { map: HashMap::new() };
        assert(r.pending() =~= Map::<u64, Seq<W>>::empty());
        r
    }

    /// Adds `waiter` to the request `hash`; `true` when no request `hash` was in
    /// flight, that is when the host has to be asked.
    pub fn add_waiter(&mut self, hash: u64, waiter: W) -> (first: bool)
        ensures
            first == !old(self).pending().contains_key(hash),
            final(self).pending() == old(self).pending().insert(
                hash,
                if first {
                    seq![waiter]
                } else {
                    old(self).pending()[hash].push(waiter)
                },
            ),
    {
        let ghost old_map = self.map@;
        match self.map.remove(&hash) {
            Some(mut v) => {
                let ghost before = v@;
                v.push(waiter);
                self.map.insert(hash, v);
                proof {
                    assert(self.map@ == old_map.insert(hash, v));
                    assert(self.pending() =~= old(self).pending().insert(hash, before.push(waiter)));
                }
                false
            },
            None => {
                let v = vec![waiter];
                self.map.insert(hash, v);
                proof {
                    assert(v@ =~= seq![waiter]);
                    assert(self.pending() =~= old(self).pending().insert(hash, seq![waiter]));
                }
                true
            },
        }
    }

    /// The answer to request `hash` arrived: takes its waiters, in the order they came.
    pub fn take_waiters(&mut self, hash: u64) -> (r: Option<Vec<W>>)
        ensures
            match r {
                Some(v) => old(self).pending().contains_key(hash) && v@ == old(self).pending()[hash],
                None => !old(self).pending().contains_key(hash),
            },
            final(self).pending() == old(self).pending().remove(hash),
    {
        let r = self.map.remove(&hash);
        proof {
            assert(self.pending() =~= old(self).pending().remove(hash));
        }
        r
    }
}

/// Law: while a request is in flight the host is asked once: after the first
/// waiter of `hash`, further waiters do not ask, and once the answer has taken the
/// waiters, the next waiter asks again.
pub proof fn lemma_one_request_per_round<W>(pending: Map<u64, Seq<W>>, hash: u64, w1: W, w2: W)
    requires
        !pending.contains_key(hash),
    ensures
        ({
            let after_first = pending.insert(hash, seq![w1]);
            let after_second = after_first.insert(hash, after_first[hash].push(w2));
            &&& after_first.contains_key(hash)
            &&& after_second[hash] == seq![w1, w2]
            &&& !after_second.remove(hash).contains_key(hash)
        }),
{
    assert(seq![w1].push(w2) =~= seq![w1, w2]);
}

} // verus!
