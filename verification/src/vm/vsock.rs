//! In-process bounded vsock channels. Waypipe binds only through this Relay boundary.
use crate::relay_core::{failure, only_failed, RelayError};
use std::collections::{BTreeMap, VecDeque};
use vstd::prelude::*;

verus! {

broadcast use {vstd::std_specs::btree::group_btree_axioms, vstd::laws_cmp::group_laws_cmp};

/// Open ports, each with its queue of packets, and the largest packet accepted.
pub struct Vsock {
    channels: BTreeMap<u32, VecDeque<Vec<u8>>>,
    limit: usize,
}

pub open spec fn packets(q: VecDeque<Vec<u8>>) -> Seq<Seq<u8>> {
    q@.map_values(|p: Vec<u8>| p@)
}

impl Vsock {
    /// The open ports and their queued packets, oldest first.
    pub closed spec fn view(&self) -> Map<u32, Seq<Seq<u8>>> {
        self.channels@.map_values(|q: VecDeque<Vec<u8>>| packets(q))
    }

    pub closed spec fn packet_limit(&self) -> usize {
        self.limit
    }

    pub fn new(limit: usize) -> (r: Self)
        ensures
            r@ == Map::<u32, Seq<Seq<u8>>>::empty(),
            r.packet_limit() == limit,
    {
        let r = Vsock { channels: BTreeMap::new(), limit };
        assert(r@ =~= Map::<u32, Seq<Seq<u8>>>::empty());
        r
    }

    /// Open `port`; an open port keeps its queue.
    pub fn open(&mut self, port: u32)
        ensures
            final(self).packet_limit() == old(self).packet_limit(),
            final(self)@ == (if old(self)@.contains_key(port) {
                old(self)@
            } else {
                old(self)@.insert(port, Seq::empty())
            }),
    {
        match self.channels.remove(&port) {
            Some(q) => {
                self.channels.insert(port, q);
                assert(self@ =~= old(self)@);
            },
            None => {
                let q: VecDeque<Vec<u8>> = VecDeque::new();
                assert(packets(q) =~= Seq::<Seq<u8>>::empty());
                self.channels.insert(port, q);
                assert(self@ =~= old(self)@.insert(port, Seq::empty()));
            },
        }
    }

    /// Queue a packet on an open port.
    pub fn send(&mut self, port: u32, bytes: Vec<u8>) -> (r: Result<(), RelayError>)
        ensures
            only_failed(r),
            final(self).packet_limit() == old(self).packet_limit(),
            bytes@.len() > old(self).packet_limit() ==> final(self)@ == old(self)@ && failure(r)
                == Err::<(), Seq<char>>("vsock packet exceeds Relay limit"@),
            bytes@.len() <= old(self).packet_limit() && !old(self)@.contains_key(port) ==> final(self)@
                == old(self)@ && failure(r) == Err::<(), Seq<char>>("vsock port not open"@),
            bytes@.len() <= old(self).packet_limit() && old(self)@.contains_key(port) ==> r is Ok
                && final(self)@ == old(self)@.insert(port, old(self)@[port].push(bytes@)),
    {
        if bytes.len() > self.limit {
            return Err(RelayError::Failed(String::from_str("vsock packet exceeds Relay limit")));
        }
        match self.channels.remove(&port) {
            Some(mut q) => {
                let ghost before = q;
                q.push_back(bytes);
                self.channels.insert(port, q);
                assert(packets(q) =~= packets(before).push(bytes@));
                assert(self@ =~= old(self)@.insert(port, old(self)@[port].push(bytes@)));
                Ok(())
            },
            None => {
                assert(self@ =~= old(self)@);
                Err(RelayError::Failed(String::from_str("vsock port not open")))
            },
        }
    }

    /// Take the oldest packet queued on `port`.
    pub fn receive(&mut self, port: u32) -> (r: Option<Vec<u8>>)
        ensures
            final(self).packet_limit() == old(self).packet_limit(),
            !old(self)@.contains_key(port) || old(self)@[port].len() == 0 ==> r is None && final(self)@
                == old(self)@,
            old(self)@.contains_key(port) && old(self)@[port].len() > 0 ==> (r matches Some(p) && p@
                == old(self)@[port][0] && final(self)@ == old(self)@.insert(
                port,
                old(self)@[port].drop_first(),
            )),
    {
        match self.channels.remove(&port) {
            Some(mut q) => {
                let ghost before = q;
                let r = q.pop_front();
                self.channels.insert(port, q);
                proof {
                    if before@.len() > 0 {
                        assert(packets(q) =~= packets(before).drop_first());
                        assert(self@ =~= old(self)@.insert(port, old(self)@[port].drop_first()));
                    } else {
                        assert(self@ =~= old(self)@);
                    }
                }
                r
            },
            None => {
                assert(self@ =~= old(self)@);
                None
            },
        }
    }
}

} // verus!
