//! Keeping a bounded number of workers running while a stack of targets
//! drains.

use vstd::prelude::*;
use vstd::multiset::Multiset;
use vstd::seq_lib::{to_multiset_build, to_multiset_remove};
use crate::address::HardwareAddress;

verus! {

/// The targets that wait, the targets whose workers run, and the most
/// workers that may run at once.
pub struct Scheduler {
    pub queue: Vec<HardwareAddress>,
    pub active: Vec<HardwareAddress>,
    pub limit: usize,
}

/// The index of the first occurrence of `mac` in `addresses`, or the length
/// of `addresses` where there is none.
pub open spec fn first_index(addresses: Seq<HardwareAddress>, mac: HardwareAddress) -> int
    decreases addresses.len(),
{
    if addresses.len() == 0 {
        0
    } else if addresses[0] == mac {
        0
    } else {
        1 + first_index(addresses.skip(1), mac)
    }
}

/// `first_index` finds `mac` where it occurs, and nothing before it is `mac`.
pub proof fn lemma_first_index(addresses: Seq<HardwareAddress>, mac: HardwareAddress)
    ensures
        0 <= first_index(addresses, mac) <= addresses.len(),
        first_index(addresses, mac) < addresses.len() ==> addresses[first_index(addresses, mac)]
            == mac,
        forall|j: int| 0 <= j < first_index(addresses, mac) ==> addresses[j] != mac,
        first_index(addresses, mac) < addresses.len() <==> addresses.contains(mac),
    decreases addresses.len(),
{
    if addresses.len() == 0 {
    } else if addresses[0] == mac {
    } else {
        let rest = addresses.skip(1);
        lemma_first_index(rest, mac);
        let k = first_index(rest, mac);
        assert forall|j: int| 0 <= j < 1 + k implies addresses[j] != mac by {
            if j > 0 {
                assert(rest[j - 1] == addresses[j]);
            }
        }
        if k < rest.len() {
            assert(rest[k] == addresses[k + 1]);
        }
        if addresses.contains(mac) {
            let w = choose|w: int| 0 <= w < addresses.len() && addresses[w] == mac;
            assert(rest[w - 1] == mac);
            assert(rest.contains(mac));
        }
    }
}

impl Scheduler {
    /// At least one worker may run, and no more run than may.
    pub open spec fn well_formed(&self) -> bool {
        1 <= self.limit && self.active@.len() <= self.limit
    }

    /// The number of targets that have not ended yet: those that wait and
    /// those whose workers run.
    pub open spec fn remaining(&self) -> nat {
        self.queue@.len() + self.active@.len()
    }

    /// The targets that have not ended yet, each as often as it was given:
    /// those that wait and those whose workers run.
    pub open spec fn unfinished(&self) -> Multiset<HardwareAddress> {
        self.queue@.to_multiset().add(self.active@.to_multiset())
    }

    /// True when a worker can be launched: a target waits and a slot is free.
    pub open spec fn can_launch(&self) -> bool {
        self.queue@.len() > 0 && self.active@.len() < self.limit
    }

    /// A scheduler for `targets` with no worker running yet.
    pub fn new(targets: Vec<HardwareAddress>, limit: usize) -> (s: Scheduler)
        requires
            1 <= limit,
        ensures
            s.queue@ == targets@,
            s.active@ == Seq::<HardwareAddress>::empty(),
            s.limit == limit,
            s.well_formed(),
    {
        Scheduler { queue: targets, active: Vec::new(), limit }
    }

    /// Takes the target on top of the stack and counts its worker as
    /// running, if a target waits and a slot is free; the caller launches
    /// the worker. Otherwise nothing changes.
    pub fn launch_next(&mut self) -> (launched: Option<HardwareAddress>)
        requires
            old(self).well_formed(),
        ensures
            final(self).well_formed(),
            final(self).limit == old(self).limit,
            final(self).unfinished() == old(self).unfinished(),
            launched is Some <==> old(self).can_launch(),
            launched matches Some(mac) ==> {
                &&& mac == old(self).queue@.last()
                &&& final(self).queue@ == old(self).queue@.drop_last()
                &&& final(self).active@ == old(self).active@.push(mac)
            },
            launched is None ==> final(self).queue@ == old(self).queue@ && final(self).active@
                == old(self).active@,
    {
        if self.active.len() >= self.limit {
            return None;
        }
        match self.queue.pop() {
            Some(mac) => {
                self.active.push(mac);
                proof {
                    assert(old(self).queue@ =~= self.queue@.push(mac));
                    to_multiset_build(self.queue@, mac);
                    to_multiset_build(old(self).active@, mac);
                    assert(self.unfinished() =~= old(self).unfinished());
                }
                Some(mac)
            },
            None => None,
        }
    }

    /// Launches workers until no target waits or no slot is free, and gives
    /// their targets in the order of launch: from the top of the stack down.
    pub fn start(&mut self) -> (launched: Vec<HardwareAddress>)
        requires
            old(self).well_formed(),
        ensures
            final(self).well_formed(),
            final(self).limit == old(self).limit,
            !final(self).can_launch(),
            final(self).unfinished() == old(self).unfinished(),
            launched@.len() == if old(self).queue@.len() <= old(self).limit - old(
                self,
            ).active@.len() {
                old(self).queue@.len() as int
            } else {
                old(self).limit - old(self).active@.len()
            },
            final(self).queue@ == old(self).queue@.take(
                old(self).queue@.len() - launched@.len(),
            ),
            final(self).active@ == old(self).active@ + launched@,
            forall|j: int|
                0 <= j < launched@.len() ==> launched@[j] == old(self).queue@[old(
                    self,
                ).queue@.len() - 1 - j],
    {
        let mut launched: Vec<HardwareAddress> = Vec::new();
        let ghost before = *self;
        assert(before.queue@.take(before.queue@.len() as int) =~= before.queue@);
        assert(before.active@ + launched@ =~= before.active@);
        loop
            invariant
                before == *old(self),
                self.well_formed(),
                self.limit == before.limit,
                self.unfinished() == before.unfinished(),
                launched@.len() <= before.queue@.len(),
                self.queue@ == before.queue@.take(before.queue@.len() - launched@.len()),
                self.active@ == before.active@ + launched@,
                forall|j: int|
                    0 <= j < launched@.len() ==> launched@[j] == before.queue@[before.queue@.len()
                        - 1 - j],
            ensures
                !self.can_launch(),
            decreases self.queue@.len(),
        {
            let ghost queue_then = self.queue@;
            let ghost count = launched@.len();
            match self.launch_next() {
                Some(mac) => {
                    launched.push(mac);
                    proof {
                        let n = before.queue@.len();
                        assert(mac == before.queue@[n - 1 - count]);
                        assert(self.queue@ =~= before.queue@.take(n - count - 1));
                        assert(self.active@ =~= before.active@ + launched@);
                    }
                },
                None => {
                    break ;
                },
            }
        }
        launched
    }

    /// Takes in the end of the worker of `mac`. If such a worker ran, it is
    /// counted out, and the target on top of the stack, if one waits, takes
    /// its place: the caller launches that worker. If no such worker ran,
    /// nothing changes and nothing is launched.
    pub fn complete(&mut self, mac: HardwareAddress) -> (launched: Option<HardwareAddress>)
        requires
            old(self).well_formed(),
        ensures
            final(self).well_formed(),
            final(self).limit == old(self).limit,
            launched is Some <==> old(self).active@.contains(mac) && old(self).queue@.len() > 0,
            !old(self).active@.contains(mac) ==> final(self).queue@ == old(self).queue@
                && final(self).active@ == old(self).active@,
            old(self).active@.contains(mac) ==> final(self).unfinished() == old(
                self,
            ).unfinished().remove(mac),
            old(self).active@.contains(mac) ==> final(self).remaining() + 1 == old(
                self,
            ).remaining(),
            old(self).active@.contains(mac) && launched is None ==> {
                &&& final(self).queue@ == old(self).queue@
                &&& final(self).active@ == old(self).active@.remove(
                    first_index(old(self).active@, mac),
                )
            },
            launched matches Some(next) ==> {
                &&& next == old(self).queue@.last()
                &&& final(self).queue@ == old(self).queue@.drop_last()
                &&& final(self).active@ == old(self).active@.remove(
                    first_index(old(self).active@, mac),
                ).push(next)
            },
    {
        let mut i: usize = 0;
        proof {
            lemma_first_index(self.active@, mac);
        }
        while i < self.active.len() && self.active[i] != mac
            invariant
                *self == *old(self),
                i <= self.active@.len(),
                forall|j: int| 0 <= j < i ==> self.active@[j] != mac,
            decreases self.active@.len() - i,
        {
            i += 1;
        }
        if i >= self.active.len() {
            return None;
        }
        assert(i as int == first_index(self.active@, mac));
        self.active.remove(i);
        proof {
            let waiting = old(self).queue@.to_multiset();
            let running = old(self).active@.to_multiset();
            to_multiset_remove(old(self).active@, i as int);
            old(self).active@.to_multiset_ensures();
            assert(running.count(mac) > 0);
            assert(self.active@.to_multiset() == running.remove(mac));
            assert(waiting.add(running.remove(mac)) =~= waiting.add(running).remove(mac));
        }
        self.launch_next()
    }

    /// True when no target waits and no worker runs: the run is over.
    pub fn is_finished(&self) -> (r: bool)
        ensures
            r == (self.remaining() == 0),
    {
        self.queue.len() == 0 && self.active.len() == 0
    }

    /// The number of workers that run.
    pub fn active_count(&self) -> (r: usize)
        ensures
            r == self.active@.len(),
    {
        self.active.len()
    }
}

} // verus!
