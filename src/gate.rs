//! Per-peer heartbeat gates: a network lookup for a peer is permitted at most
//! once per interval. A permit that comes late does not accumulate: the next
//! one is due a full interval after the late one was used.
use vstd::prelude::*;
use crate::codec::{bytes_eq, copy_bytes};

verus! {

/// Seconds between two network lookups for the same peer.
pub const HEARTBEAT_INTERVAL_SECS: u64 = 60;

/// `a + b`, or `u64::MAX` where the sum does not fit.
pub open spec fn saturating_sum(a: u64, b: u64) -> u64 {
    if a + b > u64::MAX {
        u64::MAX
    } else {
        (a + b) as u64
    }
}

/// Whether a poll for `k` at time `now` is granted a permit, given the time
/// from which each known peer's next permit is due.
pub open spec fn gate_fires(due: Map<Seq<u8>, u64>, k: Seq<u8>, now: u64) -> bool {
    !due.contains_key(k) || now >= due[k]
}

/// The due times after a poll for `k` at `now`.
pub open spec fn poll_spec(due: Map<Seq<u8>, u64>, k: Seq<u8>, now: u64, interval: u64) -> Map<
    Seq<u8>,
    u64,
> {
    if gate_fires(due, k, now) {
        due.insert(k, saturating_sum(now, interval))
    } else {
        due
    }
}

/// The due times after a sequence of polls, each an identity and a time.
pub open spec fn run_polls(due: Map<Seq<u8>, u64>, polls: Seq<(Seq<u8>, u64)>, interval: u64) -> Map<
    Seq<u8>,
    u64,
>
    decreases polls.len(),
{
    if polls.len() == 0 {
        due
    } else {
        run_polls(poll_spec(due, polls[0].0, polls[0].1, interval), polls.drop_first(), interval)
    }
}

proof fn lemma_due_never_decreases(
    due: Map<Seq<u8>, u64>,
    polls: Seq<(Seq<u8>, u64)>,
    interval: u64,
    k: Seq<u8>,
)
    requires
        due.contains_key(k),
    ensures
        run_polls(due, polls, interval).contains_key(k),
        run_polls(due, polls, interval)[k] >= due[k],
    decreases polls.len(),
{
    if polls.len() > 0 {
        let next = poll_spec(due, polls[0].0, polls[0].1, interval);
        lemma_due_never_decreases(next, polls.drop_first(), interval, k);
    }
}

/// Two successive permits for the same peer are at least one interval apart,
/// whatever polls for that peer or for others come between them (provided the
/// first permit's time plus the interval fits in a `u64`).
pub proof fn lemma_heartbeat_spacing(
    due: Map<Seq<u8>, u64>,
    k: Seq<u8>,
    t1: u64,
    between: Seq<(Seq<u8>, u64)>,
    t2: u64,
    interval: u64,
)
    requires
        gate_fires(due, k, t1),
        t1 + interval <= u64::MAX,
        gate_fires(run_polls(poll_spec(due, k, t1, interval), between, interval), k, t2),
    ensures
        t2 >= t1 + interval,
{
    lemma_due_never_decreases(poll_spec(due, k, t1, interval), between, interval, k);
}

/// One peer's gate: the time from which its next permit is due.
pub struct GateEntry {
    pub identity: Vec<u8>,
    pub due: u64,
}

/// The gates of all peers polled so far. Gates are created on a peer's first
/// poll and never removed.
pub struct HeartbeatGates {
    entries: Vec<GateEntry>,
    interval: u64,
    model: Ghost<Map<Seq<u8>, u64>>,
}

impl View for HeartbeatGates {
    type V = Map<Seq<u8>, u64>;

    closed spec fn view(&self) -> Map<Seq<u8>, u64> {
        self.model@
    }
}

impl HeartbeatGates {
    pub closed spec fn wf(&self) -> bool {
        &&& forall|i: int|
            0 <= i < self.entries@.len() ==> {
                &&& #[trigger] self.model@.contains_key(self.entries@[i].identity@)
                &&& self.model@[self.entries@[i].identity@] == self.entries@[i].due
            }
        &&& forall|k: Seq<u8>|
            #[trigger] self.model@.contains_key(k) ==> exists|i: int|
                0 <= i < self.entries@.len() && #[trigger] self.entries@[i].identity@ == k
        &&& forall|i: int, j: int|
            0 <= i < j < self.entries@.len() ==> #[trigger] self.entries@[i].identity@
                != #[trigger] self.entries@[j].identity@
    }

    pub closed spec fn spec_interval(&self) -> u64 {
        self.interval
    }

    /// No gates yet; permits come `interval` apart.
    pub fn new(interval: u64) -> (r: HeartbeatGates)
        ensures
            r.wf(),
            r@ == Map::<Seq<u8>, u64>::empty(),
            r.spec_interval() == interval,
    {
        HeartbeatGates { entries: Vec::new(), interval, model: Ghost(Map::empty()) }
    }

    pub fn interval(&self) -> (r: u64)
        ensures
            r == self.spec_interval(),
    {
        self.interval
    }

    /// Polls the heartbeat of `identity` at time `now`, creating it if absent.
    /// Returns whether a network lookup is permitted now.
    pub fn poll(&mut self, identity: &[u8], now: u64) -> (fired: bool)
        requires
            old(self).wf(),
        ensures
            final(self).wf(),
            final(self).spec_interval() == old(self).spec_interval(),
            fired == gate_fires(old(self)@, identity@, now),
            final(self)@ == poll_spec(old(self)@, identity@, now, old(self).spec_interval()),
    {
        let next = now.saturating_add(self.interval);
        let mut i: usize = 0;
        while i < self.entries.len()
            invariant
                self.wf(),
                self.interval == old(self).interval,
                self.model@ == old(self).model@,
                self.entries@ == old(self).entries@,
                next == saturating_sum(now, self.interval),
                0 <= i <= self.entries@.len(),
                forall|j: int| 0 <= j < i ==> self.entries@[j].identity@ != identity@,
            decreases self.entries@.len() - i,
        {
            if bytes_eq(self.entries[i].identity.as_slice(), identity) {
                if now >= self.entries[i].due {
                    let ghost m = self.model@;
                    let ghost old_entries = self.entries@;
                    self.entries[i].due = next;
                    self.model = Ghost(m.insert(identity@, next));
                    proof {
                        assert forall|j: int| 0 <= j < self.entries@.len() implies
                            self.entries@[j].identity@ == old_entries[j].identity@ by {}
                        assert forall|k: Seq<u8>| #[trigger] self.model@.contains_key(k) implies
                            exists|j: int| 0 <= j < self.entries@.len() && #[trigger] self.entries@[j].identity@ == k by {
                            if k != identity@ {
                                let j = choose|j: int| 0 <= j < old_entries.len() && #[trigger] old_entries[j].identity@ == k;
                                assert(self.entries@[j].identity@ == k);
                            } else {
                                assert(self.entries@[i as int].identity@ == k);
                            }
                        }
                    }
                    return true;
                } else {
                    return false;
                }
            }
            i = i + 1;
        }
        let key = copy_bytes(identity);
        let ghost m = self.model@;
        let ghost old_entries = self.entries@;
        assert(!m.contains_key(identity@));
        self.entries.push(GateEntry { identity: key, due: next });
        self.model = Ghost(m.insert(identity@, next));
        proof {
            let n = old_entries.len() as int;
            assert(self.entries@[n].identity@ == identity@);
            assert forall|j: int| 0 <= j < n implies #[trigger] self.entries@[j] == old_entries[j] by {}
            assert forall|j: int| 0 <= j < n implies self.entries@[j].identity@ != identity@ by {}
            assert forall|k: Seq<u8>| #[trigger] self.model@.contains_key(k) implies
                exists|j: int| 0 <= j < self.entries@.len() && #[trigger] self.entries@[j].identity@ == k by {
                if k != identity@ {
                    let j = choose|j: int| 0 <= j < old_entries.len() && #[trigger] old_entries[j].identity@ == k;
                    assert(self.entries@[j].identity@ == k);
                } else {
                    assert(self.entries@[old_entries.len() as int].identity@ == k);
                }
            }
        }
        true
    }
}

} // verus!
