//! The connection lifecycle of the sensor fleet: a FIFO queue of sensors
//! waiting to be connected, the set of sensors believed connected, and the
//! one connection attempt in flight per loop iteration.

use vstd::prelude::*;
use std::collections::VecDeque;
use crate::identity::{NameMap, display_name_spec, node_identity, strip_colons};

verus! {

/// One discovered sensor: the session-scoped identity token under which the
/// transport reports events for it, and its stable hardware address.
#[derive(Debug)]
pub struct SensorInfo {
    pub object_path: String,
    pub mac_address: String,
}

impl SensorInfo {
    /// the session identity token
    pub open spec fn id(&self) -> Seq<char> {
        self.object_path@
    }

    /// the hardware address
    pub open spec fn mac(&self) -> Seq<char> {
        self.mac_address@
    }
}

impl Clone for SensorInfo {
    fn clone(&self) -> (r: Self)
        ensures
            r.id() == self.id(),
            r.mac() == self.mac(),
    {
        SensorInfo { object_path: self.object_path.clone(), mac_address: self.mac_address.clone() }
    }
}

/// No two sensors of `s` share an identity token.
pub open spec fn distinct_ids(s: Seq<SensorInfo>) -> bool {
    forall|i: int, j: int| 0 <= i < j < s.len() ==> s[i].id() != s[j].id()
}

/// In a sequence of sensors with distinct identities, an identity pins down
/// its position.
pub proof fn lemma_distinct_unique(s: Seq<SensorInfo>, a: int, b: int)
    requires
        distinct_ids(s),
        0 <= a < s.len(),
        0 <= b < s.len(),
        s[a].id() == s[b].id(),
    ensures
        a == b,
{
    if a < b {
        assert(s[a].id() != s[b].id());
    } else if b < a {
        assert(s[b].id() != s[a].id());
    }
}

/// No sensor of `s` has the identity token `id`.
pub open spec fn sensor_absent(s: Seq<SensorInfo>, id: Seq<char>) -> bool {
    forall|i: int| 0 <= i < s.len() ==> s[i].id() != id
}

/// The hardware address of the earliest sensor of `s` whose identity token
/// is `id`, if any.
pub open spec fn mac_for_id(s: Seq<SensorInfo>, id: Seq<char>) -> Option<Seq<char>>
    decreases s.len(),
{
    if s.len() == 0 {
        None
    } else if s.first().id() == id {
        Some(s.first().mac())
    } else {
        mac_for_id(s.drop_first(), id)
    }
}

pub proof fn lemma_mac_for_id_found(s: Seq<SensorInfo>, id: Seq<char>, i: int)
    requires
        0 <= i < s.len(),
        s[i].id() == id,
        forall|k: int| 0 <= k < i ==> s[k].id() != id,
    ensures
        mac_for_id(s, id) == Some(s[i].mac()),
    decreases i,
{
    if i == 0 {
    } else {
        lemma_mac_for_id_found(s.drop_first(), id, i - 1);
    }
}

pub proof fn lemma_mac_for_id_absent(s: Seq<SensorInfo>, id: Seq<char>)
    requires
        sensor_absent(s, id),
    ensures
        mac_for_id(s, id) is None,
    decreases s.len(),
{
    if s.len() > 0 {
        lemma_mac_for_id_absent(s.drop_first(), id);
    }
}

/// What the bridge decides about a disconnect notification.
#[derive(Debug, PartialEq)]
pub enum DisconnectOutcome {
    /// the sensor was tracked as connected: it was re-queued, and its node
    /// should now be deregistered from the registry
    Removed { node_id: String, display_name: String },
    /// the identity matched no tracked connected sensor: nothing to do
    Unknown,
}

/// The connection manager: which sensors wait in the FIFO retry queue, which
/// are believed connected and registered, and which single connection
/// attempt is in flight.
pub struct ConnectionManager {
    pub pending: VecDeque<SensorInfo>,
    pub connected: Vec<SensorInfo>,
    pub attempting: Option<SensorInfo>,
}

impl ConnectionManager {
    /// Each sensor identity is tracked at most once: the queue and the
    /// connected set hold no duplicates, share no identity, and the attempt
    /// in flight (if any) sits in neither.
    pub open spec fn wf(&self) -> bool {
        &&& distinct_ids(self.pending@)
        &&& distinct_ids(self.connected@)
        &&& forall|i: int|
            0 <= i < self.pending@.len() ==> sensor_absent(
                self.connected@,
                #[trigger] self.pending@[i].id(),
            )
        &&& match self.attempting {
            Some(a) => sensor_absent(self.pending@, a.id()) && sensor_absent(
                self.connected@,
                a.id(),
            ),
            None => true,
        }
    }

    /// The sensors the manager tracks, connected ones first.
    pub open spec fn tracked_seq(&self) -> Seq<SensorInfo> {
        self.connected@ + self.pending@ + match self.attempting {
            Some(a) => seq![a],
            None => Seq::<SensorInfo>::empty(),
        }
    }

    /// Start managing the given known sensors: all queued for connection in
    /// the given order, none connected yet, no attempt in flight.
    pub fn new(known: Vec<SensorInfo>) -> (m: ConnectionManager)
        requires
            distinct_ids(known@),
        ensures
            m.wf(),
            m.pending@ == known@,
            m.connected@ == Seq::<SensorInfo>::empty(),
            m.attempting is None,
    {
        let ghost all = known@;
        let mut rest = known;
        let mut pending: VecDeque<SensorInfo> = VecDeque::new();
        while rest.len() > 0
            invariant
                all == rest@ + pending@,
            decreases rest.len(),
        {
            let s = rest.pop().unwrap();
            pending.push_front(s);
            proof {
                assert(all =~= rest@ + pending@);
            }
        }
        proof {
            assert(all =~= pending@);
        }
        let m = ConnectionManager { pending, connected: Vec::new(), attempting: None };
        proof {
            assert(m.connected@ =~= Seq::<SensorInfo>::empty());
        }
        m
    }

    /// Take the sensor at the front of the queue as the target of this
    /// iteration's connection attempt, if the queue is not empty. The copy
    /// handed back carries the target's identity and address for the caller
    /// to connect to; the outcome is reported with `finish_attempt`.
    pub fn begin_attempt(&mut self) -> (r: Option<SensorInfo>)
        requires
            old(self).wf(),
            old(self).attempting is None,
        ensures
            final(self).wf(),
            final(self).connected@ == old(self).connected@,
            match r {
                None => {
                    &&& old(self).pending@.len() == 0
                    &&& final(self).pending@ == old(self).pending@
                    &&& final(self).attempting is None
                },
                Some(target) => {
                    &&& old(self).pending@.len() > 0
                    &&& final(self).pending@ == old(self).pending@.drop_first()
                    &&& final(self).attempting == Some(old(self).pending@.first())
                    &&& target.id() == old(self).pending@.first().id()
                    &&& target.mac() == old(self).pending@.first().mac()
                },
            },
    {
        match self.pending.pop_front() {
            None => None,
            Some(s) => {
                let target = s.clone();
                self.attempting = Some(s);
                proof {
                    assert(self.pending@ =~= old(self).pending@.drop_first());
                }
                Some(target)
            },
        }
    }

    /// Record the outcome of the attempt begun with `begin_attempt`: on
    /// success the target joins the connected set; on failure it goes to the
    /// back of the queue, behind every sensor still waiting, for a fair
    /// round-robin retry.
    pub fn finish_attempt(&mut self, success: bool)
        requires
            old(self).wf(),
            old(self).attempting is Some,
        ensures
            final(self).wf(),
            final(self).attempting is None,
            old(self).attempting matches Some(a) ==> {
                if success {
                    &&& final(self).connected@ == old(self).connected@.push(a)
                    &&& final(self).pending@ == old(self).pending@
                } else {
                    &&& final(self).pending@ == old(self).pending@.push(a)
                    &&& final(self).connected@ == old(self).connected@
                }
            },
    {
        let s = self.attempting.take().unwrap();
        if success {
            self.connected.push(s);
        } else {
            self.pending.push_back(s);
        }
    }

    /// React to a disconnect notification for the session identity `path`:
    /// a tracked connected sensor is removed from the connected set, queued
    /// at the back of the pending queue, and its registry identity is handed
    /// back so the caller can deregister its node; an identity that matches
    /// no tracked connected sensor changes nothing.
    pub fn handle_disconnect(&mut self, path: &String, names: &NameMap) -> (r: DisconnectOutcome)
        requires
            old(self).wf(),
        ensures
            final(self).wf(),
            final(self).attempting == old(self).attempting,
            match r {
                DisconnectOutcome::Removed { node_id, display_name } => {
                    &&& exists|i: int|
                        0 <= i < old(self).connected@.len() && old(self).connected@[i].id()
                            == path@
                    &&& {
                        let i = choose|i: int|
                            0 <= i < old(self).connected@.len() && old(self).connected@[i].id()
                                == path@;
                        &&& final(self).connected@ == old(self).connected@.remove(i)
                        &&& final(self).pending@ == old(self).pending@.push(
                            old(self).connected@[i],
                        )
                        &&& node_id@ == strip_colons(old(self).connected@[i].mac())
                        &&& display_name@ == display_name_spec(
                            names@,
                            old(self).connected@[i].mac(),
                        )
                    }
                },
                DisconnectOutcome::Unknown => {
                    &&& sensor_absent(old(self).connected@, path@)
                    &&& final(self).connected@ == old(self).connected@
                    &&& final(self).pending@ == old(self).pending@
                },
            },
    {
        let n = self.connected.len();
        let mut i: usize = 0;
        while i < n
            invariant
                old(self).wf(),
                *self == *old(self),
                n == self.connected.len(),
                i <= n,
                forall|k: int| 0 <= k < i ==> self.connected@[k].id() != path@,
            decreases n - i,
        {
            if self.connected[i].object_path == *path {
                proof {
                    assert(old(self).connected@[i as int].id() == path@);
                    assert forall|k: int|
                        0 <= k < old(self).connected@.len() && old(self).connected@[k].id()
                            == path@ implies k == i as int by {
                        lemma_distinct_unique(old(self).connected@, k, i as int);
                    }
                }
                let s = self.connected.remove(i);
                let (node_id, display_name) = node_identity(&s.mac_address, names);
                self.pending.push_back(s);
                proof {
                    let oc = old(self).connected@;
                    let wi = choose|k: int| 0 <= k < oc.len() && oc[k].id() == path@;
                    assert(oc[i as int].id() == path@);
                    assert(wi == i as int);
                    assert forall|a: int, b: int|
                        0 <= a < b < self.connected@.len() implies self.connected@[a].id()
                        != self.connected@[b].id() by {
                        let oa = if a < i as int {
                            a
                        } else {
                            a + 1
                        };
                        let ob = if b < i as int {
                            b
                        } else {
                            b + 1
                        };
                        assert(self.connected@[a] == oc[oa]);
                        assert(self.connected@[b] == oc[ob]);
                    }
                    assert forall|k: int|
                        0 <= k < self.pending@.len() implies sensor_absent(
                        self.connected@,
                        #[trigger] self.pending@[k].id(),
                    ) by {
                        let id = self.pending@[k].id();
                        assert forall|c: int| 0 <= c < self.connected@.len() implies self
                            .connected@[c].id() != id by {
                            let oc_idx = if c < i as int {
                                c
                            } else {
                                c + 1
                            };
                            assert(self.connected@[c] == oc[oc_idx]);
                            if k < old(self).pending@.len() {
                                assert(self.pending@[k] == old(self).pending@[k]);
                            } else {
                                assert(self.pending@[k] == oc[i as int]);
                            }
                        }
                    }
                }
                return DisconnectOutcome::Removed { node_id, display_name };
            }
            i = i + 1;
        }
        DisconnectOutcome::Unknown
    }

    /// The hardware address of the tracked sensor whose session identity is
    /// `path`, searching the connected set first, then the queue, then the
    /// attempt in flight.
    pub fn find_mac(&self, path: &String) -> (r: Option<String>)
        ensures
            match r {
                Some(mac) => mac_for_id(self.tracked_seq(), path@) == Some(mac@),
                None => mac_for_id(self.tracked_seq(), path@) is None,
            },
    {
        let ghost all = self.tracked_seq();
        let cn = self.connected.len();
        let mut i: usize = 0;
        while i < cn
            invariant
                cn == self.connected.len(),
                i <= cn,
                all == self.tracked_seq(),
                forall|k: int| 0 <= k < i ==> self.connected@[k].id() != path@,
            decreases cn - i,
        {
            if self.connected[i].object_path == *path {
                proof {
                    assert(all[i as int] == self.connected@[i as int]);
                    assert forall|k: int| 0 <= k < i as int implies all[k].id() != path@ by {
                        assert(all[k] == self.connected@[k]);
                    }
                    lemma_mac_for_id_found(all, path@, i as int);
                }
                return Some(self.connected[i].mac_address.clone());
            }
            i = i + 1;
        }
        let pn = self.pending.len();
        let mut j: usize = 0;
        while j < pn
            invariant
                pn == self.pending.len(),
                j <= pn,
                cn == self.connected.len(),
                all == self.tracked_seq(),
                forall|k: int| 0 <= k < cn ==> self.connected@[k].id() != path@,
                forall|k: int| 0 <= k < j ==> self.pending@[k].id() != path@,
            decreases pn - j,
        {
            proof {
                assert(all[cn + j] == self.pending@[j as int]);
            }
            if *vecdeque_index(&self.pending, j) == *path {
                proof {
                    assert forall|k: int| 0 <= k < cn + j implies all[k].id() != path@ by {
                        if k < cn {
                            assert(all[k] == self.connected@[k]);
                        } else {
                            assert(all[k] == self.pending@[k - cn]);
                        }
                    }
                    lemma_mac_for_id_found(all, path@, cn + j);
                }
                let s = vecdeque_get(&self.pending, j);
                return Some(s.mac_address.clone());
            }
            j = j + 1;
        }
        match &self.attempting {
            Some(a) => {
                proof {
                    assert(all[cn + pn] == attempting_value(self));
                }
                if a.object_path == *path {
                    proof {
                        assert forall|k: int| 0 <= k < cn + pn implies all[k].id() != path@ by {
                            if k < cn {
                                assert(all[k] == self.connected@[k]);
                            } else {
                                assert(all[k] == self.pending@[k - cn]);
                            }
                        }
                        lemma_mac_for_id_found(all, path@, cn + pn);
                    }
                    Some(a.mac_address.clone())
                } else {
                    proof {
                        assert forall|k: int| 0 <= k < all.len() implies all[k].id() != path@ by {
                            if k < cn {
                                assert(all[k] == self.connected@[k]);
                            } else if k < cn + pn {
                                assert(all[k] == self.pending@[k - cn]);
                            } else {
                                assert(all[k] == attempting_value(self));
                            }
                        }
                        lemma_mac_for_id_absent(all, path@);
                    }
                    None
                }
            },
            None => {
                proof {
                    assert forall|k: int| 0 <= k < all.len() implies all[k].id() != path@ by {
                        if k < cn {
                            assert(all[k] == self.connected@[k]);
                        } else {
                            assert(all[k] == self.pending@[k - cn]);
                        }
                    }
                    lemma_mac_for_id_absent(all, path@);
                }
                None
            },
        }
    }
}

/// The attempt in flight, where one is known to exist.
pub open spec fn attempting_value(m: &ConnectionManager) -> SensorInfo
    recommends
        m.attempting is Some,
{
    m.attempting->0
}

/// Read the object path of the sensor at position `j` of the queue.
fn vecdeque_index(q: &VecDeque<SensorInfo>, j: usize) -> (r: &String)
    requires
        j < q@.len(),
    ensures
        r == q@[j as int].object_path,
{
    &q[j].object_path
}

/// Read the sensor at position `j` of the queue.
fn vecdeque_get(q: &VecDeque<SensorInfo>, j: usize) -> (r: &SensorInfo)
    requires
        j < q@.len(),
    ensures
        r == q@[j as int],
{
    &q[j]
}

/// A sensor identity never sits in the queue and the connected set at once.
pub proof fn lemma_pending_connected_disjoint(m: &ConnectionManager)
    requires
        m.wf(),
    ensures
        forall|i: int, j: int|
            0 <= i < m.pending@.len() && 0 <= j < m.connected@.len() ==> m.pending@[i].id()
                != m.connected@[j].id(),
{
}

/// The queue after `k` rounds in which the front sensor was tried and, the
/// attempt failing, sent to the back.
pub open spec fn rotate_left(q: Seq<SensorInfo>, k: int) -> Seq<SensorInfo>
    recommends
        0 <= k,
        q.len() > 0,
    decreases k,
{
    if k <= 0 {
        q
    } else {
        let prev = rotate_left(q, k - 1);
        prev.drop_first().push(prev.first())
    }
}

/// One failed round — the front sensor popped for the attempt and, the
/// attempt failing, pushed to the back — leaves the queue rotated by one:
/// exactly what `begin_attempt` followed by `finish_attempt(false)` leaves
/// in `pending`.
pub proof fn lemma_failed_round_is_rotation(q: Seq<SensorInfo>)
    requires
        q.len() > 0,
    ensures
        rotate_left(q, 1) == q.drop_first().push(q.first()),
{
    assert(rotate_left(q, 0) == q);
}

/// Round-robin fairness: if every connection attempt fails, the sensor
/// attempted in round `k` is the one at position `k % len` of the original
/// queue, so the retries cycle through the whole queue and no sensor is
/// starved while others are retried.
pub proof fn lemma_round_robin(q: Seq<SensorInfo>, k: int)
    requires
        q.len() > 0,
        0 <= k,
    ensures
        rotate_left(q, k).len() == q.len(),
        rotate_left(q, k) == q.subrange(k % (q.len() as int), q.len() as int) + q.subrange(
            0,
            k % (q.len() as int),
        ),
        rotate_left(q, k).first() == q[k % (q.len() as int)],
    decreases k,
{
    let n = q.len() as int;
    vstd::arithmetic::div_mod::lemma_mod_bound(k, n);
    if k == 0 {
        vstd::arithmetic::div_mod::lemma_small_mod(0, q.len());
        assert(rotate_left(q, 0) =~= q.subrange(0, n) + q.subrange(0, 0));
    } else {
        lemma_round_robin(q, k - 1);
        let r0 = (k - 1) % n;
        let prev = rotate_left(q, k - 1);
        vstd::arithmetic::div_mod::lemma_mod_bound(k - 1, n);
        assert(k % n == (r0 + 1) % n) by {
            vstd::arithmetic::div_mod::lemma_add_mod_noop(k - 1, 1, n);
            if n == 1 {
                vstd::arithmetic::div_mod::lemma_mod_self_0(n);
            } else {
                vstd::arithmetic::div_mod::lemma_small_mod(1, q.len());
            }
            vstd::arithmetic::div_mod::lemma_mod_twice(k - 1, n);
        }
        if r0 == n - 1 {
            assert(k % n == 0) by {
                vstd::arithmetic::div_mod::lemma_mod_self_0(n);
            }
            assert(prev.drop_first() =~= q.subrange(0, n - 1));
            assert(prev.first() == q[n - 1]);
            assert(prev.drop_first().push(prev.first()) =~= q.subrange(0, n) + q.subrange(0, 0));
        } else {
            assert(k % n == r0 + 1) by {
                vstd::arithmetic::div_mod::lemma_small_mod((r0 + 1) as nat, q.len());
            }
            assert(prev.drop_first().push(prev.first()) =~= q.subrange(r0 + 1, n) + q.subrange(
                0,
                r0 + 1,
            ));
        }
    }
}

/// Within one full cycle of failed rounds every sensor reaches the front of
/// the queue: in round `i` it is sensor `i` of the original queue that is
/// attempted.
pub proof fn lemma_no_starvation(q: Seq<SensorInfo>, i: int)
    requires
        0 <= i < q.len(),
    ensures
        rotate_left(q, i).first() == q[i],
{
    lemma_round_robin(q, i);
    vstd::arithmetic::div_mod::lemma_small_mod(i as nat, q.len());
}

} // verus!