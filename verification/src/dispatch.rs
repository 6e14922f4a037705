//! The matchmaking dispatcher: the four passes of its periodic tick,
//! game formation and reconnect-token allocation.
use vstd::prelude::*;

use crate::assoc::{
    find_key, has_key, key_idx, keys_unique, lemma_get_at, lemma_push, lemma_str_push,
    lemma_update, spec_get, str_find_key, str_has_key, str_keys_unique, str_spec_get,
};
use crate::board::Board;
use crate::proto::Pdu;
use crate::vault::{
    bucket_push, buckets_unchanged, queued_one, Color, Complete, Game, Peer, PeerState, Player,
    PlayerState, Vault, WhoMove,
};
use rand::Rng;

verus! {

/// Whether a vector of addresses holds one.
pub fn vec_contains(v: &Vec<u64>, x: u64) -> (r: bool)
    ensures
        r == v@.contains(x),
{
    let mut i: usize = 0;
    while i < v.len()
        invariant
            i <= v@.len(),
            forall|j: int| 0 <= j < i ==> v@[j] != x,
        decreases v@.len() - i,
    {
        if v[i] == x {
            return true;
        }
        i = i + 1;
    }
    proof {
        if v@.contains(x) {
            let j = choose|j: int| 0 <= j < v@.len() && v@[j] == x;
            assert(v@[j] != x);
        }
    }
    false
}

/// A heartbeat probe went out: the peer moved to the wait state,
/// stamped now, with exactly the probe appended; name and handshake
/// data stay.
pub open spec fn mm_promoted(p0: Peer, p1: Peer, now: u64) -> bool {
    &&& p1.state == PeerState::HeartbeatWait(now)
    &&& p1.player_name == p0.player_name
    &&& p1.client_info == p0.client_info
    &&& queued_one(p0.tx@, p1.tx@)
    &&& crate::proto::is_heartbeat_check(p1.tx@.last())
}

/// A waiting peer timed out: kicked back to Idle, name cleared, with
/// exactly the kick notice appended.
pub open spec fn hb_kicked(p0: Peer, p1: Peer) -> bool {
    &&& p1.state == PeerState::Idle
    &&& p1.player_name is None
    &&& p1.client_info == p0.client_info
    &&& queued_one(p0.tx@, p1.tx@)
    &&& crate::proto::is_player_kick(p1.tx@.last())
}

/// A ready peer waited too long for partners: silently returned to
/// the matchmaking queue.
pub open spec fn hb_requeued(p0: Peer, p1: Peer) -> bool {
    &&& p1.state == PeerState::MMQueue
    &&& p1.player_name == p0.player_name
    &&& p1.client_info == p0.client_info
    &&& p1.tx == p0.tx
}

/// The wait since a stamp has exceeded a timeout at the current
/// reading (a reading earlier than the stamp counts as no wait).
pub open spec fn expired(since: u64, now: u64, timeout: u64) -> bool {
    now >= since && now - since > timeout
}

/// The peer kept waiting in the matchmaking queue (pass one left it
/// alone), or its heartbeat probe went out.
pub open spec fn mm_kept_or_promoted(pre: Vault, post: Vault, a: u64, now: u64) -> bool {
    pre.spec_peer(a) matches Some(p) ==> ((p.state matches PeerState::MMQueue ==> (post.spec_peer(
        a,
    ) == pre.spec_peer(a) || (post.spec_peer(a) matches Some(p1) && mm_promoted(p, p1, now))))
        && (!(p.state matches PeerState::MMQueue) ==> post.spec_peer(a) == pre.spec_peer(a)))
}

/// Pass two left the peer alone unless its probe expired; an expired
/// probe was answered with a kick.
pub open spec fn hb_wait_resolved(pre: Vault, post: Vault, a: u64, now: u64) -> bool {
    pre.spec_peer(a) matches Some(p) ==> ((p.state matches PeerState::HeartbeatWait(t) ==> ((
    !expired(t, now, crate::HB_WAIT_TIMEOUT_MS) ==> post.spec_peer(a) == pre.spec_peer(a)) && (
    expired(t, now, crate::HB_WAIT_TIMEOUT_MS) && pre.hb_wait@.contains(a) ==> (post.spec_peer(a)
        matches Some(p1) && hb_kicked(p, p1))))) && (!(p.state matches PeerState::HeartbeatWait(_))
        ==> post.spec_peer(a) == pre.spec_peer(a)))
}

/// Pass three left the peer alone unless its readiness expired; an
/// expired one rejoined the queue.
pub open spec fn hb_ready_resolved(pre: Vault, post: Vault, a: u64, now: u64) -> bool {
    pre.spec_peer(a) matches Some(p) ==> ((p.state matches PeerState::HeartbeatReady(t) ==> ((
    !expired(t, now, crate::HB_READY_TIMEOUT_MS) ==> post.spec_peer(a) == pre.spec_peer(a)) && (
    expired(t, now, crate::HB_READY_TIMEOUT_MS) && pre.hb_ready@.contains(a) ==> (post.spec_peer(
        a,
    ) matches Some(p1) && hb_requeued(p, p1))))) && (!(p.state
        matches PeerState::HeartbeatReady(_)) ==> post.spec_peer(a) == pre.spec_peer(a)))
}

/// The peer's probe expired this pass and the kick was delivered.
pub open spec fn kicked_now(pre: Vault, post: Vault, a: u64, now: u64) -> bool {
    pre.spec_peer(a) matches Some(p) && p.state matches PeerState::HeartbeatWait(t)
        && post.spec_peer(a) matches Some(p1) && expired(t, now, crate::HB_WAIT_TIMEOUT_MS)
        && hb_kicked(p, p1)
}

/// The peer's readiness expired this pass and it rejoined the queue.
pub open spec fn requeued_now(pre: Vault, post: Vault, a: u64, now: u64) -> bool {
    pre.spec_peer(a) matches Some(p) && p.state matches PeerState::HeartbeatReady(t)
        && post.spec_peer(a) matches Some(p1) && expired(t, now, crate::HB_READY_TIMEOUT_MS)
        && hb_requeued(p, p1)
}

impl Vault {
    /// The peer is still queued for matchmaking and its address
    /// stands in the matchmaking bucket.
    pub open spec fn queued_here(self, addr: u64) -> bool {
        &&& self.mm_queue@.contains(addr)
        &&& self.spec_peer(addr) matches Some(p) && p.state matches PeerState::MMQueue
    }

    /// Dispatcher pass one: walks the matchmaking bucket and, for
    /// every full group of four distinct peers still queued, sends
    /// each a heartbeat probe and moves it to the wait state. After
    /// the pass, fewer than four queued peers remain.
    #[verifier::rlimit(50)]
    pub fn mm_queue_pass(&mut self, now: u64)
        requires
            old(self).wf(),
        ensures
            final(self).wf(),
            final(self).mm_queue == old(self).mm_queue,
            final(self).idle == old(self).idle,
            final(self).hb_ready == old(self).hb_ready,
            final(self).games == old(self).games,
            final(self).reconnect == old(self).reconnect,
            final(self).next_game_id == old(self).next_game_id,
            forall|x: u64| old(self).hb_wait@.contains(x) ==> final(self).hb_wait@.contains(x),
            forall|a: u64| final(self).has_peer(a) == old(self).has_peer(a),
            forall|a: u64| #[trigger] mm_kept_or_promoted(*old(self), *final(self), a, now),
            forall|a1: u64, a2: u64, a3: u64, a4: u64|
                #![trigger final(self).queued_here(a1), final(self).queued_here(a2), final(self).queued_here(a3), final(self).queued_here(a4)]
                a1 != a2 && a1 != a3 && a1 != a4 && a2 != a3 && a2 != a4 && a3 != a4 ==> !(
                final(self).queued_here(a1) && final(self).queued_here(a2)
                    && final(self).queued_here(a3) && final(self).queued_here(a4)),
    {
        let ghost pre = *self;
        let mut tmp: Vec<u64> = Vec::new();
        let mut bi: usize = 0;
        while bi < self.mm_queue.len()
            invariant
                self.wf(),
                self.mm_queue == pre.mm_queue,
                self.idle == pre.idle,
                self.hb_ready == pre.hb_ready,
                self.games == pre.games,
                self.reconnect == pre.reconnect,
                self.next_game_id == pre.next_game_id,
                pre.wf(),
                bi <= self.mm_queue@.len(),
                forall|x: u64| pre.hb_wait@.contains(x) ==> self.hb_wait@.contains(x),
                forall|a: u64| self.has_peer(a) == pre.has_peer(a),
                forall|a: u64| #[trigger] mm_kept_or_promoted(pre, *self, a, now),
                tmp@.len() < 4,
                forall|i: int, j: int| 0 <= i < j < tmp@.len() ==> tmp@[i] != tmp@[j],
                forall|i: int| 0 <= i < tmp@.len() ==> self.queued_here(#[trigger] tmp@[i]),
                forall|bj: int|
                    0 <= bj < bi && self.queued_here(#[trigger] self.mm_queue@[bj])
                        ==> tmp@.contains(self.mm_queue@[bj]),
            decreases self.mm_queue@.len() - bi,
        {
            let addr = self.mm_queue[bi];
            if !vec_contains(&tmp, addr) {
                if let Some(i) = find_key(&self.peers, addr) {
                    proof {
                        lemma_get_at(self.peers@, i as int);
                    }
                    if self.peers[i].1.state.is_mm_queue() {
                        let ghost tmp0 = tmp@;
                        tmp.push(addr);
                        proof {
                            assert(self.mm_queue@[bi as int] == addr);
                            assert(self.mm_queue@.contains(addr));
                            assert(self.queued_here(addr));
                            assert(tmp@[tmp@.len() - 1] == addr);
                            assert forall|ii: int| 0 <= ii < tmp@.len() implies self.queued_here(
                                #[trigger] tmp@[ii],
                            ) by {
                                if ii < tmp@.len() - 1 {
                                    assert(tmp@[ii] == tmp0[ii]);
                                }
                            }
                            assert forall|x: u64| tmp0.contains(x) implies tmp@.contains(x) by {
                                let jj = choose|jj: int| 0 <= jj < tmp0.len() && tmp0[jj] == x;
                                assert(tmp@[jj] == x);
                            }
                        }
                        if tmp.len() == 4 {
                            let mut k: usize = 0;
                            while k < 4
                                invariant
                                    self.wf(),
                                    pre.wf(),
                                    k <= 4,
                                    tmp@.len() == 4,
                                    self.mm_queue == pre.mm_queue,
                                    self.idle == pre.idle,
                                    self.hb_ready == pre.hb_ready,
                                    self.games == pre.games,
                                    self.reconnect == pre.reconnect,
                                    self.next_game_id == pre.next_game_id,
                                    forall|x: u64|
                                        pre.hb_wait@.contains(x) ==> self.hb_wait@.contains(x),
                                    forall|a: u64| self.has_peer(a) == pre.has_peer(a),
                                    forall|a: u64| #[trigger] mm_kept_or_promoted(
                                        pre,
                                        *self,
                                        a,
                                        now,
                                    ),
                                    forall|i: int, j: int|
                                        0 <= i < j < tmp@.len() ==> tmp@[i] != tmp@[j],
                                    forall|i: int|
                                        k <= i < 4 ==> self.queued_here(#[trigger] tmp@[i]),
                                    forall|i: int|
                                        0 <= i < k ==> !(self.spec_peer(
                                            #[trigger] tmp@[i],
                                        ).unwrap().state matches PeerState::MMQueue),
                                    forall|bj: int|
                                        0 <= bj < bi && self.queued_here(
                                            #[trigger] self.mm_queue@[bj],
                                        ) ==> tmp@.contains(self.mm_queue@[bj]),
                                decreases 4 - k,
                            {
                                let t_addr = tmp[k];
                                proof {
                                    assert(self.queued_here(tmp@[k as int]));
                                }
                                match find_key(&self.peers, t_addr) {
                                    None => {
                                        proof {
                                            assert(false);
                                        }
                                    },
                                    Some(ti) => {
                                        proof {
                                            lemma_get_at(self.peers@, ti as int);
                                        }
                                        let ghost mid = *self;
                                        self.queue_to_peer(
                                            ti,
                                            crate::proto::heartbeat_check_pdu(),
                                        );
                                        let entry = &mut self.peers[ti];
                                        entry.1.state = PeerState::HeartbeatWait(now);
                                        proof {
                                            assert(self.peers@ =~= mid.peers@.update(
                                                ti as int,
                                                (
                                                    mid.peers@[ti as int].0,
                                                    self.peers@[ti as int].1,
                                                ),
                                            ));
                                        }
                                        bucket_push(&mut self.hb_wait, t_addr);
                                        proof {
                                            Self::lemma_wf_after_peer_update(
                                                mid,
                                                *self,
                                                ti as int,
                                            );
                                            assert(mm_promoted(
                                                mid.spec_peer(t_addr).unwrap(),
                                                self.spec_peer(t_addr).unwrap(),
                                                now,
                                            ));
                                            assert forall|a: u64| #[trigger] mm_kept_or_promoted(
                                                pre,
                                                *self,
                                                a,
                                                now,
                                            ) by {
                                                assert(mm_kept_or_promoted(pre, mid, a, now));
                                                if a != t_addr {
                                                    assert(self.spec_peer(a) == mid.spec_peer(
                                                        a,
                                                    ));
                                                }
                                            }
                                            assert forall|x: u64|
                                                self.queued_here(x) implies mid.queued_here(
                                                x,
                                            ) by {
                                                if x != t_addr {
                                                    assert(self.spec_peer(x) == mid.spec_peer(
                                                        x,
                                                    ));
                                                }
                                            }
                                        }
                                    },
                                }
                                k = k + 1;
                            }
                            let ghost tmp4 = tmp@;
                            tmp.clear();
                            proof {
                                assert forall|bj: int|
                                    0 <= bj < bi + 1 && self.queued_here(
                                        #[trigger] self.mm_queue@[bj],
                                    ) implies tmp@.contains(self.mm_queue@[bj]) by {
                                    let x = self.mm_queue@[bj];
                                    if bj < bi {
                                        assert(tmp4.contains(x));
                                        let jj = choose|jj: int|
                                            0 <= jj < tmp4.len() && tmp4[jj] == x;
                                        assert(!(self.spec_peer(
                                            tmp4[jj],
                                        ).unwrap().state matches PeerState::MMQueue));
                                    } else {
                                        assert(x == addr);
                                        assert(tmp4[3] == addr);
                                        assert(!(self.spec_peer(
                                            tmp4[3],
                                        ).unwrap().state matches PeerState::MMQueue));
                                    }
                                }
                            }
                        }
                    }
                }
            }
            bi = bi + 1;
        }
        proof {
            assert forall|a1: u64, a2: u64, a3: u64, a4: u64|
                #![trigger self.queued_here(a1), self.queued_here(a2), self.queued_here(a3), self.queued_here(a4)]
                a1 != a2 && a1 != a3 && a1 != a4 && a2 != a3 && a2 != a4 && a3 != a4 implies !(
            self.queued_here(a1) && self.queued_here(a2) && self.queued_here(a3)
                && self.queued_here(a4)) by {
                if self.queued_here(a1) && self.queued_here(a2) && self.queued_here(a3)
                    && self.queued_here(a4) {
                    let i1 = choose|i: int|
                        0 <= i < self.mm_queue@.len() && self.mm_queue@[i] == a1;
                    let i2 = choose|i: int|
                        0 <= i < self.mm_queue@.len() && self.mm_queue@[i] == a2;
                    let i3 = choose|i: int|
                        0 <= i < self.mm_queue@.len() && self.mm_queue@[i] == a3;
                    let i4 = choose|i: int|
                        0 <= i < self.mm_queue@.len() && self.mm_queue@[i] == a4;
                    assert(tmp@.contains(a1) && tmp@.contains(a2) && tmp@.contains(a3)
                        && tmp@.contains(a4));
                    let j1 = choose|j: int| 0 <= j < tmp@.len() && tmp@[j] == a1;
                    let j2 = choose|j: int| 0 <= j < tmp@.len() && tmp@[j] == a2;
                    let j3 = choose|j: int| 0 <= j < tmp@.len() && tmp@[j] == a3;
                    let j4 = choose|j: int| 0 <= j < tmp@.len() && tmp@[j] == a4;
                    assert(false);
                }
            }
        }
    }

    /// Dispatcher pass two: every peer whose heartbeat probe has
    /// waited longer than the timeout is kicked back to Idle, its
    /// name cleared, with a kick notice.
    #[verifier::rlimit(50)]
    pub fn hb_wait_pass(&mut self, now: u64)
        requires
            old(self).wf(),
        ensures
            final(self).wf(),
            final(self).mm_queue == old(self).mm_queue,
            final(self).hb_wait == old(self).hb_wait,
            final(self).hb_ready == old(self).hb_ready,
            final(self).games == old(self).games,
            final(self).reconnect == old(self).reconnect,
            final(self).next_game_id == old(self).next_game_id,
            forall|x: u64| old(self).idle@.contains(x) ==> final(self).idle@.contains(x),
            forall|a: u64| final(self).has_peer(a) == old(self).has_peer(a),
            forall|a: u64| #[trigger] hb_wait_resolved(*old(self), *final(self), a, now),
    {
        let ghost pre = *self;
        let mut bi: usize = 0;
        while bi < self.hb_wait.len()
            invariant
                self.wf(),
                pre.wf(),
                bi <= self.hb_wait@.len(),
                self.mm_queue == pre.mm_queue,
                self.hb_wait == pre.hb_wait,
                self.hb_ready == pre.hb_ready,
                self.games == pre.games,
                self.reconnect == pre.reconnect,
                self.next_game_id == pre.next_game_id,
                forall|x: u64| pre.idle@.contains(x) ==> self.idle@.contains(x),
                forall|a: u64| self.has_peer(a) == pre.has_peer(a),
                forall|a: u64| #[trigger] self.spec_peer(a) == pre.spec_peer(a) || kicked_now(
                    pre,
                    *self,
                    a,
                    now,
                ),
                forall|bj: int|
                    0 <= bj < bi ==> (pre.spec_peer(#[trigger] pre.hb_wait@[bj]) matches Some(p)
                        ==> (p.state matches PeerState::HeartbeatWait(t) ==> (expired(
                        t,
                        now,
                        crate::HB_WAIT_TIMEOUT_MS,
                    ) ==> (self.spec_peer(pre.hb_wait@[bj]) matches Some(p1) && hb_kicked(
                        p,
                        p1,
                    ))))),
            decreases self.hb_wait@.len() - bi,
        {
            let addr = self.hb_wait[bi];
            if let Some(i) = find_key(&self.peers, addr) {
                proof {
                    lemma_get_at(self.peers@, i as int);
                }
                let since = self.peers[i].1.state.get_hb_wait_since();
                if let Some(t) = since {
                    if now >= t && now - t > crate::HB_WAIT_TIMEOUT_MS {
                        let ghost mid = *self;
                        self.queue_to_peer(i, crate::proto::player_kick_pdu());
                        let entry = &mut self.peers[i];
                        entry.1.state = PeerState::Idle;
                        entry.1.player_name = None;
                        proof {
                            assert(self.peers@ =~= mid.peers@.update(
                                i as int,
                                (mid.peers@[i as int].0, self.peers@[i as int].1),
                            ));
                        }
                        bucket_push(&mut self.idle, addr);
                        proof {
                            Self::lemma_wf_after_peer_update(mid, *self, i as int);
                            assert(mid.spec_peer(addr) == pre.spec_peer(addr));
                            assert(kicked_now(pre, *self, addr, now));
                            assert forall|a: u64| #[trigger] self.spec_peer(a) == pre.spec_peer(a)
                                || kicked_now(pre, *self, a, now) by {
                                if a != addr {
                                    assert(self.spec_peer(a) == mid.spec_peer(a));
                                    if !(mid.spec_peer(a) == pre.spec_peer(a)) {
                                        assert(kicked_now(pre, mid, a, now));
                                    }
                                }
                            }
                        }
                    }
                }
            }
            bi = bi + 1;
        }
        proof {
            assert forall|a: u64| #[trigger] hb_wait_resolved(pre, *self, a, now) by {
                match pre.spec_peer(a) {
                    Some(p) => match p.state {
                        PeerState::HeartbeatWait(t) => {
                            if expired(t, now, crate::HB_WAIT_TIMEOUT_MS)
                                && pre.hb_wait@.contains(a) {
                                let bj = choose|bj: int|
                                    0 <= bj < pre.hb_wait@.len() && pre.hb_wait@[bj] == a;
                                assert(pre.spec_peer(pre.hb_wait@[bj]) matches Some(p2) && p2
                                    == p);
                            }
                        },
                        _ => {},
                    },
                    None => {},
                }
            }
        }
    }

    /// Dispatcher pass three: every ready peer that has waited for
    /// partners longer than the timeout is silently returned to the
    /// matchmaking queue.
    #[verifier::rlimit(50)]
    pub fn hb_ready_pass(&mut self, now: u64)
        requires
            old(self).wf(),
        ensures
            final(self).wf(),
            final(self).idle == old(self).idle,
            final(self).hb_wait == old(self).hb_wait,
            final(self).hb_ready == old(self).hb_ready,
            final(self).games == old(self).games,
            final(self).reconnect == old(self).reconnect,
            final(self).next_game_id == old(self).next_game_id,
            forall|x: u64| old(self).mm_queue@.contains(x) ==> final(self).mm_queue@.contains(x),
            forall|a: u64| final(self).has_peer(a) == old(self).has_peer(a),
            forall|a: u64| #[trigger] hb_ready_resolved(*old(self), *final(self), a, now),
    {
        let ghost pre = *self;
        let mut bi: usize = 0;
        while bi < self.hb_ready.len()
            invariant
                self.wf(),
                pre.wf(),
                bi <= self.hb_ready@.len(),
                self.idle == pre.idle,
                self.hb_wait == pre.hb_wait,
                self.hb_ready == pre.hb_ready,
                self.games == pre.games,
                self.reconnect == pre.reconnect,
                self.next_game_id == pre.next_game_id,
                forall|x: u64| pre.mm_queue@.contains(x) ==> self.mm_queue@.contains(x),
                forall|a: u64| self.has_peer(a) == pre.has_peer(a),
                forall|a: u64| #[trigger] self.spec_peer(a) == pre.spec_peer(a) || requeued_now(
                    pre,
                    *self,
                    a,
                    now,
                ),
                forall|bj: int|
                    0 <= bj < bi ==> (pre.spec_peer(#[trigger] pre.hb_ready@[bj]) matches Some(p)
                        ==> (p.state matches PeerState::HeartbeatReady(t) ==> (expired(
                        t,
                        now,
                        crate::HB_READY_TIMEOUT_MS,
                    ) ==> (self.spec_peer(pre.hb_ready@[bj]) matches Some(p1) && hb_requeued(
                        p,
                        p1,
                    ))))),
            decreases self.hb_ready@.len() - bi,
        {
            let addr = self.hb_ready[bi];
            if let Some(i) = find_key(&self.peers, addr) {
                proof {
                    lemma_get_at(self.peers@, i as int);
                }
                let since = self.peers[i].1.state.get_hb_ready_since();
                if let Some(t) = since {
                    if now >= t && now - t > crate::HB_READY_TIMEOUT_MS {
                        let ghost mid = *self;
                        let entry = &mut self.peers[i];
                        entry.1.state = PeerState::MMQueue;
                        proof {
                            assert(self.peers@ =~= mid.peers@.update(
                                i as int,
                                (mid.peers@[i as int].0, self.peers@[i as int].1),
                            ));
                        }
                        bucket_push(&mut self.mm_queue, addr);
                        proof {
                            Self::lemma_wf_after_peer_update(mid, *self, i as int);
                            assert(mid.spec_peer(addr) == pre.spec_peer(addr));
                            assert(requeued_now(pre, *self, addr, now));
                            assert forall|a: u64| #[trigger] self.spec_peer(a) == pre.spec_peer(a)
                                || requeued_now(pre, *self, a, now) by {
                                if a != addr {
                                    assert(self.spec_peer(a) == mid.spec_peer(a));
                                    if !(mid.spec_peer(a) == pre.spec_peer(a)) {
                                        assert(requeued_now(pre, mid, a, now));
                                    }
                                }
                            }
                        }
                    }
                }
            }
            bi = bi + 1;
        }
        proof {
            assert forall|a: u64| #[trigger] hb_ready_resolved(pre, *self, a, now) by {
                match pre.spec_peer(a) {
                    Some(p) => match p.state {
                        PeerState::HeartbeatReady(t) => {
                            if expired(t, now, crate::HB_READY_TIMEOUT_MS)
                                && pre.hb_ready@.contains(a) {
                                let bj = choose|bj: int|
                                    0 <= bj < pre.hb_ready@.len() && pre.hb_ready@[bj] == a;
                                assert(pre.spec_peer(pre.hb_ready@[bj]) matches Some(p2) && p2
                                    == p);
                            }
                        },
                        _ => {},
                    },
                    None => {},
                }
            }
        }
    }
}

/// A tick leaves alone every peer that is outside the matchmaking
/// flow: not yet through the handshake, idle, or seated in a game.
pub open spec fn untouched_by_tick(pre: Vault, post: Vault, a: u64) -> bool {
    pre.spec_peer(a) matches Some(p) ==> ((p.state matches PeerState::Unknown(_) || p.state
        matches PeerState::Idle || p.state matches PeerState::Game { .. }) ==> post.spec_peer(a)
        == pre.spec_peer(a))
}

} // verus!
