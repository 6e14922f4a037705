//! Game formation: reconnect-token allocation, seating a group of
//! four ready peers, the dispatcher's formation pass and the full
//! tick.
use vstd::prelude::*;

use crate::assoc::{
    find_key, has_key, key_idx, keys_unique, lemma_get_at, lemma_push, lemma_str_push,
    lemma_update, spec_get, str_find_key, str_has_key, str_keys_unique, str_spec_get,
};
use crate::board::Board;
use crate::dispatch::{hb_ready_resolved, hb_wait_resolved, mm_kept_or_promoted, untouched_by_tick};
use crate::proto::Pdu;
use crate::dispatch::vec_contains;
use crate::vault::{
    bucket_push, buckets_unchanged, queued_one, Color, Game, Peer, PeerState, Player, PlayerState,
    Vault, WhoMove,
};
use rand::Rng;

verus! {

/// An ASCII letter or digit.
pub open spec fn is_ascii_alnum(c: char) -> bool {
    ('A' <= c && c <= 'Z') || ('a' <= c && c <= 'z') || ('0' <= c && c <= '9')
}

/// The shape of a reconnect token: thirty-two ASCII letters or
/// digits.
pub open spec fn token_shape(t: Seq<char>) -> bool {
    t.len() == 32 && forall|i: int| 0 <= i < 32 ==> is_ascii_alnum(#[trigger] t[i])
}

/// Relies on rand's thread-local generator with the Alphanumeric
/// distribution: 32 characters drawn from A-Z, a-z and 0-9.
#[verifier::external_body]
fn random_string() -> (r: String)
    ensures
        r@.len() == 32,
        forall|i: int| 0 <= i < 32 ==> is_ascii_alnum(#[trigger] r@[i]),
{
    rand::thread_rng().sample_iter(&rand::distributions::Alphanumeric).take(32).map(
        char::from,
    ).collect()
}

/// The peer was seated: its state names the game and its seat, one
/// start frame was queued, and its name and handshake data stay.
pub open spec fn seated(p0: Peer, p1: Peer, color: Color, gid: u64) -> bool {
    &&& p1.state == (PeerState::Game { color, game: gid })
    &&& p1.player_name == p0.player_name
    &&& p1.client_info == p0.client_info
    &&& queued_one(p0.tx@, p1.tx@)
}

impl Vault {
    /// Seats four ready peers in a fresh game: allocates the id,
    /// registers the four reconnect tokens, creates the board, sets
    /// the four peers' states and queues each its start frame with
    /// its own token and every seat's name.
    #[verifier::rlimit(100)]
    pub fn form_game(
        &mut self,
        a_red: u64,
        a_blue: u64,
        a_yellow: u64,
        a_green: u64,
        t_red: String,
        t_blue: String,
        t_yellow: String,
        t_green: String,
    ) -> (gid: u64)
        requires
            old(self).wf(),
            a_red != a_blue && a_red != a_yellow && a_red != a_green && a_blue != a_yellow
                && a_blue != a_green && a_yellow != a_green,
            old(self).spec_peer(a_red) matches Some(p) && p.state
                matches PeerState::HeartbeatReady(_),
            old(self).spec_peer(a_blue) matches Some(p) && p.state
                matches PeerState::HeartbeatReady(_),
            old(self).spec_peer(a_yellow) matches Some(p) && p.state
                matches PeerState::HeartbeatReady(_),
            old(self).spec_peer(a_green) matches Some(p) && p.state
                matches PeerState::HeartbeatReady(_),
            t_red@ != t_blue@ && t_red@ != t_yellow@ && t_red@ != t_green@ && t_blue@ != t_yellow@
                && t_blue@ != t_green@ && t_yellow@ != t_green@,
            !str_has_key(old(self).reconnect@, t_red@),
            !str_has_key(old(self).reconnect@, t_blue@),
            !str_has_key(old(self).reconnect@, t_yellow@),
            !str_has_key(old(self).reconnect@, t_green@),
            old(self).next_game_id < u64::MAX,
        ensures
            final(self).wf(),
            gid == old(self).next_game_id,
            final(self).next_game_id == old(self).next_game_id + 1,
            final(self).spec_game(gid) matches Some(g) && ({
                &&& g.id == gid
                &&& g.red.peer == a_red && g.blue.peer == a_blue && g.yellow.peer == a_yellow
                    && g.green.peer == a_green
                &&& g.red.reconnect_id@ == t_red@ && g.blue.reconnect_id@ == t_blue@
                    && g.yellow.reconnect_id@ == t_yellow@ && g.green.reconnect_id@ == t_green@
                &&& g.red.time_remaining == crate::PLAYER_TIMER_MS && g.blue.time_remaining
                    == crate::PLAYER_TIMER_MS && g.yellow.time_remaining == crate::PLAYER_TIMER_MS
                    && g.green.time_remaining == crate::PLAYER_TIMER_MS
                &&& g.red.state == PlayerState::NoState && g.blue.state == PlayerState::NoState
                    && g.yellow.state == PlayerState::NoState && g.green.state
                    == PlayerState::NoState
                &&& g.who_move is None
                &&& g.move_happen_signal == 0
                &&& forall|col: int, row: int|
                    crate::position::on_board(col, row) ==> #[trigger] g.board.at(col, row)
                        == crate::board::start_piece(col, row)
            }),
            forall|id: u64| id != gid ==> #[trigger] final(self).spec_game(id) == old(
                self,
            ).spec_game(id),
            final(self).spec_peer(a_red) matches Some(p1) && seated(
                old(self).spec_peer(a_red).unwrap(),
                p1,
                Color::Red,
                gid,
            ),
            final(self).spec_peer(a_blue) matches Some(p1) && seated(
                old(self).spec_peer(a_blue).unwrap(),
                p1,
                Color::Blue,
                gid,
            ),
            final(self).spec_peer(a_yellow) matches Some(p1) && seated(
                old(self).spec_peer(a_yellow).unwrap(),
                p1,
                Color::Yellow,
                gid,
            ),
            final(self).spec_peer(a_green) matches Some(p1) && seated(
                old(self).spec_peer(a_green).unwrap(),
                p1,
                Color::Green,
                gid,
            ),
            crate::proto::is_init_pdu(
                final(self).spec_peer(a_red).unwrap().tx@.last(),
                crate::GS_INIT_PAUSE_MS / 1000,
                t_red@,
                old(self).spec_peer(a_red).unwrap().player_name.unwrap()@,
                old(self).spec_peer(a_blue).unwrap().player_name.unwrap()@,
                old(self).spec_peer(a_yellow).unwrap().player_name.unwrap()@,
                old(self).spec_peer(a_green).unwrap().player_name.unwrap()@,
            ),
            crate::proto::is_init_pdu(
                final(self).spec_peer(a_blue).unwrap().tx@.last(),
                crate::GS_INIT_PAUSE_MS / 1000,
                t_blue@,
                old(self).spec_peer(a_red).unwrap().player_name.unwrap()@,
                old(self).spec_peer(a_blue).unwrap().player_name.unwrap()@,
                old(self).spec_peer(a_yellow).unwrap().player_name.unwrap()@,
                old(self).spec_peer(a_green).unwrap().player_name.unwrap()@,
            ),
            crate::proto::is_init_pdu(
                final(self).spec_peer(a_yellow).unwrap().tx@.last(),
                crate::GS_INIT_PAUSE_MS / 1000,
                t_yellow@,
                old(self).spec_peer(a_red).unwrap().player_name.unwrap()@,
                old(self).spec_peer(a_blue).unwrap().player_name.unwrap()@,
                old(self).spec_peer(a_yellow).unwrap().player_name.unwrap()@,
                old(self).spec_peer(a_green).unwrap().player_name.unwrap()@,
            ),
            crate::proto::is_init_pdu(
                final(self).spec_peer(a_green).unwrap().tx@.last(),
                crate::GS_INIT_PAUSE_MS / 1000,
                t_green@,
                old(self).spec_peer(a_red).unwrap().player_name.unwrap()@,
                old(self).spec_peer(a_blue).unwrap().player_name.unwrap()@,
                old(self).spec_peer(a_yellow).unwrap().player_name.unwrap()@,
                old(self).spec_peer(a_green).unwrap().player_name.unwrap()@,
            ),
            forall|a: u64|
                a != a_red && a != a_blue && a != a_yellow && a != a_green
                    ==> #[trigger] final(self).spec_peer(a) == old(self).spec_peer(a),
            buckets_unchanged(*old(self), *final(self)),
            str_spec_get(final(self).reconnect@, t_red@) == Some(gid),
            str_spec_get(final(self).reconnect@, t_blue@) == Some(gid),
            str_spec_get(final(self).reconnect@, t_yellow@) == Some(gid),
            str_spec_get(final(self).reconnect@, t_green@) == Some(gid),
            forall|k: Seq<char>|
                k != t_red@ && k != t_blue@ && k != t_yellow@ && k != t_green@
                    ==> #[trigger] str_spec_get(final(self).reconnect@, k) == str_spec_get(
                    old(self).reconnect@,
                    k,
                ),
            final(self).reconnect@.len() == old(self).reconnect@.len() + 4,
            forall|a: u64| #[trigger] final(self).has_peer(a) == old(self).has_peer(a),
    {
        let gid = self.next_game_id;
        self.next_game_id = gid + 1;
        proof {
            assert forall|j: int| 0 <= j < self.games@.len() implies ((
            #[trigger] self.games@[j]).1.wf() && self.games@[j].1.id == self.games@[j].0
                && self.games@[j].0 < self.next_game_id) by {}
        }

        let tr2 = t_red.clone();
        let tb2 = t_blue.clone();
        let ty2 = t_yellow.clone();
        let tg2 = t_green.clone();
        let tr_pdu = t_red.clone();
        let tb_pdu = t_blue.clone();
        let ty_pdu = t_yellow.clone();
        let tg_pdu = t_green.clone();

        let ghost rec0 = self.reconnect@;
        self.reconnect.push((tr2, gid));
        proof {
            let k = self.reconnect@.last().0;
            assert(self.reconnect@ == rec0.push((k, gid)));
            lemma_str_push(rec0, k, gid);
        }
        let ghost rec1 = self.reconnect@;
        self.reconnect.push((tb2, gid));
        proof {
            let k = self.reconnect@.last().0;
            assert(self.reconnect@ == rec1.push((k, gid)));
            lemma_str_push(rec1, k, gid);
        }
        let ghost rec2 = self.reconnect@;
        self.reconnect.push((ty2, gid));
        proof {
            let k = self.reconnect@.last().0;
            assert(self.reconnect@ == rec2.push((k, gid)));
            lemma_str_push(rec2, k, gid);
        }
        let ghost rec3 = self.reconnect@;
        self.reconnect.push((tg2, gid));
        proof {
            let k = self.reconnect@.last().0;
            assert(self.reconnect@ == rec3.push((k, gid)));
            lemma_str_push(rec3, k, gid);
            assert(str_spec_get(self.reconnect@, t_red@) == Some(gid));
            assert(str_spec_get(self.reconnect@, t_blue@) == Some(gid));
            assert(str_spec_get(self.reconnect@, t_yellow@) == Some(gid));
            assert(str_spec_get(self.reconnect@, t_green@) == Some(gid));
            assert forall|j: int| 0 <= j < self.games@.len() implies {
                let gid2 = (#[trigger] self.games@[j]).0;
                let g = self.games@[j].1;
                &&& str_spec_get(self.reconnect@, g.red.reconnect_id@) == Some(gid2)
                &&& str_spec_get(self.reconnect@, g.blue.reconnect_id@) == Some(gid2)
                &&& str_spec_get(self.reconnect@, g.yellow.reconnect_id@) == Some(gid2)
                &&& str_spec_get(self.reconnect@, g.green.reconnect_id@) == Some(gid2)
            } by {
                let g = self.games@[j].1;
                assert(str_spec_get(rec0, g.red.reconnect_id@) == Some(self.games@[j].0));
                assert(g.red.reconnect_id@ != t_red@ && g.red.reconnect_id@ != t_blue@
                    && g.red.reconnect_id@ != t_yellow@ && g.red.reconnect_id@ != t_green@);
                assert(g.blue.reconnect_id@ != t_red@ && g.blue.reconnect_id@ != t_blue@
                    && g.blue.reconnect_id@ != t_yellow@ && g.blue.reconnect_id@ != t_green@);
                assert(g.yellow.reconnect_id@ != t_red@ && g.yellow.reconnect_id@ != t_blue@
                    && g.yellow.reconnect_id@ != t_yellow@ && g.yellow.reconnect_id@ != t_green@);
                assert(g.green.reconnect_id@ != t_red@ && g.green.reconnect_id@ != t_blue@
                    && g.green.reconnect_id@ != t_yellow@ && g.green.reconnect_id@ != t_green@);
            }
        }

        let i_red = match find_key(&self.peers, a_red) {
            Some(i) => i,
            None => {
                proof {
                    assert(false);
                }
                0
            },
        };
        let i_blue = match find_key(&self.peers, a_blue) {
            Some(i) => i,
            None => {
                proof {
                    assert(false);
                }
                0
            },
        };
        let i_yellow = match find_key(&self.peers, a_yellow) {
            Some(i) => i,
            None => {
                proof {
                    assert(false);
                }
                0
            },
        };
        let i_green = match find_key(&self.peers, a_green) {
            Some(i) => i,
            None => {
                proof {
                    assert(false);
                }
                0
            },
        };
        proof {
            lemma_get_at(self.peers@, i_red as int);
            lemma_get_at(self.peers@, i_blue as int);
            lemma_get_at(self.peers@, i_yellow as int);
            lemma_get_at(self.peers@, i_green as int);
        }
        let n_red = match &self.peers[i_red].1.player_name {
            Some(n) => n.clone(),
            None => {
                proof {
                    assert(false);
                }
                String::new()
            },
        };
        let n_blue = match &self.peers[i_blue].1.player_name {
            Some(n) => n.clone(),
            None => {
                proof {
                    assert(false);
                }
                String::new()
            },
        };
        let n_yellow = match &self.peers[i_yellow].1.player_name {
            Some(n) => n.clone(),
            None => {
                proof {
                    assert(false);
                }
                String::new()
            },
        };
        let n_green = match &self.peers[i_green].1.player_name {
            Some(n) => n.clone(),
            None => {
                proof {
                    assert(false);
                }
                String::new()
            },
        };

        let game = Game {
            id: gid,
            board: Board::new(),
            red: Player {
                color: Color::Red,
                reconnect_id: t_red,
                time_remaining: crate::PLAYER_TIMER_MS,
                state: PlayerState::NoState,
                peer: a_red,
            },
            blue: Player {
                color: Color::Blue,
                reconnect_id: t_blue,
                time_remaining: crate::PLAYER_TIMER_MS,
                state: PlayerState::NoState,
                peer: a_blue,
            },
            yellow: Player {
                color: Color::Yellow,
                reconnect_id: t_yellow,
                time_remaining: crate::PLAYER_TIMER_MS,
                state: PlayerState::NoState,
                peer: a_yellow,
            },
            green: Player {
                color: Color::Green,
                reconnect_id: t_green,
                time_remaining: crate::PLAYER_TIMER_MS,
                state: PlayerState::NoState,
                peer: a_green,
            },
            who_move: None,
            move_happen_signal: 0,
        };
        proof {
            assert(game.wf());
            if has_key(self.games@, gid) {
                let j = key_idx(self.games@, gid);
                assert(self.games@[j].0 < gid);
            }
            lemma_push(self.games@, gid, game);
        }
        let ghost games0 = self.games@;
        self.games.push((gid, game));
        proof {
            assert(self.games@ == games0.push((gid, game)));
            assert(self.spec_game(gid) == Some(game));
            assert forall|j: int| 0 <= j < self.peers@.len() implies {
                let entry = #[trigger] self.peers@[j];
                entry.1.state matches PeerState::Game { color, game: g2 } ==> (self.spec_game(g2)
                    matches Some(g) && g.spec_player(color).peer == entry.0)
            } by {
                let entry = self.peers@[j];
                match entry.1.state {
                    PeerState::Game { color, game: g2 } => {
                        assert(spec_get(games0, g2) is Some);
                        assert(has_key(games0, g2));
                        let jj = key_idx(games0, g2);
                        assert(games0[jj].0 == g2 && games0[jj].0 < gid);
                        assert(g2 != gid);
                    },
                    _ => {},
                }
            }
            assert(self.wf());
        }

        let ghost s0 = *self;
        self.queue_to_peer(
            i_red,
            crate::proto::init_pdu(
                crate::GS_INIT_PAUSE_MS / 1000,
                tr_pdu,
                n_red.clone(),
                n_blue.clone(),
                n_yellow.clone(),
                n_green.clone(),
            ),
        );
        let entry = &mut self.peers[i_red];
        entry.1.state = PeerState::Game { color: Color::Red, game: gid };
        proof {
            assert(self.peers@ =~= s0.peers@.update(
                i_red as int,
                (s0.peers@[i_red as int].0, self.peers@[i_red as int].1),
            ));
            Self::lemma_wf_after_peer_update(s0, *self, i_red as int);
        }

        let ghost s1 = *self;
        self.queue_to_peer(
            i_blue,
            crate::proto::init_pdu(
                crate::GS_INIT_PAUSE_MS / 1000,
                tb_pdu,
                n_red.clone(),
                n_blue.clone(),
                n_yellow.clone(),
                n_green.clone(),
            ),
        );
        let entry = &mut self.peers[i_blue];
        entry.1.state = PeerState::Game { color: Color::Blue, game: gid };
        proof {
            assert(self.peers@ =~= s1.peers@.update(
                i_blue as int,
                (s1.peers@[i_blue as int].0, self.peers@[i_blue as int].1),
            ));
            Self::lemma_wf_after_peer_update(s1, *self, i_blue as int);
        }

        let ghost s2 = *self;
        self.queue_to_peer(
            i_yellow,
            crate::proto::init_pdu(
                crate::GS_INIT_PAUSE_MS / 1000,
                ty_pdu,
                n_red.clone(),
                n_blue.clone(),
                n_yellow.clone(),
                n_green.clone(),
            ),
        );
        let entry = &mut self.peers[i_yellow];
        entry.1.state = PeerState::Game { color: Color::Yellow, game: gid };
        proof {
            assert(self.peers@ =~= s2.peers@.update(
                i_yellow as int,
                (s2.peers@[i_yellow as int].0, self.peers@[i_yellow as int].1),
            ));
            Self::lemma_wf_after_peer_update(s2, *self, i_yellow as int);
        }

        let ghost s3 = *self;
        self.queue_to_peer(
            i_green,
            crate::proto::init_pdu(
                crate::GS_INIT_PAUSE_MS / 1000,
                tg_pdu,
                n_red,
                n_blue,
                n_yellow,
                n_green,
            ),
        );
        let entry = &mut self.peers[i_green];
        entry.1.state = PeerState::Game { color: Color::Green, game: gid };
        proof {
            assert(self.peers@ =~= s3.peers@.update(
                i_green as int,
                (s3.peers@[i_green as int].0, self.peers@[i_green as int].1),
            ));
            Self::lemma_wf_after_peer_update(s3, *self, i_green as int);
        }
        gid
    }
}

/// The peer was seated in some game this pass: its queues and
/// handshake data survive, one start frame was queued.
pub open spec fn seated_some(p0: Peer, p1: Peer) -> bool {
    &&& p1.state matches PeerState::Game { .. }
    &&& p1.player_name == p0.player_name
    &&& p1.client_info == p0.client_info
    &&& queued_one(p0.tx@, p1.tx@)
}

impl Vault {
    /// The peer is connected and ready for a game.
    pub open spec fn ready_peer(self, addr: u64) -> bool {
        self.spec_peer(addr) matches Some(p) && p.state matches PeerState::HeartbeatReady(_)
    }

    /// Draws a fresh reconnect token: not yet in the token map and
    /// different from the given already-drawn ones. Retries a few
    /// times; `None` when every draw collided.
    fn draw_token(&self, t1: Option<&String>, t2: Option<&String>, t3: Option<&String>) -> (r:
        Option<String>)
        ensures
            r matches Some(t) ==> {
                &&& token_shape(t@)
                &&& !str_has_key(self.reconnect@, t@)
                &&& (t1 matches Some(o) ==> o@ != t@)
                &&& (t2 matches Some(o) ==> o@ != t@)
                &&& (t3 matches Some(o) ==> o@ != t@)
            },
    {
        let mut tries: u64 = 0;
        while tries < 16
            invariant
                tries <= 16,
            decreases 16 - tries,
        {
            let cand = random_string();
            let fresh = match crate::assoc::str_find_key(&self.reconnect, cand.as_str()) {
                Some(_) => false,
                None => true,
            };
            let d1 = match t1 {
                Some(o) => !crate::assoc::str_eq(o.as_str(), cand.as_str()),
                None => true,
            };
            let d2 = match t2 {
                Some(o) => !crate::assoc::str_eq(o.as_str(), cand.as_str()),
                None => true,
            };
            let d3 = match t3 {
                Some(o) => !crate::assoc::str_eq(o.as_str(), cand.as_str()),
                None => true,
            };
            if fresh && d1 && d2 && d3 {
                return Some(cand);
            }
            tries = tries + 1;
        }
        None
    }

    /// Tries to seat one group of four ready peers: draws four fresh
    /// tokens and forms the game. When a token draw collides or the
    /// id allocator is exhausted, nothing changes and false comes
    /// back.
    fn try_form_group(&mut self, a1: u64, a2: u64, a3: u64, a4: u64) -> (formed: bool)
        requires
            old(self).wf(),
            a1 != a2 && a1 != a3 && a1 != a4 && a2 != a3 && a2 != a4 && a3 != a4,
            old(self).ready_peer(a1),
            old(self).ready_peer(a2),
            old(self).ready_peer(a3),
            old(self).ready_peer(a4),
        ensures
            final(self).wf(),
            buckets_unchanged(*old(self), *final(self)),
            final(self).reconnect@.len() >= old(self).reconnect@.len(),
            forall|id: u64|
                old(self).has_game(id) ==> #[trigger] final(self).spec_game(id) == old(
                    self,
                ).spec_game(id),
            forall|a: u64| #[trigger] final(self).has_peer(a) == old(self).has_peer(a),
            forall|a: u64|
                a != a1 && a != a2 && a != a3 && a != a4 ==> #[trigger] final(self).spec_peer(a)
                    == old(self).spec_peer(a),
            !formed ==> *final(self) == *old(self),
            formed ==> (final(self).spec_game(old(self).next_game_id) matches Some(g) && ({
                &&& g.id == old(self).next_game_id
                &&& token_shape(g.red.reconnect_id@)
                &&& token_shape(g.blue.reconnect_id@)
                &&& token_shape(g.yellow.reconnect_id@)
                &&& token_shape(g.green.reconnect_id@)
            })),
            formed ==> {
                &&& final(self).spec_peer(a1) matches Some(p) && seated_some(
                    old(self).spec_peer(a1).unwrap(),
                    p,
                )
                &&& final(self).spec_peer(a2) matches Some(p) && seated_some(
                    old(self).spec_peer(a2).unwrap(),
                    p,
                )
                &&& final(self).spec_peer(a3) matches Some(p) && seated_some(
                    old(self).spec_peer(a3).unwrap(),
                    p,
                )
                &&& final(self).spec_peer(a4) matches Some(p) && seated_some(
                    old(self).spec_peer(a4).unwrap(),
                    p,
                )
            },
    {
        let t1 = self.draw_token(None, None, None);
        let t2 = match &t1 {
            Some(t1v) => self.draw_token(Some(t1v), None, None),
            None => None,
        };
        let t3 = match (&t1, &t2) {
            (Some(t1v), Some(t2v)) => self.draw_token(Some(t1v), Some(t2v), None),
            _ => None,
        };
        let t4 = match (&t1, &t2, &t3) {
            (Some(t1v), Some(t2v), Some(t3v)) => self.draw_token(
                Some(t1v),
                Some(t2v),
                Some(t3v),
            ),
            _ => None,
        };
        match (t1, t2, t3, t4) {
            (Some(tk1), Some(tk2), Some(tk3), Some(tk4)) => {
                if self.next_game_id < u64::MAX {
                    self.form_game(a1, a2, a3, a4, tk1, tk2, tk3, tk4);
                    true
                } else {
                    false
                }
            },
            _ => false,
        }
    }

    /// Dispatcher pass four: walks the ready bucket and seats every
    /// full group of four distinct ready peers in a fresh game.
    /// Returns how many full groups were passed over because their
    /// token draws collided or the id allocator was exhausted.
    #[verifier::spinoff_prover]
    #[verifier::rlimit(100)]
    pub fn hb_games_pass(&mut self, now: u64) -> (skipped: u64)
        requires
            old(self).wf(),
        ensures
            final(self).wf(),
            buckets_unchanged(*old(self), *final(self)),
            final(self).reconnect@.len() >= old(self).reconnect@.len(),
            forall|id: u64|
                old(self).has_game(id) ==> #[trigger] final(self).spec_game(id) == old(
                    self,
                ).spec_game(id),
            forall|a: u64| final(self).has_peer(a) == old(self).has_peer(a),
            forall|a: u64|
                old(self).spec_peer(a) matches Some(p) ==> (!(p.state
                    matches PeerState::HeartbeatReady(_)) ==> #[trigger] final(self).spec_peer(a)
                    == old(self).spec_peer(a)),
            forall|a: u64|
                old(self).spec_peer(a) matches Some(p) ==> (p.state
                    matches PeerState::HeartbeatReady(_) ==> (#[trigger] final(self).spec_peer(a)
                    == old(self).spec_peer(a) || (final(self).spec_peer(a) matches Some(p1)
                    && seated_some(p, p1)))),
    {
        let ghost pre = *self;
        let mut skipped: u64 = 0;
        let mut tmp: Vec<u64> = Vec::new();
        let mut bi: usize = 0;
        while bi < self.hb_ready.len()
            invariant
                self.wf(),
                pre.wf(),
                bi <= self.hb_ready@.len(),
                skipped <= bi,
                self.hb_ready == pre.hb_ready,
                self.idle == pre.idle,
                self.mm_queue == pre.mm_queue,
                self.hb_wait == pre.hb_wait,
                self.reconnect@.len() >= pre.reconnect@.len(),
                forall|id: u64|
                    pre.has_game(id) ==> #[trigger] self.spec_game(id) == pre.spec_game(id),
                forall|a: u64| self.has_peer(a) == pre.has_peer(a),
                forall|a: u64|
                    pre.spec_peer(a) matches Some(p) ==> (!(p.state
                        matches PeerState::HeartbeatReady(_)) ==> #[trigger] self.spec_peer(a)
                        == pre.spec_peer(a)),
                forall|a: u64|
                    pre.spec_peer(a) matches Some(p) ==> (p.state
                        matches PeerState::HeartbeatReady(_) ==> (#[trigger] self.spec_peer(a)
                        == pre.spec_peer(a) || (self.spec_peer(a) matches Some(p1) && seated_some(
                        p,
                        p1,
                    )))),
                tmp@.len() < 4,
                forall|i: int, j: int| 0 <= i < j < tmp@.len() ==> tmp@[i] != tmp@[j],
                forall|i: int| 0 <= i < tmp@.len() ==> self.ready_peer(#[trigger] tmp@[i]),
            decreases self.hb_ready@.len() - bi,
        {
            let addr = self.hb_ready[bi];
            if !vec_contains(&tmp, addr) {
                if let Some(i) = find_key(&self.peers, addr) {
                    proof {
                        lemma_get_at(self.peers@, i as int);
                    }
                    if self.peers[i].1.state.is_hb_ready() {
                        let ghost tmp0 = tmp@;
                        tmp.push(addr);
                        proof {
                            assert(tmp@[tmp@.len() - 1] == addr);
                            assert(self.ready_peer(addr));
                            assert forall|ii: int| 0 <= ii < tmp@.len() implies self.ready_peer(
                                #[trigger] tmp@[ii],
                            ) by {
                                if ii < tmp@.len() - 1 {
                                    assert(tmp@[ii] == tmp0[ii]);
                                }
                            }
                        }
                        if tmp.len() == 4 {
                            let g1 = tmp[0];
                            let g2 = tmp[1];
                            let g3 = tmp[2];
                            let g4 = tmp[3];
                            let ghost mid = *self;
                            let formed = self.try_form_group(g1, g2, g3, g4);
                            if !formed {
                                skipped = skipped + 1;
                            }
                            proof {
                                if formed {
                                    assert forall|a: u64|
                                        self.ready_peer(a) implies mid.ready_peer(a) by {
                                        if a != g1 && a != g2 && a != g3 && a != g4 {
                                            assert(self.spec_peer(a) == mid.spec_peer(a));
                                        }
                                    }
                                }
                            }
                            tmp.clear();
                        }
                    }
                }
            }
            bi = bi + 1;
        }
        skipped
    }

    /// One dispatcher tick: promote queued peers toward a heartbeat
    /// probe in groups of four, kick the probes that expired, requeue
    /// the ready peers that waited too long, and seat every full
    /// group of four ready peers in a fresh game. Peers that have not
    /// completed the handshake, idle peers and seated peers are left
    /// entirely alone.
    pub fn dispatcher_tick(&mut self, now: u64) -> (skipped: u64)
        requires
            old(self).wf(),
        ensures
            final(self).wf(),
            forall|a: u64| final(self).has_peer(a) == old(self).has_peer(a),
            forall|id: u64|
                old(self).has_game(id) ==> #[trigger] final(self).spec_game(id) == old(
                    self,
                ).spec_game(id),
            forall|a: u64| #[trigger] untouched_by_tick(*old(self), *final(self), a),
    {
        let ghost v0 = *self;
        self.mm_queue_pass(now);
        let ghost v1 = *self;
        self.hb_wait_pass(now);
        let ghost v2 = *self;
        self.hb_ready_pass(now);
        let ghost v3 = *self;
        let skipped = self.hb_games_pass(now);
        proof {
            assert forall|a: u64| #[trigger] untouched_by_tick(v0, *self, a) by {
                match v0.spec_peer(a) {
                    Some(p) => {
                        if p.state matches PeerState::Unknown(_) || p.state matches PeerState::Idle
                            || p.state matches PeerState::Game { .. } {
                            assert(mm_kept_or_promoted(v0, v1, a, now));
                            assert(v1.spec_peer(a) == v0.spec_peer(a));
                            assert(hb_wait_resolved(v1, v2, a, now));
                            assert(v2.spec_peer(a) == v1.spec_peer(a));
                            assert(hb_ready_resolved(v2, v3, a, now));
                            assert(v3.spec_peer(a) == v2.spec_peer(a));
                            assert(self.spec_peer(a) == v3.spec_peer(a));
                        }
                    },
                    None => {},
                }
            }
            assert forall|id: u64|
                v0.has_game(id) implies #[trigger] self.spec_game(id) == v0.spec_game(id) by {
                assert(v3.spec_game(id) == v0.spec_game(id));
                assert(v3.has_game(id) == (v3.spec_game(id) is Some));
            }
        }
        skipped
    }
}



} // verus!
