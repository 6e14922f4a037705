//! The per-game turn driver: applying accepted moves to the board,
//! castling checks, the move-or-timeout resolution of each turn and
//! the update broadcast.
use vstd::prelude::*;

use crate::assoc::{find_key, lemma_get_at, spec_get};
use crate::board::Piece;
use crate::position::Position;
use crate::proto::{Move, Pdu};
use crate::vault::{
    buckets_unchanged, queued_one, Color, Complete, Game, Peer, PeerState, Player, PlayerState,
    Vault, WhoMove,
};

verus! {

impl Game {
    /// Checks a move for legality beyond turn order. No further rule
    /// is implemented: every move is accepted.
    pub fn validate_move(&self, mv: &Move) -> (r: Result<(), crate::proto::MoveError>)
        ensures
            r is Ok,
    {
        Ok(())
    }

    /// Applies a capture. Captures are not wired to the board: the
    /// board is left as it is.
    fn apply_capture(&self, from: Position, to: Position) -> (r: Result<
        (),
        crate::proto::MoveError,
    >)
        ensures
            r is Ok,
    {
        Ok(())
    }

    /// Applies a castling move named by its rook square: the rook and
    /// king must be unmoved, the squares between them empty, the
    /// mover not in check and the king's path unattacked by enemy
    /// pieces; then the rook is moved to its castling square. (The
    /// king's own relocation is not wired to the board.) On any
    /// refused condition the board is unchanged and an error comes
    /// back.
    #[verifier::rlimit(100)]
    fn apply_castling(&mut self, rook_pos: Position) -> (r: Result<(), crate::proto::MoveError>)
        requires
            old(self).board.wf(),
            old(self).who_move is Some,
        ensures
            final(self).board.wf(),
            final(self).who_move == old(self).who_move,
            final(self).red == old(self).red,
            final(self).blue == old(self).blue,
            final(self).yellow == old(self).yellow,
            final(self).green == old(self).green,
            final(self).id == old(self).id,
            final(self).move_happen_signal == old(self).move_happen_signal,
            r is Err ==> final(self).board == old(self).board,
            !rook_pos.wf() ==> r is Err,
            rook_pos.wf() && old(self).board.spec_piece(rook_pos) is None ==> r is Err,
            rook_pos.wf() && (old(self).board.spec_piece(rook_pos) matches Some(p)
                && !p.have_not_move_yet) ==> r is Err,
            r is Ok ==> rook_pos.wf() && ({
                let b0 = old(self).board;
                let rook = b0.spec_piece(rook_pos).unwrap();
                &&& b0.spec_piece(rook_pos) is Some
                &&& rook.have_not_move_yet
                &&& exists|kc: int, kr: int|
                    {
                        let king = Position { col: kc as u8, row: kr as u8 };
                        &&& #[trigger] b0.king_at(kc, kr, rook.color)
                        &&& b0.at(kc, kr).unwrap().have_not_move_yet
                        &&& crate::board::spec_castling_pattern(rook_pos, king) matches Some(pat)
                        &&& (forall|j: int|
                            0 <= j < pat.0.len() ==> b0.spec_piece(#[trigger] pat.0[j]) is None)
                        &&& old(self).spec_player(
                            old(self).who_move.unwrap().color,
                        ).state != PlayerState::Check
                        &&& (forall|j: int, fc: int, fr: int|
                            0 <= j < pat.1.len() && #[trigger] b0.attacks(fc, fr, pat.1[j])
                                ==> b0.at(fc, fr).unwrap().color == old(self).spec_player(
                                old(self).who_move.unwrap().color,
                            ).color)
                        &&& final(self).board.spec_piece(pat.2) == Some(
                            Piece { have_not_move_yet: false, ..rook },
                        )
                        &&& (rook_pos != pat.2 ==> final(self).board.spec_piece(rook_pos) is None)
                        &&& (forall|c: int, r2: int|
                            !(c == rook_pos.col && r2 == rook_pos.row) && !(c == pat.2.col && r2
                                == pat.2.row) ==> #[trigger] final(self).board.at(c, r2) == b0.at(
                                c,
                                r2,
                            ))
                    }
            }),
    {
        if !rook_pos.check() {
            return Err(
                crate::proto::MoveError::ForbiddenMove {
                    description: "square off the board".to_owned(),
                },
            );
        }
        let rook = match self.board.piece(rook_pos) {
            None => {
                return Err(
                    crate::proto::MoveError::ForbiddenMove {
                        description: "empty rook cell".to_owned(),
                    },
                );
            },
            Some(rook) => rook,
        };
        if rook.already_move() {
            return Err(
                crate::proto::MoveError::ForbiddenMove {
                    description: "rook already move".to_owned(),
                },
            );
        }
        let king = match self.board.find_king(rook.color) {
            None => {
                return Err(
                    crate::proto::MoveError::ForbiddenMove {
                        description: "empty king cell".to_owned(),
                    },
                );
            },
            Some(k) => k,
        };
        let (king_piece, king_pos) = king.piece_pos();
        if king_piece.already_move() {
            return Err(
                crate::proto::MoveError::ForbiddenMove {
                    description: "king already move".to_owned(),
                },
            );
        }
        let pattern = match crate::board::castling_pattern(rook_pos, king_pos) {
            None => {
                return Err(
                    crate::proto::MoveError::ForbiddenMove {
                        description: "no castling pattern for these squares".to_owned(),
                    },
                );
            },
            Some(p) => p,
        };
        let mut j: usize = 0;
        while j < pattern.space_between.len()
            invariant
                self.board.wf(),
                j <= pattern.space_between@.len(),
                forall|i: int| 0 <= i < pattern.space_between@.len() ==> (#[trigger] pattern.space_between@[i]).wf(),
                forall|i: int|
                    0 <= i < j ==> self.board.spec_piece(#[trigger] pattern.space_between@[i])
                        is None,
            decreases pattern.space_between@.len() - j,
        {
            if self.board.piece(pattern.space_between[j]).is_some() {
                return Err(
                    crate::proto::MoveError::ForbiddenMove {
                        description: "cells between rook and king not empty".to_owned(),
                    },
                );
            }
            j = j + 1;
        }
        let mover_color = match &self.who_move {
            Some(wm) => wm.color,
            None => {
                proof {
                    assert(false);
                }
                Color::Red
            },
        };
        if self.player(&mover_color).state == PlayerState::Check {
            return Err(
                crate::proto::MoveError::ForbiddenMove {
                    description: "player under check".to_owned(),
                },
            );
        }
        let mut j: usize = 0;
        while j < pattern.king_path.len()
            invariant
                self.board.wf(),
                j <= pattern.king_path@.len(),
                mover_color == self.who_move.unwrap().color,
                self.who_move is Some,
                forall|i: int| 0 <= i < pattern.king_path@.len() ==> (#[trigger] pattern.king_path@[i]).wf(),
                forall|i: int, fc: int, fr: int|
                    0 <= i < j && #[trigger] self.board.attacks(fc, fr, pattern.king_path@[i])
                        ==> self.board.at(fc, fr).unwrap().color == self.spec_player(
                        mover_color,
                    ).color,
            decreases pattern.king_path@.len() - j,
        {
            let path_pos = pattern.king_path[j];
            if let Some(attackers) = self.board.attackers_on_position(path_pos) {
                let mut ai: usize = 0;
                while ai < attackers.len()
                    invariant
                        self.board.wf(),
                        path_pos.wf(),
                        ai <= attackers@.len(),
                        forall|i: int|
                            0 <= i < attackers@.len() ==> {
                                let pp = #[trigger] attackers@[i];
                                &&& pp.position.wf()
                                &&& self.board.spec_piece(pp.position) == Some(pp.piece)
                                &&& self.board.attacks(
                                    pp.position.col as int,
                                    pp.position.row as int,
                                    path_pos,
                                )
                            },
                        forall|fc: int, fr: int|
                            #[trigger] self.board.attacks(fc, fr, path_pos) ==> exists|i: int|
                                0 <= i < attackers@.len() && attackers@[i].position.col == fc
                                    && attackers@[i].position.row == fr,
                        forall|i: int|
                            0 <= i < ai ==> (#[trigger] attackers@[i]).piece.color
                                == self.spec_player(mover_color).color,
                    decreases attackers@.len() - ai,
                {
                    if attackers[ai].piece().color != self.player(&mover_color).color {
                        return Err(
                            crate::proto::MoveError::ForbiddenMove {
                                description: "king castling path is under attack".to_owned(),
                            },
                        );
                    }
                    ai = ai + 1;
                }
                proof {
                    assert forall|fc: int, fr: int|
                        #[trigger] self.board.attacks(fc, fr, path_pos) implies self.board.at(
                        fc,
                        fr,
                    ).unwrap().color == self.spec_player(mover_color).color by {
                        let i = choose|i: int|
                            0 <= i < attackers@.len() && attackers@[i].position.col == fc
                                && attackers@[i].position.row == fr;
                        assert(attackers@[i].piece.color == self.spec_player(mover_color).color);
                        assert(self.board.spec_piece(attackers@[i].position) == Some(
                            attackers@[i].piece,
                        ));
                    }
                }
            } else {
                proof {
                    assert forall|fc: int, fr: int|
                        #[trigger] self.board.attacks(fc, fr, path_pos) implies self.board.at(
                        fc,
                        fr,
                    ).unwrap().color == self.spec_player(mover_color).color by {}
                }
            }
            j = j + 1;
        }
        proof {
            assert(self.board.king_at(king_pos.col as int, king_pos.row as int, rook.color));
        }
        self.board.piece_move(rook_pos, pattern.rook_end_pos);
        Ok(())
    }

    /// Applies an accepted move to the board: castling is wired up;
    /// basic moves, captures and promotions leave the board untouched
    /// (the rule engine is not implemented for them); the empty and
    /// error variants do nothing.
    pub fn apply_move(&mut self, mv: &Move) -> (r: Result<(), crate::proto::MoveError>)
        requires
            old(self).board.wf(),
            old(self).who_move is Some,
        ensures
            final(self).board.wf(),
            final(self).who_move == old(self).who_move,
            final(self).red == old(self).red,
            final(self).blue == old(self).blue,
            final(self).yellow == old(self).yellow,
            final(self).green == old(self).green,
            final(self).id == old(self).id,
            final(self).move_happen_signal == old(self).move_happen_signal,
            !(mv matches Move::Castling { .. }) ==> r is Ok && final(self).board == old(
                self,
            ).board,
            r is Err ==> final(self).board == old(self).board,
    {
        match mv {
            Move::Basic { from, to } => Ok(()),
            Move::Capture { from, to } => self.apply_capture(*from, *to),
            Move::Castling { rook } => self.apply_castling(*rook),
            Move::Promotion { from, to, into } => Ok(()),
            Move::NoMove {  } | Move::Error(_) => Ok(()),
        }
    }
}


/// What woke the turn driver: the move timer ran out, or the move
/// signal channel delivered.
#[derive(Clone, Copy, PartialEq, Eq, Structural, Debug)]
pub enum DriverEvent {
    Timeout,
    MoveReceived,
}

/// Errors of a driver step.
#[derive(Clone, Copy, PartialEq, Eq, Structural, Debug)]
pub enum DriverError {
    /// The game id names no live game.
    NoSuchGame,
}

/// What the driver does next after a turn: call the given seat with
/// the given think time, or finish the game.
#[derive(Clone, Copy, PartialEq, Eq, Structural, Debug)]
pub struct TurnAdvance {
    pub next_color: Option<Color>,
    pub next_timer_ms: u64,
    pub finished: bool,
}

/// The four seats' conditions, in seat order Red, Blue, Yellow,
/// Green.
pub type SeatStates = (PlayerState, PlayerState, PlayerState, PlayerState);

/// The condition of one seat.
pub open spec fn state_of(states: SeatStates, c: Color) -> PlayerState {
    match c {
        Color::Red => states.0,
        Color::Blue => states.1,
        Color::Yellow => states.2,
        Color::Green => states.3,
    }
}

/// The four conditions with one seat replaced.
pub open spec fn set_state(states: SeatStates, c: Color, st: PlayerState) -> SeatStates {
    match c {
        Color::Red => (st, states.1, states.2, states.3),
        Color::Blue => (states.0, st, states.2, states.3),
        Color::Yellow => (states.0, states.1, st, states.3),
        Color::Green => (states.0, states.1, states.2, st),
    }
}

/// How many of the four conditions are not lost.
pub open spec fn count_non_lost(states: SeatStates) -> int {
    (if states.0 != PlayerState::Lost {
        1int
    } else {
        0int
    }) + (if states.1 != PlayerState::Lost {
        1int
    } else {
        0int
    }) + (if states.2 != PlayerState::Lost {
        1int
    } else {
        0int
    }) + (if states.3 != PlayerState::Lost {
        1int
    } else {
        0int
    })
}

/// The first seat after the given one, in turn order, that has not
/// lost.
pub open spec fn first_non_lost_succ(states: SeatStates, current: Color) -> Option<Color> {
    let order = Game::succ_order(current);
    if state_of(states, order.0) != PlayerState::Lost {
        Some(order.0)
    } else if state_of(states, order.1) != PlayerState::Lost {
        Some(order.1)
    } else if state_of(states, order.2) != PlayerState::Lost {
        Some(order.2)
    } else {
        None
    }
}

/// The driver's scheduling pass after a turn: starting from the
/// current mover, successors already checkmated, stalemated or lost
/// are demoted to lost one by one; the first movable successor is
/// the next mover. With at most one seat left in, nobody moves and
/// the game is over.
pub open spec fn spec_resolve(states: SeatStates, current: Color) -> (SeatStates, Option<Color>)
    decreases count_non_lost(states),
{
    if count_non_lost(states) > 1 {
        match first_non_lost_succ(states, current) {
            Some(c) => {
                if state_of(states, c) == PlayerState::NoState || state_of(states, c)
                    == PlayerState::Check {
                    (states, Some(c))
                } else {
                    spec_resolve(set_state(states, c, PlayerState::Lost), current)
                }
            },
            None => (states, None),
        }
    } else {
        (states, None)
    }
}

/// The scheduling pass only demotes: every seat either keeps its
/// condition or ends lost, so a lost seat stays lost.
pub proof fn lemma_resolve_demotes_only(states: SeatStates, current: Color)
    ensures
        forall|c: Color|
            #[trigger] state_of(spec_resolve(states, current).0, c) == state_of(states, c)
                || state_of(spec_resolve(states, current).0, c) == PlayerState::Lost,
    decreases count_non_lost(states),
{
    if count_non_lost(states) > 1 {
        match first_non_lost_succ(states, current) {
            Some(c) => {
                if state_of(states, c) == PlayerState::NoState || state_of(states, c)
                    == PlayerState::Check {
                } else {
                    let s2 = set_state(states, c, PlayerState::Lost);
                    lemma_resolve_demotes_only(s2, current);
                    assert forall|c2: Color|
                        #[trigger] state_of(spec_resolve(states, current).0, c2) == state_of(
                            states,
                            c2,
                        ) || state_of(spec_resolve(states, current).0, c2)
                        == PlayerState::Lost by {
                        match c2 {
                            Color::Red => {},
                            Color::Green => {},
                            Color::Blue => {},
                            Color::Yellow => {},
                        }
                        match c {
                            Color::Red => {},
                            Color::Green => {},
                            Color::Blue => {},
                            Color::Yellow => {},
                        }
                    }
                }
            },
            None => {},
        }
    }
}

/// With more than one seat left in, the current mover always has a
/// non-lost successor.
pub proof fn lemma_succ_some(states: SeatStates, current: Color)
    requires
        count_non_lost(states) > 1,
    ensures
        first_non_lost_succ(states, current) is Some,
{
    match current {
        Color::Red => {},
        Color::Green => {},
        Color::Blue => {},
        Color::Yellow => {},
    }
}

/// The turn-order model over a game's seats agrees with its tuple
/// form over the seat conditions.
pub proof fn lemma_next_color_matches(g: Game)
    requires
        g.who_move matches Some(wm),
    ensures
        g.spec_non_lost_count() == count_non_lost(g.spec_states()),
        g.spec_next_color() == (if count_non_lost(g.spec_states()) > 1 {
            first_non_lost_succ(g.spec_states(), g.who_move.unwrap().color)
        } else {
            None::<Color>
        }),
{
    match g.who_move.unwrap().color {
        Color::Red => {},
        Color::Green => {},
        Color::Blue => {},
        Color::Yellow => {},
    }
}

/// Think time left after a turn: the wall time the move took beyond
/// the free grace is billed, never below zero.
pub open spec fn deduct(old_t: u64, since: u64, at: u64) -> int {
    let used: int = if at >= since {
        at - since
    } else {
        0
    };
    let billed: int = if used > crate::PLAYER_TIME_2_MS {
        used - crate::PLAYER_TIME_2_MS
    } else {
        0
    };
    if billed > old_t {
        0
    } else {
        old_t - billed
    }
}

impl Game {
    /// The four seats' conditions.
    pub open spec fn spec_states(self) -> SeatStates {
        (self.red.state, self.blue.state, self.yellow.state, self.green.state)
    }
}

impl Vault {
    /// First call of a game's turn driver, after the start countdown:
    /// Red is called first, the move clock starts now, and every seat
    /// receives the opening update with Red's full timer. Returns
    /// Red's think time for the driver's timer.
    #[verifier::rlimit(100)]
    pub fn game_session_start(&mut self, game_id: u64, now: u64) -> (r: Result<u64, DriverError>)
        requires
            old(self).wf(),
            old(self).spec_game(game_id) matches Some(g) ==> g.who_move is None
                && g.spec_non_lost_count() == 4,
        ensures
            final(self).wf(),
            r is Err <==> !old(self).has_game(game_id),
            r is Err ==> *final(self) == *old(self),
            r matches Ok(t) ==> ({
                let g0 = old(self).spec_game(game_id).unwrap();
                let g1 = final(self).spec_game(game_id).unwrap();
                &&& final(self).spec_game(game_id) is Some
                &&& t == g0.red.time_remaining
                &&& g1.who_move == Some(WhoMove { color: Color::Red, since: now, complete: None })
                &&& g1.red == g0.red && g1.blue == g0.blue && g1.yellow == g0.yellow && g1.green
                    == g0.green
                &&& g1.board == g0.board
                &&& g1.move_happen_signal == 0
                &&& (forall|id: u64|
                    id != game_id ==> #[trigger] final(self).spec_game(id) == old(self).spec_game(
                        id,
                    ))
                &&& (forall|a: u64|
                    a != g0.red.peer && a != g0.blue.peer && a != g0.yellow.peer && a
                        != g0.green.peer ==> #[trigger] final(self).spec_peer(a) == old(
                        self,
                    ).spec_peer(a))
                &&& buckets_unchanged(*old(self), *final(self))
                &&& (forall|a: u64|
                    (a == g0.red.peer || a == g0.blue.peer || a == g0.yellow.peer || a
                        == g0.green.peer) ==> (old(self).spec_peer(a) matches Some(p0) ==> (
                    #[trigger] final(self).spec_peer(a) matches Some(p1) && p1.state == p0.state
                        && queued_one(p0.tx@, p1.tx@) && crate::proto::is_update_pdu(
                        p1.tx@.last(),
                        Some(("Red"@, crate::PLAYER_TIMER_MS / 1000, crate::PLAYER_TIME_2_MS / 1000)),
                        Move::NoMove {  },
                        crate::proto::PlayerState::NoState {  },
                        crate::proto::PlayerState::NoState {  },
                        crate::proto::PlayerState::NoState {  },
                        crate::proto::PlayerState::NoState {  },
                    ))))
            }),
    {
        let gi = match find_key(&self.games, game_id) {
            Some(gi) => gi,
            None => {
                return Err(DriverError::NoSuchGame);
            },
        };
        proof {
            lemma_get_at(self.games@, gi as int);
            assert(self.games@[gi as int].1.wf());
            assert(self.games@[gi as int].1.seats_distinct());
        }
        let timer = self.games[gi].1.red.time_remaining;
        let a_red = self.games[gi].1.red.peer;
        let a_blue = self.games[gi].1.blue.peer;
        let a_yellow = self.games[gi].1.yellow.peer;
        let a_green = self.games[gi].1.green.peer;

        let entry = &mut self.games[gi];
        entry.1.who_move = Some(WhoMove { color: Color::Red, since: now, complete: None });
        proof {
            assert(self.games@ =~= old(self).games@.update(
                gi as int,
                (old(self).games@[gi as int].0, self.games@[gi as int].1),
            ));
            Self::lemma_wf_after_game_update(*old(self), *self, gi as int);
        }

        let call_name = "Red".to_owned();
        proof {
            reveal_strlit("Red");
        }
        let p1 = crate::proto::update_pdu(
            Some((call_name, crate::PLAYER_TIMER_MS / 1000, crate::PLAYER_TIME_2_MS / 1000)),
            Move::NoMove {  },
            crate::proto::PlayerState::NoState {  },
            crate::proto::PlayerState::NoState {  },
            crate::proto::PlayerState::NoState {  },
            crate::proto::PlayerState::NoState {  },
        );
        let p2 = crate::proto::update_pdu(
            Some(("Red".to_owned(), crate::PLAYER_TIMER_MS / 1000, crate::PLAYER_TIME_2_MS / 1000)),
            Move::NoMove {  },
            crate::proto::PlayerState::NoState {  },
            crate::proto::PlayerState::NoState {  },
            crate::proto::PlayerState::NoState {  },
            crate::proto::PlayerState::NoState {  },
        );
        let p3 = crate::proto::update_pdu(
            Some(("Red".to_owned(), crate::PLAYER_TIMER_MS / 1000, crate::PLAYER_TIME_2_MS / 1000)),
            Move::NoMove {  },
            crate::proto::PlayerState::NoState {  },
            crate::proto::PlayerState::NoState {  },
            crate::proto::PlayerState::NoState {  },
            crate::proto::PlayerState::NoState {  },
        );
        let p4 = crate::proto::update_pdu(
            Some(("Red".to_owned(), crate::PLAYER_TIMER_MS / 1000, crate::PLAYER_TIME_2_MS / 1000)),
            Move::NoMove {  },
            crate::proto::PlayerState::NoState {  },
            crate::proto::PlayerState::NoState {  },
            crate::proto::PlayerState::NoState {  },
            crate::proto::PlayerState::NoState {  },
        );
        let ghost v1 = *self;
        self.send_to_addr(a_red, p1);
        let ghost v2 = *self;
        self.send_to_addr(a_blue, p2);
        let ghost v3 = *self;
        self.send_to_addr(a_yellow, p3);
        let ghost v4 = *self;
        self.send_to_addr(a_green, p4);
        proof {
            assert(self.spec_peer(a_red) == v2.spec_peer(a_red));
            assert(v2.spec_peer(a_red) == v1.spec_peer(a_red) || (v1.spec_peer(a_red) is Some
                && v2.spec_peer(a_red) is Some));
            assert(self.spec_peer(a_blue) == v3.spec_peer(a_blue));
            assert(self.spec_peer(a_yellow) == v4.spec_peer(a_yellow));
            assert(v1.spec_peer(a_red) == old(self).spec_peer(a_red));
            assert(v1.spec_peer(a_blue) == old(self).spec_peer(a_blue));
            assert(v2.spec_peer(a_blue) == old(self).spec_peer(a_blue));
            assert(v1.spec_peer(a_yellow) == old(self).spec_peer(a_yellow));
            assert(v3.spec_peer(a_yellow) == old(self).spec_peer(a_yellow));
            assert(v4.spec_peer(a_green) == old(self).spec_peer(a_green));
            let g0 = old(self).spec_game(game_id).unwrap();
            let g1 = self.spec_game(game_id).unwrap();
            assert(self.spec_game(game_id) is Some);
            assert(timer == g0.red.time_remaining);
            assert(g1.who_move == Some(WhoMove { color: Color::Red, since: now, complete: None }));
            assert(g1.red == g0.red && g1.blue == g0.blue && g1.yellow == g0.yellow && g1.green
                == g0.green);
            assert(g1.board == g0.board);
            assert(g1.move_happen_signal == 0);
            assert forall|id: u64| id != game_id implies #[trigger] self.spec_game(id) == old(
                self,
            ).spec_game(id) by {
                assert(v1.spec_game(id) == old(self).spec_game(id));
                assert(self.games == v1.games);
            }
            assert(forall|a: u64|
                a != g0.red.peer && a != g0.blue.peer && a != g0.yellow.peer && a != g0.green.peer
                    ==> #[trigger] self.spec_peer(a) == old(self).spec_peer(a));
            assert(buckets_unchanged(*old(self), *self));
            assert(old(self).spec_peer(a_red) matches Some(p0) ==> (self.spec_peer(a_red)
                matches Some(p1) && p1.state == p0.state && queued_one(p0.tx@, p1.tx@)
                && crate::proto::is_update_pdu(
                p1.tx@.last(),
                Some(("Red"@, crate::PLAYER_TIMER_MS / 1000, crate::PLAYER_TIME_2_MS / 1000)),
                Move::NoMove {  },
                crate::proto::PlayerState::NoState {  },
                crate::proto::PlayerState::NoState {  },
                crate::proto::PlayerState::NoState {  },
                crate::proto::PlayerState::NoState {  },
            )));
        }
        Ok(timer)
    }
}

/// Everything spec-level that one driver turn does to a game: the
/// race resolution (billing or losing the mover), the scheduling
/// pass, and the new move call. Relates the game before the turn
/// (g0), after the race resolution (g_mid), after the scheduling
/// pass (g_res) and after the new call went out (g1).
pub proof fn lemma_step_game(
    g0: Game,
    g_mid: Game,
    g_res: Game,
    g1: Game,
    mover: Color,
    since: u64,
    now: u64,
    next_color: Option<Color>,
)
    requires
        g0.who_move matches Some(wm) && wm.color == mover && wm.since == since,
        g0.who_move.unwrap().complete matches Some(cm) ==> since <= cm.at && cm.at <= now
            && g_mid.spec_player(mover).time_remaining == deduct(
            g0.spec_player(mover).time_remaining,
            since,
            cm.at,
        ),
        g0.who_move.unwrap().complete is None ==> g_mid.spec_player(mover).state
            == PlayerState::Lost && g_mid.spec_player(mover).time_remaining == 0 && now >= since
            + g0.spec_player(mover).time_remaining + crate::PLAYER_TIME_2_MS,
        g_mid.spec_states() == (if g0.who_move.unwrap().complete is Some {
            g0.spec_states()
        } else {
            set_state(g0.spec_states(), mover, PlayerState::Lost)
        }),
        forall|c: Color|
            c != mover ==> #[trigger] g_mid.spec_player(c).time_remaining == g0.spec_player(
                c,
            ).time_remaining,
        (g_res.spec_states(), next_color) == spec_resolve(g_mid.spec_states(), mover),
        forall|c: Color| #[trigger] g_res.spec_player(c).time_remaining == g_mid.spec_player(
            c,
        ).time_remaining,
        g1 == (Game { who_move: g1.who_move, ..g_res }),
        g1.who_move == (match next_color {
            Some(c) => Some(WhoMove { color: c, since: now, complete: None }),
            None => None,
        }),
        next_color matches Some(c) ==> (g_res.spec_player(c).state == PlayerState::NoState
            || g_res.spec_player(c).state == PlayerState::Check),
    ensures
        ({
            let wm = g0.who_move.unwrap();
            let states0 = if wm.complete is Some {
                g0.spec_states()
            } else {
                set_state(g0.spec_states(), mover, PlayerState::Lost)
            };
            let resolved = spec_resolve(states0, mover);
            &&& g1.spec_states() == resolved.0
            &&& next_color == resolved.1
            &&& g1.who_move == (match resolved.1 {
                Some(c) => Some(WhoMove { color: c, since: now, complete: None }),
                None => None,
            })
            &&& (g1.who_move matches Some(wm1) ==> g1.spec_player(wm1.color).state
                != PlayerState::Lost)
            &&& (wm.complete is None ==> g1.spec_player(mover).state == PlayerState::Lost
                && g1.spec_player(mover).time_remaining == 0)
            &&& (wm.complete matches Some(cm) ==> g1.spec_player(mover).time_remaining == deduct(
                g0.spec_player(mover).time_remaining,
                since,
                cm.at,
            ))
            &&& (forall|c: Color|
                c != mover ==> #[trigger] g1.spec_player(c).time_remaining == g0.spec_player(
                    c,
                ).time_remaining)
            &&& (forall|c: Color|
                #[trigger] g1.spec_player(c).state == g0.spec_player(c).state || g1.spec_player(
                    c,
                ).state == PlayerState::Lost)
            &&& g0.spec_player(mover).time_remaining - g1.spec_player(mover).time_remaining <= (
            if now >= since {
                now - since
            } else {
                0int
            })
        }),
{
    let wm = g0.who_move.unwrap();
    let states0 = g_mid.spec_states();
    let resolved = spec_resolve(states0, mover);
    lemma_resolve_demotes_only(states0, mover);
    assert(g1.spec_states() == g_res.spec_states());
    assert forall|c: Color| #[trigger] g1.spec_player(c).time_remaining == g_res.spec_player(
        c,
    ).time_remaining by {
        match c {
            Color::Red => {},
            Color::Green => {},
            Color::Blue => {},
            Color::Yellow => {},
        }
    }
    if wm.complete is None {
        assert(state_of(states0, mover) == PlayerState::Lost) by {
            match mover {
                Color::Red => {},
                Color::Green => {},
                Color::Blue => {},
                Color::Yellow => {},
            }
        }
        assert(state_of(resolved.0, mover) == PlayerState::Lost);
        assert(g1.spec_player(mover).state == state_of(g1.spec_states(), mover)) by {
            match mover {
                Color::Red => {},
                Color::Green => {},
                Color::Blue => {},
                Color::Yellow => {},
            }
        }
    }
    assert forall|c: Color|
        #[trigger] g1.spec_player(c).state == g0.spec_player(c).state || g1.spec_player(c).state
            == PlayerState::Lost by {
        assert(state_of(resolved.0, c) == state_of(states0, c) || state_of(resolved.0, c)
            == PlayerState::Lost);
        match c {
            Color::Red => {},
            Color::Green => {},
            Color::Blue => {},
            Color::Yellow => {},
        }
        match mover {
            Color::Red => {},
            Color::Green => {},
            Color::Blue => {},
            Color::Yellow => {},
        }
    }
    match mover {
        Color::Red => {},
        Color::Green => {},
        Color::Blue => {},
        Color::Yellow => {},
    }
    match g1.who_move {
        Some(wm1) => {
            match wm1.color {
                Color::Red => {},
                Color::Green => {},
                Color::Blue => {},
                Color::Yellow => {},
            }
        },
        None => {},
    }
}

impl Vault {
    /// Queues one update frame, with identical content, to each of
    /// the four seats' peers in seat order; disconnected seats are
    /// skipped.
    fn broadcast_update(
        &mut self,
        a_red: u64,
        a_blue: u64,
        a_yellow: u64,
        a_green: u64,
        call: Option<(String, u64, u64)>,
        prev: Move,
        red_ps: crate::proto::PlayerState,
        blue_ps: crate::proto::PlayerState,
        yellow_ps: crate::proto::PlayerState,
        green_ps: crate::proto::PlayerState,
    )
        requires
            old(self).wf(),
            a_red != a_blue && a_red != a_yellow && a_red != a_green && a_blue != a_yellow
                && a_blue != a_green && a_yellow != a_green,
            crate::vault::is_actionable_move(prev) || prev matches Move::NoMove {  },
        ensures
            final(self).wf(),
            final(self).games == old(self).games,
            final(self).reconnect == old(self).reconnect,
            final(self).next_game_id == old(self).next_game_id,
            buckets_unchanged(*old(self), *final(self)),
            forall|a: u64| #[trigger] final(self).has_peer(a) == old(self).has_peer(a),
            forall|a: u64|
                a != a_red && a != a_blue && a != a_yellow && a != a_green ==> #[trigger] final(self).spec_peer(a) == old(self).spec_peer(a),
            forall|a: u64|
                (a == a_red || a == a_blue || a == a_yellow || a == a_green) ==> (old(
                    self,
                ).spec_peer(a) matches Some(p0) ==> (#[trigger] final(self).spec_peer(a)
                    matches Some(p1) && p1.state == p0.state && p1.player_name == p0.player_name
                    && p1.client_info == p0.client_info && queued_one(p0.tx@, p1.tx@)
                    && crate::proto::is_update_pdu(
                    p1.tx@.last(),
                    match call {
                        Some((n, t, t2)) => Some((n@, t, t2)),
                        None => None,
                    },
                    prev,
                    red_ps,
                    blue_ps,
                    yellow_ps,
                    green_ps,
                ))),
    {
        let p1 = crate::proto::update_pdu(
            match &call {
                Some((n, t, t2)) => Some((n.clone(), *t, *t2)),
                None => None,
            },
            crate::vault::duplicate_move(&prev),
            red_ps,
            blue_ps,
            yellow_ps,
            green_ps,
        );
        let p2 = crate::proto::update_pdu(
            match &call {
                Some((n, t, t2)) => Some((n.clone(), *t, *t2)),
                None => None,
            },
            crate::vault::duplicate_move(&prev),
            red_ps,
            blue_ps,
            yellow_ps,
            green_ps,
        );
        let p3 = crate::proto::update_pdu(
            match &call {
                Some((n, t, t2)) => Some((n.clone(), *t, *t2)),
                None => None,
            },
            crate::vault::duplicate_move(&prev),
            red_ps,
            blue_ps,
            yellow_ps,
            green_ps,
        );
        let p4 = crate::proto::update_pdu(
            match &call {
                Some((n, t, t2)) => Some((n.clone(), *t, *t2)),
                None => None,
            },
            crate::vault::duplicate_move(&prev),
            red_ps,
            blue_ps,
            yellow_ps,
            green_ps,
        );
        self.send_to_addr(a_red, p1);
        let ghost v2 = *self;
        self.send_to_addr(a_blue, p2);
        let ghost v3 = *self;
        self.send_to_addr(a_yellow, p3);
        let ghost v4 = *self;
        self.send_to_addr(a_green, p4);
        proof {
            assert(self.spec_peer(a_red) == v2.spec_peer(a_red));
            assert(self.spec_peer(a_blue) == v3.spec_peer(a_blue));
            assert(self.spec_peer(a_yellow) == v4.spec_peer(a_yellow));
            assert(v2.spec_peer(a_blue) == old(self).spec_peer(a_blue));
            assert(v3.spec_peer(a_yellow) == old(self).spec_peer(a_yellow));
            assert(v4.spec_peer(a_green) == old(self).spec_peer(a_green));
        }
    }

    /// One turn of a game's driver, entered after the race between
    /// the move timer and the move signal. A timeout without an
    /// accepted move costs the mover the game and its clock; an
    /// accepted move is applied to the board and billed against the
    /// mover's clock beyond the free grace. The scheduling pass
    /// (`spec_resolve`) then demotes already-finished successors to
    /// lost and calls the first movable one, or finishes the game.
    /// Every seat receives the same update frame; the driver's
    /// pending signal is drained either way, so the next turn starts
    /// clean.
    #[verifier::rlimit(100)]
    pub fn game_session_step(&mut self, game_id: u64, event: DriverEvent, now: u64) -> (r: Result<
        TurnAdvance,
        DriverError,
    >)
        requires
            old(self).wf(),
            old(self).spec_game(game_id) matches Some(g) ==> ({
                &&& g.who_move matches Some(wm)
                &&& (event == DriverEvent::MoveReceived ==> wm.complete is Some)
                &&& (wm.complete matches Some(cm) ==> wm.since <= cm.at && cm.at <= now)
                &&& (event == DriverEvent::Timeout && wm.complete is None ==> now >= wm.since
                    + g.spec_player(wm.color).time_remaining + crate::PLAYER_TIME_2_MS)
            }),
        ensures
            final(self).wf(),
            r is Err <==> !old(self).has_game(game_id),
            r is Err ==> *final(self) == *old(self),
            r matches Ok(adv) ==> ({
                let g0 = old(self).spec_game(game_id).unwrap();
                let g1 = final(self).spec_game(game_id).unwrap();
                let wm = g0.who_move.unwrap();
                let mover = wm.color;
                let states0 = if wm.complete is Some {
                    g0.spec_states()
                } else {
                    set_state(g0.spec_states(), mover, PlayerState::Lost)
                };
                let resolved = spec_resolve(states0, mover);
                let prev = match wm.complete {
                    Some(cm) => cm.mv,
                    None => Move::NoMove {  },
                };
                let call = match resolved.1 {
                    Some(c) => Some(
                        (
                            crate::vault::spec_color_name(c),
                            g1.spec_player(c).time_remaining / 1000,
                            crate::PLAYER_TIME_2_MS / 1000,
                        ),
                    ),
                    None => None,
                };
                &&& final(self).spec_game(game_id) is Some
                &&& g1.move_happen_signal == 0
                &&& g1.spec_states() == resolved.0
                &&& g1.who_move == (match resolved.1 {
                    Some(c) => Some(WhoMove { color: c, since: now, complete: None }),
                    None => None,
                })
                &&& adv.next_color == resolved.1
                &&& adv.finished == (resolved.1 is None)
                &&& adv.next_timer_ms == (match resolved.1 {
                    Some(c) => g1.spec_player(c).time_remaining,
                    None => 0u64,
                })
                &&& (g1.who_move matches Some(wm1) ==> g1.spec_player(wm1.color).state
                    != PlayerState::Lost)
                &&& (wm.complete is None ==> g1.spec_player(mover).state == PlayerState::Lost
                    && g1.spec_player(mover).time_remaining == 0)
                &&& (wm.complete matches Some(cm) ==> g1.spec_player(mover).time_remaining
                    == deduct(g0.spec_player(mover).time_remaining, wm.since, cm.at))
                &&& (forall|c: Color|
                    c != mover ==> #[trigger] g1.spec_player(c).time_remaining == g0.spec_player(
                        c,
                    ).time_remaining)
                &&& (forall|c: Color|
                    #[trigger] g1.spec_player(c).state == g0.spec_player(c).state
                        || g1.spec_player(c).state == PlayerState::Lost)
                &&& g0.spec_player(mover).time_remaining - g1.spec_player(mover).time_remaining
                    <= (if now >= wm.since {
                    now - wm.since
                } else {
                    0int
                })
                &&& (!(prev matches Move::Castling { .. }) ==> g1.board == g0.board)
                &&& g1.red.peer == g0.red.peer && g1.blue.peer == g0.blue.peer && g1.yellow.peer
                    == g0.yellow.peer && g1.green.peer == g0.green.peer
                &&& (forall|id: u64|
                    id != game_id ==> #[trigger] final(self).spec_game(id) == old(self).spec_game(
                        id,
                    ))
                &&& (forall|a: u64|
                    a != g0.red.peer && a != g0.blue.peer && a != g0.yellow.peer && a
                        != g0.green.peer ==> #[trigger] final(self).spec_peer(a) == old(
                        self,
                    ).spec_peer(a))
                &&& buckets_unchanged(*old(self), *final(self))
                &&& (forall|a: u64|
                    (a == g0.red.peer || a == g0.blue.peer || a == g0.yellow.peer || a
                        == g0.green.peer) ==> (old(self).spec_peer(a) matches Some(p0) ==> (
                    #[trigger] final(self).spec_peer(a) matches Some(p1) && p1.state == p0.state
                        && p1.player_name == p0.player_name && queued_one(p0.tx@, p1.tx@)
                        && crate::proto::is_update_pdu(
                        p1.tx@.last(),
                        call,
                        prev,
                        crate::proto::PlayerState::spec_from(state_of(resolved.0, Color::Red)),
                        crate::proto::PlayerState::spec_from(state_of(resolved.0, Color::Blue)),
                        crate::proto::PlayerState::spec_from(state_of(resolved.0, Color::Yellow)),
                        crate::proto::PlayerState::spec_from(state_of(resolved.0, Color::Green)),
                    ))))
            }),
    {
        let gi = match find_key(&self.games, game_id) {
            Some(gi) => gi,
            None => {
                return Err(DriverError::NoSuchGame);
            },
        };
        proof {
            lemma_get_at(self.games@, gi as int);
            assert(self.games@[gi as int].1.wf());
        }
        let a_red = self.games[gi].1.red.peer;
        let a_blue = self.games[gi].1.blue.peer;
        let a_yellow = self.games[gi].1.yellow.peer;
        let a_green = self.games[gi].1.green.peer;

        let (mover, since, mv_opt) = {
            let g = &self.games[gi].1;
            match &g.who_move {
                Some(wm) => {
                    let mv_opt = match &wm.complete {
                        Some(cm) => Some((crate::vault::duplicate_move(&cm.mv), cm.at)),
                        None => None,
                    };
                    (wm.color, wm.since, mv_opt)
                },
                None => {
                    proof {
                        assert(false);
                    }
                    (Color::Red, 0u64, None)
                },
            }
        };
        let has_move = match &mv_opt {
            Some(_) => true,
            None => false,
        };

        let mut move_previous = Move::NoMove {  };
        let entry = &mut self.games[gi];
        {
            match mv_opt {
                Some((mv, at)) => {
                    let res = entry.1.apply_move(&mv);
                    let old_t = entry.1.player(&mover).time_remaining;
                    let used = if at >= since {
                        at - since
                    } else {
                        0
                    };
                    let billed = if used > crate::PLAYER_TIME_2_MS {
                        used - crate::PLAYER_TIME_2_MS
                    } else {
                        0
                    };
                    let new_t = if billed > old_t {
                        0
                    } else {
                        old_t - billed
                    };
                    let p = entry.1.player_mut(&mover);
                    p.time_remaining = new_t;
                    move_previous = mv;
                },
                None => {
                    let p = entry.1.player_mut(&mover);
                    p.state = PlayerState::Lost;
                    p.time_remaining = 0;
                },
            }
            entry.1.move_happen_signal = 0;
        }
        let ghost g_mid = self.games@[gi as int].1;
        let ghost g0 = old(self).games@[gi as int].1;
        proof {
            match mover {
                Color::Red => {},
                Color::Green => {},
                Color::Blue => {},
                Color::Yellow => {},
            }
            assert(g_mid.spec_states() == (if has_move {
                g0.spec_states()
            } else {
                set_state(g0.spec_states(), mover, PlayerState::Lost)
            }));
            assert(forall|c: Color|
                c != mover ==> #[trigger] g_mid.spec_player(c).time_remaining == g0.spec_player(
                    c,
                ).time_remaining);
            assert(g0.who_move.unwrap().complete matches Some(cm)
                ==> g_mid.spec_player(mover).time_remaining == deduct(
                g0.spec_player(mover).time_remaining,
                since,
                cm.at,
            ));
            assert(g0.who_move.unwrap().complete is None ==> g_mid.spec_player(mover).state
                == PlayerState::Lost && g_mid.spec_player(mover).time_remaining == 0);
        }

        let mut next_color: Option<Color> = None;
        let mut next_timer: u64 = 0;
        loop
            invariant_except_break
                next_color is None,
                next_timer == 0,
            invariant
                0 <= gi < self.games@.len(),
                self.games@.len() == old(self).games@.len(),
                self.games@ =~= old(self).games@.update(
                    gi as int,
                    (game_id, self.games@[gi as int].1),
                ),
                self.peers == old(self).peers,
                self.idle == old(self).idle,
                self.mm_queue == old(self).mm_queue,
                self.hb_wait == old(self).hb_wait,
                self.hb_ready == old(self).hb_ready,
                self.reconnect == old(self).reconnect,
                self.next_game_id == old(self).next_game_id,
                ({
                    let cur = self.games@[gi as int].1;
                    &&& cur.who_move == g_mid.who_move
                    &&& cur.who_move matches Some(wm) && wm.color == mover
                    &&& cur.board == g_mid.board
                    &&& cur.id == g_mid.id
                    &&& cur.move_happen_signal == 0
                    &&& cur.red.peer == g_mid.red.peer && cur.blue.peer == g_mid.blue.peer
                        && cur.yellow.peer == g_mid.yellow.peer && cur.green.peer
                        == g_mid.green.peer
                    &&& cur.red.reconnect_id == g_mid.red.reconnect_id && cur.blue.reconnect_id
                        == g_mid.blue.reconnect_id && cur.yellow.reconnect_id
                        == g_mid.yellow.reconnect_id && cur.green.reconnect_id
                        == g_mid.green.reconnect_id
                    &&& cur.red.color == Color::Red && cur.blue.color == Color::Blue
                        && cur.yellow.color == Color::Yellow && cur.green.color == Color::Green
                    &&& (forall|c: Color| #[trigger] cur.spec_player(c).time_remaining
                        == g_mid.spec_player(c).time_remaining)
                    &&& (forall|c: Color| ({
                        ||| #[trigger] cur.spec_player(c).state == g_mid.spec_player(c).state
                        ||| cur.spec_player(c).state == PlayerState::Lost
                    }))
                    &&& spec_resolve(cur.spec_states(), mover) == spec_resolve(
                        g_mid.spec_states(),
                        mover,
                    )
                }),
            ensures
                ({
                    let cur = self.games@[gi as int].1;
                    &&& (cur.spec_states(), next_color) == spec_resolve(g_mid.spec_states(), mover)
                    &&& (next_color matches Some(c) ==> (cur.spec_player(c).state
                        == PlayerState::NoState || cur.spec_player(c).state == PlayerState::Check)
                        && next_timer == cur.spec_player(c).time_remaining)
                    &&& (next_color is None ==> next_timer == 0)
                }),
            decreases count_non_lost(self.games@[gi as int].1.spec_states()),
        {
            let cand = self.games[gi].1.next_moved_player();
            match cand {
                None => {
                    proof {
                        let cur = self.games@[gi as int].1;
                        lemma_next_color_matches(cur);
                        if count_non_lost(cur.spec_states()) > 1 {
                            lemma_succ_some(cur.spec_states(), mover);
                            assert(false);
                        }
                        assert(spec_resolve(cur.spec_states(), mover) == (
                            cur.spec_states(),
                            None::<Color>,
                        ));
                    }
                    break ;
                },
                Some(c) => {
                    let st = self.games[gi].1.player(&c).state;
                    match st {
                        PlayerState::NoState | PlayerState::Check => {
                            next_color = Some(c);
                            next_timer = self.games[gi].1.player(&c).time_remaining;
                            proof {
                                let cur = self.games@[gi as int].1;
                                lemma_next_color_matches(cur);
                                assert(state_of(cur.spec_states(), c) == cur.spec_player(
                                    c,
                                ).state) by {
                                    match c {
                                        Color::Red => {},
                                        Color::Green => {},
                                        Color::Blue => {},
                                        Color::Yellow => {},
                                    }
                                }
                                assert(spec_resolve(cur.spec_states(), mover) == (
                                    cur.spec_states(),
                                    Some(c),
                                ));
                            }
                            break ;
                        },
                        _ => {
                            let ghost cur0 = self.games@[gi as int].1;
                            proof {
                                lemma_next_color_matches(cur0);
                                assert(state_of(cur0.spec_states(), c) == cur0.spec_player(
                                    c,
                                ).state) by {
                                    match c {
                                        Color::Red => {},
                                        Color::Green => {},
                                        Color::Blue => {},
                                        Color::Yellow => {},
                                    }
                                }
                                assert(spec_resolve(cur0.spec_states(), mover) == spec_resolve(
                                    set_state(cur0.spec_states(), c, PlayerState::Lost),
                                    mover,
                                ));
                            }
                            let entry = &mut self.games[gi];
                            let p = entry.1.player_mut(&c);
                            p.state = PlayerState::Lost;
                            proof {
                                let cur1 = self.games@[gi as int].1;
                                assert(cur1.spec_states() == set_state(
                                    cur0.spec_states(),
                                    c,
                                    PlayerState::Lost,
                                )) by {
                                    match c {
                                        Color::Red => {},
                                        Color::Green => {},
                                        Color::Blue => {},
                                        Color::Yellow => {},
                                    }
                                }
                                assert forall|c2: Color| #[trigger] cur1.spec_player(
                                    c2,
                                ).time_remaining == g_mid.spec_player(c2).time_remaining by {
                                    match c2 {
                                        Color::Red => {},
                                        Color::Green => {},
                                        Color::Blue => {},
                                        Color::Yellow => {},
                                    }
                                }
                                assert forall|c2: Color| ({
                                    ||| #[trigger] cur1.spec_player(c2).state == g_mid.spec_player(
                                        c2,
                                    ).state
                                    ||| cur1.spec_player(c2).state == PlayerState::Lost
                                }) by {
                                    match c2 {
                                        Color::Red => {},
                                        Color::Green => {},
                                        Color::Blue => {},
                                        Color::Yellow => {},
                                    }
                                }
                                assert(count_non_lost(cur1.spec_states()) < count_non_lost(
                                    cur0.spec_states(),
                                ));
                            }
                        },
                    }
                },
            }
        }
        let ghost g_res = self.games@[gi as int].1;
        let entry = &mut self.games[gi];
        entry.1.who_move = match next_color {
            Some(c) => Some(WhoMove { color: c, since: now, complete: None }),
            None => None,
        };
        proof {
            assert(self.games@ =~= old(self).games@.update(
                gi as int,
                (old(self).games@[gi as int].0, self.games@[gi as int].1),
            ));
            assert(self.games@[gi as int].1 == (Game {
                who_move: self.games@[gi as int].1.who_move,
                ..g_res
            }));
            lemma_step_game(
                g0,
                g_mid,
                g_res,
                self.games@[gi as int].1,
                mover,
                since,
                now,
                next_color,
            );
            assert(self.games@[gi as int].1.wf()) by {
                match next_color {
                    Some(c) => {
                        assert(self.games@[gi as int].1.spec_player(c).state
                            != PlayerState::Lost);
                    },
                    None => {},
                }
            }
            Self::lemma_wf_after_game_update(*old(self), *self, gi as int);
        }

        let red_ps = crate::proto::PlayerState::from(self.games[gi].1.red.state);
        let blue_ps = crate::proto::PlayerState::from(self.games[gi].1.blue.state);
        let yellow_ps = crate::proto::PlayerState::from(self.games[gi].1.yellow.state);
        let green_ps = crate::proto::PlayerState::from(self.games[gi].1.green.state);
        let call = match &next_color {
            Some(c) => Some(
                (c.name().to_owned(), next_timer / 1000, crate::PLAYER_TIME_2_MS / 1000),
            ),
            None => None,
        };
        let finished = match &next_color {
            Some(_) => false,
            None => true,
        };

        let ghost v1 = *self;
        proof {
            assert(v1.games@[gi as int].1.seats_distinct());
        }
        self.broadcast_update(
            a_red,
            a_blue,
            a_yellow,
            a_green,
            call,
            move_previous,
            red_ps,
            blue_ps,
            yellow_ps,
            green_ps,
        );
        proof {
            assert forall|id: u64| id != game_id implies #[trigger] self.spec_game(id) == old(
                self,
            ).spec_game(id) by {
                assert(v1.spec_game(id) == old(self).spec_game(id));
                assert(self.games == v1.games);
            }
            assert(self.spec_game(game_id) == v1.spec_game(game_id));
            let g1 = self.spec_game(game_id).unwrap();
            let wm = g0.who_move.unwrap();
            assert(wm.color == mover && wm.since == since);
            assert((wm.complete is Some) == has_move);
            assert(move_previous == (match wm.complete {
                Some(cm) => cm.mv,
                None => Move::NoMove {  },
            }));
            assert(buckets_unchanged(*old(self), *self));
            match next_color {
                Some(c) => {
                    assert(next_timer == g1.spec_player(c).time_remaining);
                    assert(call matches Some(nc) && nc.0@ == crate::vault::spec_color_name(c)
                        && nc.1 == g1.spec_player(c).time_remaining / 1000 && nc.2
                        == crate::PLAYER_TIME_2_MS / 1000);
                },
                None => {},
            }
            assert(red_ps == crate::proto::PlayerState::spec_from(
                state_of(g1.spec_states(), Color::Red),
            ));
            assert(blue_ps == crate::proto::PlayerState::spec_from(
                state_of(g1.spec_states(), Color::Blue),
            ));
            assert(yellow_ps == crate::proto::PlayerState::spec_from(
                state_of(g1.spec_states(), Color::Yellow),
            ));
            assert(green_ps == crate::proto::PlayerState::spec_from(
                state_of(g1.spec_states(), Color::Green),
            ));
        }
        Ok(TurnAdvance { next_color, next_timer_ms: next_timer, finished })
    }
}

} // verus!
