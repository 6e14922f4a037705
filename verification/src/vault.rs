//! The registry of connected peers and running games, the peer
//! lifecycle state machine, the message handlers, the matchmaking
//! dispatcher tick and the per-game turn driver step.
//!
//! Everything here is a synchronous state machine over plain values:
//! the clock enters as a millisecond reading, channel receipts and
//! timer expiries enter as events, and outbound frames leave through
//! each peer's queue. The surrounding process supplies sockets,
//! timers and tasks.
use vstd::prelude::*;

use crate::assoc::{
    find_key, has_key, key_idx, keys_unique, lemma_get_at, lemma_push, lemma_remove,
    lemma_str_push, lemma_update, spec_get, str_find_key, str_has_key, str_keys_unique,
    str_spec_get,
};
use crate::board::{Board, Piece};
use crate::position::Position;
use crate::proto::{Move, Pdu};
use rand::Rng;

verus! {

/// The four fixed seats, in turn order Red, Blue, Yellow, Green.
#[derive(Clone, Copy, PartialEq, Eq, Structural, Debug)]
pub enum Color {
    Red,
    Green,
    Blue,
    Yellow,
}

/// The seat's display name, as a sequence of characters.
pub open spec fn spec_color_name(c: Color) -> Seq<char> {
    match c {
        Color::Red => "Red"@,
        Color::Green => "Green"@,
        Color::Blue => "Blue"@,
        Color::Yellow => "Yellow"@,
    }
}

impl Color {
    /// The seat's display name, as it appears in move calls.
    pub fn name(&self) -> (r: &'static str)
        ensures
            r@ == spec_color_name(*self),
    {
        match self {
            Color::Red => "Red",
            Color::Green => "Green",
            Color::Blue => "Blue",
            Color::Yellow => "Yellow",
        }
    }
}

/// Condition of one seated player inside a running game.
#[derive(Clone, Copy, PartialEq, Eq, Structural, Debug)]
pub enum PlayerState {
    NoState,
    Check,
    Checkmate,
    Stalemate,
    Lost,
}

/// Lifecycle state of one peer. Clock readings are in milliseconds.
#[derive(Clone, Copy, PartialEq, Eq, Structural, Debug)]
pub enum PeerState {
    /// Handshake not completed; the reading is the accept time.
    Unknown(u64),
    /// Handshake completed, not queued.
    Idle,
    /// Waiting in the matchmaking queue.
    MMQueue,
    /// Heartbeat probe sent at the given time, awaiting the ack.
    HeartbeatWait(u64),
    /// Heartbeat acknowledged at the given time, waiting to be
    /// grouped.
    HeartbeatReady(u64),
    /// Seated in the game with the given id.
    Game { color: Color, game: u64 },
}

impl PeerState {
    /// The handshake has not been completed.
    pub fn is_unknown(&self) -> (r: bool)
        ensures
            r == (*self matches PeerState::Unknown(_)),
    {
        matches!(self, PeerState::Unknown(_))
    }

    /// The peer waits in the matchmaking queue.
    pub fn is_mm_queue(&self) -> (r: bool)
        ensures
            r == (*self matches PeerState::MMQueue),
    {
        matches!(self, PeerState::MMQueue)
    }

    /// A heartbeat probe is outstanding.
    pub fn is_hb_wait(&self) -> (r: bool)
        ensures
            r == (*self matches PeerState::HeartbeatWait(_)),
    {
        matches!(self, PeerState::HeartbeatWait(_))
    }

    /// When the outstanding heartbeat probe was sent.
    pub fn get_hb_wait_since(&self) -> (r: Option<u64>)
        ensures
            r == (match *self {
                PeerState::HeartbeatWait(i) => Some(i),
                _ => None,
            }),
    {
        match self {
            PeerState::HeartbeatWait(i) => Some(*i),
            _ => None,
        }
    }

    /// The heartbeat has been acknowledged.
    pub fn is_hb_ready(&self) -> (r: bool)
        ensures
            r == (*self matches PeerState::HeartbeatReady(_)),
    {
        matches!(self, PeerState::HeartbeatReady(_))
    }

    /// When the heartbeat was acknowledged.
    pub fn get_hb_ready_since(&self) -> (r: Option<u64>)
        ensures
            r == (match *self {
                PeerState::HeartbeatReady(i) => Some(i),
                _ => None,
            }),
    {
        match self {
            PeerState::HeartbeatReady(i) => Some(*i),
            _ => None,
        }
    }

    /// The peer is seated in a game.
    pub fn is_game(&self) -> (r: bool)
        ensures
            r == (*self matches PeerState::Game { .. }),
    {
        matches!(self, PeerState::Game { .. })
    }
}

/// What a client reported about itself during the handshake.
#[derive(Clone, PartialEq, Eq, Debug)]
pub struct ClientInfo {
    pub name: String,
    pub version: String,
    pub protocol: String,
}

/// One connected peer.
pub struct Peer {
    /// Frames queued toward the client, oldest first. The process
    /// around the core drains this queue onto the socket in order.
    pub tx: Vec<Pdu>,
    /// Name chosen at registration.
    pub player_name: Option<String>,
    /// Lifecycle state; this is the authoritative one.
    pub state: PeerState,
    /// Handshake data.
    pub client_info: Option<ClientInfo>,
}

/// One seat of a running game.
pub struct Player {
    pub color: Color,
    /// Token minted at game start, unique across live games.
    pub reconnect_id: String,
    /// Think time left, in milliseconds.
    pub time_remaining: u64,
    pub state: PlayerState,
    /// Address of the seated peer.
    pub peer: u64,
}

/// A move accepted by a handler, waiting for the turn driver.
pub struct Complete {
    pub mv: Move,
    /// When the move arrived, in milliseconds.
    pub at: u64,
}

/// The mover the turn driver is waiting on.
pub struct WhoMove {
    pub color: Color,
    /// When the move call went out, in milliseconds.
    pub since: u64,
    /// Set once a handler accepts a move for this turn.
    pub complete: Option<Complete>,
}

/// One running game.
pub struct Game {
    pub id: u64,
    pub board: Board,
    pub red: Player,
    pub green: Player,
    pub blue: Player,
    pub yellow: Player,
    pub who_move: Option<WhoMove>,
    /// Number of move signals queued toward the turn driver. A
    /// handler enqueues one when it records an accepted move; the
    /// driver drains it. Under the pairing invariant this is 1
    /// exactly while an accepted move waits.
    pub move_happen_signal: u64,
}

impl Game {
    /// The player seated as the given color.
    pub open spec fn spec_player(self, color: Color) -> Player {
        match color {
            Color::Red => self.red,
            Color::Green => self.green,
            Color::Blue => self.blue,
            Color::Yellow => self.yellow,
        }
    }

    /// The game with one seat replaced.
    pub open spec fn spec_set_player(self, color: Color, p: Player) -> Game {
        match color {
            Color::Red => Game { red: p, ..self },
            Color::Green => Game { green: p, ..self },
            Color::Blue => Game { blue: p, ..self },
            Color::Yellow => Game { yellow: p, ..self },
        }
    }

    /// How many seats have not lost.
    pub open spec fn spec_non_lost_count(self) -> int {
        (if self.red.state != PlayerState::Lost {
            1int
        } else {
            0int
        }) + (if self.blue.state != PlayerState::Lost {
            1int
        } else {
            0int
        }) + (if self.yellow.state != PlayerState::Lost {
            1int
        } else {
            0int
        }) + (if self.green.state != PlayerState::Lost {
            1int
        } else {
            0int
        })
    }

    /// The seats are named by their colors.
    pub open spec fn seats_colored(self) -> bool {
        &&& self.red.color == Color::Red
        &&& self.green.color == Color::Green
        &&& self.blue.color == Color::Blue
        &&& self.yellow.color == Color::Yellow
    }

    /// An accepted move and its wake-up signal travel together: the
    /// signal count is one exactly while an accepted move waits.
    pub open spec fn signal_paired(self) -> bool {
        match self.who_move {
            Some(wm) => self.move_happen_signal == (if wm.complete is Some {
                1u64
            } else {
                0u64
            }),
            None => self.move_happen_signal == 0,
        }
    }

    /// The awaited mover has not lost.
    pub open spec fn mover_not_lost(self) -> bool {
        match self.who_move {
            Some(wm) => self.spec_player(wm.color).state != PlayerState::Lost,
            None => true,
        }
    }

    /// The four seats reference four different peer addresses.
    pub open spec fn seats_distinct(self) -> bool {
        &&& self.red.peer != self.blue.peer
        &&& self.red.peer != self.yellow.peer
        &&& self.red.peer != self.green.peer
        &&& self.blue.peer != self.yellow.peer
        &&& self.blue.peer != self.green.peer
        &&& self.yellow.peer != self.green.peer
    }

    /// The four reconnect tokens differ from one another.
    pub open spec fn tokens_distinct(self) -> bool {
        &&& self.red.reconnect_id@ != self.blue.reconnect_id@
        &&& self.red.reconnect_id@ != self.yellow.reconnect_id@
        &&& self.red.reconnect_id@ != self.green.reconnect_id@
        &&& self.blue.reconnect_id@ != self.yellow.reconnect_id@
        &&& self.blue.reconnect_id@ != self.green.reconnect_id@
        &&& self.yellow.reconnect_id@ != self.green.reconnect_id@
    }

    /// A recorded accepted move is an actual move, never the empty
    /// or error variant.
    pub open spec fn complete_actionable(self) -> bool {
        match self.who_move {
            Some(wm) => match wm.complete {
                Some(c) => is_actionable_move(c.mv),
                None => true,
            },
            None => true,
        }
    }

    /// Everything that holds of a game between dispatcher and driver
    /// steps.
    pub open spec fn wf(self) -> bool {
        &&& self.board.wf()
        &&& self.seats_colored()
        &&& self.signal_paired()
        &&& self.mover_not_lost()
        &&& self.seats_distinct()
        &&& self.tokens_distinct()
        &&& self.complete_actionable()
    }

    /// The player seated as the given color.
    pub fn player(&self, color: &Color) -> (r: &Player)
        ensures
            *r == self.spec_player(*color),
    {
        match color {
            Color::Red => &self.red,
            Color::Green => &self.green,
            Color::Blue => &self.blue,
            Color::Yellow => &self.yellow,
        }
    }

    /// Mutable access to the player seated as the given color.
    pub fn player_mut(&mut self, color: &Color) -> (r: &mut Player)
        ensures
            *r == old(self).spec_player(*color),
            *final(self) == old(self).spec_set_player(*color, *final(r)),
    {
        match color {
            Color::Red => &mut self.red,
            Color::Green => &mut self.green,
            Color::Blue => &mut self.blue,
            Color::Yellow => &mut self.yellow,
        }
    }

    /// The four players in seat order.
    pub fn players(&self) -> (r: Vec<&Player>)
        ensures
            r@.len() == 4,
            *r@[0] == self.red,
            *r@[1] == self.blue,
            *r@[2] == self.yellow,
            *r@[3] == self.green,
    {
        let mut v: Vec<&Player> = Vec::new();
        v.push(&self.red);
        v.push(&self.blue);
        v.push(&self.yellow);
        v.push(&self.green);
        v
    }

    /// How many seats have not lost.
    pub fn non_lost_count(&self) -> (r: u64)
        ensures
            r == self.spec_non_lost_count(),
    {
        let mut count: u64 = 0;
        if self.red.state != PlayerState::Lost {
            count = count + 1;
        }
        if self.blue.state != PlayerState::Lost {
            count = count + 1;
        }
        if self.yellow.state != PlayerState::Lost {
            count = count + 1;
        }
        if self.green.state != PlayerState::Lost {
            count = count + 1;
        }
        count
    }

    /// The first seat after the given one, in turn order, that has
    /// not lost.
    pub open spec fn spec_next_after(self, current: Color) -> Option<Color> {
        let order = Self::succ_order(current);
        if self.spec_player(order.0).state != PlayerState::Lost {
            Some(order.0)
        } else if self.spec_player(order.1).state != PlayerState::Lost {
            Some(order.1)
        } else if self.spec_player(order.2).state != PlayerState::Lost {
            Some(order.2)
        } else {
            None
        }
    }

    /// The three successors of a seat in turn order.
    pub open spec fn succ_order(current: Color) -> (Color, Color, Color) {
        match current {
            Color::Red => (Color::Blue, Color::Yellow, Color::Green),
            Color::Blue => (Color::Yellow, Color::Green, Color::Red),
            Color::Yellow => (Color::Green, Color::Red, Color::Blue),
            Color::Green => (Color::Red, Color::Blue, Color::Yellow),
        }
    }

    /// Who moves next: with a current mover and more than one seat
    /// left, the first non-lost successor; at game start, Red when
    /// all four are in; otherwise nobody, and the game is over.
    pub open spec fn spec_next_color(self) -> Option<Color> {
        match self.who_move {
            Some(wm) => if self.spec_non_lost_count() > 1 {
                self.spec_next_after(wm.color)
            } else {
                None
            },
            None => if self.spec_non_lost_count() == 4 {
                Some(Color::Red)
            } else {
                None
            },
        }
    }

    /// The seat that moves next, per the turn-order model.
    pub fn next_moved_player(&self) -> (r: Option<Color>)
        ensures
            r == self.spec_next_color(),
    {
        let no_lost = self.non_lost_count();
        match &self.who_move {
            Some(wm) => {
                if no_lost > 1 {
                    let (a, b, c) = match wm.color {
                        Color::Red => (Color::Blue, Color::Yellow, Color::Green),
                        Color::Blue => (Color::Yellow, Color::Green, Color::Red),
                        Color::Yellow => (Color::Green, Color::Red, Color::Blue),
                        Color::Green => (Color::Red, Color::Blue, Color::Yellow),
                    };
                    if self.player(&a).state != PlayerState::Lost {
                        Some(a)
                    } else if self.player(&b).state != PlayerState::Lost {
                        Some(b)
                    } else if self.player(&c).state != PlayerState::Lost {
                        Some(c)
                    } else {
                        None
                    }
                } else {
                    None
                }
            },
            None => {
                if no_lost == 4 {
                    Some(Color::Red)
                } else {
                    None
                }
            },
        }
    }

    /// The seat the driver is waiting on, if any.
    pub fn current_move_player(&self) -> (r: Option<&Player>)
        ensures
            match self.who_move {
                Some(wm) => r matches Some(p) && *p == self.spec_player(wm.color),
                None => r is None,
            },
    {
        match &self.who_move {
            Some(wm) => {
                let color = wm.color;
                Some(self.player(&color))
            },
            None => None,
        }
    }

    /// The move is allowed now: it is this color's turn.
    pub fn validate_player_move(&self, mv: &Move, color: &Color) -> (r: bool)
        ensures
            r == (self.who_move matches Some(wm) && wm.color == *color),
    {
        if let Some(wm) = &self.who_move {
            if wm.color == *color {
                return true;
            }
        }
        false
    }
}

/// Appends an address to a bucket; earlier entries stay.
pub(crate) fn bucket_push(bucket: &mut Vec<u64>, addr: u64)
    ensures
        final(bucket)@ == old(bucket)@.push(addr),
        forall|x: u64| old(bucket)@.contains(x) ==> final(bucket)@.contains(x),
        final(bucket)@.contains(addr),
{
    bucket.push(addr);
    proof {
        assert(bucket@[bucket@.len() - 1] == addr);
        assert forall|x: u64| old(bucket)@.contains(x) implies bucket@.contains(x) by {
            let i = choose|i: int| 0 <= i < old(bucket)@.len() && old(bucket)@[i] == x;
            assert(bucket@[i] == x);
        }
    }
}

/// One frame was appended to a queue and everything already queued
/// stays, in order.
pub open spec fn queued_one(old_q: Seq<Pdu>, new_q: Seq<Pdu>) -> bool {
    new_q.len() == old_q.len() + 1 && forall|k: int| 0 <= k < old_q.len() ==> #[trigger] new_q[k]
        == old_q[k]
}

/// The registry: the authoritative peer map, the advisory lifecycle
/// buckets read by the dispatcher (they may hold stale entries; a
/// reader re-checks the peer's own state), the running games and the
/// reconnect tokens.
pub struct Vault {
    pub peers: Vec<(u64, Peer)>,
    pub idle: Vec<u64>,
    pub mm_queue: Vec<u64>,
    pub hb_wait: Vec<u64>,
    pub hb_ready: Vec<u64>,
    pub games: Vec<(u64, Game)>,
    pub reconnect: Vec<(String, u64)>,
    /// Next game id to allocate.
    pub next_game_id: u64,
}

impl Vault {
    /// The peer connected under this address, if any.
    pub open spec fn spec_peer(self, addr: u64) -> Option<Peer> {
        spec_get(self.peers@, addr)
    }

    /// The running game with this id, if any.
    pub open spec fn spec_game(self, id: u64) -> Option<Game> {
        spec_get(self.games@, id)
    }

    /// An address is connected.
    pub open spec fn has_peer(self, addr: u64) -> bool {
        has_key(self.peers@, addr)
    }

    /// A game id is live.
    pub open spec fn has_game(self, id: u64) -> bool {
        has_key(self.games@, id)
    }

    /// Every peer whose state the dispatcher watches stands in the
    /// bucket of that state (the buckets may hold stale extras).
    pub open spec fn buckets_hold_states(self) -> bool {
        forall|i: int|
            0 <= i < self.peers@.len() ==> {
                let entry = #[trigger] self.peers@[i];
                &&& (entry.1.state matches PeerState::MMQueue ==> self.mm_queue@.contains(
                    entry.0,
                ))
                &&& (entry.1.state matches PeerState::HeartbeatWait(_) ==> self.hb_wait@.contains(
                    entry.0,
                ))
                &&& (entry.1.state matches PeerState::HeartbeatReady(_)
                    ==> self.hb_ready@.contains(entry.0))
            }
    }

    /// Every seated peer's state names a live game whose seat of that
    /// color points back at the peer.
    pub open spec fn seats_link_back(self) -> bool {
        forall|i: int|
            0 <= i < self.peers@.len() ==> {
                let entry = #[trigger] self.peers@[i];
                entry.1.state matches PeerState::Game { color, game } ==> (self.spec_game(game)
                    matches Some(g) && g.spec_player(color).peer == entry.0)
            }
    }

    /// Every live game is well formed and keyed by its own id, below
    /// the allocator's next id.
    pub open spec fn games_wf(self) -> bool {
        forall|i: int|
            0 <= i < self.games@.len() ==> ((#[trigger] self.games@[i]).1.wf() && self.games@[i].1.id
                == self.games@[i].0 && self.games@[i].0 < self.next_game_id)
    }

    /// Reconnect tokens are unique, and each seat's token points at
    /// its game.
    pub open spec fn tokens_wf(self) -> bool {
        &&& str_keys_unique(self.reconnect@)
        &&& forall|i: int|
            0 <= i < self.games@.len() ==> {
                let gid = (#[trigger] self.games@[i]).0;
                let g = self.games@[i].1;
                &&& str_spec_get(self.reconnect@, g.red.reconnect_id@) == Some(gid)
                &&& str_spec_get(self.reconnect@, g.blue.reconnect_id@) == Some(gid)
                &&& str_spec_get(self.reconnect@, g.yellow.reconnect_id@) == Some(gid)
                &&& str_spec_get(self.reconnect@, g.green.reconnect_id@) == Some(gid)
            }
    }

    /// Every peer between registration and seating carries the name
    /// it registered under.
    pub open spec fn queued_named(self) -> bool {
        forall|i: int|
            0 <= i < self.peers@.len() ==> {
                let entry = #[trigger] self.peers@[i];
                (entry.1.state matches PeerState::MMQueue || entry.1.state
                    matches PeerState::HeartbeatWait(_) || entry.1.state
                    matches PeerState::HeartbeatReady(_)) ==> entry.1.player_name is Some
            }
    }

    /// Everything that holds of the registry between operations.
    pub open spec fn wf(self) -> bool {
        &&& keys_unique(self.peers@)
        &&& keys_unique(self.games@)
        &&& self.buckets_hold_states()
        &&& self.seats_link_back()
        &&& self.queued_named()
        &&& self.games_wf()
        &&& self.tokens_wf()
    }

    /// An empty registry.
    pub fn new() -> (r: Vault)
        ensures
            r.wf(),
            r.peers@.len() == 0,
            r.games@.len() == 0,
            r.idle@.len() == 0,
            r.mm_queue@.len() == 0,
            r.hb_wait@.len() == 0,
            r.hb_ready@.len() == 0,
            r.reconnect@.len() == 0,
    {
        Vault {
            peers: Vec::new(),
            idle: Vec::new(),
            mm_queue: Vec::new(),
            hb_wait: Vec::new(),
            hb_ready: Vec::new(),
            games: Vec::new(),
            reconnect: Vec::new(),
            next_game_id: 0,
        }
    }

    /// Connects a new peer under a fresh address; an address already
    /// in use is refused and nothing changes.
    pub fn try_insert_peer(&mut self, sock_addr: u64, peer: Peer) -> (r: Result<(), ()>)
        requires
            old(self).wf(),
            peer.state matches PeerState::Unknown(_),
        ensures
            final(self).wf(),
            old(self).has_peer(sock_addr) ==> r is Err && *final(self) == *old(self),
            !old(self).has_peer(sock_addr) ==> {
                &&& r is Ok
                &&& final(self).peers@ == old(self).peers@.push((sock_addr, peer))
                &&& final(self).spec_peer(sock_addr) == Some(peer)
                &&& forall|a: u64|
                    a != sock_addr ==> #[trigger] final(self).spec_peer(a) == old(
                        self,
                    ).spec_peer(a)
                &&& final(self).idle == old(self).idle
                &&& final(self).mm_queue == old(self).mm_queue
                &&& final(self).hb_wait == old(self).hb_wait
                &&& final(self).hb_ready == old(self).hb_ready
                &&& final(self).games == old(self).games
                &&& final(self).reconnect == old(self).reconnect
                &&& final(self).next_game_id == old(self).next_game_id
            },
    {
        match find_key(&self.peers, sock_addr) {
            Some(_) => Err(()),
            None => {
                proof {
                    lemma_push(self.peers@, sock_addr, peer);
                }
                self.peers.push((sock_addr, peer));
                Ok(())
            },
        }
    }

    /// Disconnects a peer; an unknown address is a no-op. The peer's
    /// entry leaves the registry; stale bucket entries resolve as
    /// no-ops against it.
    pub fn remove_peer(&mut self, sock_addr: u64)
        requires
            old(self).wf(),
        ensures
            final(self).wf(),
            !final(self).has_peer(sock_addr),
            forall|a: u64|
                a != sock_addr ==> #[trigger] final(self).spec_peer(a) == old(self).spec_peer(a),
            final(self).idle == old(self).idle,
            final(self).mm_queue == old(self).mm_queue,
            final(self).hb_wait == old(self).hb_wait,
            final(self).hb_ready == old(self).hb_ready,
            final(self).games == old(self).games,
            final(self).reconnect == old(self).reconnect,
            final(self).next_game_id == old(self).next_game_id,
    {
        match find_key(&self.peers, sock_addr) {
            None => {},
            Some(i) => {
                proof {
                    lemma_remove(self.peers@, i as int);
                }
                self.peers.remove(i);
            },
        }
    }

    /// The peer map.
    pub fn get_peers(&self) -> (r: &Vec<(u64, Peer)>)
        ensures
            *r == self.peers,
    {
        &self.peers
    }

    /// The idle bucket.
    pub fn get_idle(&self) -> (r: &Vec<u64>)
        ensures
            *r == self.idle,
    {
        &self.idle
    }

    /// The matchmaking-queue bucket.
    pub fn get_mm_queue(&self) -> (r: &Vec<u64>)
        ensures
            *r == self.mm_queue,
    {
        &self.mm_queue
    }

    /// The heartbeat-wait bucket.
    pub fn get_hb_wait(&self) -> (r: &Vec<u64>)
        ensures
            *r == self.hb_wait,
    {
        &self.hb_wait
    }

    /// The heartbeat-ready bucket.
    pub fn get_hb_ready(&self) -> (r: &Vec<u64>)
        ensures
            *r == self.hb_ready,
    {
        &self.hb_ready
    }

    /// The game map.
    pub fn get_games(&self) -> (r: &Vec<(u64, Game)>)
        ensures
            *r == self.games,
    {
        &self.games
    }

    /// The reconnect-token map.
    pub fn get_reconnect(&self) -> (r: &Vec<(String, u64)>)
        ensures
            *r == self.reconnect,
    {
        &self.reconnect
    }
}

/// Errors a message handler can report.
#[derive(Clone, Copy, PartialEq, Eq, Structural, Debug)]
pub enum HandlerError {
    /// The address is not connected.
    NoSuchPeer,
}

/// Everything but the addressed peer is as it was: other peers, the
/// games, the tokens and the id allocator.
pub open spec fn others_unchanged(pre: Vault, post: Vault, addr: u64) -> bool {
    &&& forall|a: u64| a != addr ==> #[trigger] post.spec_peer(a) == pre.spec_peer(a)
    &&& post.games == pre.games
    &&& post.reconnect == pre.reconnect
    &&& post.next_game_id == pre.next_game_id
}

/// No bucket changed.
pub open spec fn buckets_unchanged(pre: Vault, post: Vault) -> bool {
    &&& post.idle == pre.idle
    &&& post.mm_queue == pre.mm_queue
    &&& post.hb_wait == pre.hb_wait
    &&& post.hb_ready == pre.hb_ready
}

/// The addressed peer received exactly one frame, of the given
/// shape, and nothing else about it changed.
pub open spec fn replied(pre: Vault, post: Vault, addr: u64, pred: spec_fn(Pdu) -> bool) -> bool {
    pre.spec_peer(addr) matches Some(p0) && post.spec_peer(addr) matches Some(p1) && p1.state
        == p0.state && p1.player_name == p0.player_name && p1.client_info == p0.client_info
        && queued_one(p0.tx@, p1.tx@) && pred(p1.tx@.last())
}


/// Full behaviour of the information-request handler.
pub open spec fn get_info_behavior(
    pre: Vault,
    post: Vault,
    addr: u64,
    r: Result<(), HandlerError>,
) -> bool {
    &&& (r is Ok <==> pre.has_peer(addr))
    &&& (r is Err ==> post == pre)
    &&& (r is Ok ==> replied(pre, post, addr, |p: Pdu| crate::proto::is_get_info_okay(p))
        && others_unchanged(pre, post, addr) && buckets_unchanged(pre, post))
}

/// Full behaviour of the connect handler, over the views of its
/// string arguments.
pub open spec fn connect_behavior(
    pre: Vault,
    post: Vault,
    addr: u64,
    name: Seq<char>,
    version: Seq<char>,
    proto_ver: Seq<char>,
    r: Result<(), HandlerError>,
) -> bool {
    &&& (r is Ok <==> pre.has_peer(addr))
    &&& (r is Err ==> post == pre)
    &&& (r is Ok ==> others_unchanged(pre, post, addr))
    &&& (r is Ok && proto_ver != crate::PROTO_VER@ ==> replied(
        pre,
        post,
        addr,
        |p: Pdu| crate::proto::is_connect_unsupported(p),
    ) && buckets_unchanged(pre, post))
    &&& (r is Ok && proto_ver == crate::PROTO_VER@ && !(pre.spec_peer(addr).unwrap().state
        matches PeerState::Unknown(_)) ==> post == pre)
    &&& (r is Ok && proto_ver == crate::PROTO_VER@ && (pre.spec_peer(addr).unwrap().state
        matches PeerState::Unknown(_)) ==> {
        &&& post.spec_peer(addr) matches Some(p1)
        &&& ({
            let p0 = pre.spec_peer(addr).unwrap();
            let p1 = post.spec_peer(addr).unwrap();
            &&& p1.state == PeerState::Idle
            &&& p1.player_name == p0.player_name
            &&& p1.client_info matches Some(ci) && ci.name@ == name && ci.version@ == version
                && ci.protocol@ == proto_ver
            &&& queued_one(p0.tx@, p1.tx@)
            &&& crate::proto::is_connect_okay(p1.tx@.last())
        })
        &&& post.idle@ == pre.idle@.push(addr)
        &&& post.mm_queue == pre.mm_queue
        &&& post.hb_wait == pre.hb_wait
        &&& post.hb_ready == pre.hb_ready
    })
}

/// Full behaviour of the registration handler, over the view of the
/// chosen name.
pub open spec fn register_behavior(
    pre: Vault,
    post: Vault,
    addr: u64,
    name: Seq<char>,
    r: Result<(), HandlerError>,
) -> bool {
    &&& (r is Ok <==> pre.has_peer(addr))
    &&& (r is Err ==> post == pre)
    &&& (r is Ok ==> others_unchanged(pre, post, addr))
    &&& (r is Ok && (pre.spec_peer(addr).unwrap().state matches PeerState::Idle) ==> {
        &&& ({
            let p0 = pre.spec_peer(addr).unwrap();
            let p1 = post.spec_peer(addr).unwrap();
            &&& post.spec_peer(addr) is Some
            &&& p1.state == PeerState::MMQueue
            &&& p1.player_name matches Some(n) && n@ == name
            &&& p1.client_info == p0.client_info
            &&& queued_one(p0.tx@, p1.tx@)
            &&& crate::proto::is_register_okay(p1.tx@.last())
        })
        &&& post.mm_queue@ == pre.mm_queue@.push(addr)
        &&& post.idle == pre.idle
        &&& post.hb_wait == pre.hb_wait
        &&& post.hb_ready == pre.hb_ready
    })
    &&& (r is Ok && (pre.spec_peer(addr).unwrap().state matches PeerState::MMQueue
        || pre.spec_peer(addr).unwrap().state matches PeerState::HeartbeatWait(_)
        || pre.spec_peer(addr).unwrap().state matches PeerState::HeartbeatReady(_)
        || pre.spec_peer(addr).unwrap().state matches PeerState::Game { .. }) ==> replied(
        pre,
        post,
        addr,
        |p: Pdu| crate::proto::is_register_already(p),
    ) && buckets_unchanged(pre, post))
    &&& (r is Ok && (pre.spec_peer(addr).unwrap().state matches PeerState::Unknown(_))
        ==> replied(pre, post, addr, |p: Pdu| crate::proto::is_register_handshake(p))
        && buckets_unchanged(pre, post))
}

/// Full behaviour of the leave handler.
pub open spec fn leave_behavior(
    pre: Vault,
    post: Vault,
    addr: u64,
    r: Result<(), HandlerError>,
) -> bool {
    &&& (r is Ok <==> pre.has_peer(addr))
    &&& (r is Err ==> post == pre)
    &&& (r is Ok ==> others_unchanged(pre, post, addr) && buckets_unchanged(pre, post))
    &&& (r is Ok && (pre.spec_peer(addr).unwrap().state matches PeerState::MMQueue
        || pre.spec_peer(addr).unwrap().state matches PeerState::HeartbeatWait(_)
        || pre.spec_peer(addr).unwrap().state matches PeerState::HeartbeatReady(_)) ==> ({
        let p0 = pre.spec_peer(addr).unwrap();
        let p1 = post.spec_peer(addr).unwrap();
        &&& post.spec_peer(addr) is Some
        &&& p1.state == PeerState::Idle
        &&& p1.player_name == p0.player_name
        &&& p1.client_info == p0.client_info
        &&& p1.tx == p0.tx
    }))
    &&& (r is Ok && !(pre.spec_peer(addr).unwrap().state matches PeerState::MMQueue
        || pre.spec_peer(addr).unwrap().state matches PeerState::HeartbeatWait(_)
        || pre.spec_peer(addr).unwrap().state matches PeerState::HeartbeatReady(_)) ==> post
        == pre)
}

/// Full behaviour of the heartbeat-ack handler.
pub open spec fn heartbeat_behavior(
    pre: Vault,
    post: Vault,
    addr: u64,
    now: u64,
    r: Result<(), HandlerError>,
) -> bool {
    &&& (r is Ok <==> pre.has_peer(addr))
    &&& (r is Err ==> post == pre)
    &&& (r is Ok ==> others_unchanged(pre, post, addr))
    &&& (r is Ok && (pre.spec_peer(addr).unwrap().state matches PeerState::HeartbeatWait(_))
        ==> {
        &&& ({
            let p0 = pre.spec_peer(addr).unwrap();
            let p1 = post.spec_peer(addr).unwrap();
            &&& post.spec_peer(addr) is Some
            &&& p1.state == PeerState::HeartbeatReady(now)
            &&& p1.player_name == p0.player_name
            &&& p1.client_info == p0.client_info
            &&& p1.tx == p0.tx
        })
        &&& post.hb_ready@ == pre.hb_ready@.push(addr)
        &&& post.idle == pre.idle
        &&& post.mm_queue == pre.mm_queue
        &&& post.hb_wait == pre.hb_wait
    })
    &&& (r is Ok && !(pre.spec_peer(addr).unwrap().state matches PeerState::HeartbeatWait(_))
        ==> post == pre)
}

/// Full behaviour of the move handler.
pub open spec fn move_behavior(
    pre: Vault,
    post: Vault,
    addr: u64,
    mv: Move,
    now: u64,
    r: Result<(), HandlerError>,
) -> bool {
    &&& (!is_actionable_move(mv) ==> post == pre && r is Ok)
    &&& (is_actionable_move(mv) ==> (r is Ok <==> pre.has_peer(addr)))
    &&& (r is Err ==> post == pre)
    &&& (is_actionable_move(mv) && r is Ok && !(pre.spec_peer(addr).unwrap().state
        matches PeerState::Game { .. }) ==> post == pre)
    &&& (is_actionable_move(mv) && r is Ok && (pre.spec_peer(addr).unwrap().state
        matches PeerState::Game { color, game }) ==> ({
        let st = pre.spec_peer(addr).unwrap().state;
        let color = st->Game_color;
        let gid = st->Game_game;
        let g0 = pre.spec_game(gid).unwrap();
        let accept = g0.who_move matches Some(wm) && wm.color == color && wm.complete is None;
        &&& pre.spec_game(gid) is Some
        &&& (accept ==> {
            let g1 = post.spec_game(gid).unwrap();
            &&& post.spec_game(gid) is Some
            &&& g1.who_move matches Some(wm1)
            &&& g1.who_move.unwrap().color == g0.who_move.unwrap().color
            &&& g1.who_move.unwrap().since == g0.who_move.unwrap().since
            &&& g1.who_move.unwrap().complete matches Some(c) && c.mv == mv && c.at == now
            &&& g1.move_happen_signal == 1
            &&& g1.board == g0.board
            &&& g1.red == g0.red
            &&& g1.blue == g0.blue
            &&& g1.yellow == g0.yellow
            &&& g1.green == g0.green
            &&& g1.id == g0.id
            &&& forall|a: u64| #[trigger] post.spec_peer(a) == pre.spec_peer(a)
            &&& forall|id: u64| id != gid ==> #[trigger] post.spec_game(id) == pre.spec_game(id)
            &&& buckets_unchanged(pre, post)
            &&& post.reconnect == pre.reconnect
        })
        &&& (!accept ==> {
            &&& replied(pre, post, addr, |p: Pdu| crate::proto::is_forbidden_move(p))
            &&& post.games == pre.games
            &&& buckets_unchanged(pre, post)
            &&& forall|a: u64| a != addr ==> #[trigger] post.spec_peer(a) == pre.spec_peer(a)
        })
    }))
}

/// An inbound frame that the router hands to a handler.
pub open spec fn dispatched(pdu: Pdu) -> bool {
    ||| pdu matches Pdu::Handshake(
        crate::proto::Handshake::GetInfo(crate::proto::GetInfo::Request {  }),
    )
    ||| pdu matches Pdu::Handshake(
        crate::proto::Handshake::Connect(
            crate::proto::Connect::Client {
                protocol: crate::proto::Protocol::Version(_),
                ..
            },
        ),
    )
    ||| pdu matches Pdu::MatchmakingQueue(
        crate::proto::MatchmakingQueue::PlayerRegister(crate::proto::PlayerRegister::Name(_)),
    )
    ||| pdu matches Pdu::MatchmakingQueue(crate::proto::MatchmakingQueue::PlayerLeave {  })
    ||| pdu matches Pdu::MatchmakingQueue(crate::proto::MatchmakingQueue::HeartbeatCheck {  })
    ||| pdu matches Pdu::GameSession(crate::proto::GameSession::Move(_))
}

impl Vault {
    /// Appends one frame to the queue of the peer at a known index.
    /// Bookkeeping only; the registry invariant is re-established by
    /// the caller.
    pub(crate) fn queue_to_peer(&mut self, i: usize, pdu: Pdu)
        requires
            i < old(self).peers@.len(),
        ensures
            final(self).peers@[i as int].1.tx@ == old(self).peers@[i as int].1.tx@.push(pdu),
            final(self).peers@[i as int].1.state == old(self).peers@[i as int].1.state,
            final(self).peers@[i as int].1.player_name == old(self).peers@[i as int].1.player_name,
            final(self).peers@[i as int].1.client_info == old(self).peers@[i as int].1.client_info,
            final(self).peers@ == old(self).peers@.update(
                i as int,
                (old(self).peers@[i as int].0, final(self).peers@[i as int].1),
            ),
            final(self).idle == old(self).idle,
            final(self).mm_queue == old(self).mm_queue,
            final(self).hb_wait == old(self).hb_wait,
            final(self).hb_ready == old(self).hb_ready,
            final(self).games == old(self).games,
            final(self).reconnect == old(self).reconnect,
            final(self).next_game_id == old(self).next_game_id,
    {
        let entry = &mut self.peers[i];
        entry.1.tx.push(pdu);
        proof {
            assert(self.peers@ =~= old(self).peers@.update(
                i as int,
                (old(self).peers@[i as int].0, self.peers@[i as int].1),
            ));
        }
    }

    /// The registry stays well formed when one peer's entry is
    /// rewritten, its buckets only grow, and the new state is covered
    /// by a bucket or a back-linked game.
    pub(crate) proof fn lemma_wf_after_peer_update(pre: Vault, post: Vault, i: int)
        requires
            pre.wf(),
            0 <= i < pre.peers@.len(),
            post.peers@ == pre.peers@.update(i, (pre.peers@[i].0, post.peers@[i].1)),
            post.games == pre.games,
            post.reconnect == pre.reconnect,
            post.next_game_id == pre.next_game_id,
            forall|x: u64| pre.mm_queue@.contains(x) ==> post.mm_queue@.contains(x),
            forall|x: u64| pre.hb_wait@.contains(x) ==> post.hb_wait@.contains(x),
            forall|x: u64| pre.hb_ready@.contains(x) ==> post.hb_ready@.contains(x),
            post.peers@[i].1.state matches PeerState::MMQueue ==> post.mm_queue@.contains(
                pre.peers@[i].0,
            ),
            post.peers@[i].1.state matches PeerState::HeartbeatWait(_) ==> post.hb_wait@.contains(
                pre.peers@[i].0,
            ),
            post.peers@[i].1.state matches PeerState::HeartbeatReady(_)
                ==> post.hb_ready@.contains(pre.peers@[i].0),
            post.peers@[i].1.state matches PeerState::Game { color, game } ==> (spec_get(
                post.games@,
                game,
            ) matches Some(g) && g.spec_player(color).peer == pre.peers@[i].0),
            (post.peers@[i].1.state matches PeerState::MMQueue || post.peers@[i].1.state
                matches PeerState::HeartbeatWait(_) || post.peers@[i].1.state
                matches PeerState::HeartbeatReady(_)) ==> post.peers@[i].1.player_name is Some,
        ensures
            post.wf(),
            post.spec_peer(pre.peers@[i].0) == Some(post.peers@[i].1),
            forall|a: u64| a != pre.peers@[i].0 ==> #[trigger] post.spec_peer(a) == pre.spec_peer(
                a,
            ),
            forall|a: u64| #[trigger] post.has_peer(a) == pre.has_peer(a),
    {
        lemma_update(pre.peers@, i, post.peers@[i].1);
        assert(keys_unique(post.peers@));
        assert forall|j: int| 0 <= j < post.peers@.len() implies {
            let entry = #[trigger] post.peers@[j];
            &&& (entry.1.state matches PeerState::MMQueue ==> post.mm_queue@.contains(entry.0))
            &&& (entry.1.state matches PeerState::HeartbeatWait(_) ==> post.hb_wait@.contains(
                entry.0,
            ))
            &&& (entry.1.state matches PeerState::HeartbeatReady(_) ==> post.hb_ready@.contains(
                entry.0,
            ))
            &&& (entry.1.state matches PeerState::Game { color, game } ==> (post.spec_game(game)
                matches Some(g) && g.spec_player(color).peer == entry.0))
            &&& ((entry.1.state matches PeerState::MMQueue || entry.1.state
                matches PeerState::HeartbeatWait(_) || entry.1.state
                matches PeerState::HeartbeatReady(_)) ==> entry.1.player_name is Some)
        } by {
            if j != i {
                assert(post.peers@[j] == pre.peers@[j]);
            }
        }
    }

    /// The registry stays well formed when one game's entry is
    /// rewritten without touching its id, seats' addresses or tokens.
    pub(crate) proof fn lemma_wf_after_game_update(pre: Vault, post: Vault, gi: int)
        requires
            pre.wf(),
            0 <= gi < pre.games@.len(),
            post.games@ == pre.games@.update(gi, (pre.games@[gi].0, post.games@[gi].1)),
            post.peers == pre.peers,
            post.idle == pre.idle,
            post.mm_queue == pre.mm_queue,
            post.hb_wait == pre.hb_wait,
            post.hb_ready == pre.hb_ready,
            post.reconnect == pre.reconnect,
            post.next_game_id == pre.next_game_id,
            post.games@[gi].1.wf(),
            post.games@[gi].1.id == pre.games@[gi].1.id,
            post.games@[gi].1.red.peer == pre.games@[gi].1.red.peer,
            post.games@[gi].1.blue.peer == pre.games@[gi].1.blue.peer,
            post.games@[gi].1.yellow.peer == pre.games@[gi].1.yellow.peer,
            post.games@[gi].1.green.peer == pre.games@[gi].1.green.peer,
            post.games@[gi].1.red.reconnect_id == pre.games@[gi].1.red.reconnect_id,
            post.games@[gi].1.blue.reconnect_id == pre.games@[gi].1.blue.reconnect_id,
            post.games@[gi].1.yellow.reconnect_id == pre.games@[gi].1.yellow.reconnect_id,
            post.games@[gi].1.green.reconnect_id == pre.games@[gi].1.green.reconnect_id,
        ensures
            post.wf(),
            post.spec_game(pre.games@[gi].0) == Some(post.games@[gi].1),
            forall|id: u64| id != pre.games@[gi].0 ==> #[trigger] post.spec_game(id)
                == pre.spec_game(id),
    {
        lemma_update(pre.games@, gi, post.games@[gi].1);
        assert forall|j: int| 0 <= j < post.peers@.len() implies {
            let entry = #[trigger] post.peers@[j];
            entry.1.state matches PeerState::Game { color, game } ==> (post.spec_game(game)
                matches Some(g) && g.spec_player(color).peer == entry.0)
        } by {
            let entry = post.peers@[j];
            match entry.1.state {
                PeerState::Game { color, game } => {
                    assert(pre.spec_game(game) matches Some(g) && g.spec_player(color).peer
                        == entry.0);
                    if game == pre.games@[gi].0 {
                        assert(pre.spec_game(game) == Some(pre.games@[gi].1)) by {
                            lemma_get_at(pre.games@, gi);
                        }
                    }
                },
                _ => {},
            }
        }
        assert forall|j: int| 0 <= j < post.games@.len() implies ((#[trigger] post.games@[j]).1.wf()
            && post.games@[j].1.id == post.games@[j].0 && post.games@[j].0
            < post.next_game_id) by {
            if j != gi {
                assert(post.games@[j] == pre.games@[j]);
            } else {
                assert(pre.games@[gi].1.id == pre.games@[gi].0);
            }
        }
        assert forall|j: int| 0 <= j < post.games@.len() implies {
            let gid = (#[trigger] post.games@[j]).0;
            let g = post.games@[j].1;
            &&& str_spec_get(post.reconnect@, g.red.reconnect_id@) == Some(gid)
            &&& str_spec_get(post.reconnect@, g.blue.reconnect_id@) == Some(gid)
            &&& str_spec_get(post.reconnect@, g.yellow.reconnect_id@) == Some(gid)
            &&& str_spec_get(post.reconnect@, g.green.reconnect_id@) == Some(gid)
        } by {
            if j != gi {
                assert(post.games@[j] == pre.games@[j]);
            }
        }
    }

    /// Replies to an information request with the supported protocol
    /// versions. Any peer state may ask.
    pub fn process_hs_get_info(&mut self, addr: u64) -> (r: Result<(), HandlerError>)
        requires
            old(self).wf(),
        ensures
            final(self).wf(),
            get_info_behavior(*old(self), *final(self), addr, r),
    {
        let i = match find_key(&self.peers, addr) {
            Some(i) => i,
            None => {
                return Err(HandlerError::NoSuchPeer);
            },
        };
        proof {
            lemma_get_at(self.peers@, i as int);
        }
        let pdu = crate::proto::get_info_okay_pdu();
        self.queue_to_peer(i, pdu);
        proof {
            Self::lemma_wf_after_peer_update(*old(self), *self, i as int);
        }
        Ok(())
    }

    /// Handles a connect: with the right protocol version and a peer
    /// still in the handshake, records the client info, moves the
    /// peer to Idle and replies the server's identity; with the
    /// wrong version, replies the error; a peer past the handshake
    /// is left as is.
    pub fn process_hs_connect(
        &mut self,
        addr: u64,
        name: &str,
        version: &str,
        proto_ver: &str,
    ) -> (r: Result<(), HandlerError>)
        requires
            old(self).wf(),
        ensures
            final(self).wf(),
            connect_behavior(*old(self), *final(self), addr, name@, version@, proto_ver@, r),
    {
        let i = match find_key(&self.peers, addr) {
            Some(i) => i,
            None => {
                return Err(HandlerError::NoSuchPeer);
            },
        };
        proof {
            lemma_get_at(self.peers@, i as int);
        }
        if crate::assoc::str_eq(proto_ver, crate::PROTO_VER) {
            let is_unknown = self.peers[i].1.state.is_unknown();
            if is_unknown {
                self.queue_to_peer(i, crate::proto::connect_okay_pdu());
                let entry = &mut self.peers[i];
                entry.1.state = PeerState::Idle;
                entry.1.client_info = Some(
                    ClientInfo {
                        name: name.to_owned(),
                        version: version.to_owned(),
                        protocol: proto_ver.to_owned(),
                    },
                );
                proof {
                    assert(self.peers@ =~= old(self).peers@.update(
                        i as int,
                        (old(self).peers@[i as int].0, self.peers@[i as int].1),
                    ));
                }
                bucket_push(&mut self.idle, addr);
                proof {
                    Self::lemma_wf_after_peer_update(*old(self), *self, i as int);
                }
            }
        } else {
            self.queue_to_peer(i, crate::proto::connect_unsupported_pdu());
            proof {
                Self::lemma_wf_after_peer_update(*old(self), *self, i as int);
            }
        }
        Ok(())
    }

    /// Handles a registration: an Idle peer takes the name, joins the
    /// matchmaking queue and is told so; a queued or seated peer is
    /// told it is already registered; a peer still in the handshake
    /// is told to finish it first.
    pub fn process_mm_player_reg(&mut self, addr: u64, name: &str) -> (r: Result<
        (),
        HandlerError,
    >)
        requires
            old(self).wf(),
        ensures
            final(self).wf(),
            register_behavior(*old(self), *final(self), addr, name@, r),
    {
        let i = match find_key(&self.peers, addr) {
            Some(i) => i,
            None => {
                return Err(HandlerError::NoSuchPeer);
            },
        };
        proof {
            lemma_get_at(self.peers@, i as int);
        }
        let state = self.peers[i].1.state;
        match state {
            PeerState::Idle => {
                self.queue_to_peer(i, crate::proto::register_okay_pdu());
                let entry = &mut self.peers[i];
                entry.1.player_name = Some(name.to_owned());
                entry.1.state = PeerState::MMQueue;
                proof {
                    assert(self.peers@ =~= old(self).peers@.update(
                        i as int,
                        (old(self).peers@[i as int].0, self.peers@[i as int].1),
                    ));
                }
                bucket_push(&mut self.mm_queue, addr);
                proof {
                    Self::lemma_wf_after_peer_update(*old(self), *self, i as int);
                }
            },
            PeerState::HeartbeatReady(_) | PeerState::HeartbeatWait(_) | PeerState::MMQueue
                | PeerState::Game { .. } => {
                self.queue_to_peer(i, crate::proto::register_already_pdu());
                proof {
                    Self::lemma_wf_after_peer_update(*old(self), *self, i as int);
                }
            },
            PeerState::Unknown(_) => {
                self.queue_to_peer(i, crate::proto::register_handshake_pdu());
                proof {
                    Self::lemma_wf_after_peer_update(*old(self), *self, i as int);
                }
            },
        }
        Ok(())
    }

    /// Handles a leave: a peer anywhere between the queue and the
    /// heartbeat handshake returns to Idle; any other state is left
    /// as is. No reply is owed.
    pub fn process_mm_player_leave(&mut self, addr: u64) -> (r: Result<(), HandlerError>)
        requires
            old(self).wf(),
        ensures
            final(self).wf(),
            leave_behavior(*old(self), *final(self), addr, r),
    {
        let i = match find_key(&self.peers, addr) {
            Some(i) => i,
            None => {
                return Err(HandlerError::NoSuchPeer);
            },
        };
        proof {
            lemma_get_at(self.peers@, i as int);
        }
        let state = self.peers[i].1.state;
        match state {
            PeerState::MMQueue | PeerState::HeartbeatWait(_) | PeerState::HeartbeatReady(_) => {
                let entry = &mut self.peers[i];
                entry.1.state = PeerState::Idle;
                proof {
                    assert(self.peers@ =~= old(self).peers@.update(
                        i as int,
                        (old(self).peers@[i as int].0, self.peers@[i as int].1),
                    ));
                }
                proof {
                    Self::lemma_wf_after_peer_update(*old(self), *self, i as int);
                }
            },
            _ => {},
        }
        Ok(())
    }

    /// Handles a heartbeat ack: a peer with an outstanding probe
    /// becomes ready, stamped with the ack time; any other state is
    /// left as is.
    pub fn process_mm_heartbeat_check(&mut self, addr: u64, now: u64) -> (r: Result<
        (),
        HandlerError,
    >)
        requires
            old(self).wf(),
        ensures
            final(self).wf(),
            heartbeat_behavior(*old(self), *final(self), addr, now, r),
    {
        let i = match find_key(&self.peers, addr) {
            Some(i) => i,
            None => {
                return Err(HandlerError::NoSuchPeer);
            },
        };
        proof {
            lemma_get_at(self.peers@, i as int);
        }
        let is_wait = self.peers[i].1.state.is_hb_wait();
        if is_wait {
            let entry = &mut self.peers[i];
            entry.1.state = PeerState::HeartbeatReady(now);
            proof {
                assert(self.peers@ =~= old(self).peers@.update(
                    i as int,
                    (old(self).peers@[i as int].0, self.peers@[i as int].1),
                ));
            }
            bucket_push(&mut self.hb_ready, addr);
            proof {
                Self::lemma_wf_after_peer_update(*old(self), *self, i as int);
            }
        }
        Ok(())
    }
}

/// A move request that asks for an actual move on the board.
pub open spec fn is_actionable_move(mv: Move) -> bool {
    ||| mv matches Move::Basic { .. }
    ||| mv matches Move::Capture { .. }
    ||| mv matches Move::Promotion { .. }
    ||| mv matches Move::Castling { .. }
}

/// Copies an actionable move; its payload is plain squares and
/// figures.
pub fn duplicate_move(mv: &Move) -> (r: Move)
    requires
        is_actionable_move(*mv) || *mv matches Move::NoMove {  },
    ensures
        r == *mv,
{
    match mv {
        Move::Basic { from, to } => Move::Basic { from: *from, to: *to },
        Move::Capture { from, to } => Move::Capture { from: *from, to: *to },
        Move::Promotion { from, to, into } => Move::Promotion {
            from: *from,
            to: *to,
            into: *into,
        },
        Move::Castling { rook } => Move::Castling { rook: *rook },
        Move::NoMove {  } => Move::NoMove {  },
        Move::Error(_) => Move::NoMove {  },
    }
}

impl Vault {
    /// Handles a move request: when the sender is seated, it is that
    /// seat's turn and no accepted move is already waiting, the move
    /// is recorded for the turn driver and the driver is signalled;
    /// otherwise the sender is told the move is forbidden. Peers not
    /// in a game, and the empty and error move variants, are ignored.
    pub fn process_move_make(&mut self, addr: u64, mv: &Move, now: u64) -> (r: Result<
        (),
        HandlerError,
    >)
        requires
            old(self).wf(),
        ensures
            final(self).wf(),
            move_behavior(*old(self), *final(self), addr, *mv, now, r),
    {
        match mv {
            Move::NoMove {  } | Move::Error(_) => {
                return Ok(());
            },
            _ => {},
        }
        let i = match find_key(&self.peers, addr) {
            Some(i) => i,
            None => {
                return Err(HandlerError::NoSuchPeer);
            },
        };
        proof {
            lemma_get_at(self.peers@, i as int);
        }
        let state = self.peers[i].1.state;
        match state {
            PeerState::Game { color, game } => {
                let gi = match find_key(&self.games, game) {
                    Some(gi) => gi,
                    None => {
                        proof {
                            assert(false);
                        }
                        return Ok(());
                    },
                };
                proof {
                    lemma_get_at(self.games@, gi as int);
                }
                let accept = {
                    let g = &self.games[gi].1;
                    match &g.who_move {
                        Some(wm) => wm.color == color && wm.complete.is_none(),
                        None => false,
                    }
                };
                if accept {
                    let entry = &mut self.games[gi];
                    match &mut entry.1.who_move {
                        Some(wm) => {
                            wm.complete = Some(Complete { mv: duplicate_move(mv), at: now });
                        },
                        None => {},
                    }
                    entry.1.move_happen_signal = 1;
                    proof {
                        assert(self.games@ =~= old(self).games@.update(
                            gi as int,
                            (old(self).games@[gi as int].0, self.games@[gi as int].1),
                        ));
                        Self::lemma_wf_after_game_update(*old(self), *self, gi as int);
                    }
                } else {
                    self.queue_to_peer(i, crate::proto::forbidden_move_pdu());
                    proof {
                        Self::lemma_wf_after_peer_update(*old(self), *self, i as int);
                    }
                }
            },
            _ => {},
        }
        Ok(())
    }

    /// Dispatches one inbound frame to its handler. Frames that carry
    /// no request in the current protocol direction are ignored.
    pub fn process_msg(&mut self, pdu: &Pdu, addr: u64, now: u64) -> (r: Result<
        (),
        HandlerError,
    >)
        requires
            old(self).wf(),
        ensures
            final(self).wf(),
            r is Err ==> *final(self) == *old(self),
            *pdu matches Pdu::Handshake(
                crate::proto::Handshake::GetInfo(crate::proto::GetInfo::Request {  }),
            ) ==> get_info_behavior(*old(self), *final(self), addr, r),
            *pdu matches Pdu::Handshake(
                crate::proto::Handshake::Connect(
                    crate::proto::Connect::Client {
                        name,
                        version,
                        protocol: crate::proto::Protocol::Version(pv),
                    },
                ),
            ) ==> connect_behavior(*old(self), *final(self), addr, name@, version@, pv@, r),
            *pdu matches Pdu::MatchmakingQueue(
                crate::proto::MatchmakingQueue::PlayerRegister(
                    crate::proto::PlayerRegister::Name(n),
                ),
            ) ==> register_behavior(*old(self), *final(self), addr, n@, r),
            *pdu matches Pdu::MatchmakingQueue(
                crate::proto::MatchmakingQueue::PlayerLeave {  },
            ) ==> leave_behavior(*old(self), *final(self), addr, r),
            *pdu matches Pdu::MatchmakingQueue(
                crate::proto::MatchmakingQueue::HeartbeatCheck {  },
            ) ==> heartbeat_behavior(*old(self), *final(self), addr, now, r),
            *pdu matches Pdu::GameSession(crate::proto::GameSession::Move(mv))
                ==> move_behavior(*old(self), *final(self), addr, mv, now, r),
            !dispatched(*pdu) ==> *final(self) == *old(self) && r is Ok,
    {
        match pdu {
            Pdu::Handshake(hs) => match hs {
                crate::proto::Handshake::GetInfo(gi) => match gi {
                    crate::proto::GetInfo::Request {  } => self.process_hs_get_info(addr),
                    _ => Ok(()),
                },
                crate::proto::Handshake::Connect(c) => match c {
                    crate::proto::Connect::Client { name, version, protocol } => match protocol {
                        crate::proto::Protocol::Version(proto_ver) => self.process_hs_connect(
                            addr,
                            name.as_str(),
                            version.as_str(),
                            proto_ver.as_str(),
                        ),
                        _ => Ok(()),
                    },
                    _ => Ok(()),
                },
            },
            Pdu::MatchmakingQueue(mq) => match mq {
                crate::proto::MatchmakingQueue::PlayerRegister(pr) => match pr {
                    crate::proto::PlayerRegister::Name(name) => self.process_mm_player_reg(
                        addr,
                        name.as_str(),
                    ),
                    _ => Ok(()),
                },
                crate::proto::MatchmakingQueue::PlayerLeave {  } => self.process_mm_player_leave(
                    addr,
                ),
                crate::proto::MatchmakingQueue::HeartbeatCheck {  } => self
                    .process_mm_heartbeat_check(addr, now),
                _ => Ok(()),
            },
            Pdu::GameSession(gs) => match gs {
                crate::proto::GameSession::Move(mv) => self.process_move_make(addr, mv, now),
                crate::proto::GameSession::Init(_) | crate::proto::GameSession::Update(_) => Ok(
                    (),
                ),
            },
        }
    }
}

impl Vault {
    /// Queues one frame to a peer by address; a disconnected address
    /// is a no-op.
    pub(crate) fn send_to_addr(&mut self, addr: u64, pdu: Pdu)
        requires
            old(self).wf(),
        ensures
            final(self).wf(),
            old(self).spec_peer(addr) matches Some(p0) ==> (final(self).spec_peer(addr)
                matches Some(p1) && p1.state == p0.state && p1.player_name == p0.player_name
                && p1.client_info == p0.client_info && queued_one(p0.tx@, p1.tx@)
                && p1.tx@.last() == pdu),
            old(self).spec_peer(addr) is None ==> *final(self) == *old(self),
            forall|a: u64| a != addr ==> #[trigger] final(self).spec_peer(a) == old(
                self,
            ).spec_peer(a),
            forall|a: u64| #[trigger] final(self).has_peer(a) == old(self).has_peer(a),
            buckets_unchanged(*old(self), *final(self)),
            final(self).games == old(self).games,
            final(self).reconnect == old(self).reconnect,
            final(self).next_game_id == old(self).next_game_id,
    {
        match find_key(&self.peers, addr) {
            None => {},
            Some(i) => {
                proof {
                    lemma_get_at(self.peers@, i as int);
                }
                self.queue_to_peer(i, pdu);
                proof {
                    Self::lemma_wf_after_peer_update(*old(self), *self, i as int);
                }
            },
        }
    }
}

} // verus!
