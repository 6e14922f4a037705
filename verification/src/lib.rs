//! Server core for a four-player chess variant played on a cruciform
//! 14x14 board: protocol data types and their wire codec, the board
//! model, the peer registry with its lifecycle state machine, the
//! matchmaking dispatcher and the per-game turn driver.
use vstd::prelude::*;

pub mod assoc;
pub mod board;
pub mod dispatch;
pub mod formation;
pub mod driver;
pub mod proto;
pub mod position;
pub mod vault;

verus! {

/// Protocol version spoken by this server.
pub const PROTO_VER: &'static str = "0";

/// Name the server reports during the handshake.
pub const SERV_NAME: &'static str = "fpc-server-rs";

/// Version the server reports during the handshake.
pub const SERV_VER: &'static str = "0.0.1";

/// Period of the matchmaking dispatcher tick, in milliseconds.
pub const HB_DISP_TICK_MS: u64 = 1000;

/// How long a peer may sit in the heartbeat-wait state, in milliseconds.
pub const HB_WAIT_TIMEOUT_MS: u64 = 2000;

/// How long a peer may sit in the heartbeat-ready state, in milliseconds.
pub const HB_READY_TIMEOUT_MS: u64 = 5000;

/// Pause between forming a game and the first move call, in milliseconds.
pub const GS_INIT_PAUSE_MS: u64 = 10000;

/// Each player's total think time, in milliseconds.
pub const PLAYER_TIMER_MS: u64 = 60000;

/// Per-turn free grace before think time is debited, in milliseconds.
pub const PLAYER_TIME_2_MS: u64 = 5000;

} // verus!
