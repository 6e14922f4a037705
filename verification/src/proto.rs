//! Protocol data units: the tagged unions carried as one JSON text
//! frame each, over the three families handshake, matchmaking queue
//! and game session.
use vstd::prelude::*;

use crate::board::Figure;
use crate::position::Position;
use crate::vault;

verus! {

/// Protocol version fields of the handshake.
#[derive(Clone, PartialEq, Eq, Debug)]
pub enum Protocol {
    SupportedVersion(Vec<String>),
    Version(String),
}

/// Errors of the information request.
#[derive(Clone, PartialEq, Eq, Debug)]
pub enum GetInfoError {
    UnspecifiedError { description: String },
}

/// Information request and its replies.
#[derive(Clone, PartialEq, Eq, Debug)]
pub enum GetInfo {
    Request {},
    Okay { protocol: Protocol },
    Error(GetInfoError),
}

/// What the server reports about itself.
#[derive(Clone, PartialEq, Eq, Debug)]
pub struct Server {
    pub name: String,
    pub version: String,
}

/// Errors of the connect exchange.
#[derive(Clone, PartialEq, Eq, Debug)]
pub enum ConnectError {
    UnsupportedProtocolVersion { description: String },
    UnspecifiedError { description: String },
}

/// Connect request and its replies.
#[derive(Clone, PartialEq, Eq, Debug)]
pub enum Connect {
    Client { name: String, version: String, protocol: Protocol },
    Okay { server: Server },
    Error(ConnectError),
}

/// The handshake family.
#[derive(Clone, PartialEq, Eq, Debug)]
pub enum Handshake {
    GetInfo(GetInfo),
    Connect(Connect),
}

/// Errors of player registration.
#[derive(Clone, PartialEq, Eq, Debug)]
pub enum PlayerRegisterError {
    BadName { description: String },
    AlreadyRegistered { description: String },
    Handshake { description: String },
    UnspecifiedError { description: String },
}

/// Player registration request and its replies.
#[derive(Clone, PartialEq, Eq, Debug)]
pub enum PlayerRegister {
    Name(String),
    Okay {},
    Error(PlayerRegisterError),
}

/// The matchmaking queue family.
#[derive(Clone, PartialEq, Eq, Debug)]
pub enum MatchmakingQueue {
    PlayerRegister(PlayerRegister),
    PlayerLeave {},
    HeartbeatCheck {},
    PlayerKick { description: String },
}

/// One seat's name and left-rook square in the game start frame.
#[derive(Clone, PartialEq, Eq, Debug)]
pub struct StartPosition {
    pub player_name: String,
    pub left_rook: Position,
}

/// The four seats' start data.
#[derive(Clone, PartialEq, Eq, Debug)]
pub struct StartPositions {
    pub red: StartPosition,
    pub green: StartPosition,
    pub blue: StartPosition,
    pub yellow: StartPosition,
}

/// Frame announcing a formed game to one peer.
#[derive(Clone, PartialEq, Eq, Debug)]
pub struct Init {
    pub countdown: u64,
    pub reconnect_id: String,
    pub start_positions: StartPositions,
}

/// Side effect of a move.
#[derive(Clone, PartialEq, Eq, Debug)]
pub enum Action {
    NoAction {},
    Capture(Position),
}

/// Errors of a move request.
#[derive(Clone, PartialEq, Eq, Debug)]
pub enum MoveError {
    ForbiddenMove { description: String },
    UnspecifiedError { description: String },
}

/// A move, as carried on the wire.
#[derive(Clone, PartialEq, Eq, Debug)]
pub enum Move {
    Basic { from: Position, to: Position },
    Capture { from: Position, to: Position },
    Promotion { from: Position, to: Position, into: Figure },
    Castling { rook: Position },
    NoMove {},
    Error(MoveError),
}

/// Whose turn it is, as carried in an update frame. Timers are in
/// seconds.
#[derive(Clone, PartialEq, Eq, Debug)]
pub enum MoveCall {
    NoCall {},
    Call { player: String, timer: u64, timer_2: u64 },
}

impl MoveCall {
    /// Whether this call announces the end of the game.
    pub fn is_no_call(&self) -> (r: bool)
        ensures
            r == (*self matches MoveCall::NoCall {  }),
    {
        match self {
            MoveCall::NoCall {  } => true,
            _ => false,
        }
    }
}

/// What happens to a lost player's remaining pieces.
#[derive(Clone, Copy, PartialEq, Eq, Structural, Debug)]
pub enum RemainingPieces {
    Clear,
    TurnToStone,
}

/// A player's condition, as carried in an update frame.
#[derive(Clone, Copy, PartialEq, Eq, Structural, Debug)]
pub enum PlayerState {
    NoState {},
    Check {},
    Checkmate {},
    Stalemate {},
    Lost { remaining_pieces: RemainingPieces },
}

impl PlayerState {
    /// The wire form of a player's internal condition.
    pub open spec fn spec_from(vault_state: vault::PlayerState) -> PlayerState {
        match vault_state {
            vault::PlayerState::NoState => PlayerState::NoState {  },
            vault::PlayerState::Check => PlayerState::Check {  },
            vault::PlayerState::Checkmate => PlayerState::Checkmate {  },
            vault::PlayerState::Stalemate => PlayerState::Stalemate {  },
            vault::PlayerState::Lost => PlayerState::Lost {
                remaining_pieces: RemainingPieces::Clear,
            },
        }
    }
}

impl From<vault::PlayerState> for PlayerState {
    /// Maps a player's internal condition to its wire form; a lost
    /// player's remaining pieces are always cleared.
    fn from(vault_state: vault::PlayerState) -> (r: PlayerState) {
        match vault_state {
            vault::PlayerState::NoState => PlayerState::NoState {  },
            vault::PlayerState::Check => PlayerState::Check {  },
            vault::PlayerState::Checkmate => PlayerState::Checkmate {  },
            vault::PlayerState::Stalemate => PlayerState::Stalemate {  },
            vault::PlayerState::Lost => PlayerState::Lost {
                remaining_pieces: RemainingPieces::Clear,
            },
        }
    }
}

impl vstd::std_specs::convert::FromSpecImpl<vault::PlayerState> for PlayerState {
    open spec fn obeys_from_spec() -> bool {
        true
    }

    open spec fn from_spec(vault_state: vault::PlayerState) -> PlayerState {
        PlayerState::spec_from(vault_state)
    }
}

/// The four seats' conditions in an update frame.
#[derive(Clone, PartialEq, Eq, Structural, Debug)]
pub struct PlayersStates {
    pub red: PlayerState,
    pub blue: PlayerState,
    pub yellow: PlayerState,
    pub green: PlayerState,
}

/// Frame broadcast after each turn.
#[derive(Clone, PartialEq, Eq, Debug)]
pub struct Update {
    pub move_call: MoveCall,
    pub move_previous: Move,
    pub players_states: PlayersStates,
}

/// The game session family.
#[derive(Clone, PartialEq, Eq, Debug)]
pub enum GameSession {
    Init(Init),
    Move(Move),
    Update(Update),
}

/// One protocol data unit: everything that travels as one frame.
#[derive(Clone, PartialEq, Eq, Debug)]
pub enum Pdu {
    Handshake(Handshake),
    MatchmakingQueue(MatchmakingQueue),
    GameSession(GameSession),
}

/// The reply to an information request: the supported protocol
/// versions.
pub open spec fn is_get_info_okay(p: Pdu) -> bool {
    p matches Pdu::Handshake(
        Handshake::GetInfo(GetInfo::Okay { protocol: Protocol::SupportedVersion(vs) }),
    ) && vs@.len() == 1 && vs@[0]@ == crate::PROTO_VER@
}

/// The reply to an accepted connect: the server's name and version.
pub open spec fn is_connect_okay(p: Pdu) -> bool {
    p matches Pdu::Handshake(Handshake::Connect(Connect::Okay { server })) && server.name@
        == crate::SERV_NAME@ && server.version@ == crate::SERV_VER@
}

/// The reply to a connect with the wrong protocol version.
pub open spec fn is_connect_unsupported(p: Pdu) -> bool {
    p matches Pdu::Handshake(
        Handshake::Connect(Connect::Error(ConnectError::UnsupportedProtocolVersion { .. })),
    )
}

/// The reply to an accepted registration.
pub open spec fn is_register_okay(p: Pdu) -> bool {
    p == Pdu::MatchmakingQueue(MatchmakingQueue::PlayerRegister(PlayerRegister::Okay {  }))
}

/// The reply to a registration from a peer already queued or seated.
pub open spec fn is_register_already(p: Pdu) -> bool {
    p matches Pdu::MatchmakingQueue(
        MatchmakingQueue::PlayerRegister(
            PlayerRegister::Error(PlayerRegisterError::AlreadyRegistered { .. }),
        ),
    )
}

/// The reply to a registration before the handshake.
pub open spec fn is_register_handshake(p: Pdu) -> bool {
    p matches Pdu::MatchmakingQueue(
        MatchmakingQueue::PlayerRegister(
            PlayerRegister::Error(PlayerRegisterError::Handshake { .. }),
        ),
    )
}

/// The reply to a move that is not allowed now.
pub open spec fn is_forbidden_move(p: Pdu) -> bool {
    p matches Pdu::GameSession(
        GameSession::Move(Move::Error(MoveError::ForbiddenMove { .. })),
    )
}

/// The heartbeat probe, also echoed back as its ack.
pub open spec fn is_heartbeat_check(p: Pdu) -> bool {
    p == Pdu::MatchmakingQueue(MatchmakingQueue::HeartbeatCheck {  })
}

/// The kick notice sent on heartbeat timeout.
pub open spec fn is_player_kick(p: Pdu) -> bool {
    p matches Pdu::MatchmakingQueue(MatchmakingQueue::PlayerKick { .. })
}

/// Builds the reply to an information request.
pub fn get_info_okay_pdu() -> (r: Pdu)
    ensures
        is_get_info_okay(r),
{
    let mut vs: Vec<String> = Vec::new();
    vs.push(crate::PROTO_VER.to_owned());
    Pdu::Handshake(Handshake::GetInfo(GetInfo::Okay { protocol: Protocol::SupportedVersion(vs) }))
}

/// Builds the reply to an accepted connect.
pub fn connect_okay_pdu() -> (r: Pdu)
    ensures
        is_connect_okay(r),
{
    Pdu::Handshake(
        Handshake::Connect(
            Connect::Okay {
                server: Server {
                    name: crate::SERV_NAME.to_owned(),
                    version: crate::SERV_VER.to_owned(),
                },
            },
        ),
    )
}

/// Builds the reply to a connect with the wrong protocol version.
pub fn connect_unsupported_pdu() -> (r: Pdu)
    ensures
        is_connect_unsupported(r),
{
    Pdu::Handshake(
        Handshake::Connect(
            Connect::Error(
                ConnectError::UnsupportedProtocolVersion {
                    description: "Unsupported client version".to_owned(),
                },
            ),
        ),
    )
}

/// Builds the reply to an accepted registration.
pub fn register_okay_pdu() -> (r: Pdu)
    ensures
        is_register_okay(r),
{
    Pdu::MatchmakingQueue(MatchmakingQueue::PlayerRegister(PlayerRegister::Okay {  }))
}

/// Builds the reply to a registration from a peer already queued or
/// seated.
pub fn register_already_pdu() -> (r: Pdu)
    ensures
        is_register_already(r),
{
    Pdu::MatchmakingQueue(
        MatchmakingQueue::PlayerRegister(
            PlayerRegister::Error(
                PlayerRegisterError::AlreadyRegistered {
                    description: "You are already in matchmaking queue or active game session"
                        .to_owned(),
                },
            ),
        ),
    )
}

/// Builds the reply to a registration before the handshake.
pub fn register_handshake_pdu() -> (r: Pdu)
    ensures
        is_register_handshake(r),
{
    Pdu::MatchmakingQueue(
        MatchmakingQueue::PlayerRegister(
            PlayerRegister::Error(
                PlayerRegisterError::Handshake { description: "pass handshake first".to_owned() },
            ),
        ),
    )
}

/// Builds the reply to a move that is not allowed now.
pub fn forbidden_move_pdu() -> (r: Pdu)
    ensures
        is_forbidden_move(r),
{
    Pdu::GameSession(
        GameSession::Move(
            Move::Error(MoveError::ForbiddenMove { description: "not allowed move".to_owned() }),
        ),
    )
}

/// Builds the heartbeat probe.
pub fn heartbeat_check_pdu() -> (r: Pdu)
    ensures
        is_heartbeat_check(r),
{
    Pdu::MatchmakingQueue(MatchmakingQueue::HeartbeatCheck {  })
}

/// Builds the kick notice sent on heartbeat timeout.
pub fn player_kick_pdu() -> (r: Pdu)
    ensures
        is_player_kick(r),
{
    Pdu::MatchmakingQueue(
        MatchmakingQueue::PlayerKick { description: "Heartbeat timeout".to_owned() },
    )
}

/// The game-start frame: the countdown, one seat's reconnect token,
/// and each seat's player name with its fixed left-rook square.
pub open spec fn is_init_pdu(
    p: Pdu,
    countdown: u64,
    token: Seq<char>,
    red_name: Seq<char>,
    blue_name: Seq<char>,
    yellow_name: Seq<char>,
    green_name: Seq<char>,
) -> bool {
    p matches Pdu::GameSession(GameSession::Init(init)) && ({
        &&& init.countdown == countdown
        &&& init.reconnect_id@ == token
        &&& init.start_positions.red.player_name@ == red_name
        &&& init.start_positions.red.left_rook == (Position { col: 3, row: 0 })
        &&& init.start_positions.blue.player_name@ == blue_name
        &&& init.start_positions.blue.left_rook == (Position { col: 0, row: 10 })
        &&& init.start_positions.yellow.player_name@ == yellow_name
        &&& init.start_positions.yellow.left_rook == (Position { col: 10, row: 13 })
        &&& init.start_positions.green.player_name@ == green_name
        &&& init.start_positions.green.left_rook == (Position { col: 13, row: 3 })
    })
}

/// Builds the game-start frame for one seat.
pub fn init_pdu(
    countdown: u64,
    token: String,
    red_name: String,
    blue_name: String,
    yellow_name: String,
    green_name: String,
) -> (r: Pdu)
    ensures
        is_init_pdu(r, countdown, token@, red_name@, blue_name@, yellow_name@, green_name@),
{
    Pdu::GameSession(
        GameSession::Init(
            Init {
                countdown,
                reconnect_id: token,
                start_positions: StartPositions {
                    red: StartPosition {
                        player_name: red_name,
                        left_rook: Position { col: 3, row: 0 },
                    },
                    blue: StartPosition {
                        player_name: blue_name,
                        left_rook: Position { col: 0, row: 10 },
                    },
                    yellow: StartPosition {
                        player_name: yellow_name,
                        left_rook: Position { col: 10, row: 13 },
                    },
                    green: StartPosition {
                        player_name: green_name,
                        left_rook: Position { col: 13, row: 3 },
                    },
                },
            },
        ),
    )
}

/// The per-turn update frame: whose move is called with which
/// timers, what the previous move was, and each seat's condition.
pub open spec fn is_update_pdu(
    p: Pdu,
    call: Option<(Seq<char>, u64, u64)>,
    prev: Move,
    red: PlayerState,
    blue: PlayerState,
    yellow: PlayerState,
    green: PlayerState,
) -> bool {
    p matches Pdu::GameSession(GameSession::Update(u)) && ({
        &&& (match call {
            None => u.move_call matches MoveCall::NoCall {  },
            Some((name, t, t2)) => u.move_call matches MoveCall::Call { player, timer, timer_2 }
                && player@ == name && timer == t && timer_2 == t2,
        })
        &&& u.move_previous == prev
        &&& u.players_states.red == red
        &&& u.players_states.blue == blue
        &&& u.players_states.yellow == yellow
        &&& u.players_states.green == green
    })
}

/// Builds the per-turn update frame.
pub fn update_pdu(
    call: Option<(String, u64, u64)>,
    prev: Move,
    red: PlayerState,
    blue: PlayerState,
    yellow: PlayerState,
    green: PlayerState,
) -> (r: Pdu)
    ensures
        is_update_pdu(
            r,
            match call {
                None => None,
                Some((name, t, t2)) => Some((name@, t, t2)),
            },
            prev,
            red,
            blue,
            yellow,
            green,
        ),
{
    let move_call = match call {
        None => MoveCall::NoCall {  },
        Some((name, t, t2)) => MoveCall::Call { player: name, timer: t, timer_2: t2 },
    };
    Pdu::GameSession(
        GameSession::Update(
            Update {
                move_call,
                move_previous: prev,
                players_states: PlayersStates { red, blue, yellow, green },
            },
        ),
    )
}

} // verus!
