use fpc_server::board::{Board, CheckMate, Figure};
use fpc_server::position::Position;
use fpc_server::proto::{
    Connect, GameSession, GetInfo, Handshake, MatchmakingQueue, Move, Pdu, PlayerRegister,
    Protocol,
};
use fpc_server::vault::{Color, Peer, PeerState, PlayerState, Vault};

fn new_peer() -> Peer {
    Peer { tx: Vec::new(), player_name: None, state: PeerState::Unknown(0), client_info: None }
}

fn handshake_and_register(v: &mut Vault, addr: u64, name: &str) {
    v.process_hs_get_info(addr).unwrap();
    v.process_hs_connect(addr, name, "1", "0").unwrap();
    v.process_mm_player_reg(addr, name).unwrap();
}

#[test]
fn board_initial_setup() {
    let b = Board::new();
    // Red left rook on d1, king on h1.
    let rook = b.piece(Position { col: 3, row: 0 }).unwrap();
    assert_eq!(rook.figure, Figure::Rook);
    assert_eq!(rook.color, Color::Red);
    let king = b.piece(Position { col: 7, row: 0 }).unwrap();
    assert_eq!(king.figure, Figure::King);
    // Pawn rank for Red is row 2.
    let pawn = b.piece(Position { col: 6, row: 1 }).unwrap();
    assert_eq!(pawn.figure, Figure::Pawn);
    // The middle of the board is empty.
    assert!(b.piece(Position { col: 7, row: 7 }).is_none());
}

#[test]
fn find_king_and_attackers() {
    let b = Board::new();
    let k = b.find_king(Color::Blue).unwrap();
    assert_eq!(k.position(), Position { col: 0, row: 7 });
    // Nothing attacks the centre of an initial board.
    assert!(b.attackers_on_position(Position { col: 7, row: 7 }).is_none());
    // The square in front of a red pawn's diagonal is attacked.
    let attacked = Position { col: 5, row: 2 };
    let attackers = b.attackers_on_position(attacked).unwrap();
    assert!(!attackers.is_empty());
}

#[test]
fn initial_checkmate_test_counts_own_attackers() {
    // The attack scanner counts pieces of every color, and no escape
    // moves are generated, so a king flanked by its own pieces tests
    // as checkmated already on the initial board.
    let mut b = Board::new();
    assert_eq!(b.is_checkmate(Color::Red), CheckMate::Checkmate);
}

#[test]
fn handshake_happy_path() {
    let mut v = Vault::new();
    v.try_insert_peer(7, new_peer()).unwrap();
    v.process_hs_get_info(7).unwrap();
    v.process_hs_connect(7, "c", "1", "0").unwrap();
    let peers = v.get_peers();
    let peer = &peers.iter().find(|(a, _)| *a == 7).unwrap().1;
    assert_eq!(peer.state, PeerState::Idle);
    assert_eq!(peer.tx.len(), 2);
    match &peer.tx[0] {
        Pdu::Handshake(Handshake::GetInfo(GetInfo::Okay { protocol })) => match protocol {
            Protocol::SupportedVersion(vs) => assert_eq!(vs, &vec!["0".to_string()]),
            other => panic!("unexpected protocol field {:?}", other),
        },
        other => panic!("unexpected first reply {:?}", other),
    }
    match &peer.tx[1] {
        Pdu::Handshake(Handshake::Connect(Connect::Okay { server })) => {
            assert_eq!(server.name, "fpc-server-rs");
            assert_eq!(server.version, "0.0.1");
        },
        other => panic!("unexpected second reply {:?}", other),
    }
}

#[test]
fn version_mismatch_keeps_peer_unknown() {
    let mut v = Vault::new();
    v.try_insert_peer(9, new_peer()).unwrap();
    v.process_hs_connect(9, "c", "1", "9").unwrap();
    let peers = v.get_peers();
    let peer = &peers.iter().find(|(a, _)| *a == 9).unwrap().1;
    assert!(matches!(peer.state, PeerState::Unknown(_)));
    assert!(matches!(
        peer.tx.last().unwrap(),
        Pdu::Handshake(Handshake::Connect(Connect::Error(_)))
    ));
}

#[test]
fn duplicate_address_refused() {
    let mut v = Vault::new();
    v.try_insert_peer(1, new_peer()).unwrap();
    assert!(v.try_insert_peer(1, new_peer()).is_err());
}

#[test]
fn register_before_handshake_is_refused() {
    let mut v = Vault::new();
    v.try_insert_peer(2, new_peer()).unwrap();
    v.process_mm_player_reg(2, "p").unwrap();
    let peers = v.get_peers();
    let peer = &peers.iter().find(|(a, _)| *a == 2).unwrap().1;
    assert!(matches!(peer.state, PeerState::Unknown(_)));
    assert!(matches!(
        peer.tx.last().unwrap(),
        Pdu::MatchmakingQueue(MatchmakingQueue::PlayerRegister(PlayerRegister::Error(_)))
    ));
}

#[test]
fn matchmaking_forms_a_game() {
    let mut v = Vault::new();
    for addr in 1..=4u64 {
        v.try_insert_peer(addr, new_peer()).unwrap();
        handshake_and_register(&mut v, addr, &format!("p{}", addr));
    }
    // First tick sends the heartbeat probes.
    let skipped = v.dispatcher_tick(1000);
    assert_eq!(skipped, 0);
    for addr in 1..=4u64 {
        let peers = v.get_peers();
        let peer = &peers.iter().find(|(a, _)| *a == addr).unwrap().1;
        assert!(matches!(peer.state, PeerState::HeartbeatWait(1000)));
        assert!(matches!(
            peer.tx.last().unwrap(),
            Pdu::MatchmakingQueue(MatchmakingQueue::HeartbeatCheck {})
        ));
        // Each client acks.
        v.process_mm_heartbeat_check(addr, 1500).unwrap();
    }
    // Next tick forms the game.
    let skipped = v.dispatcher_tick(2000);
    assert_eq!(skipped, 0);
    assert_eq!(v.get_games().len(), 1);
    for addr in 1..=4u64 {
        let peers = v.get_peers();
        let peer = &peers.iter().find(|(a, _)| *a == addr).unwrap().1;
        assert!(peer.state.is_game());
        match peer.tx.last().unwrap() {
            Pdu::GameSession(GameSession::Init(init)) => {
                assert_eq!(init.countdown, 10);
                assert_eq!(init.reconnect_id.len(), 32);
                assert_eq!(init.start_positions.red.player_name, "p1");
                assert_eq!(init.start_positions.blue.player_name, "p2");
                assert_eq!(init.start_positions.yellow.player_name, "p3");
                assert_eq!(init.start_positions.green.player_name, "p4");
                assert_eq!(init.start_positions.red.left_rook, Position { col: 3, row: 0 });
                assert_eq!(init.start_positions.blue.left_rook, Position { col: 0, row: 10 });
                assert_eq!(init.start_positions.yellow.left_rook, Position { col: 10, row: 13 });
                assert_eq!(init.start_positions.green.left_rook, Position { col: 13, row: 3 });
            },
            other => panic!("expected init frame, got {:?}", other),
        }
    }
    // The four reconnect tokens are distinct.
    let tokens: Vec<String> = v.get_reconnect().iter().map(|(t, _)| t.clone()).collect();
    assert_eq!(tokens.len(), 4);
    for i in 0..4 {
        for j in (i + 1)..4 {
            assert_ne!(tokens[i], tokens[j]);
        }
    }
}

#[test]
fn silent_peer_gets_no_frames_from_ticks() {
    let mut v = Vault::new();
    v.try_insert_peer(5, new_peer()).unwrap();
    v.dispatcher_tick(1000);
    v.dispatcher_tick(2000);
    let peers = v.get_peers();
    let peer = &peers.iter().find(|(a, _)| *a == 5).unwrap().1;
    assert!(peer.tx.is_empty());
    assert!(matches!(peer.state, PeerState::Unknown(_)));
}

#[test]
fn heartbeat_timeout_kicks_peer() {
    let mut v = Vault::new();
    for addr in 1..=4u64 {
        v.try_insert_peer(addr, new_peer()).unwrap();
        handshake_and_register(&mut v, addr, "p");
    }
    v.dispatcher_tick(1000);
    // Three ack, one stays silent past the two-second timeout.
    for addr in 1..=3u64 {
        v.process_mm_heartbeat_check(addr, 1500).unwrap();
    }
    v.dispatcher_tick(3500);
    let peers = v.get_peers();
    let peer = &peers.iter().find(|(a, _)| *a == 4).unwrap().1;
    assert_eq!(peer.state, PeerState::Idle);
    assert!(peer.player_name.is_none());
    assert!(matches!(
        peer.tx.last().unwrap(),
        Pdu::MatchmakingQueue(MatchmakingQueue::PlayerKick { .. })
    ));
    // The acked three fall back to the queue after the ready timeout.
    v.dispatcher_tick(7000);
    for addr in 1..=3u64 {
        let peers = v.get_peers();
        let peer = &peers.iter().find(|(a, _)| *a == addr).unwrap().1;
        assert_eq!(peer.state, PeerState::MMQueue);
    }
}

#[test]
fn turn_timeout_loses_the_mover() {
    let mut v = Vault::new();
    for addr in 1..=4u64 {
        v.try_insert_peer(addr, new_peer()).unwrap();
        handshake_and_register(&mut v, addr, &format!("p{}", addr));
    }
    v.dispatcher_tick(1000);
    for addr in 1..=4u64 {
        v.process_mm_heartbeat_check(addr, 1500).unwrap();
    }
    v.dispatcher_tick(2000);
    let game_id = v.get_games()[0].0;
    // After the countdown, Red is called with the full timer.
    let timer = v.game_session_start(game_id, 12_000).unwrap();
    assert_eq!(timer, 60_000);
    // Red stays silent; the timer fires 65 seconds later.
    let adv = v
        .game_session_step(game_id, fpc_server::driver::DriverEvent::Timeout, 77_000)
        .unwrap();
    assert!(!adv.finished);
    assert_eq!(adv.next_color, Some(Color::Blue));
    let game = &v.get_games()[0].1;
    assert_eq!(game.red.state, PlayerState::Lost);
    assert_eq!(game.red.time_remaining, 0);
    // Everyone got the update naming Blue as next mover.
    let peers = v.get_peers();
    let peer = &peers.iter().find(|(a, _)| *a == 3).unwrap().1;
    match peer.tx.last().unwrap() {
        Pdu::GameSession(GameSession::Update(u)) => {
            assert_eq!(u.move_previous, Move::NoMove {});
        },
        other => panic!("expected update frame, got {:?}", other),
    }
}

#[test]
fn accepted_move_is_recorded_and_signalled() {
    let mut v = Vault::new();
    for addr in 1..=4u64 {
        v.try_insert_peer(addr, new_peer()).unwrap();
        handshake_and_register(&mut v, addr, &format!("p{}", addr));
    }
    v.dispatcher_tick(1000);
    for addr in 1..=4u64 {
        v.process_mm_heartbeat_check(addr, 1500).unwrap();
    }
    v.dispatcher_tick(2000);
    let game_id = v.get_games()[0].0;
    v.game_session_start(game_id, 12_000).unwrap();
    // Red pushes a pawn.
    let mv = Move::Basic {
        from: Position { col: 6, row: 1 },
        to: Position { col: 6, row: 2 },
    };
    v.process_move_make(1, &mv, 20_000).unwrap();
    assert_eq!(v.get_games()[0].1.move_happen_signal, 1);
    // A move from a peer whose turn it is not is refused.
    v.process_move_make(2, &mv, 20_500).unwrap();
    let peers = v.get_peers();
    let peer = &peers.iter().find(|(a, _)| *a == 2).unwrap().1;
    assert!(matches!(
        peer.tx.last().unwrap(),
        Pdu::GameSession(GameSession::Move(Move::Error(_)))
    ));
    // The driver consumes the move; 20 s minus the 5 s grace is billed.
    let adv = v
        .game_session_step(game_id, fpc_server::driver::DriverEvent::MoveReceived, 20_100)
        .unwrap();
    assert_eq!(adv.next_color, Some(Color::Blue));
    let game = &v.get_games()[0].1;
    assert_eq!(game.red.time_remaining, 60_000 - (8_000 - 5_000));
    assert_eq!(game.move_happen_signal, 0);
}
