use ice_ducks::client::{
    apply_remote_move, apply_undo_event, completion_phase, handle_server_message,
    send_change_level_request, validate_level_index, ClientEffect, ClientState,
};
use ice_ducks::codec::{decode_client_message, decode_server_message, encode_client_message,
    encode_server_message};
use ice_ducks::history::{BreadSumRecordStack, LevelStack};
use ice_ducks::level::{CurrentLevelIndex, Level, Levels, UndoLevelEvent};
use ice_ducks::messages::{
    channel_for_client_message, channel_for_server_message, CharacterType, ClientMessage,
    FullGameState, GameStates, PlayerType, SelectionState, ServerMessage, WorldPos,
};
use ice_ducks::player::{CommonDuck, Direction};
use ice_ducks::server::{
    assign_player_slot, handle_client_connected, handle_client_disconnected,
    handle_client_message, release_player_slot, validate_movement_claim, ServerAction,
    ServerLobby, ServerState,
};

fn grid(rows: &[&str]) -> Vec<Vec<char>> {
    rows.iter().map(|r| r.chars().collect()).collect()
}

fn sample_state() -> FullGameState {
    FullGameState {
        current_state: GameStates::Next,
        player1_position: WorldPos { x_bits: 0x3f80_0000, y_bits: 7, z_bits: 0 },
        player2_position: WorldPos { x_bits: 1, y_bits: 2, z_bits: 3 },
        player1_character: CharacterType::Cat,
        player2_character: CharacterType::Bunny,
        player1_logic_pos: (4, 5),
        player2_logic_pos: (6, 7),
        player1_bread: 2,
        player2_bread: 0,
        player1_can_move: true,
        player2_can_move: false,
        current_level: CurrentLevelIndex(3),
    }
}

fn fresh_server() -> ServerState {
    ServerState {
        selection: SelectionState::default(),
        game_state: FullGameState::default(),
        level: Level(grid(&["@@@@", "@D#@", "@#D@", "@@@@"])),
        level_stack: LevelStack::default(),
        bread_stack: BreadSumRecordStack::default(),
    }
}

fn roundtrip_client(m: ClientMessage) -> ClientMessage {
    let bytes = encode_client_message(&m);
    decode_client_message(&bytes).expect("an encoded message must decode")
}

fn roundtrip_server(m: &ServerMessage) -> ServerMessage {
    let bytes = encode_server_message(m);
    decode_server_message(&bytes).expect("an encoded message must decode")
}

#[test]
fn client_messages_round_trip() {
    assert!(matches!(
        roundtrip_client(ClientMessage::StateChangeRequest(GameStates::CharacterSelection)),
        ClientMessage::StateChangeRequest(GameStates::CharacterSelection)
    ));
    let w = WorldPos { x_bits: 9, y_bits: 0xdead_beef, z_bits: 0xffff_ffff };
    match roundtrip_client(ClientMessage::PlayerPositionUpdate(w)) {
        ClientMessage::PlayerPositionUpdate(got) => assert_eq!(got, w),
        other => panic!("wrong variant: {:?}", other),
    }
    assert!(matches!(
        roundtrip_client(ClientMessage::RequestFullState),
        ClientMessage::RequestFullState
    ));
    match roundtrip_client(ClientMessage::CharacterSelected {
        player_id: 2,
        character: CharacterType::Chick,
    }) {
        ClientMessage::CharacterSelected { player_id, character } => {
            assert_eq!(player_id, 2);
            assert_eq!(character, CharacterType::Chick);
        }
        other => panic!("wrong variant: {:?}", other),
    }
    assert!(matches!(
        roundtrip_client(ClientMessage::ReadyForGameStart),
        ClientMessage::ReadyForGameStart
    ));
    match roundtrip_client(ClientMessage::PlayerMovementInput {
        player_id: 1,
        direction: Direction::Left,
    }) {
        ClientMessage::PlayerMovementInput { player_id, direction } => {
            assert_eq!(player_id, 1);
            assert_eq!(direction, Direction::Left);
        }
        other => panic!("wrong variant: {:?}", other),
    }
    assert!(matches!(
        roundtrip_client(ClientMessage::NextLevelRequest),
        ClientMessage::NextLevelRequest
    ));
    assert!(matches!(roundtrip_client(ClientMessage::RestartLevel), ClientMessage::RestartLevel));
    assert!(matches!(roundtrip_client(ClientMessage::UndoLevel), ClientMessage::UndoLevel));
    match roundtrip_client(ClientMessage::ChangeLevelCheat(CurrentLevelIndex(11))) {
        ClientMessage::ChangeLevelCheat(ix) => assert_eq!(ix.0, 11),
        other => panic!("wrong variant: {:?}", other),
    }
}

#[test]
fn server_messages_round_trip() {
    assert!(matches!(
        roundtrip_server(&ServerMessage::StateChangeNotification(GameStates::Celebration)),
        ServerMessage::StateChangeNotification(GameStates::Celebration)
    ));
    let f = sample_state();
    match roundtrip_server(&ServerMessage::FullStateSync(f)) {
        ServerMessage::FullStateSync(got) => {
            assert_eq!(got.current_state, GameStates::Next);
            assert_eq!(got.player1_position, f.player1_position);
            assert_eq!(got.player2_position, f.player2_position);
            assert_eq!(got.player1_character, CharacterType::Cat);
            assert_eq!(got.player2_character, CharacterType::Bunny);
            assert_eq!(got.player1_logic_pos, (4, 5));
            assert_eq!(got.player2_logic_pos, (6, 7));
            assert_eq!(got.player1_bread, 2);
            assert_eq!(got.player2_bread, 0);
            assert!(got.player1_can_move);
            assert!(!got.player2_can_move);
            assert_eq!(got.current_level.0, 3);
        }
        other => panic!("wrong variant: {:?}", other),
    }
    match roundtrip_server(&ServerMessage::PlayerPositionUpdate {
        player_id: 2,
        position: WorldPos { x_bits: 5, y_bits: 6, z_bits: 7 },
    }) {
        ServerMessage::PlayerPositionUpdate { player_id, position } => {
            assert_eq!(player_id, 2);
            assert_eq!(position.y_bits, 6);
        }
        other => panic!("wrong variant: {:?}", other),
    }
    match roundtrip_server(&ServerMessage::CharacterSelectionUpdate {
        player1_choice: Some(CharacterType::Duck),
        player2_choice: None,
    }) {
        ServerMessage::CharacterSelectionUpdate { player1_choice, player2_choice } => {
            assert_eq!(player1_choice, Some(CharacterType::Duck));
            assert_eq!(player2_choice, None);
        }
        other => panic!("wrong variant: {:?}", other),
    }
    match roundtrip_server(&ServerMessage::StartGameWithCharacters {
        player1_character: CharacterType::Chick,
        player2_character: CharacterType::Cat,
    }) {
        ServerMessage::StartGameWithCharacters { player1_character, player2_character } => {
            assert_eq!(player1_character, CharacterType::Chick);
            assert_eq!(player2_character, CharacterType::Cat);
        }
        other => panic!("wrong variant: {:?}", other),
    }
    match roundtrip_server(&ServerMessage::PlayerMovementUpdate {
        player_id: 1,
        direction: Direction::Down,
    }) {
        ServerMessage::PlayerMovementUpdate { player_id, direction } => {
            assert_eq!(player_id, 1);
            assert_eq!(direction, Direction::Down);
        }
        other => panic!("wrong variant: {:?}", other),
    }
    match roundtrip_server(&ServerMessage::NextLevelNotification {
        level_index: CurrentLevelIndex(9),
    }) {
        ServerMessage::NextLevelNotification { level_index } => assert_eq!(level_index.0, 9),
        other => panic!("wrong variant: {:?}", other),
    }
    assert!(matches!(
        roundtrip_server(&ServerMessage::DoRestartLevel),
        ServerMessage::DoRestartLevel
    ));
    let snapshot = grid(&["@@@@", "@DB@", "@@@@"]);
    match roundtrip_server(&ServerMessage::DoUndoLevel(Level(snapshot.clone()))) {
        ServerMessage::DoUndoLevel(l) => assert_eq!(l.0, snapshot),
        other => panic!("wrong variant: {:?}", other),
    }
    match roundtrip_server(&ServerMessage::DoChangeLevel(CurrentLevelIndex(2))) {
        ServerMessage::DoChangeLevel(ix) => assert_eq!(ix.0, 2),
        other => panic!("wrong variant: {:?}", other),
    }
}

#[test]
fn malformed_bytes_are_rejected_not_panicked_on() {
    // Empty input.
    assert!(decode_client_message(&[]).is_err());
    assert!(decode_server_message(&[]).is_err());
    // Unknown discriminant.
    assert!(decode_client_message(&[200]).is_err());
    assert!(decode_server_message(&[42]).is_err());
    // Truncated payload.
    let full = encode_client_message(&ClientMessage::ChangeLevelCheat(CurrentLevelIndex(7)));
    assert!(decode_client_message(&full[..full.len() - 1]).is_err());
    // Trailing garbage.
    let mut padded = encode_client_message(&ClientMessage::UndoLevel);
    padded.push(0);
    assert!(decode_client_message(&padded).is_err());
    // A bool byte other than zero or one inside a full state.
    let mut state_bytes = encode_server_message(&ServerMessage::FullStateSync(sample_state()));
    let can_move_offset = state_bytes.len() - 10;
    state_bytes[can_move_offset] = 9;
    assert!(decode_server_message(&state_bytes).is_err());
    // A surrogate code point in a restored grid cell.
    let mut undo_bytes =
        encode_server_message(&ServerMessage::DoUndoLevel(Level(grid(&["a"]))));
    let n = undo_bytes.len();
    undo_bytes[n - 4] = 0x00;
    undo_bytes[n - 3] = 0xd8;
    undo_bytes[n - 2] = 0x00;
    undo_bytes[n - 1] = 0x00;
    assert!(decode_server_message(&undo_bytes).is_err());
}

#[test]
fn position_updates_travel_on_the_unreliable_channel() {
    let pos = ClientMessage::PlayerPositionUpdate(WorldPos { x_bits: 0, y_bits: 0, z_bits: 0 });
    assert_eq!(channel_for_client_message(&pos), 1);
    assert_eq!(channel_for_client_message(&ClientMessage::UndoLevel), 0);
    let relay = ServerMessage::PlayerPositionUpdate {
        player_id: 1,
        position: WorldPos { x_bits: 0, y_bits: 0, z_bits: 0 },
    };
    assert_eq!(channel_for_server_message(&relay), 1);
    assert_eq!(channel_for_server_message(&ServerMessage::DoRestartLevel), 0);
}

#[test]
fn lobby_assigns_first_free_slot_and_refuses_a_third() {
    let mut lobby = ServerLobby::default();
    assert_eq!(assign_player_slot(&mut lobby), Some(PlayerType::Player1));
    assert_eq!(assign_player_slot(&mut lobby), Some(PlayerType::Player2));
    assert_eq!(assign_player_slot(&mut lobby), None);
    release_player_slot(&mut lobby, PlayerType::Player1);
    assert_eq!(assign_player_slot(&mut lobby), Some(PlayerType::Player1));
}

#[test]
fn movement_claims_are_checked_against_the_recorded_duck() {
    let duck = CommonDuck { logic_position: (2, 3), can_move: true, bread_count: 0 };
    assert!(validate_movement_claim(&duck, (2, 3)));
    assert!(!validate_movement_claim(&duck, (2, 4)));
    let stuck = CommonDuck { logic_position: (2, 3), can_move: false, bread_count: 1 };
    assert!(!validate_movement_claim(&stuck, (2, 3)));
}

#[test]
fn movement_relay_requires_a_capable_duck() {
    let mut state = fresh_server();
    // The recorded duck cannot move yet: the claim is not relayed.
    let refused = handle_client_message(
        &mut state,
        1,
        &ClientMessage::PlayerMovementInput { player_id: 1, direction: Direction::Right },
    );
    assert!(refused.is_empty());
    state.game_state.player1_can_move = true;
    let acts = handle_client_message(
        &mut state,
        1,
        &ClientMessage::PlayerMovementInput { player_id: 1, direction: Direction::Right },
    );
    assert_eq!(acts.len(), 1);
    assert!(matches!(
        acts[0],
        ServerAction::Broadcast(ServerMessage::PlayerMovementUpdate {
            player_id: 1,
            direction: Direction::Right,
        })
    ));
    // A claim for a slot the session does not have is refused outright.
    let unknown = handle_client_message(
        &mut state,
        1,
        &ClientMessage::PlayerMovementInput { player_id: 7, direction: Direction::Up },
    );
    assert!(unknown.is_empty());
}

#[test]
fn undo_event_replaces_the_level_and_respawns_its_ducks() {
    let snapshot = grid(&["@@@@", "@D#@", "@#Q@", "@@@@"]);
    let mut level = Level(grid(&["@@", "@@"]));
    let ducks = apply_undo_event(
        &mut level,
        UndoLevelEvent { level_data: Level(snapshot.clone()) },
    );
    assert_eq!(level.0, snapshot);
    assert_eq!(ducks.len(), 2);
    assert_eq!(ducks[0].logic_position, (1, 1));
    assert_eq!(ducks[1].logic_position, (2, 2));
    assert_eq!(ducks[1].bread_count, 1);
}

#[test]
fn undo_request_needs_two_snapshots() {
    let mut state = fresh_server();
    state.level_stack.0.push(grid(&["@@", "D#"]));
    let rejected = handle_client_message(&mut state, 1, &ClientMessage::UndoLevel);
    assert!(rejected.is_empty());
    state.level_stack.0.push(grid(&["@@", "#D"]));
    let acts = handle_client_message(&mut state, 1, &ClientMessage::UndoLevel);
    assert_eq!(acts.len(), 1);
    match &acts[0] {
        ServerAction::Broadcast(ServerMessage::DoUndoLevel(l)) => {
            assert_eq!(l.0, grid(&["@@", "D#"]));
        }
        other => panic!("wrong action: {:?}", other),
    }
    assert_eq!(state.level.0, grid(&["@@", "D#"]));
}

#[test]
fn next_level_request_advances_and_announces() {
    let mut state = fresh_server();
    let acts = handle_client_message(&mut state, 1, &ClientMessage::NextLevelRequest);
    assert_eq!(state.game_state.current_level.0, 2);
    assert_eq!(acts.len(), 1);
    assert!(matches!(
        acts[0],
        ServerAction::Broadcast(ServerMessage::NextLevelNotification { level_index: CurrentLevelIndex(2) })
    ));
}

#[test]
fn level_skip_request_validates_the_target() {
    let levels = Levels::default();
    let mut ix = CurrentLevelIndex(13);
    // Forward from the last level: no level fourteen, nothing sent.
    assert!(send_change_level_request(&mut ix, false, true, &levels).is_none());
    assert_eq!(ix.0, 13);
    // Backward works.
    match send_change_level_request(&mut ix, true, false, &levels) {
        Some(ClientMessage::ChangeLevelCheat(target)) => assert_eq!(target.0, 12),
        other => panic!("wrong message: {:?}", other),
    }
    assert_eq!(ix.0, 12);
    // Backward from level one is not offered.
    let mut first = CurrentLevelIndex(1);
    assert!(send_change_level_request(&mut first, true, false, &levels).is_none());
    assert_eq!(first.0, 1);
}

#[test]
fn invalid_index_after_last_level_rolls_back() {
    let levels = Levels::default();
    let mut ix = CurrentLevelIndex(14);
    assert!(validate_level_index(&mut ix, &levels));
    assert_eq!(ix.0, 13);
    let mut ok = CurrentLevelIndex(4);
    assert!(!validate_level_index(&mut ok, &levels));
    assert_eq!(ok.0, 4);
}

#[test]
fn only_the_last_level_celebrates() {
    let levels = Levels::default();
    assert_eq!(completion_phase(&CurrentLevelIndex(13), &levels), Some(GameStates::Celebration));
    assert_eq!(completion_phase(&CurrentLevelIndex(5), &levels), None);
}

#[test]
fn remote_move_is_ignored_for_a_trapped_duck() {
    let mut lvl = Level(grid(&["@@@@", "@P#@", "@@@@"]));
    let mut duck = CommonDuck { logic_position: (1, 1), can_move: false, bread_count: 1 };
    assert_eq!(apply_remote_move(&mut duck, Direction::Right, &mut lvl), None);
    assert_eq!(duck.logic_position, (1, 1));
    assert_eq!(lvl.0[1], "@P#@".chars().collect::<Vec<char>>());
}

#[test]
fn remote_move_slides_and_records_the_new_cell() {
    let mut lvl = Level(grid(&["@@@@@", "@D#B@", "@@@@@"]));
    let mut duck = CommonDuck { logic_position: (1, 1), can_move: true, bread_count: 0 };
    assert_eq!(apply_remote_move(&mut duck, Direction::Right, &mut lvl), Some((1, 3)));
    assert_eq!(duck.logic_position, (1, 3));
    assert_eq!(duck.bread_count, 1);
}

/// Sends a client message over the wire into the server and returns the
/// actions the transport must perform.
fn deliver_to_server(state: &mut ServerState, player_id: u8, m: &ClientMessage) -> Vec<ServerAction> {
    let bytes = encode_client_message(m);
    let decoded = decode_client_message(&bytes).expect("wire bytes decode");
    handle_client_message(state, player_id, &decoded)
}

/// Sends every broadcast action over the wire into both client mirrors.
fn broadcast_to_clients(
    acts: &[ServerAction],
    c1: &mut ClientState,
    c2: &mut ClientState,
) -> Vec<ClientEffect> {
    let mut effects = Vec::new();
    for act in acts {
        if let ServerAction::Broadcast(m) = act {
            let bytes = encode_server_message(m);
            let m1 = decode_server_message(&bytes).expect("wire bytes decode");
            let m2 = decode_server_message(&bytes).expect("wire bytes decode");
            effects.extend(handle_server_message(c1, m1));
            let _ = handle_server_message(c2, m2);
        }
    }
    effects
}

#[test]
fn two_clients_select_characters_and_start_playing() {
    // The whole happy path over the real wire format: two peers connect,
    // pick distinct characters, signal ready; the server announces the
    // start and both mirrors reach the playing phase.
    let mut lobby = ServerLobby::default();
    let mut server = fresh_server();
    let mut c1 = ClientState::default();
    let mut c2 = ClientState::default();

    let (slot1, greet1) = handle_client_connected(&mut lobby, &server.game_state);
    assert_eq!(slot1, Some(PlayerType::Player1));
    assert_eq!(greet1.len(), 1);
    let (slot2, _greet2) = handle_client_connected(&mut lobby, &server.game_state);
    assert_eq!(slot2, Some(PlayerType::Player2));
    let (slot3, greet3) = handle_client_connected(&mut lobby, &server.game_state);
    assert_eq!(slot3, None);
    assert!(greet3.is_empty());

    let acts = deliver_to_server(
        &mut server,
        1,
        &ClientMessage::CharacterSelected { player_id: 1, character: CharacterType::Cat },
    );
    broadcast_to_clients(&acts, &mut c1, &mut c2);
    let acts = deliver_to_server(
        &mut server,
        2,
        &ClientMessage::CharacterSelected { player_id: 2, character: CharacterType::Bunny },
    );
    broadcast_to_clients(&acts, &mut c1, &mut c2);
    assert_eq!(c1.selection.player1_choice, Some(CharacterType::Cat));
    assert_eq!(c1.selection.player2_choice, Some(CharacterType::Bunny));

    let acts = deliver_to_server(&mut server, 1, &ClientMessage::ReadyForGameStart);
    assert!(acts.is_empty());
    let acts = deliver_to_server(&mut server, 2, &ClientMessage::ReadyForGameStart);
    let effects = broadcast_to_clients(&acts, &mut c1, &mut c2);
    assert!(effects
        .iter()
        .any(|e| matches!(e, ClientEffect::SetPhase(GameStates::Next))));

    assert_eq!(c1.current_phase, GameStates::Next);
    assert_eq!(c2.current_phase, GameStates::Next);
    assert_eq!(c1.selected_characters.player1, Some(CharacterType::Cat));
    assert_eq!(c1.selected_characters.player2, Some(CharacterType::Bunny));
    assert_eq!(c2.selected_characters.player1, Some(CharacterType::Cat));
    assert_eq!(server.game_state.player1_character, CharacterType::Cat);
    assert_eq!(server.game_state.player2_character, CharacterType::Bunny);

    // A disconnect frees the slot and sends everyone back toward the menu.
    let acts = handle_client_disconnected(&mut lobby, PlayerType::Player1);
    broadcast_to_clients(&acts, &mut c1, &mut c2);
    assert_eq!(c1.current_phase, GameStates::GameMenu);
    assert_eq!(assign_player_slot(&mut lobby), Some(PlayerType::Player1));
}
