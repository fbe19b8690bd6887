//! The server's side of the session: assigning the two player slots,
//! reacting to each client message, and saying what to broadcast or send
//! back. The surrounding transport performs the actions; the decisions here
//! are pure.
use vstd::prelude::*;
use crate::history::{undo, undo_model, BreadSumRecordStack, LevelStack};
use crate::level::{CurrentLevelIndex, Level};
use crate::messages::{
    ClientMessage, FullGameState, GameStates, PlayerType, SelectionState, ServerMessage,
};
use crate::player::CommonDuck;

verus! {

/// Which player slots are taken.
pub struct ServerLobby {
    pub players: Vec<PlayerType>,
}

impl Default for ServerLobby {
    fn default() -> (r: Self)
        ensures
            r.players@ == Seq::<PlayerType>::empty(),
    {
        ServerLobby { players: Vec::new() }
    }
}

/// What assigning a slot does: the first free slot among player one and
/// player two is taken; with both taken, the peer is refused.
pub open spec fn assign_model(players: Seq<PlayerType>) -> (Seq<PlayerType>, Option<PlayerType>) {
    if !players.contains(PlayerType::Player1) {
        (players.push(PlayerType::Player1), Some(PlayerType::Player1))
    } else if !players.contains(PlayerType::Player2) {
        (players.push(PlayerType::Player2), Some(PlayerType::Player2))
    } else {
        (players, None)
    }
}

/// Keeps every slot but `p`.
pub open spec fn not_slot(p: PlayerType) -> spec_fn(PlayerType) -> bool {
    |q: PlayerType| q != p
}

/// What releasing a slot does: every occurrence of the slot leaves the
/// lobby, nothing else moves.
pub open spec fn release_model(players: Seq<PlayerType>, p: PlayerType) -> Seq<PlayerType> {
    players.filter(not_slot(p))
}

fn lobby_contains(players: &Vec<PlayerType>, p: PlayerType) -> (b: bool)
    ensures
        b == players@.contains(p),
{
    let mut i: usize = 0;
    while i < players.len()
        invariant
            i <= players@.len(),
            forall|k: int| 0 <= k < i ==> players@[k] != p,
        decreases players@.len() - i,
    {
        if players[i].is_player1() == p.is_player1() {
            proof {
                assert(players@[i as int] == p);
            }
            return true;
        }
        i = i + 1;
    }
    false
}

/// Assigns the first free player slot to a connecting peer, or refuses it
/// when both slots are taken.
pub fn assign_player_slot(lobby: &mut ServerLobby) -> (r: Option<PlayerType>)
    ensures
        (final(lobby).players@, r) == assign_model(old(lobby).players@),
{
    if !lobby_contains(&lobby.players, PlayerType::Player1) {
        lobby.players.push(PlayerType::Player1);
        Some(PlayerType::Player1)
    } else if !lobby_contains(&lobby.players, PlayerType::Player2) {
        lobby.players.push(PlayerType::Player2);
        Some(PlayerType::Player2)
    } else {
        None
    }
}

/// Frees a disconnecting peer's slot.
pub fn release_player_slot(lobby: &mut ServerLobby, p: PlayerType)
    ensures
        final(lobby).players@ == release_model(old(lobby).players@, p),
{
    let mut kept: Vec<PlayerType> = Vec::new();
    let mut i: usize = 0;
    proof {
        reveal(Seq::filter);
        assert(old(lobby).players@.take(0) =~= Seq::<PlayerType>::empty());
        assert(kept@ =~= release_model(old(lobby).players@.take(0), p));
    }
    while i < lobby.players.len()
        invariant
            i <= lobby.players@.len(),
            lobby.players@ == old(lobby).players@,
            kept@ == release_model(old(lobby).players@.take(i as int), p),
        decreases lobby.players@.len() - i,
    {
        let q = lobby.players[i];
        let keep = q.is_player1() != p.is_player1();
        proof {
            assert(keep == not_slot(p)(q));
            old(lobby).players@.take(i as int).lemma_filter_push(q, not_slot(p));
            assert(old(lobby).players@.take(i as int).push(q) =~= old(lobby).players@.take(i + 1));
        }
        if keep {
            kept.push(q);
        }
        i = i + 1;
    }
    proof {
        assert(old(lobby).players@.take(lobby.players@.len() as int) =~= old(lobby).players@);
    }
    lobby.players = kept;
}

/// The first peer to connect becomes player one, the second player two, and
/// a third is refused; after player one leaves, the next peer takes the
/// freed slot again.
pub proof fn lemma_lobby_assignment()
    ensures
        ({
            let l0 = Seq::<PlayerType>::empty();
            let (l1, r1) = assign_model(l0);
            let (l2, r2) = assign_model(l1);
            let (l3, r3) = assign_model(l2);
            let l4 = release_model(l3, PlayerType::Player1);
            let (l5, r5) = assign_model(l4);
            &&& r1 == Some(PlayerType::Player1)
            &&& r2 == Some(PlayerType::Player2)
            &&& r3 is None
            &&& r5 == Some(PlayerType::Player1)
        }),
{
    let l0 = Seq::<PlayerType>::empty();
    assert(!l0.contains(PlayerType::Player1));
    let (l1, r1) = assign_model(l0);
    assert(l1.contains(PlayerType::Player1)) by {
        assert(l1[0] == PlayerType::Player1);
    }
    assert(!l1.contains(PlayerType::Player2)) by {
        assert(forall|k: int| 0 <= k < l1.len() ==> l1[k] == PlayerType::Player1);
    }
    let (l2, r2) = assign_model(l1);
    assert(l2.contains(PlayerType::Player1)) by {
        assert(l2[0] == PlayerType::Player1);
    }
    assert(l2.contains(PlayerType::Player2)) by {
        assert(l2[1] == PlayerType::Player2);
    }
    let (l3, r3) = assign_model(l2);
    let l4 = release_model(l3, PlayerType::Player1);
    assert(!l4.contains(PlayerType::Player1)) by {
        if l4.contains(PlayerType::Player1) {
            let k = choose|k: int| 0 <= k < l4.len() && l4[k] == PlayerType::Player1;
            l3.lemma_filter_pred(not_slot(PlayerType::Player1), k);
            assert(not_slot(PlayerType::Player1)(l4[k]));
        }
    }
    let (l5, r5) = assign_model(l4);
}

/// One thing the transport must do after a message is handled.
#[derive(Debug)]
pub enum ServerAction {
    /// Send this to the requesting client, on the reliable channel.
    Reply(ServerMessage),
    /// Send this to every client, on the reliable channel.
    Broadcast(ServerMessage),
    /// Send this to every client, on the loss-tolerant channel.
    BroadcastUnreliable(ServerMessage),
    /// Move the local engine to this phase.
    SetPhase(GameStates),
}

/// Everything the server owns: the lobby is tracked separately by the
/// connection handler.
pub struct ServerState {
    pub selection: SelectionState,
    pub game_state: FullGameState,
    pub level: Level,
    pub level_stack: LevelStack,
    pub bread_stack: BreadSumRecordStack,
}

/// The server performs the coarse legality check of the movement relay: a
/// claimed move counts only if the claimed cell matches the duck's recorded
/// cell and the duck can still move.
pub fn validate_movement_claim(duck: &CommonDuck, claimed_start: (usize, usize)) -> (ok: bool)
    ensures
        ok == (duck.logic_position == claimed_start && duck.can_move),
{
    duck.logic_position.0 == claimed_start.0 && duck.logic_position.1 == claimed_start.1
        && duck.can_move
}

/// The coarse legality check of the movement relay, over what the server
/// itself records: the slot exists and its duck is still movement-capable.
/// The wire message carries no claimed position, so the position half of the
/// check (see `validate_movement_claim`) has nothing to compare against and
/// cannot apply here.
pub open spec fn movement_capable(g: FullGameState, player_id: u8) -> bool {
    ||| player_id == 1 && g.player1_can_move
    ||| player_id == 2 && g.player2_can_move
}

/// The level and its history are untouched.
pub open spec fn level_unchanged(pre: ServerState, post: ServerState) -> bool {
    &&& post.level == pre.level
    &&& post.level_stack.0@ == pre.level_stack.0@
    &&& post.bread_stack.0@ == pre.bread_stack.0@
}

/// What handling one client message does to the server state and which
/// actions the transport must then perform, message by message.
pub open spec fn server_step(
    pre: ServerState,
    player_id: u8,
    msg: ClientMessage,
    post: ServerState,
    acts: Seq<ServerAction>,
) -> bool {
    match msg {
        ClientMessage::StateChangeRequest(new_state) => {
            &&& post.game_state == FullGameState { current_state: new_state, ..pre.game_state }
            &&& post.selection == pre.selection
            &&& level_unchanged(pre, post)
            &&& acts == seq![
                ServerAction::SetPhase(new_state),
                ServerAction::Broadcast(ServerMessage::StateChangeNotification(new_state)),
            ]
        },
        ClientMessage::PlayerPositionUpdate(w) => {
            let pid: u8 = if player_id == 1 {
                1
            } else {
                2
            };
            &&& post.game_state == (if player_id == 1 {
                FullGameState { player1_position: w, ..pre.game_state }
            } else {
                FullGameState { player2_position: w, ..pre.game_state }
            })
            &&& post.selection == pre.selection
            &&& level_unchanged(pre, post)
            &&& acts == seq![
                ServerAction::BroadcastUnreliable(
                    ServerMessage::PlayerPositionUpdate { player_id: pid, position: w },
                ),
            ]
        },
        ClientMessage::RequestFullState => {
            &&& post.game_state == pre.game_state
            &&& post.selection == pre.selection
            &&& level_unchanged(pre, post)
            &&& acts == seq![
                ServerAction::Reply(ServerMessage::FullStateSync(pre.game_state)),
            ]
        },
        ClientMessage::CharacterSelected { player_id: pid, character } => {
            let sel = if pid == 1 {
                SelectionState { player1_choice: Some(character), ..pre.selection }
            } else if pid == 2 {
                SelectionState { player2_choice: Some(character), ..pre.selection }
            } else {
                pre.selection
            };
            &&& post.selection == sel
            &&& post.game_state == pre.game_state
            &&& level_unchanged(pre, post)
            &&& acts == seq![
                ServerAction::Broadcast(
                    ServerMessage::CharacterSelectionUpdate {
                        player1_choice: sel.player1_choice,
                        player2_choice: sel.player2_choice,
                    },
                ),
            ]
        },
        ClientMessage::ReadyForGameStart => {
            let sel = if player_id == 1 {
                SelectionState { player1_ready: true, ..pre.selection }
            } else {
                SelectionState { player2_ready: true, ..pre.selection }
            };
            &&& post.selection == sel
            &&& level_unchanged(pre, post)
            &&& if sel.player1_ready && sel.player2_ready && sel.player1_choice is Some
                && sel.player2_choice is Some {
                &&& post.game_state == FullGameState {
                    player1_character: sel.player1_choice->0,
                    player2_character: sel.player2_choice->0,
                    ..pre.game_state
                }
                &&& acts == seq![
                    ServerAction::Broadcast(
                        ServerMessage::StartGameWithCharacters {
                            player1_character: sel.player1_choice->0,
                            player2_character: sel.player2_choice->0,
                        },
                    ),
                    ServerAction::SetPhase(GameStates::Next),
                ]
            } else {
                &&& post.game_state == pre.game_state
                &&& acts == Seq::<ServerAction>::empty()
            }
        },
        ClientMessage::PlayerMovementInput { player_id: pid, direction } => {
            &&& post.game_state == pre.game_state
            &&& post.selection == pre.selection
            &&& level_unchanged(pre, post)
            &&& if movement_capable(pre.game_state, pid) {
                acts == seq![
                    ServerAction::Broadcast(
                        ServerMessage::PlayerMovementUpdate { player_id: pid, direction },
                    ),
                ]
            } else {
                acts == Seq::<ServerAction>::empty()
            }
        },
        ClientMessage::NextLevelRequest => {
            let new_ix: usize = if pre.game_state.current_level.0 < usize::MAX {
                (pre.game_state.current_level.0 + 1) as usize
            } else {
                pre.game_state.current_level.0
            };
            &&& post.game_state == FullGameState {
                current_level: CurrentLevelIndex(new_ix),
                ..pre.game_state
            }
            &&& post.selection == pre.selection
            &&& level_unchanged(pre, post)
            &&& acts == seq![
                ServerAction::Broadcast(
                    ServerMessage::NextLevelNotification {
                        level_index: CurrentLevelIndex(new_ix),
                    },
                ),
            ]
        },
        ClientMessage::RestartLevel => {
            &&& post.game_state == pre.game_state
            &&& post.selection == pre.selection
            &&& level_unchanged(pre, post)
            &&& acts == seq![ServerAction::Broadcast(ServerMessage::DoRestartLevel)]
        },
        ClientMessage::UndoLevel => {
            &&& post.game_state == pre.game_state
            &&& post.selection == pre.selection
            &&& if pre.level_stack.0@.len() >= 2 {
                &&& post.level_stack.0@ == pre.level_stack.0@.drop_last()
                &&& post.level@ == undo_model(pre.level_stack.0@).1->0.deep_view()
                &&& post.bread_stack.0@ == (if pre.bread_stack.0@.len() >= 1 {
                    pre.bread_stack.0@.drop_last()
                } else {
                    pre.bread_stack.0@
                })
                &&& acts.len() == 1
                &&& acts[0] matches ServerAction::Broadcast(ServerMessage::DoUndoLevel(l)) && l@
                    == post.level@
            } else {
                &&& level_unchanged(pre, post)
                &&& acts == Seq::<ServerAction>::empty()
            }
        },
        ClientMessage::ChangeLevelCheat(ix) => {
            &&& post.game_state == pre.game_state
            &&& post.selection == pre.selection
            &&& level_unchanged(pre, post)
            &&& acts == seq![ServerAction::Broadcast(ServerMessage::DoChangeLevel(ix))]
        },
    }
}

/// Reacts to one reliable message from the client playing `player_id`: the
/// request's effect is applied to the server's own state, and the returned
/// actions say what to send, to whom, and on which channel. A movement claim
/// is relayed only after the coarse legality check of `movement_capable`;
/// the slide itself is resolved by each receiving peer, never recomputed
/// here.
pub fn handle_client_message(state: &mut ServerState, player_id: u8, msg: &ClientMessage) -> (acts:
    Vec<ServerAction>)
    ensures
        server_step(*old(state), player_id, *msg, *final(state), acts@),
{
    let mut acts: Vec<ServerAction> = Vec::new();
    match msg {
        ClientMessage::StateChangeRequest(new_state) => {
            state.game_state.current_state = *new_state;
            acts.push(ServerAction::SetPhase(*new_state));
            acts.push(
                ServerAction::Broadcast(ServerMessage::StateChangeNotification(*new_state)),
            );
            proof {
                assert(acts@ =~= seq![
                    ServerAction::SetPhase(*new_state),
                    ServerAction::Broadcast(ServerMessage::StateChangeNotification(*new_state)),
                ]);
            }
        },
        ClientMessage::PlayerPositionUpdate(w) => {
            let pid: u8 = if player_id == 1 {
                1
            } else {
                2
            };
            if player_id == 1 {
                state.game_state.player1_position = *w;
            } else {
                state.game_state.player2_position = *w;
            }
            acts.push(
                ServerAction::BroadcastUnreliable(
                    ServerMessage::PlayerPositionUpdate { player_id: pid, position: *w },
                ),
            );
            proof {
                assert(acts@ =~= seq![
                    ServerAction::BroadcastUnreliable(
                        ServerMessage::PlayerPositionUpdate { player_id: pid, position: *w },
                    ),
                ]);
            }
        },
        ClientMessage::RequestFullState => {
            acts.push(ServerAction::Reply(ServerMessage::FullStateSync(state.game_state)));
            proof {
                assert(acts@ =~= seq![
                    ServerAction::Reply(ServerMessage::FullStateSync(state.game_state)),
                ]);
            }
        },
        ClientMessage::CharacterSelected { player_id: pid, character } => {
            if *pid == 1 {
                state.selection.player1_choice = Some(*character);
            } else if *pid == 2 {
                state.selection.player2_choice = Some(*character);
            }
            acts.push(
                ServerAction::Broadcast(
                    ServerMessage::CharacterSelectionUpdate {
                        player1_choice: state.selection.player1_choice,
                        player2_choice: state.selection.player2_choice,
                    },
                ),
            );
            proof {
                assert(acts@ =~= seq![
                    ServerAction::Broadcast(
                        ServerMessage::CharacterSelectionUpdate {
                            player1_choice: state.selection.player1_choice,
                            player2_choice: state.selection.player2_choice,
                        },
                    ),
                ]);
            }
        },
        ClientMessage::ReadyForGameStart => {
            if player_id == 1 {
                state.selection.player1_ready = true;
            } else {
                state.selection.player2_ready = true;
            }
            if state.selection.player1_ready && state.selection.player2_ready {
                let choice1 = state.selection.player1_choice;
                let choice2 = state.selection.player2_choice;
                match (choice1, choice2) {
                    (Some(p1_char), Some(p2_char)) => {
                        acts.push(
                            ServerAction::Broadcast(
                                ServerMessage::StartGameWithCharacters {
                                    player1_character: p1_char,
                                    player2_character: p2_char,
                                },
                            ),
                        );
                        state.game_state.player1_character = p1_char;
                        state.game_state.player2_character = p2_char;
                        acts.push(ServerAction::SetPhase(GameStates::Next));
                        proof {
                            assert(acts@ =~= seq![
                                ServerAction::Broadcast(
                                    ServerMessage::StartGameWithCharacters {
                                        player1_character: p1_char,
                                        player2_character: p2_char,
                                    },
                                ),
                                ServerAction::SetPhase(GameStates::Next),
                            ]);
                        }
                    },
                    _ => {},
                }
            }
        },
        ClientMessage::PlayerMovementInput { player_id: pid, direction } => {
            let capable = if *pid == 1 {
                state.game_state.player1_can_move
            } else if *pid == 2 {
                state.game_state.player2_can_move
            } else {
                false
            };
            if capable {
                acts.push(
                    ServerAction::Broadcast(
                        ServerMessage::PlayerMovementUpdate {
                            player_id: *pid,
                            direction: *direction,
                        },
                    ),
                );
                proof {
                    assert(acts@ =~= seq![
                        ServerAction::Broadcast(
                            ServerMessage::PlayerMovementUpdate {
                                player_id: *pid,
                                direction: *direction,
                            },
                        ),
                    ]);
                }
            }
        },
        ClientMessage::NextLevelRequest => {
            if state.game_state.current_level.0 < usize::MAX {
                state.game_state.current_level.0 = state.game_state.current_level.0 + 1;
            }
            let new_level = state.game_state.current_level;
            acts.push(
                ServerAction::Broadcast(
                    ServerMessage::NextLevelNotification { level_index: new_level },
                ),
            );
            proof {
                assert(acts@ =~= seq![
                    ServerAction::Broadcast(
                        ServerMessage::NextLevelNotification { level_index: new_level },
                    ),
                ]);
            }
        },
        ClientMessage::RestartLevel => {
            acts.push(ServerAction::Broadcast(ServerMessage::DoRestartLevel));
            proof {
                assert(acts@ =~= seq![ServerAction::Broadcast(ServerMessage::DoRestartLevel)]);
            }
        },
        ClientMessage::UndoLevel => {
            match undo(&mut state.level_stack, &mut state.bread_stack) {
                Some(restored) => {
                    let copy = crate::level::clone_grid(&restored);
                    state.level = Level(restored);
                    acts.push(
                        ServerAction::Broadcast(ServerMessage::DoUndoLevel(Level(copy))),
                    );
                },
                None => {},
            }
        },
        ClientMessage::ChangeLevelCheat(ix) => {
            acts.push(ServerAction::Broadcast(ServerMessage::DoChangeLevel(*ix)));
            proof {
                assert(acts@ =~= seq![
                    ServerAction::Broadcast(ServerMessage::DoChangeLevel(*ix)),
                ]);
            }
        },
    }
    acts
}

/// Greets a connecting peer: the first free slot is assigned and the full
/// game state goes back to it at once; with both slots taken the peer is
/// refused (no slot, no messages) and the transport disconnects it.
pub fn handle_client_connected(lobby: &mut ServerLobby, game_state: &FullGameState) -> (r: (
    Option<PlayerType>,
    Vec<ServerAction>,
))
    ensures
        (final(lobby).players@, r.0) == assign_model(old(lobby).players@),
        r.0 is Some ==> r.1@ == seq![
            ServerAction::Reply(ServerMessage::FullStateSync(*game_state)),
        ],
        r.0 is None ==> r.1@ == Seq::<ServerAction>::empty(),
{
    let slot = assign_player_slot(lobby);
    let mut acts: Vec<ServerAction> = Vec::new();
    if slot.is_some() {
        acts.push(ServerAction::Reply(ServerMessage::FullStateSync(*game_state)));
        proof {
            assert(acts@ =~= seq![
                ServerAction::Reply(ServerMessage::FullStateSync(*game_state)),
            ]);
        }
    }
    (slot, acts)
}

/// Sees a peer off: its slot is freed and everyone is sent back toward the
/// menu.
pub fn handle_client_disconnected(lobby: &mut ServerLobby, p: PlayerType) -> (acts: Vec<
    ServerAction,
>)
    ensures
        final(lobby).players@ == release_model(old(lobby).players@, p),
        acts@ == seq![
            ServerAction::Broadcast(ServerMessage::StateChangeNotification(GameStates::GameMenu)),
        ],
{
    release_player_slot(lobby, p);
    let mut acts: Vec<ServerAction> = Vec::new();
    acts.push(
        ServerAction::Broadcast(ServerMessage::StateChangeNotification(GameStates::GameMenu)),
    );
    proof {
        assert(acts@ =~= seq![
            ServerAction::Broadcast(ServerMessage::StateChangeNotification(GameStates::GameMenu)),
        ]);
    }
    acts
}

} // verus!
