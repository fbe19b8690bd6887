//! The client's side of the session: a read-only mirror of the server's
//! state, updated only by received messages, plus the locally resolved
//! presentation effects of each message.
use vstd::prelude::*;
use crate::level::{
    load_level, ChangeLevelEvent, CurrentLevelIndex, Level, Levels, RestartLevelEvent,
    UndoLevelEvent,
};
use crate::messages::{
    ClientMessage, FullGameState, GameStates, RemotePlayerMove, SelectedCharacters, SelectionState,
    ServerMessage,
};
use crate::player::{ducks_in_level, grid_ducks, is_duck_cell, slip, walk, CommonDuck, Direction};
use crate::level::grid_rectangular;

verus! {

/// What a client mirrors of the session.
pub struct ClientState {
    /// The last full snapshot, patched by later notifications.
    pub game_state: FullGameState,
    /// The characters the start message fixed, if it arrived.
    pub selected_characters: SelectedCharacters,
    /// The choices and readiness seen so far.
    pub selection: SelectionState,
    /// The level this client believes is being played.
    pub current_level_index: CurrentLevelIndex,
    /// The engine phase this client is in.
    pub current_phase: GameStates,
}

impl Default for ClientState {
    fn default() -> (r: Self)
        ensures
            r.game_state.current_state is Loading,
            r.game_state.current_level.0 == 1,
            r.selected_characters.player1 is None && r.selected_characters.player2 is None,
            !r.selection.player1_ready && !r.selection.player2_ready,
            r.selection.player1_choice is None && r.selection.player2_choice is None,
            r.current_level_index.0 == 1,
            r.current_phase is Loading,
    {
        ClientState {
            game_state: FullGameState::default(),
            selected_characters: SelectedCharacters::default(),
            selection: SelectionState::default(),
            current_level_index: CurrentLevelIndex::default(),
            current_phase: GameStates::Loading,
        }
    }
}

/// What a received server message asks the presentation layer to do.
#[derive(Debug)]
pub enum ClientEffect {
    /// Move the local engine to this phase.
    SetPhase(GameStates),
    /// Re-place both ducks from this snapshot.
    ApplyFullState(FullGameState),
    /// Resolve this movement locally with the slide rule.
    RemoteMove(RemotePlayerMove),
    /// Reload the current level from scratch.
    RestartLevel(RestartLevelEvent),
    /// Replace the current level with this restored snapshot.
    UndoLevel(UndoLevelEvent),
    /// Jump to this level.
    ChangeLevel(ChangeLevelEvent),
}

/// What handling one server message does to the client mirror and which
/// effects the presentation layer must then apply.
pub open spec fn client_step(
    pre: ClientState,
    msg: ServerMessage,
    post: ClientState,
    effects: Seq<ClientEffect>,
) -> bool {
    match msg {
        ServerMessage::StateChangeNotification(new_state) => {
            if pre.current_phase != new_state {
                &&& post == ClientState {
                    current_phase: new_state,
                    game_state: FullGameState { current_state: new_state, ..pre.game_state },
                    ..pre
                }
                &&& effects == seq![ClientEffect::SetPhase(new_state)]
            } else {
                &&& post == pre
                &&& effects == Seq::<ClientEffect>::empty()
            }
        },
        ServerMessage::FullStateSync(full) => {
            &&& post.game_state == full
            &&& post.selected_characters == pre.selected_characters
            &&& post.selection == pre.selection
            &&& post.current_level_index == pre.current_level_index
            &&& if pre.current_phase != full.current_state {
                &&& post.current_phase == full.current_state
                &&& effects == seq![
                    ClientEffect::ApplyFullState(full),
                    ClientEffect::SetPhase(full.current_state),
                ]
            } else {
                &&& post.current_phase == pre.current_phase
                &&& effects == seq![ClientEffect::ApplyFullState(full)]
            }
        },
        ServerMessage::PlayerPositionUpdate { player_id, position } => {
            &&& post == ClientState {
                game_state: if player_id == 1 {
                    FullGameState { player1_position: position, ..pre.game_state }
                } else if player_id == 2 {
                    FullGameState { player2_position: position, ..pre.game_state }
                } else {
                    pre.game_state
                },
                ..pre
            }
            &&& effects == Seq::<ClientEffect>::empty()
        },
        ServerMessage::CharacterSelectionUpdate { player1_choice, player2_choice } => {
            &&& post == ClientState {
                selection: SelectionState { player1_choice, player2_choice, ..pre.selection },
                ..pre
            }
            &&& effects == Seq::<ClientEffect>::empty()
        },
        ServerMessage::StartGameWithCharacters { player1_character, player2_character } => {
            &&& post == ClientState {
                selected_characters: SelectedCharacters {
                    player1: Some(player1_character),
                    player2: Some(player2_character),
                },
                game_state: FullGameState {
                    player1_character,
                    player2_character,
                    ..pre.game_state
                },
                current_phase: GameStates::Next,
                ..pre
            }
            &&& effects == seq![ClientEffect::SetPhase(GameStates::Next)]
        },
        ServerMessage::PlayerMovementUpdate { player_id, direction } => {
            &&& post == pre
            &&& effects == seq![
                ClientEffect::RemoteMove(RemotePlayerMove { player_id, direction }),
            ]
        },
        ServerMessage::NextLevelNotification { level_index } => {
            &&& post == ClientState {
                current_level_index: level_index,
                current_phase: GameStates::Next,
                ..pre
            }
            &&& effects == seq![ClientEffect::SetPhase(GameStates::Next)]
        },
        ServerMessage::DoRestartLevel => {
            &&& post == pre
            &&& effects == seq![ClientEffect::RestartLevel(RestartLevelEvent)]
        },
        ServerMessage::DoUndoLevel(l) => {
            &&& post == pre
            &&& effects.len() == 1
            &&& effects[0] matches ClientEffect::UndoLevel(e) && e.level_data@ == l@
        },
        ServerMessage::DoChangeLevel(ix) => {
            &&& post == pre
            &&& effects == seq![ClientEffect::ChangeLevel(ChangeLevelEvent { index: ix })]
        },
    }
}

/// Applies one reliable server message to the client's mirror; the returned
/// effects tell the presentation layer what to do, in order.
pub fn handle_server_message(state: &mut ClientState, msg: ServerMessage) -> (effects: Vec<
    ClientEffect,
>)
    ensures
        client_step(*old(state), msg, *final(state), effects@),
{
    let mut effects: Vec<ClientEffect> = Vec::new();
    match msg {
        ServerMessage::StateChangeNotification(new_state) => {
            if !phase_eq(state.current_phase, new_state) {
                state.current_phase = new_state;
                state.game_state.current_state = new_state;
                effects.push(ClientEffect::SetPhase(new_state));
                proof {
                    assert(effects@ =~= seq![ClientEffect::SetPhase(new_state)]);
                }
            }
        },
        ServerMessage::FullStateSync(full) => {
            state.game_state = full;
            effects.push(ClientEffect::ApplyFullState(full));
            if !phase_eq(state.current_phase, full.current_state) {
                state.current_phase = full.current_state;
                effects.push(ClientEffect::SetPhase(full.current_state));
                proof {
                    assert(effects@ =~= seq![
                        ClientEffect::ApplyFullState(full),
                        ClientEffect::SetPhase(full.current_state),
                    ]);
                }
            } else {
                proof {
                    assert(effects@ =~= seq![ClientEffect::ApplyFullState(full)]);
                }
            }
        },
        ServerMessage::PlayerPositionUpdate { player_id, position } => {
            if player_id == 1 {
                state.game_state.player1_position = position;
            } else if player_id == 2 {
                state.game_state.player2_position = position;
            }
        },
        ServerMessage::CharacterSelectionUpdate { player1_choice, player2_choice } => {
            state.selection.player1_choice = player1_choice;
            state.selection.player2_choice = player2_choice;
        },
        ServerMessage::StartGameWithCharacters { player1_character, player2_character } => {
            state.selected_characters.player1 = Some(player1_character);
            state.selected_characters.player2 = Some(player2_character);
            state.game_state.player1_character = player1_character;
            state.game_state.player2_character = player2_character;
            state.current_phase = GameStates::Next;
            effects.push(ClientEffect::SetPhase(GameStates::Next));
            proof {
                assert(effects@ =~= seq![ClientEffect::SetPhase(GameStates::Next)]);
            }
        },
        ServerMessage::PlayerMovementUpdate { player_id, direction } => {
            effects.push(ClientEffect::RemoteMove(RemotePlayerMove { player_id, direction }));
            proof {
                assert(effects@ =~= seq![
                    ClientEffect::RemoteMove(RemotePlayerMove { player_id, direction }),
                ]);
            }
        },
        ServerMessage::NextLevelNotification { level_index } => {
            state.current_level_index = level_index;
            state.current_phase = GameStates::Next;
            effects.push(ClientEffect::SetPhase(GameStates::Next));
            proof {
                assert(effects@ =~= seq![ClientEffect::SetPhase(GameStates::Next)]);
            }
        },
        ServerMessage::DoRestartLevel => {
            effects.push(ClientEffect::RestartLevel(RestartLevelEvent));
            proof {
                assert(effects@ =~= seq![ClientEffect::RestartLevel(RestartLevelEvent)]);
            }
        },
        ServerMessage::DoUndoLevel(l) => {
            effects.push(ClientEffect::UndoLevel(UndoLevelEvent { level_data: l }));
        },
        ServerMessage::DoChangeLevel(ix) => {
            effects.push(ClientEffect::ChangeLevel(ChangeLevelEvent { index: ix }));
            proof {
                assert(effects@ =~= seq![
                    ClientEffect::ChangeLevel(ChangeLevelEvent { index: ix }),
                ]);
            }
        },
    }
    effects
}

/// Two phases are the same.
fn phase_eq(a: GameStates, b: GameStates) -> (r: bool)
    ensures
        r == (a == b),
{
    a == b
}

/// Resolves a relayed movement locally: an immobile duck ignores it;
/// otherwise the duck slides by the shared rule, its recorded cell moves to
/// the end of the slide, and the end cell is returned.
pub fn apply_remote_move(duck: &mut CommonDuck, direction: Direction, level: &mut Level) -> (moved:
    Option<(usize, usize)>)
    requires
        grid_rectangular(old(level)@),
        (old(duck).logic_position.0 as int) < old(level)@.len(),
        (old(duck).logic_position.1 as int) < old(level)@[old(duck).logic_position.0 as int].len(),
        is_duck_cell(
            old(level)@[old(duck).logic_position.0 as int][old(duck).logic_position.1 as int],
        ),
        old(duck).bread_count < u32::MAX,
    ensures
        !old(duck).can_move ==> moved is None && *final(duck) == *old(duck) && final(level)@ == old(
            level,
        )@,
        old(duck).can_move ==> ({
            let e = walk(
                old(level)@,
                (old(duck).logic_position.0 as int, old(duck).logic_position.1 as int),
                direction,
            );
            &&& moved is Some
            &&& (moved->0).0 == e.0 && (moved->0).1 == e.1
            &&& final(duck).logic_position == moved->0
            &&& final(duck).bread_count == old(duck).bread_count + (if old(level)@[e.0][e.1] == 'B' {
                1int
            } else {
                0int
            })
            &&& final(duck).can_move == (old(level)@[e.0][e.1] != '*')
            &&& final(level)@ == crate::player::slip_result_grid(
                old(level)@,
                old(duck).logic_position.0 as int,
                old(duck).logic_position.1 as int,
                e.0,
                e.1,
                final(duck).bread_count,
                final(duck).can_move,
            )
        }),
{
    if !duck.can_move {
        return None;
    }
    let end = slip(duck, direction, level);
    duck.logic_position = end;
    Some(end)
}

/// The level-skip keys: one step back only above level one, one step
/// forward; the move is taken, and announced to the server, only when the
/// target level exists in the table.
pub fn send_change_level_request(
    level_index: &mut CurrentLevelIndex,
    decrease: bool,
    increase: bool,
    levels: &Levels,
) -> (r: Option<ClientMessage>)
    ensures
        ({
            let stepped_down: usize = if decrease && old(level_index).0 > 1 {
                (old(level_index).0 - 1) as usize
            } else {
                old(level_index).0
            };
            let target: usize = if increase && stepped_down < usize::MAX {
                (stepped_down + 1) as usize
            } else {
                stepped_down
            };
            if target != old(level_index).0 && 1 <= target <= levels.levels@.len() {
                &&& final(level_index).0 == target
                &&& r == Some(ClientMessage::ChangeLevelCheat(CurrentLevelIndex(target)))
            } else {
                &&& final(level_index).0 == old(level_index).0
                &&& r is None
            }
        }),
{
    let mut new_index = level_index.0;
    if decrease && new_index > 1 {
        new_index = new_index - 1;
    }
    if increase && new_index < usize::MAX {
        new_index = new_index + 1;
    }
    if new_index != level_index.0 {
        if load_level(new_index, levels).is_ok() {
            level_index.0 = new_index;
            return Some(ClientMessage::ChangeLevelCheat(CurrentLevelIndex(new_index)));
        }
    }
    None
}

/// Applies a received undo snapshot: the current level becomes exactly the
/// broadcast grid, and the ducks to present are respawned from it, so the
/// shown state equals the restored snapshot.
pub fn apply_undo_event(level: &mut Level, e: UndoLevelEvent) -> (ducks: Vec<CommonDuck>)
    ensures
        final(level)@ == e.level_data@,
        ducks@ == grid_ducks(e.level_data@),
{
    *level = e.level_data;
    ducks_in_level(level)
}

/// The completion check: winning the last level of the table moves the
/// session to the celebration phase; winning any other level does not change
/// the phase here.
pub fn completion_phase(level_index: &CurrentLevelIndex, levels: &Levels) -> (r: Option<
    GameStates,
>)
    ensures
        r is Some <==> level_index.0 == levels.levels@.len(),
        r is Some ==> r->0 is Celebration,
{
    if level_index.0 == levels.levels.len() {
        Some(GameStates::Celebration)
    } else {
        None
    }
}

/// The next-level button's guard: an index that no longer loads (one past
/// the table after the last level was finished) is rolled back one step.
pub fn validate_level_index(level_index: &mut CurrentLevelIndex, levels: &Levels) -> (rolled_back:
    bool)
    ensures
        rolled_back == !(1 <= old(level_index).0 <= levels.levels@.len()),
        rolled_back ==> final(level_index).0 == (if old(level_index).0 > 0 {
            (old(level_index).0 - 1) as usize
        } else {
            0usize
        }),
        !rolled_back ==> final(level_index).0 == old(level_index).0,
{
    if load_level(level_index.0, levels).is_err() {
        if level_index.0 > 0 {
            level_index.0 = level_index.0 - 1;
        }
        true
    } else {
        false
    }
}

} // verus!
