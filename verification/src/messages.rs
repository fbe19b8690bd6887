//! The values server and clients exchange: session phases, character
//! choices, player slots, positions, and the two closed message enums of the
//! wire protocol.
use vstd::prelude::*;
use crate::level::{CurrentLevelIndex, Level};
use crate::player::Direction;

verus! {

/// Coarse game phase, mirrored between server and clients.
#[derive(Clone, Copy, Debug, PartialEq, Eq, Hash, Structural)]
pub enum GameStates {
    Loading,
    GameMenu,
    CharacterSelection,
    Next,
    Celebration,
}

impl Default for GameStates {
    fn default() -> (r: Self)
        ensures
            r is Loading,
    {
        GameStates::Loading
    }
}

/// The playable characters a player may pick.
#[derive(Clone, Copy, Debug, PartialEq, Eq, Structural)]
pub enum CharacterType {
    Duck,
    Cat,
    Chick,
    Bunny,
}

impl Default for CharacterType {
    fn default() -> (r: Self)
        ensures
            r is Duck,
    {
        CharacterType::Duck
    }
}

/// Which characters the two players have picked, if any.
#[derive(Clone, Copy, Debug)]
pub struct SelectedCharacters {
    pub player1: Option<CharacterType>,
    pub player2: Option<CharacterType>,
}

impl Default for SelectedCharacters {
    fn default() -> (r: Self)
        ensures
            r.player1 is None,
            r.player2 is None,
    {
        SelectedCharacters { player1: None, player2: None }
    }
}

/// The two player slots a session offers.
#[derive(Clone, Copy, Debug, PartialEq, Eq, Structural)]
pub enum PlayerType {
    Player1,
    Player2,
}

impl PlayerType {
    pub fn is_player1(&self) -> (r: bool)
        ensures
            r == (*self is Player1),
    {
        match self {
            PlayerType::Player1 => true,
            PlayerType::Player2 => false,
        }
    }
}

/// A world-space position as the renderer's three 32-bit float coordinates,
/// carried as their raw bit patterns: the logic never interprets them, it
/// only relays them, so an exact round trip is all that matters.
#[derive(Clone, Copy, Debug, PartialEq, Eq, Structural)]
pub struct WorldPos {
    pub x_bits: u32,
    pub y_bits: u32,
    pub z_bits: u32,
}

impl Default for WorldPos {
    fn default() -> (r: Self)
        ensures
            r.x_bits == 0 && r.y_bits == 0 && r.z_bits == 0,
    {
        WorldPos { x_bits: 0, y_bits: 0, z_bits: 0 }
    }
}

/// The two logical channels of the connection, client side: channel 0 is
/// reliable and ordered, channel 1 may drop or reorder.
#[derive(Debug)]
pub struct ClientChannels {
    pub reliable_ordered: u8,
    pub unreliable: u8,
}

impl Default for ClientChannels {
    fn default() -> (r: Self)
        ensures
            r.reliable_ordered == 0,
            r.unreliable == 1,
    {
        ClientChannels { reliable_ordered: 0, unreliable: 1 }
    }
}

/// The two logical channels of the connection, server side.
#[derive(Debug)]
pub struct ServerChannels {
    pub reliable_ordered: u8,
    pub unreliable: u8,
}

impl Default for ServerChannels {
    fn default() -> (r: Self)
        ensures
            r.reliable_ordered == 0,
            r.unreliable == 1,
    {
        ServerChannels { reliable_ordered: 0, unreliable: 1 }
    }
}

/// What a client sends to the server.
#[derive(Clone, Copy, Debug)]
pub enum ClientMessage {
    /// Ask the server to move the session to another phase.
    StateChangeRequest(GameStates),
    /// Report this client's world-space position.
    PlayerPositionUpdate(WorldPos),
    /// Ask for a full snapshot of the game state.
    RequestFullState,
    /// Record a character choice for a player slot.
    CharacterSelected { player_id: u8, character: CharacterType },
    /// Declare this client ready to start.
    ReadyForGameStart,
    /// Claim a directional input for a player slot.
    PlayerMovementInput { player_id: u8, direction: Direction },
    /// Ask to advance to the next level.
    NextLevelRequest,
    /// Ask to reload the current level from scratch.
    RestartLevel,
    /// Ask to pop the level history one step.
    UndoLevel,
    /// Jump straight to a level (cheat).
    ChangeLevelCheat(CurrentLevelIndex),
}

/// Everything a client needs to mirror the session: sent whole on connect or
/// on request.
#[derive(Clone, Copy, Debug)]
pub struct FullGameState {
    pub current_state: GameStates,
    pub player1_position: WorldPos,
    pub player2_position: WorldPos,
    pub player1_character: CharacterType,
    pub player2_character: CharacterType,
    pub player1_logic_pos: (usize, usize),
    pub player2_logic_pos: (usize, usize),
    pub player1_bread: u32,
    pub player2_bread: u32,
    pub player1_can_move: bool,
    pub player2_can_move: bool,
    pub current_level: CurrentLevelIndex,
}

impl Default for FullGameState {
    fn default() -> (r: Self)
        ensures
            r.current_state is Loading,
            r.player1_position == (WorldPos { x_bits: 0, y_bits: 0, z_bits: 0 }),
            r.player2_position == (WorldPos { x_bits: 0, y_bits: 0, z_bits: 0 }),
            r.player1_character is Duck,
            r.player2_character is Duck,
            r.player1_logic_pos == (0usize, 0usize),
            r.player2_logic_pos == (0usize, 0usize),
            r.player1_bread == 0,
            r.player2_bread == 0,
            !r.player1_can_move,
            !r.player2_can_move,
            r.current_level.0 == 1,
    {
        FullGameState {
            current_state: GameStates::Loading,
            player1_position: WorldPos { x_bits: 0, y_bits: 0, z_bits: 0 },
            player2_position: WorldPos { x_bits: 0, y_bits: 0, z_bits: 0 },
            player1_character: CharacterType::Duck,
            player2_character: CharacterType::Duck,
            player1_logic_pos: (0, 0),
            player2_logic_pos: (0, 0),
            player1_bread: 0,
            player2_bread: 0,
            player1_can_move: false,
            player2_can_move: false,
            current_level: CurrentLevelIndex(1),
        }
    }
}

/// What the server sends to clients.
#[derive(Clone, Debug)]
pub enum ServerMessage {
    /// The session moved to another phase.
    StateChangeNotification(GameStates),
    /// A full snapshot of the game state.
    FullStateSync(FullGameState),
    /// A player's world-space position changed.
    PlayerPositionUpdate { player_id: u8, position: WorldPos },
    /// The recorded character choices changed.
    CharacterSelectionUpdate {
        player1_choice: Option<CharacterType>,
        player2_choice: Option<CharacterType>,
    },
    /// Both players are ready: start playing with these characters.
    StartGameWithCharacters { player1_character: CharacterType, player2_character: CharacterType },
    /// A player's claimed movement input, relayed to every client.
    PlayerMovementUpdate { player_id: u8, direction: Direction },
    /// The session advanced to this level.
    NextLevelNotification { level_index: CurrentLevelIndex },
    /// Reload the current level from scratch.
    DoRestartLevel,
    /// Replace the current level with this restored snapshot.
    DoUndoLevel(Level),
    /// Jump to this level.
    DoChangeLevel(CurrentLevelIndex),
}

/// The server's record of choices and readiness during character selection.
#[derive(Clone, Copy, Debug)]
pub struct SelectionState {
    pub player1_ready: bool,
    pub player2_ready: bool,
    pub player1_choice: Option<CharacterType>,
    pub player2_choice: Option<CharacterType>,
}

impl Default for SelectionState {
    fn default() -> (r: Self)
        ensures
            !r.player1_ready,
            !r.player2_ready,
            r.player1_choice is None,
            r.player2_choice is None,
    {
        SelectionState {
            player1_ready: false,
            player2_ready: false,
            player1_choice: None,
            player2_choice: None,
        }
    }
}

/// A movement update received from the server, to be resolved locally.
#[derive(Clone, Copy, Debug)]
pub struct RemotePlayerMove {
    pub player_id: u8,
    pub direction: Direction,
}

/// Which channel a client message travels on: position updates may be lost
/// or reordered without harm, everything else must arrive exactly once and
/// in order.
pub open spec fn spec_client_channel(m: ClientMessage) -> u8 {
    match m {
        ClientMessage::PlayerPositionUpdate(_) => 1,
        _ => 0,
    }
}

pub fn channel_for_client_message(m: &ClientMessage) -> (ch: u8)
    ensures
        ch == spec_client_channel(*m),
{
    match m {
        ClientMessage::PlayerPositionUpdate(_) => 1,
        _ => 0,
    }
}

/// Which channel a server message travels on: relayed position updates are
/// loss-tolerant, everything else is state-critical.
pub open spec fn spec_server_channel(m: ServerMessage) -> u8 {
    match m {
        ServerMessage::PlayerPositionUpdate { .. } => 1,
        _ => 0,
    }
}

pub fn channel_for_server_message(m: &ServerMessage) -> (ch: u8)
    ensures
        ch == spec_server_channel(*m),
{
    match m {
        ServerMessage::PlayerPositionUpdate { .. } => 1,
        _ => 0,
    }
}

/// The mathematical shape of a `ServerMessage`: the one non-scalar payload,
/// the restored level of `DoUndoLevel`, becomes its grid of cells.
pub enum ServerMessageV {
    StateChangeNotification(GameStates),
    FullStateSync(FullGameState),
    PlayerPositionUpdate { player_id: u8, position: WorldPos },
    CharacterSelectionUpdate {
        player1_choice: Option<CharacterType>,
        player2_choice: Option<CharacterType>,
    },
    StartGameWithCharacters { player1_character: CharacterType, player2_character: CharacterType },
    PlayerMovementUpdate { player_id: u8, direction: Direction },
    NextLevelNotification { level_index: CurrentLevelIndex },
    DoRestartLevel,
    DoUndoLevel(Seq<Seq<char>>),
    DoChangeLevel(CurrentLevelIndex),
}

impl View for ServerMessage {
    type V = ServerMessageV;

    open spec fn view(&self) -> ServerMessageV {
        match *self {
            ServerMessage::StateChangeNotification(g) => ServerMessageV::StateChangeNotification(
                g,
            ),
            ServerMessage::FullStateSync(f) => ServerMessageV::FullStateSync(f),
            ServerMessage::PlayerPositionUpdate { player_id, position } => {
                ServerMessageV::PlayerPositionUpdate { player_id, position }
            },
            ServerMessage::CharacterSelectionUpdate { player1_choice, player2_choice } => {
                ServerMessageV::CharacterSelectionUpdate { player1_choice, player2_choice }
            },
            ServerMessage::StartGameWithCharacters { player1_character, player2_character } => {
                ServerMessageV::StartGameWithCharacters { player1_character, player2_character }
            },
            ServerMessage::PlayerMovementUpdate { player_id, direction } => {
                ServerMessageV::PlayerMovementUpdate { player_id, direction }
            },
            ServerMessage::NextLevelNotification { level_index } => {
                ServerMessageV::NextLevelNotification { level_index }
            },
            ServerMessage::DoRestartLevel => ServerMessageV::DoRestartLevel,
            ServerMessage::DoUndoLevel(l) => ServerMessageV::DoUndoLevel(l@),
            ServerMessage::DoChangeLevel(ix) => ServerMessageV::DoChangeLevel(ix),
        }
    }
}

} // verus!
