use ice_ducks::history::{undo, BreadSumRecordStack, LevelStack};
use ice_ducks::level::{
    count_breads, load_level, parse_level_text, GameError, Level, Levels, SymbolType,
};
use ice_ducks::player::{
    calculate_move, collide_with_object, ducks_in_level, ducks_to_shake, is_valid_move, slip,
    CommonDuck, Direction, ShakeOtherDucksInDir,
};

fn grid(rows: &[&str]) -> Vec<Vec<char>> {
    rows.iter().map(|r| r.chars().collect()).collect()
}

fn duck_at(r: usize, c: usize) -> CommonDuck {
    CommonDuck {
        logic_position: (r, c),
        can_move: true,
        bread_count: 0,
    }
}

#[test]
fn symbols_are_the_nine_cell_characters() {
    assert_eq!(SymbolType::Wall.get_symbol(), '@');
    assert_eq!(SymbolType::Ice.get_symbol(), '#');
    assert_eq!(SymbolType::BrokenIce.get_symbol(), '^');
    assert_eq!(SymbolType::DuckOnIce.get_symbol(), 'D');
    assert_eq!(SymbolType::StuffedDuckOnIce.get_symbol(), 'Q');
    assert_eq!(SymbolType::BreadOnIce.get_symbol(), 'B');
    assert_eq!(SymbolType::BreakingIce.get_symbol(), '*');
    assert_eq!(SymbolType::DuckOnWater.get_symbol(), 'P');
    assert_eq!(SymbolType::DuckOnBreakingIce.get_symbol(), 'O');
}

#[test]
fn load_level_dimensions_match_source_text() {
    let levels = Levels::default();
    assert_eq!(levels.levels.len(), 13);
    for index in 1..=13usize {
        let text = levels.levels[index - 1].clone();
        let lvl = load_level(index, &levels).expect("valid index must load");
        let lines: Vec<&str> = text.lines().collect();
        assert_eq!(lvl.0.len(), lines.len());
        for (row, line) in lvl.0.iter().zip(lines.iter()) {
            assert_eq!(row.len(), line.chars().count());
        }
    }
}

#[test]
fn load_level_is_idempotent() {
    let levels = Levels::default();
    let a = load_level(5, &levels).unwrap();
    let b = load_level(5, &levels).unwrap();
    assert_eq!(a.0, b.0);
}

#[test]
fn load_level_rejects_zero_and_one_past_the_end() {
    let levels = Levels::default();
    let n = levels.levels.len();
    assert!(matches!(load_level(0, &levels), Err(GameError::InvalidLevelIndex)));
    assert!(matches!(load_level(n + 1, &levels), Err(GameError::InvalidLevelIndex)));
    // A failed load returns nothing and touches nothing: a previously loaded
    // level stays as it was.
    let before = load_level(2, &levels).unwrap();
    let _ = load_level(0, &levels);
    let after = load_level(2, &levels).unwrap();
    assert_eq!(before.0, after.0);
}

#[test]
fn parse_level_text_splits_lines_and_strips_carriage_returns() {
    assert_eq!(parse_level_text(""), Vec::<Vec<char>>::new());
    assert_eq!(parse_level_text("ab\r\ncd\n"), grid(&["ab", "cd"]));
    assert_eq!(parse_level_text("@#\n\n#@"), grid(&["@#", "", "#@"]));
    assert_eq!(parse_level_text("xy"), grid(&["xy"]));
}

#[test]
fn count_breads_counts_exactly_the_bread_cells() {
    let lvl = Level(grid(&["@@@@", "@BB@", "@#B@", "@@@@"]));
    assert_eq!(count_breads(&lvl), 3);
    let none = Level(grid(&["@@", "@@"]));
    assert_eq!(count_breads(&none), 0);
}

#[test]
fn slide_right_stops_adjacent_to_wall_and_swaps_symbols() {
    // A duck sliding right through two empty ice cells then a wall stops
    // next to the wall; the vacated cell reverts to ice, the end cell shows
    // the duck.
    let mut lvl = Level(grid(&["@@@@@", "@D##@", "@@@@@"]));
    let mut duck = duck_at(1, 1);
    let end = slip(&mut duck, Direction::Right, &mut lvl);
    assert_eq!(end, (1, 3));
    assert_eq!(lvl.0[1], "@##D@".chars().collect::<Vec<char>>());
    assert_eq!(duck.bread_count, 0);
    assert!(duck.can_move);
}

#[test]
fn slide_onto_bread_stops_there_and_eats_it() {
    // Bread stops the slide on its own cell, feeds the duck, and the bread
    // marker is gone: the cell now shows a stuffed duck.
    let mut lvl = Level(grid(&["@@@@@@", "@D#B#@", "@@@@@@"]));
    let mut duck = duck_at(1, 1);
    let end = slip(&mut duck, Direction::Right, &mut lvl);
    assert_eq!(end, (1, 3));
    assert_eq!(duck.bread_count, 1);
    assert_eq!(lvl.0[1], "@##Q#@".chars().collect::<Vec<char>>());
}

#[test]
fn slide_onto_breaking_ice_traps_the_duck() {
    let mut lvl = Level(grid(&["@@@@@", "@D#*@", "@@@@@"]));
    let mut duck = duck_at(1, 1);
    let end = slip(&mut duck, Direction::Right, &mut lvl);
    assert_eq!(end, (1, 3));
    assert!(!duck.can_move);
    assert_eq!(lvl.0[1], "@##P@".chars().collect::<Vec<char>>());
}

#[test]
fn slide_in_each_direction_stops_at_walls() {
    let mut lvl = Level(grid(&["@@@@@", "@###@", "@#D#@", "@###@", "@@@@@"]));
    let mut duck = duck_at(2, 2);
    let end = slip(&mut duck, Direction::Up, &mut lvl);
    assert_eq!(end, (1, 2));
    duck.logic_position = end;
    let end = slip(&mut duck, Direction::Left, &mut lvl);
    assert_eq!(end, (1, 1));
    duck.logic_position = end;
    let end = slip(&mut duck, Direction::Down, &mut lvl);
    assert_eq!(end, (3, 1));
    duck.logic_position = end;
    let end = slip(&mut duck, Direction::Right, &mut lvl);
    assert_eq!(end, (3, 3));
}

#[test]
fn blocked_duck_stays_put() {
    let mut lvl = Level(grid(&["@@@", "@D@", "@@@"]));
    let mut duck = duck_at(1, 1);
    let end = slip(&mut duck, Direction::Right, &mut lvl);
    assert_eq!(end, (1, 1));
    // The cell is rewritten in place and still shows the duck.
    assert_eq!(lvl.0[1], "@D@".chars().collect::<Vec<char>>());
}

#[test]
fn another_duck_blocks_a_slide() {
    let mut lvl = Level(grid(&["@@@@@@", "@D##Q@", "@@@@@@"]));
    let mut duck = duck_at(1, 1);
    let end = slip(&mut duck, Direction::Right, &mut lvl);
    assert_eq!(end, (1, 3));
    assert_eq!(lvl.0[1], "@##DQ@".chars().collect::<Vec<char>>());
}

#[test]
fn vacating_mid_break_ice_leaves_breaking_ice() {
    let mut lvl = Level(grid(&["@@@@", "@O#@", "@@@@"]));
    let mut duck = CommonDuck {
        logic_position: (1, 1),
        can_move: true,
        bread_count: 0,
    };
    let end = slip(&mut duck, Direction::Right, &mut lvl);
    assert_eq!(end, (1, 2));
    assert_eq!(lvl.0[1], "@*D@".chars().collect::<Vec<char>>());
}

#[test]
fn is_valid_move_rejects_walls_and_ducks_only() {
    assert!(!is_valid_move('@'));
    assert!(!is_valid_move('D'));
    assert!(!is_valid_move('P'));
    assert!(!is_valid_move('O'));
    assert!(!is_valid_move('Q'));
    assert!(is_valid_move('#'));
    assert!(is_valid_move('^'));
    assert!(is_valid_move('B'));
    assert!(is_valid_move('*'));
}

#[test]
fn collide_with_object_feeds_or_traps() {
    let mut duck = duck_at(0, 0);
    assert!(collide_with_object('B', &mut duck));
    assert_eq!(duck.bread_count, 1);
    assert!(duck.can_move);
    assert!(collide_with_object('*', &mut duck));
    assert!(!duck.can_move);
    assert_eq!(duck.bread_count, 1);
    let mut fresh = duck_at(0, 0);
    assert!(!collide_with_object('#', &mut fresh));
    assert_eq!(fresh.bread_count, 0);
    assert!(fresh.can_move);
}

#[test]
fn undo_restores_previous_snapshots_and_rejects_a_third() {
    let p1 = grid(&["@@", "D#"]);
    let p2 = grid(&["@@", "#D"]);
    let p3 = grid(&["@@", "DD"]);
    let mut level_stack = LevelStack::default();
    let mut bread_stack = BreadSumRecordStack::default();
    level_stack.0.push(p1.clone());
    bread_stack.0.push(Vec::new());
    level_stack.0.push(p2.clone());
    bread_stack.0.push(Vec::new());
    level_stack.0.push(p3.clone());
    bread_stack.0.push(Vec::new());
    let first = undo(&mut level_stack, &mut bread_stack);
    assert_eq!(first, Some(p2));
    let second = undo(&mut level_stack, &mut bread_stack);
    assert_eq!(second, Some(p1));
    let third = undo(&mut level_stack, &mut bread_stack);
    assert_eq!(third, None);
    assert_eq!(level_stack.0.size(), 1);
}

#[test]
fn ducks_in_level_lists_ducks_in_row_major_order() {
    let lvl = Level(grid(&["@@@@", "@D#@", "@#Q@", "@@@@"]));
    let ducks = ducks_in_level(&lvl);
    assert_eq!(ducks.len(), 2);
    // The first duck found belongs to player one, the second to player two.
    assert_eq!(ducks[0].logic_position, (1, 1));
    assert_eq!(ducks[0].bread_count, 0);
    assert!(ducks[0].can_move);
    assert_eq!(ducks[1].logic_position, (2, 2));
    assert_eq!(ducks[1].bread_count, 1);
}

#[test]
fn ducks_to_shake_collects_the_contiguous_run() {
    let lvl = Level(grid(&["@@@@@@", "@DQP#@", "@@@@@@"]));
    let run = ducks_to_shake(
        &lvl,
        &ShakeOtherDucksInDir { direction: Direction::Right, player_logic_position: (1, 1) },
    );
    assert_eq!(run, vec![(1, 2), (1, 3)]);
    let none = ducks_to_shake(
        &lvl,
        &ShakeOtherDucksInDir { direction: Direction::Right, player_logic_position: (1, 4) },
    );
    assert_eq!(none, Vec::<(usize, usize)>::new());
}

#[test]
fn calculate_move_steps_one_cell() {
    let lvl = Level(grid(&["@@@@", "@##@", "@##@", "@@@@"]));
    assert_eq!(calculate_move((1, 1), Direction::Down, &lvl), (2, 1));
    assert_eq!(calculate_move((1, 1), Direction::Right, &lvl), (1, 2));
    assert_eq!(calculate_move((1, 1), Direction::Up, &lvl), (0, 1));
    assert_eq!(calculate_move((0, 0), Direction::Up, &lvl), (0, 0));
    assert_eq!(calculate_move((0, 0), Direction::Left, &lvl), (0, 0));
}
