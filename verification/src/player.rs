//! Ducks and the slide rule: a duck slides cell by cell in one direction
//! until a wall or another duck blocks it, stopping early on bread (eaten)
//! or on breaking ice (which traps it).
use vstd::prelude::*;
use vstd::pervasive::VecAdditionalExecFns;
use crate::level::{Level, grid_rectangular, lemma_grid_deep_view_index};

verus! {

/// A direction of a slide across the ice.
#[derive(Clone, Copy, Debug, PartialEq, Eq, Structural)]
pub enum Direction {
    Up,
    Down,
    Left,
    Right,
}

/// What a duck knows about itself and lets the movement code change.
pub trait Duck {
    /// The cell the duck stands on.
    spec fn position_spec(&self) -> (usize, usize);

    /// How many breads the duck has eaten.
    spec fn bread_count_spec(&self) -> u32;

    /// Whether the duck can still move (breaking ice traps it).
    spec fn can_move_spec(&self) -> bool;

    fn get_logic_position(&self) -> (p: (usize, usize))
        ensures
            p == self.position_spec(),
    ;

    fn get_bread_count(&self) -> (n: u32)
        ensures
            n == self.bread_count_spec(),
    ;

    fn can_move(&self) -> (b: bool)
        ensures
            b == self.can_move_spec(),
    ;

    fn set_logic_position(&mut self, position: (usize, usize))
        ensures
            final(self).position_spec() == position,
            final(self).bread_count_spec() == old(self).bread_count_spec(),
            final(self).can_move_spec() == old(self).can_move_spec(),
    ;

    fn set_can_move(&mut self, can_move: bool)
        ensures
            final(self).can_move_spec() == can_move,
            final(self).position_spec() == old(self).position_spec(),
            final(self).bread_count_spec() == old(self).bread_count_spec(),
    ;

    fn eat_bread(&mut self)
        requires
            old(self).bread_count_spec() < u32::MAX,
        ensures
            final(self).bread_count_spec() == old(self).bread_count_spec() + 1,
            final(self).position_spec() == old(self).position_spec(),
            final(self).can_move_spec() == old(self).can_move_spec(),
    ;
}

/// The one duck kind the game has.
#[derive(Clone, Copy, Debug)]
pub struct CommonDuck {
    pub logic_position: (usize, usize),
    pub can_move: bool,
    pub bread_count: u32,
}

impl Duck for CommonDuck {
    open spec fn position_spec(&self) -> (usize, usize) {
        self.logic_position
    }

    open spec fn bread_count_spec(&self) -> u32 {
        self.bread_count
    }

    open spec fn can_move_spec(&self) -> bool {
        self.can_move
    }

    fn get_logic_position(&self) -> (p: (usize, usize)) {
        self.logic_position
    }

    fn get_bread_count(&self) -> (n: u32) {
        self.bread_count
    }

    fn can_move(&self) -> (b: bool) {
        self.can_move
    }

    fn set_logic_position(&mut self, position: (usize, usize)) {
        self.logic_position = position;
    }

    fn set_can_move(&mut self, can_move: bool) {
        self.can_move = can_move;
    }

    fn eat_bread(&mut self) {
        self.bread_count = self.bread_count + 1;
    }
}

/// The first duck found in a level is driven by player one, the second by
/// player two.
#[derive(Clone, Copy, Debug, PartialEq, Eq, Structural)]
pub struct Player1;

#[derive(Clone, Copy, Debug, PartialEq, Eq, Structural)]
pub struct Player2;

/// Cells a duck can never enter: walls and cells already holding a duck.
pub open spec fn blocks_entry(c: char) -> bool {
    c == '@' || c == 'D' || c == 'P' || c == 'O' || c == 'Q'
}

/// Cells that end a slide as soon as they are entered: bread (eaten there)
/// and breaking ice (which traps the duck).
pub open spec fn stops_slide(c: char) -> bool {
    c == 'B' || c == '*'
}

/// Cells that hold a duck in some state.
pub open spec fn is_duck_cell(c: char) -> bool {
    c == 'D' || c == 'P' || c == 'O' || c == 'Q'
}

/// A duck may slide into a cell showing this symbol.
pub fn is_valid_move(symbol: char) -> (r: bool)
    ensures
        r == !blocks_entry(symbol),
{
    symbol != '@' && symbol != 'D' && symbol != 'P' && symbol != 'O' && symbol != 'Q'
}

/// Applies what entering a cell with this symbol does to the duck, and says
/// whether the slide ends there: bread feeds the duck, breaking ice traps it.
pub fn collide_with_object(symbol: char, duck: &mut CommonDuck) -> (r: bool)
    requires
        symbol == 'B' ==> old(duck).bread_count < u32::MAX,
    ensures
        r == stops_slide(symbol),
        final(duck).logic_position == old(duck).logic_position,
        symbol == 'B' ==> final(duck).bread_count == old(duck).bread_count + 1
            && final(duck).can_move == old(duck).can_move,
        symbol == '*' ==> final(duck).can_move == false
            && final(duck).bread_count == old(duck).bread_count,
        !stops_slide(symbol) ==> *final(duck) == *old(duck),
{
    if symbol == 'B' {
        duck.eat_bread();
        return true;
    }
    if symbol == '*' {
        duck.set_can_move(false);
        return true;
    }
    false
}

/// Final row of a slide upward from `(r, c)`.
pub open spec fn walk_up(g: Seq<Seq<char>>, r: int, c: int) -> int
    decreases r,
{
    if r > 0 && !blocks_entry(g[r - 1][c]) {
        if stops_slide(g[r - 1][c]) {
            r - 1
        } else {
            walk_up(g, r - 1, c)
        }
    } else {
        r
    }
}

/// Final row of a slide downward from `(r, c)`.
pub open spec fn walk_down(g: Seq<Seq<char>>, r: int, c: int) -> int
    decreases g.len() - r,
{
    if r + 1 < g.len() && !blocks_entry(g[r + 1][c]) {
        if stops_slide(g[r + 1][c]) {
            r + 1
        } else {
            walk_down(g, r + 1, c)
        }
    } else {
        r
    }
}

/// Final column of a slide leftward from `(r, c)`.
pub open spec fn walk_left(g: Seq<Seq<char>>, r: int, c: int) -> int
    decreases c,
{
    if c > 0 && !blocks_entry(g[r][c - 1]) {
        if stops_slide(g[r][c - 1]) {
            c - 1
        } else {
            walk_left(g, r, c - 1)
        }
    } else {
        c
    }
}

/// Final column of a slide rightward from `(r, c)`.
pub open spec fn walk_right(g: Seq<Seq<char>>, r: int, c: int) -> int
    decreases g[r].len() - c,
{
    if c + 1 < g[r].len() && !blocks_entry(g[r][c + 1]) {
        if stops_slide(g[r][c + 1]) {
            c + 1
        } else {
            walk_right(g, r, c + 1)
        }
    } else {
        c
    }
}

/// Where a slide from `pos` in direction `d` ends.
pub open spec fn walk(g: Seq<Seq<char>>, pos: (int, int), d: Direction) -> (int, int) {
    match d {
        Direction::Up => (walk_up(g, pos.0, pos.1), pos.1),
        Direction::Down => (walk_down(g, pos.0, pos.1), pos.1),
        Direction::Left => (pos.0, walk_left(g, pos.0, pos.1)),
        Direction::Right => (pos.0, walk_right(g, pos.0, pos.1)),
    }
}

/// A slide never leaves the grid: the end cell is in bounds, on the start
/// row or column.
pub proof fn lemma_walk_bounds(g: Seq<Seq<char>>, pos: (int, int), d: Direction)
    requires
        0 <= pos.0 < g.len(),
        0 <= pos.1 < g[pos.0].len(),
    ensures
        ({
            let e = walk(g, pos, d);
            &&& 0 <= e.0 < g.len()
            &&& (d is Left || d is Right ==> e.0 == pos.0)
            &&& (d is Up || d is Down ==> e.1 == pos.1)
            &&& (d is Up ==> e.0 <= pos.0)
            &&& (d is Down ==> e.0 >= pos.0)
            &&& (d is Left ==> 0 <= e.1 <= pos.1)
            &&& (d is Right ==> pos.1 <= e.1 < g[pos.0].len())
        }),
{
    match d {
        Direction::Up => lemma_walk_up_bounds(g, pos.0, pos.1),
        Direction::Down => lemma_walk_down_bounds(g, pos.0, pos.1),
        Direction::Left => lemma_walk_left_bounds(g, pos.0, pos.1),
        Direction::Right => lemma_walk_right_bounds(g, pos.0, pos.1),
    }
}

proof fn lemma_walk_up_bounds(g: Seq<Seq<char>>, r: int, c: int)
    requires
        0 <= r,
    ensures
        0 <= walk_up(g, r, c) <= r,
    decreases r,
{
    if r > 0 && !blocks_entry(g[r - 1][c]) && !stops_slide(g[r - 1][c]) {
        lemma_walk_up_bounds(g, r - 1, c);
    }
}

proof fn lemma_walk_down_bounds(g: Seq<Seq<char>>, r: int, c: int)
    requires
        0 <= r < g.len(),
    ensures
        r <= walk_down(g, r, c) < g.len(),
    decreases g.len() - r,
{
    if r + 1 < g.len() && !blocks_entry(g[r + 1][c]) && !stops_slide(g[r + 1][c]) {
        lemma_walk_down_bounds(g, r + 1, c);
    }
}

proof fn lemma_walk_left_bounds(g: Seq<Seq<char>>, r: int, c: int)
    requires
        0 <= c,
    ensures
        0 <= walk_left(g, r, c) <= c,
    decreases c,
{
    if c > 0 && !blocks_entry(g[r][c - 1]) && !stops_slide(g[r][c - 1]) {
        lemma_walk_left_bounds(g, r, c - 1);
    }
}

proof fn lemma_walk_right_bounds(g: Seq<Seq<char>>, r: int, c: int)
    requires
        0 <= c < g[r].len(),
    ensures
        c <= walk_right(g, r, c) < g[r].len(),
    decreases g[r].len() - c,
{
    if c + 1 < g[r].len() && !blocks_entry(g[r][c + 1]) && !stops_slide(g[r][c + 1]) {
        lemma_walk_right_bounds(g, r, c + 1);
    }
}

fn walk_up_exec(g: &Vec<Vec<char>>, r: usize, c: usize) -> (e: usize)
    requires
        r < g@.len(),
        c < g@[r as int]@.len(),
        grid_rectangular(g.deep_view()),
    ensures
        e as int == walk_up(g.deep_view(), r as int, c as int),
        e <= r,
    decreases r,
{
    proof {
        lemma_grid_deep_view_index(*g, r as int);
        if r > 0 {
            lemma_grid_deep_view_index(*g, r - 1);
        }
    }
    if r > 0 {
        let sym = g[r - 1][c];
        if is_valid_move(sym) {
            if stops_here(sym) {
                return r - 1;
            }
            return walk_up_exec(g, r - 1, c);
        }
    }
    r
}

fn walk_down_exec(g: &Vec<Vec<char>>, r: usize, c: usize) -> (e: usize)
    requires
        r < g@.len(),
        c < g@[r as int]@.len(),
        grid_rectangular(g.deep_view()),
    ensures
        e as int == walk_down(g.deep_view(), r as int, c as int),
        r <= e < g@.len(),
    decreases g@.len() - r,
{
    proof {
        lemma_grid_deep_view_index(*g, r as int);
        if r + 1 < g@.len() {
            lemma_grid_deep_view_index(*g, r + 1);
        }
    }
    let rows = g.len();
    if r + 1 < rows {
        let sym = g[r + 1][c];
        if is_valid_move(sym) {
            if stops_here(sym) {
                return r + 1;
            }
            return walk_down_exec(g, r + 1, c);
        }
    }
    r
}

fn walk_left_exec(g: &Vec<Vec<char>>, r: usize, c: usize) -> (e: usize)
    requires
        r < g@.len(),
        c < g@[r as int]@.len(),
    ensures
        e as int == walk_left(g.deep_view(), r as int, c as int),
        e <= c,
    decreases c,
{
    proof {
        lemma_grid_deep_view_index(*g, r as int);
    }
    if c > 0 {
        let sym = g[r][c - 1];
        if is_valid_move(sym) {
            if stops_here(sym) {
                return c - 1;
            }
            return walk_left_exec(g, r, c - 1);
        }
    }
    c
}

fn walk_right_exec(g: &Vec<Vec<char>>, r: usize, c: usize) -> (e: usize)
    requires
        r < g@.len(),
        c < g@[r as int]@.len(),
    ensures
        e as int == walk_right(g.deep_view(), r as int, c as int),
        c <= e < g@[r as int]@.len(),
    decreases g@[r as int]@.len() - c,
{
    proof {
        lemma_grid_deep_view_index(*g, r as int);
    }
    let cols = g[r].len();
    if c + 1 < cols {
        let sym = g[r][c + 1];
        if is_valid_move(sym) {
            if stops_here(sym) {
                return c + 1;
            }
            return walk_right_exec(g, r, c + 1);
        }
    }
    c
}

/// Entering this symbol ends the slide there.
fn stops_here(symbol: char) -> (r: bool)
    ensures
        r == stops_slide(symbol),
{
    symbol == 'B' || symbol == '*'
}

/// A grid with the cell at `(r, c)` replaced by `ch`.
pub open spec fn grid_update(g: Seq<Seq<char>>, r: int, c: int, ch: char) -> Seq<Seq<char>> {
    g.update(r, g[r].update(c, ch))
}

/// The grid after a slide from `(sr, sc)` to `(er, ec)`: the vacated cell
/// reverts to ice (breaking ice if it was mid-break), the end cell shows the
/// duck — stuffed once it has eaten, mid-break if it stopped on breaking ice,
/// and in the water if it can no longer move.
pub open spec fn slip_result_grid(
    g: Seq<Seq<char>>,
    sr: int,
    sc: int,
    er: int,
    ec: int,
    bread_after: u32,
    can_move_after: bool,
) -> Seq<Seq<char>> {
    let duck_char = if bread_after > 0 {
        'Q'
    } else {
        'D'
    };
    let g1 = grid_update(g, sr, sc, if g[sr][sc] == 'O' {
        '*'
    } else {
        '#'
    });
    let g2 = grid_update(g1, er, ec, if g1[er][ec] == '*' {
        'O'
    } else {
        duck_char
    });
    if !can_move_after {
        grid_update(g2, er, ec, 'P')
    } else {
        g2
    }
}

/// Replaces the cell at `(r, c)` of the grid.
fn set_cell(g: &mut Vec<Vec<char>>, r: usize, c: usize, ch: char)
    requires
        r < old(g)@.len(),
        c < old(g)@[r as int]@.len(),
    ensures
        final(g).deep_view() == grid_update(old(g).deep_view(), r as int, c as int, ch),
        final(g)@.len() == old(g)@.len(),
        forall|i: int| 0 <= i < final(g)@.len() ==> (#[trigger] final(g)@[i]@).len()
            == old(g)@[i]@.len(),
{
    let ghost g0 = g.deep_view();
    proof {
        lemma_grid_deep_view_index(*g, r as int);
    }
    let row = &mut g[r];
    row.set(c, ch);
    proof {
        assert forall|i: int| 0 <= i < g@.len() implies #[trigger] g.deep_view()[i]
            == grid_update(g0, r as int, c as int, ch)[i] by {
            lemma_grid_deep_view_index(*g, i);
            if i == r {
                assert(g@[i]@ =~= g0[r as int].update(c as int, ch));
            } else {
                assert(g@[i] == old(g)@[i]);
                lemma_grid_deep_view_index(*old(g), i);
            }
        }
        assert(g.deep_view() =~= grid_update(g0, r as int, c as int, ch));
        assert forall|i: int| 0 <= i < g@.len() implies (#[trigger] g@[i]@).len()
            == old(g)@[i]@.len() by {
            lemma_grid_deep_view_index(*g, i);
            lemma_grid_deep_view_index(*old(g), i);
        }
    }
}

/// What `slip` does: the duck slides from its cell to `walk`'s end cell,
/// eats bread if it stopped on one, is trapped if it stopped on breaking
/// ice, and the two cells' symbols are rewritten.
pub open spec fn slip_post(
    g0: Seq<Seq<char>>,
    duck0: CommonDuck,
    d: Direction,
    duck1: CommonDuck,
    g1: Seq<Seq<char>>,
    end: (usize, usize),
) -> bool {
    let sr = duck0.logic_position.0 as int;
    let sc = duck0.logic_position.1 as int;
    let e = walk(g0, (sr, sc), d);
    &&& end.0 == e.0 && end.1 == e.1
    &&& duck1.logic_position == duck0.logic_position
    &&& duck1.bread_count == duck0.bread_count + (if g0[e.0][e.1] == 'B' {
        1int
    } else {
        0int
    })
    &&& duck1.can_move == (duck0.can_move && g0[e.0][e.1] != '*')
    &&& g1 == slip_result_grid(g0, sr, sc, e.0, e.1, duck1.bread_count, duck1.can_move)
}

/// Slides the duck in `direction` until blocked, or stopped early by bread
/// or breaking ice; updates the duck's bread count and mobility and the two
/// affected cells of the grid, and returns the end cell. The duck's recorded
/// position is left for the caller to update.
pub fn slip(duck: &mut CommonDuck, direction: Direction, level: &mut Level) -> (end: (
    usize,
    usize,
))
    requires
        grid_rectangular(old(level)@),
        (old(duck).logic_position.0 as int) < old(level)@.len(),
        (old(duck).logic_position.1 as int) < old(level)@[old(duck).logic_position.0 as int].len(),
        is_duck_cell(old(level)@[old(duck).logic_position.0 as int][old(
            duck,
        ).logic_position.1 as int]),
        old(duck).bread_count < u32::MAX,
    ensures
        slip_post(old(level)@, *old(duck), direction, *final(duck), final(level)@, end),
        end.0 < final(level)@.len(),
        end.1 < final(level)@[end.0 as int].len(),
{
    let ghost g0 = level@;
    let (sr, sc) = duck.logic_position;
    let (er, ec): (usize, usize) = match direction {
        Direction::Up => {
            let e = walk_up_exec(&level.0, sr, sc);
            (e, sc)
        },
        Direction::Down => {
            let e = walk_down_exec(&level.0, sr, sc);
            (e, sc)
        },
        Direction::Left => {
            let e = walk_left_exec(&level.0, sr, sc);
            (sr, e)
        },
        Direction::Right => {
            let e = walk_right_exec(&level.0, sr, sc);
            (sr, e)
        },
    };
    proof {
        lemma_walk_bounds(g0, (sr as int, sc as int), direction);
        assert((er as int, ec as int) == walk(g0, (sr as int, sc as int), direction));
        lemma_grid_deep_view_index(level.0, er as int);
    }
    let end_sym = level.0[er][ec];
    let _stopped = collide_with_object(end_sym, duck);
    proof {
        lemma_grid_deep_view_index(level.0, sr as int);
    }
    let start_sym = level.0[sr][sc];
    if start_sym == 'O' {
        set_cell(&mut level.0, sr, sc, '*');
    } else {
        set_cell(&mut level.0, sr, sc, '#');
    }
    let duck_char: char = if duck.bread_count > 0 {
        'Q'
    } else {
        'D'
    };
    proof {
        lemma_grid_deep_view_index(level.0, er as int);
    }
    let mid_sym = level.0[er][ec];
    if mid_sym == '*' {
        set_cell(&mut level.0, er, ec, 'O');
    } else {
        set_cell(&mut level.0, er, ec, duck_char);
    }
    if !duck.can_move {
        set_cell(&mut level.0, er, ec, 'P');
    }
    (er, ec)
}

/// The duck spawned for a duck cell: stuffed (one bread) when the cell shows
/// a stuffed or swimming duck, and always mobile — the respawn pass marks
/// every duck movable, even on water or mid-break ice, and every peer
/// respawns alike, so restoring a snapshot frees a trapped duck on all of
/// them at once; the grid cell still shows the trap.
pub open spec fn duck_for_cell(r: int, c: int, sym: char) -> CommonDuck {
    CommonDuck {
        logic_position: (r as usize, c as usize),
        can_move: true,
        bread_count: if sym == 'Q' || sym == 'P' {
            1u32
        } else {
            0u32
        },
    }
}

/// The ducks among the first `c` cells of row `r`.
pub open spec fn row_ducks_to(row: Seq<char>, r: int, c: int) -> Seq<CommonDuck>
    decreases c,
{
    if c <= 0 {
        Seq::empty()
    } else {
        row_ducks_to(row, r, c - 1) + (if is_duck_cell(row[c - 1]) {
            seq![duck_for_cell(r, c - 1, row[c - 1])]
        } else {
            Seq::empty()
        })
    }
}

/// The ducks among the first `r` rows, in row-major order.
pub open spec fn grid_ducks_to(g: Seq<Seq<char>>, r: int) -> Seq<CommonDuck>
    decreases r,
{
    if r <= 0 {
        Seq::empty()
    } else {
        grid_ducks_to(g, r - 1) + row_ducks_to(g[r - 1], r - 1, g[r - 1].len() as int)
    }
}

/// All ducks on the grid, in row-major order: the first is driven by player
/// one, the second by player two; each is mobile, as `duck_for_cell` says.
pub open spec fn grid_ducks(g: Seq<Seq<char>>) -> Seq<CommonDuck> {
    grid_ducks_to(g, g.len() as int)
}

/// Collects the ducks a freshly spawned level holds, in row-major order,
/// each on its cell, mobile, and stuffed exactly when its cell says so.
pub fn ducks_in_level(level: &Level) -> (ducks: Vec<CommonDuck>)
    ensures
        ducks@ == grid_ducks(level@),
{
    let mut ducks: Vec<CommonDuck> = Vec::new();
    let mut r: usize = 0;
    proof {
        assert(ducks@ =~= grid_ducks_to(level@, 0));
    }
    while r < level.0.len()
        invariant
            r <= level.0@.len(),
            level.0@.len() == level@.len(),
            ducks@ == grid_ducks_to(level@, r as int),
        decreases level.0@.len() - r,
    {
        let row = &level.0[r];
        proof {
            lemma_grid_deep_view_index(level.0, r as int);
            assert(row@ == level@[r as int]);
        }
        let mut c: usize = 0;
        while c < row.len()
            invariant
                c <= row@.len(),
                row@ == level@[r as int],
                r < level@.len(),
                ducks@ == grid_ducks_to(level@, r as int) + row_ducks_to(row@, r as int, c as int),
            decreases row@.len() - c,
        {
            let sym = row[c];
            if sym == 'D' || sym == 'P' || sym == 'O' || sym == 'Q' {
                let stuffed = sym == 'Q' || sym == 'P';
                let duck = CommonDuck {
                    logic_position: (r, c),
                    can_move: true,
                    bread_count: if stuffed {
                        1
                    } else {
                        0
                    },
                };
                ducks.push(duck);
                proof {
                    assert(ducks@ =~= grid_ducks_to(level@, r as int) + row_ducks_to(
                        row@,
                        r as int,
                        c + 1,
                    ));
                }
            } else {
                proof {
                    assert(ducks@ =~= grid_ducks_to(level@, r as int) + row_ducks_to(
                        row@,
                        r as int,
                        c + 1,
                    ));
                }
            }
            c = c + 1;
        }
        proof {
            assert(ducks@ =~= grid_ducks_to(level@, r + 1));
        }
        r = r + 1;
    }
    ducks
}

/// Strictly inside the grid's border: the shake scan stops at the rim.
pub open spec fn strictly_inside(g: Seq<Seq<char>>, r: int, c: int) -> bool {
    0 < r < g.len() - 1 && 0 < c < g[r].len() - 1
}

/// The cells of the ducks a slide ending at `(r, c)` nudges: the unbroken
/// run of duck cells continuing in the direction of the slide.
pub open spec fn shake_scan(g: Seq<Seq<char>>, r: int, c: int, d: Direction) -> Seq<(usize, usize)>
    decreases (match d {
        Direction::Up => r,
        Direction::Down => g.len() - r,
        Direction::Left => c,
        Direction::Right => g[r].len() - c,
    }),
{
    if !strictly_inside(g, r, c) {
        Seq::empty()
    } else {
        let nr = match d {
            Direction::Up => r - 1,
            Direction::Down => r + 1,
            _ => r,
        };
        let nc = match d {
            Direction::Left => c - 1,
            Direction::Right => c + 1,
            _ => c,
        };
        if is_duck_cell(g[nr][nc]) {
            seq![((nr as usize), (nc as usize))] + shake_scan(g, nr, nc, d)
        } else {
            Seq::empty()
        }
    }
}

/// A finished slide, as handed to the nudge pass: who moved where.
#[derive(Clone, Copy, Debug)]
pub struct ShakeOtherDucksInDir {
    pub direction: Direction,
    pub player_logic_position: (usize, usize),
}

/// Walks from the moved player's cell in its slide direction and collects
/// the cells of the contiguous ducks there, the ones the move visibly
/// nudges.
pub fn ducks_to_shake(level: &Level, e: &ShakeOtherDucksInDir) -> (r: Vec<(usize, usize)>)
    requires
        grid_rectangular(level@),
        (e.player_logic_position.0 as int) < level@.len(),
        (e.player_logic_position.1 as int) < level@[e.player_logic_position.0 as int].len(),
    ensures
        r@ == shake_scan(
            level@,
            e.player_logic_position.0 as int,
            e.player_logic_position.1 as int,
            e.direction,
        ),
{
    let player_pos = e.player_logic_position;
    let direction = e.direction;
    let rows = level.0.len();
    let mut out: Vec<(usize, usize)> = Vec::new();
    let mut pr = player_pos.0;
    let mut pc = player_pos.1;
    proof {
        assert(out@ =~= Seq::<(usize, usize)>::empty());
    }
    loop
        invariant
            grid_rectangular(level@),
            rows == level@.len(),
            level.0@.len() == level@.len(),
            (pr as int) < level@.len(),
            (pc as int) < level@[pr as int].len(),
            shake_scan(level@, player_pos.0 as int, player_pos.1 as int, direction) == out@
                + shake_scan(level@, pr as int, pc as int, direction),
        ensures
            out@ == shake_scan(level@, player_pos.0 as int, player_pos.1 as int, direction),
        decreases (match direction {
            Direction::Up => pr as int,
            Direction::Down => level@.len() - pr,
            Direction::Left => pc as int,
            Direction::Right => level@[pr as int].len() - pc,
        }),
    {
        let cols = level.0[pr].len();
        proof {
            lemma_grid_deep_view_index(level.0, pr as int);
        }
        if !(pr > 0 && pr < rows - 1 && pc > 0 && pc < cols - 1) {
            proof {
                assert(shake_scan(level@, pr as int, pc as int, direction) =~= Seq::<
                    (usize, usize),
                >::empty());
                assert(out@ + Seq::<(usize, usize)>::empty() =~= out@);
            }
            break ;
        }
        let nr = match direction {
            Direction::Up => pr - 1,
            Direction::Down => pr + 1,
            _ => pr,
        };
        let nc = match direction {
            Direction::Left => pc - 1,
            Direction::Right => pc + 1,
            _ => pc,
        };
        proof {
            lemma_grid_deep_view_index(level.0, nr as int);
        }
        let sym = level.0[nr][nc];
        if sym == 'D' || sym == 'P' || sym == 'O' || sym == 'Q' {
            out.push((nr, nc));
            pr = nr;
            pc = nc;
            proof {
                assert(out@ =~= out@.drop_last() + seq![(pr, pc)]);
                assert(out@.drop_last() + (seq![(pr, pc)] + shake_scan(
                    level@,
                    pr as int,
                    pc as int,
                    direction,
                )) =~= out@ + shake_scan(level@, pr as int, pc as int, direction));
            }
        } else {
            proof {
                assert(shake_scan(level@, pr as int, pc as int, direction) =~= Seq::<
                    (usize, usize),
                >::empty());
                assert(out@ + Seq::<(usize, usize)>::empty() =~= out@);
            }
            break ;
        }
    }
    out
}

/// The movement relay's own coarse step: one cell in the claimed direction,
/// clamped at the low edges; the receiving clients resolve the real slide
/// themselves.
pub fn calculate_move(start_pos: (usize, usize), direction: Direction, level: &Level) -> (p: (
    usize,
    usize,
))
    requires
        (start_pos.0 as int) < level@.len(),
    ensures
        direction is Up ==> p == ((if start_pos.0 > 0 {
            (start_pos.0 - 1) as usize
        } else {
            0usize
        }), start_pos.1),
        direction is Down ==> p == (((start_pos.0 + 1) as usize), start_pos.1),
        direction is Left ==> p == (start_pos.0, (if start_pos.1 > 0 {
            (start_pos.1 - 1) as usize
        } else {
            0usize
        })),
        direction is Right ==> p.0 == start_pos.0 && p.1 == start_pos.1 + (if start_pos.1
            < usize::MAX {
            1int
        } else {
            0int
        }),
{
    let rows = level.0.len();
    proof {
        assert(start_pos.0 < rows);
    }
    match direction {
        Direction::Up => {
            if start_pos.0 > 0 {
                (start_pos.0 - 1, start_pos.1)
            } else {
                (0, start_pos.1)
            }
        },
        Direction::Down => (start_pos.0 + 1, start_pos.1),
        Direction::Left => {
            if start_pos.1 > 0 {
                (start_pos.0, start_pos.1 - 1)
            } else {
                (start_pos.0, 0)
            }
        },
        Direction::Right => {
            if start_pos.1 < usize::MAX {
                (start_pos.0, start_pos.1 + 1)
            } else {
                (start_pos.0, start_pos.1)
            }
        },
    }
}

/// A slide ends on the first bread or breaking-ice cell it enters: when the
/// neighbouring cell in the slide's direction holds one, the slide stops
/// right there. With `slip`'s contract this pins the whole effect: the
/// duck's bread count grows by one exactly on bread (and the end cell's
/// bread marker is overwritten by the duck), and breaking ice traps it.
pub proof fn lemma_slide_stops_on_entry(g: Seq<Seq<char>>, r: int, c: int, d: Direction)
    requires
        0 <= r < g.len(),
        0 <= c < g[r].len(),
        ({
            let nr = match d {
                Direction::Up => r - 1,
                Direction::Down => r + 1,
                _ => r,
            };
            let nc = match d {
                Direction::Left => c - 1,
                Direction::Right => c + 1,
                _ => c,
            };
            &&& 0 <= nr < g.len()
            &&& 0 <= nc < g[nr].len()
            &&& stops_slide(g[nr][nc])
            &&& (d is Up || d is Down ==> nc < g[r].len())
            &&& (d is Right ==> nc < g[r].len())
        }),
    ensures
        ({
            let nr = match d {
                Direction::Up => r - 1,
                Direction::Down => r + 1,
                _ => r,
            };
            let nc = match d {
                Direction::Left => c - 1,
                Direction::Right => c + 1,
                _ => c,
            };
            walk(g, (r, c), d) == (nr, nc)
        }),
{
}

} // verus!
