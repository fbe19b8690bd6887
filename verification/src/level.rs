//! The level grid: its cell symbols, the compiled-in level table, and loading
//! a level by its 1-based index.
use vstd::prelude::*;
use vstd::string::*;

verus! {

/// What a single grid cell holds.
pub enum SymbolType {
    Wall,
    Ice,
    BrokenIce,
    DuckOnIce,
    StuffedDuckOnIce,
    BreadOnIce,
    BreakingIce,
    DuckOnWater,
    DuckOnBreakingIce,
}

impl SymbolType {
    /// The character that stands for this symbol in a level grid.
    pub open spec fn spec_symbol(self) -> char {
        match self {
            SymbolType::Wall => '@',
            SymbolType::Ice => '#',
            SymbolType::BrokenIce => '^',
            SymbolType::DuckOnIce => 'D',
            SymbolType::StuffedDuckOnIce => 'Q',
            SymbolType::BreadOnIce => 'B',
            SymbolType::BreakingIce => '*',
            SymbolType::DuckOnWater => 'P',
            SymbolType::DuckOnBreakingIce => 'O',
        }
    }

    pub fn get_symbol(self) -> (c: char)
        ensures
            c == self.spec_symbol(),
    {
        match self {
            SymbolType::Wall => '@',
            SymbolType::Ice => '#',
            SymbolType::BrokenIce => '^',
            SymbolType::DuckOnIce => 'D',
            SymbolType::StuffedDuckOnIce => 'Q',
            SymbolType::BreadOnIce => 'B',
            SymbolType::BreakingIce => '*',
            SymbolType::DuckOnWater => 'P',
            SymbolType::DuckOnBreakingIce => 'O',
        }
    }
}

/// A level: rows of cell symbols. Rows need not be equally long in general,
/// though every compiled-in level is rectangular.
#[derive(Debug)]
pub struct Level(pub Vec<Vec<char>>);

impl View for Level {
    type V = Seq<Seq<char>>;

    open spec fn view(&self) -> Seq<Seq<char>> {
        self.0.deep_view()
    }
}

/// The deep view of a row of cells is its plain view.
pub proof fn lemma_row_deep_view(v: Vec<char>)
    ensures
        v.deep_view() == v@,
{
    assert(v.deep_view() =~= v@);
}

/// One row of a grid's deep view is that row's plain view.
pub proof fn lemma_grid_deep_view_index(g: Vec<Vec<char>>, i: int)
    requires
        0 <= i < g@.len(),
    ensures
        g.deep_view()[i] == g@[i]@,
{
    assert(g.deep_view()[i] == g@[i].deep_view());
    lemma_row_deep_view(g@[i]);
}

/// Every row of the grid is as long as the first: the shape the slide rule
/// and the renderer assume.
pub open spec fn grid_rectangular(g: Seq<Seq<char>>) -> bool {
    forall|i: int| 0 <= i < g.len() ==> (#[trigger] g[i]).len() == g[0].len()
}

impl Clone for Level {
    fn clone(&self) -> (r: Level)
        ensures
            r@ == self@,
    {
        let r = Level(clone_grid(&self.0));
        r
    }
}

/// Copies a grid row by row; the copy has the same abstract contents.
pub fn clone_grid(g: &Vec<Vec<char>>) -> (r: Vec<Vec<char>>)
    ensures
        r.deep_view() == g.deep_view(),
{
    let mut r: Vec<Vec<char>> = Vec::new();
    let mut i: usize = 0;
    while i < g.len()
        invariant
            i <= g.len(),
            r.deep_view() == g.deep_view().take(i as int),
        decreases g.len() - i,
    {
        let row = clone_row(&g[i]);
        let ghost prev = r.deep_view();
        let ghost oldr = r@;
        r.push(row);
        proof {
            assert(g.deep_view().len() == g@.len());
            assert(prev.len() == i);
            assert(oldr.len() == i);
            assert(r@ == oldr.push(row));
            assert(r@.len() == i + 1);
            assert forall|j: int| 0 <= j < r@.len() implies r.deep_view()[j]
                == g.deep_view().take(i + 1)[j] by {
                if j < i {
                    assert(r@[j] == oldr[j]);
                    assert(r.deep_view()[j] == prev[j]);
                } else {
                    assert(r@[j] == row);
                    assert(row.deep_view() =~= g@[i as int].deep_view());
                }
            }
            assert(r.deep_view() =~= g.deep_view().take(i + 1));
        }
        i = i + 1;
    }
    assert(g.deep_view().take(g.len() as int) =~~= g.deep_view());
    r
}

/// Copies one row of cells.
pub fn clone_row(row: &Vec<char>) -> (r: Vec<char>)
    ensures
        r@ == row@,
{
    let mut r: Vec<char> = Vec::new();
    let mut i: usize = 0;
    while i < row.len()
        invariant
            i <= row.len(),
            r@ =~= row@.take(i as int),
        decreases row.len() - i,
    {
        r.push(row[i]);
        assert(r@ =~= row@.take(i + 1 as int));
        i = i + 1;
    }
    assert(row@.take(row.len() as int) =~= row@);
    r
}

/// The compiled-in table of level texts.
pub struct Levels {
    pub levels: Vec<String>,
}

impl Default for Levels {
    /// The built-in campaign: thirteen rectangular levels, pinned text by
    /// text, so the table is the same on every call.
    fn default() -> (r: Self)
        ensures
            r.levels@.len() == 13,
            r.levels@[0]@ == "@@@@@@\n@D##B@\n@####@\n@B##D@\n@@@@@@"@,
            r.levels@[1]@ == "@@@@@@@\n@D###B@\n@##@##@\n@B###D@\n@@@@@@@"@,
            r.levels@[2]@ == "@@@@@@\n@D#*B@\n@####@\n@B*#D@\n@@@@@@"@,
            r.levels@[3]@ == "@@@@@@@\n@D##^B@\n@#^###@\n@B###D@\n@@@@@@@"@,
            r.levels@[4]@ == "@@@@@@@@\n@D####B@\n@#@##@#@\n@B####D@\n@@@@@@@@"@,
            r.levels@[5]@ == "@@@@@@\n@D*#B@\n@#@@#@\n@B#*D@\n@@@@@@"@,
            r.levels@[6]@ == "@@@@@@@\n@D#B##@\n@##@##@\n@##B#D@\n@@@@@@@"@,
            r.levels@[7]@ == "@@@@@@@@\n@D##*#B@\n@#^##^#@\n@B#*##D@\n@@@@@@@@"@,
            r.levels@[8]@ == "@@@@@@\n@DB##@\n@#@@B@\n@###D@\n@@@@@@"@,
            r.levels@[9]@ == "@@@@@@@\n@D####@\n@#B@B#@\n@####D@\n@@@@@@@"@,
            r.levels@[10]@ == "@@@@@@@@\n@D#@##B@\n@##@@##@\n@B##@#D@\n@@@@@@@@"@,
            r.levels@[11]@ == "@@@@@@@\n@D*#*B@\n@#####@\n@B*#*D@\n@@@@@@@"@,
            r.levels@[12]@ == "@@@@@@@@\n@D##B##@\n@#@*#@#@\n@##B##D@\n@@@@@@@@"@,
    {
        let mut levels: Vec<String> = Vec::new();
        levels.push(String::from_str("@@@@@@\n@D##B@\n@####@\n@B##D@\n@@@@@@"));
        levels.push(String::from_str("@@@@@@@\n@D###B@\n@##@##@\n@B###D@\n@@@@@@@"));
        levels.push(String::from_str("@@@@@@\n@D#*B@\n@####@\n@B*#D@\n@@@@@@"));
        levels.push(String::from_str("@@@@@@@\n@D##^B@\n@#^###@\n@B###D@\n@@@@@@@"));
        levels.push(String::from_str("@@@@@@@@\n@D####B@\n@#@##@#@\n@B####D@\n@@@@@@@@"));
        levels.push(String::from_str("@@@@@@\n@D*#B@\n@#@@#@\n@B#*D@\n@@@@@@"));
        levels.push(String::from_str("@@@@@@@\n@D#B##@\n@##@##@\n@##B#D@\n@@@@@@@"));
        levels.push(String::from_str("@@@@@@@@\n@D##*#B@\n@#^##^#@\n@B#*##D@\n@@@@@@@@"));
        levels.push(String::from_str("@@@@@@\n@DB##@\n@#@@B@\n@###D@\n@@@@@@"));
        levels.push(String::from_str("@@@@@@@\n@D####@\n@#B@B#@\n@####D@\n@@@@@@@"));
        levels.push(String::from_str("@@@@@@@@\n@D#@##B@\n@##@@##@\n@B##@#D@\n@@@@@@@@"));
        levels.push(String::from_str("@@@@@@@\n@D*#*B@\n@#####@\n@B*#*D@\n@@@@@@@"));
        levels.push(String::from_str("@@@@@@@@\n@D##B##@\n@#@*#@#@\n@##B##D@\n@@@@@@@@"));
        Levels { levels }
    }
}

/// Number of breads among the first `c` cells of a row.
pub open spec fn row_bread_count_to(row: Seq<char>, c: int) -> nat
    decreases c,
{
    if c <= 0 {
        0
    } else {
        row_bread_count_to(row, c - 1) + (if row[c - 1] == 'B' {
            1nat
        } else {
            0nat
        })
    }
}

/// Number of breads in a whole row.
pub open spec fn row_bread_count(row: Seq<char>) -> nat {
    row_bread_count_to(row, row.len() as int)
}

/// Number of breads in the first `r` rows of a grid.
pub open spec fn grid_bread_count_to(g: Seq<Seq<char>>, r: int) -> nat
    decreases r,
{
    if r <= 0 {
        0
    } else {
        grid_bread_count_to(g, r - 1) + row_bread_count(g[r - 1])
    }
}

/// Number of breads on a grid: the level is won when it reaches zero.
pub open spec fn grid_bread_count(g: Seq<Seq<char>>) -> nat {
    grid_bread_count_to(g, g.len() as int)
}

proof fn lemma_row_bread_count_mono(row: Seq<char>, c: int, d: int)
    requires
        c <= d,
    ensures
        row_bread_count_to(row, c) <= row_bread_count_to(row, d),
    decreases d - c,
{
    if c < d {
        lemma_row_bread_count_mono(row, c, d - 1);
    }
}

proof fn lemma_grid_bread_count_mono(g: Seq<Seq<char>>, r: int, s: int)
    requires
        r <= s,
    ensures
        grid_bread_count_to(g, r) <= grid_bread_count_to(g, s),
    decreases s - r,
{
    if r < s {
        lemma_grid_bread_count_mono(g, r, s - 1);
    }
}

/// Counts the breads still on the grid, the number the level HUD shows and
/// the win check reads.
pub fn count_breads(level: &Level) -> (n: usize)
    requires
        grid_bread_count(level@) <= usize::MAX,
    ensures
        n == grid_bread_count(level@),
{
    let mut n: usize = 0;
    let mut r: usize = 0;
    while r < level.0.len()
        invariant
            r <= level.0@.len(),
            level.0@.len() == level@.len(),
            n == grid_bread_count_to(level@, r as int),
            grid_bread_count(level@) <= usize::MAX,
        decreases level.0@.len() - r,
    {
        let row = &level.0[r];
        proof {
            lemma_grid_deep_view_index(level.0, r as int);
            assert(row@ == level@[r as int]);
        }
        let mut c: usize = 0;
        while c < row.len()
            invariant
                c <= row@.len(),
                row@ == level@[r as int],
                r < level@.len(),
                n == grid_bread_count_to(level@, r as int) + row_bread_count_to(row@, c as int),
                grid_bread_count(level@) <= usize::MAX,
            decreases row@.len() - c,
        {
            if row[c] == 'B' {
                proof {
                    lemma_row_bread_count_mono(row@, c + 1, row@.len() as int);
                    lemma_grid_bread_count_mono(level@, r + 1, level@.len() as int);
                }
                n = n + 1;
            }
            c = c + 1;
        }
        proof {
            assert(row_bread_count(level@[r as int]) == row_bread_count_to(row@, row@.len() as int));
        }
        r = r + 1;
    }
    n
}

/// 1-based index of the level being played.
#[derive(Clone, Copy, Debug, PartialEq, Eq, Structural)]
pub struct CurrentLevelIndex(pub usize);

impl Default for CurrentLevelIndex {
    fn default() -> (r: Self)
        ensures
            r.0 == 1,
    {
        CurrentLevelIndex(1)
    }
}

/// How many breads the level held when it was spawned.
#[derive(Clone, Copy, Debug, PartialEq, Eq, Structural)]
pub struct TotalBreadCount(pub i32);

impl Default for TotalBreadCount {
    fn default() -> (r: Self)
        ensures
            r.0 == 0,
    {
        TotalBreadCount(0)
    }
}

/// How many breads are still on the grid; the level is won at zero.
#[derive(Clone, Copy, Debug, PartialEq, Eq, Structural)]
pub struct BreadCount(pub i32);

impl Default for BreadCount {
    fn default() -> (r: Self)
        ensures
            r.0 == 1,
    {
        BreadCount(1)
    }
}

/// Reload the current level from scratch: clears and respawns, not an
/// undo-stack pop.
#[derive(Clone, Copy, Debug, PartialEq, Eq, Structural)]
pub struct RestartLevelEvent;

/// Replace the current level with this restored snapshot.
#[derive(Debug)]
pub struct UndoLevelEvent {
    pub level_data: Level,
}

/// Jump to the level with this index.
#[derive(Clone, Copy, Debug, PartialEq, Eq, Structural)]
pub struct ChangeLevelEvent {
    pub index: CurrentLevelIndex,
}

/// The level is won: no bread is left on the grid.
#[derive(Clone, Copy, Debug, PartialEq, Eq, Structural)]
pub struct Won;

/// The win check the respawn pass makes: the level is won exactly when the
/// bread count has reached zero.
pub fn level_won(bread_count: &BreadCount) -> (w: Option<Won>)
    ensures
        w is Some <==> bread_count.0 == 0,
{
    if bread_count.0 == 0 {
        Some(Won)
    } else {
        None
    }
}

/// Why a request against the level table was rejected.
#[derive(Clone, Copy, Debug, PartialEq, Eq, Structural)]
pub enum GameError {
    InvalidLevelIndex,
}

/// Index of the first line break in `s`, or `s.len()` if there is none.
pub open spec fn first_newline(s: Seq<char>) -> int
    decreases s.len(),
{
    if s.len() == 0 {
        0
    } else if s[0] == '\n' {
        0
    } else {
        1 + first_newline(s.drop_first())
    }
}

pub proof fn lemma_first_newline(s: Seq<char>)
    ensures
        0 <= first_newline(s) <= s.len(),
        forall|j: int| 0 <= j < first_newline(s) ==> s[j] != '\n',
        first_newline(s) < s.len() ==> s[first_newline(s)] == '\n',
    decreases s.len(),
{
    if s.len() > 0 && s[0] != '\n' {
        lemma_first_newline(s.drop_first());
        assert forall|j: int| 0 <= j < first_newline(s) implies s[j] != '\n' by {
            if j > 0 {
                assert(s.drop_first()[j - 1] != '\n');
            }
        }
        if first_newline(s) < s.len() {
            assert(s.drop_first()[first_newline(s) - 1] == '\n');
        }
    }
}

/// A line with a final carriage return removed, as the line splitter yields it.
pub open spec fn strip_carriage_return(l: Seq<char>) -> Seq<char> {
    if l.len() > 0 && l.last() == '\r' {
        l.drop_last()
    } else {
        l
    }
}

/// The lines of a level text: segments between line breaks, each with a final
/// carriage return removed; a trailing line break yields no extra empty line.
pub open spec fn split_lines(s: Seq<char>) -> Seq<Seq<char>>
    decreases s.len(),
    via split_lines_termination
{
    if s.len() == 0 {
        Seq::empty()
    } else {
        let i = first_newline(s);
        if i == s.len() {
            seq![strip_carriage_return(s)]
        } else {
            seq![strip_carriage_return(s.take(i))] + split_lines(s.skip(i + 1))
        }
    }
}

#[via_fn]
proof fn split_lines_termination(s: Seq<char>) {
    lemma_first_newline(s);
}

/// What a successful load returns for index `i` (1-based) in table `tbl`.
pub open spec fn loaded_grid(tbl: Seq<Seq<char>>, i: int) -> Seq<Seq<char>> {
    split_lines(tbl[i - 1])
}

/// The result `r` is what loading level `level_index` from `levels` must
/// produce: the parsed grid for a valid index, the rejection otherwise.
pub open spec fn load_level_post(
    levels: Levels,
    level_index: usize,
    r: Result<Level, GameError>,
) -> bool {
    &&& (r is Ok <==> 1 <= level_index <= levels.levels.len())
    &&& (r is Ok ==> r->Ok_0@ == loaded_grid(levels.levels.deep_view(), level_index as int))
    &&& (r is Err ==> r->Err_0 == GameError::InvalidLevelIndex)
}

/// Looks up the 1-based `level_index` in the table and parses its text into
/// a grid; indices outside `1..=len` are rejected and nothing is touched.
pub fn load_level(level_index: usize, levels: &Levels) -> (r: Result<Level, GameError>)
    ensures
        load_level_post(*levels, level_index, r),
{
    if 1 <= level_index && level_index <= levels.levels.len() {
        let text: &String = &levels.levels[level_index - 1];
        let grid = parse_level_text(text.as_str());
        assert(levels.levels.deep_view()[level_index - 1] == levels.levels@[level_index - 1]@);
        Ok(Level(grid))
    } else {
        Err(GameError::InvalidLevelIndex)
    }
}

/// Loading is a function of the table and the index alone: any two results
/// that meet `load_level`'s contract for the same arguments agree, so loading
/// the same index twice yields equal grids.
pub proof fn lemma_load_level_idempotent(
    levels: Levels,
    level_index: usize,
    r1: Result<Level, GameError>,
    r2: Result<Level, GameError>,
)
    requires
        load_level_post(levels, level_index, r1),
        load_level_post(levels, level_index, r2),
    ensures
        r1 is Ok <==> r2 is Ok,
        r1 is Ok ==> r1->Ok_0@ == r2->Ok_0@,
        r1 is Err ==> r1->Err_0 == r2->Err_0,
{
}

/// Indices 0 and `len + 1` (and anything further out) are rejected with
/// `InvalidLevelIndex`.
pub proof fn lemma_load_level_out_of_range(
    levels: Levels,
    level_index: usize,
    r: Result<Level, GameError>,
)
    requires
        load_level_post(levels, level_index, r),
        level_index == 0 || level_index > levels.levels.len(),
    ensures
        r is Err,
        r->Err_0 == GameError::InvalidLevelIndex,
{
}

/// Splits a level text into its grid of cell characters, one row per line.
pub fn parse_level_text(text: &str) -> (g: Vec<Vec<char>>)
    ensures
        g.deep_view() == split_lines(text@),
{
    let n = text.unicode_len();
    let mut rows: Vec<Vec<char>> = Vec::new();
    let mut cur: Vec<char> = Vec::new();
    let ghost s = text@;
    proof {
        assert(s.skip(0) =~= s);
        assert(rows.deep_view() =~~= Seq::<Seq<char>>::empty());
        assert(rows.deep_view() + split_lines(s) =~= split_lines(s));
    }
    let mut start: usize = 0;
    let mut i: usize = 0;
    while i < n
        invariant
            s == text@,
            n == s.len(),
            0 <= start <= i <= n,
            cur@ == s.subrange(start as int, i as int),
            forall|j: int| start <= j < i ==> s[j] != '\n',
            split_lines(s) == rows.deep_view() + split_lines(s.skip(start as int)),
        decreases n - i,
    {
        let c = text.get_char(i);
        if c == '\n' {
            proof {
                lemma_split_lines_step(s, start as int, i as int);
            }
            let line = strip_cr(cur);
            let ghost prev = rows.deep_view();
            let ghost piece = strip_carriage_return(s.subrange(start as int, i as int));
            rows.push(line);
            proof {
                assert(rows.deep_view() =~~= prev.push(piece));
                assert(prev + (seq![piece] + split_lines(s.skip(i + 1))) =~= prev.push(piece)
                    + split_lines(s.skip(i + 1)));
            }
            cur = Vec::new();
            start = i + 1;
            proof {
                assert(cur@ =~= s.subrange(start as int, start as int));
            }
        } else {
            cur.push(c);
            proof {
                assert(cur@ =~= s.subrange(start as int, i + 1));
            }
        }
        i = i + 1;
    }
    if start < n {
        proof {
            lemma_split_lines_last(s, start as int);
            assert(s.skip(start as int) =~= s.subrange(start as int, n as int));
        }
        let line = strip_cr(cur);
        let ghost prev = rows.deep_view();
        let ghost piece = strip_carriage_return(s.skip(start as int));
        rows.push(line);
        proof {
            assert(rows.deep_view() =~~= prev.push(piece));
            assert(prev + seq![piece] =~= prev.push(piece));
        }
    } else {
        proof {
            assert(s.skip(start as int) =~= Seq::<char>::empty());
            assert(rows.deep_view() + split_lines(s.skip(start as int)) =~= rows.deep_view());
        }
    }
    rows
}

/// Removes a final carriage return from a finished line, if there is one.
fn strip_cr(line: Vec<char>) -> (r: Vec<char>)
    ensures
        r@ == strip_carriage_return(line@),
{
    let mut line = line;
    let ghost orig = line@;
    if line.len() > 0 {
        let last = line[line.len() - 1];
        if last == '\r' {
            let _ = line.pop();
            assert(line@ =~= orig.drop_last());
        }
    }
    line
}

/// Unfolds `split_lines` at a segment `[start, i)` that holds no line break
/// and ends right before one.
proof fn lemma_split_lines_step(s: Seq<char>, start: int, i: int)
    requires
        0 <= start <= i < s.len(),
        forall|j: int| start <= j < i ==> s[j] != '\n',
        s[i] == '\n',
    ensures
        split_lines(s.skip(start)) == seq![
            strip_carriage_return(s.subrange(start, i)),
        ] + split_lines(s.skip(i + 1)),
{
    let t = s.skip(start);
    lemma_first_newline_is(t, i - start);
    assert(t.take(i - start) =~= s.subrange(start, i));
    assert(t.skip(i - start + 1) =~= s.skip(i + 1));
}

/// Unfolds `split_lines` at a final segment `[start, len)` that holds no
/// line break.
proof fn lemma_split_lines_last(s: Seq<char>, start: int)
    requires
        0 <= start < s.len(),
        forall|j: int| start <= j < s.len() ==> s[j] != '\n',
    ensures
        split_lines(s.skip(start)) == seq![strip_carriage_return(s.skip(start))],
{
    let t = s.skip(start);
    lemma_first_newline_is_none(t);
}

/// `first_newline` finds exactly the first line break.
proof fn lemma_first_newline_is(t: Seq<char>, k: int)
    requires
        0 <= k < t.len(),
        forall|j: int| 0 <= j < k ==> t[j] != '\n',
        t[k] == '\n',
    ensures
        first_newline(t) == k,
    decreases t.len(),
{
    if k > 0 {
        assert forall|j: int| 0 <= j < k - 1 implies t.drop_first()[j] != '\n' by {
            assert(t[j + 1] != '\n');
        }
        lemma_first_newline_is(t.drop_first(), k - 1);
    }
}

/// Without a line break, `first_newline` is the whole length.
proof fn lemma_first_newline_is_none(t: Seq<char>)
    requires
        forall|j: int| 0 <= j < t.len() ==> t[j] != '\n',
    ensures
        first_newline(t) == t.len(),
    decreases t.len(),
{
    if t.len() > 0 {
        assert forall|j: int| 0 <= j < t.drop_first().len() implies t.drop_first()[j] != '\n' by {
            assert(t[j + 1] != '\n');
        }
        lemma_first_newline_is_none(t.drop_first());
    }
}

} // verus!
