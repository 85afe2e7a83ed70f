//! Level generation from text patterns.
//!
//! A pattern file holds blocks separated by a blank line (`"\n\n"`). Within a
//! block, lines that start with `#` are comments; the remaining lines are the
//! pattern's rows, one character per tile column.
use vstd::prelude::*;
use rand::rngs::StdRng;
use crate::rng::{choose_one, gen_range_inclusive, shuffle};
use crate::tile::{ENEMY_SYMBOL, Tile, spec_symbol};

verus! {

/// Width of the level, in tiles.
pub const TILEMAP_WIDTH: i32 = 20;
/// Width of the level, in milli-tiles.
pub const LEVEL_WIDTH: i64 = 20_000;
/// Height of one pattern, a "floor" of the level, in tiles.
pub const CHUNK_HEIGHT: i32 = 8;
/// Height of a level, in chunks.
pub const LEVEL_HEIGHT: i32 = 30;
/// Most enemies that one chunk spawns.
pub const MAX_ENEMIES_PER_CHUNK: u32 = 3;
/// Longest pattern that level generation takes, in characters; it keeps
/// grid coordinates well inside `i32`.
pub const MAX_PATTERN_LEN: usize = 0x1000_0000;
/// Bound on the grid coordinates that a pattern is laid out from.
pub const GRID_LIMIT: i32 = 0x1000_0000;

/// A tile to spawn at a grid position (the cell's lower left corner).
#[derive(Clone, Copy, Debug, PartialEq, Eq, Structural)]
pub struct TilePlacement {
    pub tile: Tile,
    pub x: i32,
    pub y: i32,
}

/// A pattern symbol at the grid position it lands on.
#[derive(Clone, Copy, Debug, PartialEq, Eq, Structural)]
pub struct Cell {
    pub symbol: char,
    pub x: i32,
    pub y: i32,
}

/// A whole level: the starting platform and the chunks above it, bottom first.
pub struct LevelLayout {
    pub platform: Vec<TilePlacement>,
    pub chunks: Vec<ChunkLayout>,
}

/// What one chunk of the level holds.
pub struct ChunkLayout {
    pub tiles: Vec<TilePlacement>,
    /// Grid positions where a bat spawns.
    pub enemies: Vec<(i32, i32)>,
}

/// First blank-line separator (`"\n\n"`) in `s` at or after `from`; `s.len()`
/// when there is none.
pub open spec fn next_separator(s: Seq<char>, from: int) -> int
    decreases s.len() - from,
{
    if from < 0 || from + 1 >= s.len() {
        s.len() as int
    } else if s[from] == '\n' && s[from + 1] == '\n' {
        from
    } else {
        next_separator(s, from + 1)
    }
}

/// First line break in `s[from..end]`; `end` when there is none.
pub open spec fn next_newline(s: Seq<char>, from: int, end: int) -> int
    decreases end - from,
{
    if from < 0 || from >= end || end > s.len() {
        end
    } else if s[from] == '\n' {
        from
    } else {
        next_newline(s, from + 1, end)
    }
}

pub open spec fn is_comment(line: Seq<char>) -> bool {
    line.len() > 0 && line[0] == '#'
}

/// A line without the `'\r'` of a `"\r\n"` line ending.
pub open spec fn strip_cr(line: Seq<char>) -> Seq<char> {
    if line.len() > 0 && line.last() == '\r' {
        line.drop_last()
    } else {
        line
    }
}

/// The rows of `s[start..end]`: its lines, split as `str::lines` splits them
/// (no empty line after a final line break, `"\r\n"` counts as a line break),
/// with the comment lines left out.
pub open spec fn rows_in(s: Seq<char>, start: int, end: int) -> Seq<Seq<char>>
    decreases end - start,
{
    if start < 0 || start >= end || end > s.len() {
        Seq::empty()
    } else {
        let k = next_newline(s, start, end);
        if start <= k < end {
            let line = strip_cr(s.subrange(start, k));
            let rest = rows_in(s, k + 1, end);
            if is_comment(line) {
                rest
            } else {
                seq![line] + rest
            }
        } else {
            let line = s.subrange(start, end);
            if is_comment(line) {
                Seq::empty()
            } else {
                seq![line]
            }
        }
    }
}

/// Rows joined into one text, with a line break between each two.
pub open spec fn join_rows(rows: Seq<Seq<char>>) -> Seq<char>
    decreases rows.len(),
{
    if rows.len() == 0 {
        Seq::empty()
    } else if rows.len() == 1 {
        rows[0]
    } else {
        join_rows(rows.drop_last()) + seq!['\n'] + rows.last()
    }
}

/// The pattern that the block `s[start..end]` holds.
pub open spec fn pattern_text(s: Seq<char>, start: int, end: int) -> Seq<char> {
    join_rows(rows_in(s, start, end))
}

/// The patterns of the blocks of `s` from position `start` on.
pub open spec fn patterns_from(s: Seq<char>, start: int) -> Seq<Seq<char>>
    decreases s.len() - start,
{
    let k = next_separator(s, start);
    if 0 <= start <= k && k + 2 <= s.len() {
        seq![pattern_text(s, start, k)] + patterns_from(s, k + 2)
    } else {
        seq![pattern_text(s, start, s.len() as int)]
    }
}

/// The patterns of a pattern file, in file order.
pub open spec fn patterns_of(text: Seq<char>) -> Seq<Seq<char>> {
    patterns_from(text, 0)
}

pub open spec fn str_views(v: Seq<&str>) -> Seq<Seq<char>> {
    v.map_values(|r: &str| r@)
}

pub open spec fn string_views(v: Seq<String>) -> Seq<Seq<char>> {
    v.map_values(|r: String| r@)
}

/// Relies on itertools' `Itertools::intersperse`: the rows with `"\n"`
/// between each two, which `String::from_iter` concatenates.
#[verifier::external_body]
fn join_lines(rows: &Vec<&str>) -> (r: String)
    ensures
        r@ == join_rows(str_views(rows@)),
{
    String::from_iter(itertools::Itertools::intersperse(rows.iter().copied(), "\n"))
}

/// The characters of `s`, in order.
pub fn chars_of(s: &str) -> (r: Vec<char>)
    ensures
        r@ == s@,
{
    let mut v: Vec<char> = Vec::new();
    for c in it: s.chars()
        invariant
            v@ == it.seq().take(it.index() as int),
    {
        v.push(c);
    }
    v
}

/// The pattern that the block `text[start..end]` holds; `t` holds the
/// characters of `text`.
fn pattern_between(text: &str, t: &Vec<char>, start: usize, end: usize) -> (r: String)
    requires
        t@ == text@,
        start <= end <= t@.len(),
    ensures
        r@ == pattern_text(t@, start as int, end as int),
{
    let ghost s = t@;
    let mut rows: Vec<&str> = Vec::new();
    let mut line_start: usize = start;
    let mut j: usize = start;
    while j < end
        invariant
            t@ == text@,
            s == t@,
            start <= line_start <= j <= end <= s.len(),
            next_newline(s, line_start as int, end as int) == next_newline(s, j as int, end as int),
            str_views(rows@) + rows_in(s, line_start as int, end as int) == rows_in(
                s,
                start as int,
                end as int,
            ),
        decreases end - j,
    {
        if t[j] == '\n' {
            let stop = if j > line_start && t[j - 1] == '\r' {
                j - 1
            } else {
                j
            };
            let comment = stop > line_start && t[line_start] == '#';
            proof {
                let line = strip_cr(s.subrange(line_start as int, j as int));
                assert(line =~= s.subrange(line_start as int, stop as int));
                assert(comment == is_comment(line));
            }
            if !comment {
                let ghost before = rows@;
                rows.push(text.substring_char(line_start, stop));
                proof {
                    assert(str_views(rows@) =~= str_views(before).push(
                        s.subrange(line_start as int, stop as int),
                    ));
                    assert(str_views(rows@) + rows_in(s, j + 1, end as int) =~= str_views(before)
                        + (seq![s.subrange(line_start as int, stop as int)] + rows_in(
                        s,
                        j + 1,
                        end as int,
                    )));
                }
            }
            line_start = j + 1;
        }
        j += 1;
    }
    if line_start < end {
        let comment = t[line_start] == '#';
        proof {
            assert(next_newline(s, end as int, end as int) == end);
        }
        if !comment {
            let ghost before = rows@;
            rows.push(text.substring_char(line_start, end));
            proof {
                assert(str_views(rows@) =~= str_views(before) + seq![
                    s.subrange(line_start as int, end as int),
                ]);
            }
        } else {
            proof {
                assert(str_views(rows@) + Seq::<Seq<char>>::empty() =~= str_views(rows@));
            }
        }
    } else {
        proof {
            assert(str_views(rows@) + Seq::<Seq<char>>::empty() =~= str_views(rows@));
        }
    }
    join_lines(&rows)
}

/// Builds level layouts from a fixed set of text patterns.
pub struct LevelGenerator {
    patterns: Vec<String>,
}

impl View for LevelGenerator {
    type V = Seq<Seq<char>>;

    closed spec fn view(&self) -> Seq<Seq<char>> {
        string_views(self.patterns@)
    }
}

impl LevelGenerator {
    /// Reads a pattern file: one pattern per block, comment lines dropped.
    /// There is always at least one pattern.
    pub fn new(pattern_data: &str) -> (r: Self)
        ensures
            r@ == patterns_of(pattern_data@),
            r@.len() >= 1,
    {
        let t = chars_of(pattern_data);
        let ghost s = t@;
        let n = t.len();
        let mut patterns: Vec<String> = Vec::new();
        let mut start: usize = 0;
        let mut i: usize = 0;
        while n - i > 1
            invariant
                t@ == pattern_data@,
                s == t@,
                n == s.len(),
                start <= i <= n,
                next_separator(s, start as int) == next_separator(s, i as int),
                string_views(patterns@) + patterns_from(s, start as int) == patterns_from(s, 0),
            decreases n - i,
        {
            if t[i] == '\n' && t[i + 1] == '\n' {
                let p = pattern_between(pattern_data, &t, start, i);
                let ghost before = patterns@;
                patterns.push(p);
                proof {
                    assert(string_views(patterns@) =~= string_views(before).push(p@));
                    assert(string_views(patterns@) + patterns_from(s, i + 2) =~= string_views(
                        before,
                    ) + (seq![p@] + patterns_from(s, i + 2)));
                }
                start = i + 2;
                i = i + 2;
            } else {
                i += 1;
            }
        }
        let p = pattern_between(pattern_data, &t, start, n);
        let ghost before = patterns@;
        patterns.push(p);
        proof {
            assert(string_views(patterns@) =~= string_views(before) + seq![p@]);
        }
        LevelGenerator { patterns }
    }

    /// Every pattern is short enough to lay out (`MAX_PATTERN_LEN`), and there is one.
    pub open spec fn fits(&self) -> bool {
        &&& self@.len() >= 1
        &&& forall|i: int| 0 <= i < self@.len() ==> #[trigger] self@[i].len() <= MAX_PATTERN_LEN
    }

    /// Checks `fits`.
    pub fn patterns_fit(&self) -> (r: bool)
        ensures
            r == self.fits(),
    {
        if self.patterns.len() == 0 {
            return false;
        }
        let mut i: usize = 0;
        while i < self.patterns.len()
            invariant
                0 <= i <= self@.len(),
                self@.len() == self.patterns@.len(),
                self@ == string_views(self.patterns@),
                forall|j: int| 0 <= j < i ==> #[trigger] self@[j].len() <= MAX_PATTERN_LEN,
            decreases self@.len() - i,
        {
            if self.patterns[i].as_str().unicode_len() > MAX_PATTERN_LEN {
                proof {
                    assert(self@[i as int] == self.patterns@[i as int]@);
                    assert(self@[i as int].len() > MAX_PATTERN_LEN);
                }
                return false;
            }
            i += 1;
        }
        true
    }

    /// Generates chunk `chunk_idx`: a random pattern for each side, a coin
    /// flip for each chancy symbol, and a random number of up to
    /// `MAX_ENEMIES_PER_CHUNK` enemies (none in the first chunk) on randomly
    /// chosen enemy marks.
    pub fn gen_chunk(&self, chunk_idx: i32, rng: &mut StdRng) -> (r: ChunkLayout)
        requires
            self.fits(),
            0 <= chunk_idx < LEVEL_HEIGHT,
        ensures
            chunk_layout_ok(self@, chunk_idx as int, r.tiles@, r.enemies@),
    {
        broadcast use vstd::seq_lib::group_to_multiset_ensures;

        let top = (chunk_idx + 1) * CHUNK_HEIGHT - 1;
        let lp = match choose_one(rng, &self.patterns) {
            Some(p) => p,
            None => {
                proof {
                    assert(self@.len() == self.patterns@.len());
                }
                return ChunkLayout { tiles: Vec::new(), enemies: Vec::new() };
            },
        };
        let ghost l = choose|i: int| 0 <= i < self.patterns@.len() && lp@ == self.patterns@[i]@;
        assert(self@[l] == lp@);
        let lc = pattern_cells(lp.as_str(), 0, 1, top);
        let mut tiles = draw_tiles(&lc, rng);

        let rp = match choose_one(rng, &self.patterns) {
            Some(p) => p,
            None => {
                return ChunkLayout { tiles: Vec::new(), enemies: Vec::new() };
            },
        };
        let ghost r = choose|i: int| 0 <= i < self.patterns@.len() && rp@ == self.patterns@[i]@;
        assert(self@[r] == rp@);
        let rc = pattern_cells(rp.as_str(), TILEMAP_WIDTH - 1, -1, top);
        let mut right_tiles = draw_tiles(&rc, rng);

        let ghost lt = tiles@;
        let ghost rt = right_tiles@;
        let k = tiles.len();
        tiles.append(&mut right_tiles);
        assert(tiles@.take(k as int) =~= lt);
        assert(tiles@.skip(k as int) =~= rt);

        // enemy marks only mark where an enemy may spawn: a random number of
        // them, in random order, get one
        let mut candidates = find_spawn_points(&lc);
        let mut right_candidates = find_spawn_points(&rc);
        candidates.append(&mut right_candidates);
        let ghost all = candidates@;
        shuffle(rng, &mut candidates);
        let count = if chunk_idx == 0 {
            0
        } else {
            gen_range_inclusive(rng, 0, MAX_ENEMIES_PER_CHUNK)
        };
        let ghost shuffled = candidates@;
        let enemies = pop_spawns(candidates, count);
        proof {
            lemma_popped_from(shuffled, count as nat);
            assert forall|j: int| 0 <= j < enemies@.len() implies all.contains(
                #[trigger] enemies@[j],
            ) by {
                assert(shuffled.contains(enemies@[j]));
                assert(shuffled.to_multiset().count(enemies@[j]) > 0);
            }
            assert(chunk_from(self@, chunk_idx as int, l, r, k as int, tiles@, enemies@));
        }
        ChunkLayout { tiles, enemies }
    }

    /// Generates the chunks of a level, bottom first.
    pub fn gen_tiles(&self, rng: &mut StdRng) -> (r: Vec<ChunkLayout>)
        requires
            self.fits(),
        ensures
            r@.len() == LEVEL_HEIGHT,
            forall|i: int|
                0 <= i < LEVEL_HEIGHT ==> chunk_layout_ok(
                    self@,
                    i,
                    #[trigger] r@[i].tiles@,
                    r@[i].enemies@,
                ),
    {
        let mut chunks: Vec<ChunkLayout> = Vec::new();
        let mut chunk_idx: i32 = 0;
        while chunk_idx < LEVEL_HEIGHT
            invariant
                self.fits(),
                0 <= chunk_idx <= LEVEL_HEIGHT,
                chunks@.len() == chunk_idx,
                forall|i: int|
                    0 <= i < chunk_idx ==> chunk_layout_ok(
                        self@,
                        i,
                        #[trigger] chunks@[i].tiles@,
                        chunks@[i].enemies@,
                    ),
            decreases LEVEL_HEIGHT - chunk_idx,
        {
            let chunk = self.gen_chunk(chunk_idx, rng);
            chunks.push(chunk);
            chunk_idx += 1;
        }
        chunks
    }

    /// Generates a whole level: the starting platform and every chunk.
    pub fn generate(&self, rng: &mut StdRng) -> (r: LevelLayout)
        requires
            self.fits(),
        ensures
            r.platform@ == spec_starting_platform(),
            r.chunks@.len() == LEVEL_HEIGHT,
            forall|i: int|
                0 <= i < LEVEL_HEIGHT ==> chunk_layout_ok(
                    self@,
                    i,
                    #[trigger] r.chunks@[i].tiles@,
                    r.chunks@[i].enemies@,
                ),
    {
        let platform = starting_platform();
        let chunks = self.gen_tiles(rng);
        LevelLayout { platform, chunks }
    }

    /// The patterns, in file order.
    pub fn patterns(&self) -> (r: &Vec<String>)
        ensures
            string_views(r@) == self@,
    {
        &self.patterns
    }
}

/// Walks a pattern from its top row down: a line break moves one row down
/// and back to the side's first column, any other character takes the cell
/// it stands on and moves one column along `side` (1: rightwards, -1:
/// leftwards). Returns the cells taken and the position reached.
pub open spec fn walk(p: Seq<char>, start_x: int, side: int, top_y: int) -> (Seq<Cell>, int, int)
    decreases p.len(),
{
    if p.len() == 0 {
        (Seq::empty(), start_x, top_y)
    } else {
        let (cells, x, y) = walk(p.drop_last(), start_x, side, top_y);
        if p.last() == '\n' {
            (cells, start_x, y - 1)
        } else {
            (cells.push(Cell { symbol: p.last(), x: x as i32, y: y as i32 }), x + side, y)
        }
    }
}

pub open spec fn spec_pattern_cells(p: Seq<char>, start_x: int, side: int, top_y: int) -> Seq<Cell> {
    walk(p, start_x, side, top_y).0
}

/// `tiles` is one outcome of drawing tiles for `cells`, in order: a symbol
/// with a certain tile gives it, one with a coin flip gives it or nothing,
/// and enemy marks and empty symbols give nothing.
pub open spec fn drawn_from(tiles: Seq<TilePlacement>, cells: Seq<Cell>) -> bool
    decreases cells.len(),
{
    if cells.len() == 0 {
        tiles.len() == 0
    } else {
        let c = cells.last();
        let (tile, chance) = spec_symbol(c.symbol);
        let kept = tiles.len() > 0 && tiles.last() == (TilePlacement { tile, x: c.x, y: c.y })
            && drawn_from(tiles.drop_last(), cells.drop_last());
        let skipped = drawn_from(tiles, cells.drop_last());
        if c.symbol == ENEMY_SYMBOL || tile == Tile::Empty {
            skipped
        } else if chance == 100 {
            kept
        } else {
            kept || skipped
        }
    }
}

/// The positions of the enemy marks among `cells`, in order.
pub open spec fn spawn_points(cells: Seq<Cell>) -> Seq<(i32, i32)>
    decreases cells.len(),
{
    if cells.len() == 0 {
        Seq::empty()
    } else {
        let rest = spawn_points(cells.drop_last());
        if cells.last().symbol == ENEMY_SYMBOL {
            rest.push((cells.last().x, cells.last().y))
        } else {
            rest
        }
    }
}

/// The first `n` elements popped off the end of `v`, in popping order.
pub open spec fn popped(v: Seq<(i32, i32)>, n: nat) -> Seq<(i32, i32)>
    decreases n,
{
    if n == 0 || v.len() == 0 {
        Seq::empty()
    } else {
        seq![v.last()] + popped(v.drop_last(), (n - 1) as nat)
    }
}

/// Grid row of the top of chunk `chunk_idx`.
pub open spec fn chunk_top(chunk_idx: int) -> int {
    (chunk_idx + 1) * CHUNK_HEIGHT - 1
}

/// The cells of pattern `p` laid out on the left side of chunk `chunk_idx`,
/// growing rightwards from the left edge.
pub open spec fn left_cells(p: Seq<char>, chunk_idx: int) -> Seq<Cell> {
    spec_pattern_cells(p, 0, 1, chunk_top(chunk_idx))
}

/// The cells of pattern `p` laid out on the right side of chunk
/// `chunk_idx`, growing leftwards from the right edge.
pub open spec fn right_cells(p: Seq<char>, chunk_idx: int) -> Seq<Cell> {
    spec_pattern_cells(p, TILEMAP_WIDTH - 1, -1, chunk_top(chunk_idx))
}

/// Chunk `chunk_idx` holds `tiles` and `enemies` with pattern `l` on the
/// left, pattern `r` on the right, and the first `k` tiles from the left.
/// Enemies spawn only on enemy marks of the two patterns, at most
/// `MAX_ENEMIES_PER_CHUNK` of them, and none in the first chunk.
pub open spec fn chunk_from(
    pats: Seq<Seq<char>>,
    chunk_idx: int,
    l: int,
    r: int,
    k: int,
    tiles: Seq<TilePlacement>,
    enemies: Seq<(i32, i32)>,
) -> bool {
    &&& 0 <= l < pats.len()
    &&& 0 <= r < pats.len()
    &&& 0 <= k <= tiles.len()
    &&& drawn_from(tiles.take(k), left_cells(pats[l], chunk_idx))
    &&& drawn_from(tiles.skip(k), right_cells(pats[r], chunk_idx))
    &&& enemies.len() <= MAX_ENEMIES_PER_CHUNK
    &&& (chunk_idx == 0 ==> enemies.len() == 0)
    &&& forall|j: int|
        0 <= j < enemies.len() ==> (spawn_points(left_cells(pats[l], chunk_idx)) + spawn_points(
            right_cells(pats[r], chunk_idx),
        )).contains(#[trigger] enemies[j])
}

/// What holds of every layout that chunk `chunk_idx` can get from `pats`.
pub open spec fn chunk_layout_ok(
    pats: Seq<Seq<char>>,
    chunk_idx: int,
    tiles: Seq<TilePlacement>,
    enemies: Seq<(i32, i32)>,
) -> bool {
    exists|l: int, r: int, k: int| #[trigger] chunk_from(pats, chunk_idx, l, r, k, tiles, enemies)
}

/// Lays a pattern out on the grid from `(start_x, top_y)`, growing along
/// `side`.
pub fn pattern_cells(pattern: &str, start_x: i32, side: i32, top_y: i32) -> (r: Vec<Cell>)
    requires
        side == 1 || side == -1,
        pattern@.len() <= MAX_PATTERN_LEN,
        -GRID_LIMIT <= start_x <= GRID_LIMIT,
        -GRID_LIMIT <= top_y <= GRID_LIMIT,
    ensures
        r@ == spec_pattern_cells(pattern@, start_x as int, side as int, top_y as int),
{
    let p = chars_of(pattern);
    let ghost s = p@;
    let mut cells: Vec<Cell> = Vec::new();
    let mut x: i32 = start_x;
    let mut y: i32 = top_y;
    let mut i: usize = 0;
    while i < p.len()
        invariant
            s == p@,
            s.len() <= MAX_PATTERN_LEN,
            side == 1 || side == -1,
            -GRID_LIMIT <= start_x <= GRID_LIMIT,
            -GRID_LIMIT <= top_y <= GRID_LIMIT,
            0 <= i <= s.len(),
            start_x - i <= x <= start_x + i,
            top_y - i <= y <= top_y,
            (cells@, x as int, y as int) == walk(s.take(i as int), start_x as int, side as int, top_y as int),
        decreases s.len() - i,
    {
        let c = p[i];
        proof {
            assert(s.take(i + 1).drop_last() =~= s.take(i as int));
        }
        if c == '\n' {
            x = start_x;
            y = y - 1;
        } else {
            cells.push(Cell { symbol: c, x, y });
            x = x + side;
        }
        i += 1;
    }
    proof {
        assert(s.take(s.len() as int) =~= s);
    }
    cells
}

/// Draws the tiles for `cells`, flipping a coin for each symbol that has one.
pub fn draw_tiles(cells: &Vec<Cell>, rng: &mut StdRng) -> (r: Vec<TilePlacement>)
    ensures
        drawn_from(r@, cells@),
{
    let mut tiles: Vec<TilePlacement> = Vec::new();
    let mut i: usize = 0;
    while i < cells.len()
        invariant
            0 <= i <= cells@.len(),
            drawn_from(tiles@, cells@.take(i as int)),
        decreases cells@.len() - i,
    {
        let c = cells[i];
        let ghost before = tiles@;
        proof {
            assert(cells@.take(i + 1).drop_last() =~= cells@.take(i as int));
        }
        if c.symbol != ENEMY_SYMBOL {
            let tile = Tile::pick(c.symbol, rng);
            if tile != Tile::Empty {
                tiles.push(TilePlacement { tile, x: c.x, y: c.y });
                proof {
                    assert(tiles@.drop_last() =~= before);
                }
            }
        }
        i += 1;
    }
    proof {
        assert(cells@.take(cells@.len() as int) =~= cells@);
    }
    tiles
}

/// The positions of the enemy marks among `cells`, in order.
pub fn find_spawn_points(cells: &Vec<Cell>) -> (r: Vec<(i32, i32)>)
    ensures
        r@ == spawn_points(cells@),
{
    let mut points: Vec<(i32, i32)> = Vec::new();
    let mut i: usize = 0;
    while i < cells.len()
        invariant
            0 <= i <= cells@.len(),
            points@ == spawn_points(cells@.take(i as int)),
        decreases cells@.len() - i,
    {
        let c = cells[i];
        proof {
            assert(cells@.take(i + 1).drop_last() =~= cells@.take(i as int));
        }
        if c.symbol == ENEMY_SYMBOL {
            points.push((c.x, c.y));
        }
        i += 1;
    }
    proof {
        assert(cells@.take(cells@.len() as int) =~= cells@);
    }
    points
}

/// Pops up to `count` spawn points off the end of `candidates`.
pub fn pop_spawns(candidates: Vec<(i32, i32)>, count: u32) -> (r: Vec<(i32, i32)>)
    ensures
        r@ == popped(candidates@, count as nat),
{
    let mut rest = candidates;
    let mut chosen: Vec<(i32, i32)> = Vec::new();
    let mut k: u32 = 0;
    while k < count && rest.len() > 0
        invariant
            k <= count,
            chosen@ + popped(rest@, (count - k) as nat) == popped(candidates@, count as nat),
        decreases count - k,
    {
        let ghost before_rest = rest@;
        let ghost before_chosen = chosen@;
        let p = rest.pop().unwrap();
        chosen.push(p);
        proof {
            assert(before_rest.drop_last() =~= rest@);
            assert(chosen@ + popped(rest@, (count - k - 1) as nat) =~= before_chosen + (seq![p]
                + popped(rest@, (count - k - 1) as nat)));
        }
        k += 1;
    }
    proof {
        assert(popped(rest@, (count - k) as nat) =~= Seq::<(i32, i32)>::empty());
        assert(chosen@ + Seq::<(i32, i32)>::empty() =~= chosen@);
    }
    chosen
}

proof fn lemma_popped_from(v: Seq<(i32, i32)>, n: nat)
    ensures
        popped(v, n).len() <= n,
        forall|j: int| 0 <= j < popped(v, n).len() ==> v.contains(#[trigger] popped(v, n)[j]),
    decreases n,
{
    if n > 0 && v.len() > 0 {
        lemma_popped_from(v.drop_last(), (n - 1) as nat);
        let p = popped(v, n);
        assert forall|j: int| 0 <= j < p.len() implies v.contains(#[trigger] p[j]) by {
            if j == 0 {
                assert(v[v.len() - 1] == p[0]);
            } else {
                let q = popped(v.drop_last(), (n - 1) as nat);
                assert(p[j] == q[j - 1]);
                let w = choose|w: int| 0 <= w < v.drop_last().len() && v.drop_last()[w] == q[j - 1];
                assert(v[w] == p[j]);
            }
        }
    }
}

/// The starting platform: unbreakable tiles in the four rows below the
/// floor, at both the leftmost and the rightmost column, bottom row first.
pub open spec fn spec_starting_platform() -> Seq<TilePlacement> {
    Seq::new(
        8,
        |j: int|
            TilePlacement {
                tile: Tile::GroundUnbreakable,
                x: if j % 2 == 0 {
                    0
                } else {
                    (TILEMAP_WIDTH - 1) as i32
                },
                y: (j / 2 - 4) as i32,
            },
    )
}

/// The tiles of the starting platform.
pub fn starting_platform() -> (r: Vec<TilePlacement>)
    ensures
        r@ == spec_starting_platform(),
{
    let mut tiles: Vec<TilePlacement> = Vec::new();
    let mut height: i32 = -4;
    while height < 0
        invariant
            -4 <= height <= 0,
            tiles@.len() == 2 * (height + 4),
            forall|j: int| 0 <= j < tiles@.len() ==> #[trigger] tiles@[j] == spec_starting_platform()[j],
        decreases 0 - height,
    {
        let ghost n = tiles@.len() as int;
        tiles.push(TilePlacement { tile: Tile::GroundUnbreakable, x: 0, y: height });
        tiles.push(TilePlacement { tile: Tile::GroundUnbreakable, x: TILEMAP_WIDTH - 1, y: height });
        proof {
            assert(n % 2 == 0 && n / 2 - 4 == height);
            assert((n + 1) % 2 == 1 && (n + 1) / 2 - 4 == height);
        }
        height += 1;
    }
    proof {
        assert(tiles@ =~= spec_starting_platform());
    }
    tiles
}

/// The column of the lantern that lights chunk `chunk_idx`: lanterns
/// alternate between the right and the left wall, starting right; the chunk
/// below the level has none.
pub fn lantern_x(chunk_idx: i32) -> (r: Option<i32>)
    ensures
        r == (if chunk_idx < 0 {
            None
        } else if chunk_idx % 2 == 0 {
            Some(TILEMAP_WIDTH)
        } else {
            Some(0i32)
        }),
{
    if chunk_idx < 0 {
        None
    } else if chunk_idx % 2 == 0 {
        Some(TILEMAP_WIDTH)
    } else {
        Some(0)
    }
}

} // verus!
