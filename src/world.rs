//! The toroidal grid: positions, compass directions, wrap-around stepping.
use vstd::prelude::*;

verus! {

/// A cell position: `x` is the row, `y` is the column.
#[derive(Debug, Clone, Copy, PartialEq, Eq, Structural)]
pub struct Pos {
    pub x: usize,
    pub y: usize,
}

/// Builds a position from a row and a column.
pub fn pos(x: usize, y: usize) -> (r: Pos)
    ensures
        r == (Pos { x, y }),
{
    Pos { x, y }
}

/// One of the eight compass offsets around a cell.
#[derive(Debug, Clone, Copy, PartialEq, Eq, Structural)]
pub enum Direction {
    NW,
    N,
    NE,
    W,
    E,
    SW,
    S,
    SE,
}

impl Direction {
    /// Row offset: north is up (towards row 0).
    pub open spec fn dr(self) -> int {
        match self {
            Direction::NW | Direction::N | Direction::NE => -1,
            Direction::W | Direction::E => 0,
            Direction::SW | Direction::S | Direction::SE => 1,
        }
    }

    /// Column offset: west is left (towards column 0).
    pub open spec fn dc(self) -> int {
        match self {
            Direction::NW | Direction::W | Direction::SW => -1,
            Direction::N | Direction::S => 0,
            Direction::NE | Direction::E | Direction::SE => 1,
        }
    }

    /// The direction pointing the other way.
    pub open spec fn reversed(self) -> Direction {
        match self {
            Direction::NW => Direction::SE,
            Direction::N => Direction::S,
            Direction::NE => Direction::SW,
            Direction::W => Direction::E,
            Direction::E => Direction::W,
            Direction::SW => Direction::NE,
            Direction::S => Direction::N,
            Direction::SE => Direction::NW,
        }
    }

    /// The direction pointing the other way.
    pub fn opposite(self) -> (r: Direction)
        ensures
            r == self.reversed(),
            r.dr() == -self.dr(),
            r.dc() == -self.dc(),
    {
        match self {
            Direction::NW => Direction::SE,
            Direction::N => Direction::S,
            Direction::NE => Direction::SW,
            Direction::W => Direction::E,
            Direction::E => Direction::W,
            Direction::SW => Direction::NE,
            Direction::S => Direction::N,
            Direction::SE => Direction::NW,
        }
    }
}

/// Moving `i` by `d` (one of -1, 0, 1) on an axis of length `n`, wrapping at both ends.
pub open spec fn wrap_coord(i: int, d: int, n: int) -> int {
    if i + d < 0 {
        i + d + n
    } else if i + d >= n {
        i + d - n
    } else {
        i + d
    }
}

/// The position one step from `p` in direction `d` on an `h` by `w` torus.
pub open spec fn wrap_step(h: int, w: int, p: Pos, d: Direction) -> Pos {
    Pos { x: wrap_coord(p.x as int, d.dr(), h) as usize, y: wrap_coord(p.y as int, d.dc(), w) as usize }
}

/// A grid model is rectangular and non-empty.
pub open spec fn grid_wf(g: Seq<Seq<bool>>) -> bool {
    &&& g.len() > 0
    &&& g[0].len() > 0
    &&& forall|i: int| 0 <= i < g.len() ==> #[trigger] g[i].len() == g[0].len()
}

pub open spec fn rows(g: Seq<Seq<bool>>) -> int {
    g.len() as int
}

pub open spec fn cols(g: Seq<Seq<bool>>) -> int {
    g[0].len() as int
}

pub open spec fn in_bounds(g: Seq<Seq<bool>>, p: Pos) -> bool {
    p.x < rows(g) && p.y < cols(g)
}

/// Whether the cell at `p` is alive.
pub open spec fn alive(g: Seq<Seq<bool>>, p: Pos) -> bool {
    g[p.x as int][p.y as int]
}

/// The grid with the cell at `p` flipped.
pub open spec fn toggled(g: Seq<Seq<bool>>, p: Pos) -> Seq<Seq<bool>> {
    g.update(p.x as int, g[p.x as int].update(p.y as int, !g[p.x as int][p.y as int]))
}

/// An all-dead grid of `h` rows and `w` columns.
pub open spec fn empty_grid(h: int, w: int) -> Seq<Seq<bool>> {
    Seq::new(h as nat, |i: int| Seq::new(w as nat, |j: int| false))
}

/// A rectangular grid of cells that wraps around at every edge.
#[derive(Debug)]
pub struct World {
    width: usize,
    height: usize,
    cells: Vec<Vec<bool>>,
}

impl View for World {
    type V = Seq<Seq<bool>>;

    closed spec fn view(&self) -> Seq<Seq<bool>> {
        self.cells@.map_values(|r: Vec<bool>| r@)
    }
}

impl World {
    /// The stored dimensions match the cell rows, and the grid is well formed.
    pub closed spec fn wf(&self) -> bool {
        &&& self.height == self.cells@.len()
        &&& self.width > 0
        &&& self.height > 0
        &&& forall|i: int| 0 <= i < self.cells@.len() ==> #[trigger] self.cells@[i]@.len() == self.width
    }

    /// What a well-formed world tells about its model.
    pub proof fn lemma_wf(&self)
        requires
            self.wf(),
        ensures
            grid_wf(self@),
    {
        assert(self@[0] == self.cells@[0]@);
        assert forall|i: int| 0 <= i < self@.len() implies #[trigger] self@[i].len() == self@[0].len() by {
            assert(self@[i] == self.cells@[i]@);
        }
    }

    pub fn height(&self) -> (r: usize)
        requires
            self.wf(),
        ensures
            r == rows(self@),
    {
        self.height
    }

    pub fn width(&self) -> (r: usize)
        requires
            self.wf(),
        ensures
            r == cols(self@),
    {
        proof {
            assert(self@[0] == self.cells@[0]@);
        }
        self.width
    }

    /// Whether the cell at `p` is alive.
    pub fn is_alive(&self, p: Pos) -> (r: bool)
        requires
            self.wf(),
            in_bounds(self@, p),
        ensures
            r == alive(self@, p),
    {
        proof {
            self.lemma_wf();
            assert(self@[p.x as int] == self.cells@[p.x as int]@);
        }
        self.cells[p.x][p.y]
    }

    /// Flips the cell at `p` between alive and dead.
    pub fn toggle(&mut self, p: Pos)
        requires
            old(self).wf(),
            in_bounds(old(self)@, p),
        ensures
            final(self).wf(),
            final(self)@ == toggled(old(self)@, p),
    {
        proof {
            self.lemma_wf();
            assert(self@[p.x as int] == self.cells@[p.x as int]@);
        }
        let mut row: Vec<bool> = Vec::new();
        self.cells.set_and_swap(p.x, &mut row);
        let v = row[p.y];
        row.set(p.y, !v);
        self.cells.set_and_swap(p.x, &mut row);
        proof {
            assert(self@ =~= toggled(old(self)@, p));
        }
    }
}

/// An all-dead world of `height` rows and `width` columns.
pub fn build_empty_world(width: usize, height: usize) -> (r: World)
    requires
        width > 0,
        height > 0,
    ensures
        r.wf(),
        r@ == empty_grid(height as int, width as int),
{
    let mut cells: Vec<Vec<bool>> = Vec::new();
    let mut i: usize = 0;
    while i < height
        invariant
            i <= height,
            cells@.len() == i,
            forall|k: int| 0 <= k < i ==> #[trigger] cells@[k]@ == Seq::new(width as nat, |j: int| false),
        decreases height - i,
    {
        let mut row: Vec<bool> = Vec::new();
        let mut j: usize = 0;
        while j < width
            invariant
                j <= width,
                row@ == Seq::new(j as nat, |c: int| false),
            decreases width - j,
        {
            row.push(false);
            j = j + 1;
            assert(row@ =~= Seq::new(j as nat, |c: int| false));
        }
        cells.push(row);
        i = i + 1;
    }
    let r = World { width, height, cells };
    assert(r@ =~= empty_grid(height as int, width as int));
    r
}

/// The eight directions, in the order the neighbourhood is scanned.
pub open spec fn compass() -> Seq<Direction> {
    seq![
        Direction::NW,
        Direction::N,
        Direction::NE,
        Direction::W,
        Direction::E,
        Direction::SE,
        Direction::S,
        Direction::SW,
    ]
}

/// 1 for a live cell, 0 for a dead one.
pub open spec fn live_value(g: Seq<Seq<bool>>, p: Pos) -> int {
    if alive(g, p) {
        1
    } else {
        0
    }
}

/// How many of the cells one step from `p` in each of `dirs` are alive.
pub open spec fn live_count(g: Seq<Seq<bool>>, p: Pos, dirs: Seq<Direction>) -> int
    decreases dirs.len(),
{
    if dirs.len() == 0 {
        0
    } else {
        live_count(g, p, dirs.drop_last()) + live_value(g, wrap_step(rows(g), cols(g), p, dirs.last()))
    }
}

/// The number of live cells among the eight wrapped neighbours of `p`,
/// counting a cell once for every direction that reaches it.
pub open spec fn neighbor_count(g: Seq<Seq<bool>>, p: Pos) -> int {
    live_count(g, p, compass())
}

/// The life rule: a live cell survives with two or three live neighbours,
/// a dead cell is born with exactly three.
pub open spec fn life_rule(is_alive: bool, n: int) -> bool {
    if is_alive {
        n == 2 || n == 3
    } else {
        n == 3
    }
}

/// The state of the cell at `p` in the generation after `g`.
pub open spec fn next_cell(g: Seq<Seq<bool>>, p: Pos) -> bool {
    life_rule(alive(g, p), neighbor_count(g, p))
}

/// The generation after `g`: every cell follows the rule applied to `g` itself.
pub open spec fn next_grid(g: Seq<Seq<bool>>) -> Seq<Seq<bool>> {
    Seq::new(
        g.len(),
        |i: int| Seq::new(g[i].len(), |j: int| next_cell(g, Pos { x: i as usize, y: j as usize })),
    )
}

fn step_back(i: usize, n: usize) -> (r: usize)
    requires
        i < n,
    ensures
        r == wrap_coord(i as int, -1, n as int),
{
    if i == 0 {
        n - 1
    } else {
        i - 1
    }
}

fn step_forward(i: usize, n: usize) -> (r: usize)
    requires
        i < n,
    ensures
        r == wrap_coord(i as int, 1, n as int),
{
    if i == n - 1 {
        0
    } else {
        i + 1
    }
}

/// The position one step from `pos` in direction `dir`, wrapping around the edges.
pub fn wrap_index(world: &World, pos: Pos, dir: Direction) -> (r: Pos)
    requires
        world.wf(),
        in_bounds(world@, pos),
    ensures
        r == wrap_step(rows(world@), cols(world@), pos, dir),
        in_bounds(world@, r),
{
    let h = world.height();
    let w = world.width();
    let x = match dir {
        Direction::NW | Direction::N | Direction::NE => step_back(pos.x, h),
        Direction::W | Direction::E => pos.x,
        Direction::SW | Direction::S | Direction::SE => step_forward(pos.x, h),
    };
    let y = match dir {
        Direction::NW | Direction::W | Direction::SW => step_back(pos.y, w),
        Direction::N | Direction::S => pos.y,
        Direction::NE | Direction::E | Direction::SE => step_forward(pos.y, w),
    };
    Pos { x, y }
}

/// The number of live neighbours of `cell_pos`, between 0 and 8.
pub fn neighbours(world: &World, cell_pos: Pos) -> (r: usize)
    requires
        world.wf(),
        in_bounds(world@, cell_pos),
    ensures
        r == neighbor_count(world@, cell_pos),
        r <= 8,
{
    let dirs: [Direction; 8] = [
        Direction::NW,
        Direction::N,
        Direction::NE,
        Direction::W,
        Direction::E,
        Direction::SE,
        Direction::S,
        Direction::SW,
    ];
    assert(dirs@ =~= compass());
    let mut sum: usize = 0;
    let mut i: usize = 0;
    while i < 8
        invariant
            i <= 8,
            world.wf(),
            in_bounds(world@, cell_pos),
            dirs@ == compass(),
            sum == live_count(world@, cell_pos, compass().take(i as int)),
            sum <= i,
        decreases 8 - i,
    {
        let cell = wrap_index(world, cell_pos, dirs[i]);
        assert(compass().take(i + 1).drop_last() =~= compass().take(i as int));
        if world.is_alive(cell) {
            sum = sum + 1;
        }
        i = i + 1;
    }
    assert(compass().take(8) =~= compass());
    sum
}

/// The state of the cell at `pos` in the next generation of `world`.
pub fn next_cell_state(world: &World, pos: Pos) -> (r: bool)
    requires
        world.wf(),
        in_bounds(world@, pos),
    ensures
        r == next_cell(world@, pos),
        r == life_rule(alive(world@, pos), neighbor_count(world@, pos)),
{
    let n = neighbours(world, pos);
    if world.is_alive(pos) {
        n == 2 || n == 3
    } else {
        n == 3
    }
}

impl World {
    /// The next generation, computed entirely from this one.
    pub fn next_generation(&self) -> (r: World)
        requires
            self.wf(),
        ensures
            r.wf(),
            r@ == next_grid(self@),
    {
        proof {
            self.lemma_wf();
        }
        let h = self.height;
        let w = self.width;
        let mut cells: Vec<Vec<bool>> = Vec::new();
        let mut i: usize = 0;
        while i < h
            invariant
                self.wf(),
                grid_wf(self@),
                h == rows(self@),
                w == cols(self@),
                i <= h,
                cells@.len() == i,
                forall|k: int| 0 <= k < i ==> (#[trigger] cells@[k])@ == next_grid(self@)[k],
            decreases h - i,
        {
            let mut row: Vec<bool> = Vec::new();
            let mut j: usize = 0;
            while j < w
                invariant
                    self.wf(),
                    grid_wf(self@),
                    h == rows(self@),
                    w == cols(self@),
                    i < h,
                    j <= w,
                    row@.len() == j,
                    forall|c: int| 0 <= c < j ==> #[trigger] row@[c] == next_cell(self@, Pos { x: i, y: c as usize }),
                decreases w - j,
            {
                let v = next_cell_state(self, Pos { x: i, y: j });
                row.push(v);
                j = j + 1;
            }
            assert(row@ =~= next_grid(self@)[i as int]);
            cells.push(row);
            i = i + 1;
        }
        let r = World { width: w, height: h, cells };
        assert(r@ =~= next_grid(self@));
        r
    }
}

impl World {
    /// The glyphs of row `row`, one per cell: `alive_glyph` for a live cell, `dead_glyph` otherwise.
    pub fn render_row(&self, row: usize, alive_glyph: char, dead_glyph: char) -> (r: Vec<char>)
        requires
            self.wf(),
            row < rows(self@),
        ensures
            r@ == Seq::new(
                cols(self@) as nat,
                |j: int| if self@[row as int][j] { alive_glyph } else { dead_glyph },
            ),
    {
        proof {
            self.lemma_wf();
        }
        let w = self.width();
        let mut out: Vec<char> = Vec::new();
        let mut j: usize = 0;
        while j < w
            invariant
                self.wf(),
                grid_wf(self@),
                row < rows(self@),
                w == cols(self@),
                j <= w,
                out@.len() == j,
                forall|c: int| 0 <= c < j ==> #[trigger] out@[c] == if self@[row as int][c] { alive_glyph } else { dead_glyph },
            decreases w - j,
        {
            if self.is_alive(Pos { x: row, y: j }) {
                out.push(alive_glyph);
            } else {
                out.push(dead_glyph);
            }
            j = j + 1;
        }
        assert(out@ =~= Seq::new(cols(self@) as nat, |j: int| if self@[row as int][j] { alive_glyph } else { dead_glyph }));
        out
    }
}

/// A grid of `h` rows and `w` columns whose only live cell is `p`.
pub open spec fn lone_grid(h: int, w: int, p: Pos) -> Seq<Seq<bool>> {
    Seq::new(h as nat, |i: int| Seq::new(w as nat, |j: int| i == p.x && j == p.y))
}

proof fn lemma_neighbor_count_unfold(g: Seq<Seq<bool>>, p: Pos)
    ensures
        neighbor_count(g, p) == live_value(g, wrap_step(rows(g), cols(g), p, Direction::NW))
            + live_value(g, wrap_step(rows(g), cols(g), p, Direction::N))
            + live_value(g, wrap_step(rows(g), cols(g), p, Direction::NE))
            + live_value(g, wrap_step(rows(g), cols(g), p, Direction::W))
            + live_value(g, wrap_step(rows(g), cols(g), p, Direction::E))
            + live_value(g, wrap_step(rows(g), cols(g), p, Direction::SE))
            + live_value(g, wrap_step(rows(g), cols(g), p, Direction::S))
            + live_value(g, wrap_step(rows(g), cols(g), p, Direction::SW)),
{
    let c = compass();
    reveal_with_fuel(live_count, 9);
    assert(c.drop_last().drop_last().drop_last().drop_last().drop_last().drop_last().drop_last().drop_last().len() == 0);
}

/// A cell alone on a grid at least two cells high and wide dies in the next
/// generation, and no other cell comes alive: no cell sees it as exactly
/// three neighbours.
pub proof fn lemma_lone_cell_dies(h: int, w: int, p: Pos)
    requires
        2 <= h <= usize::MAX,
        2 <= w <= usize::MAX,
        p.x < h,
        p.y < w,
    ensures
        next_grid(lone_grid(h, w, p)) == empty_grid(h, w),
{
    let g = lone_grid(h, w, p);
    assert forall|i: int, j: int| 0 <= i < h && 0 <= j < w implies !#[trigger] next_grid(g)[i][j] by {
        let q = Pos { x: i as usize, y: j as usize };
        lemma_neighbor_count_unfold(g, q);
        assert(g[0].len() == w);
        let a = wrap_coord(i, -1, h);
        let b = wrap_coord(i, 1, h);
        let c = wrap_coord(j, -1, w);
        let d = wrap_coord(j, 1, w);
        assert(a != i && b != i && c != j && d != j);
        assert(0 <= a < h && 0 <= b < h && 0 <= c < w && 0 <= d < w);
    }
    assert(next_grid(g) =~~= empty_grid(h, w));
}

/// A grid of `h` rows and `w` columns whose live cells are the 2 by 2 block
/// with top-left corner `p`, wrapping around the edges.
pub open spec fn block_grid(h: int, w: int, p: Pos) -> Seq<Seq<bool>> {
    Seq::new(
        h as nat,
        |i: int|
            Seq::new(
                w as nat,
                |j: int|
                    (i == p.x || i == wrap_coord(p.x as int, 1, h)) && (j == p.y || j == wrap_coord(p.y as int, 1, w)),
            ),
    )
}

/// A 2 by 2 block on a grid at least four cells high and wide is a still
/// life: each of its cells has exactly three live neighbours, and the next
/// generation is the same grid.
#[verifier::rlimit(50)]
pub proof fn lemma_block_is_still(h: int, w: int, p: Pos)
    requires
        4 <= h <= usize::MAX,
        4 <= w <= usize::MAX,
        p.x < h,
        p.y < w,
    ensures
        next_grid(block_grid(h, w, p)) == block_grid(h, w, p),
        forall|i: int, j: int|
            0 <= i < h && 0 <= j < w && #[trigger] block_grid(h, w, p)[i][j] ==> neighbor_count(
                block_grid(h, w, p),
                Pos { x: i as usize, y: j as usize },
            ) == 3,
{
    let g = block_grid(h, w, p);
    assert(g[0].len() == w);
    assert forall|i: int, j: int| 0 <= i < h && 0 <= j < w implies {
        &&& #[trigger] next_grid(g)[i][j] == g[i][j]
        &&& g[i][j] ==> neighbor_count(g, Pos { x: i as usize, y: j as usize }) == 3
    } by {
        let q = Pos { x: i as usize, y: j as usize };
        lemma_neighbor_count_unfold(g, q);
        let a = wrap_coord(i, -1, h);
        let b = wrap_coord(i, 1, h);
        let c = wrap_coord(j, -1, w);
        let d = wrap_coord(j, 1, w);
        assert(0 <= a < h && 0 <= b < h && 0 <= c < w && 0 <= d < w);
        assert(0 <= wrap_coord(p.x as int, 1, h) < h && 0 <= wrap_coord(p.y as int, 1, w) < w);
    }
    assert(next_grid(g) =~~= g);
}

/// Three live cells in a row centred on `p` (horizontal) or in a column
/// centred on `p` (vertical), wrapping around the edges; every other cell dead.
pub open spec fn blinker_grid(h: int, w: int, p: Pos, horizontal: bool) -> Seq<Seq<bool>> {
    Seq::new(
        h as nat,
        |i: int|
            Seq::new(
                w as nat,
                |j: int|
                    if horizontal {
                        i == p.x && (j == p.y || j == wrap_coord(p.y as int, -1, w) || j == wrap_coord(p.y as int, 1, w))
                    } else {
                        j == p.y && (i == p.x || i == wrap_coord(p.x as int, -1, h) || i == wrap_coord(p.x as int, 1, h))
                    },
            ),
    )
}

#[verifier::rlimit(100)]
proof fn lemma_blinker_flips(h: int, w: int, p: Pos, horizontal: bool)
    requires
        4 <= h <= usize::MAX,
        4 <= w <= usize::MAX,
        p.x < h,
        p.y < w,
    ensures
        next_grid(blinker_grid(h, w, p, horizontal)) == blinker_grid(h, w, p, !horizontal),
{
    let g = blinker_grid(h, w, p, horizontal);
    let k = blinker_grid(h, w, p, !horizontal);
    assert(g[0].len() == w);
    assert forall|i: int, j: int| 0 <= i < h && 0 <= j < w implies #[trigger] next_grid(g)[i][j] == k[i][j] by {
        let q = Pos { x: i as usize, y: j as usize };
        lemma_neighbor_count_unfold(g, q);
        let a = wrap_coord(i, -1, h);
        let b = wrap_coord(i, 1, h);
        let c = wrap_coord(j, -1, w);
        let d = wrap_coord(j, 1, w);
        assert(0 <= a < h && 0 <= b < h && 0 <= c < w && 0 <= d < w);
        assert(0 <= wrap_coord(p.x as int, 1, h) < h && 0 <= wrap_coord(p.y as int, 1, w) < w);
        assert(0 <= wrap_coord(p.x as int, -1, h) < h && 0 <= wrap_coord(p.y as int, -1, w) < w);
        if horizontal {
            assert(next_grid(g)[i][j] == k[i][j]);
        } else {
            assert(next_grid(g)[i][j] == k[i][j]);
        }
    }
    assert(next_grid(g) =~~= k);
}

/// A blinker on a grid at least four cells high and wide turns from
/// horizontal to vertical and back, so two generations restore it.
pub proof fn lemma_blinker_period_two(h: int, w: int, p: Pos)
    requires
        4 <= h <= usize::MAX,
        4 <= w <= usize::MAX,
        p.x < h,
        p.y < w,
    ensures
        next_grid(blinker_grid(h, w, p, true)) == blinker_grid(h, w, p, false),
        next_grid(blinker_grid(h, w, p, false)) == blinker_grid(h, w, p, true),
        next_grid(next_grid(blinker_grid(h, w, p, true))) == blinker_grid(h, w, p, true),
{
    lemma_blinker_flips(h, w, p, true);
    lemma_blinker_flips(h, w, p, false);
}

/// Stepping one way and then the opposite way returns to the starting cell.
pub proof fn lemma_wrap_round_trip(h: int, w: int, p: Pos, d: Direction)
    requires
        h > 0,
        w > 0,
        h <= usize::MAX,
        w <= usize::MAX,
        p.x < h,
        p.y < w,
    ensures
        wrap_step(h, w, wrap_step(h, w, p, d), d.reversed()) == p,
{
    let q = wrap_step(h, w, p, d);
    assert(0 <= wrap_coord(p.x as int, d.dr(), h) < h);
    assert(0 <= wrap_coord(p.y as int, d.dc(), w) < w);
    assert(q.x as int == wrap_coord(p.x as int, d.dr(), h));
    assert(q.y as int == wrap_coord(p.y as int, d.dc(), w));
    assert(d.reversed().dr() == -d.dr() && d.reversed().dc() == -d.dc());
}

proof fn lemma_live_count_bounds(g: Seq<Seq<bool>>, p: Pos, dirs: Seq<Direction>)
    ensures
        0 <= live_count(g, p, dirs) <= dirs.len(),
    decreases dirs.len(),
{
    if dirs.len() > 0 {
        lemma_live_count_bounds(g, p, dirs.drop_last());
    }
}

/// The neighbour count of any cell of any grid lies between 0 and 8.
pub proof fn lemma_neighbor_count_bounds(g: Seq<Seq<bool>>, p: Pos)
    ensures
        0 <= neighbor_count(g, p) <= 8,
{
    lemma_live_count_bounds(g, p, compass());
}

/// The life rule case by case: a live cell with fewer than two or more than
/// three live neighbours dies and with two or three survives; a dead cell
/// comes alive with exactly three and otherwise stays dead.
pub proof fn lemma_rule_cases(g: Seq<Seq<bool>>, p: Pos)
    ensures
        alive(g, p) && neighbor_count(g, p) <= 1 ==> !next_cell(g, p),
        alive(g, p) && (neighbor_count(g, p) == 2 || neighbor_count(g, p) == 3) ==> next_cell(g, p),
        alive(g, p) && neighbor_count(g, p) >= 4 ==> !next_cell(g, p),
        !alive(g, p) && neighbor_count(g, p) == 3 ==> next_cell(g, p),
        !alive(g, p) && neighbor_count(g, p) != 3 ==> !next_cell(g, p),
{
}

/// Toggling the same cell twice gives back the grid it started from.
pub proof fn lemma_toggle_twice(g: Seq<Seq<bool>>, p: Pos)
    requires
        grid_wf(g),
        in_bounds(g, p),
    ensures
        toggled(toggled(g, p), p) == g,
{
    assert(toggled(toggled(g, p), p) =~~= g);
}

} // verus!
