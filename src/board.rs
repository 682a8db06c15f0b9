//! The grid store, toroidal neighbour counting, the two-phase generation step
//! and pattern seeding.
use vstd::prelude::*;
use crate::cell::{CellState, GridError, cell_of};

verus! {

/// The index before `i` on a ring of `n` positions.
pub open spec fn wrap_prev(i: int, n: int) -> int {
    if i == 0 {
        n - 1
    } else {
        i - 1
    }
}

/// The index after `i` on a ring of `n` positions.
pub open spec fn wrap_next(i: int, n: int) -> int {
    if i + 1 == n {
        0
    } else {
        i + 1
    }
}

/// A grid of `w` columns, each of `h` cells, indexed `g[x][y]`.
pub open spec fn is_grid(g: Seq<Seq<CellState>>, w: nat, h: nat) -> bool {
    &&& g.len() == w
    &&& forall|x: int| 0 <= x < w ==> (#[trigger] g[x]).len() == h
}

/// One if the cell at `(x, y)` gives an alive signal, zero otherwise.
pub open spec fn alive_at(g: Seq<Seq<CellState>>, x: int, y: int) -> int {
    if g[x][y].counts_alive() {
        1
    } else {
        0
    }
}

/// How many of the eight cells around `(x, y)` count as alive, with both axes
/// wrapping around.
pub open spec fn neighbors_alive(g: Seq<Seq<CellState>>, w: int, h: int, x: int, y: int) -> int {
    let xm = wrap_prev(x, w);
    let xp = wrap_next(x, w);
    let ym = wrap_prev(y, h);
    let yp = wrap_next(y, h);
    alive_at(g, xm, ym) + alive_at(g, xm, y) + alive_at(g, xm, yp) + alive_at(g, x, ym)
        + alive_at(g, x, yp) + alive_at(g, xp, ym) + alive_at(g, xp, y) + alive_at(g, xp, yp)
}

/// Every cell of the grid is `Alive` or `Dead`.
pub open spec fn all_steady(g: Seq<Seq<CellState>>, w: nat, h: nat) -> bool {
    forall|x: int, y: int| 0 <= x < w && 0 <= y < h ==> (#[trigger] g[x][y]).is_steady()
}

/// The standard rule: birth on exactly three alive neighbours, survival on two
/// or three, death otherwise.
pub open spec fn next_state(alive: bool, n: int) -> CellState {
    if n == 3 || (alive && n == 2) {
        CellState::Alive
    } else {
        CellState::Dead
    }
}

/// The grid one generation later.
pub open spec fn next_generation(g: Seq<Seq<CellState>>, w: nat, h: nat) -> Seq<Seq<CellState>> {
    Seq::new(
        w,
        |x: int| Seq::new(h, |y: int| next_state(g[x][y] is Alive, neighbors_alive(g, w as int, h as int, x, y))),
    )
}

/// The transient state that the snapshot phase leaves in a steady cell.
pub open spec fn snapshot_cell(c: CellState, n: int) -> CellState {
    if c is Alive {
        CellState::AliveCalculating(n as usize)
    } else {
        CellState::DeadCalculating(n as usize)
    }
}

/// The grid after the snapshot phase of a generation.
pub open spec fn snapshot(g: Seq<Seq<CellState>>, w: nat, h: nat) -> Seq<Seq<CellState>> {
    Seq::new(
        w,
        |x: int| Seq::new(h, |y: int| snapshot_cell(g[x][y], neighbors_alive(g, w as int, h as int, x, y))),
    )
}

/// Two grids whose cells give the same alive signal have the same neighbour counts.
proof fn lemma_same_signals_same_count(a: Seq<Seq<CellState>>, b: Seq<Seq<CellState>>, w: nat, h: nat, x: int, y: int)
    requires
        is_grid(a, w, h),
        is_grid(b, w, h),
        0 <= x < w,
        0 <= y < h,
        forall|i: int, j: int| 0 <= i < w && 0 <= j < h ==> (#[trigger] a[i][j]).counts_alive() == b[i][j].counts_alive(),
    ensures
        neighbors_alive(a, w as int, h as int, x, y) == neighbors_alive(b, w as int, h as int, x, y),
{
}

/// The width of a pattern given as rows: the length of its first row.
pub open spec fn pattern_width(p: Seq<Seq<i32>>) -> int {
    if p.len() == 0 {
        0
    } else {
        p[0].len() as int
    }
}

/// Every row of the pattern has the same length.
pub open spec fn is_rectangular(p: Seq<Seq<i32>>) -> bool {
    forall|r: int| 0 <= r < p.len() ==> (#[trigger] p[r]).len() == pattern_width(p)
}

/// The pattern fits on a `w` by `h` grid.
pub open spec fn fits(p: Seq<Seq<i32>>, w: nat, h: nat) -> bool {
    &&& is_rectangular(p)
    &&& pattern_width(p) <= w
    &&& p.len() <= h
}

/// Where a pattern of extent `part` is placed along an axis of extent `whole`
/// so that it is centred, rounding towards the start.
pub open spec fn centre_offset(whole: int, part: int) -> int {
    (whole - part) / 2
}

/// The grid after the pattern, given as rows, has been written over its
/// centred footprint; the cells outside the footprint keep their state.
pub open spec fn seeded(g: Seq<Seq<CellState>>, w: nat, h: nat, p: Seq<Seq<i32>>) -> Seq<Seq<CellState>> {
    let pw = pattern_width(p);
    let ph = p.len() as int;
    let ox = centre_offset(w as int, pw);
    let oy = centre_offset(h as int, ph);
    Seq::new(
        w,
        |x: int|
            Seq::new(
                h,
                |y: int|
                    if ox <= x < ox + pw && oy <= y < oy + ph {
                        cell_of(p[y - oy][x - ox])
                    } else {
                        g[x][y]
                    },
            ),
    )
}

/// A pattern's rows as plain sequences.
pub open spec fn rows_of(p: Vec<Vec<i32>>) -> Seq<Seq<i32>> {
    Seq::new(p@.len(), |r: int| p@[r]@)
}

/// How many cells of the column are `Alive`.
pub open spec fn column_live(c: Seq<CellState>) -> int
    decreases c.len(),
{
    if c.len() == 0 {
        0
    } else {
        column_live(c.drop_last()) + if c.last() is Alive { 1int } else { 0int }
    }
}

/// How many cells of the grid are `Alive`.
pub open spec fn live_count(g: Seq<Seq<CellState>>) -> int
    decreases g.len(),
{
    if g.len() == 0 {
        0
    } else {
        live_count(g.drop_last()) + column_live(g.last())
    }
}

/// A `width` by `height` grid of cells, stored as `width` columns of `height` cells.
pub struct Board {
    cells: Vec<Vec<CellState>>,
    width: usize,
    height: usize,
}

impl View for Board {
    type V = Seq<Seq<CellState>>;

    closed spec fn view(&self) -> Seq<Seq<CellState>> {
        Seq::new(self.cells@.len(), |x: int| self.cells@[x]@)
    }
}

/// One for a cell that counts as alive, zero otherwise.
fn alive_value(c: CellState) -> (r: usize)
    ensures
        r as int == if c.counts_alive() { 1int } else { 0int },
{
    if c.counts_as_alive() {
        1
    } else {
        0
    }
}

impl Board {
    /// The number of columns.
    pub closed spec fn spec_width(&self) -> nat {
        self.width as nat
    }

    /// The number of cells in each column.
    pub closed spec fn spec_height(&self) -> nat {
        self.height as nat
    }

    /// The cells form a grid of the board's dimensions.
    pub open spec fn wf(&self) -> bool {
        is_grid(self@, self.spec_width(), self.spec_height())
    }

    pub fn width(&self) -> (r: usize)
        ensures
            r == self.spec_width(),
    {
        self.width
    }

    pub fn height(&self) -> (r: usize)
        ensures
            r == self.spec_height(),
    {
        self.height
    }

    /// A board of the given dimensions with every cell dead.
    pub fn initialize(width: usize, height: usize) -> (b: Board)
        ensures
            b.wf(),
            b.spec_width() == width,
            b.spec_height() == height,
            forall|x: int, y: int| 0 <= x < width && 0 <= y < height ==> b@[x][y] == CellState::Dead,
    {
        let mut cells: Vec<Vec<CellState>> = Vec::new();
        let mut x: usize = 0;
        while x < width
            invariant
                x <= width,
                cells@.len() == x,
                forall|i: int| 0 <= i < x ==> (#[trigger] cells@[i])@.len() == height,
                forall|i: int, j: int| 0 <= i < x && 0 <= j < height ==> (#[trigger] cells@[i]@[j]) == CellState::Dead,
            decreases width - x,
        {
            let mut column: Vec<CellState> = Vec::new();
            let mut y: usize = 0;
            while y < height
                invariant
                    y <= height,
                    column@.len() == y,
                    forall|j: int| 0 <= j < y ==> (#[trigger] column@[j]) == CellState::Dead,
                decreases height - y,
            {
                column.push(CellState::Dead);
                y = y + 1;
            }
            cells.push(column);
            x = x + 1;
        }
        Board { cells, width, height }
    }

    /// The state of the cell at `(x, y)`.
    pub fn get(&self, x: usize, y: usize) -> (c: CellState)
        requires
            self.wf(),
            x < self.spec_width(),
            y < self.spec_height(),
        ensures
            c == self@[x as int][y as int],
    {
        self.cells[x][y]
    }

    /// Overwrites the cell at `(x, y)`.
    pub fn set(&mut self, x: usize, y: usize, state: CellState)
        requires
            old(self).wf(),
            x < old(self).spec_width(),
            y < old(self).spec_height(),
        ensures
            final(self).wf(),
            final(self).spec_width() == old(self).spec_width(),
            final(self).spec_height() == old(self).spec_height(),
            final(self)@ == old(self)@.update(x as int, old(self)@[x as int].update(y as int, state)),
    {
        proof {
            assert(self.cells@[x as int]@ == self@[x as int]);
        }
        self.cells[x][y] = state;
        proof {
            assert(self@ =~= old(self)@.update(x as int, old(self)@[x as int].update(y as int, state)));
        }
    }

    /// How many of the eight cells around `(x, y)` count as alive, wrapping
    /// around at the edges. A transient cell counts as the steady state it came
    /// from, so the count is unchanged while a generation is being snapshotted.
    pub fn alive_neighbors(&self, x: usize, y: usize) -> (n: usize)
        requires
            self.wf(),
            x < self.spec_width(),
            y < self.spec_height(),
        ensures
            n == neighbors_alive(self@, self.spec_width() as int, self.spec_height() as int, x as int, y as int),
            n <= 8,
    {
        let xm = if x == 0 { self.width - 1 } else { x - 1 };
        let ym = if y == 0 { self.height - 1 } else { y - 1 };
        let xp = if x + 1 == self.width { 0 } else { x + 1 };
        let yp = if y + 1 == self.height { 0 } else { y + 1 };
        alive_value(self.get(xm, ym)) + alive_value(self.get(xm, y)) + alive_value(self.get(xm, yp))
            + alive_value(self.get(x, ym)) + alive_value(self.get(x, yp)) + alive_value(self.get(xp, ym))
            + alive_value(self.get(xp, y)) + alive_value(self.get(xp, yp))
    }

    /// Advances the board by one generation in two passes. The first pass
    /// replaces every cell by a transient state that holds its neighbour count;
    /// the second resolves each transient state by the standard rule. A cell
    /// that is already transient when the first pass reaches it fails the
    /// generation, and leaves the board partly snapshotted.
    pub fn advance(&mut self) -> (r: Result<(), GridError>)
        requires
            old(self).wf(),
        ensures
            final(self).wf(),
            final(self).spec_width() == old(self).spec_width(),
            final(self).spec_height() == old(self).spec_height(),
            r is Ok <==> all_steady(old(self)@, old(self).spec_width(), old(self).spec_height()),
            r is Ok ==> final(self)@ == next_generation(old(self)@, old(self).spec_width(), old(self).spec_height()),
            r is Ok ==> all_steady(final(self)@, final(self).spec_width(), final(self).spec_height()),
            r matches Err(e) ==> e == GridError::ConcurrentAdvance,
    {
        let ghost g0 = self@;
        let width = self.width;
        let height = self.height;
        let ghost w = width as nat;
        let ghost h = height as nat;
        let ghost snap = snapshot(g0, w, h);
        let mut x: usize = 0;
        while x < width
            invariant
                self.wf(),
                self.spec_width() == w,
                self.spec_height() == h,
                width == w,
                height == h,
                is_grid(g0, w, h),
                g0 == old(self)@,
                w == old(self).spec_width(),
                h == old(self).spec_height(),
                snap == snapshot(g0, w, h),
                x <= width,
                forall|i: int, j: int|
                    0 <= i < w && 0 <= j < h ==> (#[trigger] self@[i][j]) == if i < x { snap[i][j] } else { g0[i][j] },
                forall|i: int, j: int| 0 <= i < x && 0 <= j < h ==> (#[trigger] g0[i][j]).is_steady(),
            decreases width - x,
        {
            let mut y: usize = 0;
            while y < height
                invariant
                    self.wf(),
                    self.spec_width() == w,
                    self.spec_height() == h,
                    width == w,
                    height == h,
                    is_grid(g0, w, h),
                    g0 == old(self)@,
                    w == old(self).spec_width(),
                    h == old(self).spec_height(),
                    snap == snapshot(g0, w, h),
                    x < width,
                    y <= height,
                    forall|i: int, j: int|
                        0 <= i < w && 0 <= j < h ==> (#[trigger] self@[i][j]) == if i < x || (i == x && j < y) {
                            snap[i][j]
                        } else {
                            g0[i][j]
                        },
                    forall|i: int, j: int|
                        0 <= i < w && 0 <= j < h && (i < x || (i == x && j < y)) ==> (#[trigger] g0[i][j]).is_steady(),
                decreases height - y,
            {
                proof {
                    assert forall|i: int, j: int| 0 <= i < w && 0 <= j < h implies (#[trigger] self@[i][j]).counts_alive()
                        == g0[i][j].counts_alive() by {
                        if i < x || (i == x && j < y) {
                            assert(g0[i][j].is_steady());
                        }
                    }
                    lemma_same_signals_same_count(self@, g0, w, h, x as int, y as int);
                }
                let n = self.alive_neighbors(x, y);
                let current = self.get(x, y);
                match current {
                    CellState::Alive => self.set(x, y, CellState::AliveCalculating(n)),
                    CellState::Dead => self.set(x, y, CellState::DeadCalculating(n)),
                    _ => {
                        return Err(GridError::ConcurrentAdvance);
                    },
                }
                y = y + 1;
            }
            x = x + 1;
        }
        let ghost g1 = self@;
        let mut x: usize = 0;
        while x < width
            invariant
                self.wf(),
                self.spec_width() == w,
                self.spec_height() == h,
                width == w,
                height == h,
                is_grid(g0, w, h),
                g0 == old(self)@,
                w == old(self).spec_width(),
                h == old(self).spec_height(),
                snap == snapshot(g0, w, h),
                all_steady(g0, w, h),
                x <= width,
                forall|i: int, j: int|
                    0 <= i < w && 0 <= j < h ==> (#[trigger] self@[i][j]) == if i < x {
                        next_generation(g0, w, h)[i][j]
                    } else {
                        snap[i][j]
                    },
            decreases width - x,
        {
            let mut y: usize = 0;
            while y < height
                invariant
                    self.wf(),
                    self.spec_width() == w,
                    self.spec_height() == h,
                    width == w,
                    height == h,
                    is_grid(g0, w, h),
                    g0 == old(self)@,
                    w == old(self).spec_width(),
                    h == old(self).spec_height(),
                    snap == snapshot(g0, w, h),
                    all_steady(g0, w, h),
                    x < width,
                    y <= height,
                    forall|i: int, j: int|
                        0 <= i < w && 0 <= j < h ==> (#[trigger] self@[i][j]) == if i < x || (i == x && j < y) {
                            next_generation(g0, w, h)[i][j]
                        } else {
                            snap[i][j]
                        },
                decreases height - y,
            {
                let current = self.get(x, y);
                let ghost n = neighbors_alive(g0, w as int, h as int, x as int, y as int);
                assert(0 <= n <= 8);
                assert(g0[x as int][y as int].is_steady());
                let next = match current {
                    CellState::AliveCalculating(count) => {
                        if count < 2 || count > 3 {
                            CellState::Dead
                        } else {
                            CellState::Alive
                        }
                    },
                    CellState::DeadCalculating(count) => {
                        if count == 3 {
                            CellState::Alive
                        } else {
                            CellState::Dead
                        }
                    },
                    _ => {
                        return Err(GridError::PhaseMismatch);
                    },
                };
                self.set(x, y, next);
                y = y + 1;
            }
            x = x + 1;
        }
        proof {
            let target = next_generation(g0, w, h);
            assert forall|i: int| 0 <= i < w implies #[trigger] self@[i] =~= target[i] by {
                assert forall|j: int| 0 <= j < h implies self@[i][j] == target[i][j] by {
                    assert(self@[i][j] == target[i][j]);
                }
            }
            assert(self@ =~= target);
        }
        Ok(())
    }

    /// Writes the pattern, given as rows of 0/1 entries, centred on the board.
    pub fn apply_pattern(&mut self, pattern: &Vec<Vec<i32>>)
        requires
            old(self).wf(),
            fits(rows_of(*pattern), old(self).spec_width(), old(self).spec_height()),
        ensures
            final(self).wf(),
            final(self).spec_width() == old(self).spec_width(),
            final(self).spec_height() == old(self).spec_height(),
            final(self)@ == seeded(old(self)@, old(self).spec_width(), old(self).spec_height(), rows_of(*pattern)),
    {
        let ghost g0 = self@;
        let ghost p = rows_of(*pattern);
        let width = self.width;
        let height = self.height;
        let ghost w = width as nat;
        let ghost h = height as nat;
        let ghost target = seeded(g0, w, h, p);
        let pattern_height = pattern.len();
        let pattern_width = if pattern_height == 0 {
            0
        } else {
            pattern[0].len()
        };
        assert(pattern_width == crate::board::pattern_width(p));
        let px = (width - pattern_width) / 2;
        let py = (height - pattern_height) / 2;
        let mut x: usize = 0;
        while x < width
            invariant
                self.wf(),
                self.spec_width() == w,
                self.spec_height() == h,
                width == w,
                height == h,
                is_grid(g0, w, h),
                g0 == old(self)@,
                w == old(self).spec_width(),
                h == old(self).spec_height(),
                p == rows_of(*pattern),
                fits(p, w, h),
                pattern_width == crate::board::pattern_width(p),
                pattern_height == p.len(),
                px == centre_offset(w as int, pattern_width as int),
                py == centre_offset(h as int, pattern_height as int),
                target == seeded(g0, w, h, p),
                x <= width,
                forall|i: int, j: int|
                    0 <= i < w && 0 <= j < h ==> (#[trigger] self@[i][j]) == if i < x { target[i][j] } else { g0[i][j] },
            decreases width - x,
        {
            let mut y: usize = 0;
            while y < height
                invariant
                    self.wf(),
                    self.spec_width() == w,
                    self.spec_height() == h,
                    width == w,
                    height == h,
                    is_grid(g0, w, h),
                    g0 == old(self)@,
                    w == old(self).spec_width(),
                    h == old(self).spec_height(),
                    p == rows_of(*pattern),
                    fits(p, w, h),
                    pattern_width == crate::board::pattern_width(p),
                    pattern_height == p.len(),
                    px == centre_offset(w as int, pattern_width as int),
                    py == centre_offset(h as int, pattern_height as int),
                    target == seeded(g0, w, h, p),
                    x < width,
                    y <= height,
                    forall|i: int, j: int|
                        0 <= i < w && 0 <= j < h ==> (#[trigger] self@[i][j]) == if i < x || (i == x && j < y) {
                            target[i][j]
                        } else {
                            g0[i][j]
                        },
                decreases height - y,
            {
                if x >= px && x < px + pattern_width && y >= py && y < py + pattern_height {
                    let row = y - py;
                    let col = x - px;
                    assert(pattern@[row as int]@ == p[row as int]);
                    let value = pattern[row][col];
                    self.set(x, y, CellState::from(value));
                }
                y = y + 1;
            }
            x = x + 1;
        }
        proof {
            assert forall|i: int| 0 <= i < w implies #[trigger] self@[i] =~= target[i] by {
                assert forall|j: int| 0 <= j < h implies self@[i][j] == target[i][j] by {
                    assert(self@[i][j] == target[i][j]);
                }
            }
            assert(self@ =~= target);
        }
    }

    /// The number of `Alive` cells on the board.
    pub fn live_cells(&self) -> (n: usize)
        requires
            self.wf(),
            self.spec_width() * self.spec_height() <= usize::MAX,
        ensures
            n == live_count(self@),
    {
        let ghost g = self@;
        let ghost h = self.height as int;
        let mut n: usize = 0;
        let mut x: usize = 0;
        while x < self.width
            invariant
                self.wf(),
                g == self@,
                h == self.spec_height(),
                self.spec_width() * self.spec_height() <= usize::MAX,
                x <= self.spec_width(),
                n == live_count(g.take(x as int)),
                n <= x * h,
            decreases self.width - x,
        {
            let mut y: usize = 0;
            let ghost col = g[x as int];
            while y < self.height
                invariant
                    self.wf(),
                    g == self@,
                    h == self.spec_height(),
                    self.spec_width() * self.spec_height() <= usize::MAX,
                    x < self.spec_width(),
                    col == g[x as int],
                    y <= h,
                    n == live_count(g.take(x as int)) + column_live(col.take(y as int)),
                    n <= x * h + y,
                decreases self.height - y,
            {
                proof {
                    assert(x * h + h <= self.spec_width() * h) by (nonlinear_arith)
                        requires
                            x < self.spec_width(),
                            h >= 0,
                    ;
                    assert(col.take(y + 1).drop_last() =~= col.take(y as int));
                }
                if self.get(x, y).is_alive() {
                    n = n + 1;
                }
                y = y + 1;
            }
            proof {
                assert(col.take(h) =~= col);
                assert(g.take(x + 1).drop_last() =~= g.take(x as int));
                assert((x + 1) * h == x * h + h) by (nonlinear_arith);
            }
            x = x + 1;
        }
        proof {
            assert(g.take(x as int) =~= g);
        }
        n
    }
}

} // verus!
