//! The process-wide engine: a grid that is created once, guarded against use
//! before creation and after a failed generation, and driven by plain calls.
use vstd::prelude::*;
use crate::board::{
    Board,
    all_steady,
    fits,
    is_rectangular,
    live_count,
    neighbors_alive,
    next_generation,
    rows_of,
    seeded,
};
use crate::cell::{CellState, GridError};

verus! {

/// The owner of the grid. It starts without a grid; `rust_init` creates one,
/// once. A generation that fails leaves the grid corrupted, and every later
/// access reports so.
pub struct Life {
    board: Board,
    initialized: bool,
    corrupted: bool,
}

impl Life {
    /// The grid; meaningful once it has been created.
    pub closed spec fn spec_board(&self) -> Board {
        self.board
    }

    /// Whether the grid has been created.
    pub closed spec fn is_initialized(&self) -> bool {
        self.initialized
    }

    /// Whether a failed generation has left the grid in a broken state.
    pub closed spec fn is_corrupted(&self) -> bool {
        self.corrupted
    }

    /// The grid is well formed, and only a created grid can be corrupted.
    pub open spec fn wf(&self) -> bool {
        &&& self.spec_board().wf()
        &&& self.is_corrupted() ==> self.is_initialized()
    }

    /// Why the grid cannot be used now, if it cannot.
    pub open spec fn access_error(&self) -> Option<GridError> {
        if !self.is_initialized() {
            Some(GridError::NotInitialized)
        } else if self.is_corrupted() {
            Some(GridError::StateCorrupted)
        } else {
            None
        }
    }

    /// Why the cell at `(x, y)` cannot be used now, if it cannot.
    pub open spec fn cell_error(&self, x: int, y: int) -> Option<GridError> {
        match self.access_error() {
            Some(e) => Some(e),
            None => if x >= self.spec_board().spec_width() || y >= self.spec_board().spec_height() {
                Some(GridError::OutOfBounds)
            } else {
                None
            },
        }
    }

    /// The cells of the grid.
    pub open spec fn cells(&self) -> Seq<Seq<CellState>> {
        self.spec_board()@
    }

    /// `self` is `before` with the cells of its grid replaced by `g`.
    pub open spec fn holds_cells(&self, before: Life, g: Seq<Seq<CellState>>) -> bool {
        &&& self.wf()
        &&& self.is_initialized() == before.is_initialized()
        &&& self.is_corrupted() == before.is_corrupted()
        &&& self.spec_board().spec_width() == before.spec_board().spec_width()
        &&& self.spec_board().spec_height() == before.spec_board().spec_height()
        &&& self.cells() == g
    }

    /// An engine without a grid.
    pub fn new() -> (life: Life)
        ensures
            life.wf(),
            !life.is_initialized(),
            !life.is_corrupted(),
    {
        Life { board: Board::initialize(0, 0), initialized: false, corrupted: false }
    }
}

impl Board {
    /// The grid of the engine, if it has been created and is not corrupted.
    pub fn instance(life: &Life) -> (r: Result<&Board, GridError>)
        ensures
            match life.access_error() {
                Some(e) => r == Err::<&Board, GridError>(e),
                None => r matches Ok(b) && *b == life.spec_board(),
            },
    {
        if !life.initialized {
            Err(GridError::NotInitialized)
        } else if life.corrupted {
            Err(GridError::StateCorrupted)
        } else {
            Ok(&life.board)
        }
    }
}

/// Creates the grid, every cell dead. Fails if a grid was already created.
pub fn rust_init(life: &mut Life, width: usize, height: usize) -> (r: Result<(), GridError>)
    requires
        old(life).wf(),
    ensures
        final(life).wf(),
        old(life).is_initialized() ==> r == Err::<(), GridError>(GridError::AlreadyInitialized) && *final(life)
            == *old(life),
        !old(life).is_initialized() ==> {
            &&& r is Ok
            &&& final(life).is_initialized()
            &&& !final(life).is_corrupted()
            &&& final(life).spec_board().spec_width() == width
            &&& final(life).spec_board().spec_height() == height
            &&& forall|x: int, y: int|
                0 <= x < width && 0 <= y < height ==> final(life).cells()[x][y] == CellState::Dead
        },
{
    if life.initialized {
        return Err(GridError::AlreadyInitialized);
    }
    life.board = Board::initialize(width, height);
    life.initialized = true;
    Ok(())
}

/// The state of the cell at `(x, y)`.
pub fn rust_get_cell(life: &Life, x: usize, y: usize) -> (r: Result<CellState, GridError>)
    requires
        life.wf(),
    ensures
        match life.cell_error(x as int, y as int) {
            Some(e) => r == Err::<CellState, GridError>(e),
            None => r == Ok::<CellState, GridError>(life.cells()[x as int][y as int]),
        },
{
    let board = match Board::instance(life) {
        Ok(b) => b,
        Err(e) => {
            return Err(e);
        },
    };
    if x >= board.width() || y >= board.height() {
        return Err(GridError::OutOfBounds);
    }
    Ok(board.get(x, y))
}

/// Overwrites the cell at `(x, y)`, bypassing the rule.
pub fn rust_set_cell(life: &mut Life, x: usize, y: usize, state: CellState) -> (r: Result<(), GridError>)
    requires
        old(life).wf(),
    ensures
        match old(life).cell_error(x as int, y as int) {
            Some(e) => r == Err::<(), GridError>(e) && *final(life) == *old(life),
            None => r is Ok && final(life).holds_cells(
                *old(life),
                old(life).cells().update(x as int, old(life).cells()[x as int].update(y as int, state)),
            ),
        },
{
    match Board::instance(life) {
        Ok(b) => {
            if x >= b.width() || y >= b.height() {
                return Err(GridError::OutOfBounds);
            }
        },
        Err(e) => {
            return Err(e);
        },
    }
    life.board.set(x, y, state);
    Ok(())
}

/// How many of the eight cells around `(x, y)` count as alive, wrapping around
/// at the edges of the grid.
pub fn rust_get_alive_neighbohrs(life: &Life, x: usize, y: usize) -> (r: Result<usize, GridError>)
    requires
        life.wf(),
    ensures
        match life.cell_error(x as int, y as int) {
            Some(e) => r == Err::<usize, GridError>(e),
            None => r matches Ok(n) && n == neighbors_alive(
                life.cells(),
                life.spec_board().spec_width() as int,
                life.spec_board().spec_height() as int,
                x as int,
                y as int,
            ) && n <= 8,
        },
{
    let board = match Board::instance(life) {
        Ok(b) => b,
        Err(e) => {
            return Err(e);
        },
    };
    if x >= board.width() || y >= board.height() {
        return Err(GridError::OutOfBounds);
    }
    Ok(board.alive_neighbors(x, y))
}

/// Advances the grid by one generation. Succeeds exactly when every cell is
/// steady beforehand; otherwise the grid is left corrupted.
pub fn rust_tick(life: &mut Life) -> (r: Result<(), GridError>)
    requires
        old(life).wf(),
    ensures
        final(life).wf(),
        match old(life).access_error() {
            Some(e) => r == Err::<(), GridError>(e) && *final(life) == *old(life),
            None => {
                let w = old(life).spec_board().spec_width();
                let h = old(life).spec_board().spec_height();
                &&& r is Ok <==> all_steady(old(life).cells(), w, h)
                &&& r is Ok ==> final(life).holds_cells(*old(life), next_generation(old(life).cells(), w, h))
                &&& r is Ok ==> all_steady(final(life).cells(), w, h)
                &&& r is Err ==> r == Err::<(), GridError>(GridError::ConcurrentAdvance) && final(life).is_corrupted()
            },
        },
{
    match Board::instance(life) {
        Ok(_) => {},
        Err(e) => {
            return Err(e);
        },
    }
    let r = life.board.advance();
    if r.is_err() {
        life.corrupted = true;
    }
    r
}

/// The number of live cells on the grid.
pub fn number_of_live_cells(life: &Life) -> (r: Result<usize, GridError>)
    requires
        life.wf(),
        life.spec_board().spec_width() * life.spec_board().spec_height() <= usize::MAX,
    ensures
        match life.access_error() {
            Some(e) => r == Err::<usize, GridError>(e),
            None => r == Ok::<usize, GridError>(live_count(life.cells()) as usize),
        },
{
    match Board::instance(life) {
        Ok(b) => Ok(b.live_cells()),
        Err(e) => Err(e),
    }
}

/// What seeding `p` does: `after` is `before` with `p` written centred on its
/// grid, or unchanged with the reason why the grid cannot be used.
pub open spec fn seeds(before: Life, after: Life, r: Result<(), GridError>, p: Seq<Seq<i32>>) -> bool {
    match before.access_error() {
        Some(e) => r == Err::<(), GridError>(e) && after == before,
        None => r is Ok && after.holds_cells(
            before,
            seeded(before.cells(), before.spec_board().spec_width(), before.spec_board().spec_height(), p),
        ),
    }
}

/// Writes the pattern, given as rows of 0/1 entries, centred on the grid.
/// Cells outside the pattern's footprint keep their state.
pub fn apply_pattern(life: &mut Life, integer_pattern: &Vec<Vec<i32>>) -> (r: Result<(), GridError>)
    requires
        old(life).wf(),
        old(life).access_error() is None ==> fits(
            rows_of(*integer_pattern),
            old(life).spec_board().spec_width(),
            old(life).spec_board().spec_height(),
        ),
    ensures
        seeds(*old(life), *final(life), r, rows_of(*integer_pattern)),
{
    match Board::instance(life) {
        Ok(_) => {},
        Err(e) => {
            return Err(e);
        },
    }
    life.board.apply_pattern(integer_pattern);
    Ok(())
}

/// The built-in patterns, by number.
pub open spec fn catalog_pattern(id: int) -> Seq<Seq<i32>> {
    if id == 1 {
        seq![
            seq![0, 1, 0],
            seq![0, 0, 1],
            seq![1, 1, 1],
        ]
    } else if id == 2 {
        seq![
            seq![0, 0, 0, 0, 0, 0, 0, 0, 0, 0, 0, 0, 0, 0, 0, 0, 0, 0, 0, 0, 0, 0, 0, 0, 0, 0, 0, 0, 0, 0, 0, 0, 0, 0, 0, 0],
            seq![0, 0, 0, 0, 0, 0, 0, 0, 0, 0, 0, 0, 0, 0, 0, 0, 0, 0, 0, 0, 0, 0, 0, 0, 1, 0, 0, 0, 0, 0, 0, 0, 0, 0, 0, 0],
            seq![0, 0, 0, 0, 0, 0, 0, 0, 0, 0, 0, 0, 0, 0, 0, 0, 0, 0, 0, 0, 0, 0, 1, 0, 1, 0, 0, 0, 0, 0, 0, 0, 0, 0, 0, 0],
            seq![0, 0, 0, 0, 0, 0, 0, 0, 0, 0, 0, 0, 1, 1, 0, 0, 0, 0, 0, 0, 1, 1, 0, 0, 0, 0, 0, 0, 0, 0, 0, 0, 0, 0, 1, 1],
            seq![0, 0, 0, 0, 0, 0, 0, 0, 0, 0, 0, 1, 0, 0, 0, 1, 0, 0, 0, 0, 1, 1, 0, 0, 0, 0, 0, 0, 0, 0, 0, 0, 0, 0, 1, 1],
            seq![1, 1, 0, 0, 0, 0, 0, 0, 0, 0, 1, 0, 0, 0, 0, 0, 1, 0, 0, 0, 1, 1, 0, 0, 0, 0, 0, 0, 0, 0, 0, 0, 0, 0, 0, 0],
            seq![1, 1, 0, 0, 0, 0, 0, 0, 0, 0, 1, 0, 0, 0, 1, 0, 1, 1, 0, 0, 0, 0, 1, 0, 1, 0, 0, 0, 0, 0, 0, 0, 0, 0, 0, 0],
            seq![0, 0, 0, 0, 0, 0, 0, 0, 0, 0, 1, 0, 0, 0, 0, 0, 1, 0, 0, 0, 0, 0, 0, 0, 1, 0, 0, 0, 0, 0, 0, 0, 0, 0, 0, 0],
            seq![0, 0, 0, 0, 0, 0, 0, 0, 0, 0, 0, 1, 0, 0, 0, 1, 0, 0, 0, 0, 0, 0, 0, 0, 0, 0, 0, 0, 0, 0, 0, 0, 0, 0, 0, 0],
            seq![0, 0, 0, 0, 0, 0, 0, 0, 0, 0, 0, 0, 1, 1, 0, 0, 0, 0, 0, 0, 0, 0, 0, 0, 0, 0, 0, 0, 0, 0, 0, 0, 0, 0, 0, 0],
            seq![0, 0, 0, 0, 0, 0, 0, 0, 0, 0, 0, 0, 0, 0, 0, 0, 0, 0, 0, 0, 0, 0, 0, 0, 0, 0, 0, 0, 0, 0, 0, 0, 0, 0, 0, 0],
        ]
    } else if id == 3 {
        seq![
            seq![1, 0, 0, 0, 0, 0],
            seq![1, 0, 0, 0, 0, 0],
            seq![1, 1, 0, 0, 0, 0],
            seq![0, 0, 1, 0, 0, 0],
            seq![0, 0, 0, 0, 1, 1],
            seq![0, 0, 0, 0, 1, 0],
        ]
    } else if id == 4 {
        seq![
            seq![0, 0, 1, 1, 0, 0],
            seq![1, 1, 0, 0, 1, 1],
            seq![1, 0, 0, 0, 0, 1],
            seq![1, 0, 0, 0, 0, 1],
            seq![1, 0, 0, 0, 0, 1],
            seq![1, 0, 0, 0, 0, 1],
            seq![1, 1, 1, 1, 1, 1],
            seq![1, 1, 1, 1, 1, 1],
            seq![1, 1, 1, 1, 1, 1],
            seq![1, 1, 1, 1, 1, 1],
        ]
    } else {
        seq![]
    }
}

/// Seeds the catalogue pattern number 1, a glider, centred on the grid.
pub fn set_pattern_1(life: &mut Life) -> (r: Result<(), GridError>)
    requires
        old(life).wf(),
        old(life).access_error() is None ==> fits(
            catalog_pattern(1),
            old(life).spec_board().spec_width(),
            old(life).spec_board().spec_height(),
        ),
    ensures
        seeds(*old(life), *final(life), r, catalog_pattern(1)),
{
    let pattern: Vec<Vec<i32>> = vec![
        vec![0, 1, 0],
        vec![0, 0, 1],
        vec![1, 1, 1],
    ];
    proof {
        assert(rows_of(pattern) =~~= catalog_pattern(1));
    }
    apply_pattern(life, &pattern)
}

/// Seeds the catalogue pattern number 2, a glider gun, centred on the grid.
pub fn set_pattern_2(life: &mut Life) -> (r: Result<(), GridError>)
    requires
        old(life).wf(),
        old(life).access_error() is None ==> fits(
            catalog_pattern(2),
            old(life).spec_board().spec_width(),
            old(life).spec_board().spec_height(),
        ),
    ensures
        seeds(*old(life), *final(life), r, catalog_pattern(2)),
{
    let pattern: Vec<Vec<i32>> = vec![
        vec![0, 0, 0, 0, 0, 0, 0, 0, 0, 0, 0, 0, 0, 0, 0, 0, 0, 0, 0, 0, 0, 0, 0, 0, 0, 0, 0, 0, 0, 0, 0, 0, 0, 0, 0, 0],
        vec![0, 0, 0, 0, 0, 0, 0, 0, 0, 0, 0, 0, 0, 0, 0, 0, 0, 0, 0, 0, 0, 0, 0, 0, 1, 0, 0, 0, 0, 0, 0, 0, 0, 0, 0, 0],
        vec![0, 0, 0, 0, 0, 0, 0, 0, 0, 0, 0, 0, 0, 0, 0, 0, 0, 0, 0, 0, 0, 0, 1, 0, 1, 0, 0, 0, 0, 0, 0, 0, 0, 0, 0, 0],
        vec![0, 0, 0, 0, 0, 0, 0, 0, 0, 0, 0, 0, 1, 1, 0, 0, 0, 0, 0, 0, 1, 1, 0, 0, 0, 0, 0, 0, 0, 0, 0, 0, 0, 0, 1, 1],
        vec![0, 0, 0, 0, 0, 0, 0, 0, 0, 0, 0, 1, 0, 0, 0, 1, 0, 0, 0, 0, 1, 1, 0, 0, 0, 0, 0, 0, 0, 0, 0, 0, 0, 0, 1, 1],
        vec![1, 1, 0, 0, 0, 0, 0, 0, 0, 0, 1, 0, 0, 0, 0, 0, 1, 0, 0, 0, 1, 1, 0, 0, 0, 0, 0, 0, 0, 0, 0, 0, 0, 0, 0, 0],
        vec![1, 1, 0, 0, 0, 0, 0, 0, 0, 0, 1, 0, 0, 0, 1, 0, 1, 1, 0, 0, 0, 0, 1, 0, 1, 0, 0, 0, 0, 0, 0, 0, 0, 0, 0, 0],
        vec![0, 0, 0, 0, 0, 0, 0, 0, 0, 0, 1, 0, 0, 0, 0, 0, 1, 0, 0, 0, 0, 0, 0, 0, 1, 0, 0, 0, 0, 0, 0, 0, 0, 0, 0, 0],
        vec![0, 0, 0, 0, 0, 0, 0, 0, 0, 0, 0, 1, 0, 0, 0, 1, 0, 0, 0, 0, 0, 0, 0, 0, 0, 0, 0, 0, 0, 0, 0, 0, 0, 0, 0, 0],
        vec![0, 0, 0, 0, 0, 0, 0, 0, 0, 0, 0, 0, 1, 1, 0, 0, 0, 0, 0, 0, 0, 0, 0, 0, 0, 0, 0, 0, 0, 0, 0, 0, 0, 0, 0, 0],
        vec![0, 0, 0, 0, 0, 0, 0, 0, 0, 0, 0, 0, 0, 0, 0, 0, 0, 0, 0, 0, 0, 0, 0, 0, 0, 0, 0, 0, 0, 0, 0, 0, 0, 0, 0, 0],
    ];
    proof {
        assert(rows_of(pattern) =~~= catalog_pattern(2));
    }
    apply_pattern(life, &pattern)
}

/// Seeds the catalogue pattern number 3, centred on the grid.
pub fn set_pattern_3(life: &mut Life) -> (r: Result<(), GridError>)
    requires
        old(life).wf(),
        old(life).access_error() is None ==> fits(
            catalog_pattern(3),
            old(life).spec_board().spec_width(),
            old(life).spec_board().spec_height(),
        ),
    ensures
        seeds(*old(life), *final(life), r, catalog_pattern(3)),
{
    let pattern: Vec<Vec<i32>> = vec![
        vec![1, 0, 0, 0, 0, 0],
        vec![1, 0, 0, 0, 0, 0],
        vec![1, 1, 0, 0, 0, 0],
        vec![0, 0, 1, 0, 0, 0],
        vec![0, 0, 0, 0, 1, 1],
        vec![0, 0, 0, 0, 1, 0],
    ];
    proof {
        assert(rows_of(pattern) =~~= catalog_pattern(3));
    }
    apply_pattern(life, &pattern)
}

/// Seeds the catalogue pattern number 4, centred on the grid.
pub fn set_pattern_4(life: &mut Life) -> (r: Result<(), GridError>)
    requires
        old(life).wf(),
        old(life).access_error() is None ==> fits(
            catalog_pattern(4),
            old(life).spec_board().spec_width(),
            old(life).spec_board().spec_height(),
        ),
    ensures
        seeds(*old(life), *final(life), r, catalog_pattern(4)),
{
    let pattern: Vec<Vec<i32>> = vec![
        vec![0, 0, 1, 1, 0, 0],
        vec![1, 1, 0, 0, 1, 1],
        vec![1, 0, 0, 0, 0, 1],
        vec![1, 0, 0, 0, 0, 1],
        vec![1, 0, 0, 0, 0, 1],
        vec![1, 0, 0, 0, 0, 1],
        vec![1, 1, 1, 1, 1, 1],
        vec![1, 1, 1, 1, 1, 1],
        vec![1, 1, 1, 1, 1, 1],
        vec![1, 1, 1, 1, 1, 1],
    ];
    proof {
        assert(rows_of(pattern) =~~= catalog_pattern(4));
    }
    apply_pattern(life, &pattern)
}

/// A `width` by `height` pattern of zeros.
pub open spec fn dead_pattern(width: nat, height: nat) -> Seq<Seq<i32>> {
    Seq::new(height, |r: int| Seq::new(width, |c: int| 0i32))
}

/// Sets every cell of the grid dead.
pub fn set_pattern_all_dead(life: &mut Life) -> (r: Result<(), GridError>)
    requires
        old(life).wf(),
    ensures
        seeds(
            *old(life),
            *final(life),
            r,
            dead_pattern(old(life).spec_board().spec_width(), old(life).spec_board().spec_height()),
        ),
        r is Ok ==> forall|x: int, y: int|
            0 <= x < final(life).spec_board().spec_width() && 0 <= y < final(life).spec_board().spec_height()
                ==> final(life).cells()[x][y] == CellState::Dead,
{
    let (width, height) = match Board::instance(life) {
        Ok(b) => (b.width(), b.height()),
        Err(e) => {
            return Err(e);
        },
    };
    let mut pattern: Vec<Vec<i32>> = Vec::new();
    let mut r: usize = 0;
    while r < height
        invariant
            r <= height,
            pattern@.len() == r,
            forall|k: int| 0 <= k < r ==> (#[trigger] pattern@[k])@ == Seq::new(width as nat, |c: int| 0i32),
        decreases height - r,
    {
        let mut row: Vec<i32> = Vec::new();
        let mut c: usize = 0;
        while c < width
            invariant
                c <= width,
                row@ =~= Seq::new(c as nat, |k: int| 0i32),
            decreases width - c,
        {
            row.push(0);
            c = c + 1;
        }
        assert(row@ == Seq::new(width as nat, |c: int| 0i32));
        pattern.push(row);
        r = r + 1;
    }
    let ghost p = dead_pattern(width as nat, height as nat);
    assert forall|k: int| 0 <= k < height implies #[trigger] rows_of(pattern)[k] =~= p[k] by {
        assert(pattern@[k]@ == Seq::new(width as nat, |c: int| 0i32));
    }
    assert(rows_of(pattern) =~= p);
    let out = apply_pattern(life, &pattern);
    proof {
        let g = seeded(old(life).cells(), width as nat, height as nat, p);
        assert forall|x: int, y: int| 0 <= x < width && 0 <= y < height implies g[x][y] == CellState::Dead by {
            assert(p[y][x] == 0i32);
        }
    }
    out
}

/// Seeds the catalogue pattern with the given number; any other number clears
/// the grid.
pub fn rust_reset(life: &mut Life, pattern: usize) -> (r: Result<(), GridError>)
    requires
        old(life).wf(),
        1 <= pattern <= 4 && old(life).access_error() is None ==> fits(
            catalog_pattern(pattern as int),
            old(life).spec_board().spec_width(),
            old(life).spec_board().spec_height(),
        ),
    ensures
        1 <= pattern <= 4 ==> seeds(*old(life), *final(life), r, catalog_pattern(pattern as int)),
        !(1 <= pattern <= 4) ==> seeds(
            *old(life),
            *final(life),
            r,
            dead_pattern(old(life).spec_board().spec_width(), old(life).spec_board().spec_height()),
        ),
        !(1 <= pattern <= 4) && r is Ok ==> forall|x: int, y: int|
            0 <= x < final(life).spec_board().spec_width() && 0 <= y < final(life).spec_board().spec_height()
                ==> final(life).cells()[x][y] == CellState::Dead,
{
    match pattern {
        1 => set_pattern_1(life),
        2 => set_pattern_2(life),
        3 => set_pattern_3(life),
        4 => set_pattern_4(life),
        _ => set_pattern_all_dead(life),
    }
}

/// Whether the cell at `(x, y)` is alive.
pub fn read_cell(life: &Life, x: usize, y: usize) -> (r: Result<bool, GridError>)
    requires
        life.wf(),
    ensures
        match life.cell_error(x as int, y as int) {
            Some(e) => r == Err::<bool, GridError>(e),
            None => r == Ok::<bool, GridError>(life.cells()[x as int][y as int] is Alive),
        },
{
    match rust_get_cell(life, x, y) {
        Ok(c) => Ok(c.is_alive()),
        Err(e) => Err(e),
    }
}

/// Sets the cell at `(x, y)` alive or dead, bypassing the rule.
pub fn write_cell(life: &mut Life, x: usize, y: usize, alive: bool) -> (r: Result<(), GridError>)
    requires
        old(life).wf(),
    ensures
        match old(life).cell_error(x as int, y as int) {
            Some(e) => r == Err::<(), GridError>(e) && *final(life) == *old(life),
            None => r is Ok && final(life).holds_cells(
                *old(life),
                old(life).cells().update(
                    x as int,
                    old(life).cells()[x as int].update(y as int, if alive { CellState::Alive } else { CellState::Dead }),
                ),
            ),
        },
{
    rust_set_cell(life, x, y, if alive { CellState::Alive } else { CellState::Dead })
}

/// Whether `rust_reset` may be called with this pattern number: the grid
/// cannot be used, or the number selects no catalogue pattern, or the
/// selected pattern fits on the grid.
pub fn catalog_fits(life: &Life, pattern: usize) -> (r: bool)
    requires
        life.wf(),
    ensures
        r == (1 <= pattern <= 4 && life.access_error() is None ==> fits(
            catalog_pattern(pattern as int),
            life.spec_board().spec_width(),
            life.spec_board().spec_height(),
        )),
{
    let board = match Board::instance(life) {
        Ok(b) => b,
        Err(_) => {
            return true;
        },
    };
    let (pattern_width, pattern_height): (usize, usize) = match pattern {
        1 => (3, 3),
        2 => (36, 11),
        3 => (6, 6),
        4 => (6, 10),
        _ => {
            return true;
        },
    };
    proof {
        let p = catalog_pattern(pattern as int);
        assert(p.len() == pattern_height);
        assert(p[0].len() == pattern_width);
        assert(is_rectangular(p));
    }
    pattern_width <= board.width() && pattern_height <= board.height()
}

/// A freshly created grid reads dead everywhere: after creation with
/// dimensions `width` by `height`, every coordinate inside the grid is
/// accessible and its cell is not alive.
pub proof fn lemma_created_grid_reads_dead(life: Life, width: usize, height: usize)
    requires
        life.wf(),
        life.is_initialized(),
        !life.is_corrupted(),
        life.spec_board().spec_width() == width,
        life.spec_board().spec_height() == height,
        forall|x: int, y: int| 0 <= x < width && 0 <= y < height ==> life.cells()[x][y] == CellState::Dead,
    ensures
        forall|x: int, y: int|
            0 <= x < width && 0 <= y < height ==> (#[trigger] life.cell_error(x, y)) is None && !(life.cells()[x][y] is Alive),
{
}

/// Advancing is deterministic: two engines whose grids hold the same cells
/// step to grids that hold the same cells.
pub proof fn lemma_advance_deterministic(a: Life, b: Life, a_next: Life, b_next: Life)
    requires
        a.wf(),
        b.wf(),
        a.cells() == b.cells(),
        a.spec_board().spec_width() == b.spec_board().spec_width(),
        a.spec_board().spec_height() == b.spec_board().spec_height(),
        a_next.holds_cells(a, next_generation(a.cells(), a.spec_board().spec_width(), a.spec_board().spec_height())),
        b_next.holds_cells(b, next_generation(b.cells(), b.spec_board().spec_width(), b.spec_board().spec_height())),
    ensures
        a_next.cells() == b_next.cells(),
{
}

} // verus!
