//! A fixed-grid cellular automaton with the classic birth and survival rule.

use vstd::prelude::*;

verus! {

/// Number of cells in one row of the field.
pub const GAME_FIELD_WIDTH: u32 = 49;

/// Number of rows of the field.
pub const GAME_FIELD_HEIGHT: u32 = 40;

/// Number of cells of the whole field, rows times columns.
pub const GAME_FIELD_CELLS: usize = 1960;

#[derive(Debug, Clone, Copy, PartialEq, Eq, Structural)]
pub enum GameState {
    Playing,
    Paused,
}

#[derive(Debug, Clone, Copy, PartialEq, Eq, Structural)]
pub enum CellState {
    Alive,
    Dead,
}

#[derive(Debug, Clone, Copy, PartialEq, Eq, Structural)]
pub struct Cell {
    pub posx: i32,
    pub posy: i32,
    pub state: CellState,
}

#[derive(Debug, Clone, Copy, PartialEq, Eq)]
pub struct GameOfLife {
    pub state: GameState,
    field: [Cell; GAME_FIELD_CELLS],
}

/// Whether column `x`, row `y` lies on the field.
pub open spec fn in_field(x: int, y: int) -> bool {
    0 <= x < GAME_FIELD_WIDTH && 0 <= y < GAME_FIELD_HEIGHT
}

/// Where the cell of column `x`, row `y` is stored: the field is kept row by row.
pub open spec fn field_index(x: int, y: int) -> int {
    x + y * GAME_FIELD_WIDTH
}

/// The field of a fresh game: every cell dead, and labelled with its row in `posx` and
/// its column in `posy`.
pub open spec fn blank_field() -> Seq<Cell> {
    Seq::new(
        GAME_FIELD_CELLS as nat,
        |u: int|
            Cell {
                posx: (u / GAME_FIELD_WIDTH as int) as i32,
                posy: (u % GAME_FIELD_WIDTH as int) as i32,
                state: CellState::Dead,
            },
    )
}

/// 1 if the position `(x, y)` lies on the field and holds a living cell that differs
/// from `cell`, else 0. Positions off the field count as dead.
pub open spec fn counted(cells: Seq<Cell>, cell: Cell, x: int, y: int) -> int {
    if in_field(x, y) && cells[field_index(x, y)] != cell && cells[field_index(x, y)].state
        == CellState::Alive {
        1
    } else {
        0
    }
}

/// How many of the eight positions around the cell stored at `u` are counted as living
/// neighbours of it.
pub open spec fn live_neighbours(cells: Seq<Cell>, u: int) -> int {
    let x = u % GAME_FIELD_WIDTH as int;
    let y = u / GAME_FIELD_WIDTH as int;
    let c = cells[u];
    counted(cells, c, x - 1, y - 1) + counted(cells, c, x - 1, y) + counted(cells, c, x - 1, y + 1)
        + counted(cells, c, x, y - 1) + counted(cells, c, x, y + 1) + counted(
        cells,
        c,
        x + 1,
        y - 1,
    ) + counted(cells, c, x + 1, y) + counted(cells, c, x + 1, y + 1)
}

/// The rule of the game: a cell with fewer than two or more than three living
/// neighbours is dead, one with exactly three is alive, one with exactly two stays as
/// it is.
pub open spec fn next_state(state: CellState, neighbours: int) -> CellState {
    if neighbours < 2 || neighbours > 3 {
        CellState::Dead
    } else if neighbours == 3 {
        CellState::Alive
    } else {
        state
    }
}

/// One generation: every cell gets its next state from the field as it was before the
/// step, and keeps its labels.
pub open spec fn next_generation(cells: Seq<Cell>) -> Seq<Cell> {
    Seq::new(
        cells.len(),
        |u: int|
            Cell {
                posx: cells[u].posx,
                posy: cells[u].posy,
                state: next_state(cells[u].state, live_neighbours(cells, u)),
            },
    )
}

/// The neighbours counted among the first `k` of the nine offsets around `(x, y)`,
/// taken column by column; the fifth offset is the cell itself and never counts.
spec fn counted_before(cells: Seq<Cell>, cell: Cell, x: int, y: int, k: int) -> int
    decreases k,
{
    if k <= 0 {
        0
    } else {
        counted_before(cells, cell, x, y, k - 1) + if k - 1 == 4 {
            0
        } else {
            counted(cells, cell, x + (k - 1) / 3 - 1, y + (k - 1) % 3 - 1)
        }
    }
}

proof fn lemma_counted_before_all(cells: Seq<Cell>, u: int)
    ensures
        counted_before(
            cells,
            cells[u],
            u % GAME_FIELD_WIDTH as int,
            u / GAME_FIELD_WIDTH as int,
            9,
        ) == live_neighbours(cells, u),
{
    reveal_with_fuel(counted_before, 10);
}

impl View for GameOfLife {
    type V = Seq<Cell>;

    closed spec fn view(&self) -> Seq<Cell> {
        self.field@
    }
}

impl GameOfLife {
    /// Whether the game is running or halted: the value of the field `state`.
    pub closed spec fn phase(&self) -> GameState {
        self.state
    }

    /// The field always has one cell for every position.
    pub proof fn lemma_len(&self)
        ensures
            self@.len() == GAME_FIELD_CELLS,
    {
    }

    pub fn new() -> (game: GameOfLife)
        ensures
            game.phase() == GameState::Paused,
            game@ == blank_field(),
    {
        let mut pg = [Cell::new(0, 0, CellState::Dead);GAME_FIELD_CELLS];
        let mut i: u32 = 0;
        while i < GAME_FIELD_HEIGHT
            invariant
                i <= GAME_FIELD_HEIGHT,
                forall|u: int| 0 <= u < i * GAME_FIELD_WIDTH ==> pg@[u] == blank_field()[u],
            decreases GAME_FIELD_HEIGHT - i,
        {
            let mut j: u32 = 0;
            while j < GAME_FIELD_WIDTH
                invariant
                    i < GAME_FIELD_HEIGHT,
                    j <= GAME_FIELD_WIDTH,
                    forall|u: int|
                        0 <= u < i * GAME_FIELD_WIDTH + j ==> pg@[u] == blank_field()[u],
                decreases GAME_FIELD_WIDTH - j,
            {
                pg[(j + i * GAME_FIELD_WIDTH) as usize] = Cell::new(
                    i as i32,
                    j as i32,
                    CellState::Dead,
                );
                j += 1;
            }
            i += 1;
        }
        GameOfLife { state: GameState::Paused, field: pg }
    }

    pub fn get(&self, x: i32, y: i32) -> (cell: Option<Cell>)
        ensures
            cell == if in_field(x as int, y as int) {
                Some(self@[field_index(x as int, y as int)])
            } else {
                None
            },
    {
        if x >= 0 && y >= 0 && (x as u32) < GAME_FIELD_WIDTH && (y as u32) < GAME_FIELD_HEIGHT {
            return Some(self.field[(x as u32 + (y as u32) * GAME_FIELD_WIDTH) as usize]);
        } else {
            return None;
        }
    }

    pub fn get_mut(&mut self, x: i32, y: i32) -> (cell: Option<&mut Cell>)
        ensures
            final(self).phase() == old(self).phase(),
            in_field(x as int, y as int) ==> cell is Some && *cell->0 == old(self)@[field_index(
                x as int,
                y as int,
            )] && final(self)@ == old(self)@.update(
                field_index(x as int, y as int),
                *final(cell->0),
            ),
            !in_field(x as int, y as int) ==> cell is None && final(self)@ == old(self)@,
    {
        if x >= 0 && y >= 0 && (x as u32) < GAME_FIELD_WIDTH && (y as u32) < GAME_FIELD_HEIGHT {
            return Some(&mut self.field[(x as u32 + (y as u32) * GAME_FIELD_WIDTH) as usize]);
        } else {
            return None;
        }
    }

    pub fn toggle_state(&mut self)
        ensures
            final(self)@ == old(self)@,
            final(self).phase() == match old(self).phase() {
                GameState::Paused => GameState::Playing,
                GameState::Playing => GameState::Paused,
            },
    {
        self.state =
        match self.state {
            GameState::Paused => GameState::Playing,
            GameState::Playing => GameState::Paused,
        }
    }

    /// The cells of the field, row by row.
    pub fn cells(&self) -> (cells: Vec<Cell>)
        ensures
            cells@ == self@,
    {
        let mut cells: Vec<Cell> = Vec::new();
        let mut u: usize = 0;
        while u < GAME_FIELD_CELLS
            invariant
                u <= GAME_FIELD_CELLS,
                cells@ == self.field@.take(u as int),
            decreases GAME_FIELD_CELLS - u,
        {
            cells.push(self.field[u]);
            u += 1;
        }
        cells
    }

    /// Counts the living neighbours of `cell`, which stands in column `x`, row `y`.
    fn count_neighbours(&self, cell: Cell, x: u32, y: u32) -> (count: u32)
        requires
            x < GAME_FIELD_WIDTH,
            y < GAME_FIELD_HEIGHT,
        ensures
            count == counted_before(self@, cell, x as int, y as int, 9),
    {
        let mut count: u32 = 0;
        let mut i: i32 = -1;
        while i < 2
            invariant
                -1 <= i <= 2,
                x < GAME_FIELD_WIDTH,
                y < GAME_FIELD_HEIGHT,
                0 <= count <= 3 * (i + 1),
                count == counted_before(self@, cell, x as int, y as int, 3 * (i + 1)),
            decreases 2 - i,
        {
            let mut j: i32 = -1;
            while j < 2
                invariant
                    -1 <= i < 2,
                    -1 <= j <= 2,
                    x < GAME_FIELD_WIDTH,
                    y < GAME_FIELD_HEIGHT,
                    0 <= count <= 3 * (i + 1) + (j + 1),
                    count == counted_before(
                        self@,
                        cell,
                        x as int,
                        y as int,
                        3 * (i + 1) + (j + 1),
                    ),
                decreases 2 - j,
            {
                proof {
                    reveal_with_fuel(counted_before, 2);
                }
                if !(i == 0 && j == 0) {
                    let px: i32 = (x as i32) + i;
                    let py: i32 = (y as i32) + j;
                    let c = match self.get(px, py) {
                        Some(c) => c,
                        None => Cell::new(0, 0, CellState::Dead),
                    };
                    if c != cell {
                        if c.state == CellState::Alive {
                            count += 1;
                        }
                    }
                }
                j += 1;
            }
            i += 1;
        }
        count
    }

    pub fn update(&mut self)
        ensures
            final(self).phase() == old(self).phase(),
            old(self).phase() == GameState::Paused ==> final(self)@ == old(self)@,
            old(self).phase() == GameState::Playing ==> final(self)@ == next_generation(old(self)@),
    {
        match self.state {
            GameState::Paused => {},
            GameState::Playing => {
                let mut tmp_field = self.field;
                let mut u: usize = 0;
                while u < GAME_FIELD_CELLS
                    invariant
                        u <= GAME_FIELD_CELLS,
                        self.state == old(self).state,
                        self.field == old(self).field,
                        forall|k: int|
                            0 <= k < u ==> tmp_field@[k] == next_generation(self.field@)[k],
                        forall|k: int|
                            u <= k < GAME_FIELD_CELLS ==> tmp_field@[k] == self.field@[k],
                    decreases GAME_FIELD_CELLS - u,
                {
                    let x = (u as u32) % GAME_FIELD_WIDTH;
                    let y = (u as u32) / GAME_FIELD_WIDTH;
                    let mut cell = tmp_field[u];
                    let count = self.count_neighbours(cell, x, y);
                    proof {
                        lemma_counted_before_all(self.field@, u as int);
                    }
                    if count < 2 {
                        cell.state = CellState::Dead;
                    } else if count > 3 {
                        cell.state = CellState::Dead;
                    } else if count == 3 {
                        cell.state = CellState::Alive;
                    }
                    tmp_field[u] = cell;
                    u += 1;
                }
                self.field = tmp_field;
            },
        }
    }
}

impl Cell {
    pub fn new(x: i32, y: i32, state: CellState) -> (cell: Cell)
        ensures
            cell == (Cell { posx: x, posy: y, state }),
    {
        return Cell { posx: x, posy: y, state };
    }

    pub fn toggle_state(&mut self)
        ensures
            final(self).posx == old(self).posx,
            final(self).posy == old(self).posy,
            final(self).state == match old(self).state {
                CellState::Dead => CellState::Alive,
                CellState::Alive => CellState::Dead,
            },
    {
        self.state =
        match self.state {
            CellState::Dead => CellState::Alive,
            CellState::Alive => CellState::Dead,
        }
    }
}

} // verus!
