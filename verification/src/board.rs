//! The tic-tac-toe board: an `n` by `n` grid of marks, drawn with box lines,
//! that takes mouse presses in turn.
use vstd::prelude::*;
use crate::event::{Event, MouseButton, MouseEvent};

verus! {

/// The number of marks in a row of cells.
pub open spec fn row_marks(row: Seq<Option<bool>>) -> nat
    decreases row.len(),
{
    if row.len() == 0 {
        0
    } else {
        row_marks(row.drop_last()) + if row.last().is_some() {
            1nat
        } else {
            0nat
        }
    }
}

/// The number of marks on a grid of cells.
pub open spec fn marks(cells: Seq<Seq<Option<bool>>>) -> nat
    decreases cells.len(),
{
    if cells.len() == 0 {
        0
    } else {
        marks(cells.drop_last()) + row_marks(cells.last())
    }
}

/// A board as a value: its place on the screen, its cells row by row, and
/// how far the game has gone.
///
/// A cell holds `Some(false)` for the first player's mark, drawn `X`, and
/// `Some(true)` for the second player's, drawn `O`.
pub struct Grid {
    /// The number of rows, and of columns.
    pub n: nat,
    /// The column and row of the grid's top left corner on the screen.
    pub pos: (u16, u16),
    /// The cells, `cells[y][x]` in row `y` and column `x`.
    pub cells: Seq<Seq<Option<bool>>>,
    /// Whose turn it is: `false` for the first player.
    pub turn: bool,
    /// The outcome, once a line is complete: `Some(true)` where the first
    /// player has won.
    pub won: Option<bool>,
    /// The number of marks placed.
    pub turns: nat,
}

impl Grid {
    /// Whether a board of `n` rows at `pos` can be drawn and addressed: the
    /// status line above it is on the screen, and every column and row of
    /// the grid is a coordinate below 2^15.
    pub open spec fn fits(pos: (u16, u16), n: nat) -> bool {
        &&& Self::has_status_line(pos)
        &&& pos.0 + 4 * n <= i16::MAX
        &&& pos.1 + 2 * n <= i16::MAX
    }

    /// Whether the row above `pos` exists and the cursor can be sent there.
    pub open spec fn has_status_line(pos: (u16, u16)) -> bool {
        pos.1 >= 1 && (pos.0 != 0 || pos.1 != 1)
    }

    /// The board before the first move.
    pub open spec fn empty(pos: (u16, u16), n: nat) -> Grid {
        Grid {
            n,
            pos,
            cells: Seq::new(n, |y: int| Seq::new(n, |x: int| None::<bool>)),
            turn: false,
            won: None,
            turns: 0,
        }
    }

    /// The grid is square.
    pub open spec fn square(self) -> bool {
        &&& self.cells.len() == self.n
        &&& forall|y: int| 0 <= y < self.n ==> (#[trigger] self.cells[y]).len() == self.n
    }

    /// The grid is square, and it can be drawn and addressed where it is.
    pub open spec fn shaped(self) -> bool {
        self.square() && Self::fits(self.pos, self.n)
    }

    /// What holds of every board: it is shaped, `turns` counts its marks,
    /// the players alternate, and `won` is the outcome on its cells.
    pub open spec fn wf(self) -> bool {
        &&& self.shaped()
        &&& self.turns == marks(self.cells)
        &&& self.turn == (self.turns % 2 == 1)
        &&& self.n > 0 ==> self.won == self.winner()
    }

    /// Whether a mark can go into column `x` of row `y`: the game is not
    /// over and the cell is free.
    pub open spec fn accepts(self, x: int, y: int) -> bool {
        self.won.is_none() && self.cells[y][x].is_none()
    }

    /// The board after the player to move has marked column `x` of row `y`.
    pub open spec fn place(self, x: int, y: int) -> Grid {
        let marked = Grid {
            cells: self.cells.update(y, self.cells[y].update(x, Some(self.turn))),
            turn: !self.turn,
            turns: self.turns + 1,
            ..self
        };
        Grid { won: marked.winner(), ..marked }
    }

    /// The board after an event: a press of the left button on a cell that
    /// accepts a mark places one, and nothing else changes anything.
    pub open spec fn after_input(self, e: Event) -> Grid {
        match e {
            Event::Mouse(MouseEvent::Press(MouseButton::Left, mx, my)) => match self.cell_at(
                (mx, my),
            ) {
                Some(c) => if self.accepts(c.0 as int, c.1 as int) {
                    self.place(c.0 as int, c.1 as int)
                } else {
                    self
                },
                None => self,
            },
            _ => self,
        }
    }

    /// Cell `i` of line `j`. The lines are numbered as they are scanned for
    /// a winner: row 0, column 0, row 1, column 1 and so on, then the
    /// diagonal from the top left, then the one from the top right.
    pub open spec fn line_cell(self, j: int, i: int) -> Option<bool> {
        if j < 2 * self.n {
            if j % 2 == 0 {
                self.cells[j / 2][i]
            } else {
                self.cells[i][j / 2]
            }
        } else if j == 2 * self.n {
            self.cells[i][i]
        } else {
            self.cells[i][self.n - 1 - i]
        }
    }

    /// Every cell of line `j` holds the mark `v`.
    pub open spec fn line_owned(self, j: int, v: bool) -> bool {
        forall|i: int| 0 <= i < self.n ==> #[trigger] self.line_cell(j, i) == Some(v)
    }

    /// Line `j` is complete: one player's mark fills it.
    pub open spec fn line_full(self, j: int) -> bool {
        self.line_owned(j, true) || self.line_owned(j, false)
    }

    /// The outcome that the lines from `j` on give: that of the first
    /// complete one.
    pub open spec fn winner_from(self, j: int) -> Option<bool>
        decreases 2 * self.n + 2 - j,
    {
        if j >= 2 * self.n + 2 {
            None
        } else if self.line_full(j) {
            Some(!self.line_owned(j, true))
        } else {
            self.winner_from(j + 1)
        }
    }

    /// The outcome on the cells as they stand: `Some(true)` where the first
    /// complete line is the first player's, `Some(false)` where it is the
    /// second player's, `None` where no line is complete.
    pub open spec fn winner(self) -> Option<bool> {
        self.winner_from(0)
    }

    /// The cell under the screen position `m`, as column and row, if `m`
    /// lies inside a cell and not on a line: cells are three columns wide
    /// and one row high, with one line between them.
    pub open spec fn cell_at(self, m: (u16, u16)) -> Option<(u16, u16)> {
        let x = m.0 - self.pos.0;
        let y = m.1 - self.pos.1;
        if 0 <= x < 4 * self.n && 0 <= y < 2 * self.n && x % 4 != 0 && y % 2 != 0 {
            Some(((x / 4) as u16, (y / 2) as u16))
        } else {
            None
        }
    }
}

/// Why a board cannot be made.
#[derive(Clone, Copy, Debug, PartialEq, Eq, Structural)]
pub enum BoardError {
    /// There is no row above the grid for the status line.
    NoStatusLine,
    /// The grid reaches past the last coordinate that can be addressed.
    TooLarge,
}

/// A tic-tac-toe board.
pub struct Board {
    board: Vec<Vec<Option<bool>>>,
    turn: bool,
    pos: (u16, u16),
    n: usize,
    won: Option<bool>,
    turns: usize,
}

impl View for Board {
    type V = Grid;

    closed spec fn view(&self) -> Grid {
        Grid {
            n: self.n as nat,
            pos: self.pos,
            cells: Seq::new(self.board@.len(), |y: int| self.board@[y]@),
            turn: self.turn,
            won: self.won,
            turns: self.turns as nat,
        }
    }
}

/// Lines that are not complete do not decide the outcome.
pub proof fn lemma_winner_skips(g: Grid, a: int, b: int)
    requires
        0 <= a <= b,
        forall|j: int| a <= j < b ==> !g.line_full(j),
    ensures
        g.winner_from(a) == g.winner_from(b),
    decreases b - a,
{
    if a < b {
        lemma_winner_skips(g, a + 1, b);
        if a >= 2 * g.n + 2 {
            assert(g.winner_from(b) == None::<bool>);
        }
    }
}

/// The outcome depends on the cells alone.
pub proof fn lemma_winner_of_cells(a: Grid, b: Grid, j: int)
    requires
        a.cells == b.cells,
        a.n == b.n,
    ensures
        a.winner_from(j) == b.winner_from(j),
    decreases 2 * a.n + 2 - j,
{
    if j < 2 * a.n + 2 {
        assert forall|v: bool| a.line_owned(j, v) == b.line_owned(j, v) by {
            assert forall|i: int| a.line_cell(j, i) == b.line_cell(j, i) by {}
            if a.line_owned(j, v) {
                assert forall|i: int| 0 <= i < b.n implies #[trigger] b.line_cell(j, i) == Some(
                    v,
                ) by {
                    assert(a.line_cell(j, i) == Some(v));
                }
            }
            if b.line_owned(j, v) {
                assert forall|i: int| 0 <= i < a.n implies #[trigger] a.line_cell(j, i) == Some(
                    v,
                ) by {
                    assert(b.line_cell(j, i) == Some(v));
                }
            }
        }
        lemma_winner_of_cells(a, b, j + 1);
    }
}

/// A row holds no more marks than cells.
pub proof fn lemma_row_marks_bound(row: Seq<Option<bool>>)
    ensures
        row_marks(row) <= row.len(),
    decreases row.len(),
{
    if row.len() > 0 {
        lemma_row_marks_bound(row.drop_last());
    }
}

/// A grid of `n` rows of `n` cells holds no more than `n * n` marks.
pub proof fn lemma_marks_bound(cells: Seq<Seq<Option<bool>>>, n: nat)
    requires
        forall|y: int| 0 <= y < cells.len() ==> (#[trigger] cells[y]).len() == n,
    ensures
        marks(cells) <= cells.len() * n,
    decreases cells.len(),
{
    if cells.len() > 0 {
        let rest = cells.drop_last();
        assert forall|y: int| 0 <= y < rest.len() implies (#[trigger] rest[y]).len() == n by {
            assert(rest[y] == cells[y]);
        }
        lemma_marks_bound(rest, n);
        lemma_row_marks_bound(cells.last());
        assert(cells.len() * n == rest.len() * n + n) by (nonlinear_arith)
            requires
                cells.len() == rest.len() + 1,
        ;
    } else {
        assert(cells.len() * n == 0) by (nonlinear_arith)
            requires
                cells.len() == 0,
        ;
    }
}

/// Writing one cell of a row changes its count by what leaves and what
/// comes.
pub proof fn lemma_row_marks_update(row: Seq<Option<bool>>, x: int, v: Option<bool>)
    requires
        0 <= x < row.len(),
    ensures
        row_marks(row.update(x, v)) + (if row[x].is_some() { 1nat } else { 0nat })
            == row_marks(row) + (if v.is_some() { 1nat } else { 0nat }),
    decreases row.len(),
{
    let new = row.update(x, v);
    if x == row.len() - 1 {
        assert(new.drop_last() =~= row.drop_last());
    } else {
        assert(new.drop_last() =~= row.drop_last().update(x, v));
        lemma_row_marks_update(row.drop_last(), x, v);
    }
}

/// Replacing one row of a grid changes its count by what leaves and what
/// comes.
pub proof fn lemma_marks_update(cells: Seq<Seq<Option<bool>>>, y: int, row: Seq<Option<bool>>)
    requires
        0 <= y < cells.len(),
    ensures
        marks(cells.update(y, row)) + row_marks(cells[y]) == marks(cells) + row_marks(row),
    decreases cells.len(),
{
    let new = cells.update(y, row);
    if y == cells.len() - 1 {
        assert(new.drop_last() =~= cells.drop_last());
    } else {
        assert(new.drop_last() =~= cells.drop_last().update(y, row));
        lemma_marks_update(cells.drop_last(), y, row);
    }
}

/// A grid without marks counts none.
pub proof fn lemma_marks_none(cells: Seq<Seq<Option<bool>>>)
    requires
        forall|y: int, x: int|
            0 <= y < cells.len() && 0 <= x < cells[y].len() ==> (#[trigger] cells[y][x]).is_none(),
    ensures
        marks(cells) == 0,
    decreases cells.len(),
{
    if cells.len() > 0 {
        let rest = cells.drop_last();
        assert forall|y: int, x: int| 0 <= y < rest.len() && 0 <= x < rest[y].len() implies (
        #[trigger] rest[y][x]).is_none() by {
            assert(rest[y] == cells[y]);
        }
        lemma_marks_none(rest);
        lemma_row_marks_none(cells.last());
    }
}

/// A row without marks counts none.
pub proof fn lemma_row_marks_none(row: Seq<Option<bool>>)
    requires
        forall|x: int| 0 <= x < row.len() ==> (#[trigger] row[x]).is_none(),
    ensures
        row_marks(row) == 0,
    decreases row.len(),
{
    if row.len() > 0 {
        lemma_row_marks_none(row.drop_last());
    }
}

/// A row that counts as many marks as it has cells has no free cell.
pub proof fn lemma_row_full(row: Seq<Option<bool>>)
    requires
        row_marks(row) == row.len(),
    ensures
        forall|x: int| 0 <= x < row.len() ==> (#[trigger] row[x]).is_some(),
    decreases row.len(),
{
    if row.len() > 0 {
        lemma_row_marks_bound(row.drop_last());
        lemma_row_full(row.drop_last());
        assert forall|x: int| 0 <= x < row.len() implies (#[trigger] row[x]).is_some() by {
            if x < row.len() - 1 {
                assert(row[x] == row.drop_last()[x]);
            }
        }
    }
}

/// A grid of rows of `n` cells that counts `n` marks for each row has no
/// free cell.
pub proof fn lemma_grid_full(cells: Seq<Seq<Option<bool>>>, n: nat)
    requires
        forall|y: int| 0 <= y < cells.len() ==> (#[trigger] cells[y]).len() == n,
        marks(cells) == cells.len() * n,
    ensures
        forall|y: int, x: int|
            0 <= y < cells.len() && 0 <= x < n ==> (#[trigger] cells[y][x]).is_some(),
    decreases cells.len(),
{
    if cells.len() > 0 {
        let rest = cells.drop_last();
        assert forall|y: int| 0 <= y < rest.len() implies (#[trigger] rest[y]).len() == n by {
            assert(rest[y] == cells[y]);
        }
        lemma_marks_bound(rest, n);
        lemma_row_marks_bound(cells.last());
        assert(cells.len() * n == rest.len() * n + n) by (nonlinear_arith)
            requires
                cells.len() == rest.len() + 1,
        ;
        lemma_grid_full(rest, n);
        lemma_row_full(cells.last());
        assert forall|y: int, x: int| 0 <= y < cells.len() && 0 <= x < n implies (
        #[trigger] cells[y][x]).is_some() by {
            if y < cells.len() - 1 {
                assert(cells[y] == rest[y]);
                assert(rest[y][x].is_some());
            }
        }
    }
}

/// The status line calls a tie only on a board without a free cell.
pub proof fn lemma_tie_is_full(g: Grid)
    requires
        g.wf(),
        g.turns == g.n * g.n,
    ensures
        forall|y: int, x: int| 0 <= y < g.n && 0 <= x < g.n ==> (#[trigger] g.cells[y][x]).is_some(),
{
    lemma_grid_full(g.cells, g.n);
}

/// Once a line is complete the board takes no more marks: no event
/// changes it.
pub proof fn lemma_won_board_is_closed(g: Grid, e: Event)
    requires
        g.won.is_some(),
    ensures
        g.after_input(e) == g,
{
}

/// A mark goes where the press was, it is the mover's, the turn passes and
/// nothing else on the board changes.
pub proof fn lemma_place(g: Grid, x: int, y: int)
    requires
        g.square(),
        0 <= x < g.n,
        0 <= y < g.n,
    ensures
        g.place(x, y).cells[y][x] == Some(g.turn),
        g.place(x, y).turn == !g.turn,
        g.place(x, y).turns == g.turns + 1,
        g.place(x, y).pos == g.pos,
        g.place(x, y).n == g.n,
        forall|i: int, j: int|
            0 <= i < g.n && 0 <= j < g.n && (i != x || j != y) ==> g.place(x, y).cells[j][i]
                == g.cells[j][i],
{
}

/// Every event leaves a well-formed board well formed.
pub proof fn lemma_after_input_wf(g: Grid, e: Event)
    requires
        g.wf(),
    ensures
        g.after_input(e).wf(),
{
    if let Event::Mouse(MouseEvent::Press(MouseButton::Left, mx, my)) = e {
        if let Some(c) = g.cell_at((mx, my)) {
            let x = c.0 as int;
            let y = c.1 as int;
            if g.accepts(x, y) {
                let row = g.cells[y].update(x, Some(g.turn));
                let marked = Grid {
                    cells: g.cells.update(y, row),
                    turn: !g.turn,
                    turns: g.turns + 1,
                    ..g
                };
                lemma_row_marks_update(g.cells[y], x, Some(g.turn));
                lemma_marks_update(g.cells, y, row);
                lemma_winner_of_cells(marked, g.place(x, y), 0);
                assert(g.place(x, y).square());
            }
        }
    }
}

/// Nobody has won on a board without marks.
pub proof fn lemma_no_winner_on_empty(g: Grid)
    requires
        g.square(),
        g.n > 0,
        forall|y: int, x: int| 0 <= y < g.n && 0 <= x < g.n ==> (#[trigger] g.cells[y][x]).is_none(),
    ensures
        g.winner() == None::<bool>,
{
    assert forall|j: int| 0 <= j < 2 * g.n + 2 implies !g.line_full(j) by {
        assert(g.line_cell(j, 0).is_none());
    }
    lemma_winner_skips(g, 0, (2 * g.n + 2) as int);
}

/// The empty board is well formed wherever it fits.
pub proof fn lemma_empty_wf(pos: (u16, u16), n: nat)
    requires
        Grid::fits(pos, n),
    ensures
        Grid::empty(pos, n).wf(),
{
    let g = Grid::empty(pos, n);
    lemma_marks_none(g.cells);
    if n > 0 {
        lemma_no_winner_on_empty(g);
    }
}

impl Board {
    /// An empty board of `n` rows and columns with its top left corner at
    /// column `pos.0`, row `pos.1`. The first player moves first.
    pub fn new(pos: (u16, u16), n: usize) -> (made: Result<Board, BoardError>)
        ensures
            match made {
                Ok(b) => Grid::fits(pos, n as nat) && b@ == Grid::empty(pos, n as nat) && b@.wf(),
                Err(BoardError::NoStatusLine) => !Grid::has_status_line(pos),
                Err(BoardError::TooLarge) => Grid::has_status_line(pos) && !Grid::fits(
                    pos,
                    n as nat,
                ),
            },
    {
        if pos.1 == 0 || (pos.0 == 0 && pos.1 == 1) {
            return Err(BoardError::NoStatusLine);
        }
        if n > 8191 || pos.0 as usize + 4 * n > 32767 || pos.1 as usize + 2 * n > 32767 {
            return Err(BoardError::TooLarge);
        }
        let mut board: Vec<Vec<Option<bool>>> = Vec::new();
        let mut y: usize = 0;
        while y < n
            invariant
                0 <= y <= n,
                board@.len() == y,
                forall|k: int| 0 <= k < y ==> (#[trigger] board@[k])@.len() == n,
                forall|k: int, i: int| 0 <= k < y && 0 <= i < n ==> (#[trigger] board@[k]@[i]).is_none(),
            decreases n - y,
        {
            let mut row: Vec<Option<bool>> = Vec::new();
            let mut x: usize = 0;
            while x < n
                invariant
                    0 <= x <= n,
                    row@.len() == x,
                    forall|i: int| 0 <= i < x ==> (#[trigger] row@[i]).is_none(),
                decreases n - x,
            {
                row.push(None);
                x = x + 1;
            }
            board.push(row);
            y = y + 1;
        }
        let made = Board { board, turn: false, pos, n, won: None, turns: 0 };
        proof {
            assert(made@.cells =~~= Grid::empty(pos, n as nat).cells);
            lemma_empty_wf(pos, n as nat);
        }
        Ok(made)
    }

    /// Takes every mark off the board and hands the first move back to the
    /// first player.
    pub fn reset(&mut self)
        requires
            old(self)@.wf(),
        ensures
            final(self)@ == Grid::empty(old(self)@.pos, old(self)@.n),
            final(self)@.wf(),
    {
        let n = self.n;
        let mut y: usize = 0;
        proof {
            self.lemma_rows();
        }
        while y < n
            invariant
                0 <= y <= n,
                n == self.n,
                self.pos == old(self).pos,
                self.board@.len() == n,
                forall|k: int| 0 <= k < n ==> (#[trigger] self.board@[k])@.len() == n,
                forall|k: int, i: int| 0 <= k < y && 0 <= i < n ==> (#[trigger] self.board@[k]@[i]).is_none(),
            decreases n - y,
        {
            let mut x: usize = 0;
            while x < n
                invariant
                    0 <= y < n,
                    0 <= x <= n,
                    n == self.n,
                    self.pos == old(self).pos,
                    self.board@.len() == n,
                    forall|k: int| 0 <= k < n ==> (#[trigger] self.board@[k])@.len() == n,
                    forall|k: int, i: int| 0 <= k < y && 0 <= i < n ==> (#[trigger] self.board@[k]@[i]).is_none(),
                    forall|i: int| 0 <= i < x ==> (#[trigger] self.board@[y as int]@[i]).is_none(),
                decreases n - x,
            {
                self.board[y][x] = None;
                x = x + 1;
            }
            y = y + 1;
        }
        self.turn = false;
        self.won = None;
        self.turns = 0;
        proof {
            assert(self@.cells =~~= Grid::empty(self.pos, n as nat).cells);
            lemma_empty_wf(self.pos, n as nat);
        }
    }

    /// Takes an event: a press of the left mouse button on a free cell,
    /// while the game is open, puts the mover's mark there, passes the turn
    /// and looks for a winner. Every other event leaves the board as it is.
    pub fn input(&mut self, e: &Event)
        requires
            old(self)@.wf(),
        ensures
            final(self)@ == old(self)@.after_input(*e),
            final(self)@.wf(),
    {
        match e {
            Event::Mouse(MouseEvent::Press(MouseButton::Left, x, y)) => {
                if let Some(cell) = self.getcell((*x, *y)) {
                    let cx = cell.0 as usize;
                    let cy = cell.1 as usize;
                    if self.won.is_none() && self.board[cy][cx].is_none() {
                        let ghost before = self@;
                        proof {
                            lemma_after_input_wf(before, *e);
                            lemma_marks_bound(before.cells, before.n);
                            assert(before.n * before.n <= 8191 * 8191) by (nonlinear_arith)
                                requires
                                    before.n <= 8191,
                            ;
                        }
                        self.board[cy][cx] = Some(self.turn);
                        self.turn = !self.turn;
                        self.turns = self.turns + 1;
                        proof {
                            let row = before.cells[cy as int].update(cx as int, Some(before.turn));
                            assert(self@.cells =~~= before.cells.update(cy as int, row));
                        }
                        self.won = self.winner();
                    }
                }
            },
            _ => (),
        }
    }

    /// The number of rows, and of columns.
    pub fn size(&self) -> (n: usize)
        ensures
            n == self@.n,
    {
        self.n
    }

    /// The column and row of the grid's top left corner on the screen.
    pub fn pos(&self) -> (pos: (u16, u16))
        ensures
            pos == self@.pos,
    {
        self.pos
    }

    /// Whose turn it is: `false` for the first player.
    pub fn turn(&self) -> (turn: bool)
        ensures
            turn == self@.turn,
    {
        self.turn
    }

    /// The number of marks placed.
    pub fn turns(&self) -> (turns: usize)
        ensures
            turns == self@.turns,
    {
        self.turns
    }

    /// The outcome, once a line is complete: `Some(true)` where the first
    /// player has won.
    pub fn won(&self) -> (won: Option<bool>)
        ensures
            won == self@.won,
    {
        self.won
    }

    /// The mark in column `x` of row `y`.
    pub fn cell(&self, x: usize, y: usize) -> (mark: Option<bool>)
        requires
            self@.square(),
            x < self@.n,
            y < self@.n,
        ensures
            mark == self@.cells[y as int][x as int],
    {
        proof {
            self.lemma_rows();
        }
        self.board[y][x]
    }

    /// The rows of a square board, as they are stored.
    proof fn lemma_rows(&self)
        requires
            self@.square(),
        ensures
            self.board@.len() == self.n,
            forall|k: int| 0 <= k < self.n ==> (#[trigger] self.board@[k])@.len() == self.n,
            forall|k: int, i: int|
                0 <= k < self.n && 0 <= i < self.n ==> self@.cells[k][i] == #[trigger] self.board@[k]@[i],
    {
        assert forall|k: int| 0 <= k < self.n implies (#[trigger] self.board@[k])@.len()
            == self.n by {
            assert(self@.cells[k].len() == self.n);
        }
    }

    /// The cell under the screen position `mpos`, as column and row.
    pub fn getcell(&self, mpos: (u16, u16)) -> (cell: Option<(u16, u16)>)
        requires
            self@.shaped(),
        ensures
            cell == self@.cell_at(mpos),
    {
        if mpos.0 < self.pos.0 || mpos.1 < self.pos.1 {
            return None;
        }
        let x: u16 = mpos.0 - self.pos.0;
        let y: u16 = mpos.1 - self.pos.1;
        if x as usize >= self.n * 4 || y as usize >= self.n * 2 || x % 4 == 0 || y % 2 == 0 {
            None
        } else {
            Some((x / 4, y / 2))
        }
    }
    /// The outcome on the cells as they stand. The board is left as it
    /// was.
    pub fn winner(&mut self) -> (w: Option<bool>)
        requires
            old(self)@.shaped(),
        ensures
            *final(self) == *old(self),
            w == old(self)@.winner(),
    {
        let ghost g = self@;
        let n = self.n;
        let full: i32 = n as i32;
        let mut y: usize = 0;
        while y < n
            invariant
                g == self@,
                *self == *old(self),
                g.square(),
                n == self.n,
                n == g.n,
                full == n,
                n <= 8191,
                0 <= y <= n,
                forall|j: int| 0 <= j < 2 * y ==> !g.line_full(j),
            decreases n - y,
        {
            let mut a: i32 = 0;
            let mut b: i32 = 0;
            let mut x: usize = 0;
            while x < n
                invariant
                    g == self@,
                    g.square(),
                    n == self.n,
                    n == g.n,
                    n <= 8191,
                    0 <= y < n,
                    0 <= x <= n,
                    -x <= a <= x,
                    -x <= b <= x,
                    a == x <==> forall|i: int| 0 <= i < x ==> #[trigger] g.line_cell(2 * y, i) == Some(true),
                    a == -x <==> forall|i: int| 0 <= i < x ==> #[trigger] g.line_cell(2 * y, i) == Some(false),
                    b == x <==> forall|i: int| 0 <= i < x ==> #[trigger] g.line_cell(2 * y + 1, i) == Some(true),
                    b == -x <==> forall|i: int| 0 <= i < x ==> #[trigger] g.line_cell(2 * y + 1, i) == Some(false),
                decreases n - x,
            {
                assert(g.line_cell(2 * y, x as int) == self.board[y as int][x as int]);
                assert(g.line_cell(2 * y + 1, x as int) == self.board[x as int][y as int]);
                if let Some(v) = self.board[y][x] {
                    a = a + if v { 1 } else { -1 };
                }
                if let Some(v) = self.board[x][y] {
                    b = b + if v { 1 } else { -1 };
                }
                x = x + 1;
            }
            if a == full || a == -full {
                proof {
                    assert(g.line_full(2 * y));
                    lemma_winner_skips(g, 0, 2 * y);
                }
                return Some(a < 0);
            }
            if b == full || b == -full {
                proof {
                    assert(g.line_full(2 * y + 1));
                    lemma_winner_skips(g, 0, 2 * y + 1);
                }
                return Some(b < 0);
            }
            y = y + 1;
        }
        let mut a: i32 = 0;
        let mut b: i32 = 0;
        let mut i: usize = 0;
        while i < n
            invariant
                g == self@,
                g.square(),
                n == self.n,
                n == g.n,
                n <= 8191,
                0 <= i <= n,
                -i <= a <= i,
                -i <= b <= i,
                a == i <==> forall|k: int| 0 <= k < i ==> #[trigger] g.line_cell(2 * n, k) == Some(true),
                a == -i <==> forall|k: int| 0 <= k < i ==> #[trigger] g.line_cell(2 * n, k) == Some(false),
                b == i <==> forall|k: int| 0 <= k < i ==> #[trigger] g.line_cell(2 * n + 1, k) == Some(true),
                b == -i <==> forall|k: int| 0 <= k < i ==> #[trigger] g.line_cell(2 * n + 1, k) == Some(false),
            decreases n - i,
        {
            assert(g.line_cell(2 * n, i as int) == self.board[i as int][i as int]);
            assert(g.line_cell(2 * n + 1, i as int) == self.board[i as int][n - 1 - i]);
            if let Some(v) = self.board[i][i] {
                a = a + if v { 1 } else { -1 };
            }
            if let Some(v) = self.board[i][n - i - 1] {
                b = b + if v { 1 } else { -1 };
            }
            i = i + 1;
        }
        if a == full || a == -full {
            proof {
                assert(g.line_full(2 * n));
                lemma_winner_skips(g, 0, 2 * n);
            }
            return Some(a < 0);
        }
        if b == full || b == -full {
            proof {
                assert(g.line_full(2 * n + 1));
                lemma_winner_skips(g, 0, 2 * n + 1);
            }
            return Some(b < 0);
        }
        proof {
            lemma_winner_skips(g, 0, 2 * n + 2);
        }
        None
    }
}

} // verus!
