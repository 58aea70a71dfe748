//! How a board is drawn: the status line, the grid of box lines, the marks.
use vstd::prelude::*;
use crate::board::{Board, Grid};
use crate::compositor::{compose, glyph, Edge, Junction};
use crate::escape::{
    bold, bold_text, fg_green, fg_red, fg_reset, fg_reset_text, fg_text, goto, goto_text, left,
    left_text, plain, plain_text,
};
use crate::text::{appended, emit, emit_char, lemma_appended_nothing, lemma_concat_assoc};

verus! {

/// One arm of a crossing: none where the line does not go on, else heavy
/// on the border of the grid and light inside it.
pub open spec fn arm(present: bool, heavy: bool) -> Edge {
    if !present {
        Edge::Absent
    } else if heavy {
        Edge::HeavyLine
    } else {
        Edge::LightLine
    }
}

/// The colour a mark is drawn in: red for the first player's, green for the
/// second player's.
pub open spec fn ink_text(mark: bool) -> Seq<char> {
    if mark {
        fg_text(2)
    } else {
        fg_text(1)
    }
}

/// The letter a mark is drawn as.
pub open spec fn letter(mark: bool) -> char {
    if mark {
        'O'
    } else {
        'X'
    }
}

impl Grid {
    /// The lines that meet at crossing `x` of rule `y`, both counted from
    /// the top left corner up to `n`: the border of the grid is heavy, the
    /// lines inside it are light. A grid without cells is drawn as its
    /// bottom right corner alone.
    pub open spec fn crossing(self, x: int, y: int) -> Junction {
        if self.n == 0 {
            Junction {
                top: Edge::HeavyLine,
                right: Edge::Absent,
                bottom: Edge::Absent,
                left: Edge::HeavyLine,
            }
        } else {
            Junction {
                top: arm(y > 0, x == 0 || x == self.n),
                right: arm(x < self.n, y == 0 || y == self.n),
                bottom: arm(y < self.n, x == 0 || x == self.n),
                left: arm(x > 0, y == 0 || y == self.n),
            }
        }
    }

    /// A stretch of rule `y` between two crossings.
    pub open spec fn bar(self, y: int) -> Junction {
        Junction {
            top: Edge::Absent,
            right: arm(true, y == 0 || y == self.n),
            bottom: Edge::Absent,
            left: arm(true, y == 0 || y == self.n),
        }
    }

    /// The upright line to the left of column `x`, beside a cell.
    pub open spec fn post(self, x: int) -> Junction {
        Junction {
            top: arm(true, x == 0 || x == self.n),
            right: Edge::Absent,
            bottom: arm(true, x == 0 || x == self.n),
            left: Edge::Absent,
        }
    }

    /// The status line above the grid: a tie once the board is full, else
    /// the winner if there is one, else whose turn it is.
    pub open spec fn status_text(self) -> Seq<char> {
        let above = goto_text(self.pos.0, (self.pos.1 - 1) as u16);
        if self.turns == self.n * self.n {
            above + fg_reset_text() + bold_text() + "TIE!"@ + plain_text()
        } else if let Some(first) = self.won {
            ink_text(!first) + above + bold_text() + seq![letter(!first)] + fg_reset_text()
                + plain_text() + " won!"@
        } else {
            fg_reset_text() + above + "Turn: "@ + ink_text(self.turn) + bold_text() + seq![
                letter(self.turn),
            ] + fg_reset_text() + plain_text()
        }
    }

    /// The first `k` crossings of rule `y`, each with the stretch of line that
    /// follows it.
    pub open spec fn rule_upto(self, y: int, k: int) -> Seq<char>
        decreases k,
    {
        if k <= 0 {
            Seq::empty()
        } else {
            let bar = seq![glyph(self.bar(y))];
            self.rule_upto(y, k - 1) + seq![glyph(self.crossing(k - 1, y))] + bar + bar + bar
        }
    }

    /// Rule `y` from end to end.
    pub open spec fn rule_text(self, y: int) -> Seq<char> {
        self.rule_upto(y, self.n as int) + seq![glyph(self.crossing(self.n as int, y))]
    }

    /// The cell in column `x` of row `y` with the upright line before it:
    /// the mark in its colour and in bold between two blanks, or three
    /// blanks.
    pub open spec fn cell_text(self, x: int, y: int) -> Seq<char> {
        let post = seq![glyph(self.post(x))];
        match self.cells[y][x] {
            Some(mark) => post + ink_text(mark) + " "@ + bold_text() + seq![letter(mark)]
                + plain_text() + fg_reset_text() + " "@,
            None => post + " "@ + bold_text() + seq![' '] + plain_text() + fg_reset_text() + " "@,
        }
    }

    /// The first `k` cells of row `y`.
    pub open spec fn cells_upto(self, y: int, k: int) -> Seq<char>
        decreases k,
    {
        if k <= 0 {
            Seq::empty()
        } else {
            self.cells_upto(y, k - 1) + self.cell_text(k - 1, y)
        }
    }

    /// Row `y` of cells from end to end.
    pub open spec fn cells_text(self, y: int) -> Seq<char> {
        self.cells_upto(y, self.n as int) + seq![glyph(self.post(self.n as int))]
    }

    /// The way from the end of one screen line of the grid to the start of
    /// the next.
    pub open spec fn newline_text(self) -> Seq<char> {
        "\n"@ + left_text((4 * self.n + 1) as u16)
    }

    /// The first `k` rows of the grid, each with the rule above it.
    pub open spec fn rows_upto(self, k: int) -> Seq<char>
        decreases k,
    {
        if k <= 0 {
            Seq::empty()
        } else {
            self.rows_upto(k - 1) + self.rule_text(k - 1) + self.newline_text() + self.cells_text(
                k - 1,
            ) + self.newline_text()
        }
    }

    /// The board as it is drawn: the status line, then the grid from its
    /// top left corner down to the bottom rule.
    pub open spec fn text(self) -> Seq<char> {
        self.status_text() + goto_text(self.pos.0, self.pos.1) + self.rows_upto(self.n as int)
            + self.rule_text(self.n as int)
    }

    /// A row more: the rows so far, then the rule, the cells and the two
    /// ways back to the left edge.
    proof fn lemma_rows_step(self, head: Seq<char>, y: int)
        requires
            0 <= y,
        ensures
            head + self.rows_upto(y + 1) == head + self.rows_upto(y) + self.rule_text(y)
                + self.newline_text() + self.cells_text(y) + self.newline_text(),
    {
        assert(head + self.rows_upto(y + 1) =~= head + self.rows_upto(y) + self.rule_text(y)
            + self.newline_text() + self.cells_text(y) + self.newline_text());
    }
}

impl Board {
    /// Draws the board into `buff`: the status line, then the grid with the
    /// marks in it. What `buff` held stays in front.
    pub fn render(&self, buff: &mut Vec<u8>)
        requires
            self@.wf(),
        ensures
            appended(old(buff)@, final(buff)@, self@.text()),
    {
        let ghost start = buff@;
        let ghost t = Seq::<char>::empty();
        let ghost mut w = Seq::<char>::empty();
        proof {
            lemma_appended_nothing(start);
            lemma_concat_assoc(t, w, w);
        }
        self.put_status(buff, Ghost(start), Ghost(t + w));
        proof {
            lemma_concat_assoc(t, w, self@.status_text());
            w = w + self@.status_text();
            assert(w =~= self@.status_text());
        }
        let pos = self.pos();
        let home = goto(pos.0, pos.1);
        emit(buff, home.as_str(), Ghost(start), Ghost(t + w));
        proof {
            lemma_concat_assoc(t, w, home@);
            w = w + home@;
        }
        let n = self.size();
        let mut y: usize = 0;
        while y < n
            invariant
                self@.wf(),
                n == self@.n,
                pos == self@.pos,
                0 <= y <= n,
                appended(start, buff@, t + w),
                w == self@.status_text() + goto_text(pos.0, pos.1) + self@.rows_upto(y as int),
            decreases n - y,
        {
            self.put_rule(buff, y, Ghost(start), Ghost(t + w));
            proof {
                lemma_concat_assoc(t, w, self@.rule_text(y as int));
                w = w + self@.rule_text(y as int);
            }
            self.put_newline(buff, Ghost(start), Ghost(t + w));
            proof {
                lemma_concat_assoc(t, w, self@.newline_text());
                w = w + self@.newline_text();
            }
            self.put_cells(buff, y, Ghost(start), Ghost(t + w));
            proof {
                lemma_concat_assoc(t, w, self@.cells_text(y as int));
                w = w + self@.cells_text(y as int);
            }
            self.put_newline(buff, Ghost(start), Ghost(t + w));
            proof {
                lemma_concat_assoc(t, w, self@.newline_text());
                w = w + self@.newline_text();
                self@.lemma_rows_step(
                    self@.status_text() + goto_text(pos.0, pos.1),
                    y as int,
                );
            }
            y = y + 1;
        }
        self.put_rule(buff, n, Ghost(start), Ghost(t + w));
        proof {
            lemma_concat_assoc(t, w, self@.rule_text(n as int));
            w = w + self@.rule_text(n as int);
            assert(t + w =~= w);
        }
    }

    /// One arm of a crossing.
    fn arm(present: bool, heavy: bool) -> (e: Edge)
        ensures
            e == arm(present, heavy),
    {
        if !present {
            Edge::Absent
        } else if heavy {
            Edge::HeavyLine
        } else {
            Edge::LightLine
        }
    }

    /// The glyph at crossing `x` of rule `y`.
    fn crossing(&self, x: usize, y: usize) -> (c: char)
        ensures
            c == glyph(self@.crossing(x as int, y as int)),
    {
        let n = self.size();
        if n == 0 {
            compose(
                Junction {
                    top: Edge::HeavyLine,
                    right: Edge::Absent,
                    bottom: Edge::Absent,
                    left: Edge::HeavyLine,
                },
            )
        } else {
            compose(
                Junction {
                    top: Self::arm(y > 0, x == 0 || x == n),
                    right: Self::arm(x < n, y == 0 || y == n),
                    bottom: Self::arm(y < n, x == 0 || x == n),
                    left: Self::arm(x > 0, y == 0 || y == n),
                },
            )
        }
    }

    /// The glyph of a stretch of rule `y`.
    fn bar(&self, y: usize) -> (c: char)
        ensures
            c == glyph(self@.bar(y as int)),
    {
        let side = Self::arm(true, y == 0 || y == self.size());
        compose(Junction { top: Edge::Absent, right: side, bottom: Edge::Absent, left: side })
    }

    /// The glyph of the upright line to the left of column `x`.
    fn post(&self, x: usize) -> (c: char)
        ensures
            c == glyph(self@.post(x as int)),
    {
        let side = Self::arm(true, x == 0 || x == self.size());
        compose(Junction { top: side, right: Edge::Absent, bottom: side, left: Edge::Absent })
    }

    /// The colour of a mark.
    fn ink(mark: bool) -> (s: String)
        ensures
            s@ == ink_text(mark),
    {
        if mark {
            fg_green()
        } else {
            fg_red()
        }
    }

    /// The letter of a mark.
    fn letter(mark: bool) -> (c: char)
        ensures
            c == letter(mark),
    {
        if mark {
            'O'
        } else {
            'X'
        }
    }

    /// Writes the status line.
    fn put_status(
        &self,
        buff: &mut Vec<u8>,
        Ghost(start): Ghost<Seq<u8>>,
        Ghost(t): Ghost<Seq<char>>,
    )
        requires
            self@.wf(),
            appended(start, old(buff)@, t),
        ensures
            appended(start, final(buff)@, t + self@.status_text()),
    {
        let n = self.size();
        assert(n * n <= 8191 * 8191) by (nonlinear_arith)
            requires
                n <= 8191,
        ;
        if self.turns() == n * n {
            self.put_tie(buff, Ghost(start), Ghost(t));
        } else if let Some(first) = self.won() {
            self.put_won(buff, first, Ghost(start), Ghost(t));
        } else {
            self.put_turn(buff, Ghost(start), Ghost(t));
        }
    }

    /// Writes the status line of a full board.
    fn put_tie(
        &self,
        buff: &mut Vec<u8>,
        Ghost(start): Ghost<Seq<u8>>,
        Ghost(t): Ghost<Seq<char>>,
    )
        requires
            self@.wf(),
            self@.turns == self@.n * self@.n,
            appended(start, old(buff)@, t),
        ensures
            appended(start, final(buff)@, t + self@.status_text()),
    {
        let ghost mut w = Seq::<char>::empty();
        proof {
            lemma_concat_assoc(t, w, w);
        }
        let pos = self.pos();
        let above = goto(pos.0, pos.1 - 1);
        let reset = fg_reset();
        let strong = bold();
        let normal = plain();
        emit(buff, above.as_str(), Ghost(start), Ghost(t + w));
        proof {
            lemma_concat_assoc(t, w, above@);
            w = w + above@;
        }
        emit(buff, reset.as_str(), Ghost(start), Ghost(t + w));
        proof {
            lemma_concat_assoc(t, w, reset@);
            w = w + reset@;
        }
        emit(buff, strong.as_str(), Ghost(start), Ghost(t + w));
        proof {
            lemma_concat_assoc(t, w, strong@);
            w = w + strong@;
        }
        emit(buff, "TIE!", Ghost(start), Ghost(t + w));
        proof {
            lemma_concat_assoc(t, w, "TIE!"@);
            w = w + "TIE!"@;
        }
        emit(buff, normal.as_str(), Ghost(start), Ghost(t + w));
        proof {
            lemma_concat_assoc(t, w, normal@);
            w = w + normal@;
        }
        assert(w =~= self@.status_text());
    }

    /// Writes the status line of a board that the first player has won,
    /// where `first` holds, and else the second.
    fn put_won(
        &self,
        buff: &mut Vec<u8>,
        first: bool,
        Ghost(start): Ghost<Seq<u8>>,
        Ghost(t): Ghost<Seq<char>>,
    )
        requires
            self@.wf(),
            self@.turns != self@.n * self@.n,
            self@.won == Some(first),
            appended(start, old(buff)@, t),
        ensures
            appended(start, final(buff)@, t + self@.status_text()),
    {
        let ghost mut w = Seq::<char>::empty();
        proof {
            lemma_concat_assoc(t, w, w);
        }
        let pos = self.pos();
        let above = goto(pos.0, pos.1 - 1);
        let reset = fg_reset();
        let strong = bold();
        let normal = plain();
        let ink = Self::ink(!first);
        emit(buff, ink.as_str(), Ghost(start), Ghost(t + w));
        proof {
            lemma_concat_assoc(t, w, ink@);
            w = w + ink@;
        }
        emit(buff, above.as_str(), Ghost(start), Ghost(t + w));
        proof {
            lemma_concat_assoc(t, w, above@);
            w = w + above@;
        }
        emit(buff, strong.as_str(), Ghost(start), Ghost(t + w));
        proof {
            lemma_concat_assoc(t, w, strong@);
            w = w + strong@;
        }
        emit_char(buff, Self::letter(!first), Ghost(start), Ghost(t + w));
        proof {
            lemma_concat_assoc(t, w, seq![letter(!first)]);
            w = w + seq![letter(!first)];
        }
        emit(buff, reset.as_str(), Ghost(start), Ghost(t + w));
        proof {
            lemma_concat_assoc(t, w, reset@);
            w = w + reset@;
        }
        emit(buff, normal.as_str(), Ghost(start), Ghost(t + w));
        proof {
            lemma_concat_assoc(t, w, normal@);
            w = w + normal@;
        }
        emit(buff, " won!", Ghost(start), Ghost(t + w));
        proof {
            lemma_concat_assoc(t, w, " won!"@);
            w = w + " won!"@;
        }
        assert(w =~= self@.status_text());
    }

    /// Writes the status line of an open game.
    fn put_turn(
        &self,
        buff: &mut Vec<u8>,
        Ghost(start): Ghost<Seq<u8>>,
        Ghost(t): Ghost<Seq<char>>,
    )
        requires
            self@.wf(),
            self@.turns != self@.n * self@.n,
            self@.won.is_none(),
            appended(start, old(buff)@, t),
        ensures
            appended(start, final(buff)@, t + self@.status_text()),
    {
        let ghost mut w = Seq::<char>::empty();
        proof {
            lemma_concat_assoc(t, w, w);
        }
        let pos = self.pos();
        let turn = self.turn();
        let above = goto(pos.0, pos.1 - 1);
        let reset = fg_reset();
        let strong = bold();
        let normal = plain();
        let ink = Self::ink(turn);
        emit(buff, reset.as_str(), Ghost(start), Ghost(t + w));
        proof {
            lemma_concat_assoc(t, w, reset@);
            w = w + reset@;
        }
        emit(buff, above.as_str(), Ghost(start), Ghost(t + w));
        proof {
            lemma_concat_assoc(t, w, above@);
            w = w + above@;
        }
        emit(buff, "Turn: ", Ghost(start), Ghost(t + w));
        proof {
            lemma_concat_assoc(t, w, "Turn: "@);
            w = w + "Turn: "@;
        }
        emit(buff, ink.as_str(), Ghost(start), Ghost(t + w));
        proof {
            lemma_concat_assoc(t, w, ink@);
            w = w + ink@;
        }
        emit(buff, strong.as_str(), Ghost(start), Ghost(t + w));
        proof {
            lemma_concat_assoc(t, w, strong@);
            w = w + strong@;
        }
        emit_char(buff, Self::letter(turn), Ghost(start), Ghost(t + w));
        proof {
            lemma_concat_assoc(t, w, seq![letter(turn)]);
            w = w + seq![letter(turn)];
        }
        emit(buff, reset.as_str(), Ghost(start), Ghost(t + w));
        proof {
            lemma_concat_assoc(t, w, reset@);
            w = w + reset@;
        }
        emit(buff, normal.as_str(), Ghost(start), Ghost(t + w));
        proof {
            lemma_concat_assoc(t, w, normal@);
            w = w + normal@;
        }
        assert(w =~= self@.status_text());
    }

    /// Writes rule `y`: the line above row `y`, or the bottom line where `y`
    /// is `n`.
    fn put_rule(
        &self,
        buff: &mut Vec<u8>,
        y: usize,
        Ghost(start): Ghost<Seq<u8>>,
        Ghost(t): Ghost<Seq<char>>,
    )
        requires
            self@.wf(),
            y <= self@.n,
            appended(start, old(buff)@, t),
        ensures
            appended(start, final(buff)@, t + self@.rule_text(y as int)),
    {
        let ghost mut w = Seq::<char>::empty();
        proof {
            lemma_concat_assoc(t, w, w);
        }
        let n = self.size();
        let bar = self.bar(y);
        let mut x: usize = 0;
        while x < n
            invariant
                n == self@.n,
                0 <= x <= n,
                bar == glyph(self@.bar(y as int)),
                appended(start, buff@, t + w),
                w == self@.rule_upto(y as int, x as int),
            decreases n - x,
        {
            emit_char(buff, self.crossing(x, y), Ghost(start), Ghost(t + w));
            proof {
                lemma_concat_assoc(t, w, seq![glyph(self@.crossing(x as int, y as int))]);
                w = w + seq![glyph(self@.crossing(x as int, y as int))];
            }
            emit_char(buff, bar, Ghost(start), Ghost(t + w));
            proof {
                lemma_concat_assoc(t, w, seq![bar]);
                w = w + seq![bar];
            }
            emit_char(buff, bar, Ghost(start), Ghost(t + w));
            proof {
                lemma_concat_assoc(t, w, seq![bar]);
                w = w + seq![bar];
            }
            emit_char(buff, bar, Ghost(start), Ghost(t + w));
            proof {
                lemma_concat_assoc(t, w, seq![bar]);
                w = w + seq![bar];
            }
            x = x + 1;
        }
        emit_char(buff, self.crossing(n, y), Ghost(start), Ghost(t + w));
        proof {
            lemma_concat_assoc(t, w, seq![glyph(self@.crossing(n as int, y as int))]);
            w = w + seq![glyph(self@.crossing(n as int, y as int))];
        }
    }

    /// Goes from the end of one screen line of the grid to the start of the
    /// next.
    fn put_newline(
        &self,
        buff: &mut Vec<u8>,
        Ghost(start): Ghost<Seq<u8>>,
        Ghost(t): Ghost<Seq<char>>,
    )
        requires
            self@.wf(),
            appended(start, old(buff)@, t),
        ensures
            appended(start, final(buff)@, t + self@.newline_text()),
    {
        let ghost mut w = Seq::<char>::empty();
        proof {
            lemma_concat_assoc(t, w, w);
        }
        let back = left((self.size() * 4 + 1) as u16);
        emit(buff, "\n", Ghost(start), Ghost(t + w));
        proof {
            lemma_concat_assoc(t, w, "\n"@);
            w = w + "\n"@;
        }
        emit(buff, back.as_str(), Ghost(start), Ghost(t + w));
        proof {
            lemma_concat_assoc(t, w, back@);
            w = w + back@;
        }
        assert(w =~= self@.newline_text());
    }

    /// Writes the cell in column `x` of row `y`, with the upright line
    /// before it.
    fn put_cell(
        &self,
        buff: &mut Vec<u8>,
        x: usize,
        y: usize,
        Ghost(start): Ghost<Seq<u8>>,
        Ghost(t): Ghost<Seq<char>>,
    )
        requires
            self@.wf(),
            x < self@.n,
            y < self@.n,
            appended(start, old(buff)@, t),
        ensures
            appended(start, final(buff)@, t + self@.cell_text(x as int, y as int)),
    {
        let ghost mut w = Seq::<char>::empty();
        proof {
            lemma_concat_assoc(t, w, w);
        }
        let reset = fg_reset();
        let strong = bold();
        let normal = plain();
        let mark = self.cell(x, y);
        emit_char(buff, self.post(x), Ghost(start), Ghost(t + w));
        proof {
            lemma_concat_assoc(t, w, seq![glyph(self@.post(x as int))]);
            w = w + seq![glyph(self@.post(x as int))];
        }
        let shown = match mark {
            Some(v) => {
                let ink = Self::ink(v);
                emit(buff, ink.as_str(), Ghost(start), Ghost(t + w));
                proof {
                    lemma_concat_assoc(t, w, ink@);
                    w = w + ink@;
                }
                Self::letter(v)
            },
            None => ' ',
        };
        emit(buff, " ", Ghost(start), Ghost(t + w));
        proof {
            lemma_concat_assoc(t, w, " "@);
            w = w + " "@;
        }
        emit(buff, strong.as_str(), Ghost(start), Ghost(t + w));
        proof {
            lemma_concat_assoc(t, w, strong@);
            w = w + strong@;
        }
        emit_char(buff, shown, Ghost(start), Ghost(t + w));
        proof {
            lemma_concat_assoc(t, w, seq![shown]);
            w = w + seq![shown];
        }
        emit(buff, normal.as_str(), Ghost(start), Ghost(t + w));
        proof {
            lemma_concat_assoc(t, w, normal@);
            w = w + normal@;
        }
        emit(buff, reset.as_str(), Ghost(start), Ghost(t + w));
        proof {
            lemma_concat_assoc(t, w, reset@);
            w = w + reset@;
        }
        emit(buff, " ", Ghost(start), Ghost(t + w));
        proof {
            lemma_concat_assoc(t, w, " "@);
            w = w + " "@;
        }
        assert(w =~= self@.cell_text(x as int, y as int));
    }

    /// Writes row `y` of cells.
    fn put_cells(
        &self,
        buff: &mut Vec<u8>,
        y: usize,
        Ghost(start): Ghost<Seq<u8>>,
        Ghost(t): Ghost<Seq<char>>,
    )
        requires
            self@.wf(),
            y < self@.n,
            appended(start, old(buff)@, t),
        ensures
            appended(start, final(buff)@, t + self@.cells_text(y as int)),
    {
        let ghost mut w = Seq::<char>::empty();
        proof {
            lemma_concat_assoc(t, w, w);
        }
        let n = self.size();
        let mut x: usize = 0;
        while x < n
            invariant
                self@.wf(),
                n == self@.n,
                y < n,
                0 <= x <= n,
                appended(start, buff@, t + w),
                w == self@.cells_upto(y as int, x as int),
            decreases n - x,
        {
            self.put_cell(buff, x, y, Ghost(start), Ghost(t + w));
            proof {
                lemma_concat_assoc(t, w, self@.cell_text(x as int, y as int));
                w = w + self@.cell_text(x as int, y as int);
            }
            x = x + 1;
        }
        emit_char(buff, self.post(n), Ghost(start), Ghost(t + w));
        proof {
            lemma_concat_assoc(t, w, seq![glyph(self@.post(n as int))]);
            w = w + seq![glyph(self@.post(n as int))];
        }
    }
}

} // verus!
