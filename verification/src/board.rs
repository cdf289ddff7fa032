//! The 3x3 board: nine cells in row-major order, each empty or claimed
//! by one of the two players. A cell only ever moves from empty to
//! claimed; `set` refuses a move onto an occupied cell.

use vstd::prelude::*;

verus! {

/// Ownership of a single cell on the board.
#[derive(Clone, Copy, PartialEq, Eq, Structural, Debug)]
pub enum Cell {
    Empty,
    Human,
    Computer,
}

/// One of the two players.
#[derive(Clone, Copy, PartialEq, Eq, Structural, Debug)]
pub enum Player {
    Human,
    Computer,
}

impl Player {
    /// The cell content that marks a cell claimed by this player.
    pub open spec fn cell(self) -> Cell {
        match self {
            Player::Human => Cell::Human,
            Player::Computer => Cell::Computer,
        }
    }

    /// Executable counterpart of [`Player::cell`].
    pub fn mark(self) -> (c: Cell)
        ensures
            c == self.cell(),
    {
        match self {
            Player::Human => Cell::Human,
            Player::Computer => Cell::Computer,
        }
    }
}

/// Numeric rendering code of a cell: 0 empty, 1 human, 2 computer.
pub open spec fn code_of(c: Cell) -> u8 {
    match c {
        Cell::Empty => 0,
        Cell::Human => 1,
        Cell::Computer => 2,
    }
}

/// The cell a rendering code stands for.
pub open spec fn cell_of_code(k: u8) -> Cell
    recommends
        k < 3,
{
    if k == 0 {
        Cell::Empty
    } else if k == 1 {
        Cell::Human
    } else {
        Cell::Computer
    }
}

/// Every cell of `s` is empty.
pub open spec fn board_all_empty(s: Seq<Cell>) -> bool {
    forall|i: int| 0 <= i < s.len() ==> s[i] is Empty
}

/// Number of empty cells among the first `n` of `s`.
pub open spec fn empties_before(s: Seq<Cell>, n: int) -> nat
    decreases n,
{
    if n <= 0 {
        0
    } else {
        empties_before(s, n - 1) + (if s[n - 1] is Empty {
            1nat
        } else {
            0nat
        })
    }
}

/// Number of empty cells of the whole board `s`.
pub open spec fn count_empty(s: Seq<Cell>) -> nat {
    empties_before(s, s.len() as int)
}

/// Counting empties over a longer prefix never loses any.
pub proof fn lemma_empties_monotone(s: Seq<Cell>, m: int, n: int)
    requires
        m <= n,
    ensures
        empties_before(s, m) <= empties_before(s, n),
    decreases n - m,
{
    if m < n {
        lemma_empties_monotone(s, m, n - 1);
    }
}

/// An empty cell strictly below `n` contributes to the count up to `n`.
pub proof fn lemma_empty_counted(s: Seq<Cell>, i: int, n: int)
    requires
        0 <= i < n,
        s[i] is Empty,
    ensures
        empties_before(s, n) > empties_before(s, i),
{
    lemma_empties_monotone(s, i + 1, n);
}

/// If the count grows from `m` to `n`, some cell in between is empty.
pub proof fn lemma_empty_between(s: Seq<Cell>, m: int, n: int)
    requires
        m < n,
        empties_before(s, m) < empties_before(s, n),
    ensures
        exists|j: int| m <= j < n && s[j] is Empty,
    decreases n - m,
{
    if s[n - 1] is Empty {
        assert(m <= n - 1 < n && s[n - 1] is Empty);
    } else {
        lemma_empty_between(s, m, n - 1);
    }
}

/// The board: exactly nine cells, indices 0 through 8, laid out as
/// three rows of three.
pub struct Board {
    cells: Vec<Cell>,
}

impl View for Board {
    type V = Seq<Cell>;

    closed spec fn view(&self) -> Seq<Cell> {
        self.cells@
    }
}

impl Board {
    /// A board is well formed when it holds exactly nine cells.
    pub open spec fn wf(&self) -> bool {
        self@.len() == 9
    }

    /// A fresh, fully empty board.
    pub fn new() -> (b: Board)
        ensures
            b.wf(),
            board_all_empty(b@),
    {
        let mut cells: Vec<Cell> = Vec::new();
        let mut i: usize = 0;
        while i < 9
            invariant
                i <= 9,
                cells@.len() == i,
                forall|j: int| 0 <= j < i ==> cells@[j] is Empty,
            decreases 9 - i,
        {
            cells.push(Cell::Empty);
            i = i + 1;
        }
        Board { cells }
    }

    /// The cell at `index`.
    pub fn get(&self, index: usize) -> (c: Cell)
        requires
            self.wf(),
            index < 9,
        ensures
            c == self@[index as int],
    {
        self.cells[index]
    }

    /// Rendering code of the cell at `index`.
    pub fn code_at(&self, index: usize) -> (k: u8)
        requires
            self.wf(),
            index < 9,
        ensures
            k == code_of(self@[index as int]),
    {
        match self.cells[index] {
            Cell::Empty => 0,
            Cell::Human => 1,
            Cell::Computer => 2,
        }
    }

    /// Claims the cell at `index` for `player`. Fails, leaving the board
    /// untouched, when the cell is already occupied: a cell never changes
    /// hands once claimed.
    pub fn set(&mut self, index: usize, player: Player) -> (ok: bool)
        requires
            old(self).wf(),
            index < 9,
        ensures
            final(self).wf(),
            ok == (old(self)@[index as int] is Empty),
            ok ==> final(self)@ == old(self)@.update(index as int, player.cell()),
            !ok ==> final(self)@ == old(self)@,
    {
        if self.cells[index] == Cell::Empty {
            self.cells[index] = player.mark();
            true
        } else {
            false
        }
    }

    /// How many cells are still empty.
    pub fn empty_count(&self) -> (n: usize)
        requires
            self.wf(),
        ensures
            n == count_empty(self@),
    {
        let mut n: usize = 0;
        let mut i: usize = 0;
        while i < 9
            invariant
                self.wf(),
                i <= 9,
                n <= i,
                n == empties_before(self@, i as int),
            decreases 9 - i,
        {
            if self.get(i) == Cell::Empty {
                n = n + 1;
            }
            i = i + 1;
        }
        n
    }

    /// Snapshot of the board as nine rendering codes in row-major order,
    /// for the output collaborator to format as three rows of three.
    pub fn render(&self) -> (v: Vec<u8>)
        requires
            self.wf(),
        ensures
            v@.len() == 9,
            forall|i: int| 0 <= i < 9 ==> v@[i] == code_of(self@[i]),
    {
        let mut v: Vec<u8> = Vec::new();
        let mut i: usize = 0;
        while i < 9
            invariant
                self.wf(),
                i <= 9,
                v@.len() == i,
                forall|j: int| 0 <= j < i ==> v@[j] == code_of(self@[j]),
            decreases 9 - i,
        {
            v.push(self.code_at(i));
            i = i + 1;
        }
        v
    }

    /// Builds a board from nine rendering codes; refuses any other
    /// length and any code above 2.
    pub fn from_codes(codes: &Vec<u8>) -> (r: Option<Board>)
        ensures
            r is Some <==> (codes@.len() == 9 && forall|i: int| 0 <= i < 9 ==> codes@[i] < 3),
            r matches Some(b) ==> b.wf() && forall|i: int|
                0 <= i < 9 ==> b@[i] == cell_of_code(codes@[i]),
    {
        if codes.len() != 9 {
            return None;
        }
        let mut cells: Vec<Cell> = Vec::new();
        let mut i: usize = 0;
        while i < 9
            invariant
                codes@.len() == 9,
                i <= 9,
                cells@.len() == i,
                forall|j: int| 0 <= j < i ==> codes@[j] < 3,
                forall|j: int| 0 <= j < i ==> cells@[j] == cell_of_code(codes@[j]),
            decreases 9 - i,
        {
            let k = codes[i];
            if k == 0 {
                cells.push(Cell::Empty);
            } else if k == 1 {
                cells.push(Cell::Human);
            } else if k == 2 {
                cells.push(Cell::Computer);
            } else {
                proof {
                    assert(codes@[i as int] >= 3);
                }
                return None;
            }
            i = i + 1;
        }
        Some(Board { cells })
    }
}

} // verus!
