use vstd::prelude::*;
use vstd::string::StringExecFns;
use vstd::arithmetic::div_mod::{
    lemma_div_pos_is_pos,
    lemma_fundamental_div_mod,
    lemma_fundamental_div_mod_converse,
    lemma_mod_pos_bound,
};

verus! {

/// The topological class of a cell: a corner, a side other than a corner, or the interior.
#[derive(Debug, Copy, Clone, PartialEq, Eq, Structural)]
pub enum Position {
    LeftTop,
    TopSide,
    RightTop,
    LeftSide,
    Center,
    RightSide,
    LeftBottom,
    BottomSide,
    RightBottom,
}

/// The name of a class, padded to eleven characters.
pub open spec fn position_label(p: Position) -> &'static str {
    match p {
        Position::LeftTop => "LeftTop    ",
        Position::TopSide => "TopSide    ",
        Position::RightTop => "RightTop   ",
        Position::LeftSide => "LeftSide   ",
        Position::Center => "Center     ",
        Position::RightSide => "RightSide  ",
        Position::LeftBottom => "LeftBottom ",
        Position::BottomSide => "BottomSide ",
        Position::RightBottom => "RightBottom",
    }
}

impl Position {
    /// The name of the class, padded to eleven characters.
    pub fn label(&self) -> (r: &'static str)
        ensures
            r == position_label(*self),
    {
        match self {
            Position::LeftTop => "LeftTop    ",
            Position::TopSide => "TopSide    ",
            Position::RightTop => "RightTop   ",
            Position::LeftSide => "LeftSide   ",
            Position::Center => "Center     ",
            Position::RightSide => "RightSide  ",
            Position::LeftBottom => "LeftBottom ",
            Position::BottomSide => "BottomSide ",
            Position::RightBottom => "RightBottom",
        }
    }
}

/// The class of cell `index` in a `width` x `height` grid stored row by row.
/// The tests are taken in this order, the first that holds decides.
pub open spec fn classify(index: int, width: int, height: int) -> Position {
    let length = width * height;
    if index == 0 {
        Position::LeftTop
    } else if index == width - 1 {
        Position::RightTop
    } else if index == length - width {
        Position::LeftBottom
    } else if index == length - 1 {
        Position::RightBottom
    } else if index < width {
        Position::TopSide
    } else if index % width == 0 {
        Position::LeftSide
    } else if index % width == width - 1 {
        Position::RightSide
    } else if index >= length - width {
        Position::BottomSide
    } else {
        Position::Center
    }
}

/// Classifies cell `index` of a `width` x `height` grid.
pub fn calculate_position(index: usize, width: usize, height: usize) -> (r: Position)
    requires
        width > 0,
        height > 0,
        width * height <= usize::MAX,
        index < width * height,
    ensures
        r == classify(index as int, width as int, height as int),
{
    assert(width * height >= width) by (nonlinear_arith)
        requires
            width > 0,
            height > 0,
    ;
    let length = width * height;
    if index == 0 {
        Position::LeftTop
    } else if index == width - 1 {
        Position::RightTop
    } else if index == length - width {
        Position::LeftBottom
    } else if index == length - 1 {
        Position::RightBottom
    } else if index < width {
        Position::TopSide
    } else if index % width == 0 {
        Position::LeftSide
    } else if index % width == width - 1 {
        Position::RightSide
    } else if index >= length - width {
        Position::BottomSide
    } else {
        Position::Center
    }
}


/// The class of the cell at `row`, `col` of a `width` x `height` grid, by where it stands.
pub open spec fn position_of(row: int, col: int, width: int, height: int) -> Position {
    if row == 0 && col == 0 {
        Position::LeftTop
    } else if row == 0 && col == width - 1 {
        Position::RightTop
    } else if row == height - 1 && col == 0 {
        Position::LeftBottom
    } else if row == height - 1 && col == width - 1 {
        Position::RightBottom
    } else if row == 0 {
        Position::TopSide
    } else if col == 0 {
        Position::LeftSide
    } else if col == width - 1 {
        Position::RightSide
    } else if row == height - 1 {
        Position::BottomSide
    } else {
        Position::Center
    }
}

/// On a grid of at least two rows and two columns, the class of an index is the
/// class of the row and column it stands at.
pub proof fn lemma_classify_geometry(index: int, width: int, height: int)
    requires
        width >= 2,
        height >= 2,
        0 <= index < width * height,
    ensures
        0 <= index / width < height,
        0 <= index % width < width,
        index == (index / width) * width + index % width,
        classify(index, width, height) == position_of(index / width, index % width, width, height),
{
    let r = index / width;
    let c = index % width;
    lemma_fundamental_div_mod(index, width);
    lemma_mod_pos_bound(index, width);
    lemma_div_pos_is_pos(index, width);
    assert(width * r == r * width) by (nonlinear_arith);
    assert(r < height) by (nonlinear_arith)
        requires
            index == r * width + c,
            0 <= c,
            index < width * height,
            width > 0,
    ;
    assert(r >= 1 ==> r * width >= width) by (nonlinear_arith)
        requires
            width > 0,
    ;
    assert(r <= height - 2 ==> r * width <= (height - 2) * width) by (nonlinear_arith)
        requires
            width > 0,
    ;
    assert((height - 1) * width == width * height - width) by (nonlinear_arith);
    assert((height - 2) * width == width * height - 2 * width) by (nonlinear_arith);
    assert(r == height - 1 ==> r * width == width * height - width) by (nonlinear_arith);
}


/// Rows to move for each neighbour slot, the slots being in this order:
/// up-left, up, up-right, left, right, down-left, down, down-right.
pub open spec fn row_step(slot: int) -> int {
    if slot < 3 {
        -1
    } else if slot < 5 {
        0
    } else {
        1
    }
}

/// Columns to move for each neighbour slot, in the order of `row_step`.
pub open spec fn col_step(slot: int) -> int {
    if slot == 0 || slot == 3 || slot == 5 {
        -1
    } else if slot == 1 || slot == 6 {
        0
    } else {
        1
    }
}

/// The cell one step in the direction of `slot` from cell `index`, if that
/// step stays on the grid.
pub open spec fn neighbour_at(index: int, width: int, height: int, slot: int) -> Option<usize> {
    let row = index / width + row_step(slot);
    let col = index % width + col_step(slot);
    if 0 <= row < height && 0 <= col < width {
        Some((row * width + col) as usize)
    } else {
        None
    }
}

/// The eight neighbour slots of cell `index`.
pub open spec fn neighbour_table(index: int, width: int, height: int) -> Seq<Option<usize>> {
    Seq::new(8, |slot: int| neighbour_at(index, width, height, slot))
}

/// The eight slots of cell `index`, one by one: where the step stays on the
/// grid, the neighbour is the index plus a fixed offset, and lies on the grid.
proof fn lemma_neighbour_offsets(index: int, width: int, height: int)
    requires
        width >= 2,
        height >= 2,
        0 <= index < width * height,
    ensures
        ({
            let (i, w, r, c) = (index, width, index / width, index % width);
            &&& neighbour_table(i, w, height) == seq![
                neighbour_at(i, w, height, 0),
                neighbour_at(i, w, height, 1),
                neighbour_at(i, w, height, 2),
                neighbour_at(i, w, height, 3),
                neighbour_at(i, w, height, 4),
                neighbour_at(i, w, height, 5),
                neighbour_at(i, w, height, 6),
                neighbour_at(i, w, height, 7),
            ]
            &&& neighbour_at(i, w, height, 0) == if r >= 1 && c >= 1 {
                Some((i - w - 1) as usize)
            } else {
                None
            }
            &&& neighbour_at(i, w, height, 1) == if r >= 1 {
                Some((i - w) as usize)
            } else {
                None
            }
            &&& neighbour_at(i, w, height, 2) == if r >= 1 && c + 1 < w {
                Some((i - w + 1) as usize)
            } else {
                None
            }
            &&& neighbour_at(i, w, height, 3) == if c >= 1 {
                Some((i - 1) as usize)
            } else {
                None
            }
            &&& neighbour_at(i, w, height, 4) == if c + 1 < w {
                Some((i + 1) as usize)
            } else {
                None
            }
            &&& neighbour_at(i, w, height, 5) == if r + 1 < height && c >= 1 {
                Some((i + w - 1) as usize)
            } else {
                None
            }
            &&& neighbour_at(i, w, height, 6) == if r + 1 < height {
                Some((i + w) as usize)
            } else {
                None
            }
            &&& neighbour_at(i, w, height, 7) == if r + 1 < height && c + 1 < w {
                Some((i + w + 1) as usize)
            } else {
                None
            }
            &&& r >= 1 ==> i >= w + c
            &&& r + 1 < height ==> i - c + 2 * w <= w * height
        }),
{
    lemma_classify_geometry(index, width, height);
    let r = index / width;
    assert((r - 1) * width == r * width - width) by (nonlinear_arith);
    assert((r + 1) * width == r * width + width) by (nonlinear_arith);
    assert(r >= 1 ==> r * width >= width) by (nonlinear_arith)
        requires
            width > 0,
    ;
    assert(r + 1 < height ==> (r + 2) * width <= width * height) by (nonlinear_arith)
        requires
            width > 0,
    ;
    assert((r + 2) * width == r * width + 2 * width) by (nonlinear_arith);
    assert(neighbour_table(index, width, height) =~= seq![
        neighbour_at(index, width, height, 0),
        neighbour_at(index, width, height, 1),
        neighbour_at(index, width, height, 2),
        neighbour_at(index, width, height, 3),
        neighbour_at(index, width, height, 4),
        neighbour_at(index, width, height, 5),
        neighbour_at(index, width, height, 6),
        neighbour_at(index, width, height, 7),
    ]);
}

/// The neighbour slots of cell `index`, filled by its class.
fn neighbour_slots(index: usize, width: usize, height: usize, pos: Position) -> (t: [Option<usize>; 8])
    requires
        width >= 2,
        height >= 2,
        width * height <= usize::MAX,
        index < width * height,
        pos == classify(index as int, width as int, height as int),
    ensures
        t@ == neighbour_table(index as int, width as int, height as int),
{
    let ghost (i, w, h) = (index as int, width as int, height as int);
    proof {
        lemma_classify_geometry(i, w, h);
        lemma_neighbour_offsets(i, w, h);
        assert(w * h == width * height);
    }
    let t: [Option<usize>; 8] = match pos {
        Position::LeftTop => {
            [None, None, None, None, Some(index + 1), None, Some(index + width), Some(index + width + 1)]
        },
        Position::TopSide => {
            [
                None,
                None,
                None,
                Some(index - 1),
                Some(index + 1),
                Some(index + width - 1),
                Some(index + width),
                Some(index + width + 1),
            ]
        },
        Position::RightTop => {
            [None, None, None, Some(index - 1), None, Some(index + width - 1), Some(index + width), None]
        },
        Position::LeftSide => {
            [
                None,
                Some(index - width),
                Some(index - width + 1),
                None,
                Some(index + 1),
                None,
                Some(index + width),
                Some(index + width + 1),
            ]
        },
        Position::Center => {
            [
                Some(index - width - 1),
                Some(index - width),
                Some(index - width + 1),
                Some(index - 1),
                Some(index + 1),
                Some(index + width - 1),
                Some(index + width),
                Some(index + width + 1),
            ]
        },
        Position::RightSide => {
            [
                Some(index - width - 1),
                Some(index - width),
                None,
                Some(index - 1),
                None,
                Some(index + width - 1),
                Some(index + width),
                None,
            ]
        },
        Position::LeftBottom => {
            [None, Some(index - width), Some(index - width + 1), None, Some(index + 1), None, None, None]
        },
        Position::BottomSide => {
            [
                Some(index - width - 1),
                Some(index - width),
                Some(index - width + 1),
                Some(index - 1),
                Some(index + 1),
                None,
                None,
                None,
            ]
        },
        Position::RightBottom => {
            [Some(index - width - 1), Some(index - width), None, Some(index - 1), None, None, None, None]
        },
    };
    assert(t@ =~= seq![
        neighbour_at(i, w, h, 0),
        neighbour_at(i, w, h, 1),
        neighbour_at(i, w, h, 2),
        neighbour_at(i, w, h, 3),
        neighbour_at(i, w, h, 4),
        neighbour_at(i, w, h, 5),
        neighbour_at(i, w, h, 6),
        neighbour_at(i, w, h, 7),
    ]);
    t
}


/// Every neighbour index lies on the grid.
proof fn lemma_neighbour_on_grid(index: int, width: int, height: int, slot: int)
    requires
        width >= 2,
        height >= 2,
        0 <= index < width * height,
    ensures
        neighbour_at(index, width, height, slot) matches Some(j) ==> j < width * height,
{
    let row = index / width + row_step(slot);
    let col = index % width + col_step(slot);
    if 0 <= row < height && 0 <= col < width {
        assert(0 <= row * width + col < width * height) by (nonlinear_arith)
            requires
                0 <= row < height,
                0 <= col < width,
        ;
    }
}

/// How many of the first `k` slots name a cell that is alive in `alive`.
pub open spec fn live_count(alive: Seq<bool>, slots: Seq<Option<usize>>, k: int) -> nat
    decreases k,
{
    if k <= 0 {
        0
    } else {
        live_count(alive, slots, k - 1) + match slots[k - 1] {
            Some(j) => if alive[j as int] {
                1nat
            } else {
                0nat
            },
            None => 0nat,
        }
    }
}

/// How many neighbours of cell `index` are alive in `alive`.
pub open spec fn live_neighbours(alive: Seq<bool>, index: int, width: int, height: int) -> nat {
    live_count(alive, neighbour_table(index, width, height), 8)
}

/// The rule of one generation: a cell is alive next when three to five of its
/// neighbours are alive now, whatever its own state.
pub open spec fn next_generation(alive: Seq<bool>, width: int, height: int) -> Seq<bool> {
    Seq::new(
        alive.len(),
        |i: int| 3 <= live_neighbours(alive, i, width, height) <= 5,
    )
}

/// No cell is alive.
pub open spec fn all_dead(alive: Seq<bool>) -> bool {
    forall|i: int| 0 <= i < alive.len() ==> !#[trigger] alive[i]
}

/// The text of the first `k` cells: each row opens with a line break, and
/// each cell is `1` when alive, `0` when dead, followed by a space.
pub open spec fn render_cells(alive: Seq<bool>, width: int, k: int) -> Seq<char>
    decreases k,
{
    if k <= 0 {
        Seq::empty()
    } else {
        render_cells(alive, width, k - 1) + (if (k - 1) % width == 0 {
            seq!['\n']
        } else {
            Seq::empty()
        }) + seq![if alive[k - 1] { '1' } else { '0' }, ' ']
    }
}

/// Relies on rand::random::<bool>: each call draws one bool from the thread's
/// generator; nothing is known of its value.
#[verifier::external_body]
fn draw_alive() -> (r: bool) {
    rand::random::<bool>()
}

/// One cell: its class, its neighbour slots and whether it is alive.
#[derive(Debug, Clone, Copy)]
pub struct Cell {
    position: Position,
    neighbours: [Option<usize>; 8],
    alive: bool,
}

/// What a cell holds, as mathematical values.
pub struct CellView {
    pub position: Position,
    pub neighbours: Seq<Option<usize>>,
    pub alive: bool,
}

impl View for Cell {
    type V = CellView;

    closed spec fn view(&self) -> CellView {
        CellView { position: self.position, neighbours: self.neighbours@, alive: self.alive }
    }
}

impl Cell {
    /// A dead cell with the given class and neighbour slots.
    pub fn new(position: Position, neighbours: [Option<usize>; 8]) -> (r: Cell)
        ensures
            r@ == (CellView { position, neighbours: neighbours@, alive: false }),
    {
        Cell { position, neighbours, alive: false }
    }

    /// Sets whether the cell is alive.
    pub fn change_state(&mut self, state: bool)
        ensures
            final(self)@ == (CellView {
                position: old(self)@.position,
                neighbours: old(self)@.neighbours,
                alive: state,
            }),
    {
        self.alive = state;
    }

    pub fn position(&self) -> (r: Position)
        ensures
            r == self@.position,
    {
        self.position
    }

    pub fn neighbours(&self) -> (r: [Option<usize>; 8])
        ensures
            r@ == self@.neighbours,
    {
        self.neighbours
    }

    pub fn is_alive(&self) -> (r: bool)
        ensures
            r == self@.alive,
    {
        self.alive
    }
}

/// The cells of a `width` x `height` grid, row by row, each with its class and
/// the indices of its neighbours fixed at construction.
pub struct Grid {
    length: usize,
    width: usize,
    height: usize,
    cells: Vec<Cell>,
}

/// What a grid holds, as mathematical values.
pub struct GridView {
    pub width: nat,
    pub height: nat,
    pub cells: Seq<CellView>,
}

/// Cell `index` has the class and the neighbour slots that its place on the grid gives it.
pub open spec fn cell_in_place(cell: CellView, index: int, width: int, height: int) -> bool {
    &&& cell.position == classify(index, width, height)
    &&& cell.neighbours == neighbour_table(index, width, height)
}

impl GridView {
    /// At least two rows and two columns, one cell for each, and each cell's
    /// class and neighbours as its place gives them.
    pub open spec fn well_formed(self) -> bool {
        &&& self.width >= 2
        &&& self.height >= 2
        &&& self.cells.len() == self.width * self.height
        &&& self.cells.len() <= usize::MAX
        &&& forall|i: int|
            0 <= i < self.cells.len() ==> cell_in_place(
                #[trigger] self.cells[i],
                i,
                self.width as int,
                self.height as int,
            )
    }

    /// Whether each cell is alive, by index.
    pub open spec fn alive(self) -> Seq<bool> {
        self.cells.map_values(|c: CellView| c.alive)
    }
}

impl View for Grid {
    type V = GridView;

    closed spec fn view(&self) -> GridView {
        GridView {
            width: self.width as nat,
            height: self.height as nat,
            cells: self.cells@.map_values(|c: Cell| c@),
        }
    }
}

impl Grid {
    /// The grid's view is well formed, and its stored fields agree with it.
    pub open spec fn wf(&self) -> bool {
        &&& self@.well_formed()
        &&& self.fields_agree()
    }

    /// The stored length is the number of cells.
    pub closed spec fn fields_agree(&self) -> bool {
        self.length == self.cells.len()
    }

    /// A `width` x `height` grid with every cell dead.
    pub fn new(width: usize, height: usize) -> (r: Grid)
        requires
            width >= 2,
            height >= 2,
            width * height <= usize::MAX,
        ensures
            r.wf(),
            r@.width == width,
            r@.height == height,
            r@.alive() == Seq::new((width * height) as nat, |i: int| false),
    {
        let length = width * height;
        let mut cells: Vec<Cell> = Vec::with_capacity(length);
        let mut i: usize = 0;
        while i < length
            invariant
                width >= 2,
                height >= 2,
                length == width * height,
                i <= length,
                cells.len() == i,
                forall|j: int|
                    0 <= j < i ==> cell_in_place(#[trigger] cells@[j]@, j, width as int, height as int)
                        && !cells@[j]@.alive,
            decreases length - i,
        {
            let pos = calculate_position(i, width, height);
            let neighbours = neighbour_slots(i, width, height, pos);
            let cell = Cell::new(pos, neighbours);
            cells.push(cell);
            i = i + 1;
        }
        let r = Grid { length, width, height, cells };
        assert(r@.alive() =~= Seq::new((width * height) as nat, |i: int| false));
        r
    }

    /// Sets whether cell `index` is alive.
    pub fn change_state(&mut self, index: usize, is_alive: bool)
        requires
            old(self).wf(),
            index < old(self)@.cells.len(),
        ensures
            final(self).wf(),
            final(self)@.width == old(self)@.width,
            final(self)@.height == old(self)@.height,
            final(self)@.alive() == old(self)@.alive().update(index as int, is_alive),
    {
        let mut cell = self.cells[index];
        cell.change_state(is_alive);
        self.cells.set(index, cell);
        assert(self@.cells =~= old(self)@.cells.update(
            index as int,
            CellView {
                position: old(self)@.cells[index as int].position,
                neighbours: old(self)@.cells[index as int].neighbours,
                alive: is_alive,
            },
        ));
        assert(self@.alive() =~= old(self)@.alive().update(index as int, is_alive));
    }

    /// A `width` x `height` grid whose cell `i` is alive exactly when `states[i]` is.
    pub fn from_states(width: usize, height: usize, states: &Vec<bool>) -> (r: Grid)
        requires
            width >= 2,
            height >= 2,
            width * height <= usize::MAX,
            states.len() == width * height,
        ensures
            r.wf(),
            r@.width == width,
            r@.height == height,
            r@.alive() == states@,
    {
        let mut grid = Grid::new(width, height);
        let length = width * height;
        let mut i: usize = 0;
        while i < length
            invariant
                grid.wf(),
                grid@.width == width,
                grid@.height == height,
                length == width * height,
                states.len() == length,
                i <= length,
                grid@.alive().len() == length,
                forall|j: int| 0 <= j < i ==> #[trigger] grid@.alive()[j] == states@[j],
                forall|j: int| i <= j < length ==> !#[trigger] grid@.alive()[j],
            decreases length - i,
        {
            if states[i] {
                grid.change_state(i, true);
            }
            i = i + 1;
        }
        assert(grid@.alive() =~= states@);
        grid
    }

    /// A `width` x `height` grid whose cells are each alive or dead as an
    /// independent draw of the thread's random generator decides.
    pub fn new_randomized(width: usize, height: usize) -> (r: Grid)
        requires
            width >= 2,
            height >= 2,
            width * height <= usize::MAX,
        ensures
            r.wf(),
            r@.width == width,
            r@.height == height,
    {
        let length = width * height;
        let mut states: Vec<bool> = Vec::with_capacity(length);
        let mut i: usize = 0;
        while i < length
            invariant
                i <= length,
                states.len() == i,
            decreases length - i,
        {
            states.push(draw_alive());
            i = i + 1;
        }
        Grid::from_states(width, height, &states)
    }

    pub fn width(&self) -> (r: usize)
        requires
            self.wf(),
        ensures
            r == self@.width,
    {
        self.width
    }

    pub fn height(&self) -> (r: usize)
        requires
            self.wf(),
        ensures
            r == self@.height,
    {
        self.height
    }

    /// The number of cells.
    pub fn len(&self) -> (r: usize)
        requires
            self.wf(),
        ensures
            r == self@.cells.len(),
    {
        self.cells.len()
    }

    pub fn cell(&self, index: usize) -> (r: Cell)
        requires
            self.wf(),
            index < self@.cells.len(),
        ensures
            r@ == self@.cells[index as int],
    {
        self.cells[index]
    }

    pub fn is_alive(&self, index: usize) -> (r: bool)
        requires
            self.wf(),
            index < self@.cells.len(),
        ensures
            r == self@.alive()[index as int],
    {
        self.cells[index].alive
    }

    /// The grid as text: each row opens with a line break, and each cell is
    /// `1` when alive, `0` when dead, followed by a space.
    pub fn render(&self) -> (r: String)
        requires
            self.wf(),
        ensures
            r@ == render_cells(self@.alive(), self@.width as int, self@.cells.len() as int),
    {
        let mut text = String::new();
        let mut i: usize = 0;
        while i < self.cells.len()
            invariant
                self.wf(),
                i <= self.cells.len(),
                text@ == render_cells(self@.alive(), self@.width as int, i as int),
            decreases self.cells.len() - i,
        {
            proof {
                reveal_strlit("\n");
                reveal_strlit("1 ");
                reveal_strlit("0 ");
                assert("\n"@ =~= seq!['\n']);
                assert("1 "@ =~= seq!['1', ' ']);
                assert("0 "@ =~= seq!['0', ' ']);
                assert(self@.alive()[i as int] == self.cells@[i as int].alive);
            }
            if i % self.width == 0 {
                text.append("\n");
            }
            if self.cells[i].alive {
                text.append("1 ");
            } else {
                text.append("0 ");
            }
            assert(text@ =~= render_cells(self@.alive(), self@.width as int, i + 1));
            i = i + 1;
        }
        text
    }

    /// Moves every cell to the next generation at once, each from the states of
    /// the generation before. Fails when no cell is left alive.
    pub fn compute_next_generation(&mut self) -> (r: Result<(), &'static str>)
        requires
            old(self).wf(),
        ensures
            final(self).wf(),
            final(self)@.width == old(self)@.width,
            final(self)@.height == old(self)@.height,
            final(self)@.alive() == next_generation(
                old(self)@.alive(),
                old(self)@.width as int,
                old(self)@.height as int,
            ),
            all_dead(final(self)@.alive()) ==> r == Err::<(), &'static str>("Whole generation died"),
            !all_dead(final(self)@.alive()) ==> r == Ok::<(), &'static str>(()),
    {
        let ghost before = self@;
        let ghost next = next_generation(before.alive(), before.width as int, before.height as int);
        let n = self.cells.len();
        let mut new_generation: Vec<Cell> = Vec::with_capacity(n);
        let mut dead: usize = 0;
        let mut i: usize = 0;
        while i < n
            invariant
                self.wf(),
                self@ == before,
                next == next_generation(before.alive(), before.width as int, before.height as int),
                n == self.cells.len(),
                i <= n,
                new_generation.len() == i,
                forall|j: int|
                    0 <= j < i ==> #[trigger] new_generation@[j]@ == (CellView {
                        position: before.cells[j].position,
                        neighbours: before.cells[j].neighbours,
                        alive: next[j],
                    }),
                dead <= i,
                dead == i <==> forall|j: int| 0 <= j < i ==> !#[trigger] next[j],
            decreases n - i,
        {
            let mut cell = self.cells[i];
            let ghost slots = before.cells[i as int].neighbours;
            assert(cell_in_place(before.cells[i as int], i as int, before.width as int, before.height as int));
            let mut alive: usize = 0;
            let mut k: usize = 0;
            while k < 8
                invariant
                    self.wf(),
                    self@ == before,
                    n == self.cells.len(),
                    i < n,
                    cell@ == before.cells[i as int],
                    slots == neighbour_table(i as int, before.width as int, before.height as int),
                    k <= 8,
                    alive == live_count(before.alive(), slots, k as int),
                    alive <= k,
                decreases 8 - k,
            {
                proof {
                    lemma_neighbour_on_grid(i as int, before.width as int, before.height as int, k as int);
                }
                if let Some(neighbour) = cell.neighbours[k] {
                    if self.cells[neighbour].alive {
                        alive = alive + 1;
                    }
                }
                k = k + 1;
            }
            cell.change_state(alive >= 3 && alive <= 5);
            if !cell.alive {
                dead = dead + 1;
            }
            new_generation.push(cell);
            assert(next[i as int] == cell@.alive);
            i = i + 1;
        }
        self.cells = new_generation;
        assert(self@.alive() =~= next);
        if dead == self.cells.len() {
            Err("Whole generation died")
        } else {
            Ok(())
        }
    }
}


/// Whether a class is one of the four corners.
pub open spec fn is_corner(p: Position) -> bool {
    p == Position::LeftTop || p == Position::RightTop || p == Position::LeftBottom || p
        == Position::RightBottom
}

/// How many neighbours a cell of class `p` has: three at a corner, five on a
/// side, eight inside.
pub open spec fn neighbour_count_of(p: Position) -> nat {
    match p {
        Position::Center => 8,
        Position::TopSide | Position::LeftSide | Position::RightSide | Position::BottomSide => 5,
        _ => 3,
    }
}

/// How many of the first `k` slots hold a neighbour.
pub open spec fn filled_count(slots: Seq<Option<usize>>, k: int) -> nat
    decreases k,
{
    if k <= 0 {
        0
    } else {
        filled_count(slots, k - 1) + if slots[k - 1] is Some {
            1nat
        } else {
            0nat
        }
    }
}

/// On a grid of at least two rows and two columns, exactly four indices are
/// classified as corners: the first and last of the top row and of the bottom row.
pub proof fn lemma_four_corners(width: int, height: int)
    requires
        width >= 2,
        height >= 2,
    ensures
        Set::new(|i: int| 0 <= i < width * height && is_corner(classify(i, width, height)))
            == set![0, width - 1, width * height - width, width * height - 1],
        set![0, width - 1, width * height - width, width * height - 1].len() == 4,
{
    assert(width * height >= 2 * width) by (nonlinear_arith)
        requires
            width >= 2,
            height >= 2,
    ;
    let corners = set![0, width - 1, width * height - width, width * height - 1];
    assert(Set::new(|i: int| 0 <= i < width * height && is_corner(classify(i, width, height)))
        =~= corners);
    assert(Set::<int>::empty().insert(0).insert(width - 1).len() == 2);
    assert(Set::<int>::empty().insert(0).insert(width - 1).insert(width * height - width).len()
        == 3);
}

/// Adjacency is symmetric: when `b` is among the neighbours of `a`, `a` is among
/// the neighbours of `b`.
pub proof fn lemma_adjacency_symmetric(grid: GridView, a: int, b: usize)
    requires
        grid.well_formed(),
        0 <= a < grid.cells.len(),
        grid.cells[a].neighbours.contains(Some(b)),
    ensures
        b < grid.cells.len(),
        grid.cells[b as int].neighbours.contains(Some(a as usize)),
{
    let (w, h) = (grid.width as int, grid.height as int);
    assert(cell_in_place(grid.cells[a], a, w, h));
    let slot = choose|slot: int|
        0 <= slot < 8 && grid.cells[a].neighbours[slot] == Some(b);
    assert(neighbour_at(a, w, h, slot) == Some(b));
    lemma_neighbour_on_grid(a, w, h, slot);
    lemma_classify_geometry(a, w, h);
    let row = a / w + row_step(slot);
    let col = a % w + col_step(slot);
    assert(0 <= row < h && 0 <= col < w);
    assert(0 <= row * w + col < w * h) by (nonlinear_arith)
        requires
            0 <= row < h,
            0 <= col < w,
    ;
    assert(b as int == row * w + col);
    lemma_fundamental_div_mod_converse(b as int, w, row, col);
    assert(cell_in_place(grid.cells[b as int], b as int, w, h));
    assert(neighbour_at(b as int, w, h, 7 - slot) == Some(a as usize));
    assert(grid.cells[b as int].neighbours[7 - slot] == Some(a as usize));
}

/// Each cell has as many neighbours as its class gives: three at a corner,
/// five on a side, eight inside.
pub proof fn lemma_neighbour_count_by_class(grid: GridView, index: int)
    requires
        grid.well_formed(),
        0 <= index < grid.cells.len(),
    ensures
        filled_count(grid.cells[index].neighbours, 8) == neighbour_count_of(
            grid.cells[index].position,
        ),
{
    let (w, h) = (grid.width as int, grid.height as int);
    assert(cell_in_place(grid.cells[index], index, w, h));
    lemma_classify_geometry(index, w, h);
    lemma_neighbour_offsets(index, w, h);
    let slots = grid.cells[index].neighbours;
    reveal_with_fuel(filled_count, 9);
}


/// Neighbour slots never repeat an index, and never name the cell itself.
pub proof fn lemma_neighbours_distinct(grid: GridView, index: int, s1: int, s2: int)
    requires
        grid.well_formed(),
        0 <= index < grid.cells.len(),
        0 <= s1 < 8,
        0 <= s2 < 8,
        s1 != s2,
        grid.cells[index].neighbours[s1] is Some,
    ensures
        grid.cells[index].neighbours[s1] != grid.cells[index].neighbours[s2],
        grid.cells[index].neighbours[s1] != Some(index as usize),
{
    let (w, h) = (grid.width as int, grid.height as int);
    assert(cell_in_place(grid.cells[index], index, w, h));
    lemma_classify_geometry(index, w, h);
    let b = grid.cells[index].neighbours[s1]->Some_0;
    let row1 = index / w + row_step(s1);
    let col1 = index % w + col_step(s1);
    let row2 = index / w + row_step(s2);
    let col2 = index % w + col_step(s2);
    assert(0 <= row1 * w + col1 < w * h) by (nonlinear_arith)
        requires
            0 <= row1 < h,
            0 <= col1 < w,
    ;
    lemma_fundamental_div_mod_converse(b as int, w, row1, col1);
    if grid.cells[index].neighbours[s2] == Some(b) {
        assert(0 <= row2 * w + col2 < w * h) by (nonlinear_arith)
            requires
                0 <= row2 < h,
                0 <= col2 < w,
        ;
        lemma_fundamental_div_mod_converse(b as int, w, row2, col2);
    }
    if b as int == index {
        lemma_fundamental_div_mod_converse(index, w, index / w, index % w);
    }
}

} // verus!
