use vstd::prelude::*;

use crate::rules::{
    decide, life_rule, live_neighbor_count, next_generation, occupied, transition_of, CellState,
    Transition,
};

use vstd::arithmetic::mul::*;

verus! {

/// The eight directions of the Moore neighborhood. North is `y - 1`, east is
/// `x + 1`.
#[derive(Debug, Clone, Copy, PartialEq, Eq, Structural)]
pub enum Direction {
    N,
    NE,
    E,
    SE,
    S,
    SW,
    W,
    NW,
}

impl Direction {
    pub open spec fn dx(self) -> int {
        match self {
            Direction::N => 0,
            Direction::NE => 1,
            Direction::E => 1,
            Direction::SE => 1,
            Direction::S => 0,
            Direction::SW => -1,
            Direction::W => -1,
            Direction::NW => -1,
        }
    }

    pub open spec fn dy(self) -> int {
        match self {
            Direction::N => -1,
            Direction::NE => -1,
            Direction::E => 0,
            Direction::SE => 1,
            Direction::S => 1,
            Direction::SW => 1,
            Direction::W => 0,
            Direction::NW => -1,
        }
    }

    pub open spec fn spec_opposite(self) -> Direction {
        match self {
            Direction::N => Direction::S,
            Direction::NE => Direction::SW,
            Direction::E => Direction::W,
            Direction::SE => Direction::NW,
            Direction::S => Direction::N,
            Direction::SW => Direction::NE,
            Direction::W => Direction::E,
            Direction::NW => Direction::SE,
        }
    }

    /// The direction that points back.
    #[verifier::when_used_as_spec(spec_opposite)]
    pub fn opposite(self) -> (r: Direction)
        ensures
            r == self.spec_opposite(),
            r.dx() == -self.dx(),
            r.dy() == -self.dy(),
    {
        match self {
            Direction::N => Direction::S,
            Direction::NE => Direction::SW,
            Direction::E => Direction::W,
            Direction::SE => Direction::NW,
            Direction::S => Direction::N,
            Direction::SW => Direction::NE,
            Direction::W => Direction::E,
            Direction::NW => Direction::SE,
        }
    }
}

/// The sprite that shows a cell in the given state: 0 alive, 1 dead.
pub open spec fn sprite_of(state: CellState) -> usize {
    match state {
        CellState::Alive => 0,
        CellState::Dead => 1,
    }
}

/// One cell of the board: its coordinates, its state, and the sprite that
/// shows that state.
#[derive(Debug, Clone, Copy, PartialEq, Eq, Structural)]
pub struct Cell {
    pub x: i32,
    pub y: i32,
    pub state: CellState,
    pub sprite_number: usize,
}

/// The ids of a cell's neighbors on the board; `None` where the neighbor
/// would lie outside the bounds.
#[derive(Debug, Clone, Copy, PartialEq, Eq, Structural)]
pub struct Neighbors {
    pub n: Option<usize>,
    pub ne: Option<usize>,
    pub e: Option<usize>,
    pub se: Option<usize>,
    pub s: Option<usize>,
    pub sw: Option<usize>,
    pub w: Option<usize>,
    pub nw: Option<usize>,
}

/// 1 where the link names a cell of `cells` that is alive, else 0. A link to
/// an id that `cells` does not hold counts as no neighbor.
pub open spec fn link_alive(link: Option<usize>, cells: Seq<Cell>) -> int {
    match link {
        Some(id) => if id < cells.len() && cells[id as int].state == CellState::Alive {
            1
        } else {
            0
        },
        None => 0,
    }
}

impl Neighbors {
    /// The link in direction `d`.
    pub open spec fn link(self, d: Direction) -> Option<usize> {
        match d {
            Direction::N => self.n,
            Direction::NE => self.ne,
            Direction::E => self.e,
            Direction::SE => self.se,
            Direction::S => self.s,
            Direction::SW => self.sw,
            Direction::W => self.w,
            Direction::NW => self.nw,
        }
    }

    /// The number of linked cells that are alive.
    pub open spec fn alive_links(self, cells: Seq<Cell>) -> int {
        link_alive(self.n, cells) + link_alive(self.ne, cells) + link_alive(self.e, cells)
            + link_alive(self.se, cells) + link_alive(self.s, cells) + link_alive(self.sw, cells)
            + link_alive(self.w, cells) + link_alive(self.nw, cells)
    }

    /// The link in direction `d`.
    pub fn get(&self, d: Direction) -> (r: Option<usize>)
        ensures
            r == self.link(d),
    {
        match d {
            Direction::N => self.n,
            Direction::NE => self.ne,
            Direction::E => self.e,
            Direction::SE => self.se,
            Direction::S => self.s,
            Direction::SW => self.sw,
            Direction::W => self.w,
            Direction::NW => self.nw,
        }
    }

    /// Counts the neighbors that are alive in `cells`.
    pub fn get_num_alive(&self, cells: &[Cell]) -> (r: usize)
        ensures
            r == self.alive_links(cells@),
            r <= 8,
    {
        let links: [Option<usize>; 8] = [
            self.n,
            self.ne,
            self.e,
            self.se,
            self.s,
            self.sw,
            self.w,
            self.nw,
        ];
        let mut count: usize = 0;
        let mut k: usize = 0;
        while k < 8
            invariant
                0 <= k <= 8,
                links@ == seq![self.n, self.ne, self.e, self.se, self.s, self.sw, self.w, self.nw],
                count == sum_alive(links@.take(k as int), cells@),
                count <= k,
            decreases 8 - k,
        {
            let alive = match links[k] {
                Some(id) => id < cells.len() && cells[id].state == CellState::Alive,
                None => false,
            };
            proof {
                assert(links@.take(k as int + 1).drop_last() == links@.take(k as int));
            }
            if alive {
                count = count + 1;
            }
            k = k + 1;
        }
        proof {
            assert(links@.take(8) == links@);
            reveal_with_fuel(sum_alive, 9);
        }
        count
    }
}

/// The number of links in `links` that name an alive cell of `cells`.
pub open spec fn sum_alive(links: Seq<Option<usize>>, cells: Seq<Cell>) -> int
    decreases links.len(),
{
    if links.len() == 0 {
        0
    } else {
        sum_alive(links.drop_last(), cells) + link_alive(links.last(), cells)
    }
}

/// The rectangle `[min_x, max_x] x [min_y, max_y]` of a board. A rectangle
/// with `min > max` on an axis holds no cell.
#[derive(Debug, Clone, Copy, PartialEq, Eq, Structural)]
pub struct Bounds {
    pub min_x: i32,
    pub max_x: i32,
    pub min_y: i32,
    pub max_y: i32,
}

impl Bounds {
    pub open spec fn width(self) -> int {
        if self.min_x <= self.max_x {
            self.max_x - self.min_x + 1
        } else {
            0
        }
    }

    pub open spec fn height(self) -> int {
        if self.min_y <= self.max_y {
            self.max_y - self.min_y + 1
        } else {
            0
        }
    }

    /// The number of cells inside.
    pub open spec fn size(self) -> int {
        self.width() * self.height()
    }

    pub open spec fn contains(self, x: int, y: int) -> bool {
        self.min_x <= x <= self.max_x && self.min_y <= y <= self.max_y
    }

    /// The id of the cell at `(x, y)`: cells are numbered row by row, from
    /// `min_y` down and from `min_x` across.
    pub open spec fn index_of(self, x: int, y: int) -> int {
        (y - self.min_y) * self.width() + (x - self.min_x)
    }

    /// The link to `(x, y)`: the id of that cell, or `None` outside.
    pub open spec fn link_to(self, x: int, y: int) -> Option<usize> {
        if self.contains(x, y) {
            Some(self.index_of(x, y) as usize)
        } else {
            None
        }
    }

    /// Ids lie in `0 .. size`, and two cells never share one.
    pub proof fn lemma_index_of(self, x: int, y: int)
        requires
            self.contains(x, y),
        ensures
            0 <= self.index_of(x, y) < self.size(),
            forall|x2: int, y2: int|
                self.contains(x2, y2) && #[trigger] self.index_of(x2, y2) == self.index_of(x, y)
                    ==> x2 == x && y2 == y,
    {
        let w = self.width();
        let h = self.height();
        let dy = y - self.min_y;
        let dx = x - self.min_x;
        assert(0 <= dy * w) by (nonlinear_arith)
            requires
                0 <= dy,
                0 < w,
        ;
        assert(dy * w + dx < h * w) by (nonlinear_arith)
            requires
                0 <= dy < h,
                0 <= dx < w,
        ;
        lemma_mul_is_commutative(w, h);
        assert forall|x2: int, y2: int|
            self.contains(x2, y2) && #[trigger] self.index_of(x2, y2) == self.index_of(x, y)
                implies x2 == x && y2 == y by {
            let dy2 = y2 - self.min_y;
            let dx2 = x2 - self.min_x;
            assert(dy2 == dy && dx2 == dx) by (nonlinear_arith)
                requires
                    0 <= dy,
                    0 <= dy2,
                    0 <= dx < w,
                    0 <= dx2 < w,
                    dy2 * w + dx2 == dy * w + dx,
            {
                if dy2 < dy {
                    assert(dy2 * w + w <= dy * w);
                } else if dy2 > dy {
                    assert(dy * w + w <= dy2 * w);
                }
            }
        }
    }

    /// The id of the cell at `(x, y)`.
    pub fn index(&self, x: i32, y: i32) -> (r: usize)
        requires
            self.contains(x as int, y as int),
            self.size() <= usize::MAX,
        ensures
            r == self.index_of(x as int, y as int),
    {
        proof {
            self.lemma_index_of(x as int, y as int);
            let w = self.width();
            let h = self.height();
            assert(w <= w * h) by (nonlinear_arith)
                requires
                    1 <= h,
                    0 <= w,
            ;
            assert((y - self.min_y) * w <= (y - self.min_y) * w + (x - self.min_x));
        }
        let w = (self.max_x as i64 - self.min_x as i64 + 1) as usize;
        let dy = (y as i64 - self.min_y as i64) as usize;
        let dx = (x as i64 - self.min_x as i64) as usize;
        dy * w + dx
    }

    /// The link from `(x, y)` toward `(x + dx, y + dy)`.
    pub fn link_toward(&self, x: i32, y: i32, dx: i32, dy: i32) -> (r: Option<usize>)
        requires
            self.size() <= usize::MAX,
            -1 <= dx <= 1,
            -1 <= dy <= 1,
        ensures
            r == self.link_to(x + dx, y + dy),
    {
        let nx = x as i64 + dx as i64;
        let ny = y as i64 + dy as i64;
        if self.min_x as i64 <= nx && nx <= self.max_x as i64 && self.min_y as i64 <= ny && ny
            <= self.max_y as i64 {
            Some(self.index(nx as i32, ny as i32))
        } else {
            None
        }
    }
}

/// Setup input: the bounds, and a matrix of initial states in which
/// `board[y][x] == 1` marks the cell `(x, y)` alive. The matrix need not
/// match the bounds: a cell that it does not cover starts dead, and an entry
/// outside the bounds is ignored.
#[derive(Debug, Clone)]
pub struct BoardConfig {
    pub min_x: i32,
    pub max_x: i32,
    pub min_y: i32,
    pub max_y: i32,
    pub board: Vec<Vec<u8>>,
}

impl BoardConfig {
    pub open spec fn spec_bounds(&self) -> Bounds {
        Bounds { min_x: self.min_x, max_x: self.max_x, min_y: self.min_y, max_y: self.max_y }
    }

    /// Whether the matrix marks `(x, y)` alive.
    pub open spec fn marks_alive(&self, x: int, y: int) -> bool {
        &&& 0 <= y < self.board@.len()
        &&& 0 <= x < self.board@[y]@.len()
        &&& self.board@[y]@[x] == 1
    }

    /// The cells that start alive.
    pub open spec fn initial_alive(&self) -> Set<(int, int)> {
        Set::new(|p: (int, int)| self.spec_bounds().contains(p.0, p.1) && self.marks_alive(p.0, p.1))
    }

    #[verifier::when_used_as_spec(spec_bounds)]
    pub fn bounds(&self) -> (r: Bounds)
        ensures
            r == self.spec_bounds(),
    {
        Bounds { min_x: self.min_x, max_x: self.max_x, min_y: self.min_y, max_y: self.max_y }
    }

    /// Whether the matrix marks `(x, y)` alive.
    pub fn is_marked_alive(&self, x: i64, y: i64) -> (r: bool)
        ensures
            r == self.marks_alive(x as int, y as int),
    {
        if y < 0 || y as u64 >= self.board.len() as u64 {
            return false;
        }
        let row = &self.board[y as usize];
        if x < 0 || x as u64 >= row.len() as u64 {
            return false;
        }
        row[x as usize] == 1
    }
}

impl Default for BoardConfig {
    /// A board from -20 to 20 on both axes, all dead.
    fn default() -> (r: Self)
        ensures
            r.min_x == -20,
            r.max_x == 20,
            r.min_y == -20,
            r.max_y == 20,
            r.board@.len() == 0,
    {
        BoardConfig { min_x: -20, max_x: 20, min_y: -20, max_y: 20, board: Vec::new() }
    }
}

/// The state a cell starts in.
pub open spec fn initial_state(config: &BoardConfig, x: int, y: int) -> CellState {
    if config.marks_alive(x, y) {
        CellState::Alive
    } else {
        CellState::Dead
    }
}

/// The board: an arena of cells numbered by `Bounds::index_of`, and for each
/// cell its links to its neighbors. The links are fixed once built; only the
/// cells' states change.
#[derive(Debug)]
pub struct Board {
    bounds: Bounds,
    cells: Vec<Cell>,
    neighbors: Vec<Neighbors>,
}

impl Board {
    pub closed spec fn spec_bounds(&self) -> Bounds {
        self.bounds
    }

    /// The cells, by id.
    pub closed spec fn cells_view(&self) -> Seq<Cell> {
        self.cells@
    }

    /// The neighbor links, by id.
    pub closed spec fn neighbors_view(&self) -> Seq<Neighbors> {
        self.neighbors@
    }

    /// Cell `i` lies inside the bounds, has id `i`, and shows its state.
    pub open spec fn cell_placed(&self, i: int) -> bool {
        let c = self.cells_view()[i];
        &&& self.spec_bounds().contains(c.x as int, c.y as int)
        &&& self.spec_bounds().index_of(c.x as int, c.y as int) == i
        &&& c.sprite_number == sprite_of(c.state)
    }

    /// Each link of cell `i` names the cell one step away in its direction,
    /// or is `None` where that step leaves the bounds.
    pub open spec fn links_placed(&self, i: int) -> bool {
        forall|d: Direction|
            #[trigger] self.neighbors_view()[i].link(d) == self.spec_bounds().link_to(
                self.cells_view()[i].x + d.dx(),
                self.cells_view()[i].y + d.dy(),
            )
    }

    pub open spec fn wf(&self) -> bool {
        &&& self.spec_bounds().size() <= usize::MAX
        &&& self.cells_view().len() == self.spec_bounds().size()
        &&& self.neighbors_view().len() == self.cells_view().len()
        &&& forall|i: int| 0 <= i < self.cells_view().len() ==> #[trigger] self.cell_placed(i)
        &&& forall|i: int| 0 <= i < self.cells_view().len() ==> #[trigger] self.links_placed(i)
    }

    /// The state of the cell at `(x, y)`.
    pub open spec fn state_at(&self, x: int, y: int) -> CellState {
        self.cells_view()[self.spec_bounds().index_of(x, y)].state
    }

    /// The set of alive cells, by coordinates.
    pub open spec fn alive_cells(&self) -> Set<(int, int)> {
        Set::new(
            |p: (int, int)|
                self.spec_bounds().contains(p.0, p.1) && self.state_at(p.0, p.1) == CellState::Alive,
        )
    }

    /// Every point inside the bounds has its cell, at its id.
    pub proof fn lemma_cell_at(&self, x: int, y: int)
        requires
            self.wf(),
            self.spec_bounds().contains(x, y),
        ensures
            0 <= self.spec_bounds().index_of(x, y) < self.cells_view().len(),
            self.cells_view()[self.spec_bounds().index_of(x, y)].x == x,
            self.cells_view()[self.spec_bounds().index_of(x, y)].y == y,
    {
        self.bounds.lemma_index_of(x, y);
        let k = self.bounds.index_of(x, y);
        assert(self.cell_placed(k));
    }

    /// Builds the board from its configuration: one cell for each point of
    /// the bounds, alive where the matrix marks it, and the links of each.
    pub fn new(config: &BoardConfig) -> (b: Board)
        requires
            config.spec_bounds().size() <= usize::MAX,
        ensures
            b.wf(),
            b.spec_bounds() == config.spec_bounds(),
            b.alive_cells() == config.initial_alive(),
    {
        let bounds = config.bounds();
        let ghost w = bounds.width();
        let ghost h = bounds.height();
        let mut cells: Vec<Cell> = Vec::new();
        let mut y: i64 = bounds.min_y as i64;
        while y <= bounds.max_y as i64
            invariant
                bounds == config.spec_bounds(),
                w == bounds.width(),
                h == bounds.height(),
                bounds.size() <= usize::MAX,
                bounds.min_y <= y,
                y <= bounds.max_y + 1 || y == bounds.min_y,
                cells@.len() == (y - bounds.min_y) * w,
                forall|i: int| 0 <= i < cells@.len() ==> #[trigger] cell_built(bounds, config, cells@[i], i),
            decreases bounds.max_y + 1 - y,
        {
            let mut x: i64 = bounds.min_x as i64;
            while x <= bounds.max_x as i64
                invariant
                    bounds == config.spec_bounds(),
                    w == bounds.width(),
                    bounds.size() <= usize::MAX,
                    bounds.min_y <= y <= bounds.max_y,
                    bounds.min_x <= x,
                    x <= bounds.max_x + 1 || x == bounds.min_x,
                    cells@.len() == (y - bounds.min_y) * w + (x - bounds.min_x),
                    forall|i: int| 0 <= i < cells@.len() ==> #[trigger] cell_built(bounds, config, cells@[i], i),
                decreases bounds.max_x + 1 - x,
            {
                let state = if config.is_marked_alive(x, y) {
                    CellState::Alive
                } else {
                    CellState::Dead
                };
                let sprite_number: usize = match state {
                    CellState::Alive => 0,
                    CellState::Dead => 1,
                };
                let cell = Cell { x: x as i32, y: y as i32, state, sprite_number };
                cells.push(cell);
                x = x + 1;
            }
            proof {
                if bounds.min_x <= bounds.max_x {
                    lemma_mul_is_distributive_add_other_way(w, y - bounds.min_y, 1);
                } else {
                    lemma_mul_by_zero_is_zero(y - bounds.min_y);
                    lemma_mul_by_zero_is_zero(y + 1 - bounds.min_y);
                }
            }
            y = y + 1;
        }
        proof {
            lemma_mul_is_commutative(w, h);
            if bounds.min_y > bounds.max_y {
                lemma_mul_by_zero_is_zero(w);
            }
        }
        let mut neighbors: Vec<Neighbors> = Vec::new();
        let mut i: usize = 0;
        while i < cells.len()
            invariant
                bounds == config.spec_bounds(),
                bounds.size() <= usize::MAX,
                neighbors@.len() == i,
                i <= cells@.len(),
                forall|j: int| 0 <= j < i ==> #[trigger] links_built(bounds, cells@[j], neighbors@[j]),
            decreases cells@.len() - i,
        {
            let c = cells[i];
            let nb = Neighbors {
                n: bounds.link_toward(c.x, c.y, 0, -1),
                ne: bounds.link_toward(c.x, c.y, 1, -1),
                e: bounds.link_toward(c.x, c.y, 1, 0),
                se: bounds.link_toward(c.x, c.y, 1, 1),
                s: bounds.link_toward(c.x, c.y, 0, 1),
                sw: bounds.link_toward(c.x, c.y, -1, 1),
                w: bounds.link_toward(c.x, c.y, -1, 0),
                nw: bounds.link_toward(c.x, c.y, -1, -1),
            };
            assert(links_built(bounds, c, nb));
            neighbors.push(nb);
            i = i + 1;
        }
        let b = Board { bounds, cells, neighbors };
        proof {
            assert forall|i: int| 0 <= i < b.cells@.len() implies #[trigger] b.cell_placed(i) by {
                assert(cell_built(bounds, config, b.cells@[i], i));
            }
            assert forall|i: int| 0 <= i < b.cells@.len() implies #[trigger] b.links_placed(i) by {
                assert(links_built(bounds, b.cells@[i], b.neighbors@[i]));
            }
            assert forall|p: (int, int)| #[trigger] b.alive_cells().contains(p)
                == config.initial_alive().contains(p) by {
                if bounds.contains(p.0, p.1) {
                    b.lemma_cell_at(p.0, p.1);
                    assert(cell_built(bounds, config, b.cells@[bounds.index_of(p.0, p.1)], bounds.index_of(p.0, p.1)));
                }
            }
            assert(b.alive_cells() =~= config.initial_alive());
        }
        b
    }
}

impl Board {
    /// The bounds.
    pub fn bounds(&self) -> (r: Bounds)
        ensures
            r == self.spec_bounds(),
    {
        self.bounds
    }

    /// The number of cells.
    pub fn len(&self) -> (r: usize)
        ensures
            r == self.cells_view().len(),
    {
        self.cells.len()
    }

    /// The cell with id `i`.
    pub fn cell(&self, i: usize) -> (r: &Cell)
        requires
            i < self.cells_view().len(),
        ensures
            *r == self.cells_view()[i as int],
    {
        &self.cells[i]
    }

    /// The neighbor links of the cell with id `i`.
    pub fn neighbors(&self, i: usize) -> (r: &Neighbors)
        requires
            i < self.neighbors_view().len(),
        ensures
            *r == self.neighbors_view()[i as int],
    {
        &self.neighbors[i]
    }

    /// The id of the cell at `(x, y)`, or `None` outside the bounds.
    pub fn id_at(&self, x: i32, y: i32) -> (r: Option<usize>)
        requires
            self.wf(),
        ensures
            r == self.spec_bounds().link_to(x as int, y as int),
    {
        self.bounds.link_toward(x, y, 0, 0)
    }

    /// The state of the cell at `(x, y)`, or `None` outside the bounds.
    pub fn get_state(&self, x: i32, y: i32) -> (r: Option<CellState>)
        requires
            self.wf(),
        ensures
            r == (if self.alive_cells().contains((x as int, y as int)) {
                Some(CellState::Alive)
            } else if self.spec_bounds().contains(x as int, y as int) {
                Some(CellState::Dead)
            } else {
                None
            }),
    {
        match self.id_at(x, y) {
            Some(i) => {
                proof {
                    self.lemma_cell_at(x as int, y as int);
                }
                Some(self.cells[i].state)
            },
            None => None,
        }
    }

    /// The transition that the rule gives cell `i`, read on the current
    /// states.
    pub open spec fn transition_at(&self, i: int) -> Transition {
        transition_of(
            self.cells_view()[i].state,
            self.neighbors_view()[i].alive_links(self.cells_view()),
        )
    }

    /// The link of cell `i` in direction `d` counts exactly when the cell
    /// one step that way is alive.
    proof fn lemma_link_alive(&self, i: int, d: Direction)
        requires
            self.wf(),
            0 <= i < self.cells_view().len(),
        ensures
            link_alive(self.neighbors_view()[i].link(d), self.cells_view()) == occupied(
                self.alive_cells(),
                self.cells_view()[i].x + d.dx(),
                self.cells_view()[i].y + d.dy(),
            ),
    {
        assert(self.links_placed(i));
        let x = self.cells_view()[i].x + d.dx();
        let y = self.cells_view()[i].y + d.dy();
        if self.spec_bounds().contains(x, y) {
            self.lemma_cell_at(x, y);
        }
    }

    /// Counting over the links gives the neighbor count of the cell's
    /// position.
    proof fn lemma_alive_links(&self, i: int)
        requires
            self.wf(),
            0 <= i < self.cells_view().len(),
        ensures
            self.neighbors_view()[i].alive_links(self.cells_view()) == live_neighbor_count(
                self.alive_cells(),
                self.cells_view()[i].x as int,
                self.cells_view()[i].y as int,
            ),
    {
        self.lemma_link_alive(i, Direction::N);
        self.lemma_link_alive(i, Direction::NE);
        self.lemma_link_alive(i, Direction::E);
        self.lemma_link_alive(i, Direction::SE);
        self.lemma_link_alive(i, Direction::S);
        self.lemma_link_alive(i, Direction::SW);
        self.lemma_link_alive(i, Direction::W);
        self.lemma_link_alive(i, Direction::NW);
    }

    /// Reads the current states and returns what one step does: the ids of
    /// the cells to kill and of those to revive. Nothing is written.
    pub fn evaluate(&self) -> (t: Transitions)
        requires
            self.wf(),
        ensures
            forall|i: usize|
                t.kill@.contains(i) <==> (i < self.cells_view().len() && self.transition_at(i as int)
                    == Transition::Kill),
            forall|i: usize|
                t.revive@.contains(i) <==> (i < self.cells_view().len() && self.transition_at(
                    i as int,
                ) == Transition::Revive),
    {
        let mut kill: Vec<usize> = Vec::new();
        let mut revive: Vec<usize> = Vec::new();
        let mut i: usize = 0;
        while i < self.cells.len()
            invariant
                self.wf(),
                i <= self.cells_view().len(),
                forall|j: usize|
                    kill@.contains(j) <==> (j < i && self.transition_at(j as int) == Transition::Kill),
                forall|j: usize|
                    revive@.contains(j) <==> (j < i && self.transition_at(j as int)
                        == Transition::Revive),
            decreases self.cells_view().len() - i,
        {
            let alive_neighbors = self.neighbors[i].get_num_alive(self.cells.as_slice());
            let t = decide(self.cells[i].state, alive_neighbors);
            assert(t == self.transition_at(i as int));
            let ghost kill0 = kill@;
            let ghost revive0 = revive@;
            match t {
                Transition::Kill => kill.push(i),
                Transition::Revive => revive.push(i),
                Transition::Keep => {},
            }
            proof {
                assert forall|j: usize| kill@.contains(j) <==> (j < i + 1 && self.transition_at(
                    j as int,
                ) == Transition::Kill) by {
                    lemma_push_contains(kill0, i, j);
                }
                assert forall|j: usize| revive@.contains(j) <==> (j < i + 1 && self.transition_at(
                    j as int,
                ) == Transition::Revive) by {
                    lemma_push_contains(revive0, i, j);
                }
            }
            i = i + 1;
        }
        Transitions { kill, revive }
    }
}

impl Board {
    /// Writes the transitions: revived cells become alive, killed cells dead,
    /// each with the sprite of its new state. Ids that name no cell are
    /// skipped. The links and the bounds stay as they are.
    pub fn commit(&mut self, t: &Transitions)
        requires
            old(self).wf(),
        ensures
            final(self).wf(),
            final(self).spec_bounds() == old(self).spec_bounds(),
            final(self).neighbors_view() == old(self).neighbors_view(),
            final(self).cells_view().len() == old(self).cells_view().len(),
            forall|i: int|
                0 <= i < old(self).cells_view().len() ==> {
                    let c0 = #[trigger] old(self).cells_view()[i];
                    let c = final(self).cells_view()[i];
                    &&& c.x == c0.x
                    &&& c.y == c0.y
                    &&& c.state == committed_state(c0.state, t, i as usize)
                },
    {
        let ghost cells0 = self.cells@;
        proof {
            assert(t.kill@.take(0) =~= Seq::<usize>::empty());
            assert forall|i: int| 0 <= i < cells0.len() implies (#[trigger] self.cells@[i]).sprite_number
                == sprite_of(self.cells@[i].state) by {
                assert(old(self).cell_placed(i));
            }
        }
        let mut k: usize = 0;
        while k < t.kill.len()
            invariant
                self.bounds == old(self).bounds,
                self.neighbors@ == old(self).neighbors@,
                cells0 == old(self).cells@,
                old(self).wf(),
                self.cells@.len() == cells0.len(),
                k <= t.kill@.len(),
                forall|i: int|
                    0 <= i < cells0.len() ==> {
                        let c = #[trigger] self.cells@[i];
                        &&& c.x == cells0[i].x
                        &&& c.y == cells0[i].y
                        &&& c.sprite_number == sprite_of(c.state)
                        &&& c.state == if t.kill@.take(k as int).contains(i as usize) {
                            CellState::Dead
                        } else {
                            cells0[i].state
                        }
                    },
            decreases t.kill@.len() - k,
        {
            let id = t.kill[k];
            if id < self.cells.len() {
                let mut c = self.cells[id];
                c.state = CellState::Dead;
                c.sprite_number = 1;
                self.cells.set(id, c);
            }
            proof {
                assert(t.kill@.take(k as int + 1) == t.kill@.take(k as int).push(id));
                assert forall|i: int| 0 <= i < cells0.len() implies #[trigger] t.kill@.take(
                    k as int + 1,
                ).contains(i as usize) == (t.kill@.take(k as int).contains(i as usize) || i == id) by {
                    lemma_push_contains(t.kill@.take(k as int), id, i as usize);
                }
                assert forall|i: int| 0 <= i < cells0.len() implies old(self).cell_placed(i) by {}
            }
            k = k + 1;
        }
        proof {
            assert(t.kill@.take(t.kill@.len() as int) == t.kill@);
            assert(t.revive@.take(0) =~= Seq::<usize>::empty());
        }
        let mut k: usize = 0;
        while k < t.revive.len()
            invariant
                self.bounds == old(self).bounds,
                self.neighbors@ == old(self).neighbors@,
                cells0 == old(self).cells@,
                old(self).wf(),
                self.cells@.len() == cells0.len(),
                k <= t.revive@.len(),
                forall|i: int|
                    0 <= i < cells0.len() ==> {
                        let c = #[trigger] self.cells@[i];
                        &&& c.x == cells0[i].x
                        &&& c.y == cells0[i].y
                        &&& c.sprite_number == sprite_of(c.state)
                        &&& c.state == if t.revive@.take(k as int).contains(i as usize) {
                            CellState::Alive
                        } else if t.kill@.contains(i as usize) {
                            CellState::Dead
                        } else {
                            cells0[i].state
                        }
                    },
            decreases t.revive@.len() - k,
        {
            let id = t.revive[k];
            if id < self.cells.len() {
                let mut c = self.cells[id];
                c.state = CellState::Alive;
                c.sprite_number = 0;
                self.cells.set(id, c);
            }
            proof {
                assert(t.revive@.take(k as int + 1) == t.revive@.take(k as int).push(id));
                assert forall|i: int| 0 <= i < cells0.len() implies #[trigger] t.revive@.take(
                    k as int + 1,
                ).contains(i as usize) == (t.revive@.take(k as int).contains(i as usize) || i
                    == id) by {
                    lemma_push_contains(t.revive@.take(k as int), id, i as usize);
                }
            }
            k = k + 1;
        }
        proof {
            assert(t.kill@.take(t.kill@.len() as int) == t.kill@);
            assert(t.revive@.take(t.revive@.len() as int) == t.revive@);
            assert forall|i: int| 0 <= i < self.cells@.len() implies #[trigger] self.cell_placed(i) by {
                assert(old(self).cell_placed(i));
            }
            assert forall|i: int| 0 <= i < self.cells@.len() implies #[trigger] self.links_placed(i) by {
                assert(old(self).links_placed(i));
            }
        }
    }

    /// Advances the board by one generation: every cell is decided on the
    /// states before the step, then all decisions are written at once.
    pub fn step(&mut self)
        requires
            old(self).wf(),
        ensures
            final(self).wf(),
            final(self).spec_bounds() == old(self).spec_bounds(),
            final(self).neighbors_view() == old(self).neighbors_view(),
            final(self).alive_cells() == next_generation(
                old(self).alive_cells(),
                old(self).spec_bounds(),
            ),
    {
        let t = self.evaluate();
        self.commit(&t);
        proof {
            let b0 = old(self);
            let bounds = b0.spec_bounds();
            assert forall|p: (int, int)| #[trigger] self.alive_cells().contains(p)
                == next_generation(b0.alive_cells(), bounds).contains(p) by {
                if bounds.contains(p.0, p.1) {
                    b0.lemma_cell_at(p.0, p.1);
                    let i = bounds.index_of(p.0, p.1);
                    b0.lemma_alive_links(i);
                    assert(b0.alive_cells().contains(p) == (b0.cells_view()[i].state
                        == CellState::Alive));
                    assert(self.cells_view()[i].state == committed_state(
                        b0.cells_view()[i].state,
                        &t,
                        i as usize,
                    ));
                    assert(t.revive@.contains(i as usize) == (b0.transition_at(i)
                        == Transition::Revive));
                    assert(t.kill@.contains(i as usize) == (b0.transition_at(i)
                        == Transition::Kill));
                }
            }
            assert(self.alive_cells() =~= next_generation(b0.alive_cells(), bounds));
        }
    }
}

/// The state of cell `i` after `t` is written over `state`.
pub open spec fn committed_state(state: CellState, t: &Transitions, i: usize) -> CellState {
    if t.revive@.contains(i) {
        CellState::Alive
    } else if t.kill@.contains(i) {
        CellState::Dead
    } else {
        state
    }
}

/// The work of one step, decided on one snapshot: the ids of the cells to
/// kill and of those to revive.
#[derive(Debug)]
pub struct Transitions {
    pub kill: Vec<usize>,
    pub revive: Vec<usize>,
}

/// What a sequence of ids holds after a push.
proof fn lemma_push_contains(s: Seq<usize>, v: usize, j: usize)
    ensures
        s.push(v).contains(j) <==> (s.contains(j) || j == v),
{
    if s.contains(j) {
        let k = choose|k: int| 0 <= k < s.len() && s[k] == j;
        assert(s.push(v)[k] == j);
    }
    if j == v {
        assert(s.push(v)[s.len() as int] == v);
    }
    if s.push(v).contains(j) {
        let k = choose|k: int| 0 <= k < s.push(v).len() && s.push(v)[k] == j;
        if k < s.len() {
            assert(s[k] == j);
        }
    }
}

/// Cell `c` stands at id `i` and starts as the configuration says.
spec fn cell_built(bounds: Bounds, config: &BoardConfig, c: Cell, i: int) -> bool {
    &&& bounds.contains(c.x as int, c.y as int)
    &&& bounds.index_of(c.x as int, c.y as int) == i
    &&& c.state == initial_state(config, c.x as int, c.y as int)
    &&& c.sprite_number == sprite_of(c.state)
}

/// `nb` holds the links of cell `c`.
spec fn links_built(bounds: Bounds, c: Cell, nb: Neighbors) -> bool {
    forall|d: Direction| #[trigger] nb.link(d) == bounds.link_to(c.x + d.dx(), c.y + d.dy())
}

} // verus!
