use vstd::prelude::*;

use crate::direction::Direction;
use crate::node::MazeNode;

verus! {

/// What a grid is, mathematically: its size, the walker's position and the
/// heading recorded in each cell (`cells[y][x]`).
pub struct MazeModel {
    pub width: nat,
    pub height: nat,
    pub origin: (nat, nat),
    pub cells: Seq<Seq<Option<Direction>>>,
}

impl MazeModel {
    pub open spec fn in_bounds(self, x: int, y: int) -> bool {
        0 <= x < self.width && 0 <= y < self.height
    }

    pub open spec fn cell(self, x: int, y: int) -> Option<Direction> {
        self.cells[y][x]
    }

    /// The cells form a `width` by `height` rectangle.
    pub open spec fn well_shaped(self) -> bool {
        &&& self.cells.len() == self.height
        &&& forall|y: int| 0 <= y < self.height ==> #[trigger] self.cells[y].len() == self.width
    }

    /// The walker stands inside the grid, and its cell is the only one
    /// without a heading.
    pub open spec fn single_origin(self) -> bool {
        &&& self.in_bounds(self.origin.0 as int, self.origin.1 as int)
        &&& forall|x: int, y: int|
            self.in_bounds(x, y) ==> (#[trigger] self.cell(x, y) is None <==> (x == self.origin.0
                && y == self.origin.1))
    }

    /// A grid as the walk keeps it: well shaped, and, unless it has no cell,
    /// with exactly one walker cell.
    pub open spec fn is_valid(self) -> bool {
        &&& self.well_shaped()
        &&& self.width > 0 && self.height > 0 ==> self.single_origin()
    }
}

/// The grid before any step: the walker at (0, 0), every other cell of
/// column 0 pointing up and every other cell pointing left.
pub open spec fn initial_model(width: nat, height: nat) -> MazeModel {
    MazeModel {
        width,
        height,
        origin: (0, 0),
        cells: Seq::new(
            height,
            |y: int|
                Seq::new(
                    width,
                    |x: int|
                        if x == 0 && y == 0 {
                            None
                        } else if x == 0 {
                            Some(Direction::Up)
                        } else {
                            Some(Direction::Left)
                        },
                ),
        ),
    }
}

/// The cell one step from (x, y) in `d`.
pub open spec fn offset_towards(d: Direction, x: int, y: int) -> (int, int) {
    match d {
        Direction::Left => (x - 1, y),
        Direction::Up => (x, y - 1),
        Direction::Right => (x + 1, y),
        Direction::Down => (x, y + 1),
    }
}

/// The headings that keep a walker at (x, y) on a `width` by `height`
/// grid, in the order Left, Up, Right, Down.
pub open spec fn legal_directions(width: nat, height: nat, x: nat, y: nat) -> Seq<Direction> {
    (if x > 0 { seq![Direction::Left] } else { Seq::empty() }) + (if y > 0 {
        seq![Direction::Up]
    } else {
        Seq::empty()
    }) + (if x + 1 < width { seq![Direction::Right] } else { Seq::empty() }) + (if y + 1
        < height {
        seq![Direction::Down]
    } else {
        Seq::empty()
    })
}

/// The heading chosen at (x, y) for a draw `seed` in 0..12: the twelve
/// draws are cut into as many equal runs as there are legal headings, and
/// the run the draw falls in picks the heading.
pub open spec fn bounded_direction(width: nat, height: nat, x: nat, y: nat, seed: nat) -> Direction {
    let legal = legal_directions(width, height, x, y);
    legal[(seed * legal.len()) as int / 12]
}

/// Which run of the twelve draws `seed` falls in when they are cut into
/// `k` equal runs, for two, three and four runs.
pub proof fn lemma_run_of_draw(seed: nat, k: nat)
    requires
        seed < 12,
        2 <= k <= 4,
    ensures
        k == 2 ==> (seed * k) as int / 12 == if seed < 6 { 0int } else { 1int },
        k == 3 ==> (seed * k) as int / 12 == if seed < 4 {
            0int
        } else if seed < 8 {
            1int
        } else {
            2int
        },
        k == 4 ==> (seed * k) as int / 12 == if seed < 3 {
            0int
        } else if seed < 6 {
            1int
        } else if seed < 9 {
            2int
        } else {
            3int
        },
{
    assert(seed == 0 || seed == 1 || seed == 2 || seed == 3 || seed == 4 || seed == 5 || seed == 6
        || seed == 7 || seed == 8 || seed == 9 || seed == 10 || seed == 11);
    assert(k == 2 || k == 3 || k == 4);
}

/// The legal headings of each of the nine kinds of position: the four
/// corners, the four edges and the inside.
pub proof fn lemma_legal_directions_by_position(width: nat, height: nat, x: nat, y: nat)
    requires
        width > 1,
        height > 1,
        x < width,
        y < height,
    ensures
        ({
            let legal = legal_directions(width, height, x, y);
            let right = x == width - 1;
            let bottom = y == height - 1;
            &&& x == 0 && y == 0 ==> legal == seq![Direction::Right, Direction::Down]
            &&& right && y == 0 ==> legal == seq![Direction::Left, Direction::Down]
            &&& right && bottom ==> legal == seq![Direction::Left, Direction::Up]
            &&& x == 0 && bottom ==> legal == seq![Direction::Up, Direction::Right]
            &&& x == 0 && 0 < y && !bottom ==> legal == seq![
                Direction::Up,
                Direction::Right,
                Direction::Down,
            ]
            &&& y == 0 && 0 < x && !right ==> legal == seq![
                Direction::Left,
                Direction::Right,
                Direction::Down,
            ]
            &&& right && 0 < y && !bottom ==> legal == seq![
                Direction::Left,
                Direction::Up,
                Direction::Down,
            ]
            &&& bottom && 0 < x && !right ==> legal == seq![
                Direction::Left,
                Direction::Up,
                Direction::Right,
            ]
            &&& 0 < x && !right && 0 < y && !bottom ==> legal == seq![
                Direction::Left,
                Direction::Up,
                Direction::Right,
                Direction::Down,
            ]
        }),
{
    let legal = legal_directions(width, height, x, y);
    let right = x == width - 1;
    let bottom = y == height - 1;
    if x == 0 && y == 0 {
        assert(legal =~= seq![Direction::Right, Direction::Down]);
    } else if right && y == 0 {
        assert(legal =~= seq![Direction::Left, Direction::Down]);
    } else if right && bottom {
        assert(legal =~= seq![Direction::Left, Direction::Up]);
    } else if x == 0 && bottom {
        assert(legal =~= seq![Direction::Up, Direction::Right]);
    } else if x == 0 {
        assert(legal =~= seq![Direction::Up, Direction::Right, Direction::Down]);
    } else if y == 0 {
        assert(legal =~= seq![Direction::Left, Direction::Right, Direction::Down]);
    } else if right {
        assert(legal =~= seq![Direction::Left, Direction::Up, Direction::Down]);
    } else if bottom {
        assert(legal =~= seq![Direction::Left, Direction::Up, Direction::Right]);
    } else {
        assert(legal =~= seq![Direction::Left, Direction::Up, Direction::Right, Direction::Down]);
    }
}

/// One step of the walk with draw `seed`: the walker's cell records the
/// chosen heading, the walker moves one cell that way and its new cell is
/// cleared.
pub open spec fn step(m: MazeModel, seed: nat) -> MazeModel {
    let (x, y) = m.origin;
    let d = bounded_direction(m.width, m.height, x, y, seed);
    let (nx, ny) = offset_towards(d, x as int, y as int);
    let marked = m.cells.update(y as int, m.cells[y as int].update(x as int, Some(d)));
    MazeModel {
        origin: (nx as nat, ny as nat),
        cells: marked.update(ny, marked[ny].update(nx, None)),
        ..m
    }
}

/// The grid after one step per draw of `seeds`, in order.
pub open spec fn walk(m: MazeModel, seeds: Seq<nat>) -> MazeModel
    decreases seeds.len(),
{
    if seeds.len() == 0 {
        m
    } else {
        step(walk(m, seeds.drop_last()), seeds.last())
    }
}

/// The heading at (x, y) for the draw `seed` (see `bounded_direction`); the
/// step it gives never leaves the grid.
pub fn gen_bounded_direction(width: usize, height: usize, x: usize, y: usize, seed: u8) -> (r: Direction)
    requires
        width > 1,
        height > 1,
        x < width,
        y < height,
        seed < 12,
    ensures
        r == bounded_direction(width as nat, height as nat, x as nat, y as nat, seed as nat),
        0 <= offset_towards(r, x as int, y as int).0 < width,
        0 <= offset_towards(r, x as int, y as int).1 < height,
{
    proof {
        lemma_legal_directions_by_position(width as nat, height as nat, x as nat, y as nat);
        lemma_run_of_draw(
            seed as nat,
            legal_directions(width as nat, height as nat, x as nat, y as nat).len(),
        );
    }
    let right = x == width - 1;
    let bottom = y == height - 1;
    if x == 0 && y == 0 {
        if seed < 6 { Direction::Right } else { Direction::Down }
    } else if right && y == 0 {
        if seed < 6 { Direction::Left } else { Direction::Down }
    } else if right && bottom {
        if seed < 6 { Direction::Left } else { Direction::Up }
    } else if x == 0 && bottom {
        if seed < 6 { Direction::Up } else { Direction::Right }
    } else if x == 0 {
        if seed < 4 { Direction::Up } else if seed < 8 { Direction::Right } else { Direction::Down }
    } else if y == 0 {
        if seed < 4 { Direction::Left } else if seed < 8 { Direction::Right } else { Direction::Down }
    } else if right {
        if seed < 4 { Direction::Left } else if seed < 8 { Direction::Up } else { Direction::Down }
    } else if bottom {
        if seed < 4 { Direction::Left } else if seed < 8 { Direction::Up } else { Direction::Right }
    } else {
        if seed < 3 {
            Direction::Left
        } else if seed < 6 {
            Direction::Up
        } else if seed < 9 {
            Direction::Right
        } else {
            Direction::Down
        }
    }
}

/// The cell one step from (x, y) in `d`, when it is on the grid.
fn offset_towards_exec(d: Direction, x: usize, y: usize) -> (r: (usize, usize))
    requires
        0 <= offset_towards(d, x as int, y as int).0 <= usize::MAX,
        0 <= offset_towards(d, x as int, y as int).1 <= usize::MAX,
    ensures
        r.0 as int == offset_towards(d, x as int, y as int).0,
        r.1 as int == offset_towards(d, x as int, y as int).1,
{
    match d {
        Direction::Left => (x - 1, y),
        Direction::Up => (x, y - 1),
        Direction::Right => (x + 1, y),
        Direction::Down => (x, y + 1),
    }
}

/// A step from a valid grid of at least two columns and two rows with a
/// draw in 0..12 gives a valid grid.
pub proof fn lemma_step_keeps_valid(m: MazeModel, seed: nat)
    requires
        m.is_valid(),
        m.width > 1,
        m.height > 1,
        seed < 12,
    ensures
        step(m, seed).is_valid(),
        step(m, seed).width == m.width,
        step(m, seed).height == m.height,
{
    let (x, y) = m.origin;
    let d = bounded_direction(m.width, m.height, x, y, seed);
    let (nx, ny) = offset_towards(d, x as int, y as int);
    let s = step(m, seed);
    lemma_legal_directions_by_position(m.width, m.height, x, y);
    lemma_run_of_draw(seed, legal_directions(m.width, m.height, x, y).len());
    assert(s.in_bounds(nx, ny));
    assert forall|i: int, j: int| s.in_bounds(i, j) implies (#[trigger] s.cell(i, j) is None <==> (i
        == s.origin.0 && j == s.origin.1)) by {
        assert(m.cell(i, j) is None <==> (i == x && j == y));
    }
}

/// Whether a step from (x, y) in `d` stays on a `width` by `height` grid.
pub open spec fn stays_on_grid(width: nat, height: nat, x: nat, y: nat, d: Direction) -> bool {
    let (nx, ny) = offset_towards(d, x as int, y as int);
    0 <= nx < width && 0 <= ny < height
}

/// How many of the draws 0..n give the heading `d` at (x, y).
pub open spec fn draws_towards(width: nat, height: nat, x: nat, y: nat, d: Direction, n: nat) -> nat
    decreases n,
{
    if n == 0 {
        0
    } else {
        draws_towards(width, height, x, y, d, (n - 1) as nat) + if bounded_direction(
            width,
            height,
            x,
            y,
            (n - 1) as nat,
        ) == d {
            1nat
        } else {
            0nat
        }
    }
}

/// How the draws are counted where two headings are legal.
proof fn lemma_draws_among_two(width: nat, height: nat, x: nat, y: nat, d: Direction)
    requires
        legal_directions(width, height, x, y).len() == 2,
    ensures
        ({
            let legal = legal_directions(width, height, x, y);
            draws_towards(width, height, x, y, d, 12) == (if d == legal[0] { 6nat } else { 0nat }) + (if d == legal[1] { 6nat } else { 0nat })
        }),
{
    lemma_run_of_draw(0, 2);
    lemma_run_of_draw(1, 2);
    lemma_run_of_draw(2, 2);
    lemma_run_of_draw(3, 2);
    lemma_run_of_draw(4, 2);
    lemma_run_of_draw(5, 2);
    lemma_run_of_draw(6, 2);
    lemma_run_of_draw(7, 2);
    lemma_run_of_draw(8, 2);
    lemma_run_of_draw(9, 2);
    lemma_run_of_draw(10, 2);
    lemma_run_of_draw(11, 2);
    reveal_with_fuel(draws_towards, 13);
}

/// How the draws are counted where three headings are legal.
proof fn lemma_draws_among_three(width: nat, height: nat, x: nat, y: nat, d: Direction)
    requires
        legal_directions(width, height, x, y).len() == 3,
    ensures
        ({
            let legal = legal_directions(width, height, x, y);
            draws_towards(width, height, x, y, d, 12) == (if d == legal[0] { 4nat } else { 0nat }) + (if d == legal[1] { 4nat } else { 0nat }) + (if d == legal[2] { 4nat } else { 0nat })
        }),
{
    lemma_run_of_draw(0, 3);
    lemma_run_of_draw(1, 3);
    lemma_run_of_draw(2, 3);
    lemma_run_of_draw(3, 3);
    lemma_run_of_draw(4, 3);
    lemma_run_of_draw(5, 3);
    lemma_run_of_draw(6, 3);
    lemma_run_of_draw(7, 3);
    lemma_run_of_draw(8, 3);
    lemma_run_of_draw(9, 3);
    lemma_run_of_draw(10, 3);
    lemma_run_of_draw(11, 3);
    reveal_with_fuel(draws_towards, 13);
}

/// How the draws are counted where four headings are legal.
proof fn lemma_draws_among_four(width: nat, height: nat, x: nat, y: nat, d: Direction)
    requires
        legal_directions(width, height, x, y).len() == 4,
    ensures
        ({
            let legal = legal_directions(width, height, x, y);
            draws_towards(width, height, x, y, d, 12) == (if d == legal[0] { 3nat } else { 0nat }) + (if d == legal[1] { 3nat } else { 0nat }) + (if d == legal[2] { 3nat } else { 0nat }) + (if d == legal[3] { 3nat } else { 0nat })
        }),
{
    lemma_run_of_draw(0, 4);
    lemma_run_of_draw(1, 4);
    lemma_run_of_draw(2, 4);
    lemma_run_of_draw(3, 4);
    lemma_run_of_draw(4, 4);
    lemma_run_of_draw(5, 4);
    lemma_run_of_draw(6, 4);
    lemma_run_of_draw(7, 4);
    lemma_run_of_draw(8, 4);
    lemma_run_of_draw(9, 4);
    lemma_run_of_draw(10, 4);
    lemma_run_of_draw(11, 4);
    reveal_with_fuel(draws_towards, 13);
}

/// Law: the twelve draws are shared out evenly among the headings that
/// stay on the grid, and none goes to a heading that would leave it; so
/// with a uniform draw each legal heading comes with chance one in the
/// number of legal headings (two at a corner, three on an edge, four
/// inside).
pub proof fn lemma_draws_shared_evenly(width: nat, height: nat, x: nat, y: nat, d: Direction)
    requires
        width > 1,
        height > 1,
        x < width,
        y < height,
    ensures
        legal_directions(width, height, x, y).len() >= 2,
        stays_on_grid(width, height, x, y, d) ==> draws_towards(width, height, x, y, d, 12)
            * legal_directions(width, height, x, y).len() == 12,
        !stays_on_grid(width, height, x, y, d) ==> draws_towards(width, height, x, y, d, 12) == 0,
{
    lemma_legal_directions_by_position(width, height, x, y);
    let k = legal_directions(width, height, x, y).len();
    let c = draws_towards(width, height, x, y, d, 12);
    if k == 2 {
        lemma_draws_among_two(width, height, x, y, d);
        assert(stays_on_grid(width, height, x, y, d) ==> c == 6);
    } else if k == 3 {
        lemma_draws_among_three(width, height, x, y, d);
        assert(stays_on_grid(width, height, x, y, d) ==> c == 4);
    } else {
        lemma_draws_among_four(width, height, x, y, d);
        assert(c == 3);
    }
}

/// The grid before any step is valid.
pub proof fn lemma_initial_valid(width: nat, height: nat)
    ensures
        initial_model(width, height).is_valid(),
{
    let m = initial_model(width, height);
    assert forall|y: int| 0 <= y < height implies #[trigger] m.cells[y].len() == width by {}
    if width > 0 && height > 0 {
        assert forall|x: int, y: int| m.in_bounds(x, y) implies (#[trigger] m.cell(x, y) is None <==> (x
            == m.origin.0 && y == m.origin.1)) by {}
    }
}

/// Law: on a grid of at least two columns and two rows, whatever the draws,
/// after any number of steps the walker stands on the grid and its cell is
/// the one cell without a heading.
pub proof fn lemma_walk_single_origin(width: nat, height: nat, seeds: Seq<nat>)
    requires
        width > 1,
        height > 1,
        forall|i: int| 0 <= i < seeds.len() ==> #[trigger] seeds[i] < 12,
    ensures
        walk(initial_model(width, height), seeds).single_origin(),
        walk(initial_model(width, height), seeds).is_valid(),
        walk(initial_model(width, height), seeds).width == width,
        walk(initial_model(width, height), seeds).height == height,
    decreases seeds.len(),
{
    if seeds.len() == 0 {
        lemma_initial_valid(width, height);
    } else {
        let before = seeds.drop_last();
        assert forall|i: int| 0 <= i < before.len() implies #[trigger] before[i] < 12 by {
            assert(before[i] == seeds[i]);
        }
        lemma_walk_single_origin(width, height, before);
        assert(seeds[seeds.len() - 1] < 12);
        lemma_step_keeps_valid(walk(initial_model(width, height), before), seeds.last());
    }
}

#[verifier::external_type_specification]
#[verifier::external_body]
pub struct ExThreadRng(rand::rngs::ThreadRng);

/// Relies on rand's `Rng::gen_range`: a draw from the range `0..12` lies in it.
#[verifier::external_body]
fn draw_seed(rng: &mut rand::rngs::ThreadRng) -> (r: u8)
    ensures
        r < 12,
{
    rand::Rng::gen_range(rng, 0u8..12u8)
}

/// A `width` by `height` grid of cells and the position of the walker on it.
#[derive(Debug)]
pub struct MazeGraph {
    width: usize,
    height: usize,
    data: Vec<Vec<MazeNode>>,
    origin: (usize, usize),
}

impl View for MazeGraph {
    type V = MazeModel;

    closed spec fn view(&self) -> MazeModel {
        MazeModel {
            width: self.width as nat,
            height: self.height as nat,
            origin: (self.origin.0 as nat, self.origin.1 as nat),
            cells: self.data@.map_values(|row: Vec<MazeNode>| row@.map_values(|n: MazeNode| n@)),
        }
    }
}

impl MazeGraph {
    /// The grid before any step (see `initial_model`).
    pub fn new(width: usize, height: usize) -> (r: Self)
        ensures
            r@ == initial_model(width as nat, height as nat),
            r@.is_valid(),
    {
        let mut data: Vec<Vec<MazeNode>> = Vec::new();
        let mut y: usize = 0;
        while y < height
            invariant
                y <= height,
                data@.len() == y,
                forall|j: int| 0 <= j < y ==> (#[trigger] data@[j])@.map_values(|n: MazeNode| n@)
                    == initial_model(width as nat, height as nat).cells[j],
            decreases height - y,
        {
            let mut row: Vec<MazeNode> = Vec::new();
            let mut x: usize = 0;
            while x < width
                invariant
                    x <= width,
                    y < height,
                    row@.len() == x,
                    forall|i: int| 0 <= i < x ==> (#[trigger] row@[i])@
                        == initial_model(width as nat, height as nat).cells[y as int][i],
                decreases width - x,
            {
                let node = if x == 0 && y == 0 {
                    MazeNode::new_origin()
                } else if x == 0 {
                    MazeNode::new_towards(Direction::Up)
                } else {
                    MazeNode::new_towards(Direction::Left)
                };
                row.push(node);
                x = x + 1;
            }
            assert(row@.map_values(|n: MazeNode| n@) =~= initial_model(width as nat, height as nat).cells[y as int]);
            data.push(row);
            y = y + 1;
        }
        let r = MazeGraph { width, height, data, origin: (0, 0) };
        assert(r@.cells =~= initial_model(width as nat, height as nat).cells);
        r
    }

    pub fn width(&self) -> (r: usize)
        ensures
            r == self@.width,
    {
        self.width
    }

    pub fn height(&self) -> (r: usize)
        ensures
            r == self@.height,
    {
        self.height
    }

    /// The walker's position, as (x, y).
    pub fn origin(&self) -> (r: (usize, usize))
        ensures
            r.0 == self@.origin.0,
            r.1 == self@.origin.1,
    {
        self.origin
    }

    /// The cell at column `x` and row `y`, or `None` off the grid.
    pub fn get(&self, x: usize, y: usize) -> (r: Option<MazeNode>)
        requires
            self@.well_shaped(),
        ensures
            self@.in_bounds(x as int, y as int) ==> r is Some && r.unwrap()@ == self@.cell(x as int, y as int),
            !self@.in_bounds(x as int, y as int) ==> r is None,
    {
        if x < self.width && y < self.height {
            assert(self@.cells[y as int].len() == self.width);
            Some(self.data[y][x])
        } else {
            None
        }
    }

    /// One step of the walk with the draw `seed` (see `step`). A grid with
    /// fewer than two columns or two rows has no move: it is left as it
    /// is and `false` comes back.
    pub fn move_origin_with(&mut self, seed: u8) -> (r: bool)
        requires
            old(self)@.is_valid(),
            seed < 12,
        ensures
            r == (old(self)@.width > 1 && old(self)@.height > 1),
            r ==> final(self)@ == step(old(self)@, seed as nat),
            !r ==> final(self)@ == old(self)@,
            final(self)@.is_valid(),
    {
        if self.width <= 1 || self.height <= 1 {
            return false;
        }
        proof {
            lemma_step_keeps_valid(self@, seed as nat);
        }
        let ghost m = self@;
        let (x, y) = self.origin;
        let d = gen_bounded_direction(self.width, self.height, x, y, seed);
        assert(m.cells[y as int].len() == m.width);
        assert(m.cells[(offset_towards(d, x as int, y as int).1)].len() == m.width);
        *self.data[y][x].direction_mut() = Some(d);
        let ghost marked = m.cells.update(y as int, m.cells[y as int].update(x as int, Some(d)));
        assert(self@.cells[y as int] =~= marked[y as int]);
        assert(self@.cells =~= marked);
        let (nx, ny) = offset_towards_exec(d, x, y);
        self.origin = (nx, ny);
        self.data[ny][nx].direction_mut().take();
        assert(self@.cells[ny as int] =~= marked[ny as int].update(nx as int, None));
        assert(self@.cells =~= step(m, seed as nat).cells);
        true
    }

    /// One step of the walk with a draw in 0..12 taken from `rng`. A grid
    /// with fewer than two columns or two rows has no move: it is left as
    /// it is and `false` comes back.
    pub fn move_origin(&mut self, rng: &mut rand::rngs::ThreadRng) -> (r: bool)
        requires
            old(self)@.is_valid(),
        ensures
            r == (old(self)@.width > 1 && old(self)@.height > 1),
            r ==> exists|seed: nat| seed < 12 && final(self)@ == step(old(self)@, seed),
            !r ==> final(self)@ == old(self)@,
            final(self)@.is_valid(),
    {
        if self.width <= 1 || self.height <= 1 {
            return false;
        }
        let seed = draw_seed(rng);
        let moved = self.move_origin_with(seed);
        assert((seed as nat) < 12 && self@ == step(old(self)@, seed as nat));
        moved
    }
}

} // verus!
