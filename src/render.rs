use vstd::prelude::*;

use crate::direction::Direction;
use crate::graph::{MazeGraph, MazeModel};
use crate::node::MazeNode;
use crate::text::{join_strings, joined, push_char, texts};

verus! {

/// Whether a wall runs along the top of cell (x, y), for rows 0 to
/// `height` (row `height` is the bottom border): the border always has
/// one; inside, there is none where the cell above was left downwards or
/// the cell below was left upwards.
pub open spec fn h_wall(m: MazeModel, x: int, y: int) -> bool {
    y <= 0 || y >= m.height || !(m.cell(x, y - 1) == Some(Direction::Down) || m.cell(x, y)
        == Some(Direction::Up))
}

/// Whether a wall runs along the left of cell (x, y), for columns 0 to
/// `width` (column `width` is the right border): the border always has
/// one; inside, there is none where the cell on the left was left to the
/// right or the cell on the right was left to the left.
pub open spec fn v_wall(m: MazeModel, x: int, y: int) -> bool {
    x <= 0 || x >= m.width || !(m.cell(x - 1, y) == Some(Direction::Right) || m.cell(x, y)
        == Some(Direction::Left))
}

/// Which of the four wall segments meeting at the corner point (x, y)
/// are drawn, as (left, up, right, down).
pub open spec fn vertex_walls(m: MazeModel, x: int, y: int) -> (bool, bool, bool, bool) {
    (
        x > 0 && h_wall(m, x - 1, y),
        y > 0 && v_wall(m, x, y - 1),
        x < m.width && h_wall(m, x, y),
        y < m.height && v_wall(m, x, y),
    )
}

/// The box-drawing character for the segments (left, up, right, down)
/// meeting at a point.
pub open spec fn vertex_char(walls: (bool, bool, bool, bool)) -> char {
    match walls {
        (false, false, false, false) => ' ',
        (false, false, false, true) => '╷',
        (false, false, true, false) => '╶',
        (false, false, true, true) => '┌',
        (false, true, false, false) => '╵',
        (false, true, false, true) => '│',
        (false, true, true, false) => '└',
        (false, true, true, true) => '├',
        (true, false, false, false) => '╴',
        (true, false, false, true) => '┐',
        (true, false, true, false) => '─',
        (true, false, true, true) => '┬',
        (true, true, false, false) => '┘',
        (true, true, false, true) => '┤',
        (true, true, true, false) => '┴',
        (true, true, true, true) => '┼',
    }
}

/// Law: no two of the sixteen segment patterns share a glyph.
pub proof fn lemma_vertex_glyphs_distinct(a: (bool, bool, bool, bool), b: (bool, bool, bool, bool))
    requires
        a != b,
    ensures
        vertex_char(a) != vertex_char(b),
{
}

/// Law: the drawing depends on the grid's state alone, so drawing a grid
/// twice without a step between gives the same text.
pub proof fn lemma_drawing_repeatable(a: &MazeGraph, b: &MazeGraph)
    requires
        a@ == b@,
    ensures
        maze_text(a@) == maze_text(b@),
{
}

/// The character shown inside a cell: a dot for the walker, else an arrow
/// along the heading the cell was left by.
pub open spec fn node_char(d: Option<Direction>) -> char {
    match d {
        None => '·',
        Some(Direction::Left) => '←',
        Some(Direction::Up) => '↑',
        Some(Direction::Right) => '→',
        Some(Direction::Down) => '↓',
    }
}

/// The character drawn where a vertical wall may stand.
pub open spec fn wall_char(wall: bool) -> char {
    if wall {
        '│'
    } else {
        ' '
    }
}

/// The three characters drawn where a horizontal wall may stand.
pub open spec fn segment(wall: bool) -> Seq<char> {
    if wall {
        seq!['─', '─', '─']
    } else {
        seq![' ', ' ', ' ']
    }
}

/// The line of corner points along the top of row `y`, up to point `n`:
/// each point's glyph, with the wall segment between each two.
pub open spec fn vertex_row_prefix(m: MazeModel, y: int, n: nat) -> Seq<char>
    decreases n,
{
    if n == 0 {
        seq![vertex_char(vertex_walls(m, 0, y))]
    } else {
        vertex_row_prefix(m, y, (n - 1) as nat) + segment(h_wall(m, n - 1, y)) + seq![
            vertex_char(vertex_walls(m, n as int, y)),
        ]
    }
}

pub open spec fn vertex_row(m: MazeModel, y: int) -> Seq<char> {
    vertex_row_prefix(m, y, m.width)
}

/// The line through the cells of row `y`, up to wall `n`: each wall
/// character, with the cell's character between each two, spaced by one
/// blank on either side.
pub open spec fn cell_row_prefix(m: MazeModel, y: int, n: nat) -> Seq<char>
    decreases n,
{
    if n == 0 {
        seq![wall_char(v_wall(m, 0, y))]
    } else {
        cell_row_prefix(m, y, (n - 1) as nat) + seq![
            ' ',
            node_char(m.cell(n - 1, y)),
            ' ',
            wall_char(v_wall(m, n as int, y)),
        ]
    }
}

pub open spec fn cell_row(m: MazeModel, y: int) -> Seq<char> {
    cell_row_prefix(m, y, m.width)
}

/// The lines of a drawing, top to bottom: a line of corner points above
/// each row, the row's cells, and the line of corner points below the last.
pub open spec fn maze_lines(m: MazeModel) -> Seq<Seq<char>> {
    Seq::new(
        2 * m.height + 1,
        |i: int|
            if i % 2 == 0 {
                vertex_row(m, i / 2)
            } else {
                cell_row(m, i / 2)
            },
    )
}

/// `s` written `n` times.
pub open spec fn repeated(s: Seq<char>, n: nat) -> Seq<char>
    decreases n,
{
    if n == 0 {
        Seq::empty()
    } else {
        repeated(s, (n - 1) as nat) + s
    }
}

/// The top and bottom border of a grid of `width` columns and no row.
pub open spec fn flat_wall(width: nat) -> Seq<char> {
    joined(Seq::new(width, |i: int| seq!['─', '─', '─']), seq!['─'])
}

/// The drawing of a grid. A grid without columns or without rows is drawn
/// as its bare border.
pub open spec fn maze_text(m: MazeModel) -> Seq<char> {
    if m.width == 0 && m.height == 0 {
        seq!['┌', '┐', '\n', '└', '┘']
    } else if m.height == 0 {
        seq!['┌'] + flat_wall(m.width) + seq!['┐', '\n', '└'] + flat_wall(m.width) + seq!['┘']
    } else if m.width == 0 {
        seq!['┌', '┐', '\n'] + repeated(seq!['│', '│', '\n'], m.height) + seq!['└', '┘']
    } else {
        joined(maze_lines(m), seq!['\n'])
    }
}

/// The glyph for the segments (left, up, right, down) meeting at a point.
pub fn format_vertex(walls: (bool, bool, bool, bool)) -> (r: &'static str)
    ensures
        r@ == seq![vertex_char(walls)],
{
    proof {
        reveal_strlit(" ");
        reveal_strlit("╷");
        reveal_strlit("╶");
        reveal_strlit("┌");
        reveal_strlit("╵");
        reveal_strlit("│");
        reveal_strlit("└");
        reveal_strlit("├");
        reveal_strlit("╴");
        reveal_strlit("┐");
        reveal_strlit("─");
        reveal_strlit("┬");
        reveal_strlit("┘");
        reveal_strlit("┤");
        reveal_strlit("┴");
        reveal_strlit("┼");
    }
    match walls {
        (false, false, false, false) => " ",
        (false, false, false, true) => "╷",
        (false, false, true, false) => "╶",
        (false, false, true, true) => "┌",
        (false, true, false, false) => "╵",
        (false, true, false, true) => "│",
        (false, true, true, false) => "└",
        (false, true, true, true) => "├",
        (true, false, false, false) => "╴",
        (true, false, false, true) => "┐",
        (true, false, true, false) => "─",
        (true, false, true, true) => "┬",
        (true, true, false, false) => "┘",
        (true, true, false, true) => "┤",
        (true, true, true, false) => "┴",
        (true, true, true, true) => "┼",
    }
}

/// The character shown inside the cell `it`.
pub fn format_maze_node(it: MazeNode) -> (r: char)
    ensures
        r == node_char(it@),
{
    match it.direction() {
        None => '·',
        Some(Direction::Left) => '←',
        Some(Direction::Up) => '↑',
        Some(Direction::Right) => '→',
        Some(Direction::Down) => '↓',
    }
}

/// The walls along the tops of the cells, row by row: `height + 1` rows of
/// `width` flags, `r[y][x] == h_wall(it@, x, y)`.
pub fn collect_horizontal_edges(it: &MazeGraph) -> (r: Vec<Vec<bool>>)
    requires
        it@.well_shaped(),
    ensures
        r@.len() == it@.height + 1,
        forall|y: int| 0 <= y <= it@.height ==> (#[trigger] r@[y])@.len() == it@.width,
        forall|x: int, y: int|
            0 <= x < it@.width && 0 <= y <= it@.height ==> #[trigger] r@[y]@[x] == h_wall(it@, x, y),
{
    let width = it.width();
    let height = it.height();
    let mut edges: Vec<Vec<bool>> = Vec::new();
    let mut y: usize = 0;
    while y <= height
        invariant_except_break
            edges@.len() == y,
            forall|j: int| 0 <= j < y ==> (#[trigger] edges@[j])@.len() == width,
            forall|i: int, j: int|
                0 <= i < width && 0 <= j < y ==> #[trigger] edges@[j]@[i] == h_wall(it@, i, j),
        invariant
            it@.well_shaped(),
            width == it@.width,
            height == it@.height,
            y <= height,
        ensures
            edges@.len() == height + 1,
            forall|j: int| 0 <= j <= height ==> (#[trigger] edges@[j])@.len() == width,
            forall|i: int, j: int|
                0 <= i < width && 0 <= j <= height ==> #[trigger] edges@[j]@[i] == h_wall(it@, i, j),
        decreases height + 1 - y,
    {
        let mut row: Vec<bool> = Vec::new();
        let mut x: usize = 0;
        while x < width
            invariant
                it@.well_shaped(),
                width == it@.width,
                height == it@.height,
                y <= height,
                x <= width,
                row@.len() == x,
                forall|i: int| 0 <= i < x ==> #[trigger] row@[i] == h_wall(it@, i, y as int),
            decreases width - x,
        {
            let mut edge = true;
            if 0 < y && y < height {
                let above = it.get(x, y - 1).unwrap();
                let below = it.get(x, y).unwrap();
                if matches!(above.direction(), Some(Direction::Down)) || matches!(
                    below.direction(),
                    Some(Direction::Up)
                ) {
                    edge = false;
                }
            }
            row.push(edge);
            x = x + 1;
        }
        edges.push(row);
        if y == height {
            break;
        }
        y = y + 1;
    }
    edges
}

/// The walls along the left sides of the cells, row by row: `height` rows
/// of `width + 1` flags, `r[y][x] == v_wall(it@, x, y)`.
pub fn collect_vertical_edges(it: &MazeGraph) -> (r: Vec<Vec<bool>>)
    requires
        it@.well_shaped(),
    ensures
        r@.len() == it@.height,
        forall|y: int| 0 <= y < it@.height ==> (#[trigger] r@[y])@.len() == it@.width + 1,
        forall|x: int, y: int|
            0 <= x <= it@.width && 0 <= y < it@.height ==> #[trigger] r@[y]@[x] == v_wall(it@, x, y),
{
    let width = it.width();
    let height = it.height();
    let mut edges: Vec<Vec<bool>> = Vec::new();
    let mut y: usize = 0;
    while y < height
        invariant
            it@.well_shaped(),
            width == it@.width,
            height == it@.height,
            y <= height,
            edges@.len() == y,
            forall|j: int| 0 <= j < y ==> (#[trigger] edges@[j])@.len() == width + 1,
            forall|i: int, j: int|
                0 <= i <= width && 0 <= j < y ==> #[trigger] edges@[j]@[i] == v_wall(it@, i, j),
        decreases height - y,
    {
        let mut row: Vec<bool> = Vec::new();
        let mut x: usize = 0;
        while x <= width
            invariant_except_break
                row@.len() == x,
                forall|i: int| 0 <= i < x ==> #[trigger] row@[i] == v_wall(it@, i, y as int),
            invariant
                it@.well_shaped(),
                width == it@.width,
                height == it@.height,
                y < height,
                x <= width,
            ensures
                row@.len() == width + 1,
                forall|i: int| 0 <= i <= width ==> #[trigger] row@[i] == v_wall(it@, i, y as int),
            decreases width + 1 - x,
        {
            let mut edge = true;
            if 0 < x && x < width {
                let left = it.get(x - 1, y).unwrap();
                let right = it.get(x, y).unwrap();
                if matches!(left.direction(), Some(Direction::Right)) || matches!(
                    right.direction(),
                    Some(Direction::Left)
                ) {
                    edge = false;
                }
            }
            row.push(edge);
            if x == width {
                break;
            }
            x = x + 1;
        }
        edges.push(row);
        y = y + 1;
    }
    edges
}

/// The segments meeting at each corner point, row by row: `height + 1`
/// rows of `width + 1` entries (left, up, right, down), read off the two
/// wall tables.
pub fn collect_vertices(
    width: usize,
    height: usize,
    horizontal_edges: &Vec<Vec<bool>>,
    vertical_edges: &Vec<Vec<bool>>,
) -> (r: Vec<Vec<(bool, bool, bool, bool)>>)
    requires
        horizontal_edges@.len() == height + 1,
        forall|y: int| 0 <= y <= height ==> (#[trigger] horizontal_edges@[y])@.len() == width,
        vertical_edges@.len() == height,
        forall|y: int| 0 <= y < height ==> (#[trigger] vertical_edges@[y])@.len() == width + 1,
    ensures
        r@.len() == height + 1,
        forall|y: int| 0 <= y <= height ==> (#[trigger] r@[y])@.len() == width + 1,
        forall|x: int, y: int|
            0 <= x <= width && 0 <= y <= height ==> #[trigger] r@[y]@[x] == (
                x > 0 && horizontal_edges@[y]@[x - 1],
                y > 0 && vertical_edges@[y - 1]@[x],
                x < width && horizontal_edges@[y]@[x],
                y < height && vertical_edges@[y]@[x],
            ),
{
    let mut vertices: Vec<Vec<(bool, bool, bool, bool)>> = Vec::new();
    let mut y: usize = 0;
    while y <= height
        invariant_except_break
            vertices@.len() == y,
            forall|j: int| 0 <= j < y ==> (#[trigger] vertices@[j])@.len() == width + 1,
            forall|i: int, j: int|
                0 <= i <= width && 0 <= j < y ==> #[trigger] vertices@[j]@[i] == (
                    i > 0 && horizontal_edges@[j]@[i - 1],
                    j > 0 && vertical_edges@[j - 1]@[i],
                    i < width && horizontal_edges@[j]@[i],
                    j < height && vertical_edges@[j]@[i],
                ),
        invariant
            horizontal_edges@.len() == height + 1,
            forall|j: int| 0 <= j <= height ==> (#[trigger] horizontal_edges@[j])@.len() == width,
            vertical_edges@.len() == height,
            forall|j: int| 0 <= j < height ==> (#[trigger] vertical_edges@[j])@.len() == width + 1,
            y <= height,
        ensures
            vertices@.len() == height + 1,
            forall|j: int| 0 <= j <= height ==> (#[trigger] vertices@[j])@.len() == width + 1,
            forall|i: int, j: int|
                0 <= i <= width && 0 <= j <= height ==> #[trigger] vertices@[j]@[i] == (
                    i > 0 && horizontal_edges@[j]@[i - 1],
                    j > 0 && vertical_edges@[j - 1]@[i],
                    i < width && horizontal_edges@[j]@[i],
                    j < height && vertical_edges@[j]@[i],
                ),
        decreases height + 1 - y,
    {
        let mut row: Vec<(bool, bool, bool, bool)> = Vec::new();
        let mut x: usize = 0;
        while x <= width
            invariant_except_break
                row@.len() == x,
                forall|i: int| 0 <= i < x ==> #[trigger] row@[i] == (
                    i > 0 && horizontal_edges@[y as int]@[i - 1],
                    y > 0 && vertical_edges@[y - 1]@[i],
                    i < width && horizontal_edges@[y as int]@[i],
                    y < height && vertical_edges@[y as int]@[i],
                ),
            invariant
                horizontal_edges@.len() == height + 1,
                forall|j: int| 0 <= j <= height ==> (#[trigger] horizontal_edges@[j])@.len() == width,
                vertical_edges@.len() == height,
                forall|j: int| 0 <= j < height ==> (#[trigger] vertical_edges@[j])@.len() == width + 1,
                y <= height,
                x <= width,
            ensures
                row@.len() == width + 1,
                forall|i: int| 0 <= i <= width ==> #[trigger] row@[i] == (
                    i > 0 && horizontal_edges@[y as int]@[i - 1],
                    y > 0 && vertical_edges@[y - 1]@[i],
                    i < width && horizontal_edges@[y as int]@[i],
                    y < height && vertical_edges@[y as int]@[i],
                ),
            decreases width + 1 - x,
        {
            let left = x > 0 && horizontal_edges[y][x - 1];
            let up = y > 0 && vertical_edges[y - 1][x];
            let right = x < width && horizontal_edges[y][x];
            let down = y < height && vertical_edges[y][x];
            row.push((left, up, right, down));
            if x == width {
                break;
            }
            x = x + 1;
        }
        vertices.push(row);
        if y == height {
            break;
        }
        y = y + 1;
    }
    vertices
}

/// The line of corner points along the top of row `y`.
fn format_vertex_row(
    it: &MazeGraph,
    y: usize,
    vertices: &Vec<(bool, bool, bool, bool)>,
    edges: &Vec<bool>,
) -> (r: String)
    requires
        y <= it@.height,
        vertices@.len() == it@.width + 1,
        edges@.len() == it@.width,
        forall|x: int| 0 <= x <= it@.width ==> #[trigger] vertices@[x] == vertex_walls(it@, x, y as int),
        forall|x: int| 0 <= x < it@.width ==> #[trigger] edges@[x] == h_wall(it@, x, y as int),
    ensures
        r@ == vertex_row(it@, y as int),
{
    proof {
        reveal_strlit("───");
        reveal_strlit("   ");
        assert("───"@ =~= segment(true));
        assert("   "@ =~= segment(false));
    }
    let width = it.width();
    let mut line = String::new();
    line.append(format_vertex(vertices[0]));
    let mut x: usize = 0;
    while x < width
        invariant
            width == it@.width,
            x <= width,
            vertices@.len() == width + 1,
            edges@.len() == width,
            forall|i: int| 0 <= i <= width ==> #[trigger] vertices@[i] == vertex_walls(it@, i, y as int),
            forall|i: int| 0 <= i < width ==> #[trigger] edges@[i] == h_wall(it@, i, y as int),
            line@ == vertex_row_prefix(it@, y as int, x as nat),
            "───"@ == segment(true),
            "   "@ == segment(false),
        decreases width - x,
    {
        let ghost before = line@;
        line.append(if edges[x] { "───" } else { "   " });
        line.append(format_vertex(vertices[x + 1]));
        assert(line@ =~= before + segment(h_wall(it@, x as int, y as int)) + seq![
            vertex_char(vertex_walls(it@, x + 1, y as int)),
        ]);
        x = x + 1;
    }
    line
}

/// The line through the cells of row `y`.
fn format_cell_row(it: &MazeGraph, y: usize, edges: &Vec<bool>) -> (r: String)
    requires
        it@.well_shaped(),
        y < it@.height,
        edges@.len() == it@.width + 1,
        forall|x: int| 0 <= x <= it@.width ==> #[trigger] edges@[x] == v_wall(it@, x, y as int),
    ensures
        r@ == cell_row(it@, y as int),
{
    proof {
        reveal_strlit("│");
        reveal_strlit(" ");
        assert("│"@ =~= seq![wall_char(true)]);
        assert(" "@ =~= seq![' ']);
    }
    let width = it.width();
    let mut line = String::new();
    line.append(if edges[0] { "│" } else { " " });
    let mut x: usize = 0;
    while x < width
        invariant
            it@.well_shaped(),
            width == it@.width,
            y < it@.height,
            x <= width,
            edges@.len() == width + 1,
            forall|i: int| 0 <= i <= width ==> #[trigger] edges@[i] == v_wall(it@, i, y as int),
            line@ == cell_row_prefix(it@, y as int, x as nat),
            "│"@ == seq![wall_char(true)],
            " "@ == seq![' '],
        decreases width - x,
    {
        let node = it.get(x, y).unwrap();
        let ghost before = line@;
        line.append(" ");
        push_char(&mut line, format_maze_node(node));
        line.append(" ");
        line.append(if edges[x + 1] { "│" } else { " " });
        assert(line@ =~= before + seq![
            ' ',
            node_char(it@.cell(x as int, y as int)),
            ' ',
            wall_char(v_wall(it@, x + 1, y as int)),
        ]);
        x = x + 1;
    }
    line
}

/// The drawing of the grid `it` (see `maze_text`).
pub fn format_maze(it: &MazeGraph) -> (r: String)
    requires
        it@.well_shaped(),
    ensures
        r@ == maze_text(it@),
{
    proof {
        reveal_strlit("┌┐\n└┘");
        reveal_strlit("┌");
        reveal_strlit("┐\n└");
        reveal_strlit("┘");
        reveal_strlit("───");
        reveal_strlit("─");
        reveal_strlit("┌┐\n");
        reveal_strlit("││\n");
        reveal_strlit("└┘");
        reveal_strlit("\n");
        assert("┌┐\n└┘"@ =~= seq!['┌', '┐', '\n', '└', '┘']);
        assert("┌"@ =~= seq!['┌']);
        assert("┐\n└"@ =~= seq!['┐', '\n', '└']);
        assert("┘"@ =~= seq!['┘']);
        assert("───"@ =~= seq!['─', '─', '─']);
        assert("─"@ =~= seq!['─']);
        assert("┌┐\n"@ =~= seq!['┌', '┐', '\n']);
        assert("││\n"@ =~= seq!['│', '│', '\n']);
        assert("└┘"@ =~= seq!['└', '┘']);
        assert("\n"@ =~= seq!['\n']);
    }
    let width = it.width();
    let height = it.height();
    if width == 0 && height == 0 {
        return String::from_str("┌┐\n└┘");
    }
    if height == 0 {
        let mut pieces: Vec<String> = Vec::new();
        let mut i: usize = 0;
        while i < width
            invariant
                i <= width,
                texts(pieces@) =~= Seq::new(i as nat, |j: int| seq!['─', '─', '─']),
                "───"@ == seq!['─', '─', '─'],
            decreases width - i,
        {
            let ghost before = texts(pieces@);
            pieces.push(String::from_str("───"));
            assert(texts(pieces@) =~= before.push(seq!['─', '─', '─']));
            i = i + 1;
        }
        let wall = join_strings(&pieces, "─");
        assert(wall@ == flat_wall(width as nat));
        let mut text = String::from_str("┌");
        text.append(wall.as_str());
        text.append("┐\n└");
        text.append(wall.as_str());
        text.append("┘");
        return text;
    }
    if width == 0 {
        let mut text = String::from_str("┌┐\n");
        let mut i: usize = 0;
        while i < height
            invariant
                i <= height,
                text@ == seq!['┌', '┐', '\n'] + repeated(seq!['│', '│', '\n'], i as nat),
                "││\n"@ == seq!['│', '│', '\n'],
            decreases height - i,
        {
            let ghost before = text@;
            text.append("││\n");
            assert(text@ =~= before + seq!['│', '│', '\n']);
            i = i + 1;
        }
        text.append("└┘");
        return text;
    }
    let horizontal_edges = collect_horizontal_edges(it);
    let vertical_edges = collect_vertical_edges(it);
    let vertices = collect_vertices(width, height, &horizontal_edges, &vertical_edges);
    let mut lines: Vec<String> = Vec::new();
    let mut y: usize = 0;
    while y < height
        invariant
            it@.well_shaped(),
            width == it@.width,
            height == it@.height,
            y <= height,
            horizontal_edges@.len() == height + 1,
            forall|j: int| 0 <= j <= height ==> (#[trigger] horizontal_edges@[j])@.len() == width,
            forall|i: int, j: int|
                0 <= i < width && 0 <= j <= height ==> #[trigger] horizontal_edges@[j]@[i] == h_wall(it@, i, j),
            vertical_edges@.len() == height,
            forall|j: int| 0 <= j < height ==> (#[trigger] vertical_edges@[j])@.len() == width + 1,
            forall|i: int, j: int|
                0 <= i <= width && 0 <= j < height ==> #[trigger] vertical_edges@[j]@[i] == v_wall(it@, i, j),
            vertices@.len() == height + 1,
            forall|j: int| 0 <= j <= height ==> (#[trigger] vertices@[j])@.len() == width + 1,
            forall|i: int, j: int|
                0 <= i <= width && 0 <= j <= height ==> #[trigger] vertices@[j]@[i] == vertex_walls(it@, i, j),
            texts(lines@) =~= maze_lines(it@).take(2 * y),
        decreases height - y,
    {
        let ghost before = texts(lines@);
        lines.push(format_vertex_row(it, y, &vertices[y], &horizontal_edges[y]));
        lines.push(format_cell_row(it, y, &vertical_edges[y]));
        assert(texts(lines@) =~= before.push(vertex_row(it@, y as int)).push(cell_row(it@, y as int)));
        assert(maze_lines(it@)[2 * y as int] == vertex_row(it@, y as int));
        assert(maze_lines(it@)[2 * y + 1] == cell_row(it@, y as int));
        y = y + 1;
    }
    let ghost before = texts(lines@);
    lines.push(format_vertex_row(it, height, &vertices[height], &horizontal_edges[height]));
    assert(texts(lines@) =~= before.push(vertex_row(it@, height as int)));
    assert(maze_lines(it@)[2 * height as int] == vertex_row(it@, height as int));
    assert(texts(lines@) =~= maze_lines(it@));
    join_strings(&lines, "\n")
}

} // verus!
