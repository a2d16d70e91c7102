use maze_walk::direction::Direction;
use maze_walk::graph::{gen_bounded_direction, MazeGraph};
use maze_walk::node::MazeNode;
use maze_walk::render::{format_maze, format_maze_node, format_vertex};

fn walker_cells(g: &MazeGraph) -> Vec<(usize, usize)> {
    let mut found = Vec::new();
    for y in 0..g.height() {
        for x in 0..g.width() {
            if g.get(x, y).unwrap().direction().is_none() {
                found.push((x, y));
            }
        }
    }
    found
}

#[test]
fn from_ordinal_maps_each_ordinal() {
    assert_eq!(Direction::from_ordinal(0), Ok(Direction::Left));
    assert_eq!(Direction::from_ordinal(1), Ok(Direction::Up));
    assert_eq!(Direction::from_ordinal(2), Ok(Direction::Right));
    assert_eq!(Direction::from_ordinal(3), Ok(Direction::Down));
    assert_eq!(Direction::from_ordinal(4), Err(4));
    assert_eq!(Direction::from_ordinal(usize::MAX), Err(usize::MAX));
}

#[test]
fn node_constructors_and_accessors() {
    assert_eq!(MazeNode::new_origin().direction(), None);
    assert_eq!(MazeNode::new_towards(Direction::Down).direction(), Some(Direction::Down));
    assert_eq!(MazeNode::new(Some(Direction::Up)).direction(), Some(Direction::Up));
    assert_eq!(MazeNode::from(Direction::Right), MazeNode::new_towards(Direction::Right));
    assert_eq!(MazeNode::from(None), MazeNode::new_origin());
    let mut node = MazeNode::new_origin();
    *node.direction_mut() = Some(Direction::Left);
    assert_eq!(node.direction(), Some(Direction::Left));
    assert_eq!(node.direction_mut().take(), Some(Direction::Left));
    assert_eq!(node.direction(), None);
}

#[test]
fn node_glyphs() {
    assert_eq!(format_maze_node(MazeNode::new_origin()), '·');
    assert_eq!(format_maze_node(MazeNode::new_towards(Direction::Left)), '←');
    assert_eq!(format_maze_node(MazeNode::new_towards(Direction::Up)), '↑');
    assert_eq!(format_maze_node(MazeNode::new_towards(Direction::Right)), '→');
    assert_eq!(format_maze_node(MazeNode::new_towards(Direction::Down)), '↓');
}

#[test]
fn vertex_glyph_table_is_complete() {
    let expected = [
        ((false, false, false, false), " "),
        ((false, false, false, true), "╷"),
        ((false, false, true, false), "╶"),
        ((false, false, true, true), "┌"),
        ((false, true, false, false), "╵"),
        ((false, true, false, true), "│"),
        ((false, true, true, false), "└"),
        ((false, true, true, true), "├"),
        ((true, false, false, false), "╴"),
        ((true, false, false, true), "┐"),
        ((true, false, true, false), "─"),
        ((true, false, true, true), "┬"),
        ((true, true, false, false), "┘"),
        ((true, true, false, true), "┤"),
        ((true, true, true, false), "┴"),
        ((true, true, true, true), "┼"),
    ];
    let mut seen = Vec::new();
    for (walls, glyph) in expected {
        assert_eq!(format_vertex(walls), glyph);
        assert!(!seen.contains(&glyph));
        seen.push(glyph);
    }
    assert_eq!(seen.len(), 16);
}

#[test]
fn initial_grid_layout() {
    let g = MazeGraph::new(4, 3);
    assert_eq!(g.origin(), (0, 0));
    assert_eq!(g.get(0, 0).unwrap().direction(), None);
    assert_eq!(g.get(0, 2).unwrap().direction(), Some(Direction::Up));
    assert_eq!(g.get(3, 0).unwrap().direction(), Some(Direction::Left));
    assert_eq!(g.get(2, 1).unwrap().direction(), Some(Direction::Left));
    assert!(g.get(4, 0).is_none());
    assert!(g.get(0, 3).is_none());
    assert_eq!(walker_cells(&g), vec![(0, 0)]);
}

#[test]
fn default_five_by_five_drawing() {
    let g = MazeGraph::new(5, 5);
    let expected = "┌───────────────────┐\n│ ·   ←   ←   ←   ← │\n│   ╶───────────────┤\n│ ↑   ←   ←   ←   ← │\n│   ╶───────────────┤\n│ ↑   ←   ←   ←   ← │\n│   ╶───────────────┤\n│ ↑   ←   ←   ←   ← │\n│   ╶───────────────┤\n│ ↑   ←   ←   ←   ← │\n└───────────────────┘";
    assert_eq!(format_maze(&g), expected);
}

#[test]
fn small_drawings() {
    assert_eq!(format_maze(&MazeGraph::new(1, 1)), "┌───┐\n│ · │\n└───┘");
    assert_eq!(
        format_maze(&MazeGraph::new(2, 2)),
        "┌───────┐\n│ ·   ← │\n│   ╶───┤\n│ ↑   ← │\n└───────┘"
    );
}

#[test]
fn degenerate_drawings() {
    assert_eq!(format_maze(&MazeGraph::new(0, 0)), "┌┐\n└┘");
    assert_eq!(format_maze(&MazeGraph::new(3, 0)), "┌───────────┐\n└───────────┘");
    assert_eq!(format_maze(&MazeGraph::new(1, 0)), "┌───┐\n└───┘");
    assert_eq!(format_maze(&MazeGraph::new(0, 2)), "┌┐\n││\n││\n└┘");
}

#[test]
fn drawing_twice_gives_same_text() {
    let mut g = MazeGraph::new(4, 4);
    let mut rng = rand::thread_rng();
    for _ in 0..20 {
        g.move_origin(&mut rng);
    }
    assert_eq!(format_maze(&g), format_maze(&g));
}

#[test]
fn step_with_draw_zero_from_top_left() {
    let mut g = MazeGraph::new(3, 2);
    assert!(g.move_origin_with(0));
    assert_eq!(g.origin(), (1, 0));
    assert_eq!(g.get(0, 0).unwrap().direction(), Some(Direction::Right));
    assert_eq!(g.get(1, 0).unwrap().direction(), None);
    assert_eq!(
        format_maze(&g),
        "┌───────────┐\n│ →   ·   ← │\n│   ╶───────┤\n│ ↑   ←   ← │\n└───────────┘"
    );
}

#[test]
fn step_with_draw_eleven_from_top_left() {
    let mut g = MazeGraph::new(3, 2);
    assert!(g.move_origin_with(11));
    assert_eq!(g.origin(), (0, 1));
    assert_eq!(g.get(0, 0).unwrap().direction(), Some(Direction::Down));
    assert_eq!(walker_cells(&g), vec![(0, 1)]);
}

#[test]
fn narrow_grid_has_no_move() {
    let mut rng = rand::thread_rng();
    for (w, h) in [(1, 5), (5, 1), (1, 1), (0, 0), (0, 3)] {
        let mut g = MazeGraph::new(w, h);
        let before = format_maze(&g);
        assert!(!g.move_origin(&mut rng));
        assert!(!g.move_origin_with(3));
        assert_eq!(format_maze(&g), before);
        assert_eq!(g.origin(), (0, 0));
    }
}

#[test]
fn sampler_by_position() {
    // corners
    assert_eq!(gen_bounded_direction(5, 4, 0, 0, 5), Direction::Right);
    assert_eq!(gen_bounded_direction(5, 4, 0, 0, 6), Direction::Down);
    assert_eq!(gen_bounded_direction(5, 4, 4, 0, 0), Direction::Left);
    assert_eq!(gen_bounded_direction(5, 4, 4, 0, 11), Direction::Down);
    assert_eq!(gen_bounded_direction(5, 4, 4, 3, 2), Direction::Left);
    assert_eq!(gen_bounded_direction(5, 4, 4, 3, 7), Direction::Up);
    assert_eq!(gen_bounded_direction(5, 4, 0, 3, 1), Direction::Up);
    assert_eq!(gen_bounded_direction(5, 4, 0, 3, 9), Direction::Right);
    // edges
    assert_eq!(gen_bounded_direction(5, 4, 0, 1, 3), Direction::Up);
    assert_eq!(gen_bounded_direction(5, 4, 0, 1, 4), Direction::Right);
    assert_eq!(gen_bounded_direction(5, 4, 0, 1, 8), Direction::Down);
    assert_eq!(gen_bounded_direction(5, 4, 2, 0, 0), Direction::Left);
    assert_eq!(gen_bounded_direction(5, 4, 2, 0, 7), Direction::Right);
    assert_eq!(gen_bounded_direction(5, 4, 2, 0, 8), Direction::Down);
    assert_eq!(gen_bounded_direction(5, 4, 4, 2, 3), Direction::Left);
    assert_eq!(gen_bounded_direction(5, 4, 4, 2, 4), Direction::Up);
    assert_eq!(gen_bounded_direction(5, 4, 4, 2, 11), Direction::Down);
    assert_eq!(gen_bounded_direction(5, 4, 1, 3, 0), Direction::Left);
    assert_eq!(gen_bounded_direction(5, 4, 1, 3, 5), Direction::Up);
    assert_eq!(gen_bounded_direction(5, 4, 1, 3, 10), Direction::Right);
    // inside
    assert_eq!(gen_bounded_direction(5, 4, 2, 2, 2), Direction::Left);
    assert_eq!(gen_bounded_direction(5, 4, 2, 2, 3), Direction::Up);
    assert_eq!(gen_bounded_direction(5, 4, 2, 2, 8), Direction::Right);
    assert_eq!(gen_bounded_direction(5, 4, 2, 2, 9), Direction::Down);
}

fn offset(d: Direction, x: usize, y: usize) -> (i64, i64) {
    let (x, y) = (x as i64, y as i64);
    match d {
        Direction::Left => (x - 1, y),
        Direction::Up => (x, y - 1),
        Direction::Right => (x + 1, y),
        Direction::Down => (x, y + 1),
    }
}

#[test]
fn sampler_stays_on_grid_and_shares_draws_evenly() {
    let (w, h) = (4usize, 3usize);
    for y in 0..h {
        for x in 0..w {
            let mut counts = [0usize; 4];
            for seed in 0..12u8 {
                let d = gen_bounded_direction(w, h, x, y, seed);
                let (nx, ny) = offset(d, x, y);
                assert!(nx >= 0 && (nx as usize) < w && ny >= 0 && (ny as usize) < h);
                let k = match d {
                    Direction::Left => 0,
                    Direction::Up => 1,
                    Direction::Right => 2,
                    Direction::Down => 3,
                };
                counts[k] += 1;
            }
            let legal = [x > 0, y > 0, x + 1 < w, y + 1 < h];
            let n_legal = legal.iter().filter(|b| **b).count();
            for k in 0..4 {
                if legal[k] {
                    assert_eq!(counts[k] * n_legal, 12);
                } else {
                    assert_eq!(counts[k], 0);
                }
            }
        }
    }
}

#[test]
fn first_step_from_corner_is_even() {
    let mut rng = rand::thread_rng();
    let mut right = 0;
    let trials = 4000;
    for _ in 0..trials {
        let mut g = MazeGraph::new(3, 3);
        assert!(g.move_origin(&mut rng));
        match g.origin() {
            (1, 0) => right += 1,
            (0, 1) => {}
            other => panic!("unexpected origin {:?}", other),
        }
    }
    assert!(right > trials * 4 / 10 && right < trials * 6 / 10);
}

#[test]
fn walk_keeps_one_walker_cell() {
    let mut rng = rand::thread_rng();
    for (w, h) in [(2, 2), (5, 5), (7, 3)] {
        let mut g = MazeGraph::new(w, h);
        for _ in 0..(w * h * 10) {
            assert!(g.move_origin(&mut rng));
            let (x, y) = g.origin();
            assert!(x < w && y < h);
            assert_eq!(walker_cells(&g), vec![(x, y)]);
        }
    }
}

#[test]
fn step_from_edge_is_even() {
    let mut rng = rand::thread_rng();
    let mut counts = [0usize; 3];
    let trials = 6000;
    for _ in 0..trials {
        let mut g = MazeGraph::new(3, 3);
        assert!(g.move_origin_with(11));
        assert_eq!(g.origin(), (0, 1));
        assert!(g.move_origin(&mut rng));
        match g.origin() {
            (0, 0) => counts[0] += 1,
            (1, 1) => counts[1] += 1,
            (0, 2) => counts[2] += 1,
            other => panic!("unexpected origin {:?}", other),
        }
    }
    for c in counts {
        assert!(c > trials * 28 / 100 && c < trials * 38 / 100);
    }
}

#[test]
fn step_from_inside_is_even() {
    let mut rng = rand::thread_rng();
    let mut counts = [0usize; 4];
    let trials = 8000;
    for _ in 0..trials {
        let mut g = MazeGraph::new(3, 3);
        assert!(g.move_origin_with(11));
        assert!(g.move_origin_with(4));
        assert_eq!(g.origin(), (1, 1));
        assert!(g.move_origin(&mut rng));
        match g.origin() {
            (0, 1) => counts[0] += 1,
            (1, 0) => counts[1] += 1,
            (2, 1) => counts[2] += 1,
            (1, 2) => counts[3] += 1,
            other => panic!("unexpected origin {:?}", other),
        }
    }
    for c in counts {
        assert!(c > trials * 20 / 100 && c < trials * 30 / 100);
    }
}
