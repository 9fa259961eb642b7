use cube::maze::{Maze, MazeGenerationError, TILE_FLOOR, TILE_WALL};
use cube::rng::CubeRng;

fn flood_reachable(m: &Maze) -> Vec<Vec<bool>> {
    let mut seen = vec![vec![false; m.width]; m.height];
    let mut stack = vec![(1usize, 1usize)];
    seen[1][1] = true;
    while let Some((x, y)) = stack.pop() {
        let mut next = Vec::new();
        if x > 0 {
            next.push((x - 1, y));
        }
        if y > 0 {
            next.push((x, y - 1));
        }
        if x + 1 < m.width {
            next.push((x + 1, y));
        }
        if y + 1 < m.height {
            next.push((x, y + 1));
        }
        for (nx, ny) in next {
            if m.data[ny][nx] == TILE_FLOOR && !seen[ny][nx] {
                seen[ny][nx] = true;
                stack.push((nx, ny));
            }
        }
    }
    seen
}

#[test]
fn new_rejects_even_or_small_dimensions() {
    assert_eq!(Maze::new(6, 7), Err(MazeGenerationError::InvalidDimensions));
    assert_eq!(Maze::new(7, 4), Err(MazeGenerationError::InvalidDimensions));
    assert_eq!(Maze::new(3, 3), Err(MazeGenerationError::InvalidDimensions));
}

#[test]
fn new_is_all_walls() {
    let m = Maze::new(5, 9).unwrap();
    assert_eq!(m.width, 5);
    assert_eq!(m.height, 9);
    assert_eq!(m.data.len(), 9);
    for row in &m.data {
        assert_eq!(row.len(), 5);
        assert!(row.iter().all(|t| *t == TILE_WALL));
    }
}

#[test]
fn seven_by_seven_maze_from_seed_42() {
    let mut rng = CubeRng(42);
    let m = Maze::new(7, 7).unwrap().generate(&mut rng);
    let expected: Vec<Vec<u8>> = vec![
        vec![1, 1, 1, 1, 1, 1, 1],
        vec![1, 0, 1, 0, 0, 0, 1],
        vec![1, 0, 1, 1, 1, 0, 1],
        vec![1, 0, 0, 0, 0, 0, 1],
        vec![1, 1, 1, 1, 1, 0, 1],
        vec![1, 0, 0, 0, 0, 0, 1],
        vec![1, 1, 1, 1, 1, 1, 1],
    ];
    assert_eq!(m.data, expected);
}

#[test]
fn same_seed_same_maze() {
    for seed in [0u64, 1, 7, 12345, u64::MAX] {
        let a = Maze::new(15, 11).unwrap().generate(&mut CubeRng(seed));
        let b = Maze::new(15, 11).unwrap().generate(&mut CubeRng(seed));
        assert_eq!(a.data, b.data);
    }
}

#[test]
fn every_floor_tile_is_reachable_from_the_start() {
    for seed in 0u64..20 {
        let m = Maze::new(21, 13).unwrap().generate(&mut CubeRng(seed));
        assert_eq!(m.data[1][1], TILE_FLOOR);
        let seen = flood_reachable(&m);
        for y in 0..m.height {
            for x in 0..m.width {
                if m.data[y][x] == TILE_FLOOR {
                    assert!(seen[y][x], "seed {seed}: ({x}, {y}) unreachable");
                }
            }
        }
    }
}

#[test]
fn outer_ring_stays_wall() {
    let m = Maze::new(9, 9).unwrap().generate(&mut CubeRng(3));
    for i in 0..9 {
        assert_eq!(m.data[0][i], TILE_WALL);
        assert_eq!(m.data[8][i], TILE_WALL);
        assert_eq!(m.data[i][0], TILE_WALL);
        assert_eq!(m.data[i][8], TILE_WALL);
    }
}

#[test]
fn generation_shuffles_with_the_generator() {
    let a = Maze::new(21, 21).unwrap().generate(&mut CubeRng(1));
    let b = Maze::new(21, 21).unwrap().generate(&mut CubeRng(2));
    assert_ne!(a.data, b.data);
}

#[test]
fn iter_walks_the_rows() {
    let m = Maze::new(5, 7).unwrap();
    assert_eq!(m.iter().count(), 7);
    assert!(m.iter().all(|row| row.len() == 5));
}

#[test]
fn largest_session_maze_is_connected() {
    let m = Maze::new(33, 33).unwrap().generate(&mut CubeRng(99));
    let seen = flood_reachable(&m);
    let floors = m.data.iter().flatten().filter(|t| **t == TILE_FLOOR).count();
    let reached = seen.iter().flatten().filter(|b| **b).count();
    assert_eq!(floors, reached);
    // every odd cell of a perfect maze is carved
    for y in (1..33).step_by(2) {
        for x in (1..33).step_by(2) {
            assert_eq!(m.data[y][x], TILE_FLOOR);
        }
    }
}
