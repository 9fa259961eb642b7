use cube::geometry::{Ad, Direction, Gd, Point, Position};
use cube::map::MapCell;
use cube::maze_game::{pick_free, Maze};
use cube::movement::{resolve_step, BoundsPolicy, Player, Step, PLAYER_COLOR};
use cube::rng::CubeRng;
use cube::sokoban::{Sokoban, SokobanMap, TargetType, LEVEL};

fn walls(points: &[(i32, i32)]) -> Vec<MapCell<()>> {
    points.iter().map(|&(x, y)| MapCell { pos: Point::new(x, y), color: 0xFFFFFF, tag: () }).collect()
}

fn gd_of(c: char) -> Gd {
    match c {
        'U' => Gd::Up,
        'D' => Gd::Down,
        'L' => Gd::Left,
        'R' => Gd::Right,
        _ => Gd::Flat,
    }
}

#[test]
fn directions() {
    assert_eq!(Direction::Up.opposite(), Direction::Down);
    assert_eq!(Direction::Left.opposite(), Direction::Right);
    assert_eq!(Ad::from(Direction::Up), Ad::Front);
    assert_eq!(Ad::from(Direction::Down), Ad::Back);
    assert_eq!(Ad::Front.planar(), Gd::Up);
    assert_eq!(Ad::Down.planar(), Gd::Flat);
    assert_eq!(Point::from((3, -4)), Point::new(3, -4));
    assert_eq!(Point::new(2, 2).step(Gd::Up), Point::new(2, 1));
    let mut p = Position::new(1, 1);
    p.advance(Direction::Right);
    assert_eq!(p, Position::new(2, 1));
    assert_eq!(p.next(Direction::Up), Position::new(2, 0));
}

#[test]
fn player_moves() {
    let mut p = Player::new(Point::new(3, 3));
    assert_eq!(p.color, PLAYER_COLOR);
    assert_eq!(p.next_pos(Gd::Left), Point::new(2, 3));
    assert!(p.advance(Gd::Down));
    assert_eq!(p.pos, Point::new(3, 4));
    assert!(!p.advance(Gd::Flat));
    assert_eq!(p.pos, Point::new(3, 4));
}

#[test]
fn resolve_step_checks_bounds_before_walls() {
    let w = walls(&[(2, 1), (0, 1)]);
    assert_eq!(resolve_step(Point::new(1, 1), Gd::Right, 5, 5, &w, BoundsPolicy::Block), Step::Blocked);
    assert_eq!(resolve_step(Point::new(1, 1), Gd::Left, 5, 5, &w, BoundsPolicy::EndGame), Step::Ended);
    assert_eq!(resolve_step(Point::new(1, 1), Gd::Left, 5, 5, &w, BoundsPolicy::Block), Step::Blocked);
    assert_eq!(resolve_step(Point::new(1, 1), Gd::Down, 5, 5, &w, BoundsPolicy::Block), Step::Open(Point::new(1, 2)));
    assert_eq!(resolve_step(Point::new(1, 1), Gd::Flat, 5, 5, &w, BoundsPolicy::Block), Step::Idle);
}

#[test]
fn pick_free_avoids_walls_and_the_excluded_cell() {
    let w = walls(&[(1, 1), (2, 1), (1, 2)]);
    let mut rng = CubeRng(4);
    let p = pick_free(&w, 4, 4, Some(Point::new(2, 2)), &mut rng);
    assert_eq!(p, None);
    let p = pick_free(&w, 4, 4, None, &mut rng);
    assert_eq!(p, Some(Point::new(2, 2)));
    let p = pick_free(&w, 5, 4, None, &mut rng).unwrap();
    assert!(p == Point::new(2, 2) || p == Point::new(3, 1) || p == Point::new(3, 2));
}

#[test]
fn maze_session_starts_apart_from_goal() {
    assert!(Maze::new(8, 7, &mut CubeRng(1)).is_none());
    let m = Maze::new(21, 21, &mut CubeRng(5)).unwrap();
    assert!(!m.game_over);
    assert_eq!(m.waiting_time, 300);
    assert_ne!(m.player.pos, m.map.epos);
    assert_eq!(m.map.spos, m.player.pos);
    for p in [m.player.pos, m.map.epos] {
        assert!(!m.map.map.data.iter().any(|c| c.pos == p));
    }
}

#[test]
fn maze_move_into_wall_changes_nothing() {
    let mut m = Maze::new(21, 21, &mut CubeRng(8)).unwrap();
    let before_pos = m.player.pos;
    let before_view = m.vision.pos;
    let before_data = m.vision.data.clone();
    let mut blocked = 0;
    for gd in [Gd::Up, Gd::Right, Gd::Down, Gd::Left] {
        let next = m.player.pos.step(gd);
        if m.map.map.data.iter().any(|c| c.pos == next) {
            assert_eq!(m.tick(gd), Step::Blocked);
            assert_eq!(m.player.pos, before_pos);
            assert_eq!(m.vision.pos, before_view);
            assert_eq!(m.vision.data, before_data);
            assert!(!m.game_over);
            blocked += 1;
        }
    }
    assert!(blocked > 0);
}

#[test]
fn maze_move_onto_floor_moves() {
    let mut m = Maze::new(21, 21, &mut CubeRng(8)).unwrap();
    for gd in [Gd::Up, Gd::Right, Gd::Down, Gd::Left] {
        let next = m.player.pos.step(gd);
        if !m.map.map.data.iter().any(|c| c.pos == next) {
            assert_eq!(m.tick(gd), Step::Open(next));
            assert_eq!(m.player.pos, next);
            return;
        }
    }
    panic!("no open neighbour");
}

#[test]
fn maze_frame_is_display_local() {
    let m = Maze::new(21, 21, &mut CubeRng(2)).unwrap();
    let f = m.frame();
    assert_eq!(f.len(), m.vision.data.len() + 2);
    let last = f[f.len() - 1];
    assert_eq!(last.0, Point::new(m.player.pos.x - m.vision.pos.x, m.player.pos.y - m.vision.pos.y));
    assert_eq!(last.1, m.player.color);
}

#[test]
fn level_parses() {
    let m = SokobanMap::from_xsb(LEVEL);
    assert_eq!(m.map.width, 8);
    assert_eq!(m.map.height, 10);
    assert_eq!(m.player.pos, Point::new(3, 4));
    assert_eq!(m.boxs.len(), 8);
    assert_eq!(m.goals.len(), 8);
    assert!(m.map.data.iter().all(|c| c.tag == TargetType::Wall));
    assert!(m.boxs.iter().any(|b| b.pos == Point::new(2, 2)));
    assert!(m.goals.iter().any(|g| g.pos == Point::new(4, 8)));
    assert!(m.map.data.iter().any(|c| c.pos == Point::new(1, 9)));
    assert!(!m.map.data.iter().any(|c| c.pos == Point::new(0, 9)));
}

#[test]
fn player_on_goal_is_parsed() {
    let m = SokobanMap::from_xsb("  \n#####\n#+$.#\n#####\n");
    assert_eq!(m.player.pos, Point::new(1, 1));
    assert_eq!(m.goals.len(), 2);
    assert_eq!(m.boxs.len(), 1);
    assert_eq!(m.map.width, 5);
    assert_eq!(m.map.height, 3);
}

#[test]
fn unplayable_level_is_refused() {
    assert!(Sokoban::from_level("###\n#@#").is_none());
    assert!(Sokoban::from_level("").is_none());
    assert!(Sokoban::from_level("#####\n#@$$#\n#####").is_some());
}

#[test]
fn sokoban_solution_ends_the_game_on_the_last_push() {
    let mut s = Sokoban::new().unwrap();
    let moves = "DRDRDDLLLUURUUULLUURDLDDRLUURRDRDULULLDRDRDDLDDRRRUURUUUUULLDRRDDLDDDRDL";
    let n = moves.len();
    for (i, c) in moves.chars().enumerate() {
        assert!(!s.game_over, "over before move {i}");
        let r = s.tick(gd_of(c));
        assert!(matches!(r, Step::Open(_)), "move {i} refused");
        if i + 1 < n {
            assert!(!s.game_over, "over after move {i}");
        }
    }
    assert!(s.game_over);
}

#[test]
fn push_into_box_or_wall_moves_nothing() {
    // The player starts boxed in: left of it a box with a box... check each push
    let mut s = Sokoban::from_level("#######\n#-$$@-#\n#-----#\n#######").unwrap();
    let boxes = s.map.boxs.clone();
    assert_eq!(s.tick(Gd::Left), Step::Blocked);
    assert_eq!(s.player.pos, Point::new(4, 1));
    assert_eq!(s.map.boxs, boxes);
    let mut s = Sokoban::from_level("#####\n#$@-#\n#---#\n#####").unwrap();
    let view = s.vision.pos;
    assert_eq!(s.tick(Gd::Left), Step::Blocked);
    assert_eq!(s.player.pos, Point::new(2, 1));
    assert_eq!(s.map.boxs[0].pos, Point::new(1, 1));
    assert_eq!(s.vision.pos, view);
}

#[test]
fn push_onto_floor_moves_both_one_unit() {
    let mut s = Sokoban::from_level("#######\n#-$@--#\n#-----#\n#######").unwrap();
    assert_eq!(s.tick(Gd::Left), Step::Open(Point::new(2, 1)));
    assert_eq!(s.player.pos, Point::new(2, 1));
    assert_eq!(s.map.boxs[0].pos, Point::new(1, 1));
    assert!(!s.game_over);
}

#[test]
fn push_onto_last_goal_ends_game() {
    let mut s = Sokoban::from_level("#######\n#.$@--#\n#-----#\n#######").unwrap();
    assert!(!s.game_over);
    s.tick(Gd::Left);
    assert!(s.game_over);
}

#[test]
fn sokoban_frame_colours() {
    let s = Sokoban::from_level("#######\n#*@.$-#\n#-----#\n#######").unwrap();
    let f = s.frame();
    let n = s.vision.data.len() + s.map.goals.len() + s.map.boxs.len() + 1;
    assert_eq!(f.len(), n);
    assert_eq!(f[n - 1].1, 0xFF0000);
    let boxes = &f[s.vision.data.len() + s.map.goals.len()..n - 1];
    assert_eq!(boxes[0].1, 0x00FFFF);
    assert_eq!(boxes[1].1, 0x0000FF);
}
