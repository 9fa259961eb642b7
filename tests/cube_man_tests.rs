use cube::cube_man::{color_of, ConveyorDir, CubeMan, CubeManGame, Floor, FloorGen, FloorType, ManEvent, CUBE_MAN_COLOR};
use cube::geometry::{Gd, Point};
use cube::rng::CubeRng;

fn floor_on_row(kind: FloorType, y: i32, xs: &[i32]) -> Option<Floor> {
    Some(Floor { kind, data: xs.iter().map(|&x| Point::new(x, y)).collect() })
}

fn game_with(man: Point, slot: usize, floor: Option<Floor>) -> CubeManGame {
    let mut g = CubeManGame::new();
    g.man.pos = man;
    g.floors[slot] = floor;
    g
}

#[test]
fn new_game_is_empty() {
    let g = CubeManGame::new();
    assert_eq!(g.floors.len(), 8);
    assert!(g.floors.iter().all(|f| f.is_none()));
    assert_eq!(g.man.pos, Point::new(0, 0));
    assert_eq!(g.man.color, CUBE_MAN_COLOR);
    assert_eq!(g.waiting_time, 230);
    assert!(!g.game_over);
}

#[test]
fn man_walks_only_sideways() {
    let m = CubeMan::new(Point::new(3, 3));
    assert_eq!(m.next_pos(Gd::Right), Point::new(4, 3));
    assert_eq!(m.next_pos(Gd::Up), Point::new(3, 3));
}

#[test]
fn falls_without_platform() {
    let mut g = game_with(Point::new(3, 2), 0, None);
    assert_eq!(g.resolve_man(Gd::Flat), ManEvent::Fell);
    assert_eq!(g.man.pos, Point::new(3, 3));
}

#[test]
fn rides_normal_platform_up() {
    let mut g = game_with(Point::new(3, 2), 3, floor_on_row(FloorType::Normal, 3, &[1, 2, 3]));
    assert_eq!(g.resolve_man(Gd::Flat), ManEvent::Landed(FloorType::Normal));
    assert_eq!(g.man.pos, Point::new(3, 1));
}

#[test]
fn walking_off_the_platform_end_falls() {
    let mut g = game_with(Point::new(3, 2), 3, floor_on_row(FloorType::Normal, 3, &[1, 2, 3]));
    assert_eq!(g.resolve_man(Gd::Right), ManEvent::Fell);
    assert_eq!(g.man.pos, Point::new(4, 3));
}

#[test]
fn side_wall_blocks() {
    let mut g = game_with(Point::new(7, 2), 0, None);
    assert_eq!(g.resolve_man(Gd::Right), ManEvent::Blocked);
    assert_eq!(g.man.pos, Point::new(7, 2));
}

#[test]
fn leaving_the_bottom_ends() {
    let mut g = game_with(Point::new(2, 8), 0, None);
    assert_eq!(g.resolve_man(Gd::Flat), ManEvent::Ended);
    assert!(g.game_over);
    assert_eq!(g.man.pos, Point::new(2, 8));
}

#[test]
fn conveyor_carries_when_not_walking() {
    let mut g = game_with(Point::new(2, 4), 5, floor_on_row(FloorType::Conveyor(ConveyorDir::Clockwise), 5, &[0, 1, 2, 3]));
    assert_eq!(g.resolve_man(Gd::Flat), ManEvent::Landed(FloorType::Conveyor(ConveyorDir::Clockwise)));
    assert_eq!(g.man.pos, Point::new(3, 3));
    let mut g = game_with(Point::new(0, 4), 5, floor_on_row(FloorType::Conveyor(ConveyorDir::Counterclockwise), 5, &[0, 1, 2]));
    g.resolve_man(Gd::Up);
    assert_eq!(g.man.pos, Point::new(0, 3));
    let mut g = game_with(Point::new(2, 4), 5, floor_on_row(FloorType::Conveyor(ConveyorDir::Counterclockwise), 5, &[0, 1, 2, 3]));
    g.resolve_man(Gd::Right);
    assert_eq!(g.man.pos, Point::new(3, 3));
}

#[test]
fn spring_throws_up() {
    let mut g = game_with(Point::new(1, 6), 7, floor_on_row(FloorType::Spring(2), 7, &[0, 1, 2]));
    assert_eq!(g.resolve_man(Gd::Flat), ManEvent::Landed(FloorType::Spring(2)));
    assert_eq!(g.man.pos, Point::new(1, 3));
}

#[test]
fn fragile_platform_breaks() {
    let mut g = game_with(Point::new(1, 3), 4, floor_on_row(FloorType::Fragile(500), 4, &[0, 1, 2]));
    assert_eq!(g.resolve_man(Gd::Flat), ManEvent::Landed(FloorType::Fragile(500)));
    assert_eq!(g.man.pos, Point::new(1, 2));
    assert!(g.floors[4].is_none());
}

#[test]
fn tick_scrolls_platforms_up() {
    let mut g = game_with(Point::new(6, 0), 5, floor_on_row(FloorType::Normal, 5, &[0, 1, 2]));
    let mut rng = CubeRng(1);
    g.tick(Gd::Flat, &mut rng);
    assert_eq!(g.depth, 1);
    let f = g.floors[4].as_ref().unwrap();
    assert!(f.data.iter().all(|p| p.y == 4));
    assert!(g.floors[5].is_none());
    assert_eq!(g.floors.len(), 8);
    for (i, slot) in g.floors.iter().enumerate() {
        if let Some(f) = slot {
            assert!(f.data.iter().all(|p| p.y == i as i32));
        }
    }
}

#[test]
fn generated_platforms() {
    let mut seen_some = false;
    let mut seen_none = false;
    for seed in 0u64..60 {
        let mut rng = CubeRng(seed);
        match FloorGen::floor(200, 8, &mut rng) {
            Some(f) => {
                seen_some = true;
                assert_eq!(f.kind, FloorType::Conveyor(ConveyorDir::Clockwise));
                assert!((3..=5).contains(&f.data.len()));
                for (i, p) in f.data.iter().enumerate() {
                    assert_eq!(*p, Point::new(i as i32, 8));
                }
            }
            None => seen_none = true,
        }
    }
    assert!(seen_some && seen_none);
    let mut rng = CubeRng(3);
    if let Some(f) = FloorGen::floor(2, 8, &mut rng) {
        assert_eq!(f.kind, FloorType::Normal);
    }
}

#[test]
fn platform_colours() {
    assert_eq!(color_of(FloorType::Normal), 0xFFFFFF);
    assert_eq!(color_of(FloorType::Fragile(1)), 0xFF0000);
    assert_eq!(color_of(FloorType::Spring(1)), 0xFFFF00);
}

#[test]
fn frame_ends_with_the_man() {
    let g = game_with(Point::new(1, 3), 4, floor_on_row(FloorType::Normal, 4, &[0, 1, 2]));
    let f = g.frame();
    assert_eq!(f.len(), 4);
    assert_eq!(f[3], (Point::new(1, 3), CUBE_MAN_COLOR));
    assert_eq!(f[0], (Point::new(0, 4), 0xFFFFFF));
}
