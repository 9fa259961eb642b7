use cube::geometry::{Gd, Point};
use cube::map::{MapCell, TileMap, Vision};

fn grid_map(w: usize, h: usize) -> TileMap<()> {
    let mut m = TileMap::new(w, h);
    for y in 0..h as i32 {
        for x in 0..w as i32 {
            if (x + y) % 3 == 0 {
                m.data.push(MapCell { pos: Point::new(x, y), color: 0xFFFFFF, tag: () });
            }
        }
    }
    m
}

#[test]
fn viewport_clamps_at_map_corners() {
    let v: Vision<8, 8, ()> = Vision::new(20, 20, Point::new(1, 1));
    assert_eq!(v.pos, Point::new(0, 0));
    let v: Vision<8, 8, ()> = Vision::new(20, 20, Point::new(18, 18));
    assert_eq!(v.pos, Point::new(12, 12));
}

#[test]
fn viewport_centres_three_in() {
    let v: Vision<8, 8, ()> = Vision::new(20, 20, Point::new(9, 6));
    assert_eq!(v.pos, Point::new(6, 3));
}

#[test]
fn viewport_pins_narrow_map_to_origin() {
    let v: Vision<8, 8, ()> = Vision::new(5, 30, Point::new(4, 20));
    assert_eq!(v.pos, Point::new(0, 17));
}

#[test]
fn next_pos_does_not_move() {
    let v: Vision<8, 8, ()> = Vision::new(20, 20, Point::new(9, 9));
    assert_eq!(v.next_pos(Gd::Left), Point::new(5, 6));
    assert_eq!(v.next_pos(Gd::Down), Point::new(6, 7));
    assert_eq!(v.pos, Point::new(6, 6));
}

#[test]
fn update_data_filters_the_window() {
    let map = grid_map(20, 20);
    let mut v: Vision<8, 8, ()> = Vision::new(20, 20, Point::new(9, 9));
    v.update_data(&map);
    let expected: Vec<MapCell<()>> = map
        .data
        .iter()
        .filter(|c| c.pos.x >= 6 && c.pos.x < 14 && c.pos.y >= 6 && c.pos.y < 14)
        .cloned()
        .collect();
    assert_eq!(v.data, expected);
}

#[test]
fn update_moves_and_refreshes() {
    let map = grid_map(20, 20);
    let mut v: Vision<8, 8, ()> = Vision::new(20, 20, Point::new(9, 9));
    v.update_data(&map);
    v.update(Gd::Right, &map);
    assert_eq!(v.pos, Point::new(7, 6));
    assert!(v.data.iter().all(|c| c.pos.x >= 7 && c.pos.x < 15 && c.pos.y >= 6 && c.pos.y < 14));
    assert_eq!(v.data.len(), map.data.iter().filter(|c| c.pos.x >= 7 && c.pos.x < 15 && c.pos.y >= 6 && c.pos.y < 14).count());
}

#[test]
fn update_refuses_to_leave_the_map() {
    let map = grid_map(20, 20);
    let mut v: Vision<8, 8, ()> = Vision::new(20, 20, Point::new(1, 1));
    v.update_data(&map);
    let before = v.data.clone();
    v.update(Gd::Left, &map);
    assert_eq!(v.pos, Point::new(0, 0));
    v.update(Gd::Up, &map);
    assert_eq!(v.pos, Point::new(0, 0));
    assert_eq!(v.data, before);
    let mut v: Vision<8, 8, ()> = Vision::new(20, 20, Point::new(18, 18));
    v.update(Gd::Right, &map);
    v.update(Gd::Down, &map);
    assert_eq!(v.pos, Point::new(12, 12));
}

#[test]
fn viewport_stays_inside_over_many_moves() {
    let map = grid_map(13, 10);
    let mut v: Vision<8, 8, ()> = Vision::new(13, 10, Point::new(6, 5));
    let moves = [Gd::Right, Gd::Right, Gd::Down, Gd::Down, Gd::Down, Gd::Left, Gd::Up, Gd::Right, Gd::Right, Gd::Right, Gd::Right, Gd::Down];
    for (i, m) in moves.iter().cycle().take(60).enumerate() {
        v.update(*m, &map);
        assert!(v.pos.x >= 0 && v.pos.x <= 5, "step {i}");
        assert!(v.pos.y >= 0 && v.pos.y <= 2, "step {i}");
        assert!(v.data.iter().all(|c| c.pos.x >= 0 && c.pos.x < 13 && c.pos.y >= 0 && c.pos.y < 10));
    }
}

#[test]
fn advance_moves_without_checks() {
    let mut v: Vision<8, 8, ()> = Vision::new(20, 20, Point::new(1, 1));
    v.advance(Gd::Left);
    assert_eq!(v.pos, Point::new(-1, 0));
}

#[test]
fn map_new_is_empty() {
    let m: TileMap<u8> = TileMap::new(4, 6);
    assert_eq!(m.width, 4);
    assert_eq!(m.height, 6);
    assert!(m.data.is_empty());
}
