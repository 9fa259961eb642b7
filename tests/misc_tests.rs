use cube::geometry::{Ad, Direction, Gd, Point};
use cube::hourglass::{TimerEvent, Timers};
use cube::menu::{maze_size, Menu, MenuAction};
use cube::rng::CubeRng;
use cube::snake::{Food, Snake, SnakeEvent, SnakeGame, FOOD_COLOR, SNAKE_COLOR};
use cube::ui::Ui;

#[test]
fn menu_wraps_both_ways() {
    let mut m = Menu::new();
    assert_eq!(m.step(Ad::Left), MenuAction::Select(Ui::Sound));
    assert_eq!(m.current, 8);
    assert_eq!(m.step(Ad::Right), MenuAction::Select(Ui::Timer));
    assert_eq!(m.step(Ad::Right), MenuAction::Select(Ui::Dice));
    assert_eq!(m.step(Ad::Front), MenuAction::Enter(Ui::Dice));
    assert_eq!(m.step(Ad::Flat), MenuAction::Show(Ui::Dice));
    assert_eq!(m.step(Ad::Back), MenuAction::Show(Ui::Dice));
    assert_eq!(m.current, 1);
}

#[test]
fn maze_sizes_are_odd() {
    for seed in 0u64..100 {
        let n = maze_size(&mut CubeRng(seed));
        assert!((19..=33).contains(&n));
        assert_eq!(n % 2, 1);
    }
}

#[test]
fn snake_starts_heading_up() {
    let s = Snake::new(Point::new(5, 5));
    assert_eq!(s.direction, Direction::Up);
    assert_eq!(s.body, vec![Point::new(5, 5), Point::new(5, 6)]);
    assert_eq!(s.next_head_pos(), Point::new(5, 4));
    assert!(!s.overlapping());
}

#[test]
fn snake_cannot_reverse() {
    let mut s = Snake::new(Point::new(5, 5));
    s.set_direction(Direction::Down);
    assert_eq!(s.direction, Direction::Up);
    s.set_direction(Direction::Left);
    assert_eq!(s.direction, Direction::Left);
}

#[test]
fn snake_moves_and_grows() {
    let mut s = Snake::new(Point::new(5, 5));
    s.advance();
    assert_eq!(s.body, vec![Point::new(5, 4), Point::new(5, 5)]);
    s.grow(Point::new(5, 3));
    assert_eq!(s.head, Point::new(5, 3));
    assert_eq!(s.body.len(), 3);
}

#[test]
fn food_avoids_the_body() {
    let body: Vec<Point> = (0..8).flat_map(|y| (0..8).map(move |x| Point::new(x, y))).filter(|p| *p != Point::new(6, 7)).collect();
    let f = Food::create_food(8, 8, &body, &mut CubeRng(1)).unwrap();
    assert_eq!(f.pos, Point::new(6, 7));
    assert_eq!(f.color, FOOD_COLOR);
    let full: Vec<Point> = (0..8).flat_map(|y| (0..8).map(move |x| Point::new(x, y))).collect();
    assert!(Food::create_food(8, 8, &full, &mut CubeRng(1)).is_none());
}

#[test]
fn snake_game_eats_moves_and_dies() {
    let mut g = SnakeGame::new(&mut CubeRng(3));
    g.food = Food { pos: Point::new(5, 4), color: FOOD_COLOR };
    assert_eq!(g.tick(Gd::Flat, &mut CubeRng(9)), SnakeEvent::Ate);
    assert_eq!(g.score, 1);
    assert_eq!(g.snake.body.len(), 3);
    assert!(!g.snake.body.contains(&g.food.pos));
    g.food = Food { pos: Point::new(0, 0), color: FOOD_COLOR };
    assert_eq!(g.tick(Gd::Right, &mut CubeRng(9)), SnakeEvent::Moved);
    assert_eq!(g.snake.head, Point::new(6, 4));
    assert_eq!(g.tick(Gd::Flat, &mut CubeRng(9)), SnakeEvent::Moved);
    assert_eq!(g.tick(Gd::Flat, &mut CubeRng(9)), SnakeEvent::Died);
    assert!(g.game_over);
    let f = g.frame();
    assert_eq!(f.len(), g.snake.body.len() + 1);
    assert_eq!(f[0], (g.snake.head, SNAKE_COLOR));
}

#[test]
fn hourglass_runs_out() {
    let mut t = Timers::new();
    assert_eq!(t.pixels.len(), 32);
    assert_eq!(t.pixels[9], Point::new(1, 1));
    assert_eq!(t.last(3), Some(27));
    let mut rng = CubeRng(5);
    let mut drops = 0;
    for _ in 0..1000 {
        match t.step(&mut rng) {
            TimerEvent::Done => break,
            TimerEvent::Drop(from, to) => {
                drops += 1;
                assert_eq!(to, Point::new(from.x, from.y + 4));
                assert!(!t.pixels.iter().any(|p| p.x == from.x && p.y > from.y));
            }
            TimerEvent::Exhausted(c) => assert!(!t.pixels.iter().any(|p| p.x == c)),
        }
    }
    assert_eq!(drops, 32);
    assert!(t.pixels.is_empty());
}
