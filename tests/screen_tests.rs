use cube::geometry::{Gd, Point};
use cube::layout::{InvertX, InvertXY, InvertY, NoInvert, Rectangular};
use cube::screen::LedControl;

#[test]
fn layout_maps_rows() {
    let l: Rectangular<NoInvert> = Rectangular::new(8, 4);
    assert_eq!(l.map(Point::new(0, 0)), Some(0));
    assert_eq!(l.map(Point::new(3, 2)), Some(19));
    assert_eq!(l.map(Point::new(8, 0)), None);
    assert_eq!(l.map(Point::new(0, -1)), None);
}

#[test]
fn layout_mirrors_axes() {
    let x: Rectangular<InvertX> = Rectangular::new_invert_x(8, 4);
    assert_eq!(x.map(Point::new(0, 0)), Some(7));
    let y: Rectangular<InvertY> = Rectangular::new_invert_y(8, 4);
    assert_eq!(y.map(Point::new(0, 0)), Some(24));
    let xy: Rectangular<InvertXY> = Rectangular::new_invert_xy(8, 4);
    assert_eq!(xy.map(Point::new(0, 0)), Some(31));
    assert_eq!(xy.map(Point::new(7, 3)), Some(0));
    assert_eq!(xy.map(Point::new(-1, 3)), None);
}

#[test]
fn led_buffers() {
    let mut l = LedControl::new();
    l.set_led_work(1, 2, true);
    assert_eq!(l.buf_work[2], 0b0100_0000);
    l.set_led_work(1, 2, false);
    assert_eq!(l.buf_work, [0; 8]);
    l.set_led(7, 0, true);
    assert_eq!(l.buf[0], 1);
    assert_eq!(l.get_led_state_work(0, 0, [0x80, 0, 0, 0, 0, 0, 0, 0]), 1);
    assert_eq!(l.get_led_state_work(1, 0, [0x80, 0, 0, 0, 0, 0, 0, 0]), 0);
    assert_eq!(l.get_led_state_work(9, 0, [0xFF; 8]), 0);
    l.bitmap_work([1, 2, 3, 4, 5, 6, 7, 8]);
    assert_eq!(l.buf_work, [1, 2, 3, 4, 5, 6, 7, 8]);
    l.clear_work();
    l.clear();
    assert_eq!(l.buf, [0; 8]);
}

#[test]
fn bitmap_turns_with_gravity() {
    let pic = [0b1000_0000, 0, 0, 0, 0, 0, 0, 0]; // top-left pixel
    let mut l = LedControl::new();
    l.bitmap(pic);
    assert_eq!(l.buf, pic);
    l.gd = Gd::Up;
    l.bitmap(pic);
    assert_eq!(l.buf, [0, 0, 0, 0, 0, 0, 0, 0b0000_0001]);
    l.gd = Gd::Right;
    l.bitmap(pic);
    assert_eq!(l.buf, [0, 0, 0, 0, 0, 0, 0, 0b1000_0000]);
    l.gd = Gd::Left;
    l.bitmap(pic);
    assert_eq!(l.buf, [0b0000_0001, 0, 0, 0, 0, 0, 0, 0]);
    l.gd = Gd::Flat;
    l.bitmap([0xFF; 8]);
    assert_eq!(l.buf, [0b0000_0001, 0, 0, 0, 0, 0, 0, 0]);
}

#[test]
fn roll_scrolls() {
    let mut l = LedControl::new();
    l.buf = [1, 2, 3, 4, 5, 6, 7, 0x81];
    l.roll(Gd::Up);
    assert_eq!(l.buf, [2, 3, 4, 5, 6, 7, 0x81, 0]);
    l.roll(Gd::Down);
    assert_eq!(l.buf, [0, 2, 3, 4, 5, 6, 7, 0x81]);
    l.roll(Gd::Right);
    assert_eq!(l.buf, [0, 1, 1, 2, 2, 3, 3, 0x40]);
    l.roll(Gd::Left);
    assert_eq!(l.buf, [0, 2, 2, 4, 4, 6, 6, 0x80]);
    l.roll(Gd::Flat);
    assert_eq!(l.buf, [0, 2, 2, 4, 4, 6, 6, 0x80]);
}
