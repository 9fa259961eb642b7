use cube::bagua::{BaGua, Dice};
use cube::face::Face;
use cube::rng::CubeRng;
use cube::ui::Ui;

#[test]
fn set_and_clear_pixels() {
    let mut f = Face::new();
    assert_eq!(f.data, [0; 8]);
    f.set_work(0, 0);
    f.set_work(7, 7);
    f.set_work(8, 1);
    assert_eq!(f.data, [0x80, 0, 0, 0, 0, 0, 0, 0x01]);
    f.clear_work(0, 0);
    f.clear_work(0, 0);
    assert_eq!(f.data, [0, 0, 0, 0, 0, 0, 0, 0x01]);
}

#[test]
fn work_uses_bottom_left_origin() {
    let mut f = Face::new();
    f.work(1, 0, 1);
    assert_eq!(f.data[7], 0b0100_0000);
    f.work(1, 0, 0);
    assert_eq!(f.data[7], 0);
    f.work(1, 0, 2);
    f.work(1, 9, 1);
    assert_eq!(f.data, [0; 8]);
}

#[test]
fn close_eyes_bytes() {
    let mut f = Face::new();
    f.close_eyes();
    assert_eq!(f.data, [0, 0, 0, 0b1110_0111, 0, 0, 0, 0]);
}

#[test]
fn expressions() {
    let mut f = Face::new();
    f.laugh_eyes();
    f.laugh_mouth();
    assert_eq!(f.data, [0, 0, 0b0100_0010, 0b1010_0101, 0, 0b0010_0100, 0b0001_1000, 0]);
    f.clear();
    f.angry_eyes();
    f.angry_mouth();
    assert_eq!(f.data, [0, 0b0100_0010, 0b0010_0100, 0b0101_1010, 0, 0b0001_1000, 0b0010_0100, 0]);
    f.clear();
    f.slightly_closed_eyes();
    f.powerless_mouth();
    assert_eq!(f.data, [0, 0, 0, 0b1110_0111, 0b0100_0010, 0, 0b0011_1100, 0]);
    f.clear();
    f.terrify_mouth();
    assert_eq!(f.data, [0, 0, 0, 0, 0b0001_1000, 0b0010_0100, 0b0010_0100, 0b0001_1000]);
}

#[test]
fn faces_start_from_blank() {
    let mut f = Face::new();
    f.set_work(0, 0);
    f.slack_face(1, 4);
    assert_eq!(f.data, [0, 0, 0b0110_0110, 0b0110_0110, 0, 0b0001_1000, 0, 0]);
    f.pout_face(1, 4);
    assert_eq!(f.data, [0, 0, 0b0110_0110, 0b0110_0110, 0, 0b0001_1000, 0b0001_1000, 0]);
    f.rouse_face();
    assert_eq!(f.data, [0, 0, 0b0110_0110, 0b0110_0110, 0, 0b0001_1000, 0, 0]);
}

#[test]
fn menu_icons() {
    let uis = Ui::uis();
    assert_eq!(uis.len(), 9);
    assert_eq!(uis[0], Ui::Timer);
    assert_eq!(uis[8], Ui::Sound);
    assert_eq!(Ui::Maze.ui(), [0b00000000, 0b01010110, 0b01011010, 0b01000010, 0b00111010, 0b00100010, 0b01101110, 0b00000000]);
    assert_eq!(Ui::Sokoban.ui()[0], 0b01100110);
}

#[test]
fn trigrams() {
    assert_eq!(BaGua::bagua(1), [0xFF, 0xFF, 0, 0xFF, 0xFF, 0, 0xFF, 0xFF]);
    assert_eq!(BaGua::bagua(3), [0xE7, 0xE7, 0, 0xE7, 0xE7, 0, 0xFF, 0xFF]);
    assert_eq!(BaGua::bagua(6), [0xE7, 0xE7, 0, 0xFF, 0xFF, 0, 0xE7, 0xE7]);
    assert_eq!(BaGua::bagua(0), [0; 8]);
    assert_eq!(BaGua::bagua(9), [0; 8]);
    let mut rng = CubeRng(0);
    // state 0 draws 1: 1 + 1 % 8 == 2
    assert_eq!(BaGua::random(&mut rng), BaGua::bagua(2));
}

#[test]
fn dice_faces() {
    assert_eq!(Dice::dice(4), [0xE7, 0xE7, 0xE7, 0, 0, 0xE7, 0xE7, 0xE7]);
    assert_eq!(Dice::dice(7), [0; 8]);
    for seed in 0u64..30 {
        let face = Dice::random(&mut CubeRng(seed));
        assert!((1u8..=6).any(|n| Dice::dice(n) == face));
    }
}

#[test]
fn animations() {
    let mut f = Face::new();
    let mut out = Vec::new();
    f.blink_animate(1, 4, &mut out);
    assert_eq!(out.len(), 2);
    assert_eq!(out[0].rows, [0, 0, 0, 0b1110_0111, 0, 0b0010_0100, 0b0001_1000, 0]);
    assert_eq!((out[0].wait_ms, out[0].tone_hz), (80, 0));
    assert_eq!((out[1].wait_ms, out[1].tone_hz), (500, 6000));
    let w = f.wakeup_animate();
    assert_eq!(w.len(), 4);
    assert_eq!(w[1].rows, [0, 0, 0b0110_0110, 0b0110_0110, 0, 0b0001_1000, 0, 0]);
    let b = f.break_record_animate();
    assert_eq!(b.len(), 8);
    assert_eq!(b[7].wait_ms, 1000);
    let d = f.dormancy_animate(&mut CubeRng(4));
    assert_eq!(d.len(), 44);
    assert_eq!(d[1].rows, [0, 0, 0b1100_1100, 0b1100_1100, 0, 0b0001_1000, 0, 0]);
    for k in 0..6 {
        assert!((3000..=9000).contains(&d[24 + 2 * k].tone_hz));
        assert_eq!(d[25 + 2 * k].wait_ms, 200);
    }
    assert_eq!(d[43].tone_hz, 6000);
}
