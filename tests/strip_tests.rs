use cube::ws2812::{StripError, Ws2812};

#[test]
fn byte_becomes_four_patterns() {
    let mut w = Ws2812::new((), vec![0u8; 8]);
    let r: Result<(), StripError<()>> = w.write_byte(0b00_01_10_11);
    assert!(r.is_ok());
    assert_eq!(w.index, 4);
    assert_eq!(&w.data[..4], &[0b1000_1000, 0b1000_1110, 0b1110_1000, 0b1110_1110]);
    assert_eq!(w.rendered(), &[0b1000_1000, 0b1000_1110, 0b1110_1000, 0b1110_1110]);
}

#[test]
fn full_buffer_is_refused() {
    let mut w = Ws2812::new((), vec![0u8; 6]);
    let r: Result<(), StripError<()>> = w.write_byte(0xFF);
    assert!(r.is_ok());
    let r: Result<(), StripError<()>> = w.write_byte(0xFF);
    assert!(matches!(r, Err(StripError::OutOfBounds)));
    assert_eq!(w.index, 4);
    assert_eq!(&w.data[4..], &[0, 0]);
}

#[test]
fn rgb_is_sent_green_first() {
    let mut w = Ws2812::new((), vec![0u8; 24]);
    let r: Result<(), StripError<()>> = w.write_rgb(&[(0xFF, 0x00, 0x55)]);
    assert!(r.is_ok());
    assert_eq!(w.index, 12);
    assert_eq!(&w.data[..4], &[0b1000_1000; 4]);
    assert_eq!(&w.data[4..8], &[0b1110_1110; 4]);
    assert_eq!(&w.data[8..12], &[0b1000_1110; 4]);
    let r: Result<(), StripError<()>> = w.write_rgb(&[(1, 2, 3), (4, 5, 6), (7, 8, 9)]);
    assert!(matches!(r, Err(StripError::OutOfBounds)));
}

#[test]
fn rgbw_uses_sixteen_bytes() {
    let mut w = Ws2812::new_sk6812w((), vec![0u8; 32]);
    let r: Result<(), StripError<()>> = w.write_rgbw(&[(0, 0, 0, 0xFF), (0, 0, 0, 0)]);
    assert!(r.is_ok());
    assert_eq!(w.index, 32);
    assert_eq!(&w.data[12..16], &[0b1110_1110; 4]);
    assert_eq!(&w.data[16..32], &[0b1000_1000; 16]);
}
