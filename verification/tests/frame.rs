use blackhole::frame::{push_decimal, Frame};

#[test]
fn new_frame_is_black() {
    let f = Frame::new(2, 3);
    assert_eq!(f.width(), 2);
    assert_eq!(f.height(), 3);
    assert_eq!(f.bytes(), &[0u8; 18][..]);
}

#[test]
fn empty_frame_has_no_bytes() {
    let f = Frame::new(0, 5);
    assert!(f.bytes().is_empty());
}

#[test]
fn pixels_are_row_major_rgb() {
    let mut f = Frame::new(2, 2);
    f.set_rgb(1, 0, (1, 2, 3));
    f.set_rgb(0, 1, (4, 5, 6));
    assert_eq!(f.bytes(), &[0, 0, 0, 1, 2, 3, 4, 5, 6, 0, 0, 0][..]);
    f.set_rgb(1, 1, (7, 8, 9));
    assert_eq!(&f.bytes()[9..12], &[7, 8, 9]);
}

#[test]
fn later_write_wins() {
    let mut f = Frame::new(3, 1);
    f.set_rgb(2, 0, (10, 20, 30));
    f.set_rgb(2, 0, (40, 50, 60));
    assert_eq!(&f.bytes()[6..9], &[40, 50, 60]);
    assert_eq!(&f.bytes()[0..6], &[0; 6]);
}

#[test]
fn writes_to_different_pixels_commute() {
    let mut a = Frame::new(2, 2);
    let mut b = Frame::new(2, 2);
    a.set_rgb(0, 0, (1, 1, 1));
    a.set_rgb(1, 1, (2, 2, 2));
    b.set_rgb(1, 1, (2, 2, 2));
    b.set_rgb(0, 0, (1, 1, 1));
    assert_eq!(a.bytes(), b.bytes());
}

#[test]
fn ppm_encoding() {
    let mut f = Frame::new(3, 2);
    f.set_rgb(0, 0, (255, 0, 128));
    let out = f.encode_ppm();
    let mut want = b"P6\n3 2\n255\n".to_vec();
    want.extend_from_slice(&[255, 0, 128]);
    want.extend_from_slice(&[0; 15]);
    assert_eq!(out, want);
}

#[test]
fn ppm_header_of_reference_render() {
    let f = Frame::new(600, 380);
    let out = f.encode_ppm();
    let header = b"P6\n600 380\n255\n";
    assert_eq!(&out[..header.len()], &header[..]);
    assert_eq!(out.len(), header.len() + 600 * 380 * 3);
}

#[test]
fn decimal_digits() {
    for n in [0usize, 7, 10, 99, 100, 1234567, usize::MAX] {
        let mut out = b"x".to_vec();
        push_decimal(&mut out, n);
        assert_eq!(out, format!("x{}", n).into_bytes());
    }
}
