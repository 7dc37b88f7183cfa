use yamengine::misc::color::Rgba;

#[test]
fn check_repr() {
    let size = std::mem::size_of::<Rgba>();
    let align = std::mem::align_of::<Rgba>();

    assert_eq!(size, 4);
    assert_eq!(align, 1);
}

#[test]
fn hex_is_big_endian_rgba() {
    assert_eq!(Rgba::new(0x12, 0x34, 0x56, 0x78).to_hex(), 0x1234_5678);
    assert_eq!(Rgba::from_hex(0xff00_80c0), Rgba::new(0xff, 0x00, 0x80, 0xc0));
    assert_eq!(Rgba::default().to_hex(), 0);
}

#[test]
fn hex_round_trips() {
    let words = [0u32, 1, 0xff, 0x100, 0xdead_beef, 0x8000_0000, u32::MAX, 0x0102_0304];
    for &w in words.iter() {
        assert_eq!(Rgba::from_hex(w).to_hex(), w);
    }
    for r in (0u8..=255).step_by(51) {
        for a in (0u8..=255).step_by(17) {
            let c = Rgba::new(r, 255 - r, a, 255 - a);
            assert_eq!(Rgba::from_hex(c.to_hex()), c);
        }
    }
}
