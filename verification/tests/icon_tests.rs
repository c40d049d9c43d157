use hdr_netflix::icon::icon_pixels_bgra_bottom_up;

fn pixel(p: &[u8], x: usize, top_y: usize) -> [u8; 4] {
    let y = 31 - top_y;
    let o = (y * 32 + x) * 4;
    [p[o], p[o + 1], p[o + 2], p[o + 3]]
}

#[test]
fn icon_picture() {
    let p = icon_pixels_bgra_bottom_up();
    assert_eq!(p.len(), 4096);
    assert_eq!(pixel(&p, 0, 0), [0, 0, 0, 0]);
    assert_eq!(pixel(&p, 31, 31), [0, 0, 0, 0]);
    assert_eq!(pixel(&p, 3, 3), [24, 24, 220, 255]);
    assert_eq!(pixel(&p, 28, 28), [24, 24, 220, 255]);
    assert_eq!(pixel(&p, 29, 10), [0, 0, 0, 0]);
    assert_eq!(pixel(&p, 8, 8), [255, 255, 255, 255]);
    assert_eq!(pixel(&p, 15, 15), [255, 255, 255, 255]);
    assert_eq!(pixel(&p, 15, 10), [24, 24, 220, 255]);
    assert_eq!(pixel(&p, 23, 23), [255, 255, 255, 255]);
    assert_eq!(pixel(&p, 12, 24), [24, 24, 220, 255]);
    let white = (0..32).flat_map(|x| (0..32).map(move |y| (x, y))).filter(|&(x, y)| pixel(&p, x, y) == [255; 4]).count();
    assert_eq!(white, 4 * 16 * 2 + 8 * 4);
}
