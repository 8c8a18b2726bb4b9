use screenshot::shade::darken_rgba;

#[test]
fn darkening_matches_forty_percent_in_f32() {
    let bytes: Vec<u8> = (0u8..=255).flat_map(|c| [c, c, c, 255]).collect();
    let out = darken_rgba(&bytes);
    assert_eq!(out.len(), bytes.len());
    for c in 0u8..=255 {
        let expected = (c as f32 * 0.4) as u8;
        let i = 4 * c as usize;
        assert_eq!(out[i], expected);
        assert_eq!(out[i + 1], expected);
        assert_eq!(out[i + 2], expected);
        assert_eq!(out[i + 3], 255);
    }
}

#[test]
fn darkening_keeps_alpha_and_black() {
    assert_eq!(darken_rgba(&[0, 0, 0, 0, 10, 20, 30, 40]), vec![0, 0, 0, 0, 4, 8, 12, 40]);
    assert!(darken_rgba(&[]).is_empty());
}
