use ledring::color::Color;
use ledring::hsv_to_rgb;
use ledring::user_colors;

#[test]
fn primary_red() {
    assert_eq!(hsv_to_rgb(0, 255, 255), Color { r: 255, g: 0, b: 0 });
}

#[test]
fn primary_green() {
    assert_eq!(hsv_to_rgb(120, 255, 255), Color { r: 0, g: 255, b: 0 });
}

#[test]
fn primary_blue() {
    assert_eq!(hsv_to_rgb(240, 255, 255), Color { r: 0, g: 0, b: 255 });
}

#[test]
fn zero_saturation_is_grayscale() {
    for h in [0u16, 59, 60, 119, 120, 200, 300, 359] {
        for v in [0u8, 1, 20, 128, 254, 255] {
            let c = hsv_to_rgb(h, 0, v);
            assert_eq!(c.r, c.g);
            assert_eq!(c.g, c.b);
            assert_eq!(c.r, v);
        }
    }
}

#[test]
fn hue_wraps_modulo_360() {
    assert_eq!(hsv_to_rgb(360, 255, 255), hsv_to_rgb(0, 255, 255));
    assert_eq!(hsv_to_rgb(479, 200, 100), hsv_to_rgb(119, 200, 100));
    assert_eq!(hsv_to_rgb(65535, 175, 55), hsv_to_rgb(65535 % 360, 175, 55));
}

#[test]
fn zero_value_is_black() {
    for h in [0u16, 90, 180, 270] {
        assert_eq!(hsv_to_rgb(h, 255, 0), Color { r: 0, g: 0, b: 0 });
    }
}

#[test]
fn palette_has_three_colors() {
    assert_eq!(user_colors(0).len(), 3);
    assert_eq!(user_colors(42).len(), 3);
    assert_eq!(user_colors(u32::MAX).len(), 3);
}

#[test]
fn palette_exact_value_for_identity_zero() {
    let palette = user_colors(0);
    assert_eq!(palette[0], Color { r: 15, g: 6, b: 6 });
    assert_eq!(palette[1], Color { r: 8, g: 28, b: 7 });
    assert_eq!(palette[2], Color { r: 5, g: 6, b: 41 });
}

#[test]
fn palette_is_deterministic() {
    for id in [0u32, 1, 41, 42, 9998, 9999, 123456, u32::MAX] {
        assert_eq!(user_colors(id), user_colors(id));
    }
}

#[test]
fn adjacent_identities_can_get_different_palettes() {
    // the derivation truncates, so adjacent identities differ only when
    // they straddle a boundary coarse enough to move a channel; 249 and
    // 250 straddle the first value step (249*40 < 9999 <= 250*40)
    assert_ne!(user_colors(249), user_colors(250));
    assert_ne!(user_colors(9998), user_colors(9999));
}

#[test]
fn distant_identities_get_different_palettes() {
    assert_ne!(user_colors(0), user_colors(3333));
    assert_ne!(user_colors(100), user_colors(5100));
}

#[test]
fn identities_a_period_apart_share_a_palette() {
    // the derivation reduces the identity modulo 9999
    assert_eq!(user_colors(5), user_colors(5 + 9999));
}
