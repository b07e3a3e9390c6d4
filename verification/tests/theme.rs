use pastahandler::settings::style::{is_light, lift, raised};
use pastahandler::theme::{presets, MascotStyle, PresetPalette, Theme};

/// Guards future palette edits: every preset must keep readable contrast
/// between text and background, and names must stay unique.
#[test]
fn presets_are_readable_and_uniquely_named() {
    let luma = |c: [u8; 3]| 0.299 * c[0] as f32 + 0.587 * c[1] as f32 + 0.114 * c[2] as f32;
    let mut names = std::collections::HashSet::new();
    for (name, palette) in presets() {
        assert!(names.insert(name), "duplicate preset name: {name}");
        let delta = (luma(palette.text) - luma(palette.background)).abs();
        assert!(
            delta >= 120.0,
            "preset '{name}' text/background contrast too low (luma delta {delta:.0})"
        );
    }
}

#[test]
fn gallery_lists_ten_presets_in_order() {
    let names: Vec<&str> = presets().iter().map(|(n, _)| *n).collect();
    assert_eq!(
        names,
        vec![
            "Default", "Sakura", "Candy", "Cosmic", "Sentinel", "GoW", "Halo", "League",
            "Strawberry", "Coffee"
        ]
    );
    let league = presets()[7].1;
    assert_eq!(league.accent, [200, 155, 60]);
    assert_eq!(league.background, [10, 20, 40]);
    assert_eq!(league.corner_radius, 4);
}

#[test]
fn default_theme_values() {
    let t = Theme::default();
    assert_eq!(t.accent, [242, 183, 53]);
    assert_eq!(t.background, [27, 27, 27]);
    assert_eq!(t.text, [222, 222, 222]);
    assert_eq!(t.border, [58, 58, 58]);
    assert_eq!(t.knob, [235, 235, 235]);
    assert_eq!(t.corner_radius, 4);
    assert!(t.borderless);
    assert_eq!(t.background_image, "");
    assert_eq!(t.window_opacity, 255);
    assert!(t.focus_outline && t.blur && t.row_stripes);
    assert_eq!(t.mascot, MascotStyle::Auto);
    assert!(t.palette().same_as(&presets()[0].1), "default theme wears the Default preset");
}

#[test]
fn sakura_theme_is_the_sakura_palette_in_a_framed_window() {
    let t = Theme::sakura();
    assert!(t.palette().same_as(&presets()[1].1));
    assert!(!t.borderless);
    assert_eq!(t.window_opacity, 255);
}

#[test]
fn applying_a_palette_touches_only_the_palette() {
    let mut t = Theme::default();
    t.borderless = false;
    t.background_image = "C:/img.png".into();
    t.window_opacity = 90;
    t.blur = false;
    let cosmic: PresetPalette = presets()[3].1;
    t.apply_palette(&cosmic);
    assert!(t.palette().same_as(&cosmic));
    assert!(!t.borderless);
    assert_eq!(t.background_image, "C:/img.png");
    assert_eq!(t.window_opacity, 90);
    assert!(!t.blur);
    // applying the theme's own palette changes nothing
    let before = t.palette();
    let own = t.palette();
    t.apply_palette(&own);
    assert!(t.palette().same_as(&before));
}

#[test]
fn theme_equality_is_field_by_field() {
    let a = Theme::default();
    let mut b = Theme::default();
    assert!(a.same_as(&b));
    b.row_stripes = false;
    assert!(!a.same_as(&b));
}

#[test]
fn lift_clamps_each_channel() {
    assert_eq!(lift([27, 27, 27], 8), [35, 35, 35]);
    assert_eq!(lift([250, 10, 128], 20), [255, 30, 148]);
    assert_eq!(lift([5, 200, 0], -11), [0, 189, 0]);
    assert_eq!(lift([0, 0, 0], i16::MIN), [0, 0, 0]);
    assert_eq!(lift([255, 255, 255], i16::MAX), [255, 255, 255]);
}

#[test]
fn light_backgrounds_are_told_apart_as_the_float_luma_does() {
    let luma = |c: [u8; 3]| 0.299 * c[0] as f32 + 0.587 * c[1] as f32 + 0.114 * c[2] as f32;
    for (_, p) in presets() {
        assert_eq!(is_light(p.background), luma(p.background) > 128.0);
    }
    // exactly 128 on the luma scale is not light
    assert!(!is_light([128, 128, 128]));
    assert!(is_light([129, 128, 128]));
    assert!(!is_light([27, 27, 27]));
    assert!(is_light([251, 236, 232]));
}

#[test]
fn raised_surfaces_step_away_from_the_background() {
    assert_eq!(raised([27, 27, 27], 8), [35, 35, 35]); // dark: lighter
    assert_eq!(raised([240, 240, 240], 8), [232, 232, 232]); // light: darker
    assert_eq!(raised([250, 250, 250], 0), [250, 250, 250]);
    assert_eq!(raised([3, 120, 60], 28), [31, 148, 88]);
    assert_eq!(raised([255, 200, 4], 28), [227, 172, 0]);
}
