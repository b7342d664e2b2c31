use stentor::color::{
    contrast, get_contrast_color, hex_or_grey, hex_to_rgb, is_well_divided, rgb_to_hex,
    rgb_to_int, tint_color,
};
use stentor::palette::Palette;

#[test]
fn test_hex_to_rgb_valid() {
    assert_eq!(hex_to_rgb("#ff0000"), Some((255, 0, 0)));
    assert_eq!(hex_to_rgb("#00ff00"), Some((0, 255, 0)));
    assert_eq!(hex_to_rgb("#0000ff"), Some((0, 0, 255)));
    assert_eq!(hex_to_rgb("#ffffff"), Some((255, 255, 255)));
    assert_eq!(hex_to_rgb("#000000"), Some((0, 0, 0)));
}

#[test]
fn kitty_test_hex_to_rgb_without_hash() {
    assert_eq!(hex_to_rgb("ff0000"), Some((255, 0, 0)));
    assert_eq!(hex_to_rgb("00ff00"), Some((0, 255, 0)));
}

#[test]
fn kitty_test_hex_to_rgb_with_alpha() {
    assert_eq!(hex_to_rgb("#ff0000ff"), Some((255, 0, 0)));
    assert_eq!(hex_to_rgb("#00ff0080"), Some((0, 255, 0)));
}

#[test]
fn kitty_test_hex_to_rgb_invalid() {
    assert_eq!(hex_to_rgb("#ff00"), None);
    assert_eq!(hex_to_rgb("#ff00000"), None);
    assert_eq!(hex_to_rgb("#gggggg"), None);
    assert_eq!(hex_to_rgb(""), None);
}

#[test]
fn test_hex_to_rgb_mixed_case() {
    assert_eq!(hex_to_rgb("#FF0000"), Some((255, 0, 0)));
    assert_eq!(hex_to_rgb("#AbCdEf"), Some((171, 205, 239)));
}

#[test]
fn test_get_contrast_color_light_background() {
    let (r, g, b) = get_contrast_color("#ffffff");
    assert_eq!((r, g, b), (0, 0, 0));

    let (r, g, b) = get_contrast_color("#f0f0f0");
    assert_eq!((r, g, b), (0, 0, 0));
}

#[test]
fn test_get_contrast_color_dark_background() {
    let (r, g, b) = get_contrast_color("#000000");
    assert_eq!((r, g, b), (255, 255, 255));

    let (r, g, b) = get_contrast_color("#1e1e2e");
    assert_eq!((r, g, b), (255, 255, 255));
}

#[test]
fn test_get_contrast_color_invalid_hex() {
    let (r, g, b) = get_contrast_color("invalid");
    assert_eq!((r, g, b), (255, 255, 255));
}

#[test]
fn test_rgb_to_int() {
    assert_eq!(rgb_to_int(255, 0, 0), 0xff0000);
    assert_eq!(rgb_to_int(0, 255, 0), 0x00ff00);
    assert_eq!(rgb_to_int(0, 0, 255), 0x0000ff);
    assert_eq!(rgb_to_int(255, 255, 255), 0xffffff);
    assert_eq!(rgb_to_int(0, 0, 0), 0x000000);
    assert_eq!(rgb_to_int(171, 205, 239), 0xabcdef);
}

#[test]
fn test_palette_colors() {
    let palette = Palette::new("#1e1e2e");

    assert!(palette.get_slot_color(1).is_some());
    assert!(palette.get_slot_color(2).is_some());
    assert!(palette.get_slot_color(3).is_some());
    assert!(palette.get_slot_color(4).is_some());
}

#[test]
fn test_slot_colors() {
    let palette = Palette::new("#1e1e2e");

    let (name, _hex) = palette.get_slot_color(1).unwrap();
    assert_eq!(name, "red");

    let (name, _hex) = palette.get_slot_color(2).unwrap();
    assert_eq!(name, "green");

    let (name, _hex) = palette.get_slot_color(3).unwrap();
    assert_eq!(name, "yellow");

    let (name, _hex) = palette.get_slot_color(4).unwrap();
    assert_eq!(name, "blue");
}

#[test]
fn test_get_slot_color_invalid_slots() {
    let palette = Palette::new("#1e1e2e");

    assert!(palette.get_slot_color(0).is_none());

    assert!(palette.get_slot_color(5).is_none());
    assert!(palette.get_slot_color(100).is_none());
}

#[test]
fn test_hex_to_rgb_basic() {
    assert_eq!(hex_to_rgb("#1e1e2e"), Some((30, 30, 46)));
    assert_eq!(hex_to_rgb("#000000"), Some((0, 0, 0)));
    assert_eq!(hex_to_rgb("#ffffff"), Some((255, 255, 255)));
}

#[test]
fn palette_test_hex_to_rgb_without_hash() {
    assert_eq!(hex_to_rgb("1e1e2e"), Some((30, 30, 46)));
    assert_eq!(hex_to_rgb("ff0000"), Some((255, 0, 0)));
}

#[test]
fn palette_test_hex_to_rgb_with_alpha() {
    assert_eq!(hex_to_rgb("#1e1e2eff"), Some((30, 30, 46)));
    assert_eq!(hex_to_rgb("#ff000080"), Some((255, 0, 0)));
}

#[test]
fn palette_test_hex_to_rgb_invalid() {
    assert_eq!(hex_to_rgb("invalid"), None);
    assert_eq!(hex_to_rgb("#fff"), None);
    assert_eq!(hex_to_rgb("#gggggg"), None);
    assert_eq!(hex_to_rgb(""), None);
}

#[test]
fn test_tint_color_basic() {
    let result = tint_color("#1e1e2e", 16, 0, 0);
    assert_eq!(result, "#2e1e2e");
}

#[test]
fn test_tint_color_clamping() {
    let result = tint_color("#ffffff", 10, 10, 10);
    assert_eq!(result, "#ffffff");

    let result = tint_color("#000000", -10, -10, -10);
    assert_eq!(result, "#000000");
}

#[test]
fn test_tint_color_invalid_base() {
    let result = tint_color("invalid", 16, 0, 0);
    assert_eq!(result, "#2e1e2e");
}

#[test]
fn test_palette_tinted_colors() {
    let palette = Palette::new("#1e1e2e");

    let (name, hex) = palette.get_slot_color(1).unwrap();
    assert_eq!(name, "red");
    assert_eq!(hex, "#2e1e2e");
}

#[test]
fn slots_have_their_tints() {
    let palette = Palette::new("#1e1e2e");
    assert_eq!(palette.get_slot_color(2), Some(("green", "#1e2e2e")));
    assert_eq!(palette.get_slot_color(3), Some(("yellow", "#2e2a2e")));
    assert_eq!(palette.get_slot_color(4), Some(("blue", "#1e223e")));
    let tints: Vec<Option<&str>> = (0..=9).map(|slot| palette.tint(slot)).collect();
    assert_eq!(
        tints,
        vec![
            None,
            Some("#2e1e2e"),
            Some("#1e2e2e"),
            Some("#2e2a2e"),
            Some("#1e223e"),
            Some("#2e1e3e"),
            Some("#1e2a3e"),
            Some("#2e242e"),
            Some("#241e3e"),
            None,
        ]
    );
    // On white there is no room for tints.
    let white = Palette::new("#ffffff");
    for slot in 1..=8 {
        assert_eq!(white.tint(slot), Some("#ffffff"));
    }
    // Just enough room, and just too little of each channel.
    let colors = |base: &str| {
        let palette = Palette::new(base);
        (1..=8)
            .map(|slot| palette.tint(slot).unwrap().to_string())
            .collect::<std::collections::HashSet<String>>()
            .len()
    };
    assert_eq!(colors("#f8f8fe"), 8);
    assert!(colors("#f9f8fe") < 8);
    assert!(colors("#f8f9fe") < 8);
    assert!(colors("#f8f8ff") < 8);
}

#[test]
fn hex_takes_any_number_of_hashes_and_a_plus_sign() {
    assert_eq!(hex_to_rgb("###010203"), Some((1, 2, 3)));
    assert_eq!(hex_to_rgb("+f+f+f"), Some((15, 15, 15)));
    assert_eq!(hex_to_rgb("++f000"), None);
    assert_eq!(hex_to_rgb("-f0000"), None);
    // The alpha channel is not looked at.
    assert_eq!(hex_to_rgb("010203zz"), Some((1, 2, 3)));
    // Three characters of two bytes each.
    assert!(is_well_divided("ééé"));
    assert_eq!(hex_to_rgb("ééé"), None);
    assert_eq!(hex_or_grey("#12"), (128, 128, 128));
}

#[test]
fn text_that_cannot_be_divided_is_seen() {
    assert!(is_well_divided("#1e1e2e"));
    assert!(is_well_divided("anything at all"));
    assert!(!is_well_divided("€€"));
    assert!(!is_well_divided("00a€"));
    assert!(!is_well_divided("00000€"));
    // The second pair is not looked at where the first one is no number.
    assert!(is_well_divided("zza€"));
}

#[test]
fn colors_read_back() {
    for c in [(0, 0, 0), (1, 2, 3), (171, 205, 239), (255, 16, 9)] {
        assert_eq!(hex_to_rgb(&rgb_to_hex(c)), Some(c));
    }
    assert_eq!(rgb_to_hex((171, 205, 9)), "#abcd09");
}

fn contrast_in_floats(r: u8, g: u8, b: u8) -> (u8, u8, u8) {
    let brightness = (r as f32 * 0.299 + g as f32 * 0.587 + b as f32 * 0.114) / 255.0;
    if brightness > 0.6 {
        (0, 0, 0)
    } else {
        (255, 255, 255)
    }
}

fn compare_contrast(from: u8, to: u8) {
    for r in from..=to {
        for g in 0..=255u8 {
            for b in 0..=255u8 {
                assert_eq!(contrast((r, g, b)), contrast_in_floats(r, g, b));
            }
        }
    }
}

#[test]
fn contrast_of_colors_without_red() {
    compare_contrast(0, 31);
}

#[test]
fn contrast_of_colors_with_traces_of_red() {
    compare_contrast(32, 63);
}

#[test]
fn contrast_of_colors_with_little_red() {
    compare_contrast(64, 95);
}

#[test]
fn contrast_of_colors_with_some_red() {
    compare_contrast(96, 127);
}

#[test]
fn contrast_of_colors_with_more_red() {
    compare_contrast(128, 159);
}

#[test]
fn contrast_of_colors_with_much_red() {
    compare_contrast(160, 191);
}

#[test]
fn contrast_of_colors_with_very_much_red() {
    compare_contrast(192, 223);
}

#[test]
fn contrast_of_colors_with_most_red() {
    compare_contrast(224, 255);
}

#[test]
fn contrast_on_the_border() {
    // 0.299 r + 0.587 g + 0.114 b is 153 for each: rounding decides.
    assert_eq!(contrast((3, 243, 83)), (0, 0, 0));
    assert_eq!(contrast((153, 153, 153)), contrast_in_floats(153, 153, 153));
    assert_eq!(contrast((154, 153, 153)), (0, 0, 0));
    assert_eq!(contrast((152, 153, 153)), (255, 255, 255));
}
