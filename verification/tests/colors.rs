use sup_decode::color::{Rgba, FULL_LEVEL};
use sup_decode::decode::pds::{decode_pds, PaletteEntry};

#[test]
fn white_and_black_levels() {
    let white = PaletteEntry::new(1, 235, 128, 128, 255).rgba();
    assert_eq!(
        white,
        Rgba { red: 254_916, green: 254_916, blue: 254_916, alpha: 255_000 }
    );
    let black = PaletteEntry::new(2, 16, 128, 128, 0).rgba();
    assert_eq!(black, Rgba { red: 0, green: 0, blue: 0, alpha: 0 });
}

#[test]
fn channels_are_clamped() {
    let red = PaletteEntry { id: 3, y: 81, cr: 240, cb: 90, alpha: 128 }.rgba();
    assert_eq!(red, Rgba { red: 254_412, green: 0, blue: 0, alpha: 128_000 });
    let over = PaletteEntry { id: 4, y: 255, cr: 255, cb: 255, alpha: 255 }.rgba();
    assert_eq!(over.red, FULL_LEVEL);
    assert_eq!(over.blue, FULL_LEVEL);
    // 1164 * 239 - 392 * 127 - 813 * 127
    assert_eq!(over.green, 125_161);
    let under = PaletteEntry { id: 5, y: 0, cr: 0, cb: 0, alpha: 1 }.rgba();
    assert_eq!(under.red, 0);
    assert_eq!(under.blue, 0);
    // -1164 * 16 + 392 * 128 + 813 * 128
    assert_eq!(under.green, 135_616);
    assert_eq!(under.alpha, 1_000);
}

#[test]
fn blue_difference_drives_blue() {
    let blue = PaletteEntry { id: 6, y: 41, cr: 110, cb: 240, alpha: 255 }.rgba();
    // 1164 * 25 + 2017 * 112 is above the full level
    assert_eq!(blue.blue, FULL_LEVEL);
    // 1164 * 25 + 1596 * -18
    assert_eq!(blue.red, 372);
    // 1164 * 25 - 392 * 112 - 813 * -18 is below zero
    assert_eq!(blue.green, 0);
}

#[test]
fn pixel_colors_under_a_palette() {
    let palette = decode_pds(&[0, 0, 9, 235, 128, 128, 255, 9, 16, 128, 128, 255]).unwrap();
    assert_eq!(
        palette.color_of(0),
        Rgba { red: 0, green: 0, blue: 0, alpha: FULL_LEVEL }
    );
    assert_eq!(palette.color_of(9), palette.entries[0].rgba());
    assert_eq!(palette.color_of(9).red, 254_916);
    assert_eq!(
        palette.color_of(10),
        Rgba { red: 0, green: 0, blue: 0, alpha: 0 }
    );
}
