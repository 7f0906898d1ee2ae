use aster_ui::paint::{blend, blend_pixel, hex_color_readable_exec, parse_hex_color};
use aster_ui::{ClipRect, Color, Pixel};

#[test]
fn clip_rect_intersection_keeps_common_pixels() {
    let a = ClipRect::new(0, 0, 10, 10);
    let b = ClipRect::new(5, -3, 20, 8);
    let both = a.intersect(b);
    assert_eq!(both, ClipRect::new(5, 0, 10, 8));
    assert_eq!(b.intersect(a), both);
    assert!(both.contains(5, 0));
    assert!(!both.contains(10, 0));
    assert!(!both.contains(4, 4));
    assert!(!both.contains(6, 8));
    let empty = a.intersect(ClipRect::new(20, 20, 30, 30));
    assert!(!empty.contains(20, 20));
    assert!(!empty.contains(5, 5));
}

#[test]
fn opaque_colors_replace_pixels() {
    let destination = Pixel { red: 10, green: 20, blue: 30, alpha: 40 };
    let source = Color { red: 200, green: 100, blue: 50, alpha: 255 };
    assert_eq!(blend(destination, source), Pixel { red: 200, green: 100, blue: 50, alpha: 255 });
}

#[test]
fn transparent_colors_keep_pixels() {
    let destination = Pixel { red: 10, green: 20, blue: 30, alpha: 40 };
    let source = Color { red: 200, green: 100, blue: 50, alpha: 0 };
    assert_eq!(blend(destination, source), destination);
}

#[test]
fn half_transparent_colors_mix_in_integer_arithmetic() {
    let destination = Pixel { red: 255, green: 0, blue: 0, alpha: 255 };
    let source = Color { red: 0, green: 0, blue: 255, alpha: 128 };
    // alpha 128 + 255 * 127 / 255 = 255; blue 255 * 128 / 255 = 128; red 255 * 127 / 255 = 127
    assert_eq!(blend(destination, source), Pixel { red: 127, green: 0, blue: 128, alpha: 255 });
    let over_empty = blend(Pixel { red: 0, green: 0, blue: 0, alpha: 0 }, source);
    assert_eq!(over_empty, Pixel { red: 0, green: 0, blue: 128, alpha: 128 });
}

#[test]
fn blend_pixel_changes_only_its_pixel() {
    let clear = Pixel { red: 0, green: 0, blue: 0, alpha: 0 };
    let mut pixels = vec![clear; 6];
    blend_pixel(&mut pixels, 3, 1, 1, Color { red: 9, green: 8, blue: 7, alpha: 255 });
    for (index, pixel) in pixels.iter().enumerate() {
        if index == 4 {
            assert_eq!(*pixel, Pixel { red: 9, green: 8, blue: 7, alpha: 255 });
        } else {
            assert_eq!(*pixel, clear);
        }
    }
}

#[test]
fn background_colors_parse() {
    assert_eq!(
        parse_hex_color("#101318"),
        Ok(Color { red: 0x10, green: 0x13, blue: 0x18, alpha: 255 })
    );
    assert_eq!(
        parse_hex_color("#AaBbCc80"),
        Ok(Color { red: 0xaa, green: 0xbb, blue: 0xcc, alpha: 0x80 })
    );
    assert_eq!(parse_hex_color("101318").unwrap_err(), "invalid color \"101318\"");
    assert_eq!(parse_hex_color("#10131g").unwrap_err(), "invalid color #10131g");
    assert_eq!(
        parse_hex_color("#+f0000"),
        Ok(Color { red: 15, green: 0, blue: 0, alpha: 255 })
    );
}

#[test]
fn background_colors_are_read_byte_by_byte() {
    assert!(hex_color_readable_exec("€"));
    assert_eq!(parse_hex_color("€").unwrap_err(), "invalid color \"€\"");
    assert!(hex_color_readable_exec("#aabbcc€"));
    assert_eq!(
        parse_hex_color("#aabbcc€").unwrap(),
        Color { red: 0xaa, green: 0xbb, blue: 0xcc, alpha: 255 }
    );
    assert!(hex_color_readable_exec("#éabbcc"));
    assert_eq!(parse_hex_color("#éabbcc").unwrap_err(), "invalid color #éabbcc");
    assert!(hex_color_readable_exec("#aabbccé"));
    assert!(parse_hex_color("#aabbccé").is_err());
    assert!(!hex_color_readable_exec("#a"));
    assert!(!hex_color_readable_exec("#a€bbcc"));
    assert!(hex_color_readable_exec("#zz"));
    assert!(parse_hex_color("#zz").is_err());
}
