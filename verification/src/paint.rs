//! Integer pixel arithmetic of the renderer: clip rectangles, source-over
//! blending of premultiplied pixels, and dashboard background colors.
use vstd::prelude::*;
use crate::config::is_hex_color;
use crate::style::{Color, SpecStyleError, all_hex, hex_byte, hex_value, spec_parse_color};
use crate::text::{chars_of, debug_quoted, is_ascii_hexdigit, is_hexdigit_char, quoted};

verus! {

broadcast use vstd::string::group_string_axioms;

// ---------------------------------------------------------------------------
// Clip rectangles.

/// The pixels `left <= x < right`, `top <= y < bottom`.
#[derive(Debug, Clone, Copy, PartialEq, Eq, Structural)]
pub struct ClipRect {
    pub left: i32,
    pub top: i32,
    pub right: i32,
    pub bottom: i32,
}

pub open spec fn max_i32(a: i32, b: i32) -> i32 {
    if a >= b {
        a
    } else {
        b
    }
}

pub open spec fn min_i32(a: i32, b: i32) -> i32 {
    if a <= b {
        a
    } else {
        b
    }
}

/// The pixels in both rectangles.
pub open spec fn spec_intersect(a: ClipRect, b: ClipRect) -> ClipRect {
    ClipRect {
        left: max_i32(a.left, b.left),
        top: max_i32(a.top, b.top),
        right: min_i32(a.right, b.right),
        bottom: min_i32(a.bottom, b.bottom),
    }
}

/// Whether the pixel at `(x, y)` is inside.
pub open spec fn spec_contains(c: ClipRect, x: i32, y: i32) -> bool {
    c.left <= x < c.right && c.top <= y < c.bottom
}

impl ClipRect {
    pub fn new(left: i32, top: i32, right: i32, bottom: i32) -> (r: ClipRect)
        ensures
            r == (ClipRect { left, top, right, bottom }),
    {
        ClipRect { left, top, right, bottom }
    }

    /// The pixels in both rectangles.
    pub fn intersect(self, other: ClipRect) -> (r: ClipRect)
        ensures
            r == spec_intersect(self, other),
    {
        ClipRect {
            left: if self.left >= other.left {
                self.left
            } else {
                other.left
            },
            top: if self.top >= other.top {
                self.top
            } else {
                other.top
            },
            right: if self.right <= other.right {
                self.right
            } else {
                other.right
            },
            bottom: if self.bottom <= other.bottom {
                self.bottom
            } else {
                other.bottom
            },
        }
    }

    /// Whether the pixel at `(x, y)` is inside.
    pub fn contains(self, x: i32, y: i32) -> (r: bool)
        ensures
            r == spec_contains(self, x, y),
    {
        x >= self.left && x < self.right && y >= self.top && y < self.bottom
    }
}

/// A pixel is inside the intersection of two rectangles exactly when it is
/// inside both.
pub proof fn law_intersection_contains_exactly_the_common_pixels(
    a: ClipRect,
    b: ClipRect,
    x: i32,
    y: i32,
)
    ensures
        spec_contains(spec_intersect(a, b), x, y) == (spec_contains(a, x, y) && spec_contains(
            b,
            x,
            y,
        )),
{
}

/// Intersecting is commutative, associative and idempotent, so nested
/// clips give the same rectangle in any order.
pub proof fn law_intersection_is_order_free(a: ClipRect, b: ClipRect, c: ClipRect)
    ensures
        spec_intersect(a, b) == spec_intersect(b, a),
        spec_intersect(spec_intersect(a, b), c) == spec_intersect(a, spec_intersect(b, c)),
        spec_intersect(a, a) == a,
{
}

// ---------------------------------------------------------------------------
// Blending.

/// A premultiplied RGBA pixel.
#[derive(Debug, Clone, Copy, PartialEq, Eq, Structural)]
pub struct Pixel {
    pub red: u8,
    pub green: u8,
    pub blue: u8,
    pub alpha: u8,
}

/// No channel above the alpha, as a premultiplied pixel has it.
pub open spec fn is_premultiplied(p: Pixel) -> bool {
    p.red <= p.alpha && p.green <= p.alpha && p.blue <= p.alpha
}

/// The alpha of `source` over a destination of alpha `da`.
pub open spec fn over_alpha(sa: int, da: int) -> int {
    sa + da * (255 - sa) / 255
}

/// One channel of `source` over the destination, capped at the result's alpha.
pub open spec fn over_channel(sc: int, dc: int, sa: int, da: int) -> int {
    let v = sc * sa / 255 + dc * (255 - sa) / 255;
    if v <= over_alpha(sa, da) {
        v
    } else {
        over_alpha(sa, da)
    }
}

/// A straight-alpha color painted over a premultiplied pixel (source-over),
/// in integer arithmetic.
pub open spec fn spec_blend(destination: Pixel, source: Color) -> Pixel {
    let sa = source.alpha as int;
    let da = destination.alpha as int;
    Pixel {
        red: over_channel(source.red as int, destination.red as int, sa, da) as u8,
        green: over_channel(source.green as int, destination.green as int, sa, da) as u8,
        blue: over_channel(source.blue as int, destination.blue as int, sa, da) as u8,
        alpha: over_alpha(sa, da) as u8,
    }
}

proof fn lemma_over_bounds(sc: int, dc: int, sa: int, da: int)
    requires
        0 <= sc <= 255,
        0 <= dc <= 255,
        0 <= sa <= 255,
        0 <= da <= 255,
    ensures
        0 <= over_alpha(sa, da) <= 255,
        0 <= over_channel(sc, dc, sa, da) <= over_alpha(sa, da),
{
    assert(0 <= da * (255 - sa) / 255 <= 255 - sa) by (nonlinear_arith)
        requires
            0 <= sa <= 255,
            0 <= da <= 255,
    ;
    assert(0 <= sc * sa / 255) by (nonlinear_arith)
        requires
            0 <= sc <= 255,
            0 <= sa <= 255,
    ;
    assert(0 <= dc * (255 - sa) / 255) by (nonlinear_arith)
        requires
            0 <= dc <= 255,
            0 <= sa <= 255,
    ;
}

fn over_channel_exec(sc: u8, dc: u8, sa: u8, da: u8) -> (r: u8)
    ensures
        r as int == over_channel(sc as int, dc as int, sa as int, da as int),
{
    proof {
        lemma_over_bounds(sc as int, dc as int, sa as int, da as int);
        assert(sc as u32 * sa as u32 <= 255 * 255) by (nonlinear_arith)
            requires
                sc <= 255,
                sa <= 255,
        ;
        assert(dc as u32 * (255 - sa as u32) <= 255 * 255) by (nonlinear_arith)
            requires
                dc <= 255,
                sa <= 255,
        ;
        assert(da as u32 * (255 - sa as u32) <= 255 * 255) by (nonlinear_arith)
            requires
                da <= 255,
                sa <= 255,
        ;
    }
    let sa32 = sa as u32;
    let inverse = 255 - sa32;
    let out_alpha = sa32 + da as u32 * inverse / 255;
    let v = sc as u32 * sa32 / 255 + dc as u32 * inverse / 255;
    let capped = if v <= out_alpha {
        v
    } else {
        out_alpha
    };
    capped as u8
}

/// Paints `source` over `destination`.
pub fn blend(destination: Pixel, source: Color) -> (r: Pixel)
    ensures
        r == spec_blend(destination, source),
        is_premultiplied(r),
{
    proof {
        lemma_over_bounds(0, 0, source.alpha as int, destination.alpha as int);
        lemma_over_bounds(source.red as int, destination.red as int, source.alpha as int, destination.alpha as int);
        lemma_over_bounds(source.green as int, destination.green as int, source.alpha as int, destination.alpha as int);
        lemma_over_bounds(source.blue as int, destination.blue as int, source.alpha as int, destination.alpha as int);
        assert(destination.alpha as u32 * (255 - source.alpha as u32) <= 255 * 255) by (nonlinear_arith)
            requires
                destination.alpha <= 255,
                source.alpha <= 255,
        ;
    }
    let alpha = (source.alpha as u32 + destination.alpha as u32 * (255 - source.alpha as u32) / 255) as u8;
    Pixel {
        red: over_channel_exec(source.red, destination.red, source.alpha, destination.alpha),
        green: over_channel_exec(source.green, destination.green, source.alpha, destination.alpha),
        blue: over_channel_exec(source.blue, destination.blue, source.alpha, destination.alpha),
        alpha,
    }
}

/// The index of pixel `(x, y)` in a row-major canvas `width` pixels wide.
pub open spec fn pixel_index(width: u32, x: i32, y: i32) -> int {
    y as int * width as int + x as int
}

/// Paints `source` over the pixel at `(x, y)` of a row-major canvas.
pub fn blend_pixel(pixels: &mut Vec<Pixel>, canvas_width: u32, x: i32, y: i32, source: Color)
    requires
        0 <= x,
        0 <= y,
        pixel_index(canvas_width, x, y) < old(pixels)@.len(),
    ensures
        final(pixels)@ == old(pixels)@.update(
            pixel_index(canvas_width, x, y),
            spec_blend(old(pixels)@[pixel_index(canvas_width, x, y)], source),
        ),
{
    let n = pixels.len();
    proof {
        assert(0 <= y as int * canvas_width as int) by (nonlinear_arith)
            requires
                0 <= y,
                0 <= canvas_width,
        ;
        assert(y as int * canvas_width as int + (x as int) < n);
    }
    let index = y as usize * canvas_width as usize + x as usize;
    let destination = pixels[index];
    pixels.set(index, blend(destination, source));
}

/// Painting a fully opaque color replaces the pixel.
pub proof fn law_opaque_source_replaces(destination: Pixel, source: Color)
    requires
        source.alpha == 255,
    ensures
        spec_blend(destination, source) == (Pixel {
            red: source.red,
            green: source.green,
            blue: source.blue,
            alpha: 255,
        }),
{
    let da = destination.alpha as int;
    assert(da * 0 / 255 == 0);
    assert(source.red as int * 255 / 255 == source.red as int) by (nonlinear_arith);
    assert(source.green as int * 255 / 255 == source.green as int) by (nonlinear_arith);
    assert(source.blue as int * 255 / 255 == source.blue as int) by (nonlinear_arith);
    assert(destination.red as int * 0 / 255 == 0);
    assert(destination.green as int * 0 / 255 == 0);
    assert(destination.blue as int * 0 / 255 == 0);
}

/// Painting a fully transparent color leaves a premultiplied pixel as it is.
pub proof fn law_transparent_source_keeps(destination: Pixel, source: Color)
    requires
        source.alpha == 0,
        is_premultiplied(destination),
    ensures
        spec_blend(destination, source) == destination,
{
    assert(destination.alpha as int * 255 / 255 == destination.alpha as int) by (nonlinear_arith);
    assert(destination.red as int * 255 / 255 == destination.red as int) by (nonlinear_arith);
    assert(destination.green as int * 255 / 255 == destination.green as int) by (nonlinear_arith);
    assert(destination.blue as int * 255 / 255 == destination.blue as int) by (nonlinear_arith);
    assert(source.red as int * 0 / 255 == 0);
    assert(source.green as int * 0 / 255 == 0);
    assert(source.blue as int * 0 / 255 == 0);
}

// ---------------------------------------------------------------------------
// Background colors.

/// Every character is ASCII.
pub open spec fn is_ascii_text(v: Seq<char>) -> bool {
    forall|k: int| 0 <= k < v.len() ==> (#[trigger] v[k]) as u32 <= 127
}

/// What `u8::from_str_radix` gives for two ASCII characters in base 16: a
/// leading `+` may stand before a single digit.
pub open spec fn radix_byte(c0: char, c1: char) -> Option<u8> {
    if c0 == '+' {
        if is_ascii_hexdigit(c1) {
            Some(hex_value(c1) as u8)
        } else {
            None
        }
    } else if is_ascii_hexdigit(c0) && is_ascii_hexdigit(c1) {
        Some((16 * hex_value(c0) + hex_value(c1)) as u8)
    } else {
        None
    }
}

/// The number of bytes that `c` takes in UTF-8.
pub open spec fn utf8_len(c: char) -> int {
    if (c as u32) < 0x80 {
        1
    } else if (c as u32) < 0x800 {
        2
    } else if (c as u32) < 0x1_0000 {
        3
    } else {
        4
    }
}

/// The two bytes from character `k` of `r` on are two one-byte characters.
pub open spec fn two_ascii(r: Seq<char>, k: int) -> bool {
    0 <= k && k + 1 < r.len() && utf8_len(r[k]) == 1 && utf8_len(r[k + 1]) == 1
}

/// The two bytes from character `k` of `r` on are one two-byte character.
pub open spec fn one_wide(r: Seq<char>, k: int) -> bool {
    0 <= k < r.len() && utf8_len(r[k]) == 2
}

/// The byte that the two bytes from character `k` of `r` on give in base
/// 16, as `u8::from_str_radix` reads them; none where they do not.
pub open spec fn byte_pair(r: Seq<char>, k: int) -> Option<u8> {
    if two_ascii(r, k) {
        radix_byte(r[k], r[k + 1])
    } else {
        None
    }
}

/// The alpha channel: the last two bytes where exactly eight bytes follow
/// the `#`, else fully opaque.
pub open spec fn alpha_pair(r: Seq<char>) -> Option<u8> {
    if r.len() == 8 && two_ascii(r, 6) {
        radix_byte(r[6], r[7])
    } else if r.len() == 7 && utf8_len(r[6]) == 2 {
        None
    } else {
        Some(255u8)
    }
}

/// Whether reading `v` as a background color stays within its bytes: each
/// two-byte channel that is read, after channels that read well, holds
/// whole characters. Reading stops at the first channel that fails.
pub open spec fn hex_color_readable(v: Seq<char>) -> bool {
    v.len() > 0 && v[0] == '#' ==> {
        let r = v.drop_first();
        &&& two_ascii(r, 0) || one_wide(r, 0)
        &&& byte_pair(r, 0) is Some ==> two_ascii(r, 2) || one_wide(r, 2)
        &&& byte_pair(r, 0) is Some && byte_pair(r, 2) is Some ==> two_ascii(r, 4) || one_wide(r, 4)
    }
}

/// A dashboard background `#RRGGBB` or `#RRGGBBAA` as a color (alpha 255
/// unless exactly eight bytes follow the `#`), or the message that says why
/// it is not one.
pub open spec fn spec_parse_hex_color(v: Seq<char>) -> Result<Color, Seq<char>> {
    if v.len() == 0 || v[0] != '#' {
        Err("invalid color "@ + debug_quoted(v))
    } else {
        let r = v.drop_first();
        let red = byte_pair(r, 0);
        let green = byte_pair(r, 2);
        let blue = byte_pair(r, 4);
        let alpha = alpha_pair(r);
        if red is Some && green is Some && blue is Some && alpha is Some {
            Ok(Color { red: red->0, green: green->0, blue: blue->0, alpha: alpha->0 })
        } else {
            Err("invalid color "@ + v)
        }
    }
}

/// Stylesheet colors and the dashboard's background accept the same `#`
/// colors with the same meaning: a stylesheet color other than
/// `transparent` is valid exactly when it has the background's form, and
/// then both read it as the same color.
pub proof fn law_stylesheet_and_background_colors_agree(v: Seq<char>, property: Seq<char>)
    requires
        v != "transparent"@,
    ensures
        spec_parse_color(v, 0, v.len() as int, property) is Ok <==> is_hex_color(v),
        is_hex_color(v) ==> (spec_parse_hex_color(v) matches Ok(c) && spec_parse_color(
            v,
            0,
            v.len() as int,
            property,
        ) == Ok::<Color, SpecStyleError>(c)),
{
    reveal(spec_parse_color);
    assert(v.subrange(0, v.len() as int) =~= v);
    if is_hex_color(v) {
        assert(all_hex(v, 1, v.len() as int));
        assert(is_ascii_hexdigit(v[1]) && is_ascii_hexdigit(v[3]) && is_ascii_hexdigit(v[5]));
        assert(radix_byte(v[1], v[2]) == Some(hex_byte(v, 1)));
        assert(radix_byte(v[3], v[4]) == Some(hex_byte(v, 3)));
        assert(radix_byte(v[5], v[6]) == Some(hex_byte(v, 5)));
        if v.len() == 9 {
            assert(is_ascii_hexdigit(v[7]));
            assert(radix_byte(v[7], v[8]) == Some(hex_byte(v, 7)));
        }
    }
    if spec_parse_color(v, 0, v.len() as int, property) is Ok {
        assert forall|k: int| 1 <= k < v.len() implies is_ascii_hexdigit(#[trigger] v[k]) by {
            assert(all_hex(v, 1, v.len() as int));
        }
    }
}

fn hex_digit(c: char) -> (r: u8)
    requires
        is_ascii_hexdigit(c),
    ensures
        r as int == hex_value(c),
{
    let v = c as u32;
    if v >= 48 && v <= 57 {
        (v - 48) as u8
    } else if v >= 97 && v <= 102 {
        (v - 87) as u8
    } else {
        (v - 55) as u8
    }
}

fn radix_byte_exec(c0: char, c1: char) -> (r: Option<u8>)
    ensures
        r == radix_byte(c0, c1),
{
    if c0 == '+' {
        if is_hexdigit_char(c1) {
            Some(hex_digit(c1))
        } else {
            None
        }
    } else if is_hexdigit_char(c0) && is_hexdigit_char(c1) {
        let hi = hex_digit(c0);
        let lo = hex_digit(c1);
        Some(16 * hi + lo)
    } else {
        None
    }
}

fn utf8_len_exec(c: char) -> (r: u8)
    ensures
        r as int == utf8_len(c),
{
    let v = c as u32;
    if v < 0x80 {
        1
    } else if v < 0x800 {
        2
    } else if v < 0x1_0000 {
        3
    } else {
        4
    }
}

fn two_ascii_exec(r: &Vec<char>, k: usize) -> (b: bool)
    ensures
        b == two_ascii(r@, k as int),
{
    k < r.len() && r.len() - k > 1 && utf8_len_exec(r[k]) == 1 && utf8_len_exec(r[k + 1]) == 1
}

fn one_wide_exec(r: &Vec<char>, k: usize) -> (b: bool)
    ensures
        b == one_wide(r@, k as int),
{
    k < r.len() && utf8_len_exec(r[k]) == 2
}

fn byte_pair_exec(r: &Vec<char>, k: usize) -> (b: Option<u8>)
    ensures
        b == byte_pair(r@, k as int),
{
    if two_ascii_exec(r, k) {
        let n = r.len();
        assert(k + 1 < n);
        radix_byte_exec(r[k], r[k + 1])
    } else {
        None
    }
}

/// The characters after the first.
fn after_first(v: &Vec<char>) -> (r: Vec<char>)
    requires
        v@.len() > 0,
    ensures
        r@ == v@.drop_first(),
{
    let mut r: Vec<char> = Vec::new();
    let mut k: usize = 1;
    while k < v.len()
        invariant
            1 <= k <= v@.len(),
            r@ == v@.subrange(1, k as int),
        decreases v@.len() - k,
    {
        r.push(v[k]);
        assert(r@ =~= v@.subrange(1, k + 1));
        k += 1;
    }
    assert(v@.subrange(1, v@.len() as int) =~= v@.drop_first());
    r
}

/// Whether `value` can be read as a background color without reading past
/// its bytes or splitting a character.
pub fn hex_color_readable_exec(value: &str) -> (r: bool)
    ensures
        r == hex_color_readable(value@),
{
    let v = chars_of(value);
    if v.len() == 0 || v[0] != '#' {
        return true;
    }
    let r = after_first(&v);
    let fits = |k: usize| -> (b: bool)
        ensures
            b == (two_ascii(r@, k as int) || one_wide(r@, k as int)),
        { two_ascii_exec(&r, k) || one_wide_exec(&r, k) };
    let red = byte_pair_exec(&r, 0);
    let green = byte_pair_exec(&r, 2);
    fits(0) && (red.is_none() || fits(2)) && (red.is_none() || green.is_none() || fits(4))
}

/// Reads a dashboard background color, as the renderer does before painting.
pub fn parse_hex_color(value: &str) -> (r: Result<Color, String>)
    requires
        hex_color_readable(value@),
    ensures
        match r {
            Ok(c) => spec_parse_hex_color(value@) == Ok::<Color, Seq<char>>(c),
            Err(m) => spec_parse_hex_color(value@) == Err::<Color, Seq<char>>(m@),
        },
{
    let v = chars_of(value);
    if v.len() == 0 || v[0] != '#' {
        let mut m = "invalid color ".to_string();
        let text = value.to_string();
        m.append(quoted(&text).as_str());
        return Err(m);
    }
    let r = after_first(&v);
    let red = byte_pair_exec(&r, 0);
    let green = byte_pair_exec(&r, 2);
    let blue = byte_pair_exec(&r, 4);
    let alpha = if r.len() == 8 && two_ascii_exec(&r, 6) {
        radix_byte_exec(r[6], r[7])
    } else if r.len() == 7 && utf8_len_exec(r[6]) == 2 {
        None
    } else {
        Some(255u8)
    };
    match (red, green, blue, alpha) {
        (Some(red), Some(green), Some(blue), Some(alpha)) => Ok(Color { red, green, blue, alpha }),
        _ => {
            let mut m = "invalid color ".to_string();
            m.append(value);
            Err(m)
        },
    }
}

} // verus!
