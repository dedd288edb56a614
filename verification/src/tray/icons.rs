//! 16x16 ARGB icon data for each state.
//!
//! Each pixel is four bytes: alpha, red, green, blue.

use vstd::prelude::*;

use crate::settings::State;

verus! {

/// Width and height of an icon, in pixels.
pub const ICON_SIZE: usize = 16;

/// Four times the squared distance between the middle of a pixel and the middle
/// of the icon, in pixels.
pub open spec fn distance(x: int, y: int) -> int {
    (2 * x - 15) * (2 * x - 15) + (2 * y - 15) * (2 * y - 15)
}

/// `alpha` is the share of 255 by which a pixel at distance `d` falls short of a
/// radius of 7 pixels, rounded down: `alpha <= (7 - d) * 255 < alpha + 1`, where
/// `d` is half the root of `distance`.
pub open spec fn is_rim_alpha(distance: int, alpha: int) -> bool {
    &&& 0 <= alpha <= 255
    &&& 255 * 255 * distance <= 4 * ((1785 - alpha) * (1785 - alpha))
    &&& 4 * ((1784 - alpha) * (1784 - alpha)) < 255 * 255 * distance
}

/// The four bytes of a color, alpha first.
pub open spec fn color_bytes(argb: u32) -> Seq<u8> {
    seq![
        (argb as int / 0x100_0000) as u8,
        (argb as int / 0x1_0000 % 256) as u8,
        (argb as int / 0x100 % 256) as u8,
        (argb as int % 256) as u8,
    ]
}

/// A pixel of a circle icon: the color within 6 pixels of the middle, a rim of
/// one pixel in which the color fades out, and nothing beyond.
pub open spec fn icon_pixel(argb: u32, x: int, y: int) -> Seq<u8> {
    if distance(x, y) <= 4 * 36 {
        color_bytes(argb)
    } else if distance(x, y) <= 4 * 49 {
        color_bytes(argb).update(
            0,
            (choose|alpha: int| is_rim_alpha(distance(x, y), alpha)) as u8,
        )
    } else {
        seq![0, 0, 0, 0]
    }
}

/// The pixels of a circle icon, row by row.
pub open spec fn icon(argb: u32) -> Seq<u8> {
    Seq::new(1024, |i: int| icon_pixel(argb, i / 4 % 16, i / 64)[i % 4])
}

/// The color of the icon for a state.
pub open spec fn state_color(state: State) -> u32 {
    match state {
        State::Idle => 0xFF_88_88_88,
        State::Recording => 0xFF_E0_40_40,
        State::Transcribing => 0xFF_E0_A0_20,
        State::Synthesizing => 0xFF_7C_5C_FF,
        State::Speaking => 0xFF_34_D3_99,
    }
}

proof fn lemma_rim_alpha_unique(distance: int, a: int, b: int)
    requires
        is_rim_alpha(distance, a),
        is_rim_alpha(distance, b),
    ensures
        a == b,
{
    if a < b {
        assert((1785 - b) * (1785 - b) <= (1784 - a) * (1784 - a)) by (nonlinear_arith)
            requires
                0 <= 1785 - b <= 1784 - a,
        ;
    }
    if b < a {
        assert((1785 - a) * (1785 - a) <= (1784 - b) * (1784 - b)) by (nonlinear_arith)
            requires
                0 <= 1785 - a <= 1784 - b,
        ;
    }
}

/// A circle icon looks the same mirrored left to right, mirrored top to bottom,
/// and mirrored along its diagonal.
pub proof fn law_icon_is_symmetric(argb: u32, x: int, y: int)
    ensures
        icon_pixel(argb, 15 - x, y) == icon_pixel(argb, x, y),
        icon_pixel(argb, x, 15 - y) == icon_pixel(argb, x, y),
        icon_pixel(argb, y, x) == icon_pixel(argb, x, y),
{
    assert((2 * (15 - x) - 15) * (2 * (15 - x) - 15) == (2 * x - 15) * (2 * x - 15))
        by (nonlinear_arith);
    assert((2 * (15 - y) - 15) * (2 * (15 - y) - 15) == (2 * y - 15) * (2 * y - 15))
        by (nonlinear_arith);
}

/// Icons of different colors differ.
pub proof fn law_icon_shows_color(a: u32, b: u32)
    ensures
        icon(a) == icon(b) ==> a == b,
{
    // The pixel at (8, 8) lies inside the circle.
    assert(distance(8, 8) == 2) by (nonlinear_arith);
    assert(icon_pixel(a, 8, 8) == color_bytes(a));
    assert(icon_pixel(b, 8, 8) == color_bytes(b));
    assert(icon(a)[544] == color_bytes(a)[0] && icon(b)[544] == color_bytes(b)[0]);
    assert(icon(a)[545] == color_bytes(a)[1] && icon(b)[545] == color_bytes(b)[1]);
    assert(icon(a)[546] == color_bytes(a)[2] && icon(b)[546] == color_bytes(b)[2]);
    assert(icon(a)[547] == color_bytes(a)[3] && icon(b)[547] == color_bytes(b)[3]);
}

/// Every state has an icon of its own.
pub proof fn law_states_look_different(a: State, b: State)
    ensures
        icon(state_color(a)) == icon(state_color(b)) ==> a == b,
{
    law_icon_shows_color(state_color(a), state_color(b));
}

/// Alpha of a pixel in the rim.
fn rim_alpha(distance: u32) -> (alpha: u8)
    requires
        4 * 36 < distance <= 4 * 49,
    ensures
        is_rim_alpha(distance as int, alpha as int),
{
    let mut alpha: u32 = 0;
    while 65025 * distance <= 4 * ((1784 - alpha) * (1784 - alpha))
        invariant
            4 * 36 < distance <= 4 * 49,
            alpha <= 254,
            65025 * distance <= 4 * ((1785 - alpha) * (1785 - alpha)),
            4 * ((1784 - alpha) * (1784 - alpha)) <= u32::MAX,
            (1784 - alpha) * (1784 - alpha) <= u32::MAX,
        decreases 1784 - alpha,
    {
        assert((1784 - alpha) * (1784 - alpha) >= 1530 * 1530 + 1) by {
            assert(65025 * distance > 4 * (1530 * 1530));
        }
        assert(alpha < 254) by (nonlinear_arith)
            requires
                (1784 - alpha) * (1784 - alpha) >= 1530 * 1530 + 1,
                alpha <= 254,
        ;
        assert((1783 - alpha) * (1783 - alpha) <= (1784 - alpha) * (1784 - alpha))
            by (nonlinear_arith)
            requires
                alpha < 254,
        ;
        alpha += 1;
    }
    alpha as u8
}

fn push_pixel(pixels: &mut Vec<u8>, alpha: u8, argb: u32)
    ensures
        final(pixels)@ == old(pixels)@ + color_bytes(argb).update(0, alpha),
{
    pixels.push(alpha);
    pixels.push((argb / 0x1_0000 % 256) as u8);
    pixels.push((argb / 0x100 % 256) as u8);
    pixels.push((argb % 256) as u8);
    assert(pixels@ =~= old(pixels)@ + color_bytes(argb).update(0, alpha));
}

/// Square of twice the distance between a coordinate's pixel and the middle.
fn offset_square(v: usize) -> (square: u32)
    requires
        v < 16,
    ensures
        square == (2 * v - 15) * (2 * v - 15),
        square <= 289,
{
    let twice: u32 = 2 * (v as u32);
    let offset: u32 = if twice < 15 {
        15 - twice
    } else {
        twice - 15
    };
    assert(offset * offset == (2 * v - 15) * (2 * v - 15)) by (nonlinear_arith)
        requires
            offset == 2 * v - 15 || offset == 15 - 2 * v,
    ;
    assert(offset * offset <= 17 * 17) by (nonlinear_arith)
        requires
            offset <= 17,
    ;
    offset * offset
}

/// Generate a simple 16x16 solid circle icon with the given ARGB color.
pub fn circle_icon(argb: u32) -> (pixels: Vec<u8>)
    ensures
        pixels@ == icon(argb),
{
    let mut pixels: Vec<u8> = Vec::with_capacity(1024);
    let mut y: usize = 0;
    while y < ICON_SIZE
        invariant
            y <= 16,
            pixels@.len() == 64 * y,
            pixels@ == icon(argb).take(64 * y),
        decreases ICON_SIZE - y,
    {
        let mut x: usize = 0;
        while x < ICON_SIZE
            invariant
                x <= 16,
                y < 16,
                pixels@.len() == 64 * y + 4 * x,
                pixels@ == icon(argb).take(64 * y + 4 * x),
            decreases ICON_SIZE - x,
        {
            let d: u32 = offset_square(x) + offset_square(y);
            assert(d == distance(x as int, y as int));
            let ghost before = pixels@;
            if d <= 144 {
                push_pixel(&mut pixels, (argb / 0x100_0000) as u8, argb);
                assert(color_bytes(argb).update(0, (argb / 0x100_0000) as u8) =~= color_bytes(
                    argb,
                ));
            } else if d <= 196 {
                let alpha: u8 = rim_alpha(d);
                proof {
                    lemma_rim_alpha_unique(
                        d as int,
                        alpha as int,
                        choose|alpha: int| is_rim_alpha(d as int, alpha),
                    );
                }
                push_pixel(&mut pixels, alpha, argb);
            } else {
                push_pixel(&mut pixels, 0, 0);
                assert(color_bytes(0).update(0, 0) =~= seq![0u8, 0, 0, 0]);
            }
            let ghost pixel = icon_pixel(argb, x as int, y as int);
            assert(pixels@ =~= before + pixel);
            assert(pixel.len() == 4);
            assert forall|c: int| 0 <= c < 4 implies icon(argb)[64 * y + 4 * x + c]
                == #[trigger] pixel[c] by {
                let i = 64 * y + 4 * x + c;
                assert(i / 64 == y && i / 4 % 16 == x && i % 4 == c);
            }
            assert(pixels@ =~= icon(argb).take(64 * y + 4 * (x + 1)));
            x += 1;
        }
        y += 1;
    }
    assert(icon(argb).take(1024) =~= icon(argb));
    pixels
}

/// Ready to record (grey).
pub fn idle() -> (pixels: Vec<u8>)
    ensures
        pixels@ == icon(state_color(State::Idle)),
{
    circle_icon(0xFF_88_88_88)
}

/// Capturing audio (red).
pub fn recording() -> (pixels: Vec<u8>)
    ensures
        pixels@ == icon(state_color(State::Recording)),
{
    circle_icon(0xFF_E0_40_40)
}

/// Turning audio into text (amber).
pub fn transcribing() -> (pixels: Vec<u8>)
    ensures
        pixels@ == icon(state_color(State::Transcribing)),
{
    circle_icon(0xFF_E0_A0_20)
}

/// Read-aloud: synthesizing speech (blue/purple).
pub fn synthesizing() -> (pixels: Vec<u8>)
    ensures
        pixels@ == icon(state_color(State::Synthesizing)),
{
    circle_icon(0xFF_7C_5C_FF)
}

/// Read-aloud: playing speech (green).
pub fn speaking() -> (pixels: Vec<u8>)
    ensures
        pixels@ == icon(state_color(State::Speaking)),
{
    circle_icon(0xFF_34_D3_99)
}

/// The pixels of a circle icon, seen from the outside. A pixel whose middle lies
/// within 6 pixels of the middle of the icon has the color. Between 6 and 7 pixels
/// it has the color's red, green and blue, and an alpha of 255 times what is
/// missing to 7 pixels, rounded down. Beyond that it is transparent black.
pub proof fn law_circle_icon(argb: u32, pixels: Vec<u8>, x: int, y: int)
    requires
        call_ensures(circle_icon, (argb,), pixels),
        0 <= x < 16,
        0 <= y < 16,
    ensures
        call_requires(circle_icon, (argb,)),
        pixels@.len() == 1024,
        ({
            let at = 4 * (16 * y + x);
            let d = (2 * x - 15) * (2 * x - 15) + (2 * y - 15) * (2 * y - 15);
            let a = pixels@[at] as int;
            let rgb = 0x1_0000 * pixels@[at + 1] + 0x100 * pixels@[at + 2] + pixels@[at + 3];
            &&& d <= 144 ==> 0x100_0000 * a + rgb == argb
            &&& 144 < d <= 196 ==> {
                &&& rgb == argb % 0x100_0000
                &&& 65025 * d <= 4 * ((1785 - a) * (1785 - a))
                &&& 4 * ((1784 - a) * (1784 - a)) < 65025 * d
            }
            &&& 196 < d ==> a == 0 && rgb == 0
        }),
{
    let d = distance(x, y);
    lemma_pixel_place(argb, x, y, 0);
    lemma_pixel_place(argb, x, y, 1);
    lemma_pixel_place(argb, x, y, 2);
    lemma_pixel_place(argb, x, y, 3);
    lemma_color_bytes(argb);
    if 144 < d <= 196 {
        let alpha = lemma_rim_alpha_exists(d, 0);
        lemma_rim_alpha_unique(d, alpha, choose|alpha: int| is_rim_alpha(d, alpha));
    }
}

/// Where the bytes of a pixel stand.
proof fn lemma_pixel_place(argb: u32, x: int, y: int, c: int)
    requires
        0 <= x < 16,
        0 <= y < 16,
        0 <= c < 4,
    ensures
        icon(argb)[4 * (16 * y + x) + c] == icon_pixel(argb, x, y)[c],
{
    let i = 4 * (16 * y + x) + c;
    assert(i / 64 == y);
    assert(i / 4 % 16 == x);
    assert(i % 4 == c);
}

/// The bytes of a color make up the color.
proof fn lemma_color_bytes(argb: u32)
    ensures
        0x1_0000 * color_bytes(argb)[1] + 0x100 * color_bytes(argb)[2] + color_bytes(argb)[3]
            == argb % 0x100_0000,
        0x100_0000 * color_bytes(argb)[0] + argb % 0x100_0000 == argb,
{
    let n = argb as int;
    assert(0 <= n / 0x100_0000 < 256);
    assert(n / 0x1_0000 % 256 == n / 0x1_0000 - 256 * (n / 0x100_0000));
    assert(n / 0x100 % 256 == n / 0x100 - 256 * (n / 0x1_0000));
}

/// Every distance in the rim has an alpha.
proof fn lemma_rim_alpha_exists(d: int, from: int) -> (alpha: int)
    requires
        144 < d <= 196,
        0 <= from <= 255,
        65025 * d <= 4 * ((1785 - from) * (1785 - from)),
    ensures
        is_rim_alpha(d, alpha),
    decreases 255 - from,
{
    if 4 * ((1784 - from) * (1784 - from)) < 65025 * d {
        from
    } else {
        assert(from < 254) by (nonlinear_arith)
            requires
                65025 * d <= 4 * ((1784 - from) * (1784 - from)),
                144 < d,
                0 <= from <= 255,
        ;
        lemma_rim_alpha_exists(d, from + 1)
    }
}

/// Each state has a circle of its color: grey, red, amber, purple and green.
pub proof fn law_state_icons(
    grey: Vec<u8>,
    red: Vec<u8>,
    amber: Vec<u8>,
    purple: Vec<u8>,
    green: Vec<u8>,
    pixels: Vec<u8>,
)
    requires
        call_ensures(circle_icon, (0xFF888888u32,), grey),
        call_ensures(circle_icon, (0xFFE04040u32,), red),
        call_ensures(circle_icon, (0xFFE0A020u32,), amber),
        call_ensures(circle_icon, (0xFF7C5CFFu32,), purple),
        call_ensures(circle_icon, (0xFF34D399u32,), green),
    ensures
        call_ensures(idle, (), pixels) ==> pixels@ == grey@,
        call_ensures(recording, (), pixels) ==> pixels@ == red@,
        call_ensures(transcribing, (), pixels) ==> pixels@ == amber@,
        call_ensures(synthesizing, (), pixels) ==> pixels@ == purple@,
        call_ensures(speaking, (), pixels) ==> pixels@ == green@,
{
}

} // verus!
