use vstd::prelude::*;

verus! {

/// An RGBA color, one byte per channel.
#[derive(Clone, Copy, Debug, PartialEq, Eq, Structural)]
pub struct Color {
    pub r: u8,
    pub g: u8,
    pub b: u8,
    pub a: u8,
}

impl Color {
    pub fn new(r: u8, g: u8, b: u8, a: u8) -> (c: Color)
        ensures
            c == (Color { r, g, b, a }),
    {
        Color { r, g, b, a }
    }
}

/// One channel of the source-over blend: background weighted by the
/// complement of the foreground alpha, truncated to a byte.
pub open spec fn compose_channel(bg: int, fg: int, a: int) -> int {
    (bg * (255 - a) + fg * a) / 255
}

/// The source-over blend of `fg` over `bg`; the result is opaque.
pub open spec fn compose_spec(bg: Color, fg: Color) -> Color {
    Color {
        r: compose_channel(bg.r as int, fg.r as int, fg.a as int) as u8,
        g: compose_channel(bg.g as int, fg.g as int, fg.a as int) as u8,
        b: compose_channel(bg.b as int, fg.b as int, fg.a as int) as u8,
        a: 255,
    }
}

proof fn lemma_compose_channel_bounds(bg: int, fg: int, a: int)
    requires
        0 <= bg <= 255,
        0 <= fg <= 255,
        0 <= a <= 255,
    ensures
        0 <= compose_channel(bg, fg, a) <= 255,
{
    assert(bg * (255 - a) + fg * a <= 255 * 255) by (nonlinear_arith)
        requires
            0 <= bg <= 255 && 0 <= fg <= 255 && 0 <= a <= 255,
    ;
    assert(bg * (255 - a) + fg * a >= 0) by (nonlinear_arith)
        requires
            0 <= bg <= 255 && 0 <= fg <= 255 && 0 <= a <= 255,
    ;
}

fn compose_channel_exec(bg: u8, fg: u8, a: u8) -> (r: u8)
    ensures
        r == compose_channel(bg as int, fg as int, a as int),
{
    proof {
        lemma_compose_channel_bounds(bg as int, fg as int, a as int);
    }
    ((bg as u32 * (255 - a as u32) + fg as u32 * a as u32) / 255) as u8
}

/// Blend `fg` over `bg` with source-over alpha compositing.
pub fn alpha_compose(bg: &Color, fg: &Color) -> (c: Color)
    ensures
        c == compose_spec(*bg, *fg),
{
    Color {
        r: compose_channel_exec(bg.r, fg.r, fg.a),
        g: compose_channel_exec(bg.g, fg.g, fg.a),
        b: compose_channel_exec(bg.b, fg.b, fg.a),
        a: 255,
    }
}

} // verus!
