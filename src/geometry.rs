use vstd::prelude::*;

verus! {

/// Fractions are fixed-point numbers with this many parts to the whole:
/// `FRACTION_ONE` stands for 1.0 and `FRACTION_ONE / 2` for 0.5.
///
/// Screen positions, pivots, dynamic sizes and the scale factor are all
/// fractions of this kind.
pub const FRACTION_ONE: u32 = 10000;

/// Integer division that rounds toward zero, as a cast of a real number to an
/// integer does.
pub open spec fn trunc_div(a: int, d: int) -> int {
    if a >= 0 {
        a / d
    } else {
        -((-a) / d)
    }
}

/// `v` limited to the range of `u32` (for `v >= 0`).
pub open spec fn saturate_u32(v: int) -> int {
    if v > u32::MAX {
        u32::MAX as int
    } else {
        v
    }
}

/// `v` limited to the range of `i32`.
pub open spec fn saturate_i32(v: int) -> int {
    if v > i32::MAX {
        i32::MAX as int
    } else if v < i32::MIN {
        i32::MIN as int
    } else {
        v
    }
}

/// Whole pixels covered by `n` logical pixels at the given scale factor.
pub open spec fn scaled_length(n: int, scale_factor: int) -> int {
    saturate_u32(n * scale_factor / FRACTION_ONE as int)
}

/// Whole pixels covered by the fraction `f` of an extent of `extent` pixels.
pub open spec fn fraction_length(f: int, extent: int) -> int {
    saturate_u32(f * extent / FRACTION_ONE as int)
}

/// Multiplies two `u32` values and divides by `FRACTION_ONE`, rounding down and
/// saturating at `u32::MAX`.
fn mul_fraction(a: u32, b: u32) -> (r: u32)
    ensures
        r == saturate_u32(a * b / FRACTION_ONE as int),
{
    assert(a as int * b as int <= u64::MAX) by (nonlinear_arith);
    let product: u64 = a as u64 * b as u64;
    let q: u64 = product / (FRACTION_ONE as u64);
    if q > u32::MAX as u64 {
        u32::MAX
    } else {
        q as u32
    }
}

/// A length along one axis.
#[derive(Clone, Copy, Debug, PartialEq, Eq, Structural)]
pub enum Size {
    /// A length in logical pixels; it is multiplied by the scale factor.
    Fixed(u32),
    /// A fraction (in parts of `FRACTION_ONE`) of the viewport's extent on the
    /// same axis; the scale factor does not apply.
    Dynamic(u32),
}

impl Size {
    /// The length in whole pixels against a viewport extent and a scale factor.
    pub open spec fn resolved(self, extent: int, scale_factor: int) -> int {
        match self {
            Size::Fixed(n) => scaled_length(n as int, scale_factor),
            Size::Dynamic(f) => fraction_length(f as int, extent),
        }
    }

    /// Resolves the length against a viewport extent (pixels) and a scale
    /// factor (a fraction); the result is truncated toward zero.
    pub fn resolve(&self, extent: u32, scale_factor: u32) -> (r: u32)
        ensures
            r == self.resolved(extent as int, scale_factor as int),
    {
        match *self {
            Size::Fixed(n) => mul_fraction(n, scale_factor),
            Size::Dynamic(f) => mul_fraction(f, extent),
        }
    }
}

/// A point in normalized space: each coordinate is a fraction (in parts of
/// `FRACTION_ONE`), `[0, 0]` being the top left and
/// `[FRACTION_ONE, FRACTION_ONE]` the bottom right.
#[derive(Clone, Copy, Debug, PartialEq, Eq, Structural)]
pub struct Position {
    pub x: i32,
    pub y: i32,
}

impl Position {
    /// A position from its two fractions.
    pub fn new(x: i32, y: i32) -> (r: Position)
        ensures
            r == (Position { x, y }),
    {
        Position { x, y }
    }

    /// The top left corner.
    pub fn default() -> (r: Position)
        ensures
            r == (Position { x: 0, y: 0 }),
    {
        Position { x: 0, y: 0 }
    }
}

/// A named anchor within a rectangle.
#[derive(Clone, Copy, Debug, PartialEq, Eq, Structural)]
pub enum Pivot {
    TopLeft,
    TopCenter,
    TopRight,
    MiddleLeft,
    MiddleCenter,
    MiddleRight,
    BottomLeft,
    BottomCenter,
    BottomRight,
}

/// The fraction for a column (0 left, 1 center, 2 right) or a row.
pub open spec fn anchor_fraction(step: int) -> int {
    step * (FRACTION_ONE as int) / 2
}

impl Pivot {
    /// The column (0, 1, 2 for left, center, right) of the anchor.
    pub open spec fn column(self) -> int {
        match self {
            Pivot::TopLeft | Pivot::MiddleLeft | Pivot::BottomLeft => 0,
            Pivot::TopCenter | Pivot::MiddleCenter | Pivot::BottomCenter => 1,
            _ => 2,
        }
    }

    /// The row (0, 1, 2 for top, middle, bottom) of the anchor.
    pub open spec fn row(self) -> int {
        match self {
            Pivot::TopLeft | Pivot::TopCenter | Pivot::TopRight => 0,
            Pivot::MiddleLeft | Pivot::MiddleCenter | Pivot::MiddleRight => 1,
            _ => 2,
        }
    }

    /// The anchor as a normalized position.
    pub open spec fn spec_position(self) -> Position {
        Position { x: anchor_fraction(self.column()) as i32, y: anchor_fraction(self.row()) as i32 }
    }

    /// The default pivot: the top left corner.
    pub fn default() -> (r: Pivot)
        ensures
            r == Pivot::TopLeft,
    {
        Pivot::TopLeft
    }

    /// The anchor as a normalized position: left and top are 0, center and
    /// middle `FRACTION_ONE / 2`, right and bottom `FRACTION_ONE`.
    pub fn position(&self) -> (r: Position)
        ensures
            r == self.spec_position(),
    {
        let half: i32 = (FRACTION_ONE / 2) as i32;
        let one: i32 = FRACTION_ONE as i32;
        let x: i32 = match *self {
            Pivot::TopLeft | Pivot::MiddleLeft | Pivot::BottomLeft => 0,
            Pivot::TopCenter | Pivot::MiddleCenter | Pivot::BottomCenter => half,
            _ => one,
        };
        let y: i32 = match *self {
            Pivot::TopLeft | Pivot::TopCenter | Pivot::TopRight => 0,
            Pivot::MiddleLeft | Pivot::MiddleCenter | Pivot::MiddleRight => half,
            _ => one,
        };
        Position { x, y }
    }
}

/// The unclamped pixel coordinate of a rectangle's edge on one axis, times
/// `FRACTION_ONE`: the anchor point `fraction * extent + offset`, less
/// `pivot` of the rectangle's `length`.
pub open spec fn anchored_numerator(fraction: int, extent: int, offset: int, length: int, pivot: int) -> int {
    fraction * extent + offset * FRACTION_ONE as int - length * pivot
}

/// The pixel coordinate of a rectangle's top (or left) edge on one axis,
/// truncated toward zero and saturated to the range of `i32`.
pub open spec fn anchored(fraction: int, extent: int, offset: int, length: int, pivot: int) -> int {
    saturate_i32(trunc_div(anchored_numerator(fraction, extent, offset, length, pivot), FRACTION_ONE as int))
}

/// Places a rectangle of `length` pixels on one axis: its anchor lies at the
/// fraction `fraction` of `extent` plus `offset` pixels, and `pivot` is the
/// fraction of the rectangle's own length that lies before the anchor.
pub fn anchor_axis(fraction: i32, extent: u32, offset: i32, length: u32, pivot: i32) -> (r: i32)
    ensures
        r == anchored(fraction as int, extent as int, offset as int, length as int, pivot as int),
{
    let one: i128 = FRACTION_ONE as i128;
    assert(-0x8000_0000_0000_0000 <= fraction as int * extent as int <= 0x8000_0000_0000_0000)
        by (nonlinear_arith);
    assert(-0x8000_0000_0000_0000 <= length as int * pivot as int <= 0x8000_0000_0000_0000)
        by (nonlinear_arith);
    let a: i128 = fraction as i128 * extent as i128;
    let b: i128 = length as i128 * pivot as i128;
    let num: i128 = a + offset as i128 * one - b;
    let q: i128 = if num >= 0 {
        (num as u128 / FRACTION_ONE as u128) as i128
    } else {
        -(((-num) as u128 / FRACTION_ONE as u128) as i128)
    };
    if q > i32::MAX as i128 {
        i32::MAX
    } else if q < i32::MIN as i128 {
        i32::MIN
    } else {
        q as i32
    }
}

/// A clip rectangle in pixels, with its origin at the top left of the viewport.
#[derive(Clone, Copy, Debug, PartialEq, Eq, Structural)]
pub struct ScissorRect {
    pub x: u32,
    pub y: u32,
    pub width: u32,
    pub height: u32,
}

/// The part `(start, length)` of the span `[start, start + length)` that lies
/// within `[0, extent)`, or `None` when they do not overlap.
pub open spec fn clipped_span(start: int, length: int, extent: int) -> Option<(int, int)> {
    let lo = if start > 0 { start } else { 0 };
    let hi = if start + length < extent { start + length } else { extent };
    if lo < hi {
        Some((lo, hi - lo))
    } else {
        None
    }
}

/// Clips the span `[start, start + length)` to `[0, extent)`.
pub fn clip_span(start: i32, length: u32, extent: u32) -> (r: Option<(u32, u32)>)
    ensures
        match clipped_span(start as int, length as int, extent as int) {
            Some((lo, len)) => r == Some((lo as u32, len as u32)),
            None => r is None,
        },
{
    let lo: i64 = if start > 0 { start as i64 } else { 0 };
    let end: i64 = start as i64 + length as i64;
    let hi: i64 = if end < extent as i64 { end } else { extent as i64 };
    if lo < hi {
        Some((lo as u32, (hi - lo) as u32))
    } else {
        None
    }
}

/// The scissor rectangle of a rectangle at `(x, y)` of `width` by `height`
/// pixels: its intersection with a viewport of `resolution`, or `None` where
/// it is empty (a zero width or height, or a rectangle wholly outside).
pub open spec fn scissor_of(x: int, y: int, width: int, height: int, resolution: [u32; 2]) -> Option<ScissorRect> {
    match (clipped_span(x, width, resolution[0] as int), clipped_span(y, height, resolution[1] as int)) {
        (Some((cx, cw)), Some((cy, ch))) => Some(
            ScissorRect { x: cx as u32, y: cy as u32, width: cw as u32, height: ch as u32 },
        ),
        _ => None,
    }
}

/// Clamps a rectangle to the viewport; `None` means there is nothing to draw.
pub fn scissor(x: i32, y: i32, width: u32, height: u32, resolution: [u32; 2]) -> (r: Option<ScissorRect>)
    ensures
        r == scissor_of(x as int, y as int, width as int, height as int, resolution),
{
    match clip_span(x, width, resolution[0]) {
        None => None,
        Some((cx, cw)) => match clip_span(y, height, resolution[1]) {
            None => None,
            Some((cy, ch)) => Some(ScissorRect { x: cx, y: cy, width: cw, height: ch }),
        },
    }
}

/// A fixed size resolves to its logical pixels times the scale factor,
/// truncated, whatever the viewport.
pub proof fn lemma_fixed_size_ignores_extent(n: u32, scale_factor: int, extent_a: int, extent_b: int)
    ensures
        Size::Fixed(n).resolved(extent_a, scale_factor) == scaled_length(n as int, scale_factor),
        Size::Fixed(n).resolved(extent_a, scale_factor) == Size::Fixed(n).resolved(extent_b, scale_factor),
{
}

/// A dynamic size does not depend on the scale factor.
pub proof fn lemma_dynamic_size_ignores_scale(f: u32, extent: int, scale_a: int, scale_b: int)
    ensures
        Size::Dynamic(f).resolved(extent, scale_a) == fraction_length(f as int, extent),
        Size::Dynamic(f).resolved(extent, scale_a) == Size::Dynamic(f).resolved(extent, scale_b),
{
}

/// A dynamic size scales linearly with the viewport: on an extent `k` times
/// larger it is `k` times larger, give or take what truncation drops (less
/// than `k` pixels), and exactly `k` times larger when the size on the
/// smaller extent is a whole number of pixels.
pub proof fn lemma_dynamic_size_scales(f: u32, extent: int, k: int, scale_factor: int)
    requires
        extent >= 0,
        k >= 1,
        f * (k * extent) / (FRACTION_ONE as int) <= u32::MAX,
    ensures
        k * Size::Dynamic(f).resolved(extent, scale_factor) <= Size::Dynamic(f).resolved(k * extent, scale_factor),
        Size::Dynamic(f).resolved(k * extent, scale_factor) < k * (Size::Dynamic(f).resolved(extent, scale_factor) + 1),
        (f * extent) % (FRACTION_ONE as int) == 0 ==> Size::Dynamic(f).resolved(k * extent, scale_factor)
            == k * Size::Dynamic(f).resolved(extent, scale_factor),
{
    let one = FRACTION_ONE as int;
    let x = f * extent;
    let q = x / one;
    let r = x % one;
    assert(x >= 0) by (nonlinear_arith)
        requires
            f >= 0,
            extent >= 0,
            x == f * extent,
    ;
    assert(x == q * one + r && 0 <= r < one);
    assert(f * (k * extent) == k * x) by (nonlinear_arith)
        requires
            x == f * extent,
    ;
    assert(k * x == (k * q) * one + k * r) by (nonlinear_arith)
        requires
            x == q * one + r,
    ;
    assert(0 <= k * r < k * one) by (nonlinear_arith)
        requires
            0 <= r < one,
            k >= 1,
    ;
    let b = (k * x) / one;
    assert(k * q <= b < k * q + k) by (nonlinear_arith)
        requires
            k * x == (k * q) * one + k * r,
            0 <= k * r < k * one,
            b == (k * x) / one,
            one == 10000,
    ;
    assert(q <= k * q) by (nonlinear_arith)
        requires
            q >= 0,
            k >= 1,
    ;
    assert(k * (q + 1) == k * q + k) by (nonlinear_arith);
    if r == 0 {
        assert(b == k * q) by (nonlinear_arith)
            requires
                k * x == (k * q) * one + k * r,
                r == 0,
                b == (k * x) / one,
                one == 10000,
        ;
    }
}

/// Truncated division by `FRACTION_ONE` takes a whole number `s` off the
/// quotient when `s` wholes are taken off the dividend, unless the dividend
/// is not a whole multiple and the subtraction crosses zero.
proof fn lemma_trunc_div_shift(a: int, s: int)
    requires
        s >= 0,
        a % (FRACTION_ONE as int) == 0 || a <= 0 || a >= s * FRACTION_ONE,
    ensures
        trunc_div(a - s * FRACTION_ONE, FRACTION_ONE as int) == trunc_div(a, FRACTION_ONE as int) - s,
{
    let one = FRACTION_ONE as int;
    if a >= s * one {
        assert((a - s * one) / one == a / one - s) by (nonlinear_arith)
            requires
                one == 10000,
                a >= s * one,
        ;
    } else if a <= 0 {
        assert((-a + s * one) / one == (-a) / one + s) by (nonlinear_arith)
            requires
                one == 10000,
                -a >= 0,
        ;
        assert(-(a - s * one) == -a + s * one);
    } else {
        let m = a / one;
        assert(a == m * one);
        assert(-(a - s * one) == (s - m) * one);
        assert(((s - m) * one) / one == s - m) by (nonlinear_arith)
            requires
                one == 10000,
        ;
    }
}

/// The anchor point (times `FRACTION_ONE`) is a whole pixel or lies outside
/// `(0, length)`, and neither edge position saturates.
pub open spec fn shifts_whole(fraction: int, extent: int, offset: int, length: int) -> bool {
    let a = anchored_numerator(fraction, extent, offset, length, 0);
    &&& a % (FRACTION_ONE as int) == 0 || a <= 0 || a >= length * FRACTION_ONE
    &&& i32::MIN <= trunc_div(a, FRACTION_ONE as int) <= i32::MAX
    &&& i32::MIN <= trunc_div(a, FRACTION_ONE as int) - length <= i32::MAX
}

/// On one axis, the top left edge of a rectangle anchored by its top left
/// corner (pivot 0) and that of one anchored by its bottom right corner
/// (pivot `FRACTION_ONE`) lie exactly `length` pixels apart, where no result
/// saturates and the anchor point is a whole pixel or lies outside
/// `(0, length)`.
pub proof fn lemma_pivot_shift(fraction: int, extent: int, offset: int, length: int)
    requires
        length >= 0,
        shifts_whole(fraction, extent, offset, length),
    ensures
        anchored(fraction, extent, offset, length, 0) - anchored(fraction, extent, offset, length, FRACTION_ONE as int)
            == length,
{
    let a = anchored_numerator(fraction, extent, offset, length, 0);
    assert(anchored_numerator(fraction, extent, offset, length, FRACTION_ONE as int) == a - length * FRACTION_ONE);
    lemma_trunc_div_shift(a, length);
}

/// A scissor rectangle is never empty and lies within the viewport: within
/// `[0, width)` across and `[0, height)` down. It is the part of the
/// rectangle that the viewport shows.
pub proof fn lemma_scissor_within_viewport(x: int, y: int, width: int, height: int, resolution: [u32; 2])
    requires
        width >= 0,
        height >= 0,
    ensures
        scissor_of(x, y, width, height, resolution) matches Some(s) ==> {
            &&& s.width > 0 && s.height > 0
            &&& s.x + s.width <= resolution[0]
            &&& s.y + s.height <= resolution[1]
            &&& x <= s.x && s.x + s.width <= x + width
            &&& y <= s.y && s.y + s.height <= y + height
        },
        scissor_of(x, y, width, height, resolution) is None <==> (width == 0 || height == 0 || x + width <= 0
            || y + height <= 0 || x >= resolution[0] || y >= resolution[1] || resolution[0] == 0
            || resolution[1] == 0),
{
}

/// Truncating twice a value gives twice the truncated value, give or take
/// one.
pub proof fn lemma_trunc_div_double(a: int)
    ensures
        -1 <= trunc_div(2 * a, FRACTION_ONE as int) - 2 * trunc_div(a, FRACTION_ONE as int) <= 1,
{
    let one = FRACTION_ONE as int;
    let b = if a >= 0 { a } else { -a };
    let q = b / one;
    let r = b % one;
    assert(b == q * one + r && 0 <= r < one);
    assert(2 * q <= (2 * b) / one <= 2 * q + 1) by (nonlinear_arith)
        requires
            b == q * one + r,
            0 <= r < one,
            one == 10000,
    ;
    if a < 0 {
        assert(-(2 * a) == 2 * b);
    }
}

} // verus!
