use vstd::prelude::*;

verus! {

/// Fixed-point scale of colour channels and matrix coefficients: `COLOR_ONE`
/// stands for 1.0.
pub const COLOR_ONE: i64 = 10_000;

/// Fixed-point scale of YCbCr components: a product of a coefficient and a
/// channel, so `SAMPLE_ONE == COLOR_ONE * COLOR_ONE` stands for 1.0.
pub const SAMPLE_ONE: i64 = 100_000_000;

/// Largest magnitude of a channel or a coefficient that a conversion accepts;
/// it keeps every dot product within `i64`.
pub const CHANNEL_LIMIT: i64 = 1_000_000_000;

/// A colour with channels in units of `1 / COLOR_ONE`. Channels are nominally
/// in `[0, COLOR_ONE]` but are not clamped.
#[derive(Clone, Copy, Debug, PartialEq, Eq, Structural)]
pub struct RGB {
    pub r: i64,
    pub b: i64,
    pub g: i64,
}

/// A luma / chroma triple in units of `1 / SAMPLE_ONE`; chroma is centred on 0.
#[derive(Clone, Copy, Debug, PartialEq, Eq, Structural)]
pub struct YCbCr {
    pub y: i64,
    pub cb: i64,
    pub cr: i64,
}

/// The coefficients of an RGB to YCbCr transform, one row per output
/// component, each row applied to `(r, g, b)`; units of `1 / COLOR_ONE`.
#[derive(Clone, Copy, Debug)]
pub struct ColorMatrix {
    pub y: [i64; 3],
    pub cb: [i64; 3],
    pub cr: [i64; 3],
}

/// Dot product of a coefficient row with `(r, g, b)`.
pub open spec fn dot(row: [i64; 3], c: (int, int, int)) -> int {
    row[0] * c.0 + row[1] * c.1 + row[2] * c.2
}

/// The linear transform of a matrix applied to a colour triple `(r, g, b)`.
pub open spec fn transform(m: ColorMatrix, c: (int, int, int)) -> (int, int, int) {
    (dot(m.y, c), dot(m.cb, c), dot(m.cr, c))
}

/// The weighted sum `a * p + b * q`, component by component.
pub open spec fn combine(p: (int, int, int), q: (int, int, int), a: int, b: int) -> (int, int, int) {
    (a * p.0 + b * q.0, a * p.1 + b * q.1, a * p.2 + b * q.2)
}

pub open spec fn within_limit(v: i64) -> bool {
    -CHANNEL_LIMIT <= v <= CHANNEL_LIMIT
}

impl RGB {
    /// The channels as the triple `(r, g, b)`.
    pub open spec fn view(self) -> (int, int, int) {
        (self.r as int, self.g as int, self.b as int)
    }

    pub open spec fn in_range(self) -> bool {
        within_limit(self.r) && within_limit(self.g) && within_limit(self.b)
    }
}

impl YCbCr {
    /// The components as the triple `(y, cb, cr)`.
    pub open spec fn view(self) -> (int, int, int) {
        (self.y as int, self.cb as int, self.cr as int)
    }
}

impl ColorMatrix {
    pub open spec fn row_in_range(row: [i64; 3]) -> bool {
        within_limit(row[0]) && within_limit(row[1]) && within_limit(row[2])
    }

    pub open spec fn in_range(self) -> bool {
        Self::row_in_range(self.y) && Self::row_in_range(self.cb) && Self::row_in_range(self.cr)
    }
}

/// The BT.709 full-range matrix.
pub open spec fn bt709_matrix() -> ColorMatrix {
    ColorMatrix {
        y: [2126i64, 7152i64, 722i64],
        cb: [-1146i64, -3854i64, 5000i64],
        cr: [5000i64, -4542i64, -458i64],
    }
}

/// The BT.709 full-range matrix.
pub fn bt709() -> (m: ColorMatrix)
    ensures
        m == bt709_matrix(),
        m.in_range(),
{
    ColorMatrix { y: [2126, 7152, 722], cb: [-1146, -3854, 5000], cr: [5000, -4542, -458] }
}

proof fn lemma_product_bound(k: int, x: int)
    requires
        -CHANNEL_LIMIT <= k <= CHANNEL_LIMIT,
        -CHANNEL_LIMIT <= x <= CHANNEL_LIMIT,
    ensures
        -CHANNEL_LIMIT * CHANNEL_LIMIT <= k * x <= CHANNEL_LIMIT * CHANNEL_LIMIT,
{
    assert(-1_000_000_000_000_000_000 <= k * x <= 1_000_000_000_000_000_000) by (nonlinear_arith)
        requires
            -1_000_000_000 <= k <= 1_000_000_000,
            -1_000_000_000 <= x <= 1_000_000_000,
    ;
}

/// Dot product of one coefficient row with a colour, exact in `i64`.
fn apply_row(row: &[i64; 3], rgb: &RGB) -> (v: i64)
    requires
        ColorMatrix::row_in_range(*row),
        rgb.in_range(),
    ensures
        v == dot(*row, rgb@),
{
    proof {
        lemma_product_bound(row[0] as int, rgb.r as int);
        lemma_product_bound(row[1] as int, rgb.g as int);
        lemma_product_bound(row[2] as int, rgb.b as int);
    }
    row[0] * rgb.r + row[1] * rgb.g + row[2] * rgb.b
}

/// Converts a colour to YCbCr: each component is the dot product of the
/// matrix's row for it with `(r, g, b)`, computed exactly.
pub fn rgb_to_yuv(rgb: RGB, scheme: ColorMatrix) -> (out: YCbCr)
    requires
        rgb.in_range(),
        scheme.in_range(),
    ensures
        out@ == transform(scheme, rgb@),
{
    let y = apply_row(&scheme.y, &rgb);
    let cb = apply_row(&scheme.cb, &rgb);
    let cr = apply_row(&scheme.cr, &rgb);
    YCbCr { y, cb, cr }
}

proof fn lemma_term_linear(k: int, x: int, y: int, a: int, b: int)
    ensures
        k * (a * x + b * y) == a * (k * x) + b * (k * y),
{
    assert(k * (a * x + b * y) == a * (k * x) + b * (k * y)) by (nonlinear_arith);
}

proof fn lemma_dot_linear(row: [i64; 3], p: (int, int, int), q: (int, int, int), a: int, b: int)
    ensures
        dot(row, combine(p, q, a, b)) == a * dot(row, p) + b * dot(row, q),
{
    let (k0, k1, k2) = (row[0] as int, row[1] as int, row[2] as int);
    lemma_term_linear(k0, p.0, q.0, a, b);
    lemma_term_linear(k1, p.1, q.1, a, b);
    lemma_term_linear(k2, p.2, q.2, a, b);
    assert(a * (k0 * p.0 + k1 * p.1 + k2 * p.2) == a * (k0 * p.0) + a * (k1 * p.1) + a * (k2 * p.2))
        by (nonlinear_arith);
    assert(b * (k0 * q.0 + k1 * q.1 + k2 * q.2) == b * (k0 * q.0) + b * (k1 * q.1) + b * (k2 * q.2))
        by (nonlinear_arith);
}

/// Conversion is linear: the transform of the weighted sum `a * p + b * q` of
/// two colours is the same weighted sum of their transforms, for every matrix.
pub proof fn lemma_convert_linear(m: ColorMatrix, p: (int, int, int), q: (int, int, int), a: int, b: int)
    ensures
        transform(m, combine(p, q, a, b)) == combine(transform(m, p), transform(m, q), a, b),
{
    lemma_dot_linear(m.y, p, q, a, b);
    lemma_dot_linear(m.cb, p, q, a, b);
    lemma_dot_linear(m.cr, p, q, a, b);
}

/// The 8-bit code of a component in units of `1 / SAMPLE_ONE` whose unit range
/// is `[0, 1]`: `floor(v * 255)`, saturated to `[0, 255]`.
pub open spec fn byte_of(v: int) -> int {
    if v <= 0 {
        0
    } else if v * 255 / (SAMPLE_ONE as int) >= 255 {
        255
    } else {
        v * 255 / (SAMPLE_ONE as int)
    }
}

fn scale_to_byte(v: i128) -> (r: u8)
    requires
        -(i64::MAX as int) - SAMPLE_ONE <= v <= i64::MAX as int + SAMPLE_ONE,
    ensures
        r as int == byte_of(v as int),
{
    if v <= 0 {
        0
    } else if v >= SAMPLE_ONE as i128 {
        assert(v * 255 / (SAMPLE_ONE as int) >= 255) by (nonlinear_arith)
            requires
                v >= 100_000_000,
        ;
        255
    } else {
        let q: i128 = v * 255 / (SAMPLE_ONE as i128);
        assert(q < 255) by (nonlinear_arith)
            requires
                0 < v < 100_000_000,
                q == v * 255 / 100_000_000,
        ;
        q as u8
    }
}

/// The 8-bit luma code of `y`: `floor(y * 255)` in unit terms, saturated.
pub fn luma_byte(y: i64) -> (r: u8)
    ensures
        r as int == byte_of(y as int),
{
    scale_to_byte(y as i128)
}

/// The 8-bit chroma code of `c`: the component re-centred by `+0.5`, then
/// `floor(. * 255)` in unit terms, saturated.
pub fn chroma_byte(c: i64) -> (r: u8)
    ensures
        r as int == byte_of(c as int + SAMPLE_ONE / 2),
{
    scale_to_byte(c as i128 + (SAMPLE_ONE / 2) as i128)
}

} // verus!
