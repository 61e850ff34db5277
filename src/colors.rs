//! Colors in cylindrical spaces, in fixed point, and the arithmetic of
//! gradients between them.

use vstd::prelude::*;

verus! {

/// A full turn of hue, in thousandths of a degree.
pub const HUE_TURN: u32 = 360000;

/// A color in the perceptual Lch space. Lightness and chroma are in
/// thousandths of their unit, hue in thousandths of a degree.
#[derive(Clone, Copy, PartialEq, Eq, Structural, Debug)]
pub struct Lch {
    pub l: u32,
    pub chroma: u32,
    pub hue: u32,
}

/// A color in the Hsv space. Hue is in thousandths of a degree; saturation
/// and value are in thousandths, from 0 to 1000.
#[derive(Clone, Copy, PartialEq, Eq, Structural, Debug)]
pub struct Hsv {
    pub hue: u32,
    pub saturation: u32,
    pub value: u32,
}

impl Lch {
    /// The hue is less than a full turn.
    pub open spec fn wf(&self) -> bool {
        self.hue < HUE_TURN
    }

    /// A color with its hue brought into one turn.
    pub fn new(l: u32, chroma: u32, hue: u32) -> (r: Lch)
        ensures
            r.wf(),
            r.l == l && r.chroma == chroma && r.hue == hue % HUE_TURN,
    {
        Lch { l, chroma, hue: hue % HUE_TURN }
    }
}

impl Hsv {
    /// The hue is less than a full turn.
    pub open spec fn wf(&self) -> bool {
        self.hue < HUE_TURN
    }

    /// A color with its hue brought into one turn.
    pub fn new(hue: u32, saturation: u32, value: u32) -> (r: Hsv)
        ensures
            r.wf(),
            r.hue == hue % HUE_TURN && r.saturation == saturation && r.value == value,
    {
        Hsv { hue: hue % HUE_TURN, saturation, value }
    }
}

/// Stop `i` of `n` on the straight line from `a` to `b`, rounded down.
pub open spec fn lerp(a: int, b: int, i: int, n: int) -> int {
    if n <= 0 {
        a
    } else {
        (a * (n - i) + b * i) / n
    }
}

/// How far the hue turns from `a` to `b`, always in the increasing direction.
pub open spec fn hue_span(a: int, b: int) -> int {
    if a <= b {
        b - a
    } else {
        b + HUE_TURN - a
    }
}

/// The hue added at each of `n` steps from `a` towards `b`, rounded down.
pub open spec fn hue_step(a: int, b: int, n: int) -> int {
    if n <= 0 {
        0
    } else {
        hue_span(a, b) / n
    }
}

/// The hue of stop `i` of `n` from `a` towards `b`.
pub open spec fn hue_at(a: int, b: int, i: int, n: int) -> int {
    (a + i * hue_step(a, b, n)) % (HUE_TURN as int)
}

/// Stop `i` of an `n`-step Lch gradient from `start` to `end`.
pub open spec fn lch_stop(start: Lch, end: Lch, i: int, n: int) -> Lch {
    Lch {
        l: lerp(start.l as int, end.l as int, i, n) as u32,
        chroma: lerp(start.chroma as int, end.chroma as int, i, n) as u32,
        hue: hue_at(start.hue as int, end.hue as int, i, n) as u32,
    }
}

/// Stop `i` of an `n`-step Hsv gradient from `start` to `end`.
pub open spec fn hsv_stop(start: Hsv, end: Hsv, i: int, n: int) -> Hsv {
    Hsv {
        hue: hue_at(start.hue as int, end.hue as int, i, n) as u32,
        saturation: lerp(start.saturation as int, end.saturation as int, i, n) as u32,
        value: lerp(start.value as int, end.value as int, i, n) as u32,
    }
}

proof fn lemma_lerp_bounds(a: int, b: int, i: int, n: int)
    requires
        0 <= a,
        0 <= b,
        0 < n,
        0 <= i <= n,
    ensures
        0 <= a * (n - i) + b * i <= (if a <= b { b } else { a }) * n,
        0 <= lerp(a, b, i, n) <= (if a <= b { b } else { a }),
{
    let m = if a <= b { b } else { a };
    assert(0 <= a * (n - i) <= m * (n - i)) by (nonlinear_arith)
        requires
            0 <= a <= m,
            0 <= n - i,
    ;
    assert(0 <= b * i <= m * i) by (nonlinear_arith)
        requires
            0 <= b <= m,
            0 <= i,
    ;
    assert(m * (n - i) + m * i == m * n) by (nonlinear_arith);
    let t = a * (n - i) + b * i;
    assert(t / n <= m) by (nonlinear_arith)
        requires
            0 <= t <= m * n,
            0 < n,
    ;
    assert(0 <= t / n) by (nonlinear_arith)
        requires
            0 <= t,
            0 < n,
    ;
}

/// Stop `i` of `n` between two fixed-point components.
pub fn lerp_u32(a: u32, b: u32, i: u32, n: u32) -> (r: u32)
    requires
        0 < n,
        i <= n,
    ensures
        r == lerp(a as int, b as int, i as int, n as int),
{
    proof {
        lemma_lerp_bounds(a as int, b as int, i as int, n as int);
        assert((a as int) * ((n - i) as int) <= u32::MAX * u32::MAX) by (nonlinear_arith)
            requires
                a <= u32::MAX,
                0 <= n - i <= u32::MAX,
        ;
        assert((b as int) * (i as int) <= u32::MAX * u32::MAX) by (nonlinear_arith)
            requires
                b <= u32::MAX,
                i <= u32::MAX,
        ;
    }
    let num = (a as u128) * ((n - i) as u128) + (b as u128) * (i as u128);
    (num / (n as u128)) as u32
}

/// The hue added at each of `n` steps from `a` towards `b`.
pub fn hue_step_u32(a: u32, b: u32, n: u32) -> (r: u32)
    requires
        a < HUE_TURN,
        b < HUE_TURN,
        0 < n,
    ensures
        r == hue_step(a as int, b as int, n as int),
        (r as int) * (n as int) <= hue_span(a as int, b as int) < HUE_TURN,
{
    let span: u32 = if a <= b {
        b - a
    } else {
        b + HUE_TURN - a
    };
    proof {
        let s = span as int;
        assert((s / (n as int)) * (n as int) <= s) by (nonlinear_arith)
            requires
                0 <= s,
                0 < n,
        ;
    }
    span / n
}

/// The hue of stop `i` of `n`, given the step.
pub fn hue_at_u32(a: u32, b: u32, i: u32, n: u32, step: u32) -> (r: u32)
    requires
        a < HUE_TURN,
        b < HUE_TURN,
        0 < n,
        i <= n,
        step == hue_step(a as int, b as int, n as int),
        (step as int) * (n as int) < HUE_TURN,
    ensures
        r == hue_at(a as int, b as int, i as int, n as int),
        r < HUE_TURN,
{
    proof {
        assert((i as int) * (step as int) <= (step as int) * (n as int)) by (nonlinear_arith)
            requires
                0 <= i <= n,
                0 <= step,
        ;
    }
    ((a as u64 + (i as u64) * (step as u64)) % (HUE_TURN as u64)) as u32
}

/// Gradient stops are evenly spaced: each straight-line component of stop
/// `i` lies within one unit below the exact point `a + (b - a) * i / n`,
/// and the hue advances from each stop to the next by the same step, in the
/// increasing direction, the steps together turning less than once.
pub proof fn lemma_ramp_evenly_spaced(a: int, b: int, ha: int, hb: int, i: int, n: int)
    requires
        0 <= a,
        0 <= b,
        0 <= ha < HUE_TURN,
        0 <= hb < HUE_TURN,
        0 < n,
        0 <= i < n,
    ensures
        (b - a) * i - n < n * (lerp(a, b, i, n) - a) <= (b - a) * i,
        lerp(a, b, 0, n) == a,
        lerp(a, b, n, n) == b,
        hue_at(ha, hb, 0, n) == ha,
        hue_at(ha, hb, i + 1, n) == (hue_at(ha, hb, i, n) + hue_step(ha, hb, n)) % (HUE_TURN as int),
        0 <= n * hue_step(ha, hb, n) <= hue_span(ha, hb) < HUE_TURN,
{
    let t = a * (n - i) + b * i;
    vstd::arithmetic::div_mod::lemma_fundamental_div_mod(t, n);
    assert(0 <= t % n < n) by {
        vstd::arithmetic::div_mod::lemma_mod_bound(t, n);
    }
    assert(t - n * a == (b - a) * i) by (nonlinear_arith)
        requires
            t == a * (n - i) + b * i,
    ;
    let q = lerp(a, b, i, n);
    assert(q == t / n);
    assert(n * (q - a) == n * q - n * a) by (nonlinear_arith);
    assert((a * (n - 0) + b * 0) / n == a) by (nonlinear_arith)
        requires
            0 < n,
    ;
    assert((a * (n - n) + b * n) / n == b) by (nonlinear_arith)
        requires
            0 < n,
    ;
    let st = hue_step(ha, hb, n);
    let span = hue_span(ha, hb);
    assert(0 <= n * st <= span) by (nonlinear_arith)
        requires
            st == span / n,
            0 <= span,
            0 < n,
    ;
    assert(0 <= st < HUE_TURN) by (nonlinear_arith)
        requires
            0 <= n * st < HUE_TURN,
            0 < n,
    ;
    let x = ha + i * st;
    assert(ha + (i + 1) * st == x + st) by (nonlinear_arith)
        requires
            x == ha + i * st,
    ;
    vstd::arithmetic::div_mod::lemma_add_mod_noop_right(st, x, HUE_TURN as int);
    vstd::arithmetic::div_mod::lemma_small_mod(ha as nat, HUE_TURN as nat);
}

/// The two colors of a pair that reads well as text: the lighter one and
/// the darker one.
pub struct TextColorPair<T> {
    pub light: T,
    pub dark: T,
}

impl TextColorPair<Lch> {
    /// Orders two colors by lightness; on a tie the first becomes the dark one.
    pub fn new(color1: Lch, color2: Lch) -> (r: TextColorPair<Lch>)
        ensures
            color1.l > color2.l ==> r.light == color1 && r.dark == color2,
            color1.l <= color2.l ==> r.light == color2 && r.dark == color1,
    {
        if color1.l > color2.l {
            TextColorPair { light: color1, dark: color2 }
        } else {
            TextColorPair { light: color2, dark: color1 }
        }
    }
}

} // verus!
