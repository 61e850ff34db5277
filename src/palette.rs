//! Weighted palettes: colors with positive integer weights, sampled by
//! cumulative-weight partitioning, and built as perceptual gradients.

use vstd::prelude::*;
use crate::colors::{Hsv, Lch, hsv_stop, hue_at, hue_at_u32, hue_step, hue_step_u32, lch_stop, lerp, lerp_u32, HUE_TURN};

verus! {

/// Relies on fastrand's `Rng`, a seedable pseudo-random generator.
#[verifier::external_type_specification]
#[verifier::external_body]
pub struct ExRng(fastrand::Rng);

/// Relies on `fastrand::Rng::u64` over `0..bound`: a value in that range,
/// drawn from the generator's state (it panics only on an empty range).
#[verifier::external_body]
fn draw_below(rng: &fastrand::Rng, bound: u64) -> (r: u64)
    requires
        bound > 0,
    ensures
        r < bound,
{
    rng.u64(0..bound)
}

/// Why a palette operation was refused.
#[derive(Clone, Copy, PartialEq, Eq, Structural, Debug)]
pub enum PaletteError {
    /// A color was asked of a palette that holds none.
    EmptyPalette,
    /// A color was added with a weight of zero.
    InvalidWeight,
}

/// One color of a palette with its sampling weight.
pub struct WeightedColor<T> {
    pub color: T,
    pub weight: u64,
}

/// The sum of the weights of the first `k` colors of `s`.
pub open spec fn prefix_weight<T>(s: Seq<WeightedColor<T>>, k: int) -> int
    decreases k,
{
    if k <= 0 || k > s.len() {
        0
    } else {
        prefix_weight(s, k - 1) + s[k - 1].weight
    }
}

/// The sum of all weights of `s`.
pub open spec fn total_of<T>(s: Seq<WeightedColor<T>>) -> int {
    prefix_weight(s, s.len() as int)
}

/// The position chosen for `value`, searching from position `i`: the first
/// color whose cumulative weight exceeds `value`, or the last color.
pub open spec fn pick_from<T>(s: Seq<WeightedColor<T>>, value: int, i: int) -> int
    decreases s.len() - i,
{
    if i >= s.len() - 1 {
        s.len() - 1
    } else if value < prefix_weight(s, i + 1) {
        i
    } else {
        pick_from(s, value, i + 1)
    }
}

/// The position of the color that `value` selects: the colors split
/// `[0, total)` into consecutive half-open intervals, one per color, in
/// order; a value at or past the total selects the last color.
pub open spec fn pick<T>(s: Seq<WeightedColor<T>>, value: int) -> int {
    pick_from(s, value, 0)
}

proof fn lemma_prefix_push<T>(s: Seq<WeightedColor<T>>, x: WeightedColor<T>, k: int)
    requires
        0 <= k <= s.len(),
    ensures
        prefix_weight(s.push(x), k) == prefix_weight(s, k),
    decreases k,
{
    if k > 0 {
        lemma_prefix_push(s, x, k - 1);
    }
}

proof fn lemma_prefix_monotone<T>(s: Seq<WeightedColor<T>>, j: int, k: int)
    requires
        0 <= j <= k <= s.len(),
        forall|i: int| 0 <= i < s.len() ==> s[i].weight > 0,
    ensures
        prefix_weight(s, j) <= prefix_weight(s, k),
        j < k ==> prefix_weight(s, j) < prefix_weight(s, k),
    decreases k - j,
{
    if j < k {
        lemma_prefix_monotone(s, j, k - 1);
    }
}

/// A weighted palette samples by intervals: the chosen color's interval
/// `[prefix, prefix + weight)` holds the value, unless the value lies at or
/// past the total, when the last color is chosen.
pub proof fn lemma_pick_interval<T>(s: Seq<WeightedColor<T>>, value: int)
    requires
        s.len() > 0,
        0 <= value,
        forall|i: int| 0 <= i < s.len() ==> s[i].weight > 0,
    ensures
        0 <= pick(s, value) < s.len(),
        prefix_weight(s, pick(s, value)) <= value,
        value < total_of(s) ==> value < prefix_weight(s, pick(s, value) + 1),
        value >= total_of(s) ==> pick(s, value) == s.len() - 1,
{
    lemma_pick_from_interval(s, value, 0);
    if value >= total_of(s) {
        lemma_pick_past_total(s, value, 0);
    }
}

proof fn lemma_pick_from_interval<T>(s: Seq<WeightedColor<T>>, value: int, i: int)
    requires
        s.len() > 0,
        0 <= i < s.len(),
        prefix_weight(s, i) <= value,
        forall|j: int| 0 <= j < s.len() ==> s[j].weight > 0,
    ensures
        i <= pick_from(s, value, i) < s.len(),
        prefix_weight(s, pick_from(s, value, i)) <= value,
        value < total_of(s) ==> value < prefix_weight(s, pick_from(s, value, i) + 1),
    decreases s.len() - i,
{
    if i < s.len() - 1 && value >= prefix_weight(s, i + 1) {
        lemma_pick_from_interval(s, value, i + 1);
    }
}

proof fn lemma_pick_past_total<T>(s: Seq<WeightedColor<T>>, value: int, i: int)
    requires
        s.len() > 0,
        0 <= i < s.len(),
        value >= total_of(s),
        forall|j: int| 0 <= j < s.len() ==> s[j].weight > 0,
    ensures
        pick_from(s, value, i) == s.len() - 1,
    decreases s.len() - i,
{
    if i < s.len() - 1 {
        lemma_prefix_monotone(s, i + 1, s.len() as int);
        lemma_pick_past_total(s, value, i + 1);
    }
}

/// An ordered list of weighted colors with their total weight.
pub struct WeightedPalette<T> {
    colors: Vec<WeightedColor<T>>,
    total_weight: u64,
}

impl<T: Copy> WeightedPalette<T> {
    /// The palette's colors with their weights, in order.
    pub closed spec fn entries(&self) -> Seq<WeightedColor<T>> {
        self.colors@
    }

    /// The stored total, which always equals the sum of the weights.
    pub closed spec fn total(&self) -> u64 {
        self.total_weight
    }

    /// Every weight is positive and the stored total is their sum.
    pub closed spec fn wf(&self) -> bool {
        &&& forall|i: int| 0 <= i < self.colors@.len() ==> self.colors@[i].weight > 0
        &&& self.total_weight == total_of(self.colors@)
    }

    /// The color that `value` selects, as `color_at` returns it.
    pub open spec fn color_at_spec(&self, value: int) -> T {
        self.entries()[pick(self.entries(), value)].color
    }

    /// An empty palette.
    pub fn empty() -> (r: WeightedPalette<T>)
        ensures
            r.wf(),
            r.entries().len() == 0,
            r.total() == 0,
    {
        WeightedPalette { colors: Vec::new(), total_weight: 0 }
    }

    /// A palette of the given colors, each of weight one.
    pub fn new(colors: Vec<T>) -> (r: WeightedPalette<T>)
        requires
            colors@.len() <= u64::MAX,
        ensures
            r.wf(),
            r.entries().len() == colors@.len(),
            forall|i: int|
                0 <= i < colors@.len() ==> (#[trigger] r.entries()[i]).color == colors@[i]
                    && r.entries()[i].weight == 1,
            r.total() == colors@.len(),
    {
        let mut out: Vec<WeightedColor<T>> = Vec::new();
        let mut i: usize = 0;
        while i < colors.len()
            invariant
                0 <= i <= colors@.len() <= u64::MAX,
                out@.len() == i,
                forall|j: int|
                    0 <= j < i ==> (#[trigger] out@[j]).color == colors@[j] && out@[j].weight == 1,
                total_of(out@) == i,
            decreases colors.len() - i,
        {
            let ghost before = out@;
            out.push(WeightedColor { color: colors[i], weight: 1 });
            proof {
                lemma_prefix_push(before, out@.last(), before.len() as int);
            }
            i = i + 1;
        }
        WeightedPalette { colors: out, total_weight: i as u64 }
    }

    pub fn total_weight(&self) -> (r: u64)
        ensures
            r == self.total(),
    {
        self.total_weight
    }

    pub fn len(&self) -> (r: usize)
        ensures
            r == self.entries().len(),
    {
        self.colors.len()
    }

    /// Appends a color; a weight of zero is refused and leaves the palette as it was.
    pub fn add_color(&mut self, color: T, weight: u64) -> (r: Result<(), PaletteError>)
        requires
            old(self).wf(),
            old(self).total() + weight <= u64::MAX,
        ensures
            final(self).wf(),
            weight == 0 ==> r == Err::<(), PaletteError>(PaletteError::InvalidWeight) && final(self).entries()
                == old(self).entries() && final(self).total() == old(self).total(),
            weight > 0 ==> r is Ok && final(self).entries() == old(self).entries().push(
                WeightedColor { color, weight },
            ) && final(self).total() == old(self).total() + weight,
    {
        if weight == 0 {
            return Err(PaletteError::InvalidWeight);
        }
        let ghost before = self.colors@;
        self.colors.push(WeightedColor { color, weight });
        proof {
            lemma_prefix_push(before, self.colors@.last(), before.len() as int);
        }
        self.total_weight = self.total_weight + weight;
        Ok(())
    }

    /// The color whose cumulative-weight interval holds `value`; a value at
    /// or past the total selects the last color.
    pub fn color_at(&self, value: u64) -> (r: Result<T, PaletteError>)
        requires
            self.wf(),
        ensures
            self.entries().len() == 0 <==> r == Err::<T, PaletteError>(PaletteError::EmptyPalette),
            self.entries().len() > 0 ==> r == Ok::<T, PaletteError>(self.color_at_spec(value as int)),
    {
        let n = self.colors.len();
        if n == 0 {
            return Err(PaletteError::EmptyPalette);
        }
        let mut cum: u64 = 0;
        let mut i: usize = 0;
        while i < n - 1
            invariant
                n == self.colors@.len(),
                0 <= i <= n - 1,
                cum == prefix_weight(self.colors@, i as int),
                self.wf(),
                pick(self.colors@, value as int) == pick_from(self.colors@, value as int, i as int),
            decreases n - i,
        {
            proof {
                lemma_prefix_monotone(self.colors@, i + 1, n as int);
            }
            cum = cum + self.colors[i].weight;
            if value < cum {
                return Ok(self.colors[i].color);
            }
            i = i + 1;
        }
        Ok(self.colors[n - 1].color)
    }

    /// The color at `percent` per cent of the total weight.
    pub fn color_at_percent(&self, percent: u64) -> (r: Result<T, PaletteError>)
        requires
            self.wf(),
        ensures
            self.entries().len() == 0 <==> r == Err::<T, PaletteError>(PaletteError::EmptyPalette),
            self.entries().len() > 0 ==> r == Ok::<T, PaletteError>(
                self.color_at_spec(self.total() * percent / 100),
            ),
    {
        proof {
            assert((self.total_weight as int) * (percent as int) <= u64::MAX * u64::MAX) by (nonlinear_arith)
                requires
                    self.total_weight <= u64::MAX,
                    percent <= u64::MAX,
            ;
        }
        let scaled = (self.total_weight as u128) * (percent as u128) / 100;
        // Past the total every value selects the last color, so the total stands in.
        let value: u64 = if scaled > self.total_weight as u128 {
            self.total_weight
        } else {
            scaled as u64
        };
        proof {
            if self.colors@.len() > 0 && scaled > self.total_weight {
                lemma_pick_past_total(self.colors@, scaled as int, 0);
                lemma_pick_past_total(self.colors@, value as int, 0);
            }
        }
        self.color_at(value)
    }

    /// A color drawn at random, with probability in proportion to its weight.
    pub fn random_color(&self, random: &fastrand::Rng) -> (r: Result<T, PaletteError>)
        requires
            self.wf(),
        ensures
            self.entries().len() == 0 <==> r == Err::<T, PaletteError>(PaletteError::EmptyPalette),
            self.entries().len() > 0 ==> r is Ok,
            r is Ok ==> exists|v: int| 0 <= v < self.total() && r == Ok::<T, PaletteError>(#[trigger] self.color_at_spec(v)),
    {
        if self.colors.len() == 0 {
            return Err(PaletteError::EmptyPalette);
        }
        proof {
            lemma_prefix_monotone(self.colors@, 0, self.colors@.len() as int);
        }
        let value = draw_below(random, self.total_weight);
        let r = self.color_at(value);
        proof {
            assert(0 <= value < self.total() && r == Ok::<T, PaletteError>(self.color_at_spec(value as int)));
        }
        r
    }

    /// The width of each color's stripe when the palette is drawn across
    /// `width` pixels: its share of the total weight, rounded half up.
    pub fn stripe_widths(&self, width: u32) -> (r: Vec<u64>)
        requires
            self.wf(),
        ensures
            r@.len() == self.entries().len(),
            forall|i: int|
                0 <= i < r@.len() ==> (#[trigger] r@[i]) == (2 * width * self.entries()[i].weight
                    + self.total()) / (2 * self.total()),
    {
        let mut out: Vec<u64> = Vec::new();
        let mut i: usize = 0;
        while i < self.colors.len()
            invariant
                0 <= i <= self.colors@.len(),
                self.wf(),
                out@.len() == i,
                forall|j: int|
                    0 <= j < i ==> (#[trigger] out@[j]) == (2 * width * self.colors@[j].weight
                        + self.total_weight) / (2 * self.total_weight),
            decreases self.colors.len() - i,
        {
            let w = self.colors[i].weight;
            let t = self.total_weight;
            proof {
                lemma_prefix_monotone(self.colors@, i as int, i + 1);
                lemma_prefix_monotone(self.colors@, i + 1, self.colors@.len() as int);
                lemma_prefix_monotone(self.colors@, 0, i as int);
                assert(w <= t);
                assert(2 * (width as int) * (w as int) <= 2 * (width as int) * (t as int)) by (nonlinear_arith)
                    requires w <= t;
                assert(2 * (width as int) * (t as int) <= 2 * u32::MAX * u64::MAX) by (nonlinear_arith)
                    requires width <= u32::MAX, t <= u64::MAX;
                let num = 2 * (width as int) * (w as int) + t;
                assert(num / (2 * (t as int)) <= width + 1) by (nonlinear_arith)
                    requires num <= 2 * (width as int) * (t as int) + t, t > 0;
            }
            let v = (2 * (width as u128) * (w as u128) + (t as u128)) / (2 * (t as u128));
            out.push(v as u64);
            i = i + 1;
        }
        out
    }

    /// All colors, in order.
    pub fn all_colors(&self) -> (r: Vec<T>)
        ensures
            r@ == self.entries().map_values(|c: WeightedColor<T>| c.color),
    {
        let mut out: Vec<T> = Vec::new();
        let mut i: usize = 0;
        while i < self.colors.len()
            invariant
                0 <= i <= self.colors@.len(),
                out@ == self.colors@.take(i as int).map_values(|c: WeightedColor<T>| c.color),
            decreases self.colors.len() - i,
        {
            out.push(self.colors[i].color);
            proof {
                assert(out@ =~= self.colors@.take(i + 1).map_values(|c: WeightedColor<T>| c.color));
            }
            i = i + 1;
        }
        proof {
            assert(self.colors@.take(i as int) =~= self.colors@);
        }
        out
    }
}

/// `i` is the first position of the greatest lightness in `s`, with that
/// lightness above zero.
pub open spec fn is_lightest(s: Seq<WeightedColor<Lch>>, i: int) -> bool {
    &&& 0 <= i < s.len()
    &&& s[i].color.l > 0
    &&& forall|j: int| 0 <= j < s.len() ==> s[j].color.l <= s[i].color.l
    &&& forall|j: int| 0 <= j < i ==> s[j].color.l < s[i].color.l
}

/// Lightness at or above which a color does not count as dark: 100.
pub const DARK_LIMIT: u32 = 100000;

/// `i` is the first position of the least lightness in `s`, with that
/// lightness below the limit.
pub open spec fn is_darkest(s: Seq<WeightedColor<Lch>>, i: int) -> bool {
    &&& 0 <= i < s.len()
    &&& s[i].color.l < DARK_LIMIT
    &&& forall|j: int| 0 <= j < s.len() ==> s[j].color.l >= s[i].color.l
    &&& forall|j: int| 0 <= j < i ==> s[j].color.l > s[i].color.l
}

impl WeightedPalette<Lch> {
    /// An evenly spaced gradient of `num_steps + 1` stops from `start` to
    /// `end`, each of weight one: lightness and chroma move in a straight
    /// line, hue turns by a constant step in the increasing direction.
    pub fn new_from_ramp(start: Lch, end: Lch, num_steps: u32) -> (r: WeightedPalette<Lch>)
        requires
            start.wf(),
            end.wf(),
        ensures
            r.wf(),
            r.entries().len() == num_steps + 1,
            r.total() == num_steps + 1,
            forall|i: int|
                0 <= i <= num_steps ==> (#[trigger] r.entries()[i]).color == lch_stop(
                    start,
                    end,
                    i,
                    num_steps as int,
                ) && r.entries()[i].weight == 1,
    {
        let mut colors: Vec<WeightedColor<Lch>> = Vec::new();
        colors.push(WeightedColor { color: start, weight: 1 });
        proof {
            assert(prefix_weight(colors@, 0) == 0);
            assert(total_of(colors@) == 1);
            assert(lch_stop(start, end, 0, num_steps as int) == start) by {
                assert(hue_at(start.hue as int, end.hue as int, 0, num_steps as int) == start.hue as int);
                if num_steps > 0 {
                    assert(lerp(start.l as int, end.l as int, 0, num_steps as int) == start.l as int) by (nonlinear_arith)
                        requires num_steps > 0, start.l >= 0;
                    assert(lerp(start.chroma as int, end.chroma as int, 0, num_steps as int) == start.chroma as int) by (nonlinear_arith)
                        requires num_steps > 0, start.chroma >= 0;
                }
            }
        }
        if num_steps == 0 {
            return WeightedPalette { colors, total_weight: 1 };
        }
        let step = hue_step_u32(start.hue, end.hue, num_steps);
        let mut k: u64 = 1;
        while k <= num_steps as u64
            invariant
                1 <= k <= num_steps + 1,
                num_steps > 0,
                start.wf(),
                end.wf(),
                step == hue_step(start.hue as int, end.hue as int, num_steps as int),
                (step as int) * (num_steps as int) < HUE_TURN,
                colors@.len() == k,
                total_of(colors@) == k,
                forall|j: int| 0 <= j < colors@.len() ==> (#[trigger] colors@[j]).weight == 1,
                forall|j: int|
                    0 <= j < k ==> (#[trigger] colors@[j]).color == lch_stop(
                        start,
                        end,
                        j,
                        num_steps as int,
                    ),
            decreases num_steps + 1 - k,
        {
            let i = k as u32;
            let l = lerp_u32(start.l, end.l, i, num_steps);
            let chroma = lerp_u32(start.chroma, end.chroma, i, num_steps);
            let hue = hue_at_u32(start.hue, end.hue, i, num_steps, step);
            let ghost before = colors@;
            colors.push(WeightedColor { color: Lch { l, chroma, hue }, weight: 1 });
            proof {
                lemma_prefix_push(before, colors@.last(), before.len() as int);
            }
            k = k + 1;
        }
        WeightedPalette { colors, total_weight: num_steps as u64 + 1 }
    }

    /// The lightest color, the first of them on a tie; `None` where no
    /// color is lighter than zero.
    pub fn lightest_color(&self) -> (r: Option<Lch>)
        ensures
            r is None <==> forall|j: int| 0 <= j < self.entries().len() ==> self.entries()[j].color.l == 0,
            r is Some ==> exists|i: int| is_lightest(self.entries(), i) && r == Some(#[trigger] self.entries()[i].color),
    {
        let mut best: Option<Lch> = None;
        let mut best_l: u32 = 0;
        let ghost mut best_i: int = -1;
        let mut i: usize = 0;
        while i < self.colors.len()
            invariant
                0 <= i <= self.colors@.len(),
                self.colors@ == self.entries(),
                best is None ==> best_l == 0 && forall|j: int| 0 <= j < i ==> self.colors@[j].color.l == 0,
                best is Some ==> 0 <= best_i < i && best == Some(self.colors@[best_i].color) && best_l == self.colors@[best_i].color.l
                    && best_l > 0
                    && (forall|j: int| 0 <= j < i ==> self.colors@[j].color.l <= best_l)
                    && (forall|j: int| 0 <= j < best_i ==> self.colors@[j].color.l < best_l),
            decreases self.colors.len() - i,
        {
            let c = self.colors[i].color;
            if c.l > best_l {
                best_l = c.l;
                best = Some(c);
                proof {
                    best_i = i as int;
                }
            }
            i = i + 1;
        }
        proof {
            if best is Some {
                assert(is_lightest(self.entries(), best_i));
            }
        }
        best
    }

    /// The darkest color, the first of them on a tie; `None` where no color
    /// is darker than the limit.
    pub fn darkest_color(&self) -> (r: Option<Lch>)
        ensures
            r is None <==> forall|j: int| 0 <= j < self.entries().len() ==> self.entries()[j].color.l >= DARK_LIMIT,
            r is Some ==> exists|i: int| is_darkest(self.entries(), i) && r == Some(#[trigger] self.entries()[i].color),
    {
        let mut best: Option<Lch> = None;
        let mut best_l: u32 = DARK_LIMIT;
        let ghost mut best_i: int = -1;
        let mut i: usize = 0;
        while i < self.colors.len()
            invariant
                0 <= i <= self.colors@.len(),
                self.colors@ == self.entries(),
                best is None ==> best_l == DARK_LIMIT && forall|j: int| 0 <= j < i ==> self.colors@[j].color.l >= DARK_LIMIT,
                best is Some ==> 0 <= best_i < i && best == Some(self.colors@[best_i].color) && best_l == self.colors@[best_i].color.l
                    && best_l < DARK_LIMIT
                    && (forall|j: int| 0 <= j < i ==> self.colors@[j].color.l >= best_l)
                    && (forall|j: int| 0 <= j < best_i ==> self.colors@[j].color.l > best_l),
            decreases self.colors.len() - i,
        {
            let c = self.colors[i].color;
            if c.l < best_l {
                best_l = c.l;
                best = Some(c);
                proof {
                    best_i = i as int;
                }
            }
            i = i + 1;
        }
        proof {
            if best is Some {
                assert(is_darkest(self.entries(), best_i));
            }
        }
        best
    }
}

impl WeightedPalette<Hsv> {
    /// An evenly spaced Hsv gradient of `num_steps + 1` stops, each of weight
    /// one: saturation and value move in a straight line, hue turns by a
    /// constant step in the increasing direction.
    pub fn new_from_hsv_ramp(start: Hsv, end: Hsv, num_steps: u32) -> (r: WeightedPalette<Hsv>)
        requires
            start.wf(),
            end.wf(),
        ensures
            r.wf(),
            r.entries().len() == num_steps + 1,
            r.total() == num_steps + 1,
            forall|i: int|
                0 <= i <= num_steps ==> (#[trigger] r.entries()[i]).color == hsv_stop(
                    start,
                    end,
                    i,
                    num_steps as int,
                ) && r.entries()[i].weight == 1,
    {
        let mut colors: Vec<WeightedColor<Hsv>> = Vec::new();
        colors.push(WeightedColor { color: start, weight: 1 });
        proof {
            assert(prefix_weight(colors@, 0) == 0);
            assert(total_of(colors@) == 1);
            assert(hsv_stop(start, end, 0, num_steps as int) == start) by {
                assert(hue_at(start.hue as int, end.hue as int, 0, num_steps as int) == start.hue as int);
                if num_steps > 0 {
                    assert(lerp(start.saturation as int, end.saturation as int, 0, num_steps as int) == start.saturation as int) by (nonlinear_arith)
                        requires num_steps > 0, start.saturation >= 0;
                    assert(lerp(start.value as int, end.value as int, 0, num_steps as int) == start.value as int) by (nonlinear_arith)
                        requires num_steps > 0, start.value >= 0;
                }
            }
        }
        if num_steps == 0 {
            return WeightedPalette { colors, total_weight: 1 };
        }
        let step = hue_step_u32(start.hue, end.hue, num_steps);
        let mut k: u64 = 1;
        while k <= num_steps as u64
            invariant
                1 <= k <= num_steps + 1,
                num_steps > 0,
                start.wf(),
                end.wf(),
                step == hue_step(start.hue as int, end.hue as int, num_steps as int),
                (step as int) * (num_steps as int) < HUE_TURN,
                colors@.len() == k,
                total_of(colors@) == k,
                forall|j: int| 0 <= j < colors@.len() ==> (#[trigger] colors@[j]).weight == 1,
                forall|j: int|
                    0 <= j < k ==> (#[trigger] colors@[j]).color == hsv_stop(
                        start,
                        end,
                        j,
                        num_steps as int,
                    ),
            decreases num_steps + 1 - k,
        {
            let i = k as u32;
            let hue = hue_at_u32(start.hue, end.hue, i, num_steps, step);
            let saturation = lerp_u32(start.saturation, end.saturation, i, num_steps);
            let value = lerp_u32(start.value, end.value, i, num_steps);
            let ghost before = colors@;
            colors.push(WeightedColor { color: Hsv { hue, saturation, value }, weight: 1 });
            proof {
                lemma_prefix_push(before, colors@.last(), before.len() as int);
            }
            k = k + 1;
        }
        WeightedPalette { colors, total_weight: num_steps as u64 + 1 }
    }
}

/// Colors under names, picked uniformly at random.
pub struct NamedPalette<T> {
    names: Vec<String>,
    color_vec: Vec<T>,
}

impl<T: Copy> NamedPalette<T> {
    /// The names, in order of addition.
    pub closed spec fn names(&self) -> Seq<Seq<char>> {
        crate::params::text_views(self.names@)
    }

    /// The colors, in order of addition.
    pub closed spec fn colors(&self) -> Seq<T> {
        self.color_vec@
    }

    /// One name for each color.
    pub closed spec fn wf(&self) -> bool {
        self.names@.len() == self.color_vec@.len()
    }

    pub fn new() -> (r: NamedPalette<T>)
        ensures
            r.wf(),
            r.names().len() == 0,
            r.colors().len() == 0,
    {
        NamedPalette { names: Vec::new(), color_vec: Vec::new() }
    }

    /// Adds a color under a name.
    pub fn add(&mut self, name: String, color: T)
        requires
            old(self).wf(),
        ensures
            final(self).wf(),
            final(self).names() == old(self).names().push(name@),
            final(self).colors() == old(self).colors().push(color),
    {
        let ghost before = self.names@;
        self.names.push(name);
        self.color_vec.push(color);
        proof {
            assert(crate::params::text_views(self.names@) =~= crate::params::text_views(before).push(self.names@.last()@));
        }
    }

    /// The color under `name`, the first one added under it.
    pub fn get(&self, name: &str) -> (r: Option<T>)
        requires
            self.wf(),
        ensures
            r is None <==> !self.names().contains(name@),
            r is Some ==> exists|i: int|
                0 <= i < self.colors().len() && self.names()[i] == name@ && (forall|j: int| 0 <= j < i ==> self.names()[j] != name@)
                    && r == Some(#[trigger] self.colors()[i]),
    {
        let mut i: usize = 0;
        while i < self.names.len()
            invariant
                self.wf(),
                0 <= i <= self.names@.len(),
                forall|j: int| 0 <= j < i ==> self.names@[j]@ != name@,
            decreases self.names.len() - i,
        {
            if crate::params::str_eq(self.names[i].as_str(), name) {
                proof {
                    assert(self.names()[i as int] == name@);
                    assert(forall|j: int| 0 <= j < i ==> self.names()[j] == self.names@[j]@);
                    assert(self.colors()[i as int] == self.color_vec@[i as int]);
                }
                return Some(self.color_vec[i]);
            }
            i = i + 1;
        }
        proof {
            if self.names().contains(name@) {
                let k = choose|k: int| 0 <= k < self.names().len() && self.names()[k] == name@;
                assert(self.names@[k]@ == name@);
            }
        }
        None
    }

    /// A color picked uniformly at random; `None` for an empty palette.
    pub fn random_color(&self, random: &fastrand::Rng) -> (r: Option<T>)
        requires
            self.wf(),
        ensures
            r is None <==> self.colors().len() == 0,
            r is Some ==> self.colors().contains(r->0),
    {
        let n = self.color_vec.len();
        if n == 0 {
            return None;
        }
        let index = draw_below(random, n as u64) as usize;
        proof {
            assert(self.colors()[index as int] == self.color_vec@[index as int]);
        }
        Some(self.color_vec[index])
    }
}

/// Sampling is a function of the palette and of the drawn value: two
/// palettes with the same colors and weights give the same color for the
/// same value, so equally seeded draws give equal colors.
pub proof fn lemma_sampling_is_deterministic<T: Copy>(
    p: WeightedPalette<T>,
    q: WeightedPalette<T>,
    value: int,
)
    requires
        p.entries() == q.entries(),
        p.entries().len() > 0,
    ensures
        p.color_at_spec(value) == q.color_at_spec(value),
{
}

} // verus!
