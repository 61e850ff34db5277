use genart::colors::{lerp_u32, Hsv, Lch, TextColorPair};
use genart::palette::{NamedPalette, PaletteError, WeightedPalette};
use genart::palette_generator::{plan_palette, PalettePlan};
use genart::params::{JsonValue, RawDimensions};

fn weighted_123() -> WeightedPalette<u8> {
    let mut p = WeightedPalette::empty();
    p.add_color(1, 1000).unwrap();
    p.add_color(2, 2000).unwrap();
    p.add_color(3, 3000).unwrap();
    p
}

#[test]
fn sample_at_partitions_by_weight() {
    let p = weighted_123();
    assert_eq!(p.total_weight(), 6000);
    assert_eq!(p.color_at(0), Ok(1));
    assert_eq!(p.color_at(999), Ok(1));
    assert_eq!(p.color_at(1000), Ok(2));
    assert_eq!(p.color_at(2999), Ok(2));
    assert_eq!(p.color_at(3000), Ok(3));
    assert_eq!(p.color_at(5999), Ok(3));
    assert_eq!(p.color_at(6000), Ok(3));
    assert_eq!(p.color_at(u64::MAX), Ok(3));
}

#[test]
fn percent_addressing() {
    let p = weighted_123();
    assert_eq!(p.color_at_percent(0), Ok(1));
    assert_eq!(p.color_at_percent(16), Ok(1));
    assert_eq!(p.color_at_percent(17), Ok(2));
    assert_eq!(p.color_at_percent(50), Ok(3));
    assert_eq!(p.color_at_percent(100), Ok(3));
    assert_eq!(p.color_at_percent(250), Ok(3));
    assert_eq!(p.color_at_percent(u64::MAX), Ok(3));
}

#[test]
fn zero_weight_is_refused() {
    let mut p = weighted_123();
    assert_eq!(p.add_color(9, 0), Err(PaletteError::InvalidWeight));
    assert_eq!(p.len(), 3);
    assert_eq!(p.total_weight(), 6000);
}

#[test]
fn empty_palette_sampling_is_an_error() {
    let p: WeightedPalette<u8> = WeightedPalette::empty();
    assert_eq!(p.color_at(0), Err(PaletteError::EmptyPalette));
    assert_eq!(p.color_at_percent(50), Err(PaletteError::EmptyPalette));
    let rng = fastrand::Rng::with_seed(1);
    assert_eq!(p.random_color(&rng), Err(PaletteError::EmptyPalette));
    let one = WeightedPalette::new(vec![5u8]);
    assert_eq!(one.random_color(&rng), Ok(5));
}

#[test]
fn seeded_sampling_is_deterministic() {
    let p = weighted_123();
    let q = weighted_123();
    let a = fastrand::Rng::with_seed(42);
    let b = fastrand::Rng::with_seed(42);
    for _ in 0..50 {
        let x = p.random_color(&a).unwrap();
        let y = q.random_color(&b).unwrap();
        assert_eq!(x, y);
        assert!((1..=3).contains(&x));
    }
}

#[test]
fn new_gives_unit_weights() {
    let p = WeightedPalette::new(vec![7u8, 8, 9]);
    assert_eq!(p.total_weight(), 3);
    assert_eq!(p.all_colors(), vec![7, 8, 9]);
    assert_eq!(p.color_at(1), Ok(8));
}

#[test]
fn gradient_of_four_steps() {
    let start = Lch::new(20000, 10000, 300000);
    let end = Lch::new(60000, 50000, 60000);
    let p = WeightedPalette::new_from_ramp(start, end, 4);
    let colors = p.all_colors();
    assert_eq!(colors.len(), 5);
    assert_eq!(p.total_weight(), 5);
    let ls: Vec<u32> = colors.iter().map(|c| c.l).collect();
    let cs: Vec<u32> = colors.iter().map(|c| c.chroma).collect();
    let hs: Vec<u32> = colors.iter().map(|c| c.hue).collect();
    assert_eq!(ls, vec![20000, 30000, 40000, 50000, 60000]);
    assert_eq!(cs, vec![10000, 20000, 30000, 40000, 50000]);
    // From 300 degrees forwards to 60: a sweep of 120, in steps of 30.
    assert_eq!(hs, vec![300000, 330000, 0, 30000, 60000]);
}

#[test]
fn gradient_hue_never_goes_backwards() {
    let p = WeightedPalette::new_from_ramp(Lch::new(0, 0, 90000), Lch::new(0, 0, 80000), 2);
    let hs: Vec<u32> = p.all_colors().iter().map(|c| c.hue).collect();
    assert_eq!(hs, vec![90000, 265000, 80000]);
}

#[test]
fn lerp_rounds_down() {
    assert_eq!(lerp_u32(0, 10, 1, 3), 3);
    assert_eq!(lerp_u32(10, 0, 1, 3), 6);
}

#[test]
fn hsv_gradient() {
    let p = WeightedPalette::new_from_hsv_ramp(Hsv::new(0, 0, 1000), Hsv::new(180000, 1000, 0), 2);
    let c = p.all_colors();
    assert_eq!(c[1], Hsv::new(90000, 500, 500));
    assert_eq!(c[2], Hsv::new(180000, 1000, 0));
}

#[test]
fn stripes_share_the_width() {
    let p = weighted_123();
    assert_eq!(p.stripe_widths(600), vec![100, 200, 300]);
    let q = WeightedPalette::new(vec![1u8, 2, 3]);
    assert_eq!(q.stripe_widths(100), vec![33, 33, 33]);
    assert_eq!(q.stripe_widths(5), vec![2, 2, 2]);
}

fn lch_palette() -> WeightedPalette<Lch> {
    WeightedPalette::new(vec![
        Lch::new(50000, 500, 0),
        Lch::new(30000, 500, 0),
        Lch::new(70000, 500, 0),
        Lch::new(10000, 500, 0),
    ])
}

#[test]
fn test_get_lightest() {
    let palette = lch_palette();
    let lightest = palette.lightest_color();
    assert!(lightest.is_some());
    assert_eq!(lightest.unwrap(), palette.all_colors()[2]);
}

#[test]
fn test_get_darkest() {
    let palette = lch_palette();
    let darkest = palette.darkest_color();
    assert!(darkest.is_some());
    assert_eq!(darkest.unwrap(), palette.all_colors()[3]);
}

#[test]
fn lightest_and_darkest_of_extremes() {
    let p = WeightedPalette::new(vec![Lch::new(0, 0, 0), Lch::new(100000, 0, 0)]);
    assert_eq!(p.lightest_color(), Some(Lch::new(100000, 0, 0)));
    assert_eq!(p.darkest_color(), Some(Lch::new(0, 0, 0)));
    let dark = WeightedPalette::new(vec![Lch::new(0, 0, 0)]);
    assert_eq!(dark.lightest_color(), None);
    let light = WeightedPalette::new(vec![Lch::new(100000, 0, 0)]);
    assert_eq!(light.darkest_color(), None);
}

#[test]
fn text_pair_orders_by_lightness() {
    let a = Lch::new(90000, 0, 0);
    let b = Lch::new(10000, 0, 0);
    let pair = TextColorPair::new(b, a);
    assert_eq!(pair.light, a);
    assert_eq!(pair.dark, b);
    let tie = TextColorPair::new(a, a);
    assert_eq!(tie.light, a);
}

#[test]
fn named_palette_lookup_and_pick() {
    let mut p = NamedPalette::new();
    p.add(String::from("red"), 1u8);
    p.add(String::from("blue"), 2u8);
    assert_eq!(p.get("blue"), Some(2));
    assert_eq!(p.get("green"), None);
    let rng = fastrand::Rng::with_seed(3);
    let c = p.random_color(&rng).unwrap();
    assert!(c == 1 || c == 2);
    let empty: NamedPalette<u8> = NamedPalette::new();
    assert_eq!(empty.random_color(&rng), None);
}

#[test]
fn palette_generator_plans() {
    let mut raw = RawDimensions::new();
    raw.insert(String::from("numColors"), JsonValue::Integer(4));
    match plan_palette(&raw) {
        PalettePlan::Lch(p) => assert_eq!(p.len(), 5),
        PalettePlan::Hsv(_) => panic!("lch is the default"),
    }
    let mut raw = RawDimensions::new();
    raw.insert(String::from("paletteType"), JsonValue::Text(String::from("hsv")));
    match plan_palette(&raw) {
        PalettePlan::Hsv(p) => assert_eq!(p.len(), 6),
        PalettePlan::Lch(_) => panic!("hsv was asked for"),
    }
}

#[test]
fn random_draws_reach_every_color() {
    let p = weighted_123();
    let rng = fastrand::Rng::with_seed(9);
    let mut seen = [0usize; 4];
    for _ in 0..600 {
        seen[p.random_color(&rng).unwrap() as usize] += 1;
    }
    assert!(seen[1] > 0 && seen[2] > 0 && seen[3] > 0);
    assert!(seen[3] > seen[1]);
}
