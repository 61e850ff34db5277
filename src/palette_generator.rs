//! A generator that draws a gradient palette as vertical stripes.

use vstd::prelude::*;
use crate::catalog::{DimensionView, GeneratorDimensionInfo, GeneratorInfo, GeneratorView, dimension_views};
use crate::colors::{Hsv, Lch, hsv_stop, lch_stop};
use crate::params::{DataInfo, DataInfoView, IntegerInput, OptionsInput, RawDimensions, lookup, str_eq, text_views};
use crate::palette::WeightedPalette;

verus! {

/// The number of gradient steps: from 3 to 30, 5 by default.
pub fn num_colors_input() -> (r: IntegerInput)
    ensures
        r.wf(),
        r.min == 3 && r.max == 30 && r.default == 5,
{
    IntegerInput::new(3, 30, 5)
}

/// The color space of the gradient: "lch" (the default) or "hsv".
pub fn palette_type_input() -> (r: OptionsInput)
    ensures
        r.wf(),
        text_views(r.options@) == seq!["lch"@, "hsv"@],
        r.default@ == "lch"@,
{
    let r = OptionsInput { options: vec!["lch".to_owned(), "hsv".to_owned()], default: "lch".to_owned() };
    proof {
        assert(text_views(r.options@) =~= seq!["lch"@, "hsv"@]);
        assert(text_views(r.options@)[0] == r.default@);
    }
    r
}

/// The descriptor that `get_generator` returns.
pub open spec fn palette_generator_view() -> GeneratorView {
    GeneratorView {
        name: "palette"@,
        description: "this is just for testing"@,
        author: "Sam Vasta"@,
        created_at: "Dec 2021"@,
        dimensions: seq![
            DimensionView {
                name: "numColors"@,
                description: "blah"@,
                data_info: DataInfoView::Integer(3, 30, 5),
            },
            DimensionView {
                name: "paletteType"@,
                description: "blah"@,
                data_info: DataInfoView::Options(seq!["lch"@, "hsv"@], "lch"@),
            },
        ],
    }
}

pub fn get_generator() -> (r: GeneratorInfo)
    ensures
        r@ == palette_generator_view(),
{
    let dimensions = vec![
        GeneratorDimensionInfo {
            name: "numColors",
            description: "blah",
            data_info: DataInfo::Integer(num_colors_input()),
        },
        GeneratorDimensionInfo {
            name: "paletteType",
            description: "blah",
            data_info: DataInfo::Options(palette_type_input()),
        },
    ];
    let r = GeneratorInfo {
        name: "palette",
        description: "this is just for testing",
        author: "Sam Vasta",
        created_at: "Dec 2021",
        dimensions,
    };
    proof {
        assert(dimension_views(r.dimensions@) =~= palette_generator_view().dimensions);
    }
    r
}

/// The Lch gradient's ends: lightness 80, chroma 100, hue 0 at both ends.
/// The end is given as 360 degrees, which is one full turn from the start,
/// so the forward hue sweep is empty and every stop has hue 0.
pub open spec fn lch_ends() -> (Lch, Lch) {
    (Lch { l: 80000, chroma: 100000, hue: 0 }, Lch { l: 80000, chroma: 100000, hue: 0 })
}

/// The Hsv gradient's ends: full saturation, half value, hue 0 at both ends.
/// The end is given as 360 degrees, one full turn from the start, so the
/// forward hue sweep is empty and every stop has hue 0.
pub open spec fn hsv_ends() -> (Hsv, Hsv) {
    (Hsv { hue: 0, saturation: 1000, value: 500 }, Hsv { hue: 0, saturation: 1000, value: 500 })
}

/// The gradient that the palette generator draws.
pub enum PalettePlan {
    Lch(WeightedPalette<Lch>),
    Hsv(WeightedPalette<Hsv>),
}

/// The number of steps that a request asks for.
pub open spec fn requested_steps(raw: Seq<(String, crate::params::JsonValue)>) -> i64 {
    match lookup(raw, "numColors"@) {
        Some(v) => IntegerInput { min: 3, max: 30, default: 5 }.resolve_spec(v),
        None => 5,
    }
}

/// Whether a request asks for an Lch gradient rather than an Hsv one.
pub open spec fn requests_lch(raw: Seq<(String, crate::params::JsonValue)>) -> bool {
    match lookup(raw, "paletteType"@) {
        Some(crate::params::JsonValue::Text(s)) => !(s@ == "hsv"@),
        _ => true,
    }
}

/// Resolves the request's parameters and builds the gradient to draw.
pub fn plan_palette(raw: &RawDimensions) -> (r: PalettePlan)
    ensures
        3 <= requested_steps(raw.entries@) <= 30,
        requests_lch(raw.entries@) ==> r is Lch,
        !requests_lch(raw.entries@) ==> r is Hsv,
        match r {
            PalettePlan::Lch(p) => p.wf() && p.entries().len() == requested_steps(raw.entries@) + 1
                && forall|i: int|
                0 <= i <= requested_steps(raw.entries@) ==> (#[trigger] p.entries()[i]).color
                    == lch_stop(lch_ends().0, lch_ends().1, i, requested_steps(raw.entries@) as int)
                    && p.entries()[i].weight == 1,
            PalettePlan::Hsv(p) => p.wf() && p.entries().len() == requested_steps(raw.entries@) + 1
                && forall|i: int|
                0 <= i <= requested_steps(raw.entries@) ==> (#[trigger] p.entries()[i]).color
                    == hsv_stop(hsv_ends().0, hsv_ends().1, i, requested_steps(raw.entries@) as int)
                    && p.entries()[i].weight == 1,
        },
{
    let num_colors = num_colors_input().from_dimensions("numColors", raw);
    let palette_type = palette_type_input().from_dimensions("paletteType", raw);
    proof {
        reveal_strlit("lch");
        reveal_strlit("hsv");
        assert("lch"@[0] != "hsv"@[0]);
        assert(num_colors == requested_steps(raw.entries@));
    }
    if str_eq(palette_type.as_str(), "lch") {
        PalettePlan::Lch(
            WeightedPalette::new_from_ramp(
                Lch::new(80000, 100000, 0),
                Lch::new(80000, 100000, 360000),
                num_colors as u32,
            ),
        )
    } else {
        PalettePlan::Hsv(
            WeightedPalette::new_from_hsv_ramp(
                Hsv::new(0, 1000, 500),
                Hsv::new(360000, 1000, 500),
                num_colors as u32,
            ),
        )
    }
}

} // verus!
