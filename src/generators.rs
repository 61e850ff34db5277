//! The service's catalog of generators, and the request values that select one.

use vstd::prelude::*;
use crate::catalog::{
    GeneratorGroup, GeneratorGroupBuilder, GeneratorMap, built_from, flat, flat_prefix,
    generator_views, map_of, to_map,
};
use crate::palette_generator::palette_generator_view;
use crate::test_generator::test_generator_view;

verus! {

/// The group of generators that show the utility code at work.
pub fn build_generators() -> (r: GeneratorGroupBuilder)
    ensures
        r.name@ == "util_generators"@,
        generator_views(r.generators@) == seq![palette_generator_view()],
        r.sub_groups@.len() == 0,
{
    let r = GeneratorGroupBuilder::new("util_generators").add_generator(
        crate::palette_generator::get_generator(),
    );
    proof {
        assert(generator_views(r.generators@) =~= seq![palette_generator_view()]);
    }
    r
}

/// Every generator of the service, as a tree of groups.
pub fn generator_list() -> (r: GeneratorGroup)
    ensures
        r.group_name@ == ""@,
        generator_views(r.generators@) == seq![test_generator_view()],
        r.sub_groups@.len() == 1,
        r.sub_groups@[0].group_name@ == "util_generators"@,
        generator_views(r.sub_groups@[0].generators@) == seq![palette_generator_view()],
        r.sub_groups@[0].sub_groups@.len() == 0,
        flat(r) == seq![test_generator_view(), palette_generator_view()],
{
    let util = build_generators();
    let b = GeneratorGroupBuilder::new("").add_generator(
        crate::test_generator::get_generator(),
    ).add_sub_group(util);
    let r = b.finish();
    proof {
        assert(generator_views(b.generators@) =~= seq![test_generator_view()]);
        assert(b.sub_groups@[0] == util);
        let sub = r.sub_groups@[0];
        assert(built_from(sub, util));
        assert(flat(sub) == flat_prefix(sub, 0));
        assert(flat(r) == flat_prefix(r, 1));
        assert(flat_prefix(r, 1) == flat_prefix(r, 0) + flat(sub));
        assert(flat(r) =~= seq![test_generator_view(), palette_generator_view()]);
    }
    r
}

/// Every generator of the service, indexed by name.
pub fn generator_map() -> (r: GeneratorMap)
    ensures
        r.wf(),
        r@ == map_of(seq![test_generator_view(), palette_generator_view()]),
{
    let list = generator_list().flatten();
    to_map(list)
}

/// Relies on `fastrand::u64(..)`: a value drawn from the thread's generator.
#[verifier::external_body]
fn random_seed() -> (r: u64) {
    fastrand::u64(..)
}

/// The size and the generator that a request names in its path.
pub struct GenerateOnePathParams {
    pub width: i32,
    pub height: i32,
    pub generator_type: String,
}

/// The optional settings of a request.
pub struct GenerateOneQueryParams {
    pub seed: Option<u64>,
}

/// A request's settings with every value filled in.
pub struct CompleteGenerateOneQueryParams {
    pub seed: u64,
}

/// Fills in the settings that a request left out: a missing seed is drawn
/// at random.
pub fn complete_query_params(raw_params: GenerateOneQueryParams) -> (r: CompleteGenerateOneQueryParams)
    ensures
        raw_params.seed is Some ==> r.seed == raw_params.seed->0,
{
    let realized_seed = match raw_params.seed {
        Some(s) => s,
        None => random_seed(),
    };
    CompleteGenerateOneQueryParams { seed: realized_seed }
}

/// A generation request as a whole.
pub struct GenerationRequest {
    pub generator_type: String,
    pub seed: Option<u64>,
    pub width: u32,
    pub height: u32,
    pub dimension_values: Vec<(String, String)>,
}

} // verus!
