//! A minimal generator used to check the service end to end.

use vstd::prelude::*;
use crate::catalog::{DimensionView, GeneratorDimensionInfo, GeneratorInfo, GeneratorView, dimension_views};
use crate::params::{DataInfo, DataInfoView, IntegerInput};

verus! {

/// The descriptor that `get_generator` returns.
pub open spec fn test_generator_view() -> GeneratorView {
    GeneratorView {
        name: "test_generator"@,
        description: "this is just for testing"@,
        author: "Sam Vasta"@,
        created_at: "Dec 2021"@,
        dimensions: seq![
            DimensionView {
                name: "num_items"@,
                description: "blah"@,
                data_info: DataInfoView::Integer(0, 20, 15),
            },
        ],
    }
}

/// The number of items to draw: from 0 to 20, 15 by default.
pub fn num_items_input() -> (r: IntegerInput)
    ensures
        r.wf(),
        r.min == 0 && r.max == 20 && r.default == 15,
{
    IntegerInput::new(0, 20, 15)
}

pub fn get_generator() -> (r: GeneratorInfo)
    ensures
        r@ == test_generator_view(),
{
    let dimensions = vec![
        GeneratorDimensionInfo {
            name: "num_items",
            description: "blah",
            data_info: DataInfo::Integer(num_items_input()),
        },
    ];
    let r = GeneratorInfo {
        name: "test_generator",
        description: "this is just for testing",
        author: "Sam Vasta",
        created_at: "Dec 2021",
        dimensions,
    };
    proof {
        assert(dimension_views(r.dimensions@) =~= test_generator_view().dimensions);
    }
    r
}

} // verus!
