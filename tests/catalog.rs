use genart::catalog::{
    to_map, GeneratorDimensionInfo, GeneratorGroupBuilder, GeneratorInfo,
};
use genart::generators::{complete_query_params, generator_list, generator_map, GenerateOneQueryParams};
use genart::params::{DataInfo, IntegerInput, JsonValue, RawDimensions, ResolvedValue};

fn named(name: &'static str, description: &'static str) -> GeneratorInfo {
    GeneratorInfo {
        name,
        description,
        author: "a",
        created_at: "now",
        dimensions: vec![GeneratorDimensionInfo {
            name: "n",
            description: "d",
            data_info: DataInfo::Integer(IntegerInput::new(0, 9, 4)),
        }],
    }
}

fn names(list: &[GeneratorInfo]) -> Vec<&'static str> {
    list.iter().map(|g| g.name).collect()
}

#[test]
fn flatten_is_depth_first_in_declaration_order() {
    let inner = GeneratorGroupBuilder::new("inner").add_generator(named("c", ""));
    let left = GeneratorGroupBuilder::new("left")
        .add_generator(named("b", ""))
        .add_sub_group(inner);
    let right = GeneratorGroupBuilder::new("right").add_generator(named("d", ""));
    let root = GeneratorGroupBuilder::new("")
        .add_sub_group(left)
        .add_generator(named("a", ""))
        .add_sub_group(right)
        .finish();
    assert_eq!(names(&root.flatten()), vec!["a", "b", "c", "d"]);
    assert_eq!(root.get_name(), "");
    assert_eq!(root.get_sub_groups().len(), 2);
    assert_eq!(root.get_sub_groups()[0].get_name(), "left");
    assert_eq!(names(root.get_generators()), vec!["a"]);
}

#[test]
fn flatten_of_empty_group_is_empty() {
    let root = GeneratorGroupBuilder::new("empty").finish();
    assert!(root.flatten().is_empty());
}

#[test]
fn later_generator_wins_on_shared_name() {
    let map = to_map(vec![named("x", "first"), named("y", ""), named("x", "second")]);
    assert_eq!(map.get("x").unwrap().description, "second");
    assert_eq!(map.get("y").unwrap().name, "y");
    assert!(map.get("z").is_none());
    assert!(map.find("z").is_err());
}

#[test]
fn catalog_lists_both_generators() {
    let list = generator_list().flatten();
    assert_eq!(names(&list), vec!["test_generator", "palette"]);
    let map = generator_map();
    assert_eq!(map.find("palette").unwrap().dimensions.len(), 2);
    assert_eq!(map.find("test_generator").unwrap().dimensions[0].name, "num_items");
    assert!(map.find("nope").is_err());
}

#[test]
fn catalog_tree_shape() {
    let root = generator_list();
    assert_eq!(root.get_name(), "");
    assert_eq!(names(root.get_generators()), vec!["test_generator"]);
    assert_eq!(root.get_sub_groups().len(), 1);
    let util = &root.get_sub_groups()[0];
    assert_eq!(util.get_name(), "util_generators");
    assert_eq!(names(util.get_generators()), vec!["palette"]);
    assert!(util.get_sub_groups().is_empty());
}

#[test]
fn resolve_all_in_order() {
    let map = generator_map();
    let g = map.get("palette").unwrap();
    let mut raw = RawDimensions::new();
    raw.insert(String::from("numColors"), JsonValue::Integer(31));
    raw.insert(String::from("paletteType"), JsonValue::Text(String::from("hsv")));
    let resolved = g.resolve_all(&raw);
    assert_eq!(resolved.len(), 2);
    assert_eq!(resolved[0].0, "numColors");
    assert!(matches!(resolved[0].1, ResolvedValue::Integer(5)));
    assert_eq!(resolved[1].0, "paletteType");
    match &resolved[1].1 {
        ResolvedValue::Text(t) => assert_eq!(t, "hsv"),
        _ => panic!("wrong kind"),
    }
}

#[test]
fn given_seed_is_kept() {
    assert_eq!(complete_query_params(GenerateOneQueryParams { seed: Some(77) }).seed, 77);
    let _ = complete_query_params(GenerateOneQueryParams { seed: None }).seed;
}
