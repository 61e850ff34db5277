//! Generator descriptors and the catalog: a tree of named groups that
//! flattens into an ordered list and indexes into a lookup table by name.

use vstd::prelude::*;
use crate::params::{DataInfo, DataInfoView, JsonValue, RawDimensions, ResolvedValue, ResolvedView, lookup};

verus! {

broadcast use vstd::std_specs::vec::group_vec_axioms;

/// A mathematical picture of a `GeneratorDimensionInfo`.
pub struct DimensionView {
    pub name: Seq<char>,
    pub description: Seq<char>,
    pub data_info: DataInfoView,
}

/// One named, typed parameter of a generator.
pub struct GeneratorDimensionInfo {
    pub name: &'static str,
    pub description: &'static str,
    pub data_info: DataInfo,
}

impl View for GeneratorDimensionInfo {
    type V = DimensionView;

    open spec fn view(&self) -> DimensionView {
        DimensionView {
            name: self.name@,
            description: self.description@,
            data_info: self.data_info@,
        }
    }
}

impl Clone for GeneratorDimensionInfo {
    fn clone(&self) -> (r: Self)
        ensures
            r@ == self@,
    {
        GeneratorDimensionInfo {
            name: self.name,
            description: self.description,
            data_info: self.data_info.clone(),
        }
    }
}

impl GeneratorDimensionInfo {
    /// Resolves this dimension's value out of a request's raw parameters:
    /// the value given under its name, or the default where none is given.
    pub fn from_dimensions(&self, raw: &RawDimensions) -> (r: ResolvedValue)
        ensures
            r@ == self.data_info.resolve_spec(lookup(raw.entries@, self.name@)),
    {
        self.data_info.resolve(raw.get(self.name))
    }
}

pub open spec fn dimension_views(d: Seq<GeneratorDimensionInfo>) -> Seq<DimensionView> {
    d.map_values(|x: GeneratorDimensionInfo| x@)
}

/// A mathematical picture of a `GeneratorInfo`.
pub struct GeneratorView {
    pub name: Seq<char>,
    pub description: Seq<char>,
    pub author: Seq<char>,
    pub created_at: Seq<char>,
    pub dimensions: Seq<DimensionView>,
}

/// A generator's metadata and its ordered dimensions. The drawing routine is
/// looked up by `name` on the rendering side.
pub struct GeneratorInfo {
    pub name: &'static str,
    pub description: &'static str,
    pub author: &'static str,
    pub created_at: &'static str,
    pub dimensions: Vec<GeneratorDimensionInfo>,
}

impl View for GeneratorInfo {
    type V = GeneratorView;

    open spec fn view(&self) -> GeneratorView {
        GeneratorView {
            name: self.name@,
            description: self.description@,
            author: self.author@,
            created_at: self.created_at@,
            dimensions: dimension_views(self.dimensions@),
        }
    }
}

impl Clone for GeneratorInfo {
    fn clone(&self) -> (r: Self)
        ensures
            r@ == self@,
    {
        let dimensions = self.dimensions.clone();
        proof {
            assert forall|i: int| 0 <= i < dimensions@.len() implies dimensions@[i]@
                == self.dimensions@[i]@ by {
                assert(cloned(self.dimensions[i], dimensions[i]));
            }
            assert(dimension_views(dimensions@) =~= dimension_views(self.dimensions@));
        }
        GeneratorInfo {
            name: self.name,
            description: self.description,
            author: self.author,
            created_at: self.created_at,
            dimensions,
        }
    }
}

/// The name and resolved value of each dimension in `dims`, in order.
pub open spec fn resolved_all(dims: Seq<GeneratorDimensionInfo>, raw: Seq<(String, JsonValue)>) -> Seq<
    (Seq<char>, ResolvedView),
> {
    dims.map_values(
        |d: GeneratorDimensionInfo| (d.name@, d.data_info.resolve_spec(lookup(raw, d.name@))),
    )
}

impl GeneratorInfo {
    /// Resolves every dimension of this generator out of a request's raw
    /// parameters, in declaration order.
    pub fn resolve_all(&self, raw: &RawDimensions) -> (r: Vec<(&'static str, ResolvedValue)>)
        ensures
            r@.map_values(|p: (&'static str, ResolvedValue)| (p.0@, p.1@)) == resolved_all(self.dimensions@, raw.entries@),
    {
        let mut out: Vec<(&'static str, ResolvedValue)> = Vec::new();
        let mut i: usize = 0;
        while i < self.dimensions.len()
            invariant
                0 <= i <= self.dimensions.len(),
                out@.len() == i,
                forall|j: int| 0 <= j < i ==> (#[trigger] out@[j]).0@ == self.dimensions@[j].name@
                    && out@[j].1@ == self.dimensions@[j].data_info.resolve_spec(
                    lookup(raw.entries@, self.dimensions@[j].name@),
                ),
            decreases self.dimensions.len() - i,
        {
            let d = &self.dimensions[i];
            out.push((d.name, d.from_dimensions(raw)));
            i = i + 1;
        }
        proof {
            assert(out@.map_values(|p: (&'static str, ResolvedValue)| (p.0@, p.1@)) =~= resolved_all(self.dimensions@, raw.entries@));
        }
        out
    }
}

pub open spec fn generator_views(g: Seq<GeneratorInfo>) -> Seq<GeneratorView> {
    g.map_values(|x: GeneratorInfo| x@)
}

/// A named group of generators and of sub-groups.
pub struct GeneratorGroup {
    pub group_name: &'static str,
    pub generators: Vec<GeneratorInfo>,
    pub sub_groups: Vec<GeneratorGroup>,
}

/// Every generator of `g`, depth first: its own generators, then those of
/// each sub-group in order.
pub open spec fn flat(g: GeneratorGroup) -> Seq<GeneratorView>
    decreases g, g.sub_groups@.len() + 1,
{
    flat_prefix(g, g.sub_groups@.len() as int)
}

/// The own generators of `g`, then those of its first `k` sub-groups.
pub open spec fn flat_prefix(g: GeneratorGroup, k: int) -> Seq<GeneratorView>
    decreases g, k,
{
    if 0 < k <= g.sub_groups@.len() {
        flat_prefix(g, k - 1) + flat(g.sub_groups@[k - 1])
    } else {
        generator_views(g.generators@)
    }
}

impl GeneratorGroup {
    pub fn get_name(&self) -> (r: &'static str)
        ensures
            r == self.group_name,
    {
        self.group_name
    }

    pub fn get_generators(&self) -> (r: &Vec<GeneratorInfo>)
        ensures
            r == &self.generators,
    {
        &self.generators
    }

    pub fn get_sub_groups(&self) -> (r: &Vec<GeneratorGroup>)
        ensures
            r == &self.sub_groups,
    {
        &self.sub_groups
    }

    /// Flattens all generators of the group and of its sub-groups into one list.
    pub fn flatten(&self) -> (r: Vec<GeneratorInfo>)
        ensures
            generator_views(r@) == flat(*self),
        decreases self,
    {
        let mut list: Vec<GeneratorInfo> = Vec::new();
        let mut i: usize = 0;
        while i < self.generators.len()
            invariant
                0 <= i <= self.generators.len(),
                list@.len() == i,
                forall|j: int| 0 <= j < i ==> (#[trigger] list@[j])@ == self.generators@[j]@,
            decreases self.generators.len() - i,
        {
            let g = self.generators[i].clone();
            list.push(g);
            i = i + 1;
        }
        proof {
            assert(generator_views(list@) =~= generator_views(self.generators@));
        }
        let mut k: usize = 0;
        while k < self.sub_groups.len()
            invariant
                0 <= k <= self.sub_groups.len(),
                generator_views(list@) == flat_prefix(*self, k as int),
            decreases self.sub_groups.len() - k,
        {
            let mut sub = self.sub_groups[k].flatten();
            let ghost before = list@;
            list.append(&mut sub);
            proof {
                assert(generator_views(list@) =~= generator_views(before) + flat(self.sub_groups@[k as int]));
            }
            k = k + 1;
        }
        list
    }
}

/// Flattening a group gives its own generators followed, in declaration
/// order, by the flattening of each of its sub-groups; a group with neither
/// generators nor sub-groups flattens to nothing.
pub proof fn lemma_flatten_is_concatenation(g: GeneratorGroup)
    ensures
        flat(g) == generator_views(g.generators@) + g.sub_groups@.map_values(
            |s: GeneratorGroup| flat(s),
        ).flatten(),
        g.generators@.len() == 0 && g.sub_groups@.len() == 0 ==> flat(g) == Seq::<
            GeneratorView,
        >::empty(),
{
    lemma_flat_prefix(g, g.sub_groups@.len() as int);
    assert(g.sub_groups@.take(g.sub_groups@.len() as int) =~= g.sub_groups@);
    if g.generators@.len() == 0 && g.sub_groups@.len() == 0 {
        assert(flat(g) =~= Seq::<GeneratorView>::empty());
    }
}

proof fn lemma_flat_prefix(g: GeneratorGroup, k: int)
    requires
        0 <= k <= g.sub_groups@.len(),
    ensures
        flat_prefix(g, k) == generator_views(g.generators@) + g.sub_groups@.take(k).map_values(
            |s: GeneratorGroup| flat(s),
        ).flatten(),
    decreases k,
{
    let parts = g.sub_groups@.take(k).map_values(|s: GeneratorGroup| flat(s));
    if k == 0 {
        assert(parts =~= Seq::<Seq<GeneratorView>>::empty());
        assert(flat_prefix(g, k) =~= generator_views(g.generators@) + parts.flatten());
    } else {
        lemma_flat_prefix(g, k - 1);
        let before = g.sub_groups@.take(k - 1).map_values(|s: GeneratorGroup| flat(s));
        assert(parts.drop_last() =~= before);
        parts.lemma_flatten_and_flatten_alt_are_equivalent();
        before.lemma_flatten_and_flatten_alt_are_equivalent();
        assert(parts.flatten() == before.flatten() + flat(g.sub_groups@[k - 1]));
        assert(flat_prefix(g, k) =~= generator_views(g.generators@) + parts.flatten());
    }
}

/// A group under construction: generators and sub-group builders are
/// appended in order, then `finish` freezes the tree.
pub struct GeneratorGroupBuilder {
    pub name: &'static str,
    pub generators: Vec<GeneratorInfo>,
    pub sub_groups: Vec<GeneratorGroupBuilder>,
}

/// `g` is what finishing `b` gives: the same name and generators at every
/// level, and one finished sub-group for each sub-group builder, in order.
pub open spec fn built_from(g: GeneratorGroup, b: GeneratorGroupBuilder) -> bool
    decreases b,
{
    &&& g.group_name@ == b.name@
    &&& generator_views(g.generators@) == generator_views(b.generators@)
    &&& g.sub_groups@.len() == b.sub_groups@.len()
    &&& forall|i: int|
        0 <= i < b.sub_groups@.len() ==> built_from(g.sub_groups@[i], #[trigger] b.sub_groups@[i])
}

/// Clones a list of generators, keeping each one's view.
fn clone_generators(v: &Vec<GeneratorInfo>) -> (r: Vec<GeneratorInfo>)
    ensures
        generator_views(r@) == generator_views(v@),
{
    let mut out: Vec<GeneratorInfo> = Vec::new();
    let mut i: usize = 0;
    while i < v.len()
        invariant
            0 <= i <= v.len(),
            out@.len() == i,
            forall|j: int| 0 <= j < i ==> (#[trigger] out@[j])@ == v@[j]@,
        decreases v.len() - i,
    {
        out.push(v[i].clone());
        i = i + 1;
    }
    proof {
        assert(generator_views(out@) =~= generator_views(v@));
    }
    out
}

impl GeneratorGroupBuilder {
    pub fn new(name: &'static str) -> (r: GeneratorGroupBuilder)
        ensures
            r.name == name,
            r.generators@.len() == 0,
            r.sub_groups@.len() == 0,
    {
        GeneratorGroupBuilder { name: name, generators: Vec::new(), sub_groups: Vec::new() }
    }

    /// Appends a sub-group.
    pub fn add_sub_group(self, sub_group: GeneratorGroupBuilder) -> (r: Self)
        ensures
            r.name == self.name,
            r.generators@ == self.generators@,
            r.sub_groups@ == self.sub_groups@.push(sub_group),
    {
        let mut b = self;
        b.sub_groups.push(sub_group);
        b
    }

    /// Appends a generator.
    pub fn add_generator(self, generator: GeneratorInfo) -> (r: Self)
        ensures
            r.name == self.name,
            r.generators@ == self.generators@.push(generator),
            r.sub_groups@ == self.sub_groups@,
    {
        let mut b = self;
        b.generators.push(generator);
        b
    }

    /// Freezes the tree, recursively.
    pub fn finish(&self) -> (r: GeneratorGroup)
        ensures
            built_from(r, *self),
        decreases self,
    {
        let mut sub_groups: Vec<GeneratorGroup> = Vec::new();
        let mut i: usize = 0;
        while i < self.sub_groups.len()
            invariant
                0 <= i <= self.sub_groups.len(),
                sub_groups@.len() == i,
                forall|j: int|
                    0 <= j < i ==> built_from(#[trigger] sub_groups@[j], self.sub_groups@[j]),
            decreases self.sub_groups.len() - i,
        {
            sub_groups.push(self.sub_groups[i].finish());
            i = i + 1;
        }
        GeneratorGroup {
            group_name: self.name,
            generators: clone_generators(&self.generators),
            sub_groups,
        }
    }
}

/// Why a request could not be served: no generator has the requested name.
#[derive(Clone, Copy, PartialEq, Eq, Structural, Debug)]
pub struct GeneratorError;

/// The table that a list of generators gives when each one is entered under
/// its name in turn: a later entry replaces an earlier one of the same name.
pub open spec fn map_of(s: Seq<GeneratorView>) -> Map<Seq<char>, GeneratorView>
    decreases s.len(),
{
    if s.len() == 0 {
        Map::empty()
    } else {
        map_of(s.drop_last()).insert(s.last().name, s.last())
    }
}

/// No two entries share a name.
pub open spec fn names_unique(s: Seq<GeneratorView>) -> bool {
    forall|i: int, j: int| 0 <= i < j < s.len() ==> s[i].name != s[j].name
}

/// A name is in the table exactly when some entry has it.
pub proof fn lemma_map_of_domain(s: Seq<GeneratorView>, k: Seq<char>)
    ensures
        map_of(s).contains_key(k) <==> exists|i: int| 0 <= i < s.len() && s[i].name == k,
    decreases s.len(),
{
    if s.len() > 0 {
        lemma_map_of_domain(s.drop_last(), k);
        if map_of(s.drop_last()).contains_key(k) {
            let i = choose|i: int| 0 <= i < s.drop_last().len() && s.drop_last()[i].name == k;
            assert(s[i].name == k);
        }
        if exists|i: int| 0 <= i < s.len() && s[i].name == k {
            let i = choose|i: int| 0 <= i < s.len() && s[i].name == k;
            if i < s.len() - 1 {
                assert(s.drop_last()[i].name == k);
            }
        }
    }
}

/// The entry that a name maps to is the last one that has it.
pub proof fn lemma_later_entry_wins(s: Seq<GeneratorView>, i: int)
    requires
        0 <= i < s.len(),
        forall|j: int| i < j < s.len() ==> s[j].name != s[i].name,
    ensures
        map_of(s).contains_key(s[i].name),
        map_of(s)[s[i].name] == s[i],
    decreases s.len(),
{
    if i < s.len() - 1 {
        lemma_later_entry_wins(s.drop_last(), i);
    }
}

/// Two generators that share a name leave one entry: the later one.
pub proof fn lemma_shared_name_keeps_later(a: GeneratorView, b: GeneratorView)
    requires
        a.name == b.name,
    ensures
        map_of(seq![a, b]) == Map::<Seq<char>, GeneratorView>::empty().insert(b.name, b),
        map_of(seq![a, b]).dom() == set![b.name],
{
    let s = seq![a, b];
    assert(s.drop_last() =~= seq![a]);
    assert(seq![a].drop_last() =~= Seq::<GeneratorView>::empty());
    assert(map_of(seq![a]) == map_of(Seq::<GeneratorView>::empty()).insert(a.name, a));
    assert(map_of(s) == map_of(seq![a]).insert(b.name, b));
    assert(map_of(s) =~= Map::<Seq<char>, GeneratorView>::empty().insert(b.name, b));
    assert(map_of(s).dom() =~= set![b.name]);
}

proof fn lemma_map_of_update(s: Seq<GeneratorView>, j: int, x: GeneratorView)
    requires
        names_unique(s),
        0 <= j < s.len(),
        s[j].name == x.name,
    ensures
        map_of(s.update(j, x)) == map_of(s).insert(x.name, x),
    decreases s.len(),
{
    let t = s.update(j, x);
    if j == s.len() - 1 {
        assert(t.drop_last() =~= s.drop_last());
        assert(map_of(t) =~= map_of(s).insert(x.name, x));
    } else {
        assert(t.drop_last() =~= s.drop_last().update(j, x));
        lemma_map_of_update(s.drop_last(), j, x);
        assert(s.last().name != x.name);
        assert(map_of(t) =~= map_of(s).insert(x.name, x));
    }
}

/// Generators indexed by name.
pub struct GeneratorMap {
    generators: Vec<GeneratorInfo>,
}

impl View for GeneratorMap {
    type V = Map<Seq<char>, GeneratorView>;

    closed spec fn view(&self) -> Map<Seq<char>, GeneratorView> {
        map_of(generator_views(self.generators@))
    }
}

impl GeneratorMap {
    /// No two stored generators share a name.
    pub closed spec fn wf(&self) -> bool {
        names_unique(generator_views(self.generators@))
    }

    /// The position of the stored generator named `name`, if any.
    fn position(&self, name: &str) -> (r: Option<usize>)
        requires
            self.wf(),
        ensures
            match r {
                Some(j) => j < self.generators@.len() && self.generators@[j as int].name@ == name@,
                None => forall|j: int|
                    0 <= j < self.generators@.len() ==> self.generators@[j].name@ != name@,
            },
    {
        let mut j: usize = 0;
        while j < self.generators.len()
            invariant
                0 <= j <= self.generators.len(),
                forall|k: int| 0 <= k < j ==> self.generators@[k].name@ != name@,
            decreases self.generators.len() - j,
        {
            if crate::params::str_eq(self.generators[j].name, name) {
                return Some(j);
            }
            j = j + 1;
        }
        None
    }

    /// The generator named `name`, if there is one.
    pub fn get(&self, name: &str) -> (r: Option<&GeneratorInfo>)
        requires
            self.wf(),
        ensures
            r is Some <==> self@.contains_key(name@),
            r is Some ==> self@[name@] == r->0@,
    {
        let ghost s = generator_views(self.generators@);
        proof {
            lemma_map_of_domain(s, name@);
        }
        match self.position(name) {
            Some(j) => {
                proof {
                    lemma_later_entry_wins(s, j as int);
                }
                Some(&self.generators[j])
            },
            None => {
                proof {
                    assert(!(exists|i: int| 0 <= i < s.len() && s[i].name == name@));
                }
                None
            },
        }
    }

    /// Like `get`, with a missing name reported as an error.
    pub fn find(&self, name: &str) -> (r: Result<&GeneratorInfo, GeneratorError>)
        requires
            self.wf(),
        ensures
            r is Ok <==> self@.contains_key(name@),
            r is Ok ==> self@[name@] == r->Ok_0@,
    {
        match self.get(name) {
            Some(g) => Ok(g),
            None => Err(GeneratorError),
        }
    }
}

/// Indexes generators by name, entering them in order: on a name collision
/// the later generator replaces the earlier one.
pub fn to_map(list: Vec<GeneratorInfo>) -> (r: GeneratorMap)
    ensures
        r.wf(),
        r@ == map_of(generator_views(list@)),
{
    let mut out = GeneratorMap { generators: Vec::new() };
    let ghost input = generator_views(list@);
    proof {
        assert(input.take(0) =~= Seq::<GeneratorView>::empty());
        assert(generator_views(out.generators@) =~= Seq::<GeneratorView>::empty());
    }
    let mut i: usize = 0;
    while i < list.len()
        invariant
            0 <= i <= list@.len(),
            input == generator_views(list@),
            out.wf(),
            out@ == map_of(input.take(i as int)),
        decreases list.len() - i,
    {
        let g = list[i].clone();
        proof {
            assert(input.take(i + 1).drop_last() =~= input.take(i as int));
            assert(input.take(i + 1).last() == g@);
        }
        let ghost s = generator_views(out.generators@);
        match out.position(g.name) {
            Some(j) => {
                out.generators.set(j, g);
                proof {
                    lemma_map_of_update(s, j as int, g@);
                    assert(generator_views(out.generators@) =~= s.update(j as int, g@));
                    assert(forall|k: int| 0 <= k < s.len() ==> #[trigger] s.update(j as int, g@)[k].name == s[k].name);
                }
            },
            None => {
                out.generators.push(g);
                proof {
                    assert(generator_views(out.generators@) =~= s.push(g@));
                    assert(forall|k: int| 0 <= k < s.len() ==> #[trigger] s[k].name != g@.name);
                    assert(generator_views(out.generators@).drop_last() =~= s);
                }
            },
        }
        i = i + 1;
    }
    proof {
        assert(input.take(list@.len() as int) =~= input);
    }
    out
}
} // verus!
