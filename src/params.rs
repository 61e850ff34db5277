//! Typed, bounded generator parameters and their resolution from untyped JSON.

use vstd::prelude::*;

verus! {

/// An untyped JSON value, as far as parameter resolution reads it.
pub enum JsonValue {
    Null,
    Bool(bool),
    /// A number that is an integer representable as `i64`.
    Integer(i64),
    /// Any other number: an integer beyond `i64`, or one with a fraction or an exponent.
    OtherNumber,
    Text(String),
    Array,
    Object,
}

/// A boolean parameter.
#[derive(Clone, Copy, PartialEq, Eq, Structural)]
pub struct BooleanInput {
    pub default: bool,
}

impl BooleanInput {
    /// Resolves the value given under `key` in a request's raw parameters,
    /// or gives the default where none is given.
    pub fn from_dimensions(&self, key: &str, raw: &RawDimensions) -> (r: bool)
        ensures
            r == match lookup(raw.entries@, key@) {
                Some(v) => self.resolve_spec(v),
                None => self.default,
            },
    {
        match raw.get(key) {
            Some(v) => self.parse_json(v),
            None => self.get_default(),
        }
    }

    /// What a raw value resolves to: the boolean itself, or else the default.
    pub open spec fn resolve_spec(&self, value: JsonValue) -> bool {
        match value {
            JsonValue::Bool(b) => b,
            _ => self.default,
        }
    }

    pub fn name(&self) -> (r: &'static str)
        ensures
            r@ == "boolean"@,
    {
        "boolean"
    }

    pub fn json_type(&self) -> (r: &'static str)
        ensures
            r@ == "boolean"@,
    {
        "boolean"
    }

    pub fn parse_json(&self, value: &JsonValue) -> (r: bool)
        ensures
            r == self.resolve_spec(*value),
    {
        match value {
            JsonValue::Bool(b) => *b,
            _ => self.default,
        }
    }

    pub fn get_default(&self) -> (r: bool)
        ensures
            r == self.default,
    {
        self.default
    }
}

/// An integer parameter bounded by `min` and `max`, both included.
#[derive(Clone, Copy, PartialEq, Eq, Structural)]
pub struct IntegerInput {
    pub min: i64,
    pub max: i64,
    pub default: i64,
}

impl IntegerInput {
    /// Resolves the value given under `key` in a request's raw parameters,
    /// or gives the default where none is given.
    pub fn from_dimensions(&self, key: &str, raw: &RawDimensions) -> (r: i64)
        ensures
            r == match lookup(raw.entries@, key@) {
                Some(v) => self.resolve_spec(v),
                None => self.default,
            },
    {
        match raw.get(key) {
            Some(v) => self.parse_json(v),
            None => self.get_default(),
        }
    }

    /// The constructor contract: the default lies within the bounds.
    pub open spec fn wf(&self) -> bool {
        self.min <= self.default <= self.max
    }

    /// What a raw value resolves to: an integer within the bounds is kept,
    /// anything else gives the default.
    pub open spec fn resolve_spec(&self, value: JsonValue) -> i64 {
        match value {
            JsonValue::Integer(i) => if self.min <= i <= self.max {
                i
            } else {
                self.default
            },
            _ => self.default,
        }
    }

    pub fn new(min: i64, max: i64, default: i64) -> (r: IntegerInput)
        requires
            min <= default <= max,
        ensures
            r.wf(),
            r.min == min && r.max == max && r.default == default,
    {
        IntegerInput { min, max, default }
    }

    pub fn name(&self) -> (r: &'static str)
        ensures
            r@ == "integer"@,
    {
        "integer"
    }

    pub fn json_type(&self) -> (r: &'static str)
        ensures
            r@ == "number"@,
    {
        "number"
    }

    pub fn parse_json(&self, value: &JsonValue) -> (r: i64)
        ensures
            r == self.resolve_spec(*value),
    {
        match value {
            JsonValue::Integer(i) => {
                if *i >= self.min && *i <= self.max {
                    *i
                } else {
                    self.default
                }
            },
            _ => self.default,
        }
    }

    pub fn get_default(&self) -> (r: i64)
        ensures
            r == self.default,
    {
        self.default
    }
}

/// A free-text parameter.
pub struct StringInput {
    pub default: String,
}

impl StringInput {
    /// Resolves the value given under `key` in a request's raw parameters,
    /// or gives the default where none is given.
    pub fn from_dimensions(&self, key: &str, raw: &RawDimensions) -> (r: String)
        ensures
            r@ == match lookup(raw.entries@, key@) {
                Some(v) => self.resolve_spec(v),
                None => self.default@,
            },
    {
        match raw.get(key) {
            Some(v) => self.parse_json(v),
            None => self.get_default(),
        }
    }

    /// What a raw value resolves to: a JSON string itself, or else the default.
    pub open spec fn resolve_spec(&self, value: JsonValue) -> Seq<char> {
        match value {
            JsonValue::Text(s) => s@,
            _ => self.default@,
        }
    }

    pub fn name(&self) -> (r: &'static str)
        ensures
            r@ == "string"@,
    {
        "string"
    }

    pub fn json_type(&self) -> (r: &'static str)
        ensures
            r@ == "string"@,
    {
        "string"
    }

    pub fn parse_json(&self, value: &JsonValue) -> (r: String)
        ensures
            r@ == self.resolve_spec(*value),
    {
        match value {
            JsonValue::Text(s) => s.clone(),
            _ => self.default.clone(),
        }
    }

    pub fn get_default(&self) -> (r: String)
        ensures
            r@ == self.default@,
    {
        self.default.clone()
    }
}

/// The character sequences of a list of strings.
pub open spec fn text_views(v: Seq<String>) -> Seq<Seq<char>> {
    v.map_values(|s: String| s@)
}

/// An enumerated parameter: one string out of a fixed set of options.
pub struct OptionsInput {
    pub options: Vec<String>,
    pub default: String,
}

impl OptionsInput {
    /// Resolves the value given under `key` in a request's raw parameters,
    /// or gives the default where none is given.
    pub fn from_dimensions(&self, key: &str, raw: &RawDimensions) -> (r: String)
        ensures
            r@ == match lookup(raw.entries@, key@) {
                Some(v) => self.resolve_spec(v),
                None => self.default@,
            },
    {
        match raw.get(key) {
            Some(v) => self.parse_json(v),
            None => self.get_default(),
        }
    }

    /// The constructor contract: the default is one of the options.
    pub open spec fn wf(&self) -> bool {
        text_views(self.options@).contains(self.default@)
    }

    /// What a raw value resolves to: a JSON string that is one of the options
    /// is kept, anything else gives the default.
    pub open spec fn resolve_spec(&self, value: JsonValue) -> Seq<char> {
        match value {
            JsonValue::Text(s) => if text_views(self.options@).contains(s@) {
                s@
            } else {
                self.default@
            },
            _ => self.default@,
        }
    }

    pub fn name(&self) -> (r: &'static str)
        ensures
            r@ == "options"@,
    {
        "options"
    }

    pub fn json_type(&self) -> (r: &'static str)
        ensures
            r@ == "string"@,
    {
        "string"
    }

    /// Whether `s` is one of the options.
    pub fn is_option(&self, s: &String) -> (r: bool)
        ensures
            r == text_views(self.options@).contains(s@),
    {
        let mut i: usize = 0;
        while i < self.options.len()
            invariant
                0 <= i <= self.options.len(),
                forall|j: int| 0 <= j < i ==> self.options@[j]@ != s@,
            decreases self.options.len() - i,
        {
            if self.options[i] == *s {
                proof {
                    assert(text_views(self.options@)[i as int] == s@);
                }
                return true;
            }
            i = i + 1;
        }
        proof {
            if text_views(self.options@).contains(s@) {
                let k = choose|k: int|
                    0 <= k < text_views(self.options@).len() && text_views(self.options@)[k] == s@;
                assert(self.options@[k]@ == s@);
            }
        }
        false
    }

    pub fn parse_json(&self, value: &JsonValue) -> (r: String)
        ensures
            r@ == self.resolve_spec(*value),
    {
        match value {
            JsonValue::Text(s) => {
                if self.is_option(s) {
                    s.clone()
                } else {
                    self.default.clone()
                }
            },
            _ => self.default.clone(),
        }
    }

    pub fn get_default(&self) -> (r: String)
        ensures
            r@ == self.default@,
    {
        self.default.clone()
    }
}

impl Clone for StringInput {
    fn clone(&self) -> (r: Self)
        ensures
            r.default@ == self.default@,
    {
        StringInput { default: self.default.clone() }
    }
}

impl Clone for OptionsInput {
    fn clone(&self) -> (r: Self)
        ensures
            text_views(r.options@) == text_views(self.options@),
            r.default@ == self.default@,
    {
        let options = self.options.clone();
        proof {
            assert(options@ =~= self.options@);
        }
        OptionsInput { options, default: self.default.clone() }
    }
}

/// The schema of one parameter: which kind it is, with its bounds or options
/// and its default.
pub enum DataInfo {
    Boolean(BooleanInput),
    Integer(IntegerInput),
    Text(StringInput),
    Options(OptionsInput),
}

/// A resolved parameter value.
pub enum ResolvedValue {
    Bool(bool),
    Integer(i64),
    Text(String),
}

/// A mathematical picture of a `DataInfo`.
pub enum DataInfoView {
    Boolean(bool),
    Integer(i64, i64, i64),
    Text(Seq<char>),
    Options(Seq<Seq<char>>, Seq<char>),
}

/// A mathematical picture of a `ResolvedValue`.
pub enum ResolvedView {
    Bool(bool),
    Integer(i64),
    Text(Seq<char>),
}

impl View for DataInfo {
    type V = DataInfoView;

    open spec fn view(&self) -> DataInfoView {
        match self {
            DataInfo::Boolean(b) => DataInfoView::Boolean(b.default),
            DataInfo::Integer(i) => DataInfoView::Integer(i.min, i.max, i.default),
            DataInfo::Text(t) => DataInfoView::Text(t.default@),
            DataInfo::Options(o) => DataInfoView::Options(text_views(o.options@), o.default@),
        }
    }
}

impl View for ResolvedValue {
    type V = ResolvedView;

    open spec fn view(&self) -> ResolvedView {
        match self {
            ResolvedValue::Bool(b) => ResolvedView::Bool(*b),
            ResolvedValue::Integer(i) => ResolvedView::Integer(*i),
            ResolvedValue::Text(t) => ResolvedView::Text(t@),
        }
    }
}

impl Clone for DataInfo {
    fn clone(&self) -> (r: Self)
        ensures
            r@ == self@,
    {
        match self {
            DataInfo::Boolean(b) => DataInfo::Boolean(*b),
            DataInfo::Integer(i) => DataInfo::Integer(*i),
            DataInfo::Text(t) => DataInfo::Text(t.clone()),
            DataInfo::Options(o) => DataInfo::Options(o.clone()),
        }
    }
}

impl DataInfo {
    /// The constructor contracts of the bounded kinds.
    pub open spec fn wf(&self) -> bool {
        match self {
            DataInfo::Integer(i) => i.wf(),
            DataInfo::Options(o) => o.wf(),
            _ => true,
        }
    }

    /// What a raw value, or its absence, resolves to.
    pub open spec fn resolve_spec(&self, value: Option<JsonValue>) -> ResolvedView {
        match self {
            DataInfo::Boolean(b) => ResolvedView::Bool(
                match value {
                    Some(v) => b.resolve_spec(v),
                    None => b.default,
                },
            ),
            DataInfo::Integer(i) => ResolvedView::Integer(
                match value {
                    Some(v) => i.resolve_spec(v),
                    None => i.default,
                },
            ),
            DataInfo::Text(t) => ResolvedView::Text(
                match value {
                    Some(v) => t.resolve_spec(v),
                    None => t.default@,
                },
            ),
            DataInfo::Options(o) => ResolvedView::Text(
                match value {
                    Some(v) => o.resolve_spec(v),
                    None => o.default@,
                },
            ),
        }
    }

    /// The kind's tag in the schema.
    pub open spec fn data_type_spec(&self) -> Seq<char> {
        match self {
            DataInfo::Boolean(_) => "boolean"@,
            DataInfo::Integer(_) => "integer"@,
            DataInfo::Text(_) => "string"@,
            DataInfo::Options(_) => "options"@,
        }
    }

    /// The JSON kind that callers send for this parameter.
    pub open spec fn json_type_spec(&self) -> Seq<char> {
        match self {
            DataInfo::Boolean(_) => "boolean"@,
            DataInfo::Integer(_) => "number"@,
            DataInfo::Text(_) => "string"@,
            DataInfo::Options(_) => "string"@,
        }
    }

    pub fn name(&self) -> (r: &'static str)
        ensures
            r@ == self.data_type_spec(),
    {
        match self {
            DataInfo::Boolean(b) => b.name(),
            DataInfo::Integer(i) => i.name(),
            DataInfo::Text(t) => t.name(),
            DataInfo::Options(o) => o.name(),
        }
    }

    pub fn json_type(&self) -> (r: &'static str)
        ensures
            r@ == self.json_type_spec(),
    {
        match self {
            DataInfo::Boolean(b) => b.json_type(),
            DataInfo::Integer(i) => i.json_type(),
            DataInfo::Text(t) => t.json_type(),
            DataInfo::Options(o) => o.json_type(),
        }
    }

    /// Resolves a raw value, or its absence, to a typed value; never fails.
    pub fn resolve(&self, value: Option<&JsonValue>) -> (r: ResolvedValue)
        ensures
            r@ == self.resolve_spec(
                match value {
                    Some(v) => Some(*v),
                    None => None,
                },
            ),
    {
        match self {
            DataInfo::Boolean(b) => ResolvedValue::Bool(
                match value {
                    Some(v) => b.parse_json(v),
                    None => b.get_default(),
                },
            ),
            DataInfo::Integer(i) => ResolvedValue::Integer(
                match value {
                    Some(v) => i.parse_json(v),
                    None => i.get_default(),
                },
            ),
            DataInfo::Text(t) => ResolvedValue::Text(
                match value {
                    Some(v) => t.parse_json(v),
                    None => t.get_default(),
                },
            ),
            DataInfo::Options(o) => ResolvedValue::Text(
                match value {
                    Some(v) => o.parse_json(v),
                    None => o.get_default(),
                },
            ),
        }
    }
}

/// The raw parameters of a request: dimension names with untyped values.
pub struct RawDimensions {
    pub entries: Vec<(String, JsonValue)>,
}

/// The value given for `key`: that of the first entry with this name, if any.
pub open spec fn lookup(entries: Seq<(String, JsonValue)>, key: Seq<char>) -> Option<JsonValue>
    decreases entries.len(),
{
    if entries.len() == 0 {
        None
    } else if entries[0].0@ == key {
        Some(entries[0].1)
    } else {
        lookup(entries.drop_first(), key)
    }
}

proof fn lemma_lookup_push(s: Seq<(String, JsonValue)>, x: (String, JsonValue), k: Seq<char>)
    requires
        forall|i: int| 0 <= i < s.len() ==> s[i].0@ != x.0@,
    ensures
        lookup(s.push(x), k) == if k == x.0@ {
            Some(x.1)
        } else {
            lookup(s, k)
        },
    decreases s.len(),
{
    if s.len() == 0 {
        assert(s.push(x)[0] == x);
        assert(s.push(x).drop_first() =~= Seq::<(String, JsonValue)>::empty());
        assert(lookup(Seq::<(String, JsonValue)>::empty(), k) is None);
    } else {
        assert(s.push(x)[0] == s[0]);
        assert(s.push(x).drop_first() =~= s.drop_first().push(x));
        assert(s[0].0@ != x.0@);
        lemma_lookup_push(s.drop_first(), x, k);
    }
}

proof fn lemma_lookup_update(s: Seq<(String, JsonValue)>, j: int, x: (String, JsonValue), k: Seq<char>)
    requires
        0 <= j < s.len(),
        s[j].0@ == x.0@,
        forall|i: int| 0 <= i < j ==> s[i].0@ != x.0@,
    ensures
        lookup(s.update(j, x), k) == if k == x.0@ {
            Some(x.1)
        } else {
            lookup(s, k)
        },
    decreases j,
{
    let t = s.update(j, x);
    if j == 0 {
        assert(t.drop_first() =~= s.drop_first());
    } else {
        assert(t.drop_first() =~= s.drop_first().update(j - 1, x));
        lemma_lookup_update(s.drop_first(), j - 1, x, k);
    }
}

impl RawDimensions {
    pub fn new() -> (r: RawDimensions)
        ensures
            r.entries@.len() == 0,
    {
        RawDimensions { entries: Vec::new() }
    }

    /// Gives `key` the value `value`, replacing the value it had, if any;
    /// every other name keeps its value.
    pub fn insert(&mut self, key: String, value: JsonValue)
        ensures
            forall|k: Seq<char>|
                #[trigger] lookup(final(self).entries@, k) == if k == key@ {
                    Some(value)
                } else {
                    lookup(old(self).entries@, k)
                },
    {
        let ghost kv = key@;
        let mut j: usize = 0;
        while j < self.entries.len()
            invariant
                0 <= j <= self.entries.len(),
                forall|i: int| 0 <= i < j ==> self.entries@[i].0@ != kv,
                kv == key@,
                self.entries@ == old(self).entries@,
            decreases self.entries.len() - j,
        {
            if str_eq(self.entries[j].0.as_str(), key.as_str()) {
                let ghost before = self.entries@;
                let ghost entry = (key, value);
                self.entries.set(j, (key, value));
                proof {
                    assert(self.entries@ == before.update(j as int, entry));
                    assert forall|k: Seq<char>|
                        #[trigger] lookup(self.entries@, k) == if k == kv {
                            Some(entry.1)
                        } else {
                            lookup(before, k)
                        } by {
                        lemma_lookup_update(before, j as int, entry, k);
                    }
                }
                return;
            }
            j = j + 1;
        }
        let ghost before = self.entries@;
        let ghost entry = (key, value);
        self.entries.push((key, value));
        proof {
            assert forall|k: Seq<char>|
                #[trigger] lookup(self.entries@, k) == if k == kv {
                    Some(entry.1)
                } else {
                    lookup(before, k)
                } by {
                lemma_lookup_push(before, entry, k);
            }
        }
    }

    /// The value given for `key`, if any.
    pub fn get(&self, key: &str) -> (r: Option<&JsonValue>)
        ensures
            match r {
                Some(v) => lookup(self.entries@, key@) == Some(*v),
                None => lookup(self.entries@, key@).is_none(),
            },
    {
        let mut i: usize = 0;
        proof {
            assert(self.entries@.subrange(0, self.entries@.len() as int) =~= self.entries@);
        }
        while i < self.entries.len()
            invariant
                0 <= i <= self.entries.len(),
                lookup(self.entries@, key@) == lookup(self.entries@.subrange(i as int, self.entries@.len() as int), key@),
            decreases self.entries.len() - i,
        {
            let ghost rest = self.entries@.subrange(i as int, self.entries@.len() as int);
            proof {
                assert(rest.drop_first() =~= self.entries@.subrange(i + 1, self.entries@.len() as int));
            }
            if str_eq(self.entries[i].0.as_str(), key) {
                return Some(&self.entries[i].1);
            }
            i = i + 1;
        }
        None
    }
}

/// Whether two strings hold the same characters.
pub fn str_eq(a: &str, b: &str) -> (r: bool)
    ensures
        r == (a@ == b@),
{
    let n = a.unicode_len();
    if n != b.unicode_len() {
        return false;
    }
    let mut i: usize = 0;
    while i < n
        invariant
            n == a@.len() == b@.len(),
            0 <= i <= n,
            forall|j: int| 0 <= j < i ==> a@[j] == b@[j],
        decreases n - i,
    {
        if a.get_char(i) != b.get_char(i) {
            return false;
        }
        i = i + 1;
    }
    proof {
        assert(a@ =~= b@);
    }
    true
}

/// An integer parameter keeps exactly the integers within its bounds: a raw
/// value resolves to itself when it is an integer from `min` to `max`, and
/// to the default otherwise.
pub proof fn lemma_integer_resolution(input: IntegerInput, v: JsonValue)
    requires
        input.min <= input.max,
    ensures
        (v is Integer && input.min <= v->Integer_0 <= input.max) ==> input.resolve_spec(v)
            == v->Integer_0,
        !(v is Integer && input.min <= v->Integer_0 <= input.max) ==> input.resolve_spec(v)
            == input.default,
{
}

} // verus!
