//! Runtime values: what expressions evaluate to and what commands hand back.
use vstd::prelude::*;
use vstd::string::*;
use indexmap::IndexMap;
use crate::actor_type::ValueType;
use crate::text::{i64_text, decimal, nat_digits, u64_text};

verus! {

/// A floating-point number as the library carries it: its IEEE 754 binary64
/// bits, by which it is compared, and its decimal rendering, by which it is
/// shown.
#[derive(Debug)]
pub struct FloatRepr {
    pub bits: u64,
    pub text: String,
}

/// A runtime value.
#[derive(Debug)]
pub enum Value {
    String(String),
    Number(i64),
    Float(FloatRepr),
    Bool(bool),
    Atom(String),
    Bytes(Vec<u8>),
    Array(Vec<Value>),
    Dict(Dict),
    /// A database NULL.
    Null,
    /// A value that is not available yet.
    Unit,
}

/// What a value is, with texts and lists as mathematical sequences.
pub ghost enum ValueModel {
    String(Seq<char>),
    Number(int),
    Float { bits: u64, text: Seq<char> },
    Bool(bool),
    Atom(Seq<char>),
    Bytes(Seq<u8>),
    Array(Seq<ValueModel>),
    Dict(Seq<(Seq<char>, ValueModel)>),
    Null,
    Unit,
}

/// An ordered map of field name to value. Insertion order is preserved, so that
/// a position means "the nth inserted field".
#[verifier::external_body]
#[derive(Debug)]
pub struct Dict {
    entries: IndexMap<String, Value>,
}

/// The fields of a dict in the order in which they were first inserted.
pub uninterp spec fn dict_entries(d: Dict) -> Seq<(Seq<char>, ValueModel)>;

/// Where the field `key` stands.
pub open spec fn field_index(entries: Seq<(Seq<char>, ValueModel)>, key: Seq<char>) -> Option<int>
    decreases entries.len(),
{
    if entries.len() == 0 {
        None
    } else if entries.last().0 == key {
        Some(entries.len() - 1)
    } else {
        field_index(entries.drop_last(), key)
    }
}

/// The value of the field `key`.
pub open spec fn field(entries: Seq<(Seq<char>, ValueModel)>, key: Seq<char>) -> Option<
    ValueModel,
> {
    match field_index(entries, key) {
        Some(i) => Some(entries[i].1),
        None => None,
    }
}

/// The fields once `key` is set to `value`: in its place where the field
/// exists, last where it is new.
pub open spec fn with_field(
    entries: Seq<(Seq<char>, ValueModel)>,
    key: Seq<char>,
    value: ValueModel,
) -> Seq<(Seq<char>, ValueModel)> {
    match field_index(entries, key) {
        Some(i) => entries.update(i, (key, value)),
        None => entries.push((key, value)),
    }
}

/// Whether no field name occurs twice.
pub open spec fn distinct_fields(entries: Seq<(Seq<char>, ValueModel)>) -> bool {
    forall|i: int, j: int|
        0 <= i < j < entries.len() ==> (#[trigger] entries[i]).0 != (#[trigger] entries[j]).0
}

pub proof fn lemma_field_index(entries: Seq<(Seq<char>, ValueModel)>, key: Seq<char>)
    ensures
        field_index(entries, key) matches Some(i) ==> 0 <= i < entries.len() && entries[i].0 == key,
        field_index(entries, key) is None ==> forall|i: int|
            0 <= i < entries.len() ==> (#[trigger] entries[i]).0 != key,
    decreases entries.len(),
{
    if entries.len() > 0 && entries.last().0 != key {
        let rest = entries.drop_last();
        lemma_field_index(rest, key);
        if field_index(rest, key) is None {
            assert forall|i: int| 0 <= i < entries.len() implies (#[trigger] entries[i]).0
                != key by {
                if i < rest.len() {
                    assert(rest[i] == entries[i]);
                }
            }
        }
    }
}

/// What was set is what is read: the field `key` holds the new value and every
/// other field is as before.
pub proof fn law_set_field_then_read(
    entries: Seq<(Seq<char>, ValueModel)>,
    key: Seq<char>,
    value: ValueModel,
    other: Seq<char>,
)
    ensures
        field(with_field(entries, key, value), key) == Some(value),
        other != key ==> field(with_field(entries, key, value), other) == field(entries, other),
    decreases entries.len(),
{
    lemma_field_index(entries, key);
    let after = with_field(entries, key, value);
    match field_index(entries, key) {
        None => {
            assert(after.drop_last() =~= entries);
            lemma_field_index(entries, other);
        },
        Some(i) => {
            if i < entries.len() - 1 {
                let rest = entries.drop_last();
                law_set_field_then_read(rest, key, value, other);
                assert(after.drop_last() =~= with_field(rest, key, value));
                lemma_field_index(rest, other);
                lemma_field_index(rest, key);
                lemma_field_index(with_field(rest, key, value), other);
                lemma_field_index(with_field(rest, key, value), key);
            } else {
                assert(after.drop_last() =~= entries.drop_last());
                lemma_field_index(entries.drop_last(), other);
            }
        },
    }
}

/// Setting a field keeps the names distinct and the order of the fields that
/// were there.
pub proof fn law_set_field_keeps_order(
    entries: Seq<(Seq<char>, ValueModel)>,
    key: Seq<char>,
    value: ValueModel,
)
    requires
        distinct_fields(entries),
    ensures
        distinct_fields(with_field(entries, key, value)),
        with_field(entries, key, value).len() >= entries.len(),
        forall|i: int|
            0 <= i < entries.len() ==> (#[trigger] with_field(entries, key, value)[i]).0
                == entries[i].0,
{
    lemma_field_index(entries, key);
}

impl Dict {
    pub open spec fn view(&self) -> Seq<(Seq<char>, ValueModel)> {
        dict_entries(*self)
    }

    /// `IndexMap::new`: a map without entries.
    #[verifier::external_body]
    fn raw_new() -> (r: Self)
        ensures
            dict_entries(r) == Seq::<(Seq<char>, ValueModel)>::empty(),
    {
        Dict { entries: IndexMap::new() }
    }

    /// `IndexMap::len`: the number of entries.
    #[verifier::external_body]
    fn raw_len(&self) -> (r: usize)
        ensures
            r == dict_entries(*self).len(),
    {
        self.entries.len()
    }

    /// `IndexMap::get`: the value stored under `key`, if there is one.
    #[verifier::external_body]
    fn raw_get(&self, key: &str) -> (r: Option<&Value>)
        ensures
            match r {
                Some(v) => field(dict_entries(*self), key@) == Some(v@),
                None => field(dict_entries(*self), key@) is None,
            },
    {
        self.entries.get(key)
    }

    /// `IndexMap::get_index`: the entry at a position of the insertion order.
    #[verifier::external_body]
    fn raw_get_index(&self, index: usize) -> (r: Option<(&String, &Value)>)
        ensures
            match r {
                Some(e) => index < dict_entries(*self).len() && dict_entries(*self)[index as int]
                    == (e.0@, e.1@),
                None => index >= dict_entries(*self).len(),
            },
    {
        self.entries.get_index(index)
    }

    /// `IndexMap::insert`: a key that is there keeps its place and gets the new
    /// value; a new key goes last.
    #[verifier::external_body]
    fn raw_insert(&mut self, key: String, value: Value)
        ensures
            dict_entries(*final(self)) == with_field(dict_entries(*old(self)), key@, value@),
    {
        self.entries.insert(key, value);
    }

    /// `IndexMap::clone`: the same entries in the same order.
    #[verifier::external_body]
    fn raw_clone(&self) -> (r: Dict)
        ensures
            dict_entries(r) == dict_entries(*self),
    {
        Dict { entries: self.entries.clone() }
    }

    /// A dict without fields.
    pub fn new() -> (r: Self)
        ensures
            r@ == Seq::<(Seq<char>, ValueModel)>::empty(),
    {
        Dict::raw_new()
    }

    /// The number of fields.
    pub fn len(&self) -> (r: usize)
        ensures
            r == self@.len(),
    {
        self.raw_len()
    }

    /// The value of the field `key`.
    pub fn get(&self, key: &str) -> (r: Option<&Value>)
        ensures
            match r {
                Some(v) => field(self@, key@) == Some(v@),
                None => field(self@, key@) is None,
            },
    {
        self.raw_get(key)
    }

    /// The field at a position of the insertion order.
    pub fn get_index(&self, index: usize) -> (r: Option<(&String, &Value)>)
        ensures
            match r {
                Some(e) => index < self@.len() && self@[index as int] == (e.0@, e.1@),
                None => index >= self@.len(),
            },
    {
        self.raw_get_index(index)
    }

    /// Sets the field `key`. A field that is there keeps its place; a new one
    /// goes last.
    pub fn insert(&mut self, key: String, value: Value)
        ensures
            final(self)@ == with_field(old(self)@, key@, value@),
    {
        self.raw_insert(key, value);
    }

    /// Whether the dict has a field `key`.
    pub fn contains_key(&self, key: &str) -> (r: bool)
        ensures
            r == field(self@, key@) is Some,
    {
        self.get(key).is_some()
    }

    /// Whether the dict has no field.
    pub fn is_empty(&self) -> (r: bool)
        ensures
            r == (self@.len() == 0),
    {
        self.len() == 0
    }
}

impl Clone for Dict {
    fn clone(&self) -> (r: Dict)
        ensures
            r@ == self@,
    {
        self.raw_clone()
    }
}

impl Clone for FloatRepr {
    fn clone(&self) -> (r: FloatRepr)
        ensures
            r.bits == self.bits,
            r.text@ == self.text@,
    {
        FloatRepr { bits: self.bits, text: self.text.clone() }
    }
}

/// The models of a list of values.
pub open spec fn values_view(s: Seq<Value>) -> Seq<ValueModel> {
    Seq::new(s.len(), |i: int| s[i]@)
}

impl Value {
    pub open spec fn view(&self) -> ValueModel
        decreases *self,
    {
        match *self {
            Value::String(s) => ValueModel::String(s@),
            Value::Number(n) => ValueModel::Number(n as int),
            Value::Float(x) => ValueModel::Float { bits: x.bits, text: x.text@ },
            Value::Bool(b) => ValueModel::Bool(b),
            Value::Atom(a) => ValueModel::Atom(a@),
            Value::Bytes(b) => ValueModel::Bytes(b@),
            Value::Array(items) => ValueModel::Array(
                Seq::new(
                    items@.len(),
                    |i: int|
                        if 0 <= i < items@.len() {
                            items@[i].view()
                        } else {
                            arbitrary()
                        },
                ),
            ),
            Value::Dict(d) => ValueModel::Dict(d@),
            Value::Null => ValueModel::Null,
            Value::Unit => ValueModel::Unit,
        }
    }
}

/// The model of an array, element by element.
pub broadcast proof fn lemma_array_view(items: Vec<Value>)
    ensures
        (#[trigger] Value::Array(items)@) == ValueModel::Array(values_view(items@)),
{
    assert(Value::Array(items)@->Array_0 =~= values_view(items@));
}

impl Clone for Value {
    fn clone(&self) -> (r: Value)
        ensures
            r@ == self@,
        decreases self@,
    {
        broadcast use lemma_array_view;

        match self {
            Value::String(s) => Value::String(s.clone()),
            Value::Number(n) => Value::Number(*n),
            Value::Float(x) => Value::Float(x.clone()),
            Value::Bool(b) => Value::Bool(*b),
            Value::Atom(a) => Value::Atom(a.clone()),
            Value::Bytes(b) => Value::Bytes(b.clone()),
            Value::Array(items) => {
                let mut out: Vec<Value> = Vec::new();
                let mut i: usize = 0;
                while i < items.len()
                    invariant
                        i <= items@.len(),
                        self@ == ValueModel::Array(values_view(items@)),
                        values_view(out@) == values_view(items@).take(i as int),
                    decreases items@.len() - i,
                {
                    assert(decreases_to!(self@ => self@->Array_0));
                    assert(decreases_to!(self@->Array_0 => self@->Array_0[i as int]));
                    let item: Value = items[i].clone();
                    let ghost before = out@;
                    out.push(item);
                    proof {
                        assert(values_view(out@) =~= values_view(before).push(item@));
                        assert(values_view(items@).take(i + 1) =~= values_view(items@).take(
                            i as int,
                        ).push(items@[i as int]@));
                    }
                    i += 1;
                }
                proof {
                    assert(values_view(items@).take(i as int) =~= values_view(items@));
                }
                Value::Array(out)
            },
            Value::Dict(d) => Value::Dict(d.clone()),
            Value::Null => Value::Null,
            Value::Unit => Value::Unit,
        }
    }
}

/// Whether binary64 bits encode a zero of either sign.
pub open spec fn float_is_zero(bits: u64) -> bool {
    bits == 0 || bits == 0x8000_0000_0000_0000
}

/// Whether binary64 bits encode a NaN: all exponent bits set and a fraction
/// that is not zero.
pub open spec fn float_is_nan(bits: u64) -> bool {
    bits % 0x8000_0000_0000_0000 > 0x7ff0_0000_0000_0000
}

/// Whether two binary64 numbers are equal: a NaN equals nothing, and the two
/// zeros are equal.
pub open spec fn float_same(a: u64, b: u64) -> bool {
    !float_is_nan(a) && !float_is_nan(b) && (a == b || (float_is_zero(a) && float_is_zero(b)))
}

/// Whether two values are equal. Dicts are equal when they have the same
/// fields, in whatever order.
pub open spec fn same(a: ValueModel, b: ValueModel) -> bool
    decreases a,
{
    match (a, b) {
        (ValueModel::String(x), ValueModel::String(y)) => x == y,
        (ValueModel::Number(x), ValueModel::Number(y)) => x == y,
        (
            ValueModel::Float { bits: x, .. },
            ValueModel::Float { bits: y, .. },
        ) => float_same(x, y),
        (ValueModel::Bool(x), ValueModel::Bool(y)) => x == y,
        (ValueModel::Atom(x), ValueModel::Atom(y)) => x == y,
        (ValueModel::Bytes(x), ValueModel::Bytes(y)) => x == y,
        (ValueModel::Array(xs), ValueModel::Array(ys)) => xs.len() == ys.len() && (forall|i: int|
            0 <= i < xs.len() ==> same(#[trigger] xs[i], ys[i])),
        (ValueModel::Dict(xs), ValueModel::Dict(ys)) => forall|key: Seq<char>|
            #![trigger field_index(xs, key)]
            #![trigger field_index(ys, key)]
            match (field_index(xs, key), field_index(ys, key)) {
                (Some(i), Some(j)) => 0 <= i < xs.len() && same(xs[i].1, ys[j].1),
                (None, None) => true,
                _ => false,
            },
        (ValueModel::Null, ValueModel::Null) => true,
        (ValueModel::Unit, ValueModel::Unit) => true,
        _ => false,
    }
}

/// What a value's type is called in messages.
pub open spec fn kind_name_of(v: ValueModel) -> Seq<char> {
    match v {
        ValueModel::String(_) => "string"@,
        ValueModel::Number(_) => "number"@,
        ValueModel::Float { .. } => "float"@,
        ValueModel::Bool(_) => "bool"@,
        ValueModel::Atom(_) => "atom"@,
        ValueModel::Bytes(_) => "bytes"@,
        ValueModel::Array(_) => "array"@,
        ValueModel::Dict(_) => "dict"@,
        ValueModel::Null => "null"@,
        ValueModel::Unit => "unit"@,
    }
}

/// Whether a value inhabits a type. `Dynamic` and `Unknown` admit every value;
/// the other types admit the values of their own kind alone.
pub open spec fn inhabits(v: ValueModel, ty: ValueType) -> bool {
    match ty {
        ValueType::Dynamic | ValueType::Unknown => true,
        ValueType::String => v is String,
        ValueType::Number => v is Number,
        ValueType::Bool => v is Bool,
        ValueType::Atom => v is Atom,
        ValueType::Bytes => v is Bytes,
    }
}

/// A text in quotes, with the escapes of Rust's debug format.
pub uninterp spec fn quoted(s: Seq<char>) -> Seq<char>;

/// `{:?}` of a `str`: the text in double quotes, with control characters,
/// quotes and backslashes escaped. Which characters are escaped, and how, is
/// left unsaid beyond its being a function of the text.
#[verifier::external_body]
pub(crate) fn quote(s: &str) -> (r: String)
    ensures
        r@ == quoted(s@),
{
    format!("{:?}", s)
}

/// How a value is shown in reports.
pub open spec fn shown(v: ValueModel) -> Seq<char>
    decreases v,
{
    match v {
        ValueModel::String(s) => quoted(s),
        ValueModel::Number(n) => decimal(n),
        ValueModel::Float { text, .. } => text,
        ValueModel::Bool(b) => if b {
            "true"@
        } else {
            "false"@
        },
        ValueModel::Atom(a) => ":"@ + a,
        ValueModel::Bytes(b) => "<"@ + nat_digits(b.len()) + " bytes>"@,
        ValueModel::Array(items) => "["@ + shown_items(items) + "]"@,
        ValueModel::Dict(entries) => "{"@ + shown_fields(entries) + "}"@,
        ValueModel::Null => "null"@,
        ValueModel::Unit => "()"@,
    }
}

/// The items of an array, shown with commas between them.
pub open spec fn shown_items(items: Seq<ValueModel>) -> Seq<char>
    decreases items,
{
    if items.len() == 0 {
        seq![]
    } else if items.len() == 1 {
        shown(items.last())
    } else {
        shown_items(items.drop_last()) + ", "@ + shown(items.last())
    }
}

/// The fields of a dict, shown with commas between them.
pub open spec fn shown_fields(entries: Seq<(Seq<char>, ValueModel)>) -> Seq<char>
    decreases entries,
{
    if entries.len() == 0 {
        seq![]
    } else if entries.len() == 1 {
        entries.last().0 + ": "@ + shown(entries.last().1)
    } else {
        shown_fields(entries.drop_last()) + ", "@ + (entries.last().0 + ": "@ + shown(
            entries.last().1,
        ))
    }
}

impl Value {
    /// What the value's type is called in messages.
    pub fn kind_name(&self) -> (r: &'static str)
        ensures
            r@ == kind_name_of(self@),
    {
        match self {
            Value::String(_) => "string",
            Value::Number(_) => "number",
            Value::Float(_) => "float",
            Value::Bool(_) => "bool",
            Value::Atom(_) => "atom",
            Value::Bytes(_) => "bytes",
            Value::Array(_) => "array",
            Value::Dict(_) => "dict",
            Value::Null => "null",
            Value::Unit => "unit",
        }
    }

    /// Whether this value is a valid inhabitant of `ty`. `Dynamic` and
    /// `Unknown` match any runtime value; every other type is strict.
    pub fn is_of_type(&self, ty: ValueType) -> (r: bool)
        ensures
            r == inhabits(self@, ty),
    {
        match ty {
            ValueType::Dynamic | ValueType::Unknown => true,
            ValueType::String => matches!(self, Value::String(_)),
            ValueType::Number => matches!(self, Value::Number(_)),
            ValueType::Bool => matches!(self, Value::Bool(_)),
            ValueType::Atom => matches!(self, Value::Atom(_)),
            ValueType::Bytes => matches!(self, Value::Bytes(_)),
        }
    }

    /// The value as it is shown in reports.
    pub fn to_text(&self) -> (r: String)
        ensures
            r@ == shown(self@),
        decreases self@,
    {
        broadcast use lemma_array_view;

        match self {
            Value::String(s) => quote(s.as_str()),
            Value::Number(n) => i64_text(*n),
            Value::Float(x) => x.text.clone(),
            Value::Bool(b) => if *b {
                String::from_str("true")
            } else {
                String::from_str("false")
            },
            Value::Atom(a) => String::from_str(":").concat(a.as_str()),
            Value::Bytes(b) => String::from_str("<").concat(
                u64_text(b.len() as u64).as_str(),
            ).concat(" bytes>"),
            Value::Array(items) => {
                let mut inner: String = String::new();
                let mut i: usize = 0;
                let ghost all = values_view(items@);
                while i < items.len()
                    invariant
                        i <= items@.len(),
                        all == values_view(items@),
                        self@ == ValueModel::Array(all),
                        inner@ == shown_items(all.take(i as int)),
                    decreases items@.len() - i,
                {
                    assert(decreases_to!(self@ => self@->Array_0));
                    assert(decreases_to!(self@->Array_0 => self@->Array_0[i as int]));
                    let item: String = items[i].to_text();
                    proof {
                        assert(all.take(i + 1).drop_last() =~= all.take(i as int));
                        assert(all.take(i + 1).last() == items@[i as int]@);
                    }
                    if i > 0 {
                        inner = inner.concat(", ").concat(item.as_str());
                    } else {
                        inner = item;
                    }
                    i += 1;
                }
                proof {
                    assert(all.take(i as int) =~= all);
                }
                String::from_str("[").concat(inner.as_str()).concat("]")
            },
            Value::Dict(d) => {
                let mut inner: String = String::new();
                let mut i: usize = 0;
                let n: usize = d.len();
                while i < n
                    invariant
                        i <= n,
                        n == d@.len(),
                        self@ == ValueModel::Dict(d@),
                        inner@ == shown_fields(d@.take(i as int)),
                    decreases n - i,
                {
                    proof {
                        assert(d@.take(i + 1).drop_last() =~= d@.take(i as int));
                        assert(d@.take(i + 1).last() == d@[i as int]);
                    }
                    match d.get_index(i) {
                        Some((k, v)) => {
                            assert(decreases_to!(self@ => self@->Dict_0));
                            assert(decreases_to!(self@->Dict_0 => self@->Dict_0[i as int]));
                            assert(decreases_to!(d@[i as int] => d@[i as int].1));
                            let item: String = k.clone().concat(": ").concat(v.to_text().as_str());
                            if i > 0 {
                                inner = inner.concat(", ").concat(item.as_str());
                            } else {
                                inner = item;
                            }
                        },
                        None => {},
                    }
                    i += 1;
                }
                proof {
                    assert(d@.take(i as int) =~= d@);
                }
                String::from_str("{").concat(inner.as_str()).concat("}")
            },
            Value::Null => String::from_str("null"),
            Value::Unit => String::from_str("()"),
        }
    }
}

/// Whether two binary64 numbers, given by their bits, are equal.
fn floats_equal(a: u64, b: u64) -> (r: bool)
    ensures
        r == float_same(a, b),
{
    let a_nan: bool = a % 0x8000_0000_0000_0000 > 0x7ff0_0000_0000_0000;
    let b_nan: bool = b % 0x8000_0000_0000_0000 > 0x7ff0_0000_0000_0000;
    let a_zero: bool = a == 0 || a == 0x8000_0000_0000_0000;
    let b_zero: bool = b == 0 || b == 0x8000_0000_0000_0000;
    !a_nan && !b_nan && (a == b || (a_zero && b_zero))
}

/// Whether two byte strings are equal.
pub fn bytes_equal(a: &[u8], b: &[u8]) -> (r: bool)
    ensures
        r == (a@ == b@),
{
    if a.len() != b.len() {
        return false;
    }
    let mut i: usize = 0;
    while i < a.len()
        invariant
            i <= a@.len(),
            a@.len() == b@.len(),
            forall|j: int| 0 <= j < i ==> a@[j] == b@[j],
        decreases a@.len() - i,
    {
        if a[i] != b[i] {
            return false;
        }
        i += 1;
    }
    proof {
        assert(a@ =~= b@);
    }
    true
}

/// Whether two dicts agree on the field of a name: both lack it, or both have it
/// with the same value.
pub open spec fn same_field(
    xs: Seq<(Seq<char>, ValueModel)>,
    ys: Seq<(Seq<char>, ValueModel)>,
    key: Seq<char>,
) -> bool {
    match (field(xs, key), field(ys, key)) {
        (Some(x), Some(y)) => same(x, y),
        (None, None) => true,
        _ => false,
    }
}

/// Dicts are equal exactly where they agree on the field of every name.
proof fn lemma_same_by_fields(
    xs: Seq<(Seq<char>, ValueModel)>,
    ys: Seq<(Seq<char>, ValueModel)>,
)
    ensures
        same(ValueModel::Dict(xs), ValueModel::Dict(ys)) == forall|key: Seq<char>| #[trigger]
            same_field(xs, ys, key),
{
    assert forall|key: Seq<char>| #[trigger] same_field(xs, ys, key) == match (
        field_index(xs, key),
        field_index(ys, key),
    ) {
        (Some(i), Some(j)) => 0 <= i < xs.len() && same(xs[i].1, ys[j].1),
        (None, None) => true,
        _ => false,
    } by {
        lemma_field_index(xs, key);
    }
    if same(ValueModel::Dict(xs), ValueModel::Dict(ys)) {
        assert forall|key: Seq<char>| #[trigger] same_field(xs, ys, key) by {
            lemma_field_index(xs, key);
            assert(field_index(xs, key) == field_index(xs, key));
        }
    }
    if forall|key: Seq<char>| #[trigger] same_field(xs, ys, key) {
        assert forall|key: Seq<char>|
            #![trigger field_index(xs, key)]
            #![trigger field_index(ys, key)]
            match (field_index(xs, key), field_index(ys, key)) {
                (Some(i), Some(j)) => 0 <= i < xs.len() && same(xs[i].1, ys[j].1),
                (None, None) => true,
                _ => false,
            } by {
            assert(same_field(xs, ys, key));
        }
    }
}

/// Whether two values are equal.
pub fn values_same(a: &Value, b: &Value) -> (r: bool)
    ensures
        r == same(a@, b@),
    decreases a@,
{
    broadcast use lemma_array_view;

    match (a, b) {
        (Value::String(x), Value::String(y)) => *x == *y,
        (Value::Number(x), Value::Number(y)) => *x == *y,
        (Value::Float(x), Value::Float(y)) => floats_equal(x.bits, y.bits),
        (Value::Bool(x), Value::Bool(y)) => *x == *y,
        (Value::Atom(x), Value::Atom(y)) => *x == *y,
        (Value::Bytes(x), Value::Bytes(y)) => bytes_equal(x.as_slice(), y.as_slice()),
        (Value::Array(xs), Value::Array(ys)) => {
            if xs.len() != ys.len() {
                return false;
            }
            let mut i: usize = 0;
            while i < xs.len()
                invariant
                    i <= xs@.len(),
                    xs@.len() == ys@.len(),
                    a@ == ValueModel::Array(values_view(xs@)),
                    b@ == ValueModel::Array(values_view(ys@)),
                    forall|j: int| 0 <= j < i ==> same(#[trigger] a@->Array_0[j], b@->Array_0[j]),
                decreases xs@.len() - i,
            {
                assert(decreases_to!(a@ => a@->Array_0));
                assert(decreases_to!(a@->Array_0 => a@->Array_0[i as int]));
                if !values_same(&xs[i], &ys[i]) {
                    assert(!same(a@->Array_0[i as int], b@->Array_0[i as int]));
                    return false;
                }
                i += 1;
            }
            true
        },
        (Value::Dict(xs), Value::Dict(ys)) => {
            let n: usize = xs.len();
            let m: usize = ys.len();
            let mut i: usize = 0;
            while i < n
                invariant
                    i <= n,
                    n == xs@.len(),
                    a@ == ValueModel::Dict(xs@),
                    b@ == ValueModel::Dict(ys@),
                    forall|j: int| 0 <= j < i ==> same_field(xs@, ys@, (#[trigger] xs@[j]).0),
                decreases n - i,
            {
                if let Some((name, _)) = xs.get_index(i) {
                    proof {
                        lemma_field_index(xs@, name@);
                        lemma_field_index(ys@, name@);
                    }
                    if let (Some(v), Some(w)) = (xs.get(name.as_str()), ys.get(name.as_str())) {
                        proof {
                            let at = field_index(xs@, name@)->0;
                            assert(decreases_to!(a@ => a@->Dict_0));
                            assert(decreases_to!(a@->Dict_0 => a@->Dict_0[at]));
                            assert(decreases_to!(xs@[at] => xs@[at].1));
                        }
                        if !values_same(v, w) {
                            assert(!same_field(xs@, ys@, name@));
                            return false;
                        }
                    } else {
                        assert(!same_field(xs@, ys@, name@));
                        return false;
                    }
                }
                i += 1;
            }
            let mut k: usize = 0;
            while k < m
                invariant
                    k <= m,
                    m == ys@.len(),
                    a@ == ValueModel::Dict(xs@),
                    b@ == ValueModel::Dict(ys@),
                    forall|j: int| 0 <= j < k ==> field(xs@, (#[trigger] ys@[j]).0) is Some,
                decreases m - k,
            {
                if let Some((name, _)) = ys.get_index(k) {
                    if !xs.contains_key(name.as_str()) {
                        proof {
                            lemma_field_index(ys@, name@);
                            assert(!same_field(xs@, ys@, name@));
                        }
                        return false;
                    }
                }
                k += 1;
            }
            proof {
                assert forall|key: Seq<char>| #[trigger] same_field(xs@, ys@, key) by {
                    lemma_field_index(xs@, key);
                    lemma_field_index(ys@, key);
                    if let Some(at) = field_index(xs@, key) {
                        assert(same_field(xs@, ys@, xs@[at].0));
                    } else if let Some(at) = field_index(ys@, key) {
                        assert(field(xs@, ys@[at].0) is Some);
                    }
                }
                lemma_same_by_fields(xs@, ys@);
            }
            true
        },
        (Value::Null, Value::Null) => true,
        (Value::Unit, Value::Unit) => true,
        _ => false,
    }
}

impl PartialEq for Value {
    fn eq(&self, other: &Value) -> (r: bool) {
        values_same(self, other)
    }
}

impl vstd::std_specs::cmp::PartialEqSpecImpl for Value {
    open spec fn obeys_eq_spec() -> bool {
        true
    }

    open spec fn eq_spec(&self, other: &Value) -> bool {
        same(self@, other@)
    }
}

/// Where names are distinct, the field of the name at `i` is the one at `i`.
pub proof fn lemma_field_at(entries: Seq<(Seq<char>, ValueModel)>, i: int)
    requires
        distinct_fields(entries),
        0 <= i < entries.len(),
    ensures
        field_index(entries, entries[i].0) == Some(i),
        field(entries, entries[i].0) == Some(entries[i].1),
{
    lemma_field_index(entries, entries[i].0);
}

/// The names of a dict's fields.
pub open spec fn field_names(entries: Seq<(Seq<char>, ValueModel)>) -> Seq<Seq<char>> {
    Seq::new(entries.len(), |i: int| entries[i].0)
}

proof fn lemma_names_distinct(entries: Seq<(Seq<char>, ValueModel)>)
    requires
        distinct_fields(entries),
    ensures
        field_names(entries).no_duplicates(),
{
    let names = field_names(entries);
    assert forall|a: int, b: int|
        0 <= a < names.len() && 0 <= b < names.len() && a != b implies names[a] != names[b] by {
        if a < b {
            assert(entries[a].0 != entries[b].0);
        } else {
            assert(entries[b].0 != entries[a].0);
        }
    }
}

/// A dict that names only fields of another has no more fields than that; where
/// it has as many, it has the same names.
proof fn lemma_names_bound(xs: Seq<(Seq<char>, ValueModel)>, ys: Seq<(Seq<char>, ValueModel)>)
    requires
        distinct_fields(xs),
        distinct_fields(ys),
        forall|i: int| 0 <= i < xs.len() ==> field(ys, (#[trigger] xs[i]).0) is Some,
    ensures
        xs.len() <= ys.len(),
        xs.len() == ys.len() ==> field_names(xs).to_set() == field_names(ys).to_set(),
{
    let kx = field_names(xs);
    let ky = field_names(ys);
    lemma_names_distinct(xs);
    lemma_names_distinct(ys);
    kx.unique_seq_to_set();
    ky.unique_seq_to_set();
    assert(kx.to_set().subset_of(ky.to_set())) by {
        assert forall|k: Seq<char>| kx.to_set().contains(k) implies ky.to_set().contains(k) by {
            let a = choose|a: int| 0 <= a < kx.len() && kx[a] == k;
            assert(field(ys, xs[a].0) is Some);
            lemma_field_index(ys, xs[a].0);
            let b = field_index(ys, xs[a].0)->0;
            assert(ky[b] == k);
        }
    }
    vstd::set_lib::lemma_len_subset(kx.to_set(), ky.to_set());
    if xs.len() == ys.len() {
        vstd::set_lib::lemma_subset_equality(kx.to_set(), ky.to_set());
    }
}

/// Equality of values is symmetric.
pub proof fn law_same_symmetric(a: ValueModel, b: ValueModel)
    ensures
        same(a, b) == same(b, a),
    decreases a,
{
    match (a, b) {
        (ValueModel::Array(xs), ValueModel::Array(ys)) => {
            assert forall|i: int| 0 <= i < xs.len() && xs.len() == ys.len() implies same(
                #[trigger] xs[i],
                ys[i],
            ) == same(ys[i], xs[i]) by {
                law_same_symmetric(xs[i], ys[i]);
            }
            if same(a, b) {
                assert forall|i: int| 0 <= i < ys.len() implies same(#[trigger] ys[i], xs[i]) by {
                    assert(same(xs[i], ys[i]));
                }
            }
            if same(b, a) {
                assert forall|i: int| 0 <= i < xs.len() implies same(#[trigger] xs[i], ys[i]) by {
                    assert(same(ys[i], xs[i]));
                }
            }
        },
        (ValueModel::Dict(xs), ValueModel::Dict(ys)) => {
            assert forall|key: Seq<char>| #[trigger]
                same_field(xs, ys, key) == same_field(ys, xs, key) by {
                lemma_field_index(xs, key);
                if let (Some(x), Some(y)) = (field(xs, key), field(ys, key)) {
                    let i = field_index(xs, key)->0;
                    assert(decreases_to!(xs => xs[i]));
                    law_same_symmetric(xs[i].1, y);
                }
            }
            lemma_same_by_fields(xs, ys);
            lemma_same_by_fields(ys, xs);
            if same(a, b) {
                assert forall|key: Seq<char>| #[trigger] same_field(ys, xs, key) by {
                    assert(same_field(xs, ys, key));
                }
            }
            if same(b, a) {
                assert forall|key: Seq<char>| #[trigger] same_field(xs, ys, key) by {
                    assert(same_field(ys, xs, key));
                }
            }
        },
        _ => {},
    }
}

/// Dicts that name each field once are equal exactly where they have as many
/// fields, and each field of the one is a field of the other with the same
/// value.
pub proof fn law_same_dicts(xs: Seq<(Seq<char>, ValueModel)>, ys: Seq<(Seq<char>, ValueModel)>)
    requires
        distinct_fields(xs),
        distinct_fields(ys),
    ensures
        same(ValueModel::Dict(xs), ValueModel::Dict(ys)) <==> xs.len() == ys.len() && forall|i: int|
            0 <= i < xs.len() ==> field(ys, (#[trigger] xs[i]).0) is Some && same(
                xs[i].1,
                field(ys, xs[i].0)->0,
            ),
{
    lemma_same_by_fields(xs, ys);
    if same(ValueModel::Dict(xs), ValueModel::Dict(ys)) {
        assert forall|i: int| 0 <= i < xs.len() implies field(ys, (#[trigger] xs[i]).0) is Some
            && same(xs[i].1, field(ys, xs[i].0)->0) by {
            lemma_field_at(xs, i);
            assert(same_field(xs, ys, xs[i].0));
        }
        assert forall|j: int| 0 <= j < ys.len() implies field(xs, (#[trigger] ys[j]).0) is Some by {
            lemma_field_at(ys, j);
            assert(same_field(xs, ys, ys[j].0));
        }
        lemma_names_bound(xs, ys);
        lemma_names_bound(ys, xs);
    }
    if xs.len() == ys.len() && forall|i: int|
        0 <= i < xs.len() ==> field(ys, (#[trigger] xs[i]).0) is Some && same(
            xs[i].1,
            field(ys, xs[i].0)->0,
        ) {
        lemma_names_bound(xs, ys);
        assert forall|key: Seq<char>| #[trigger] same_field(xs, ys, key) by {
            lemma_field_index(xs, key);
            lemma_field_index(ys, key);
            if let Some(i) = field_index(xs, key) {
                assert(field(ys, xs[i].0) is Some);
            } else if let Some(j) = field_index(ys, key) {
                assert(field_names(ys)[j] == key);
                assert(field_names(ys).to_set().contains(key));
                assert(field_names(xs).contains(key));
                let i = choose|i: int| 0 <= i < field_names(xs).len() && field_names(xs)[i] == key;
                assert(xs[i].0 == key);
            }
        }
    }
}

/// Whether a NaN occurs anywhere in a value.
pub open spec fn holds_nan(v: ValueModel) -> bool
    decreases v,
{
    match v {
        ValueModel::Float { bits, .. } => float_is_nan(bits),
        ValueModel::Array(items) => exists|i: int|
            0 <= i < items.len() && holds_nan(#[trigger] items[i]),
        ValueModel::Dict(entries) => exists|i: int|
            0 <= i < entries.len() && holds_nan((#[trigger] entries[i]).1),
        _ => false,
    }
}

/// A value without a NaN in it equals itself.
pub proof fn law_same_reflexive(v: ValueModel)
    requires
        !holds_nan(v),
    ensures
        same(v, v),
    decreases v,
{
    match v {
        ValueModel::Array(items) => {
            assert forall|i: int| 0 <= i < items.len() implies same(#[trigger] items[i], items[i]) by {
                law_same_reflexive(items[i]);
            }
        },
        ValueModel::Dict(entries) => {
            assert forall|key: Seq<char>| #[trigger] same_field(entries, entries, key) by {
                lemma_field_index(entries, key);
                if let Some(i) = field_index(entries, key) {
                    assert(decreases_to!(entries => entries[i]));
                    law_same_reflexive(entries[i].1);
                }
            }
            lemma_same_by_fields(entries, entries);
        },
        _ => {},
    }
}

/// A field is found exactly where some entry has its name; where names are
/// distinct, it is that entry's value.
pub proof fn law_fields_are_found_by_name(
    entries: Seq<(Seq<char>, ValueModel)>,
    key: Seq<char>,
    i: int,
)
    ensures
        field(entries, key) is Some <==> exists|j: int|
            0 <= j < entries.len() && (#[trigger] entries[j]).0 == key,
        distinct_fields(entries) && 0 <= i < entries.len() ==> field(entries, entries[i].0) == Some(
            entries[i].1,
        ),
{
    lemma_field_index(entries, key);
    if let Some(j) = field_index(entries, key) {
        assert(entries[j].0 == key);
    }
    if distinct_fields(entries) && 0 <= i < entries.len() {
        lemma_field_at(entries, i);
    }
}

/// Setting a field adds one exactly where there was none of that name, and then
/// puts it last.
pub proof fn law_set_field_adds_one(
    entries: Seq<(Seq<char>, ValueModel)>,
    key: Seq<char>,
    value: ValueModel,
)
    ensures
        field(entries, key) is None ==> with_field(entries, key, value) == entries.push(
            (key, value),
        ),
        field(entries, key) is Some ==> with_field(entries, key, value).len() == entries.len(),
        field(with_field(entries, key, value), key) == Some(value),
{
    lemma_field_index(entries, key);
    law_set_field_then_read(entries, key, value, key);
}

/// A value is of the type of its own kind and of no other, and every value
/// passes for one whose type is not known.
pub proof fn law_values_are_of_their_own_type(v: ValueModel)
    ensures
        inhabits(v, ValueType::String) <==> v is String,
        inhabits(v, ValueType::Number) <==> v is Number,
        inhabits(v, ValueType::Bool) <==> v is Bool,
        inhabits(v, ValueType::Atom) <==> v is Atom,
        inhabits(v, ValueType::Bytes) <==> v is Bytes,
        inhabits(v, ValueType::Dynamic),
        inhabits(v, ValueType::Unknown),
{
}

/// Kinds of values are told apart by name.
pub proof fn law_kind_names_differ(a: ValueModel, b: ValueModel)
    requires
        kind_name_of(a) == kind_name_of(b),
    ensures
        a is String == b is String,
        a is Number == b is Number,
        a is Float == b is Float,
        a is Bool == b is Bool,
        a is Atom == b is Atom,
        a is Bytes == b is Bytes,
        a is Array == b is Array,
        a is Dict == b is Dict,
        a is Null == b is Null,
        a is Unit == b is Unit,
{
    reveal_strlit("string");
    reveal_strlit("number");
    reveal_strlit("float");
    reveal_strlit("bool");
    reveal_strlit("atom");
    reveal_strlit("bytes");
    reveal_strlit("array");
    reveal_strlit("dict");
    reveal_strlit("null");
    reveal_strlit("unit");
    let k = kind_name_of(a);
    assert("string"@.len() == 6 && "number"@.len() == 6 && "float"@.len() == 5 && "bool"@.len() == 4
        && "atom"@.len() == 4 && "bytes"@.len() == 5 && "array"@.len() == 5 && "dict"@.len() == 4
        && "null"@.len() == 4 && "unit"@.len() == 4);
    assert("string"@[0] == 's' && "number"@[0] == 'n' && "float"@[0] == 'f' && "bool"@[0] == 'b'
        && "atom"@[0] == 'a' && "bytes"@[0] == 'b' && "array"@[0] == 'a' && "dict"@[0] == 'd'
        && "null"@[0] == 'n' && "unit"@[0] == 'u');
}

/// How plain values are shown.
pub proof fn law_plain_values_are_shown(n: int, a: Seq<char>, s: Seq<char>)
    ensures
        shown(ValueModel::Number(n)) == decimal(n),
        shown(ValueModel::Bool(true)) == "true"@,
        shown(ValueModel::Bool(false)) == "false"@,
        shown(ValueModel::Atom(a)) == seq![':'] + a,
        shown(ValueModel::String(s)) == quoted(s),
        shown(ValueModel::Null) == "null"@,
        shown(ValueModel::Array(seq![])) == seq!['[', ']'],
        shown(ValueModel::Array(seq![ValueModel::Number(n)])) == seq!['['] + decimal(n) + seq![']'],
        shown(ValueModel::Dict(seq![])) == seq!['{', '}'],
        shown(ValueModel::Dict(seq![(a, ValueModel::Number(n))])) == seq!['{'] + a + seq![':', ' ']
            + decimal(n) + seq!['}'],
{
    reveal_strlit(":");
    reveal_strlit("[");
    reveal_strlit("]");
    reveal_strlit("{");
    reveal_strlit("}");
    reveal_strlit(": ");
    assert(":"@ =~= seq![':']);
    assert(shown(ValueModel::Array(seq![])) =~= seq!['[', ']']);
    reveal_with_fuel(shown, 3);
    reveal_with_fuel(shown_items, 3);
    reveal_with_fuel(shown_fields, 3);
    let one = seq![ValueModel::Number(n)];
    assert(one.last() == ValueModel::Number(n));
    assert(shown_items(one) == decimal(n));
    assert(shown(ValueModel::Array(one)) =~= seq!['['] + decimal(n) + seq![']']);
    assert(shown(ValueModel::Dict(seq![])) =~= seq!['{', '}']);
    let pair = seq![(a, ValueModel::Number(n))];
    assert(pair.last().1 == ValueModel::Number(n));
    assert(shown_fields(pair) =~= a + seq![':', ' '] + decimal(n));
    assert(shown(ValueModel::Dict(pair)) =~= seq!['{'] + a + seq![':', ' '] + decimal(n) + seq![
        '}',
    ]);
}

/// Items and fields are shown in their order, with a comma between neighbours.
pub proof fn law_parts_are_shown_in_order(
    items: Seq<ValueModel>,
    item: ValueModel,
    entries: Seq<(Seq<char>, ValueModel)>,
    name: Seq<char>,
)
    ensures
        items.len() > 0 ==> shown_items(items.push(item)) == shown_items(items) + seq![',', ' ']
            + shown(item),
        entries.len() > 0 ==> shown_fields(entries.push((name, item))) == shown_fields(entries)
            + seq![',', ' '] + name + seq![':', ' '] + shown(item),
{
    reveal_strlit(", ");
    reveal_strlit(": ");
    assert(items.push(item).drop_last() =~= items);
    assert(entries.push((name, item)).drop_last() =~= entries);
    if items.len() > 0 {
        assert(shown_items(items.push(item)) =~= shown_items(items) + seq![',', ' '] + shown(item));
    }
    if entries.len() > 0 {
        assert(shown_fields(entries.push((name, item))) =~= shown_fields(entries) + seq![',', ' ']
            + name + seq![':', ' '] + shown(item));
    }
}

/// What is put into a dict is what is read from it; other names stay, and the
/// dict grows by one exactly where the name is new.
pub proof fn law_inserted_fields_are_read_back(
    dict: &mut Dict,
    key: String,
    name: &str,
    value: Value,
    after: Dict,
    read: Option<&Value>,
    other: &str,
    before_other: Option<&Value>,
    after_other: Option<&Value>,
)
    requires
        name@ == key@,
        call_ensures(Dict::get, (&*old(dict), other), before_other),
        call_ensures(Dict::insert, (dict, key, value), ()),
        *final(dict) == after,
        call_ensures(Dict::get, (&after, name), read),
        call_ensures(Dict::get, (&after, other), after_other),
    ensures
        read matches Some(v) && v@ == value@,
        other@ != name@ ==> (after_other is Some <==> before_other is Some),
        other@ != name@ ==> (after_other matches Some(v) ==> v@ == before_other->0@),
{
    law_set_field_then_read(old(dict)@, key@, value@, other@);
}

} // verus!
