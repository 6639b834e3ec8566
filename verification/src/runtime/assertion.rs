//! Assertions: both sides are evaluated, the operator is applied, and the
//! values are handed back for the report.
use vstd::prelude::*;
use vstd::string::*;
use vstd::utf8::*;
use crate::ast::{Assert, AssertModel, ComparisonOp, ExprModel};
use crate::runtime::eval::{eval, evaluated, Scope};
use crate::runtime::value::{
    bytes_equal, field, field_index, float_is_nan, float_is_zero, kind_name_of, law_same_symmetric,
    lemma_array_view, same, values_same, values_view, Value, ValueModel,
};
use crate::runtime::{RuntimeError, RuntimeErrorModel};
use crate::text::{
    contains_text, law_text_order_by_first_difference, lemma_text_less_trichotomy, occurs_in,
    str_less, text_less,
};

verus! {

/// What an assertion came to.
pub struct AssertResult {
    pub passed: bool,
    pub left: Value,
    pub right: Option<Value>,
    pub op: Option<ComparisonOp>,
}

pub ghost struct AssertResultModel {
    pub passed: bool,
    pub left: ValueModel,
    pub right: Option<ValueModel>,
    pub op: Option<ComparisonOp>,
}

impl AssertResult {
    pub open spec fn view(&self) -> AssertResultModel {
        AssertResultModel {
            passed: self.passed,
            left: self.left@,
            right: match self.right {
                Some(v) => Some(v@),
                None => None,
            },
            op: self.op,
        }
    }
}

/// How two values of an ordered type compare.
#[derive(Debug, Clone, Copy, PartialEq, Eq, Structural)]
pub enum Order {
    Less,
    Equal,
    Greater,
}

/// Whether a bare `assert` of the value passes.
pub open spec fn truthy(v: ValueModel) -> bool {
    match v {
        ValueModel::Bool(b) => b,
        ValueModel::Number(n) => n != 0,
        ValueModel::Float { bits, .. } => !float_is_zero(bits),
        ValueModel::String(s) => s.len() > 0,
        ValueModel::Array(items) => items.len() > 0,
        ValueModel::Dict(fields) => fields.len() > 0,
        ValueModel::Bytes(b) => b.len() > 0,
        ValueModel::Atom(_) => true,
        ValueModel::Null | ValueModel::Unit => false,
    }
}

/// Equality as assertions see it: a string equals the bytes of its UTF-8
/// encoding; otherwise values are equal when they are the same.
pub open spec fn asserted_equal(left: ValueModel, right: ValueModel) -> bool {
    match (left, right) {
        (ValueModel::String(s), ValueModel::Bytes(b)) => encode_utf8(s) == b,
        (ValueModel::Bytes(b), ValueModel::String(s)) => encode_utf8(s) == b,
        _ => same(left, right),
    }
}

/// The order of two numbers or of two strings.
pub open spec fn ordered(a: ValueModel, b: ValueModel) -> Result<Order, RuntimeErrorModel> {
    match (a, b) {
        (ValueModel::Number(x), ValueModel::Number(y)) => Ok(
            if x < y {
                Order::Less
            } else if x > y {
                Order::Greater
            } else {
                Order::Equal
            },
        ),
        (ValueModel::String(x), ValueModel::String(y)) => Ok(
            if text_less(x, y) {
                Order::Less
            } else if text_less(y, x) {
                Order::Greater
            } else {
                Order::Equal
            },
        ),
        _ => Err(
            RuntimeErrorModel::Eval(
                "cannot order-compare "@ + kind_name_of(a) + " and "@ + kind_name_of(b),
            ),
        ),
    }
}

/// Whether `haystack` contains `needle`: a substring of a string, or an item of
/// an array.
pub open spec fn containing(haystack: ValueModel, needle: ValueModel) -> Result<
    bool,
    RuntimeErrorModel,
> {
    match (haystack, needle) {
        (ValueModel::String(h), ValueModel::String(n)) => Ok(occurs_in(n, h)),
        (ValueModel::Array(items), _) => Ok(
            exists|i: int| 0 <= i < items.len() && same(#[trigger] items[i], needle),
        ),
        _ => Err(
            RuntimeErrorModel::Eval(
                "cannot test whether "@ + kind_name_of(haystack) + " contains "@ + kind_name_of(
                    needle,
                ),
            ),
        ),
    }
}

/// What `Regex::new` says against a pattern; `None` where it compiles.
pub uninterp spec fn regex_defect(pattern: Seq<char>) -> Option<Seq<char>>;

/// Whether `Regex::is_match`, of the regex that a pattern compiles to, finds a
/// match in a text.
pub uninterp spec fn regex_finds(pattern: Seq<char>, subject: Seq<char>) -> bool;

/// `Regex::new` and `Regex::is_match` of the regex crate: compiles the pattern
/// and searches the subject. The result is claimed to be a function of the two
/// texts, and an error to be what the crate shows of the pattern's defect;
/// which texts match is left to the crate.
#[verifier::external_body]
fn regex_is_match(pattern: &str, subject: &str) -> (r: Result<bool, String>)
    ensures
        match r {
            Ok(b) => regex_defect(pattern@) is None && b == regex_finds(pattern@, subject@),
            Err(m) => regex_defect(pattern@) == Some(m@),
        },
{
    match regex::Regex::new(pattern) {
        Ok(re) => Ok(re.is_match(subject)),
        Err(e) => Err(e.to_string()),
    }
}

/// What a regex search comes to, given what the search itself returned.
pub open spec fn search_verdict(
    pattern: Seq<char>,
    found: Result<bool, Seq<char>>,
) -> Result<bool, RuntimeErrorModel> {
    match found {
        Ok(b) => Ok(b),
        Err(m) => Err(RuntimeErrorModel::Eval("invalid regex `"@ + pattern + "`: "@ + m)),
    }
}

/// Whether the text on the left matches the regex on the right.
pub open spec fn matching(subject: ValueModel, pattern: ValueModel) -> Result<
    bool,
    RuntimeErrorModel,
> {
    match (subject, pattern) {
        (ValueModel::String(s), ValueModel::String(p)) => search_verdict(
            p,
            match regex_defect(p) {
                Some(m) => Err(m),
                None => Ok(regex_finds(p, s)),
            },
        ),
        _ => Err(
            RuntimeErrorModel::Eval(
                "`matches` requires string left and string regex right, got "@ + kind_name_of(
                    subject,
                ) + " and "@ + kind_name_of(pattern),
            ),
        ),
    }
}

/// The opposite of a verdict; an error stays an error.
pub open spec fn negated(r: Result<bool, RuntimeErrorModel>) -> Result<bool, RuntimeErrorModel> {
    match r {
        Ok(b) => Ok(!b),
        Err(e) => Err(e),
    }
}

/// Whether two values stand in the relation that an operator names.
pub open spec fn compared(left: ValueModel, right: ValueModel, op: ComparisonOp) -> Result<
    bool,
    RuntimeErrorModel,
> {
    match op {
        ComparisonOp::Eq => Ok(asserted_equal(left, right)),
        ComparisonOp::NotEq => Ok(!asserted_equal(left, right)),
        ComparisonOp::Gt => match ordered(left, right) {
            Ok(o) => Ok(o == Order::Greater),
            Err(e) => Err(e),
        },
        ComparisonOp::Gte => match ordered(left, right) {
            Ok(o) => Ok(o != Order::Less),
            Err(e) => Err(e),
        },
        ComparisonOp::Lt => match ordered(left, right) {
            Ok(o) => Ok(o == Order::Less),
            Err(e) => Err(e),
        },
        ComparisonOp::Lte => match ordered(left, right) {
            Ok(o) => Ok(o != Order::Greater),
            Err(e) => Err(e),
        },
        ComparisonOp::Contains => containing(left, right),
        ComparisonOp::NotContains => negated(containing(left, right)),
        ComparisonOp::Matches => matching(left, right),
        ComparisonOp::NotMatches => negated(matching(left, right)),
    }
}

/// What an assertion comes to in a scope.
pub open spec fn asserted(a: AssertModel, scope: Map<Seq<char>, ValueModel>) -> Result<
    AssertResultModel,
    RuntimeErrorModel,
> {
    match evaluated(a.left, scope) {
        Err(e) => Err(e),
        Ok(left) => match a.op {
            None => Ok(AssertResultModel { passed: truthy(left), left, right: None, op: None }),
            Some(op) => match a.right {
                None => Err(
                    RuntimeErrorModel::Eval(
                        "assert has comparison operator but no right-hand side"@,
                    ),
                ),
                Some(r) => match evaluated(r, scope) {
                    Err(e) => Err(e),
                    Ok(right) => match compared(left, right, op) {
                        Err(e) => Err(e),
                        Ok(passed) => Ok(
                            AssertResultModel { passed, left, right: Some(right), op: Some(op) },
                        ),
                    },
                },
            },
        },
    }
}

/// The operator that says the opposite.
pub open spec fn opposite(op: ComparisonOp) -> ComparisonOp {
    match op {
        ComparisonOp::Eq => ComparisonOp::NotEq,
        ComparisonOp::NotEq => ComparisonOp::Eq,
        ComparisonOp::Gt => ComparisonOp::Lte,
        ComparisonOp::Gte => ComparisonOp::Lt,
        ComparisonOp::Lt => ComparisonOp::Gte,
        ComparisonOp::Lte => ComparisonOp::Gt,
        ComparisonOp::Contains => ComparisonOp::NotContains,
        ComparisonOp::NotContains => ComparisonOp::Contains,
        ComparisonOp::Matches => ComparisonOp::NotMatches,
        ComparisonOp::NotMatches => ComparisonOp::Matches,
    }
}

/// An operator and its opposite never agree, and fail on the same values in the
/// same way.
pub proof fn law_opposite_operators(left: ValueModel, right: ValueModel, op: ComparisonOp)
    ensures
        compared(left, right, opposite(op)) == negated(compared(left, right, op)),
{
}

/// Equality in assertions does not depend on the order of its sides.
pub proof fn law_equality_symmetric(left: ValueModel, right: ValueModel)
    ensures
        asserted_equal(left, right) == asserted_equal(right, left),
{
    law_same_symmetric(left, right);
}

/// A string and bytes are equal, whichever stands on the left, exactly where the
/// bytes are the UTF-8 encoding of the string; bytes that encode no text equal
/// no string. No other values are converted: they are equal where they are the
/// same, and a string inside an array or a dict is never the same as bytes.
pub proof fn law_equality_converts_strings_only(left: ValueModel, right: ValueModel)
    ensures
        forall|s: Seq<char>, b: Seq<u8>| #[trigger]
            asserted_equal(ValueModel::String(s), ValueModel::Bytes(b)) == (encode_utf8(s) == b),
        forall|s: Seq<char>, b: Seq<u8>| #[trigger]
            asserted_equal(ValueModel::Bytes(b), ValueModel::String(s)) == (encode_utf8(s) == b),
        forall|s: Seq<char>, b: Seq<u8>|
            !valid_utf8(b) ==> !(#[trigger] asserted_equal(
                ValueModel::String(s),
                ValueModel::Bytes(b),
            )),
        !(left is String && right is Bytes) && !(left is Bytes && right is String)
            ==> asserted_equal(left, right) == same(left, right),
        left is String && right is Bytes ==> !same(left, right) && !same(right, left),
{
    assert forall|s: Seq<char>, b: Seq<u8>| !valid_utf8(b) implies !(#[trigger] asserted_equal(
        ValueModel::String(s),
        ValueModel::Bytes(b),
    )) by {
        encode_utf8_valid_utf8(s);
    }
}

/// Inside arrays strings and bytes stay apart: with a string on the one side
/// where bytes are on the other, the two are not equal.
pub proof fn law_equality_converts_no_items(xs: Seq<ValueModel>, ys: Seq<ValueModel>, i: int)
    requires
        0 <= i < xs.len(),
        i < ys.len(),
        (xs[i] is String && ys[i] is Bytes) || (xs[i] is Bytes && ys[i] is String),
    ensures
        !asserted_equal(ValueModel::Array(xs), ValueModel::Array(ys)),
{
    assert(!same(xs[i], ys[i]));
}

/// Inside dicts strings and bytes stay apart as well.
pub proof fn law_equality_converts_no_fields(
    xs: Seq<(Seq<char>, ValueModel)>,
    ys: Seq<(Seq<char>, ValueModel)>,
    key: Seq<char>,
)
    requires
        match (field(xs, key), field(ys, key)) {
            (Some(x), Some(y)) => (x is String && y is Bytes) || (x is Bytes && y is String),
            _ => false,
        },
    ensures
        !asserted_equal(ValueModel::Dict(xs), ValueModel::Dict(ys)),
{
    assert(!same(field(xs, key)->0, field(ys, key)->0));
    assert(field_index(xs, key) is Some);
}

/// Swapping the sides of an ordering swaps its direction.
pub proof fn law_order_antisymmetric(a: ValueModel, b: ValueModel)
    requires
        ordered(a, b) is Ok,
    ensures
        ordered(b, a) is Ok,
        (ordered(a, b)->Ok_0 == Order::Less) == (ordered(b, a)->Ok_0 == Order::Greater),
        (ordered(a, b)->Ok_0 == Order::Equal) == (ordered(b, a)->Ok_0 == Order::Equal),
{
    match (a, b) {
        (ValueModel::String(x), ValueModel::String(y)) => {
            lemma_text_less_trichotomy(x, y);
            lemma_text_less_trichotomy(y, x);
        },
        _ => {},
    }
}

/// The model of a verdict.
pub open spec fn verdict_view(r: Result<bool, RuntimeError>) -> Result<bool, RuntimeErrorModel> {
    match r {
        Ok(b) => Ok(b),
        Err(e) => Err(e@),
    }
}

/// Whether a bare `assert` of the value passes.
fn is_truthy(v: &Value) -> (r: bool)
    ensures
        r == truthy(v@),
{
    broadcast use lemma_array_view;

    match v {
        Value::Bool(b) => *b,
        Value::Number(n) => *n != 0,
        Value::Float(x) => !(x.bits == 0 || x.bits == 0x8000_0000_0000_0000),
        Value::String(s) => !s.as_str().is_empty(),
        Value::Array(a) => a.len() > 0,
        Value::Dict(fields) => !fields.is_empty(),
        Value::Bytes(b) => b.len() > 0,
        Value::Atom(_) => true,
        Value::Null | Value::Unit => false,
    }
}

/// Equality as assertions see it.
pub fn values_eq(left: &Value, right: &Value) -> (r: bool)
    ensures
        r == asserted_equal(left@, right@),
{
    match (left, right) {
        (Value::String(s), Value::Bytes(b)) => bytes_equal(s.as_str().as_bytes(), b.as_slice()),
        (Value::Bytes(b), Value::String(s)) => bytes_equal(s.as_str().as_bytes(), b.as_slice()),
        _ => values_same(left, right),
    }
}

/// Compares two values of an ordered type.
fn compare_ord(a: &Value, b: &Value) -> (r: Result<Order, RuntimeError>)
    ensures
        match r {
            Ok(o) => ordered(a@, b@) == Ok::<Order, RuntimeErrorModel>(o),
            Err(e) => ordered(a@, b@) == Err::<Order, RuntimeErrorModel>(e@),
        },
{
    match (a, b) {
        (Value::Number(x), Value::Number(y)) => if *x < *y {
            Ok(Order::Less)
        } else if *x > *y {
            Ok(Order::Greater)
        } else {
            Ok(Order::Equal)
        },
        (Value::String(x), Value::String(y)) => if str_less(x.as_str(), y.as_str()) {
            Ok(Order::Less)
        } else if str_less(y.as_str(), x.as_str()) {
            Ok(Order::Greater)
        } else {
            Ok(Order::Equal)
        },
        _ => Err(
            RuntimeError::Eval(
                String::from_str("cannot order-compare ").concat(a.kind_name()).concat(
                    " and ",
                ).concat(b.kind_name()),
            ),
        ),
    }
}

/// Tests whether one value contains another.
fn contains(haystack: &Value, needle: &Value) -> (r: Result<bool, RuntimeError>)
    ensures
        verdict_view(r) == containing(haystack@, needle@),
{
    broadcast use lemma_array_view;

    match (haystack, needle) {
        (Value::String(h), Value::String(n)) => Ok(contains_text(h.as_str(), n.as_str())),
        (Value::Array(items), _) => {
            let mut i: usize = 0;
            while i < items.len()
                invariant
                    i <= items@.len(),
                    haystack@ == ValueModel::Array(values_view(items@)),
                    forall|j: int|
                        0 <= j < i ==> !same(#[trigger] values_view(items@)[j], needle@),
                decreases items@.len() - i,
            {
                if values_same(&items[i], needle) {
                    proof {
                        let found = haystack@->Array_0;
                        assert(same(found[i as int], needle@));
                        assert(containing(haystack@, needle@) == Ok::<bool, RuntimeErrorModel>(true));
                    }
                    return Ok(true);
                }
                i += 1;
            }
            Ok(false)
        },
        _ => Err(
            RuntimeError::Eval(
                String::from_str("cannot test whether ").concat(haystack.kind_name()).concat(
                    " contains ",
                ).concat(needle.kind_name()),
            ),
        ),
    }
}

/// What a regex search comes to, given what the search itself returned.
pub fn judge_search(pattern: &str, found: Result<bool, String>) -> (r: Result<bool, RuntimeError>)
    ensures
        verdict_view(r) == search_verdict(
            pattern@,
            match found {
                Ok(b) => Ok(b),
                Err(m) => Err(m@),
            },
        ),
{
    match found {
        Ok(b) => Ok(b),
        Err(m) => Err(
            RuntimeError::Eval(
                String::from_str("invalid regex `").concat(pattern).concat("`: ").concat(
                    m.as_str(),
                ),
            ),
        ),
    }
}

/// Tests whether the text on the left matches the regex on the right. The regex
/// is compiled for each assertion.
fn matches_regex(subject: &Value, pattern: &Value) -> (r: Result<bool, RuntimeError>)
    ensures
        verdict_view(r) == matching(subject@, pattern@),
{
    match (subject, pattern) {
        (Value::String(s), Value::String(p)) => judge_search(
            p.as_str(),
            regex_is_match(p.as_str(), s.as_str()),
        ),
        _ => Err(
            RuntimeError::Eval(
                String::from_str(
                    "`matches` requires string left and string regex right, got ",
                ).concat(subject.kind_name()).concat(" and ").concat(pattern.kind_name()),
            ),
        ),
    }
}

fn negate(r: Result<bool, RuntimeError>) -> (n: Result<bool, RuntimeError>)
    ensures
        verdict_view(n) == negated(verdict_view(r)),
{
    match r {
        Ok(b) => Ok(!b),
        Err(e) => Err(e),
    }
}

/// Tests whether two values stand in the relation that an operator names.
pub fn compare(left: &Value, right: &Value, op: ComparisonOp) -> (r: Result<bool, RuntimeError>)
    ensures
        verdict_view(r) == compared(left@, right@, op),
{
    match op {
        ComparisonOp::Eq => Ok(values_eq(left, right)),
        ComparisonOp::NotEq => Ok(!values_eq(left, right)),
        ComparisonOp::Gt => match compare_ord(left, right) {
            Ok(o) => Ok(o == Order::Greater),
            Err(e) => Err(e),
        },
        ComparisonOp::Gte => match compare_ord(left, right) {
            Ok(o) => Ok(o != Order::Less),
            Err(e) => Err(e),
        },
        ComparisonOp::Lt => match compare_ord(left, right) {
            Ok(o) => Ok(o == Order::Less),
            Err(e) => Err(e),
        },
        ComparisonOp::Lte => match compare_ord(left, right) {
            Ok(o) => Ok(o != Order::Greater),
            Err(e) => Err(e),
        },
        ComparisonOp::Contains => contains(left, right),
        ComparisonOp::NotContains => negate(contains(left, right)),
        ComparisonOp::Matches => matches_regex(left, right),
        ComparisonOp::NotMatches => negate(matches_regex(left, right)),
    }
}

/// Evaluates an assertion.
pub fn eval_assert(a: &Assert, scope: &Scope) -> (r: Result<AssertResult, RuntimeError>)
    ensures
        match r {
            Ok(res) => asserted(a@, scope@) == Ok::<AssertResultModel, RuntimeErrorModel>(res@),
            Err(e) => asserted(a@, scope@) == Err::<AssertResultModel, RuntimeErrorModel>(e@),
        },
{
    let left: Value = match eval(&a.left, scope) {
        Ok(v) => v,
        Err(e) => {
            return Err(e);
        },
    };
    match a.op {
        None => {
            let passed: bool = is_truthy(&left);
            Ok(AssertResult { passed, left, right: None, op: None })
        },
        Some(op) => match &a.right {
            None => Err(
                RuntimeError::Eval(
                    String::from_str("assert has comparison operator but no right-hand side"),
                ),
            ),
            Some(r) => {
                let right: Value = match eval(r, scope) {
                    Ok(v) => v,
                    Err(e) => {
                        return Err(e);
                    },
                };
                match compare(&left, &right, op) {
                    Ok(passed) => Ok(
                        AssertResult { passed, left, right: Some(right), op: Some(op) },
                    ),
                    Err(e) => Err(e),
                }
            },
        },
    }
}

/// Numbers are compared as integers.
pub proof fn law_numbers_compare_as_integers(x: int, y: int)
    ensures
        compared(ValueModel::Number(x), ValueModel::Number(y), ComparisonOp::Gt) == Ok::<
            bool,
            RuntimeErrorModel,
        >(x > y),
        compared(ValueModel::Number(x), ValueModel::Number(y), ComparisonOp::Gte) == Ok::<
            bool,
            RuntimeErrorModel,
        >(x >= y),
        compared(ValueModel::Number(x), ValueModel::Number(y), ComparisonOp::Lt) == Ok::<
            bool,
            RuntimeErrorModel,
        >(x < y),
        compared(ValueModel::Number(x), ValueModel::Number(y), ComparisonOp::Lte) == Ok::<
            bool,
            RuntimeErrorModel,
        >(x <= y),
        compared(ValueModel::Number(x), ValueModel::Number(y), ComparisonOp::Eq) == Ok::<
            bool,
            RuntimeErrorModel,
        >(x == y),
        compared(ValueModel::Number(x), ValueModel::Number(y), ComparisonOp::NotEq) == Ok::<
            bool,
            RuntimeErrorModel,
        >(x != y),
{
}

/// Texts are compared by the first character in which they differ, and a text
/// is less than every longer one that starts with it.
pub proof fn law_texts_compare_by_first_difference(
    p: Seq<char>,
    c: char,
    d: char,
    x: Seq<char>,
    y: Seq<char>,
    op: ComparisonOp,
)
    requires
        c < d,
    ensures
        ({
            let less = ValueModel::String(p + seq![c] + x);
            let greater = ValueModel::String(p + seq![d] + y);
            let start = ValueModel::String(p);
            &&& compared(less, greater, ComparisonOp::Lt) == Ok::<bool, RuntimeErrorModel>(true)
            &&& compared(less, greater, ComparisonOp::Lte) == Ok::<bool, RuntimeErrorModel>(true)
            &&& compared(less, greater, ComparisonOp::Gt) == Ok::<bool, RuntimeErrorModel>(false)
            &&& compared(less, greater, ComparisonOp::Gte) == Ok::<bool, RuntimeErrorModel>(false)
            &&& compared(greater, less, ComparisonOp::Gt) == Ok::<bool, RuntimeErrorModel>(true)
            &&& compared(start, less, ComparisonOp::Lt) == Ok::<bool, RuntimeErrorModel>(true)
            &&& compared(less, start, ComparisonOp::Gt) == Ok::<bool, RuntimeErrorModel>(true)
            &&& compared(start, start, ComparisonOp::Lt) == Ok::<bool, RuntimeErrorModel>(false)
            &&& compared(start, start, ComparisonOp::Gt) == Ok::<bool, RuntimeErrorModel>(false)
            &&& compared(start, start, ComparisonOp::Lte) == Ok::<bool, RuntimeErrorModel>(true)
            &&& compared(start, start, ComparisonOp::Gte) == Ok::<bool, RuntimeErrorModel>(true)
        }),
{
    law_text_order_by_first_difference(p, c, d, x, y);
    law_text_order_by_first_difference(p, d, c, y, x);
    law_text_order_by_first_difference(p, c, c, x, x);
}

/// The ordering operators apply to two numbers and to two strings, and to no
/// other values.
pub proof fn law_only_numbers_and_texts_are_ordered(
    left: ValueModel,
    right: ValueModel,
    op: ComparisonOp,
)
    requires
        op == ComparisonOp::Gt || op == ComparisonOp::Gte || op == ComparisonOp::Lt || op
            == ComparisonOp::Lte,
    ensures
        compared(left, right, op) is Ok <==> (left is Number && right is Number) || (left is String
            && right is String),
        compared(left, right, op) matches Err(e) ==> e is Eval,
{
}

/// A text contains exactly what stands somewhere in it.
pub proof fn law_texts_contain_their_parts(
    before: Seq<char>,
    part: Seq<char>,
    after: Seq<char>,
    hay: Seq<char>,
)
    ensures
        compared(
            ValueModel::String(before + part + after),
            ValueModel::String(part),
            ComparisonOp::Contains,
        ) == Ok::<bool, RuntimeErrorModel>(true),
        compared(
            ValueModel::String(before + part + after),
            ValueModel::String(part),
            ComparisonOp::NotContains,
        ) == Ok::<bool, RuntimeErrorModel>(false),
        compared(ValueModel::String(hay), ValueModel::String(part), ComparisonOp::Contains) is Ok,
        compared(ValueModel::String(hay), ValueModel::String(part), ComparisonOp::Contains) == Ok::<
            bool,
            RuntimeErrorModel,
        >(true) ==> exists|a: Seq<char>, b: Seq<char>| hay == #[trigger] (a + part + b),
{
    let whole = before + part + after;
    let i = before.len() as int;
    assert(whole.subrange(i, i + part.len()) =~= part);
    if occurs_in(part, hay) {
        let k = choose|k: int|
            0 <= k && k + part.len() <= hay.len() && #[trigger] hay.subrange(k, k + part.len())
                == part;
        assert(hay =~= hay.take(k) + part + hay.skip(k + part.len()));
    }
}

/// An array contains exactly the values that equal one of its items.
pub proof fn law_arrays_contain_their_items(items: Seq<ValueModel>, needle: ValueModel, i: int)
    ensures
        compared(ValueModel::Array(items), needle, ComparisonOp::Contains) is Ok,
        0 <= i < items.len() && same(items[i], needle) ==> compared(
            ValueModel::Array(items),
            needle,
            ComparisonOp::Contains,
        ) == Ok::<bool, RuntimeErrorModel>(true),
        (forall|k: int| 0 <= k < items.len() ==> !same(#[trigger] items[k], needle)) ==> compared(
            ValueModel::Array(items),
            needle,
            ComparisonOp::Contains,
        ) == Ok::<bool, RuntimeErrorModel>(false),
{
    let hay = ValueModel::Array(items);
    let inside = hay->Array_0;
    assert(inside == items);
    if 0 <= i < items.len() && same(items[i], needle) {
        assert(same(inside[i], needle));
        assert(containing(hay, needle) == Ok::<bool, RuntimeErrorModel>(true));
    }
}

/// Nothing but texts and arrays can contain anything, and a text contains only
/// texts.
pub proof fn law_only_texts_and_arrays_contain(left: ValueModel, right: ValueModel)
    ensures
        compared(left, right, ComparisonOp::Contains) is Ok <==> left is Array || (left is String
            && right is String),
{
}

/// A value passes a bare assertion exactly where it is not the empty or zero
/// value of its kind.
pub proof fn law_bare_assertions_test_for_nothing(v: ValueModel)
    ensures
        v is Bool ==> truthy(v) == asserted_equal(v, ValueModel::Bool(true)),
        v is Number ==> truthy(v) == !asserted_equal(v, ValueModel::Number(0)),
        v is Float && !float_is_nan(v->bits) ==> truthy(v) == !asserted_equal(
            v,
            ValueModel::Float { bits: 0, text: seq![] },
        ),
        v is String ==> truthy(v) == !asserted_equal(v, ValueModel::String(seq![])),
        v is Bytes ==> truthy(v) == !asserted_equal(v, ValueModel::Bytes(seq![])),
        v is Array ==> truthy(v) == !asserted_equal(v, ValueModel::Array(seq![])),
        v is Dict ==> truthy(v) == !asserted_equal(v, ValueModel::Dict(seq![])),
        v is Atom ==> truthy(v),
        v is Null || v is Unit ==> !truthy(v),
        v is Float && float_is_nan(v->bits) ==> truthy(v),
{
    assert(ValueModel::Bool(true)->Bool_0);
    match v {
        ValueModel::String(s) => {
            if s.len() == 0 {
                assert(s =~= seq![]);
            }
        },
        ValueModel::Bytes(b) => {
            if b.len() == 0 {
                assert(b =~= seq![]);
            }
        },
        ValueModel::Dict(fields) => {
            let nothing = Seq::<(Seq<char>, ValueModel)>::empty();
            if fields.len() > 0 {
                let name = fields.last().0;
                assert(field_index(fields, name) is Some);
                assert(field_index(nothing, name) is None);
            } else {
                assert(fields =~= nothing);
            }
        },
        ValueModel::Float { bits, .. } => {
            assert(!float_is_nan(0));
        },
        _ => {},
    }
}

/// Values of one kind without parts are equal where they hold the same.
pub proof fn law_equality_of_plain_values(
    s: Seq<char>,
    t: Seq<char>,
    a: Seq<u8>,
    b: Seq<u8>,
    p: bool,
    q: bool,
)
    ensures
        asserted_equal(ValueModel::String(s), ValueModel::String(t)) == (s == t),
        asserted_equal(ValueModel::Atom(s), ValueModel::Atom(t)) == (s == t),
        asserted_equal(ValueModel::Bytes(a), ValueModel::Bytes(b)) == (a == b),
        asserted_equal(ValueModel::Bool(p), ValueModel::Bool(q)) == (p == q),
        asserted_equal(ValueModel::Null, ValueModel::Null),
        asserted_equal(ValueModel::Unit, ValueModel::Unit),
        !asserted_equal(ValueModel::Null, ValueModel::Unit),
        !asserted_equal(ValueModel::String(s), ValueModel::Atom(t)),
        !asserted_equal(ValueModel::String(s), ValueModel::Bool(p)),
        !asserted_equal(ValueModel::Null, ValueModel::Bool(p)),
        !asserted_equal(ValueModel::Null, ValueModel::String(s)),
{
}

/// A number equals numbers alone: no text, no truth value, no float.
pub proof fn law_numbers_equal_numbers_only(n: int, v: ValueModel)
    ensures
        asserted_equal(ValueModel::Number(n), v) <==> v == ValueModel::Number(n),
        asserted_equal(v, ValueModel::Number(n)) <==> v == ValueModel::Number(n),
{
}

/// Arrays are equal where they have as many items and the items at each place
/// are the same.
pub proof fn law_equality_of_arrays(xs: Seq<ValueModel>, ys: Seq<ValueModel>)
    ensures
        asserted_equal(ValueModel::Array(xs), ValueModel::Array(ys)) <==> xs.len() == ys.len() && (
        forall|i: int| 0 <= i < xs.len() ==> same(#[trigger] xs[i], ys[i])),
{
}

/// `matches` looks for the pattern on its right in the text on its left, and
/// fails where the pattern is none.
pub proof fn law_matches_searches_its_left(s: Seq<char>, p: Seq<char>)
    ensures
        compared(ValueModel::String(s), ValueModel::String(p), ComparisonOp::Matches) is Ok
            <==> regex_defect(p) is None,
        regex_defect(p) is None ==> compared(
            ValueModel::String(s),
            ValueModel::String(p),
            ComparisonOp::Matches,
        ) == Ok::<bool, RuntimeErrorModel>(regex_finds(p, s)),
        regex_defect(p) is None ==> compared(
            ValueModel::String(s),
            ValueModel::String(p),
            ComparisonOp::NotMatches,
        ) == Ok::<bool, RuntimeErrorModel>(!regex_finds(p, s)),
{
}

/// An assertion compares what its left side evaluates to with what its right
/// side does, in that order, and reports both.
pub proof fn law_assertions_compare_left_with_right(
    a: AssertModel,
    scope: Map<Seq<char>, ValueModel>,
    x: int,
    y: int,
)
    requires
        evaluated(a.left, scope) == Ok::<ValueModel, RuntimeErrorModel>(ValueModel::Number(x)),
        a.right matches Some(r) ==> evaluated(r, scope) == Ok::<ValueModel, RuntimeErrorModel>(
            ValueModel::Number(y),
        ),
    ensures
        a.op is None ==> asserted(a, scope) == Ok::<AssertResultModel, RuntimeErrorModel>(
            AssertResultModel {
                passed: x != 0,
                left: ValueModel::Number(x),
                right: None,
                op: None,
            },
        ),
        a.op is Some && a.right is None ==> asserted(a, scope) is Err,
        a.op is Some && a.right is Some ==> (asserted(a, scope) matches Ok(r) ==> r.left
            == ValueModel::Number(x) && r.right == Some(ValueModel::Number(y)) && r.op == a.op),
        a.right is Some ==> {
            &&& a.op == Some(ComparisonOp::Lt) ==> (asserted(a, scope) matches Ok(r) && r.passed == (
            x < y))
            &&& a.op == Some(ComparisonOp::Lte) ==> (asserted(a, scope) matches Ok(r) && r.passed
                == (x <= y))
            &&& a.op == Some(ComparisonOp::Gt) ==> (asserted(a, scope) matches Ok(r) && r.passed == (
            x > y))
            &&& a.op == Some(ComparisonOp::Gte) ==> (asserted(a, scope) matches Ok(r) && r.passed
                == (x >= y))
            &&& a.op == Some(ComparisonOp::Eq) ==> (asserted(a, scope) matches Ok(r) && r.passed == (
            x == y))
            &&& a.op == Some(ComparisonOp::NotEq) ==> (asserted(a, scope) matches Ok(r) && r.passed
                == (x != y))
            &&& a.op == Some(ComparisonOp::Contains) ==> asserted(a, scope) is Err
            &&& a.op == Some(ComparisonOp::Matches) ==> asserted(a, scope) is Err
        },
{
}

/// An assertion of values of any kind passes where its operator holds of them,
/// and fails to evaluate where a side does or the operator does not apply.
pub proof fn law_assertions_pass_where_the_operator_holds(
    a: AssertModel,
    scope: Map<Seq<char>, ValueModel>,
    op: ComparisonOp,
    r: ExprModel,
)
    requires
        a.op == Some(op),
        a.right == Some(r),
    ensures
        asserted(a, scope) is Ok <==> (evaluated(a.left, scope) matches Ok(x) && evaluated(r, scope)
            matches Ok(y) && compared(x, y, op) is Ok),
        asserted(a, scope) matches Ok(res) ==> compared(res.left, res.right->0, op) == Ok::<
            bool,
            RuntimeErrorModel,
        >(res.passed) && evaluated(a.left, scope) == Ok::<ValueModel, RuntimeErrorModel>(res.left)
            && evaluated(r, scope) == Ok::<ValueModel, RuntimeErrorModel>(res.right->0),
{
}

/// Comparing two numbers answers as the integers do.
pub proof fn law_compare_orders_numbers(
    left: Value,
    right: Value,
    op: ComparisonOp,
    r: Result<bool, RuntimeError>,
    x: int,
    y: int,
)
    requires
        left@ == ValueModel::Number(x),
        right@ == ValueModel::Number(y),
        call_ensures(compare, (&left, &right, op), r),
    ensures
        op is Lt ==> r == Ok::<bool, RuntimeError>(x < y),
        op is Lte ==> r == Ok::<bool, RuntimeError>(x <= y),
        op is Gt ==> r == Ok::<bool, RuntimeError>(x > y),
        op is Gte ==> r == Ok::<bool, RuntimeError>(x >= y),
        op is Eq ==> r == Ok::<bool, RuntimeError>(x == y),
        op is NotEq ==> r == Ok::<bool, RuntimeError>(x != y),
{
}

} // verus!
