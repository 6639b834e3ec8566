//! Squiggles: `~name` literals. The fragments of a literal are rendered to
//! text, and the squiggle of that name says what value the text stands for.
//! Most are plain strings with a tag; `~hex` and `~b` give bytes.
use vstd::prelude::*;
use vstd::string::*;
use vstd::utf8::{encode_utf8, encode_utf8_decode_utf8, encode_utf8_valid_utf8};
use crate::actor_type::ValueType;
use crate::ast::{fragments_view, StringFragment};
use crate::runtime::eval::{concat_fragments, interpolated, rendered, Scope};
use crate::runtime::value::{inhabits, kind_name_of, Value, ValueModel};
use crate::runtime::{result_view, RuntimeError, RuntimeErrorModel};
use crate::text::{chars_of, nat_digits, str_eq, u64_text};

verus! {

/// A kind of squiggle.
pub trait Squiggle {
    spec fn spec_name(&self) -> Seq<char>;

    spec fn spec_output_type(&self) -> ValueType;

    /// The value that a rendered text stands for.
    spec fn value_of(&self, text: Seq<char>) -> Result<ValueModel, RuntimeErrorModel>;

    fn name(&self) -> (r: &'static str)
        ensures
            r@ == self.spec_name(),
    ;

    /// The type that the squiggle declares for its values.
    fn output_type(&self) -> (r: ValueType)
        ensures
            r == self.spec_output_type(),
    ;

    /// The value that a rendered text stands for.
    fn interpret(&self, text: &str) -> (r: Result<Value, RuntimeError>)
        ensures
            result_view(r) == self.value_of(text@),
    ;

    /// Renders the fragments and interprets the text.
    fn eval(&self, fragments: &Vec<StringFragment>, scope: &Scope) -> (r: Result<
        Value,
        RuntimeError,
    >)
        ensures
            result_view(r) == match rendered(fragments_view(fragments@), scope@) {
                Ok(text) => self.value_of(text),
                Err(e) => Err(e),
            },
    {
        match concat_fragments(fragments, scope) {
            Ok(text) => self.interpret(text.as_str()),
            Err(e) => Err(e),
        }
    }
}

/// `~sql`: a SQL string.
pub struct Sql;

/// `~json`: a JSON string.
pub struct Json;

/// `~hex`: hexadecimal digits, with ASCII white space allowed anywhere between
/// them, for the bytes that they encode.
pub struct Hex;

/// `~re`: a regular expression. The text is raw, so that `\.` or `\d` need no
/// second backslash.
pub struct Re;

/// `~b`: the UTF-8 bytes of the text.
pub struct Bytes;

/// The squiggles that the language has.
#[derive(Debug, Clone, Copy, PartialEq, Eq, Structural)]
pub enum SquiggleKind {
    Sql,
    Json,
    Hex,
    Re,
    Bytes,
}

impl SquiggleKind {
    pub open spec fn spelling(self) -> Seq<char> {
        match self {
            SquiggleKind::Sql => "sql"@,
            SquiggleKind::Json => "json"@,
            SquiggleKind::Hex => "hex"@,
            SquiggleKind::Re => "re"@,
            SquiggleKind::Bytes => "b"@,
        }
    }

    pub open spec fn declared_type(self) -> ValueType {
        match self {
            SquiggleKind::Sql | SquiggleKind::Json | SquiggleKind::Re => ValueType::String,
            SquiggleKind::Hex | SquiggleKind::Bytes => ValueType::Bytes,
        }
    }

    pub open spec fn interpretation(self, text: Seq<char>) -> Result<
        ValueModel,
        RuntimeErrorModel,
    > {
        match self {
            SquiggleKind::Sql | SquiggleKind::Json | SquiggleKind::Re => Ok(
                ValueModel::String(text),
            ),
            SquiggleKind::Bytes => Ok(ValueModel::Bytes(encode_utf8(text))),
            SquiggleKind::Hex => match hex_bytes(text) {
                Ok(b) => Ok(ValueModel::Bytes(b)),
                Err(m) => Err(RuntimeErrorModel::Eval(m)),
            },
        }
    }

    /// The name that stands behind the `~`.
    pub fn keyword(self) -> (r: &'static str)
        ensures
            r@ == self.spelling(),
    {
        match self {
            SquiggleKind::Sql => "sql",
            SquiggleKind::Json => "json",
            SquiggleKind::Hex => "hex",
            SquiggleKind::Re => "re",
            SquiggleKind::Bytes => "b",
        }
    }

    /// The type of the values that it gives.
    pub fn result_type(self) -> (r: ValueType)
        ensures
            r == self.declared_type(),
    {
        match self {
            SquiggleKind::Sql | SquiggleKind::Json | SquiggleKind::Re => ValueType::String,
            SquiggleKind::Hex | SquiggleKind::Bytes => ValueType::Bytes,
        }
    }

    /// The value that a rendered text stands for.
    pub fn interpret_text(self, text: &str) -> (r: Result<Value, RuntimeError>)
        ensures
            result_view(r) == self.interpretation(text@),
    {
        match self {
            SquiggleKind::Sql | SquiggleKind::Json | SquiggleKind::Re => Ok(
                Value::String(String::from_str(text)),
            ),
            SquiggleKind::Bytes => Ok(Value::Bytes(text.as_bytes_vec())),
            SquiggleKind::Hex => match decode_hex(text) {
                Ok(b) => Ok(Value::Bytes(b)),
                Err(e) => Err(e),
            },
        }
    }
}

impl Squiggle for Sql {
    open spec fn spec_name(&self) -> Seq<char> {
        SquiggleKind::Sql.spelling()
    }

    open spec fn spec_output_type(&self) -> ValueType {
        SquiggleKind::Sql.declared_type()
    }

    open spec fn value_of(&self, text: Seq<char>) -> Result<ValueModel, RuntimeErrorModel> {
        SquiggleKind::Sql.interpretation(text)
    }

    fn name(&self) -> &'static str {
        SquiggleKind::Sql.keyword()
    }

    fn output_type(&self) -> ValueType {
        SquiggleKind::Sql.result_type()
    }

    fn interpret(&self, text: &str) -> Result<Value, RuntimeError> {
        SquiggleKind::Sql.interpret_text(text)
    }
}

impl Squiggle for Json {
    open spec fn spec_name(&self) -> Seq<char> {
        SquiggleKind::Json.spelling()
    }

    open spec fn spec_output_type(&self) -> ValueType {
        SquiggleKind::Json.declared_type()
    }

    open spec fn value_of(&self, text: Seq<char>) -> Result<ValueModel, RuntimeErrorModel> {
        SquiggleKind::Json.interpretation(text)
    }

    fn name(&self) -> &'static str {
        SquiggleKind::Json.keyword()
    }

    fn output_type(&self) -> ValueType {
        SquiggleKind::Json.result_type()
    }

    fn interpret(&self, text: &str) -> Result<Value, RuntimeError> {
        SquiggleKind::Json.interpret_text(text)
    }
}

impl Squiggle for Hex {
    open spec fn spec_name(&self) -> Seq<char> {
        SquiggleKind::Hex.spelling()
    }

    open spec fn spec_output_type(&self) -> ValueType {
        SquiggleKind::Hex.declared_type()
    }

    open spec fn value_of(&self, text: Seq<char>) -> Result<ValueModel, RuntimeErrorModel> {
        SquiggleKind::Hex.interpretation(text)
    }

    fn name(&self) -> &'static str {
        SquiggleKind::Hex.keyword()
    }

    fn output_type(&self) -> ValueType {
        SquiggleKind::Hex.result_type()
    }

    fn interpret(&self, text: &str) -> Result<Value, RuntimeError> {
        SquiggleKind::Hex.interpret_text(text)
    }
}

impl Squiggle for Re {
    open spec fn spec_name(&self) -> Seq<char> {
        SquiggleKind::Re.spelling()
    }

    open spec fn spec_output_type(&self) -> ValueType {
        SquiggleKind::Re.declared_type()
    }

    open spec fn value_of(&self, text: Seq<char>) -> Result<ValueModel, RuntimeErrorModel> {
        SquiggleKind::Re.interpretation(text)
    }

    fn name(&self) -> &'static str {
        SquiggleKind::Re.keyword()
    }

    fn output_type(&self) -> ValueType {
        SquiggleKind::Re.result_type()
    }

    fn interpret(&self, text: &str) -> Result<Value, RuntimeError> {
        SquiggleKind::Re.interpret_text(text)
    }
}

impl Squiggle for Bytes {
    open spec fn spec_name(&self) -> Seq<char> {
        SquiggleKind::Bytes.spelling()
    }

    open spec fn spec_output_type(&self) -> ValueType {
        SquiggleKind::Bytes.declared_type()
    }

    open spec fn value_of(&self, text: Seq<char>) -> Result<ValueModel, RuntimeErrorModel> {
        SquiggleKind::Bytes.interpretation(text)
    }

    fn name(&self) -> &'static str {
        SquiggleKind::Bytes.keyword()
    }

    fn output_type(&self) -> ValueType {
        SquiggleKind::Bytes.result_type()
    }

    fn interpret(&self, text: &str) -> Result<Value, RuntimeError> {
        SquiggleKind::Bytes.interpret_text(text)
    }
}

/// The squiggle that a name stands for.
pub open spec fn squiggle_named(name: Seq<char>) -> Option<SquiggleKind> {
    if name == "sql"@ {
        Some(SquiggleKind::Sql)
    } else if name == "json"@ {
        Some(SquiggleKind::Json)
    } else if name == "hex"@ {
        Some(SquiggleKind::Hex)
    } else if name == "re"@ {
        Some(SquiggleKind::Re)
    } else if name == "b"@ {
        Some(SquiggleKind::Bytes)
    } else {
        None
    }
}

/// Every squiggle is found under its own name.
pub proof fn law_squiggle_lookup(kind: SquiggleKind)
    ensures
        squiggle_named(kind.spelling()) == Some(kind),
{
    reveal_strlit("sql");
    reveal_strlit("json");
    reveal_strlit("hex");
    reveal_strlit("re");
    reveal_strlit("b");
    let name = kind.spelling();
    assert("sql"@[0] == 's' && "json"@[0] == 'j' && "hex"@[0] == 'h' && "re"@[0] == 'r' && "b"@[0]
        == 'b');
}

/// What a squiggle gives is of the type that it declares.
pub proof fn law_squiggle_output_type(kind: SquiggleKind, text: Seq<char>)
    ensures
        kind.interpretation(text) matches Ok(v) ==> inhabits(v, kind.declared_type()),
{
}

/// The squiggles by name.
pub struct Registry;

impl Registry {
    /// The squiggles that the language has.
    pub fn global() -> (r: Registry) {
        Registry
    }

    /// The squiggle called `name`.
    pub fn get(&self, name: &str) -> (r: Option<SquiggleKind>)
        ensures
            r == squiggle_named(name@),
    {
        if str_eq(name, "sql") {
            Some(SquiggleKind::Sql)
        } else if str_eq(name, "json") {
            Some(SquiggleKind::Json)
        } else if str_eq(name, "hex") {
            Some(SquiggleKind::Hex)
        } else if str_eq(name, "re") {
            Some(SquiggleKind::Re)
        } else if str_eq(name, "b") {
            Some(SquiggleKind::Bytes)
        } else {
            None
        }
    }
}

/// The spelling of a type in messages.
pub open spec fn type_spelling(ty: ValueType) -> Seq<char> {
    match ty {
        ValueType::String => "String"@,
        ValueType::Number => "Number"@,
        ValueType::Bool => "Bool"@,
        ValueType::Atom => "Atom"@,
        ValueType::Bytes => "Bytes"@,
        ValueType::Dynamic => "Dynamic"@,
        ValueType::Unknown => "Unknown"@,
    }
}

fn type_word(ty: ValueType) -> (r: &'static str)
    ensures
        r@ == type_spelling(ty),
{
    match ty {
        ValueType::String => "String",
        ValueType::Number => "Number",
        ValueType::Bool => "Bool",
        ValueType::Atom => "Atom",
        ValueType::Bytes => "Bytes",
        ValueType::Dynamic => "Dynamic",
        ValueType::Unknown => "Unknown",
    }
}

/// The value that a squiggle gave, held to the type that the squiggle declares.
pub open spec fn checked_output(name: Seq<char>, ty: ValueType, v: ValueModel) -> Result<
    ValueModel,
    RuntimeErrorModel,
> {
    if inhabits(v, ty) {
        Ok(v)
    } else {
        Err(
            RuntimeErrorModel::Eval(
                "squiggle `~"@ + name + "` declared "@ + type_spelling(ty) + " but produced "@
                    + kind_name_of(v),
            ),
        )
    }
}

/// Holds the value that a squiggle gave to the type that the squiggle declares.
pub fn check_output(name: &str, ty: ValueType, v: Value) -> (r: Result<Value, RuntimeError>)
    ensures
        result_view(r) == checked_output(name@, ty, v@),
{
    if v.is_of_type(ty) {
        Ok(v)
    } else {
        Err(
            RuntimeError::Eval(
                String::from_str("squiggle `~").concat(name).concat("` declared ").concat(
                    type_word(ty),
                ).concat(" but produced ").concat(v.kind_name()),
            ),
        )
    }
}

/// Whether `c` is ASCII white space: space, tab, line feed, form feed or
/// carriage return.
pub open spec fn is_ascii_space(c: char) -> bool {
    c == ' ' || c == '\t' || c == '\n' || c == '\x0C' || c == '\r'
}

/// The value of a hexadecimal digit.
pub open spec fn hex_value(c: char) -> Option<int> {
    if '0' <= c <= '9' {
        Some(c as u32 - 48)
    } else if 'a' <= c <= 'f' {
        Some(c as u32 - 87)
    } else if 'A' <= c <= 'F' {
        Some(c as u32 - 55)
    } else {
        None
    }
}

/// The digit values of a text once its white space is dropped, or the first
/// character that is neither.
pub open spec fn hex_nibbles(s: Seq<char>) -> Result<Seq<int>, char>
    decreases s.len(),
{
    if s.len() == 0 {
        Ok(seq![])
    } else {
        match hex_nibbles(s.drop_last()) {
            Err(c) => Err(c),
            Ok(ns) => if is_ascii_space(s.last()) {
                Ok(ns)
            } else {
                match hex_value(s.last()) {
                    Some(n) => Ok(ns.push(n)),
                    None => Err(s.last()),
                }
            },
        }
    }
}

/// The bytes that pairs of digit values stand for.
pub open spec fn paired(ns: Seq<int>) -> Seq<u8> {
    Seq::new(ns.len() / 2, |i: int| (16 * ns[2 * i] + ns[2 * i + 1]) as u8)
}

/// The bytes that a hexadecimal text stands for, or why it stands for none.
pub open spec fn hex_bytes(s: Seq<char>) -> Result<Seq<u8>, Seq<char>> {
    match hex_nibbles(s) {
        Err(c) => Err("invalid hex character `"@ + seq![c] + "` in ~hex literal"@),
        Ok(ns) => if ns.len() % 2 != 0 {
            Err("~hex literal has odd nibble count ("@ + nat_digits(ns.len()) + ")"@)
        } else {
            Ok(paired(ns))
        },
    }
}

/// The value of a hexadecimal digit.
fn nibble(c: char) -> (r: Option<u8>)
    ensures
        match r {
            Some(n) => hex_value(c) == Some(n as int) && n < 16,
            None => hex_value(c) is None,
        },
{
    let n: u32 = c as u32;
    if '0' <= c && c <= '9' {
        Some((n - 48) as u8)
    } else if 'a' <= c && c <= 'f' {
        Some((n - 87) as u8)
    } else if 'A' <= c && c <= 'F' {
        Some((n - 55) as u8)
    } else {
        None
    }
}

proof fn lemma_nibbles_error(s: Seq<char>, n: int)
    requires
        0 <= n <= s.len(),
        hex_nibbles(s.take(n)) is Err,
    ensures
        hex_nibbles(s) == hex_nibbles(s.take(n)),
    decreases s.len(),
{
    if n == s.len() {
        assert(s.take(n) =~= s);
    } else {
        assert(s.drop_last().take(n) =~= s.take(n));
        lemma_nibbles_error(s.drop_last(), n);
    }
}

/// Decodes a hexadecimal text.
pub fn decode_hex(s: &str) -> (r: Result<Vec<u8>, RuntimeError>)
    ensures
        match r {
            Ok(b) => hex_bytes(s@) == Ok::<Seq<u8>, Seq<char>>(b@),
            Err(e) => hex_bytes(s@) is Err && e@ == RuntimeErrorModel::Eval(hex_bytes(s@)->Err_0),
        },
{
    let cs: Vec<char> = chars_of(s);
    let mut ns: Vec<u8> = Vec::new();
    let mut i: usize = 0;
    proof {
        assert(Seq::new(ns@.len(), |j: int| ns@[j] as int) =~= seq![]);
    }
    while i < cs.len()
        invariant
            i <= cs@.len(),
            cs@ == s@,
            forall|j: int| 0 <= j < ns@.len() ==> ns@[j] < 16,
            hex_nibbles(s@.take(i as int)) == Ok::<Seq<int>, char>(
                Seq::new(ns@.len(), |j: int| ns@[j] as int),
            ),
        decreases cs@.len() - i,
    {
        let c: char = cs[i];
        proof {
            assert(s@.take(i + 1).drop_last() =~= s@.take(i as int));
            assert(s@.take(i + 1).last() == c);
        }
        if !(c == ' ' || c == '\t' || c == '\n' || c == '\x0C' || c == '\r') {
            match nibble(c) {
                Some(n) => {
                    let ghost before = ns@;
                    ns.push(n);
                    proof {
                        assert(Seq::new(ns@.len(), |j: int| ns@[j] as int) =~= Seq::new(
                            before.len(),
                            |j: int| before[j] as int,
                        ).push(n as int));
                    }
                },
                None => {
                    proof {
                        lemma_nibbles_error(s@, i + 1);
                    }
                    let mut bad: String = String::new();
                    bad.push(c);
                    proof {
                        assert(bad@ =~= seq![c]);
                    }
                    return Err(
                        RuntimeError::Eval(
                            String::from_str("invalid hex character `").concat(
                                bad.as_str(),
                            ).concat("` in ~hex literal"),
                        ),
                    );
                },
            }
        }
        i += 1;
    }
    proof {
        assert(s@.take(i as int) =~= s@);
    }
    let ghost digits = Seq::new(ns@.len(), |j: int| ns@[j] as int);
    if ns.len() % 2 != 0 {
        return Err(
            RuntimeError::Eval(
                String::from_str("~hex literal has odd nibble count (").concat(
                    u64_text(ns.len() as u64).as_str(),
                ).concat(")"),
            ),
        );
    }
    let mut out: Vec<u8> = Vec::new();
    let half: usize = ns.len() / 2;
    let mut k: usize = 0;
    while k < half
        invariant
            k <= half,
            2 * half == ns@.len(),
            ns@.len() <= usize::MAX,
            digits == Seq::new(ns@.len(), |j: int| ns@[j] as int),
            forall|j: int| 0 <= j < ns@.len() ==> ns@[j] < 16,
            out@ == paired(digits).take(k as int),
        decreases half - k,
    {
        let hi: u8 = ns[2 * k];
        let lo: u8 = ns[2 * k + 1];
        out.push(16 * hi + lo);
        proof {
            assert(paired(digits).take(k + 1) =~= paired(digits).take(k as int).push(
                paired(digits)[k as int],
            ));
        }
        k += 1;
    }
    proof {
        assert(paired(digits).take(k as int) =~= paired(digits));
    }
    Ok(out)
}

/// The digits of two texts are the digits of the one, then those of the other.
proof fn lemma_nibbles_append(a: Seq<char>, b: Seq<char>)
    ensures
        hex_nibbles(a + b) == match (hex_nibbles(a), hex_nibbles(b)) {
            (Ok(x), Ok(y)) => Ok::<Seq<int>, char>(x + y),
            (Ok(x), Err(c)) => Err(c),
            (Err(c), _) => Err(c),
        },
    decreases b.len(),
{
    if b.len() == 0 {
        assert(a + b =~= a);
        assert(hex_nibbles(b) == Ok::<Seq<int>, char>(seq![]));
        if let Ok(x) = hex_nibbles(a) {
            assert(x + seq![] =~= x);
        }
    } else {
        lemma_nibbles_append(a, b.drop_last());
        assert((a + b).drop_last() =~= a + b.drop_last());
        assert((a + b).last() == b.last());
        if let (Ok(x), Ok(y)) = (hex_nibbles(a), hex_nibbles(b.drop_last())) {
            if let Some(n) = hex_value(b.last()) {
                assert((x + y).push(n) =~= x + y.push(n));
            }
        }
    }
}

/// White space between the digits of a `~hex` literal changes nothing.
pub proof fn law_hex_ignores_white_space(before: Seq<char>, c: char, after: Seq<char>)
    requires
        is_ascii_space(c),
    ensures
        hex_bytes(before + seq![c] + after) == hex_bytes(before + after),
{
    let blank = seq![c];
    assert(blank.drop_last() =~= seq![]);
    assert(hex_nibbles(blank.drop_last()) == Ok::<Seq<int>, char>(seq![]));
    assert(hex_nibbles(blank) == Ok::<Seq<int>, char>(seq![]));
    lemma_nibbles_append(before, blank);
    lemma_nibbles_append(before + blank, after);
    lemma_nibbles_append(before, after);
    if let Ok(x) = hex_nibbles(before) {
        assert(x + seq![] =~= x);
    }
}

/// The hexadecimal digit of a value, in the one case or the other.
pub open spec fn hex_digit(n: int, upper: bool) -> char {
    if n < 10 {
        (48 + n) as char
    } else if upper {
        (55 + n) as char
    } else {
        (87 + n) as char
    }
}

/// Bytes in hexadecimal: a run of white space, then for each byte its two
/// digits, each in the case given for it, and another run of white space.
pub open spec fn hex_text(
    bytes: Seq<u8>,
    uppers: Seq<(bool, bool)>,
    blanks: Seq<Seq<char>>,
) -> Seq<char>
    decreases bytes.len(),
{
    if bytes.len() == 0 {
        blanks[0]
    } else {
        let n = bytes.len() - 1;
        hex_text(bytes.drop_last(), uppers, blanks) + seq![
            hex_digit(bytes[n] as int / 16, uppers[n].0),
            hex_digit(bytes[n] as int % 16, uppers[n].1),
        ] + blanks[n + 1]
    }
}

/// The digits of bytes.
spec fn nibbles_of(bytes: Seq<u8>) -> Seq<int> {
    Seq::new(
        2 * bytes.len(),
        |k: int|
            if k % 2 == 0 {
                bytes[k / 2] as int / 16
            } else {
                bytes[k / 2] as int % 16
            },
    )
}

/// Whether a text is white space throughout.
pub open spec fn is_blank(s: Seq<char>) -> bool {
    forall|i: int| 0 <= i < s.len() ==> is_ascii_space(#[trigger] s[i])
}

proof fn lemma_blank_has_no_digits(s: Seq<char>)
    requires
        is_blank(s),
    ensures
        hex_nibbles(s) == Ok::<Seq<int>, char>(seq![]),
    decreases s.len(),
{
    if s.len() > 0 {
        assert(is_ascii_space(s[s.len() - 1]));
        lemma_blank_has_no_digits(s.drop_last());
    }
}

proof fn lemma_hex_digits(bytes: Seq<u8>, uppers: Seq<(bool, bool)>, blanks: Seq<Seq<char>>)
    requires
        blanks.len() > bytes.len(),
        forall|i: int| 0 <= i < blanks.len() ==> is_blank(#[trigger] blanks[i]),
    ensures
        hex_nibbles(hex_text(bytes, uppers, blanks)) == Ok::<Seq<int>, char>(nibbles_of(bytes)),
    decreases bytes.len(),
{
    if bytes.len() == 0 {
        lemma_blank_has_no_digits(blanks[0]);
        assert(nibbles_of(bytes) =~= seq![]);
    } else {
        let n = bytes.len() - 1;
        let shorter = bytes.drop_last();
        let hi = bytes[n] as int / 16;
        let lo = bytes[n] as int % 16;
        lemma_hex_digits(shorter, uppers, blanks);
        lemma_blank_has_no_digits(blanks[n + 1]);
        let pair = seq![hex_digit(hi, uppers[n].0), hex_digit(lo, uppers[n].1)];
        let first = seq![hex_digit(hi, uppers[n].0)];
        assert(pair.drop_last() =~= first);
        assert(first.drop_last() =~= seq![]);
        assert(hex_value(hex_digit(hi, uppers[n].0)) == Some(hi));
        assert(hex_value(hex_digit(lo, uppers[n].1)) == Some(lo));
        assert(hex_nibbles(first.drop_last()) == Ok::<Seq<int>, char>(seq![]));
        assert(seq![].push(hi) =~= seq![hi]);
        assert(seq![hi].push(lo) =~= seq![hi, lo]);
        assert(hex_nibbles(first) == Ok::<Seq<int>, char>(seq![hi]));
        assert(hex_nibbles(pair) == Ok::<Seq<int>, char>(seq![hi, lo]));
        let before = hex_text(shorter, uppers, blanks);
        lemma_nibbles_append(before, pair);
        lemma_nibbles_append(before + pair, blanks[n + 1]);
        assert(nibbles_of(bytes) =~= nibbles_of(shorter) + seq![hi, lo] + seq![]);
    }
}

/// A `~hex` literal gives back the bytes that were written down, each digit in
/// upper or in lower case, with any white space before, between and after the
/// bytes.
pub proof fn law_hex_gives_the_bytes(
    bytes: Seq<u8>,
    uppers: Seq<(bool, bool)>,
    blanks: Seq<Seq<char>>,
)
    requires
        uppers.len() == bytes.len(),
        blanks.len() == bytes.len() + 1,
        forall|i: int| 0 <= i < blanks.len() ==> is_blank(#[trigger] blanks[i]),
    ensures
        hex_bytes(hex_text(bytes, uppers, blanks)) == Ok::<Seq<u8>, Seq<char>>(bytes),
{
    lemma_hex_digits(bytes, uppers, blanks);
    let ns = nibbles_of(bytes);
    assert forall|i: int| 0 <= i < bytes.len() implies paired(ns)[i] == bytes[i] by {
        assert(ns[2 * i] == bytes[i] as int / 16);
        assert(ns[2 * i + 1] == bytes[i] as int % 16);
    }
    assert(paired(ns) =~= bytes);
}

/// The bytes of a `~b` literal read as the text that they were written as.
pub proof fn law_bytes_read_as_their_text(text: Seq<char>)
    ensures
        SquiggleKind::Bytes.interpretation(text) == Ok::<ValueModel, RuntimeErrorModel>(
            ValueModel::Bytes(encode_utf8(text)),
        ),
        interpolated(ValueModel::Bytes(encode_utf8(text))) == Ok::<Seq<char>, RuntimeErrorModel>(
            text,
        ),
{
    encode_utf8_valid_utf8(text);
    encode_utf8_decode_utf8(text);
}

/// A squiggle is known by one of five names, and stands for the text as it is,
/// or for bytes: those of the text, or those that its digits spell.
pub proof fn law_squiggles_stand_for_their_text(name: Seq<char>, text: Seq<char>)
    ensures
        squiggle_named(name) is Some <==> name == "sql"@ || name == "json"@ || name == "hex"@ || name
            == "re"@ || name == "b"@,
        name == "sql"@ || name == "json"@ || name == "re"@ ==> (squiggle_named(name) matches Some(k)
            && k.interpretation(text) == Ok::<ValueModel, RuntimeErrorModel>(
            ValueModel::String(text),
        ) && k.declared_type() == ValueType::String),
        name == "b"@ ==> (squiggle_named(name) matches Some(k) && k.interpretation(text) == Ok::<
            ValueModel,
            RuntimeErrorModel,
        >(ValueModel::Bytes(encode_utf8(text))) && k.declared_type() == ValueType::Bytes),
        name == "hex"@ ==> (squiggle_named(name) matches Some(k) && k.declared_type()
            == ValueType::Bytes && (k.interpretation(text) is Ok <==> hex_bytes(text) is Ok) && (
        hex_bytes(text) matches Ok(b) ==> k.interpretation(text) == Ok::<
            ValueModel,
            RuntimeErrorModel,
        >(ValueModel::Bytes(b)))),
{
    reveal_strlit("sql");
    reveal_strlit("json");
    reveal_strlit("hex");
    reveal_strlit("re");
    reveal_strlit("b");
    assert("sql"@.len() == 3 && "json"@.len() == 4 && "hex"@.len() == 3 && "re"@.len() == 2
        && "b"@.len() == 1);
    assert("sql"@[0] == 's' && "hex"@[0] == 'h');
}

/// The names of the squiggles are looked up as they are written.
pub proof fn law_squiggles_are_looked_up(r: Registry, name: &str, k: Option<SquiggleKind>)
    requires
        call_ensures(Registry::get, (&r, name), k),
    ensures
        name@ == "sql"@ ==> k == Some(SquiggleKind::Sql),
        name@ == "json"@ ==> k == Some(SquiggleKind::Json),
        name@ == "hex"@ ==> k == Some(SquiggleKind::Hex),
        name@ == "re"@ ==> k == Some(SquiggleKind::Re),
        name@ == "b"@ ==> k == Some(SquiggleKind::Bytes),
        k is Some ==> k->0.spelling() == name@,
{
    law_squiggle_lookup(SquiggleKind::Sql);
    law_squiggle_lookup(SquiggleKind::Json);
    law_squiggle_lookup(SquiggleKind::Hex);
    law_squiggle_lookup(SquiggleKind::Re);
    law_squiggle_lookup(SquiggleKind::Bytes);
}

/// A value of the type that a squiggle declares goes through unchanged, and no
/// other does.
pub proof fn law_declared_types_are_kept(name: Seq<char>, ty: ValueType, v: ValueModel)
    ensures
        inhabits(v, ty) ==> checked_output(name, ty, v) == Ok::<ValueModel, RuntimeErrorModel>(v),
        !inhabits(v, ty) ==> checked_output(name, ty, v) is Err,
{
}

proof fn lemma_nibbles_count(s: Seq<char>, c: char)
    requires
        hex_nibbles(s) is Ok,
        s.contains(c),
    ensures
        is_ascii_space(c) || hex_value(c) is Some,
    decreases s.len(),
{
    if s.last() != c {
        let i = choose|i: int| 0 <= i < s.len() && s[i] == c;
        assert(s.drop_last()[i] == c);
        lemma_nibbles_count(s.drop_last(), c);
    }
}

/// A `~hex` literal holds hexadecimal digits and white space alone.
pub proof fn law_hex_is_made_of_digits(s: Seq<char>, c: char)
    requires
        hex_bytes(s) is Ok,
        s.contains(c),
    ensures
        c == ' ' || c == '\t' || c == '\n' || c == '\r' || c as u32 == 12 || 48 <= c as u32 <= 57 || 97
            <= c as u32 <= 102 || 65 <= c as u32 <= 70,
{
    lemma_nibbles_count(s, c);
}

/// A digit too many is refused: where a text gives bytes, the text with one more
/// digit does not.
pub proof fn law_hex_digits_come_in_pairs(s: Seq<char>, c: char)
    requires
        hex_bytes(s) is Ok,
        48 <= c as u32 <= 57 || 97 <= c as u32 <= 102 || 65 <= c as u32 <= 70,
    ensures
        hex_bytes(s.push(c)) is Err,
{
    assert(s.push(c).drop_last() =~= s);
    assert(s.push(c).last() == c);
    assert(!is_ascii_space(c));
    assert(hex_value(c) is Some);
    assert(hex_nibbles(s.push(c))->Ok_0.len() == hex_nibbles(s)->Ok_0.len() + 1);
}

} // verus!
