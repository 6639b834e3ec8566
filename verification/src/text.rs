//! Text primitives: comparison, trimming, searching and decimal numerals, all
//! stated over the sequence of characters that a string holds.
use vstd::prelude::*;
use vstd::string::*;
use vstd::utf8::*;

verus! {

/// `String::push` appends one character to the end of the string.
pub assume_specification[ std::string::String::push ](s: &mut std::string::String, c: char)
    ensures
        final(s)@ == old(s)@.push(c),
;

/// `String::from_utf8`: the string whose UTF-8 encoding the bytes are, where
/// they are valid UTF-8.
#[verifier::external_body]
pub(crate) fn utf8_text(bytes: &Vec<u8>) -> (r: Option<String>)
    ensures
        match r {
            Some(s) => valid_utf8(bytes@) && s@ == decode_utf8(bytes@),
            None => !valid_utf8(bytes@),
        },
{
    String::from_utf8(bytes.clone()).ok()
}

/// The text that bytes hold, with what is no UTF-8 replaced.
pub uninterp spec fn lossy_utf8(bytes: Seq<u8>) -> Seq<char>;

/// `String::from_utf8_lossy`: the string whose UTF-8 encoding the bytes are,
/// with the replacement character in the place of what is invalid. Where the
/// replacements go is left unsaid beyond its being a function of the bytes.
#[verifier::external_body]
pub(crate) fn lossy_text(bytes: &Vec<u8>) -> (r: String)
    ensures
        r@ == lossy_utf8(bytes@),
        valid_utf8(bytes@) ==> r@ == decode_utf8(bytes@),
{
    String::from_utf8_lossy(bytes).into_owned()
}

/// Whether two strings hold the same characters.
pub fn str_eq(a: &str, b: &str) -> (r: bool)
    ensures
        r == (a@ == b@),
{
    let x: &[u8] = a.as_bytes();
    let y: &[u8] = b.as_bytes();
    proof {
        encode_utf8_decode_utf8(a@);
        encode_utf8_decode_utf8(b@);
    }
    if x.len() != y.len() {
        return false;
    }
    let mut i: usize = 0;
    while i < x.len()
        invariant
            i <= x@.len(),
            x@.len() == y@.len(),
            x@ == encode_utf8(a@),
            y@ == encode_utf8(b@),
            x@.take(i as int) == y@.take(i as int),
        decreases x@.len() - i,
    {
        if x[i] != y[i] {
            return false;
        }
        proof {
            assert(x@.take(i + 1) =~= x@.take(i as int).push(x@[i as int]));
            assert(y@.take(i + 1) =~= y@.take(i as int).push(y@[i as int]));
        }
        i += 1;
    }
    proof {
        assert(x@.take(i as int) =~= x@);
        assert(y@.take(i as int) =~= y@);
    }
    true
}

/// The characters of a string, in order.
pub fn chars_of(s: &str) -> (r: Vec<char>)
    ensures
        r@ == s@,
{
    let mut out: Vec<char> = Vec::new();
    for c in it: s.chars()
        invariant
            out@ == s@.take(it.index() as int),
            it.seq() == s@,
    {
        out.push(c);
        proof {
            assert(s@.take(it.index() as int + 1) =~= s@.take(it.index() as int).push(c));
        }
    }
    proof {
        assert(s@.take(s@.len() as int) =~= s@);
    }
    out
}

/// The string made of the characters `cs[from..to]`.
pub fn string_of(cs: &Vec<char>, from: usize, to: usize) -> (r: String)
    requires
        from <= to <= cs@.len(),
    ensures
        r@ == cs@.subrange(from as int, to as int),
{
    let mut out: String = String::new();
    let mut i: usize = from;
    while i < to
        invariant
            from <= i <= to <= cs@.len(),
            out@ == cs@.subrange(from as int, i as int),
        decreases to - i,
    {
        out.push(cs[i]);
        i += 1;
        proof {
            assert(cs@.subrange(from as int, i as int) =~= cs@.subrange(
                from as int,
                i - 1,
            ).push(cs@[i - 1]));
        }
    }
    out
}

/// Whether `c` carries the Unicode `White_Space` property.
pub open spec fn is_white_space(c: char) -> bool {
    let n = c as u32;
    ||| 0x09 <= n <= 0x0D
    ||| n == 0x20
    ||| n == 0x85
    ||| n == 0xA0
    ||| n == 0x1680
    ||| 0x2000 <= n <= 0x200A
    ||| n == 0x2028
    ||| n == 0x2029
    ||| n == 0x202F
    ||| n == 0x205F
    ||| n == 0x3000
}

/// Tests a character for the Unicode `White_Space` property.
pub fn is_whitespace(c: char) -> (r: bool)
    ensures
        r == is_white_space(c),
{
    let n: u32 = c as u32;
    (0x09 <= n && n <= 0x0D) || n == 0x20 || n == 0x85 || n == 0xA0 || n == 0x1680 || (0x2000 <= n
        && n <= 0x200A) || n == 0x2028 || n == 0x2029 || n == 0x202F || n == 0x205F || n == 0x3000
}

/// `s` without its trailing white space.
pub open spec fn trim_end(s: Seq<char>) -> Seq<char>
    decreases s.len(),
{
    if s.len() > 0 && is_white_space(s.last()) {
        trim_end(s.drop_last())
    } else {
        s
    }
}

/// `s` without its leading white space.
pub open spec fn trim_start(s: Seq<char>) -> Seq<char>
    decreases s.len(),
{
    if s.len() > 0 && is_white_space(s[0]) {
        trim_start(s.skip(1))
    } else {
        s
    }
}

/// `s` without white space at either end.
pub open spec fn trim(s: Seq<char>) -> Seq<char> {
    trim_start(trim_end(s))
}

/// Where `cs[from..to]` ends once its trailing white space is dropped.
pub fn trim_end_index(cs: &Vec<char>, from: usize, to: usize) -> (r: usize)
    requires
        from <= to <= cs@.len(),
    ensures
        from <= r <= to,
        trim_end(cs@.subrange(from as int, to as int)) == cs@.subrange(from as int, r as int),
{
    let mut end: usize = to;
    while end > from && is_whitespace(cs[end - 1])
        invariant
            from <= end <= to <= cs@.len(),
            trim_end(cs@.subrange(from as int, to as int)) == trim_end(
                cs@.subrange(from as int, end as int),
            ),
        decreases end,
    {
        proof {
            assert(cs@.subrange(from as int, end as int).drop_last() =~= cs@.subrange(
                from as int,
                end - 1,
            ));
        }
        end -= 1;
    }
    end
}

/// Where `cs[from..to]` starts once its leading white space is dropped.
pub fn trim_start_index(cs: &Vec<char>, from: usize, to: usize) -> (r: usize)
    requires
        from <= to <= cs@.len(),
    ensures
        from <= r <= to,
        trim_start(cs@.subrange(from as int, to as int)) == cs@.subrange(r as int, to as int),
{
    let mut start: usize = from;
    while start < to && is_whitespace(cs[start])
        invariant
            from <= start <= to <= cs@.len(),
            trim_start(cs@.subrange(from as int, to as int)) == trim_start(
                cs@.subrange(start as int, to as int),
            ),
        decreases to - start,
    {
        proof {
            assert(cs@.subrange(start as int, to as int).skip(1) =~= cs@.subrange(
                start + 1,
                to as int,
            ));
        }
        start += 1;
    }
    start
}

/// A copy of `cs[from..to]` without white space at either end.
pub fn trimmed(cs: &Vec<char>, from: usize, to: usize) -> (r: String)
    requires
        from <= to <= cs@.len(),
    ensures
        r@ == trim(cs@.subrange(from as int, to as int)),
{
    let end: usize = trim_end_index(cs, from, to);
    let start: usize = trim_start_index(cs, from, end);
    string_of(cs, start, end)
}

/// The first position of `c` in `s`.
pub open spec fn first_index(s: Seq<char>, c: char) -> Option<int>
    decreases s.len(),
{
    if s.len() == 0 {
        None
    } else if s[0] == c {
        Some(0)
    } else {
        match first_index(s.skip(1), c) {
            Some(i) => Some(i + 1),
            None => None,
        }
    }
}

/// The last position of `c` in `s`.
pub open spec fn last_index(s: Seq<char>, c: char) -> Option<int>
    decreases s.len(),
{
    if s.len() == 0 {
        None
    } else if s.last() == c {
        Some(s.len() - 1)
    } else {
        last_index(s.drop_last(), c)
    }
}

/// `first_index` is the least position at which `c` stands.
pub proof fn lemma_first_index(s: Seq<char>, c: char)
    ensures
        first_index(s, c) matches Some(i) ==> 0 <= i < s.len() && s[i] == c && forall|j: int|
            0 <= j < i ==> s[j] != c,
        first_index(s, c) is None ==> forall|j: int| 0 <= j < s.len() ==> s[j] != c,
    decreases s.len(),
{
    if s.len() > 0 && s[0] != c {
        let rest = s.skip(1);
        lemma_first_index(rest, c);
        match first_index(rest, c) {
            Some(i) => {
                assert forall|j: int| 0 <= j < i + 1 implies s[j] != c by {
                    if j > 0 {
                        assert(rest[j - 1] == s[j]);
                    }
                }
            },
            None => {
                assert forall|j: int| 0 <= j < s.len() implies s[j] != c by {
                    if j > 0 {
                        assert(rest[j - 1] == s[j]);
                    }
                }
            },
        }
    }
}

/// `last_index` is the greatest position at which `c` stands.
pub proof fn lemma_last_index(s: Seq<char>, c: char)
    ensures
        last_index(s, c) matches Some(i) ==> 0 <= i < s.len() && s[i] == c && forall|j: int|
            i < j < s.len() ==> s[j] != c,
        last_index(s, c) is None ==> forall|j: int| 0 <= j < s.len() ==> s[j] != c,
    decreases s.len(),
{
    if s.len() > 0 && s.last() != c {
        let rest = s.drop_last();
        lemma_last_index(rest, c);
        assert forall|j: int| 0 <= j < s.len() - 1 implies s[j] == rest[j] by {}
        assert forall|j: int| 0 <= j < s.len() && (forall|k: int| 0 <= k < rest.len() ==> rest[k]
            != c) implies s[j] != c by {
            if j < rest.len() {
                assert(rest[j] == s[j]);
            }
        }
        if let Some(i) = last_index(rest, c) {
            assert forall|j: int| i < j < s.len() implies s[j] != c by {
                if j < rest.len() {
                    assert(rest[j] == s[j]);
                }
            }
        }
    }
}

/// The first position of `c` in `cs`.
pub fn find_char(cs: &Vec<char>, c: char) -> (r: Option<usize>)
    ensures
        match r {
            Some(i) => first_index(cs@, c) == Some(i as int),
            None => first_index(cs@, c) is None,
        },
{
    let mut i: usize = 0;
    while i < cs.len()
        invariant
            i <= cs@.len(),
            forall|j: int| 0 <= j < i ==> cs@[j] != c,
        decreases cs@.len() - i,
    {
        if cs[i] == c {
            proof {
                lemma_first_index(cs@, c);
            }
            return Some(i);
        }
        i += 1;
    }
    proof {
        lemma_first_index(cs@, c);
    }
    None
}

/// The last position of `c` in `cs`.
pub fn rfind_char(cs: &Vec<char>, c: char) -> (r: Option<usize>)
    ensures
        match r {
            Some(i) => last_index(cs@, c) == Some(i as int),
            None => last_index(cs@, c) is None,
        },
{
    let mut i: usize = cs.len();
    while i > 0
        invariant
            i <= cs@.len(),
            forall|j: int| i <= j < cs@.len() ==> cs@[j] != c,
        decreases i,
    {
        if cs[i - 1] == c {
            proof {
                lemma_last_index(cs@, c);
            }
            return Some(i - 1);
        }
        i -= 1;
    }
    proof {
        lemma_last_index(cs@, c);
    }
    None
}

/// Whether `needle` stands in `hay` as a run of consecutive items.
pub open spec fn occurs_in<T>(needle: Seq<T>, hay: Seq<T>) -> bool {
    exists|i: int|
        0 <= i && i + needle.len() <= hay.len() && #[trigger] hay.subrange(i, i + needle.len())
            == needle
}

/// Whether the text `hay` contains the text `needle`.
pub fn contains_text(hay: &str, needle: &str) -> (r: bool)
    ensures
        r == occurs_in(needle@, hay@),
{
    let h: Vec<char> = chars_of(hay);
    let n: Vec<char> = chars_of(needle);
    if n.len() > h.len() {
        return false;
    }
    let last: usize = h.len() - n.len();
    let mut i: usize = 0;
    while i <= last
        invariant
            i <= last + 1,
            last + n@.len() == h@.len() <= usize::MAX,
            h@ == hay@,
            n@ == needle@,
            forall|k: int|
                0 <= k < i ==> #[trigger] hay@.subrange(k, k + needle@.len()) != needle@,
        decreases last + 1 - i,
    {
        let mut j: usize = 0;
        while j < n.len() && h[i + j] == n[j]
            invariant
                j <= n@.len(),
                i <= last,
                last + n@.len() == h@.len() <= usize::MAX,
                forall|k: int| 0 <= k < j ==> h@[i + k] == n@[k],
            decreases n@.len() - j,
        {
            j += 1;
        }
        if j == n.len() {
            proof {
                assert(hay@.subrange(i as int, i + needle@.len()) =~= needle@);
            }
            return true;
        }
        proof {
            assert(hay@.subrange(i as int, i + needle@.len())[j as int] != needle@[j as int]);
        }
        if i == last {
            return false;
        }
        i += 1;
    }
    false
}

/// The character of a decimal digit.
pub open spec fn digit_char(d: int) -> char {
    (48 + d) as char
}

/// The decimal digits of a natural number, without leading zeros.
pub open spec fn nat_digits(n: nat) -> Seq<char>
    decreases n,
{
    if n < 10 {
        seq![digit_char(n as int)]
    } else {
        nat_digits(n / 10).push(digit_char((n % 10) as int))
    }
}

/// The decimal numeral of an integer.
pub open spec fn decimal(n: int) -> Seq<char> {
    if n < 0 {
        seq!['-'] + nat_digits((-n) as nat)
    } else {
        nat_digits(n as nat)
    }
}

/// Writes a natural number in decimal.
pub fn u64_text(n: u64) -> (r: String)
    ensures
        r@ == nat_digits(n as nat),
    decreases n,
{
    if n < 10 {
        let mut s: String = String::new();
        s.push((48u8 + n as u8) as char);
        proof {
            assert(s@ =~= seq![digit_char(n as int)]);
        }
        s
    } else {
        let mut s: String = u64_text(n / 10);
        s.push((48u8 + (n % 10) as u8) as char);
        s
    }
}

/// Writes an integer in decimal.
pub fn i64_text(n: i64) -> (r: String)
    ensures
        r@ == decimal(n as int),
{
    if n < 0 {
        let mut s: String = String::new();
        s.push('-');
        let magnitude: u64 = (-(n as i128)) as u64;
        let digits: String = u64_text(magnitude);
        proof {
            assert(s@ =~= seq!['-']);
        }
        s.append(digits.as_str());
        s
    } else {
        u64_text(n as u64)
    }
}

/// Whether `c` is an ASCII decimal digit.
pub open spec fn is_digit(c: char) -> bool {
    48 <= c as u32 <= 57
}

/// The number that a run of decimal digits stands for; `None` for an empty
/// run or one that holds anything else.
pub open spec fn digits_value(s: Seq<char>) -> Option<int>
    decreases s.len(),
{
    if s.len() == 0 || !is_digit(s.last()) {
        None
    } else if s.len() == 1 {
        Some(s.last() as u32 - 48)
    } else {
        match digits_value(s.drop_last()) {
            Some(v) => Some(v * 10 + (s.last() as u32 - 48)),
            None => None,
        }
    }
}

/// The integer that a decimal numeral stands for: digits behind an optional
/// sign.
pub open spec fn numeral_value(s: Seq<char>) -> Option<int> {
    if s.len() > 0 && s[0] == '-' {
        match digits_value(s.skip(1)) {
            Some(v) => Some(-v),
            None => None,
        }
    } else if s.len() > 0 && s[0] == '+' {
        digits_value(s.skip(1))
    } else {
        digits_value(s)
    }
}

/// What a numeral gives as an `i64`: `None` where it is malformed or does not
/// fit.
pub open spec fn i64_value(s: Seq<char>) -> Option<int> {
    match numeral_value(s) {
        Some(v) => if i64::MIN <= v <= i64::MAX {
            Some(v)
        } else {
            None
        },
        None => None,
    }
}

/// Reads the digits `cs[from..]` as a number of at most 2^63: `None` where
/// there is no digit, something else stands among them, or the number is
/// larger.
fn read_digits(cs: &Vec<char>, from: usize) -> (r: Option<u64>)
    requires
        from <= cs@.len(),
    ensures
        match r {
            Some(v) => digits_value(cs@.skip(from as int)) == Some(v as int) && v
                <= 0x8000_0000_0000_0000,
            None => match digits_value(cs@.skip(from as int)) {
                Some(v) => v > 0x8000_0000_0000_0000,
                None => true,
            },
        },
{
    if from == cs.len() {
        return None;
    }
    let mut acc: u64 = 0;
    let mut over: bool = false;
    let mut i: usize = from;
    let ghost tail = cs@.skip(from as int);
    while i < cs.len()
        invariant
            from <= i <= cs@.len(),
            tail == cs@.skip(from as int),
            acc <= 0x8000_0000_0000_0000,
            i == from ==> acc == 0 && !over,
            i > from && !over ==> digits_value(tail.take(i - from)) == Some(acc as int),
            i > from && over ==> digits_value(tail.take(i - from)) is Some && digits_value(
                tail.take(i - from),
            )->0 > 0x8000_0000_0000_0000,
        decreases cs@.len() - i,
    {
        let c: u32 = cs[i] as u32;
        proof {
            assert(tail.take(i - from + 1).drop_last() =~= tail.take(i - from));
            assert(tail.take(i - from + 1).last() == cs@[i as int]);
        }
        if c < 48 || c > 57 {
            proof {
                lemma_digits_prefix(tail, i - from + 1);
            }
            return None;
        }
        let next: u128 = acc as u128 * 10 + (c - 48) as u128;
        if over || next > 0x8000_0000_0000_0000 {
            over = true;
        } else {
            acc = next as u64;
        }
        i += 1;
    }
    proof {
        assert(tail.take(tail.len() as int) =~= tail);
    }
    if over {
        None
    } else {
        Some(acc)
    }
}

/// A run that holds something else than a digit in a prefix has no value.
proof fn lemma_digits_prefix(s: Seq<char>, n: int)
    requires
        0 < n <= s.len(),
        digits_value(s.take(n)) is None,
    ensures
        digits_value(s) is None,
    decreases s.len(),
{
    if n == s.len() {
        assert(s.take(n) =~= s);
    } else {
        assert(s.drop_last().take(n) =~= s.take(n));
        lemma_digits_prefix(s.drop_last(), n);
    }
}

/// Reads a decimal numeral as an `i64`.
pub fn parse_i64(s: &str) -> (r: Option<i64>)
    ensures
        match r {
            Some(v) => i64_value(s@) == Some(v as int),
            None => i64_value(s@) is None,
        },
{
    let cs: Vec<char> = chars_of(s);
    if cs.len() > 0 && cs[0] == '-' {
        match read_digits(&cs, 1) {
            Some(v) => Some((-(v as i128)) as i64),
            None => None,
        }
    } else {
        let from: usize = if cs.len() > 0 && cs[0] == '+' {
            1
        } else {
            0
        };
        proof {
            assert(cs@.skip(0) =~= cs@);
        }
        match read_digits(&cs, from) {
            Some(v) => if v <= 0x7fff_ffff_ffff_ffff {
                Some(v as i64)
            } else {
                None
            },
            None => None,
        }
    }
}

proof fn lemma_nat_digits_value(n: nat)
    ensures
        digits_value(nat_digits(n)) == Some(n as int),
        nat_digits(n).len() > 0,
        is_digit(nat_digits(n)[0]),
    decreases n,
{
    if n >= 10 {
        lemma_nat_digits_value(n / 10);
        assert(nat_digits(n).drop_last() =~= nat_digits(n / 10));
    }
}

/// Reading back what was written gives the same integer.
pub proof fn law_numeral_round_trip(n: i64)
    ensures
        i64_value(decimal(n as int)) == Some(n as int),
{
    if n < 0 {
        lemma_nat_digits_value((-n) as nat);
        assert(decimal(n as int).skip(1) =~= nat_digits((-n) as nat));
    } else {
        lemma_nat_digits_value(n as nat);
    }
}

/// The order of texts: by code point, character after character, a prefix
/// before what extends it.
pub open spec fn text_less(a: Seq<char>, b: Seq<char>) -> bool
    decreases b.len(),
{
    if b.len() == 0 {
        false
    } else if a.len() == 0 {
        true
    } else if a[0] != b[0] {
        a[0] < b[0]
    } else {
        text_less(a.skip(1), b.skip(1))
    }
}

pub proof fn lemma_text_less_irreflexive(a: Seq<char>)
    ensures
        !text_less(a, a),
    decreases a.len(),
{
    if a.len() > 0 {
        lemma_text_less_irreflexive(a.skip(1));
    }
}

pub proof fn lemma_text_less_trichotomy(a: Seq<char>, b: Seq<char>)
    ensures
        text_less(a, b) ==> !text_less(b, a) && a != b,
        text_less(a, b) || text_less(b, a) || a == b,
    decreases a.len() + b.len(),
{
    lemma_text_less_irreflexive(a);
    if a.len() > 0 && b.len() > 0 {
        lemma_text_less_trichotomy(a.skip(1), b.skip(1));
        if a[0] == b[0] && a.skip(1) == b.skip(1) {
            assert(a =~= seq![a[0]] + a.skip(1));
            assert(b =~= seq![b[0]] + b.skip(1));
        }
    } else if a.len() == 0 && b.len() == 0 {
        assert(a =~= b);
    }
}

pub proof fn lemma_text_less_transitive(a: Seq<char>, b: Seq<char>, c: Seq<char>)
    requires
        text_less(a, b),
        text_less(b, c),
    ensures
        text_less(a, c),
    decreases b.len(),
{
    if a.len() > 0 && a[0] == b[0] && b[0] == c[0] {
        lemma_text_less_transitive(a.skip(1), b.skip(1), c.skip(1));
    }
}

/// Whether `a` comes before `b`.
pub fn str_less(a: &str, b: &str) -> (r: bool)
    ensures
        r == text_less(a@, b@),
{
    let x: Vec<char> = chars_of(a);
    let y: Vec<char> = chars_of(b);
    proof {
        assert(a@.skip(0) =~= a@);
        assert(b@.skip(0) =~= b@);
    }
    let mut i: usize = 0;
    while i < x.len() && i < y.len()
        invariant
            i <= x@.len(),
            i <= y@.len(),
            x@ == a@,
            y@ == b@,
            text_less(a@, b@) == text_less(a@.skip(i as int), b@.skip(i as int)),
        decreases x@.len() - i,
    {
        if x[i] != y[i] {
            return x[i] < y[i];
        }
        proof {
            assert(a@.skip(i as int).skip(1) =~= a@.skip(i + 1));
            assert(b@.skip(i as int).skip(1) =~= b@.skip(i + 1));
        }
        i += 1;
    }
    i < y.len()
}

/// The texts that a list of strings holds.
pub open spec fn texts(v: Seq<String>) -> Seq<Seq<char>> {
    Seq::new(v.len(), |i: int| v[i]@)
}

/// The texts that a list of string slices holds.
pub open spec fn slices(v: Seq<&'static str>) -> Seq<Seq<char>> {
    Seq::new(v.len(), |i: int| v[i]@)
}

/// `parts` one after the other, with `sep` between two neighbours.
pub open spec fn join(parts: Seq<Seq<char>>, sep: Seq<char>) -> Seq<char>
    decreases parts.len(),
{
    if parts.len() == 0 {
        seq![]
    } else if parts.len() == 1 {
        parts[0]
    } else {
        join(parts.drop_last(), sep) + sep + parts.last()
    }
}

/// Joins strings, with `sep` between two neighbours.
pub fn join_texts(parts: &Vec<String>, sep: &str) -> (r: String)
    ensures
        r@ == join(texts(parts@), sep@),
{
    let mut out: String = String::new();
    let mut i: usize = 0;
    while i < parts.len()
        invariant
            i <= parts@.len(),
            out@ == join(texts(parts@).take(i as int), sep@),
        decreases parts@.len() - i,
    {
        proof {
            assert(texts(parts@).take(i + 1).drop_last() =~= texts(parts@).take(i as int));
        }
        if i > 0 {
            out.append(sep);
            out.append(parts[i].as_str());
        } else {
            out = parts[i].clone();
        }
        i += 1;
    }
    proof {
        assert(texts(parts@).take(i as int) =~= texts(parts@));
    }
    out
}

/// Joins string slices, with `sep` between two neighbours.
pub fn join_slices(parts: &Vec<&'static str>, sep: &str) -> (r: String)
    ensures
        r@ == join(slices(parts@), sep@),
{
    let mut out: String = String::new();
    let mut i: usize = 0;
    while i < parts.len()
        invariant
            i <= parts@.len(),
            out@ == join(slices(parts@).take(i as int), sep@),
        decreases parts@.len() - i,
    {
        proof {
            assert(slices(parts@).take(i + 1).drop_last() =~= slices(parts@).take(i as int));
        }
        if i > 0 {
            out.append(sep);
            out.append(parts[i]);
        } else {
            out = String::from_str(parts[i]);
        }
        i += 1;
    }
    proof {
        assert(slices(parts@).take(i as int) =~= slices(parts@));
    }
    out
}

/// The character that a digit is written with.
pub open spec fn digit_sign(d: int) -> char {
    seq!['0', '1', '2', '3', '4', '5', '6', '7', '8', '9'][d]
}

/// Numbers are written in base ten: the last digit stands for the units, what
/// is before it for the tens, and a minus sign is before a negative number.
pub proof fn law_decimal_is_positional(n: int, d: int)
    requires
        0 <= d < 10,
    ensures
        decimal(d) == seq![digit_sign(d)],
        n > 0 ==> decimal(10 * n + d) == decimal(n).push(digit_sign(d)),
        n > 0 ==> decimal(-n) == seq!['-'] + decimal(n),
{
    assert(digit_char(d) == digit_sign(d));
    if n > 0 {
        assert((10 * n + d) / 10 == n);
        assert((10 * n + d) % 10 == d);
    }
}

/// Only numerals are read as numbers: digits, at least one, with no more than a
/// sign in front of them.
pub proof fn law_numbers_are_read_from_numerals_only(s: Seq<char>)
    requires
        i64_value(s) is Some,
    ensures
        s.len() > 0,
        48 <= s.last() as u32 <= 57,
        s[0] == '-' || s[0] == '+' || 48 <= s[0] as u32 <= 57,
        forall|i: int| 0 < i < s.len() ==> 48 <= (#[trigger] s[i]) as u32 <= 57,
        s[0] == '-' ==> i64_value(s)->0 <= 0,
        s[0] != '-' ==> i64_value(s)->0 >= 0,
        i64::MIN <= i64_value(s)->0 <= i64::MAX,
{
    if s[0] == '-' || s[0] == '+' {
        lemma_digits_only(s.skip(1));
        assert forall|i: int| 0 < i < s.len() implies 48 <= (#[trigger] s[i]) as u32 <= 57 by {
            assert(s.skip(1)[i - 1] == s[i]);
        }
    } else {
        lemma_digits_only(s);
    }
}

proof fn lemma_digits_only(s: Seq<char>)
    requires
        digits_value(s) is Some,
    ensures
        s.len() > 0,
        digits_value(s)->0 >= 0,
        forall|i: int| 0 <= i < s.len() ==> 48 <= (#[trigger] s[i]) as u32 <= 57,
    decreases s.len(),
{
    let c = s[s.len() - 1];
    assert(is_digit(c));
    assert(48 <= c as u32 <= 57);
    if s.len() > 1 {
        lemma_digits_only(s.drop_last());
        assert forall|i: int| 0 <= i < s.len() implies 48 <= (#[trigger] s[i]) as u32 <= 57 by {
            if i < s.len() - 1 {
                assert(s.drop_last()[i] == s[i]);
            }
        }
    }
}

/// A number may have a plus sign in front of it, and zeros.
pub proof fn law_numbers_read_with_sign_and_zeros(n: i64)
    requires
        n >= 0,
    ensures
        i64_value(seq!['+'] + decimal(n as int)) == Some(n as int),
        i64_value(seq!['0'] + decimal(n as int)) == Some(n as int),
{
    let t = decimal(n as int);
    law_numeral_round_trip(n);
    lemma_nat_digits_value(n as nat);
    assert((seq!['+'] + t).skip(1) =~= t);
    lemma_leading_zero(t);
    assert((seq!['0'] + t)[0] == '0');
}

proof fn lemma_leading_zero(t: Seq<char>)
    requires
        digits_value(t) is Some,
    ensures
        digits_value(seq!['0'] + t) == digits_value(t),
    decreases t.len(),
{
    let s = seq!['0'] + t;
    assert(s.last() == t.last());
    assert(s.drop_last() =~= seq!['0'] + t.drop_last());
    if t.len() == 1 {
        assert(s.drop_last() =~= seq!['0']);
        assert(digits_value(seq!['0']) == Some(0int));
    } else {
        lemma_leading_zero(t.drop_last());
    }
}

/// Trimming takes white space off both ends, and nothing else.
pub proof fn law_trim_takes_white_space_off_the_ends(s: Seq<char>) -> (r: (int, int))
    ensures
        0 <= r.0 <= r.1 <= s.len(),
        trim(s) == s.subrange(r.0, r.1),
        forall|i: int| 0 <= i < r.0 || r.1 <= i < s.len() ==> is_white_space(#[trigger] s[i]),
        trim(s).len() > 0 ==> !is_white_space(trim(s)[0]) && !is_white_space(trim(s).last()),
{
    let to = lemma_trim_end_cuts(s);
    let from = lemma_trim_start_cuts(trim_end(s));
    assert(trim(s) =~= s.subrange(from, to));
    assert forall|i: int| 0 <= i < from || to <= i < s.len() implies is_white_space(
        #[trigger] s[i],
    ) by {
        if i < from {
            assert(trim_end(s)[i] == s[i]);
        }
    }
    (from, to)
}

proof fn lemma_trim_end_cuts(s: Seq<char>) -> (r: int)
    ensures
        0 <= r <= s.len(),
        trim_end(s) == s.take(r),
        forall|i: int| r <= i < s.len() ==> is_white_space(#[trigger] s[i]),
        trim_end(s).len() > 0 ==> !is_white_space(trim_end(s).last()),
    decreases s.len(),
{
    if s.len() > 0 && is_white_space(s.last()) {
        let r = lemma_trim_end_cuts(s.drop_last());
        assert(s.drop_last().take(r) =~= s.take(r));
        assert forall|i: int| r <= i < s.len() implies is_white_space(#[trigger] s[i]) by {
            if i < s.len() - 1 {
                assert(s.drop_last()[i] == s[i]);
            }
        }
        r
    } else {
        assert(s.take(s.len() as int) =~= s);
        s.len() as int
    }
}

proof fn lemma_trim_start_cuts(s: Seq<char>) -> (r: int)
    requires
        s.len() > 0 ==> !is_white_space(s.last()),
    ensures
        0 <= r <= s.len(),
        trim_start(s) == s.skip(r),
        forall|i: int| 0 <= i < r ==> is_white_space(#[trigger] s[i]),
        trim_start(s).len() > 0 ==> !is_white_space(trim_start(s)[0]) && trim_start(s).last()
            == s.last(),
        s.len() > 0 ==> r < s.len(),
    decreases s.len(),
{
    if s.len() > 0 && is_white_space(s[0]) {
        let rest = s.skip(1);
        assert(rest.len() > 0 ==> rest.last() == s.last());
        let r = lemma_trim_start_cuts(rest);
        assert(rest.skip(r) =~= s.skip(r + 1));
        assert forall|i: int| 0 <= i < r + 1 implies is_white_space(#[trigger] s[i]) by {
            if i > 0 {
                assert(rest[i - 1] == s[i]);
            }
        }
        r + 1
    } else {
        assert(s.skip(0) =~= s);
        0
    }
}

/// Space, tab and line ends are white space; what is printed in ASCII is not.
pub proof fn law_white_space_is_invisible(c: char)
    ensures
        c == ' ' || c == '\t' || c == '\n' || c == '\r' ==> is_white_space(c),
        '!' <= c <= '~' ==> !is_white_space(c),
{
}

/// Of two texts that differ first in one character the one with the smaller
/// character comes first; a text comes before every longer one that starts with
/// it.
pub proof fn law_text_order_by_first_difference(
    p: Seq<char>,
    c: char,
    d: char,
    x: Seq<char>,
    y: Seq<char>,
)
    ensures
        text_less(p + seq![c] + x, p + seq![d] + y) == if c == d {
            text_less(x, y)
        } else {
            c < d
        },
        text_less(p, p + seq![d] + y),
        !text_less(p + seq![d] + y, p),
        !text_less(p, p),
    decreases p.len(),
{
    let a = p + seq![c] + x;
    let b = p + seq![d] + y;
    lemma_text_less_irreflexive(p);
    if p.len() == 0 {
        assert(a.skip(1) =~= x);
        assert(b.skip(1) =~= y);
    } else {
        let q = p.skip(1);
        law_text_order_by_first_difference(q, c, d, x, y);
        assert(a.skip(1) =~= q + seq![c] + x);
        assert(b.skip(1) =~= q + seq![d] + y);
        assert(a[0] == p[0] && b[0] == p[0]);
    }
}

/// Joined texts stand in their order, with the separator between neighbours and
/// nowhere else.
pub proof fn law_join_separates_neighbours(
    first: Seq<Seq<char>>,
    second: Seq<Seq<char>>,
    part: Seq<char>,
    sep: Seq<char>,
)
    ensures
        join(seq![], sep) == Seq::<char>::empty(),
        join(seq![part], sep) == part,
        first.len() > 0 && second.len() > 0 ==> join(first + second, sep) == join(first, sep) + sep
            + join(second, sep),
    decreases second.len(),
{
    if first.len() > 0 && second.len() > 0 {
        let all = first + second;
        assert(all.drop_last() =~= first + second.drop_last());
        assert(all.last() == second.last());
        if second.len() == 1 {
            assert(first + second.drop_last() =~= first);
        } else {
            law_join_separates_neighbours(first, second.drop_last(), part, sep);
            assert(join(first, sep) + sep + join(second.drop_last(), sep) + sep + second.last()
                =~= join(first, sep) + sep + (join(second.drop_last(), sep) + sep + second.last()));
        }
    }
}

} // verus!
