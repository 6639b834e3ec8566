//! Source text before and inside the syntax tree: normalization of a whole
//! program and escapes in string literals.
use vstd::prelude::*;
use vstd::string::*;
use crate::text::{
    chars_of, first_index, is_white_space, lemma_first_index, string_of, trim_end, trim_end_index,
};

verus! {

/// The character that a backslash and `c` stand for.
pub open spec fn escape_meaning(c: char) -> Option<char> {
    if c == '\\' {
        Some('\\')
    } else if c == '"' {
        Some('"')
    } else if c == 'n' {
        Some('\n')
    } else if c == 't' {
        Some('\t')
    } else if c == 'r' {
        Some('\r')
    } else if c == '0' {
        Some('\0')
    } else if c == '$' {
        Some('$')
    } else {
        None
    }
}

/// A text in front of what is not an error.
pub open spec fn in_front(head: Seq<char>, r: Result<Seq<char>, Seq<char>>) -> Result<
    Seq<char>,
    Seq<char>,
> {
    match r {
        Ok(t) => Ok(head + t),
        Err(e) => Err(e),
    }
}

/// What an escaped text stands for, or what is wrong with its first escape that
/// is wrong.
pub open spec fn unescaped(s: Seq<char>) -> Result<Seq<char>, Seq<char>>
    decreases s.len(),
{
    if s.len() == 0 {
        Ok(seq![])
    } else if s[0] != '\\' {
        in_front(seq![s[0]], unescaped(s.skip(1)))
    } else if s.len() == 1 {
        Err("dangling backslash at end of string"@)
    } else {
        match escape_meaning(s[1]) {
            Some(c) => in_front(seq![c], unescaped(s.skip(2))),
            None => Err("unknown escape sequence `\\"@ + seq![s[1]] + "`"@),
        }
    }
}

/// Processes the backslash escapes of a double-quoted string fragment.
/// Squiggles and single-quoted strings are raw.
pub fn unescape(s: &str) -> (r: Result<String, String>)
    ensures
        match r {
            Ok(t) => unescaped(s@) == Ok::<Seq<char>, Seq<char>>(t@),
            Err(e) => unescaped(s@) == Err::<Seq<char>, Seq<char>>(e@),
        },
{
    let cs: Vec<char> = chars_of(s);
    let mut out: String = String::new();
    let mut i: usize = 0;
    proof {
        assert(s@.skip(0) =~= s@);
        lemma_in_front_nothing(unescaped(s@));
        assert(out@ =~= seq![]);
    }
    while i < cs.len()
        invariant
            i <= cs@.len(),
            cs@ == s@,
            unescaped(s@) == in_front(out@, unescaped(s@.skip(i as int))),
        decreases cs@.len() - i,
    {
        let c: char = cs[i];
        let ghost before = out@;
        let ghost rest = s@.skip(i as int);
        if c != '\\' {
            out.push(c);
            proof {
                assert(rest.skip(1) =~= s@.skip(i + 1));
                lemma_in_front_twice(before, c, unescaped(s@.skip(i + 1)));
            }
            i += 1;
        } else {
            if i + 1 == cs.len() {
                return Err(String::from_str("dangling backslash at end of string"));
            }
            let e: char = cs[i + 1];
            proof {
                assert(rest[1] == e);
                assert(rest.skip(2) =~= s@.skip(i + 2));
            }
            let meaning: Option<char> = if e == '\\' {
                Some('\\')
            } else if e == '"' {
                Some('"')
            } else if e == 'n' {
                Some('\n')
            } else if e == 't' {
                Some('\t')
            } else if e == 'r' {
                Some('\r')
            } else if e == '0' {
                Some('\0')
            } else if e == '$' {
                Some('$')
            } else {
                None
            };
            match meaning {
                Some(m) => {
                    out.push(m);
                    proof {
                        lemma_in_front_twice(before, m, unescaped(s@.skip(i + 2)));
                    }
                    i += 2;
                },
                None => {
                    let mut bad: String = String::new();
                    bad.push(e);
                    proof {
                        assert(bad@ =~= seq![e]);
                    }
                    return Err(
                        String::from_str("unknown escape sequence `\\").concat(
                            bad.as_str(),
                        ).concat("`"),
                    );
                },
            }
        }
    }
    proof {
        assert(s@.skip(i as int) =~= seq![]);
        assert(out@ + Seq::<char>::empty() =~= out@);
    }
    Ok(out)
}

proof fn lemma_in_front_nothing(r: Result<Seq<char>, Seq<char>>)
    ensures
        in_front(seq![], r) == r,
{
    if let Ok(t) = r {
        assert(Seq::<char>::empty() + t =~= t);
    }
}

proof fn lemma_in_front_twice(head: Seq<char>, c: char, r: Result<Seq<char>, Seq<char>>)
    ensures
        in_front(head, in_front(seq![c], r)) == in_front(head.push(c), r),
{
    if let Ok(t) = r {
        assert(head + (seq![c] + t) =~= head.push(c) + t);
    }
}

/// A text without backslashes stands for itself.
pub proof fn law_unescape_without_backslash(s: Seq<char>)
    requires
        forall|i: int| 0 <= i < s.len() ==> s[i] != '\\',
    ensures
        unescaped(s) == Ok::<Seq<char>, Seq<char>>(s),
    decreases s.len(),
{
    if s.len() > 0 {
        law_unescape_without_backslash(s.skip(1));
        assert(seq![s[0]] + s.skip(1) =~= s);
    } else {
        assert(s =~= seq![]);
    }
}

/// The letter that stands behind the backslash in the escape of a character,
/// where it has one.
pub open spec fn escape_letter(c: char) -> Option<char> {
    if c == '\\' || c == '"' || c == '$' {
        Some(c)
    } else if c == '\n' {
        Some('n')
    } else if c == '\t' {
        Some('t')
    } else if c == '\r' {
        Some('r')
    } else if c == '\0' {
        Some('0')
    } else {
        None
    }
}

/// A text with an escape for each backslash, double quote, dollar sign, line
/// feed, tab, carriage return and NUL.
pub open spec fn escaped(s: Seq<char>) -> Seq<char>
    decreases s.len(),
{
    if s.len() == 0 {
        seq![]
    } else {
        match escape_letter(s[0]) {
            Some(e) => seq!['\\', e] + escaped(s.skip(1)),
            None => seq![s[0]] + escaped(s.skip(1)),
        }
    }
}

/// Every text can be written: escaping it gives a text that stands for it.
pub proof fn law_unescape_inverts_escaping(s: Seq<char>)
    ensures
        unescaped(escaped(s)) == Ok::<Seq<char>, Seq<char>>(s),
    decreases s.len(),
{
    if s.len() > 0 {
        law_unescape_inverts_escaping(s.skip(1));
        let e = escaped(s);
        match escape_letter(s[0]) {
            Some(c) => {
                assert(e[0] == '\\' && e[1] == c);
                assert(e.skip(2) =~= escaped(s.skip(1)));
            },
            None => {
                assert(e.skip(1) =~= escaped(s.skip(1)));
            },
        }
        assert(seq![s[0]] + s.skip(1) =~= s);
    } else {
        assert(s =~= seq![]);
    }
}

/// A text with every line ended by a line feed alone, whether it was written
/// with carriage returns, line feeds or both.
pub open spec fn unified(s: Seq<char>) -> Seq<char>
    decreases s.len(),
{
    if s.len() == 0 {
        seq![]
    } else if s[0] == '\r' {
        if s.len() > 1 && s[1] == '\n' {
            seq!['\n'] + unified(s.skip(2))
        } else {
            seq!['\n'] + unified(s.skip(1))
        }
    } else {
        seq![s[0]] + unified(s.skip(1))
    }
}

/// A text with two spaces for each tab.
pub open spec fn untabbed(s: Seq<char>) -> Seq<char>
    decreases s.len(),
{
    if s.len() == 0 {
        seq![]
    } else {
        untabbed(s.drop_last()) + if s.last() == '\t' {
            seq![' ', ' ']
        } else {
            seq![s.last()]
        }
    }
}

/// One line as it is kept: without tabs and without trailing white space.
pub open spec fn clean_line(line: Seq<char>) -> Seq<char> {
    trim_end(untabbed(line))
}

/// The lines of a text as they are kept, each followed by a line feed.
pub open spec fn clean_lines(s: Seq<char>) -> Seq<char>
    decreases s.len(),
{
    let i = match first_index(s, '\n') {
        Some(i) => i,
        None => s.len() as int,
    };
    if 0 <= i < s.len() {
        clean_line(s.take(i)).push('\n') + clean_lines(s.skip(i + 1))
    } else {
        clean_line(s).push('\n')
    }
}

/// A text whose trailing line feeds, where there are several, are one.
pub open spec fn one_final_newline(s: Seq<char>) -> Seq<char>
    decreases s.len(),
{
    if s.len() >= 2 && s[s.len() - 1] == '\n' && s[s.len() - 2] == '\n' {
        one_final_newline(s.drop_last())
    } else {
        s
    }
}

/// A program's text as it is parsed.
pub open spec fn normalized(s: Seq<char>) -> Seq<char> {
    one_final_newline(clean_lines(unified(s)))
}

fn unify_line_ends(cs: &Vec<char>) -> (r: Vec<char>)
    ensures
        r@ == unified(cs@),
{
    let mut out: Vec<char> = Vec::new();
    let mut i: usize = 0;
    proof {
        assert(cs@.skip(0) =~= cs@);
        assert(Seq::<char>::empty() + unified(cs@) =~= unified(cs@));
        assert(out@ =~= seq![]);
    }
    while i < cs.len()
        invariant
            i <= cs@.len(),
            unified(cs@) == out@ + unified(cs@.skip(i as int)),
        decreases cs@.len() - i,
    {
        let ghost rest = cs@.skip(i as int);
        let ghost before = out@;
        proof {
            assert(rest[0] == cs@[i as int]);
            assert(rest.skip(1) =~= cs@.skip(i + 1));
            if rest.len() > 1 {
                assert(rest[1] == cs@[i + 1]);
                assert(rest.skip(2) =~= cs@.skip(i + 2));
            }
        }
        if cs[i] == '\r' {
            out.push('\n');
            if i + 1 < cs.len() && cs[i + 1] == '\n' {
                i += 1;
            }
        } else {
            out.push(cs[i]);
        }
        i += 1;
        proof {
            assert(before + unified(rest) =~= out@ + unified(cs@.skip(i as int)));
        }
    }
    proof {
        assert(cs@.skip(i as int) =~= seq![]);
        assert(out@ + Seq::<char>::empty() =~= out@);
    }
    out
}

fn expand_tabs(cs: &Vec<char>, from: usize, to: usize) -> (r: Vec<char>)
    requires
        from <= to <= cs@.len(),
    ensures
        r@ == untabbed(cs@.subrange(from as int, to as int)),
{
    let mut out: Vec<char> = Vec::new();
    let mut i: usize = from;
    while i < to
        invariant
            from <= i <= to <= cs@.len(),
            out@ == untabbed(cs@.subrange(from as int, i as int)),
        decreases to - i,
    {
        let ghost before = out@;
        proof {
            assert(cs@.subrange(from as int, i + 1).drop_last() =~= cs@.subrange(
                from as int,
                i as int,
            ));
        }
        if cs[i] == '\t' {
            out.push(' ');
            out.push(' ');
        } else {
            out.push(cs[i]);
        }
        i += 1;
        proof {
            assert(out@ =~= untabbed(cs@.subrange(from as int, i as int)));
        }
    }
    out
}

/// Where the next line feed at or behind `from` is, or the end.
fn line_end(cs: &Vec<char>, from: usize) -> (r: usize)
    requires
        from <= cs@.len(),
    ensures
        from <= r <= cs@.len(),
        match first_index(cs@.skip(from as int), '\n') {
            Some(i) => r == from + i && r < cs@.len(),
            None => r == cs@.len(),
        },
{
    let ghost rest = cs@.skip(from as int);
    let mut i: usize = from;
    proof {
        lemma_first_index(rest, '\n');
    }
    while i < cs.len() && cs[i] != '\n'
        invariant
            from <= i <= cs@.len(),
            rest == cs@.skip(from as int),
            forall|j: int| 0 <= j < i - from ==> rest[j] != '\n',
        decreases cs@.len() - i,
    {
        assert(rest[i - from] == cs@[i as int]);
        i += 1;
    }
    proof {
        if i < cs@.len() {
            assert(rest[i - from] == '\n');
        }
    }
    i
}

fn append_chars(out: &mut Vec<char>, cs: &Vec<char>, to: usize)
    requires
        to <= cs@.len(),
    ensures
        final(out)@ == old(out)@ + cs@.subrange(0, to as int),
{
    let ghost before = out@;
    let mut i: usize = 0;
    proof {
        assert(before + cs@.subrange(0, 0) =~= before);
    }
    while i < to
        invariant
            i <= to <= cs@.len(),
            out@ == before + cs@.subrange(0, i as int),
        decreases to - i,
    {
        out.push(cs[i]);
        i += 1;
        proof {
            assert(out@ =~= before + cs@.subrange(0, i as int));
        }
    }
}

fn keep_clean_lines(cs: &Vec<char>) -> (r: Vec<char>)
    ensures
        r@ == clean_lines(cs@),
{
    let mut out: Vec<char> = Vec::new();
    let mut at: usize = 0;
    proof {
        assert(cs@.skip(0) =~= cs@);
        assert(out@ + clean_lines(cs@) =~= clean_lines(cs@));
    }
    loop
        invariant_except_break
            at <= cs@.len(),
            clean_lines(cs@) == out@ + clean_lines(cs@.skip(at as int)),
        ensures
            out@ == clean_lines(cs@),
        decreases cs@.len() - at,
    {
        let ghost rest = cs@.skip(at as int);
        let ghost before = out@;
        let end: usize = line_end(cs, at);
        let line: Vec<char> = expand_tabs(cs, at, end);
        let keep: usize = trim_end_index(&line, 0, line.len());
        append_chars(&mut out, &line, keep);
        out.push('\n');
        proof {
            assert(line@.subrange(0, line@.len() as int) =~= line@);
            assert(cs@.subrange(at as int, end as int) =~= rest.take(end - at));
            assert(out@ =~= before + clean_line(rest.take(end - at)).push('\n'));
            if end < cs@.len() {
                assert(rest.skip(end - at + 1) =~= cs@.skip(end + 1));
                assert(before + clean_lines(rest) =~= out@ + clean_lines(cs@.skip(end + 1)));
            } else {
                assert(rest.take(end - at) =~= rest);
            }
        }
        if end == cs.len() {
            break;
        }
        at = end + 1;
    }
    out
}

/// Normalizes a program's text before it is parsed: line ends become line
/// feeds, tabs two spaces, trailing white space goes, and the text ends with
/// exactly one line feed.
pub fn normalize(src: &str) -> (r: String)
    ensures
        r@ == normalized(src@),
{
    let cs: Vec<char> = chars_of(src);
    let lines: Vec<char> = unify_line_ends(&cs);
    let clean: Vec<char> = keep_clean_lines(&lines);
    let mut end: usize = clean.len();
    proof {
        assert(clean@.take(end as int) =~= clean@);
    }
    while end >= 2 && clean[end - 1] == '\n' && clean[end - 2] == '\n'
        invariant
            end <= clean@.len(),
            one_final_newline(clean@) == one_final_newline(clean@.take(end as int)),
        decreases end,
    {
        proof {
            assert(clean@.take(end as int).drop_last() =~= clean@.take(end - 1));
        }
        end -= 1;
    }
    proof {
        assert(clean@.take(end as int) =~= clean@.subrange(0, end as int));
    }
    string_of(&clean, 0, end)
}

/// Whether a text holds neither carriage returns nor tabs.
pub open spec fn plain(s: Seq<char>) -> bool {
    forall|i: int| 0 <= i < s.len() ==> #[trigger] s[i] != '\r' && s[i] != '\t'
}

/// Whether no line of a text ends in white space.
pub open spec fn lines_trimmed(s: Seq<char>) -> bool {
    forall|i: int|
        0 <= i < s.len() && (i + 1 == s.len() || s[i + 1] == '\n') ==> #[trigger] s[i] == '\n'
            || !is_white_space(s[i])
}

/// Whether a text ends with one line feed and no more.
pub open spec fn ends_once(s: Seq<char>) -> bool {
    &&& s.len() > 0
    &&& s[s.len() - 1] == '\n'
    &&& s.len() > 1 ==> s[s.len() - 2] != '\n'
}

proof fn lemma_unified_plain(s: Seq<char>)
    ensures
        forall|i: int| 0 <= i < unified(s).len() ==> #[trigger] unified(s)[i] != '\r',
    decreases s.len(),
{
    if s.len() > 0 {
        let n: int = if s[0] == '\r' && s.len() > 1 && s[1] == '\n' {
            2
        } else {
            1
        };
        lemma_unified_plain(s.skip(n));
        let rest = unified(s.skip(n));
        assert forall|i: int| 0 <= i < unified(s).len() implies #[trigger] unified(s)[i] != '\r' by {
            if i > 0 {
                assert(unified(s)[i] == rest[i - 1]);
            }
        }
    }
}

proof fn lemma_untabbed(s: Seq<char>)
    ensures
        forall|i: int| 0 <= i < untabbed(s).len() ==> #[trigger] untabbed(s)[i] != '\t',
        (forall|i: int| 0 <= i < s.len() ==> #[trigger] s[i] != '\n' && s[i] != '\r')
            ==> forall|i: int|
            0 <= i < untabbed(s).len() ==> #[trigger] untabbed(s)[i] != '\n' && untabbed(s)[i]
                != '\r',
        (forall|i: int| 0 <= i < s.len() ==> #[trigger] s[i] != '\t') ==> untabbed(s) == s,
    decreases s.len(),
{
    if s.len() > 0 {
        let rest = s.drop_last();
        lemma_untabbed(rest);
        assert forall|i: int| 0 <= i < rest.len() implies rest[i] == s[i] by {}
        assert(s.last() == s[s.len() - 1]);
        let u = untabbed(rest);
        let all = untabbed(s);
        assert forall|i: int| 0 <= i < all.len() implies #[trigger] all[i] != '\t' by {
            if i < u.len() {
                assert(all[i] == u[i]);
            }
        }
        if forall|i: int| 0 <= i < s.len() ==> #[trigger] s[i] != '\n' && s[i] != '\r' {
            assert forall|i: int| 0 <= i < rest.len() implies #[trigger] rest[i] != '\n' && rest[i]
                != '\r' by {
                assert(rest[i] == s[i]);
            }
            assert forall|i: int| 0 <= i < all.len() implies #[trigger] all[i] != '\n' && all[i]
                != '\r' by {
                if i < u.len() {
                    assert(all[i] == u[i]);
                }
            }
        }
        if forall|i: int| 0 <= i < s.len() ==> #[trigger] s[i] != '\t' {
            assert forall|i: int| 0 <= i < rest.len() implies #[trigger] rest[i] != '\t' by {
                assert(rest[i] == s[i]);
            }
            assert(all =~= s);
        }
    } else {
        assert(untabbed(s) =~= s);
    }
}

proof fn lemma_trim_end(s: Seq<char>)
    ensures
        trim_end(s).len() <= s.len(),
        trim_end(s) == s.take(trim_end(s).len() as int),
        trim_end(s).len() > 0 ==> !is_white_space(trim_end(s).last()),
    decreases s.len(),
{
    if s.len() > 0 && is_white_space(s.last()) {
        lemma_trim_end(s.drop_last());
        let n = trim_end(s).len() as int;
        assert(s.drop_last().take(n) =~= s.take(n));
    } else {
        assert(s.take(s.len() as int) =~= s);
    }
}

/// A line as it is kept holds no tab, no line end and no trailing white space.
proof fn lemma_clean_line(line: Seq<char>)
    requires
        forall|i: int| 0 <= i < line.len() ==> #[trigger] line[i] != '\n' && line[i] != '\r',
    ensures
        plain(clean_line(line)),
        forall|i: int| 0 <= i < clean_line(line).len() ==> #[trigger] clean_line(line)[i] != '\n',
        clean_line(line).len() > 0 ==> !is_white_space(clean_line(line).last()),
{
    lemma_untabbed(line);
    let u = untabbed(line);
    lemma_trim_end(u);
    let c = clean_line(line);
    assert forall|i: int| 0 <= i < c.len() implies c[i] == #[trigger] u[i] by {
        assert(u.take(c.len() as int)[i] == u[i]);
    }
    assert forall|i: int| 0 <= i < c.len() implies #[trigger] c[i] != '\r' && c[i] != '\t' by {
        assert(c[i] == u[i]);
    }
    assert forall|i: int| 0 <= i < c.len() implies #[trigger] c[i] != '\n' by {
        assert(c[i] == u[i]);
    }
}

proof fn lemma_clean_lines(s: Seq<char>)
    requires
        forall|i: int| 0 <= i < s.len() ==> #[trigger] s[i] != '\r',
    ensures
        plain(clean_lines(s)),
        lines_trimmed(clean_lines(s)),
        clean_lines(s).len() > 0,
        clean_lines(s).last() == '\n',
    decreases s.len(),
{
    lemma_first_index(s, '\n');
    let i = match first_index(s, '\n') {
        Some(i) => i,
        None => s.len() as int,
    };
    let line = s.take(i);
    assert forall|k: int| 0 <= k < line.len() implies #[trigger] line[k] != '\n' && line[k]
        != '\r' by {
        assert(line[k] == s[k]);
    }
    lemma_clean_line(line);
    let head = clean_line(line).push('\n');
    let all = clean_lines(s);
    if i < s.len() {
        let tail = s.skip(i + 1);
        assert forall|k: int| 0 <= k < tail.len() implies #[trigger] tail[k] != '\r' by {
            assert(tail[k] == s[i + 1 + k]);
        }
        lemma_clean_lines(tail);
        let rest = clean_lines(tail);
        assert(all == head + rest);
        assert forall|k: int| 0 <= k < all.len() implies #[trigger] all[k] != '\r' && all[k]
            != '\t' by {
            if k < head.len() - 1 {
                assert(all[k] == clean_line(line)[k]);
            } else if k >= head.len() {
                assert(all[k] == rest[k - head.len()]);
            }
        }
        assert forall|k: int|
            0 <= k < all.len() && (k + 1 == all.len() || all[k + 1] == '\n') implies #[trigger] all[k]
            == '\n' || !is_white_space(all[k]) by {
            if k >= head.len() {
                assert(all[k] == rest[k - head.len()]);
                if k + 1 < all.len() {
                    assert(all[k + 1] == rest[k + 1 - head.len()]);
                }
            } else if k < head.len() - 1 {
                assert(all[k] == clean_line(line)[k]);
                if k + 1 < head.len() - 1 {
                    assert(all[k + 1] == clean_line(line)[k + 1]);
                } else {
                    assert(clean_line(line)[k] == clean_line(line).last());
                }
            }
        }
    } else {
        assert(line =~= s);
        assert(all == head);
        assert forall|k: int| 0 <= k < all.len() implies #[trigger] all[k] != '\r' && all[k]
            != '\t' by {
            if k < head.len() - 1 {
                assert(all[k] == clean_line(line)[k]);
            }
        }
        assert forall|k: int|
            0 <= k < all.len() && (k + 1 == all.len() || all[k + 1] == '\n') implies #[trigger] all[k]
            == '\n' || !is_white_space(all[k]) by {
            if k < head.len() - 1 {
                assert(all[k] == clean_line(line)[k]);
                if k + 1 < head.len() - 1 {
                    assert(all[k + 1] == clean_line(line)[k + 1]);
                } else {
                    assert(clean_line(line)[k] == clean_line(line).last());
                }
            }
        }
    }
}

proof fn lemma_one_final_newline(s: Seq<char>)
    requires
        plain(s),
        lines_trimmed(s),
        s.len() > 0,
        s.last() == '\n',
    ensures
        plain(one_final_newline(s)),
        lines_trimmed(one_final_newline(s)),
        ends_once(one_final_newline(s)),
    decreases s.len(),
{
    if s.len() >= 2 && s[s.len() - 1] == '\n' && s[s.len() - 2] == '\n' {
        let rest = s.drop_last();
        assert forall|k: int| 0 <= k < rest.len() implies #[trigger] rest[k] != '\r' && rest[k]
            != '\t' by {
            assert(rest[k] == s[k]);
        }
        assert forall|k: int|
            0 <= k < rest.len() && (k + 1 == rest.len() || rest[k + 1] == '\n') implies
            #[trigger] rest[k] == '\n' || !is_white_space(rest[k]) by {
            assert(rest[k] == s[k]);
            assert(s[k + 1] == '\n');
        }
        lemma_one_final_newline(rest);
    }
}

/// What comes out of normalization holds no carriage return and no tab, no line
/// of it ends in white space, and it ends with exactly one line feed.
pub proof fn law_normalized_form(s: Seq<char>)
    ensures
        plain(normalized(s)),
        lines_trimmed(normalized(s)),
        ends_once(normalized(s)),
{
    lemma_unified_plain(s);
    lemma_clean_lines(unified(s));
    lemma_one_final_newline(clean_lines(unified(s)));
}

proof fn lemma_unified_id(s: Seq<char>)
    requires
        forall|i: int| 0 <= i < s.len() ==> #[trigger] s[i] != '\r',
    ensures
        unified(s) == s,
    decreases s.len(),
{
    if s.len() > 0 {
        let rest = s.skip(1);
        assert forall|i: int| 0 <= i < rest.len() implies #[trigger] rest[i] != '\r' by {
            assert(rest[i] == s[i + 1]);
        }
        lemma_unified_id(rest);
        assert(seq![s[0]] + rest =~= s);
    } else {
        assert(unified(s) =~= s);
    }
}

proof fn lemma_clean_lines_id(s: Seq<char>)
    requires
        plain(s),
        lines_trimmed(s),
    ensures
        clean_lines(s) == s.push('\n'),
    decreases s.len(),
{
    lemma_first_index(s, '\n');
    let i = match first_index(s, '\n') {
        Some(i) => i,
        None => s.len() as int,
    };
    let line = s.take(i);
    assert(clean_line(line) == line) by {
        assert forall|k: int| 0 <= k < line.len() implies #[trigger] line[k] != '\t' by {
            assert(line[k] == s[k]);
        }
        lemma_untabbed(line);
        if line.len() > 0 {
            assert(line.last() == s[i - 1]);
            assert(s[i - 1] != '\n');
        }
    }
    if i < s.len() {
        let tail = s.skip(i + 1);
        assert forall|k: int| 0 <= k < tail.len() implies #[trigger] tail[k] != '\r' && tail[k]
            != '\t' by {
            assert(tail[k] == s[i + 1 + k]);
        }
        assert forall|k: int|
            0 <= k < tail.len() && (k + 1 == tail.len() || tail[k + 1] == '\n') implies
            #[trigger] tail[k] == '\n' || !is_white_space(tail[k]) by {
            assert(tail[k] == s[i + 1 + k]);
            if k + 1 < tail.len() {
                assert(tail[k + 1] == s[i + 1 + k + 1]);
            }
        }
        lemma_clean_lines_id(tail);
        assert(line.push('\n') + tail.push('\n') =~= s.push('\n'));
    } else {
        assert(line =~= s);
    }
}

/// Normalizing twice is normalizing once.
pub proof fn law_normalize_idempotent(s: Seq<char>)
    ensures
        normalized(normalized(s)) == normalized(s),
{
    law_normalized_form(s);
    let n = normalized(s);
    lemma_unified_id(n);
    lemma_clean_lines_id(n);
    assert(n.push('\n').drop_last() =~= n);
    reveal_with_fuel(one_final_newline, 2);
    assert(one_final_newline(n.push('\n')) == one_final_newline(n));
}

proof fn lemma_unescaped_append(a: Seq<char>, b: Seq<char>)
    requires
        unescaped(a) is Ok,
    ensures
        unescaped(a + b) == match unescaped(b) {
            Ok(t) => Ok::<Seq<char>, Seq<char>>(unescaped(a)->Ok_0 + t),
            Err(e) => Err(e),
        },
    decreases a.len(),
{
    let all = a + b;
    if a.len() == 0 {
        assert(all =~= b);
        if let Ok(t) = unescaped(b) {
            assert(Seq::<char>::empty() + t =~= t);
        }
    } else if a[0] != '\\' {
        lemma_unescaped_append(a.skip(1), b);
        assert(all.skip(1) =~= a.skip(1) + b);
        if let Ok(t) = unescaped(b) {
            let u = unescaped(a.skip(1))->Ok_0;
            assert(seq![a[0]] + (u + t) =~= (seq![a[0]] + u) + t);
        }
    } else {
        assert(a.len() > 1);
        assert(all[0] == a[0] && all[1] == a[1]);
        lemma_unescaped_append(a.skip(2), b);
        assert(all.skip(2) =~= a.skip(2) + b);
        if let Ok(t) = unescaped(b) {
            let u = unescaped(a.skip(2))->Ok_0;
            let c = escape_meaning(a[1])->0;
            assert(seq![c] + (u + t) =~= (seq![c] + u) + t);
        }
    }
}

/// A text is read piece by piece: what two pieces stand for stands in the same
/// order.
pub proof fn law_escapes_are_read_piece_by_piece(a: Seq<char>, b: Seq<char>)
    requires
        unescaped(a) is Ok,
        unescaped(b) is Ok,
    ensures
        unescaped(a + b) == Ok::<Seq<char>, Seq<char>>(unescaped(a)->Ok_0 + unescaped(b)->Ok_0),
{
    lemma_unescaped_append(a, b);
}

/// A backslash in front of any other character, or at the end, is refused
/// wherever it stands.
pub proof fn law_unknown_escapes_are_refused(before: Seq<char>, c: char, after: Seq<char>)
    requires
        unescaped(before) is Ok,
    ensures
        c != '\\' && c != '"' && c != 'n' && c != 't' && c != 'r' && c != '0' && c != '$' ==> (
        unescaped(before + seq!['\\', c] + after) matches Err(m) && m.contains(c)),
        unescaped(before + seq!['\\']) is Err,
{
    let rest = seq!['\\', c] + after;
    assert(rest[0] == '\\' && rest[1] == c);
    lemma_unescaped_append(before, rest);
    assert(before + rest =~= before + seq!['\\', c] + after);
    let lone = seq!['\\'];
    assert(lone[0] == '\\' && lone.len() == 1);
    lemma_unescaped_append(before, lone);
    if escape_meaning(c) is None {
        let m = "unknown escape sequence `\\"@ + seq![c] + "`"@;
        assert(m["unknown escape sequence `\\"@.len() as int] == c);
    }
}

/// A text that is in its normal form stays as it is.
pub proof fn law_normal_texts_stay(s: Seq<char>)
    requires
        plain(s),
        lines_trimmed(s),
        ends_once(s),
    ensures
        normalized(s) == s,
{
    lemma_unified_id(s);
    lemma_clean_lines_id(s);
    assert(s.push('\n').drop_last() =~= s);
    reveal_with_fuel(one_final_newline, 2);
    assert(one_final_newline(s.push('\n')) == one_final_newline(s));
}

proof fn lemma_unified_append(a: Seq<char>, b: Seq<char>)
    requires
        !(a.len() > 0 && a.last() == '\r' && b.len() > 0 && b[0] == '\n'),
    ensures
        unified(a + b) == unified(a) + unified(b),
    decreases a.len(),
{
    let all = a + b;
    if a.len() == 0 {
        assert(all =~= b);
        assert(unified(a) + unified(b) =~= unified(b));
    } else {
        assert(all[0] == a[0]);
        let n: int = if a[0] == '\r' && a.len() > 1 && a[1] == '\n' {
            2
        } else {
            1
        };
        if a.len() > 1 {
            assert(all[1] == a[1]);
        } else {
            assert(a.last() == a[0]);
            assert(b.len() > 0 ==> all[1] == b[0]);
        }
        let rest = a.skip(n);
        assert(all.skip(n) =~= rest + b);
        if rest.len() > 0 {
            assert(rest.last() == a.last());
        }
        lemma_unified_append(rest, b);
        let head = if a[0] == '\r' {
            '\n'
        } else {
            a[0]
        };
        assert(unified(all) == seq![head] + unified(rest + b));
        assert(seq![head] + (unified(rest) + unified(b)) =~= (seq![head] + unified(rest)) + unified(
            b,
        ));
    }
}

/// How a line ends makes no difference: a carriage return with a line feed
/// behind it, or alone, is a line feed.
pub proof fn law_line_ends_are_alike(a: Seq<char>, b: Seq<char>)
    requires
        a.len() > 0 ==> a.last() != '\r',
    ensures
        normalized(a + seq!['\r', '\n'] + b) == normalized(a + seq!['\n'] + b),
        b.len() > 0 && b[0] != '\n' ==> normalized(a + seq!['\r'] + b) == normalized(
            a + seq!['\n'] + b,
        ),
{
    let crlf = seq!['\r', '\n'];
    let cr = seq!['\r'];
    let lf = seq!['\n'];
    reveal_with_fuel(unified, 3);
    assert(crlf.skip(2) =~= seq![]);
    assert(cr.skip(1) =~= seq![]);
    assert(lf.skip(1) =~= seq![]);
    assert(unified(crlf) =~= lf);
    assert(unified(cr) =~= lf);
    assert(unified(lf) =~= lf);
    lemma_unified_append(a, crlf);
    lemma_unified_append(a + crlf, b);
    lemma_unified_append(a, lf);
    lemma_unified_append(a + lf, b);
    assert((a + lf).last() == '\n' && (a + crlf).last() == '\n' && (a + cr).last() == '\r');
    if b.len() > 0 && b[0] != '\n' {
        lemma_unified_append(a, cr);
        lemma_unified_append(a + cr, b);
    }
}

proof fn lemma_clean_lines_split(line: Seq<char>, rest: Seq<char>)
    requires
        forall|i: int| 0 <= i < line.len() ==> #[trigger] line[i] != '\n',
    ensures
        clean_lines(line + seq!['\n'] + rest) == clean_line(line).push('\n') + clean_lines(rest),
        clean_lines(line) == clean_line(line).push('\n'),
{
    let s = line + seq!['\n'] + rest;
    lemma_first_index(s, '\n');
    lemma_first_index(line, '\n');
    assert(s[line.len() as int] == '\n');
    let i = first_index(s, '\n')->0;
    if i < line.len() {
        assert(s[i] == line[i]);
    }
    assert(s.take(i) =~= line);
    assert(s.skip(i + 1) =~= rest);
}

/// The text before the first line feed.
pub open spec fn first_line(s: Seq<char>) -> Seq<char> {
    match first_index(s, '\n') {
        Some(i) => s.take(i),
        None => s,
    }
}

proof fn lemma_first_line(s: Seq<char>)
    ensures
        forall|i: int| 0 <= i < first_line(s).len() ==> #[trigger] first_line(s)[i] != '\n',
        first_line(s) == s || (first_line(s).len() < s.len() && s == first_line(s) + seq!['\n']
            + s.skip(first_line(s).len() as int + 1)),
{
    lemma_first_index(s, '\n');
    if let Some(i) = first_index(s, '\n') {
        assert(s =~= s.take(i) + seq!['\n'] + s.skip(i + 1));
    }
}

proof fn lemma_clean_lines_swap(a: Seq<char>, x: Seq<char>, y: Seq<char>, b: Seq<char>)
    requires
        forall|i: int| 0 <= i < x.len() ==> #[trigger] x[i] != '\n',
        forall|i: int| 0 <= i < y.len() ==> #[trigger] y[i] != '\n',
        forall|l: Seq<char>|
            clean_line(#[trigger] (l + x) + first_line(b)) == clean_line(l + y + first_line(b)),
    ensures
        clean_lines(a + x + b) == clean_lines(a + y + b),
    decreases a.len(),
{
    lemma_first_line(a);
    lemma_first_line(b);
    let head = first_line(a);
    if head == a {
        let end = first_line(b);
        let p = a + x + end;
        let q = a + y + end;
        assert(clean_line((a + x) + end) == clean_line(q));
        assert forall|i: int| 0 <= i < p.len() implies #[trigger] p[i] != '\n' by {
            if i < a.len() {
                assert(p[i] == a[i]);
            } else if i < a.len() + x.len() {
                assert(p[i] == x[i - a.len()]);
            } else {
                assert(p[i] == end[i - a.len() - x.len()]);
            }
        }
        assert forall|i: int| 0 <= i < q.len() implies #[trigger] q[i] != '\n' by {
            if i < a.len() {
                assert(q[i] == a[i]);
            } else if i < a.len() + y.len() {
                assert(q[i] == y[i - a.len()]);
            } else {
                assert(q[i] == end[i - a.len() - y.len()]);
            }
        }
        let rest = b.skip(end.len() as int + 1);
        lemma_clean_lines_split(p, rest);
        lemma_clean_lines_split(q, rest);
        if end != b {
            assert(a + x + b =~= p + seq!['\n'] + rest);
            assert(a + y + b =~= q + seq!['\n'] + rest);
        }
    } else {
        let rest = a.skip(head.len() as int + 1);
        lemma_clean_lines_swap(rest, x, y, b);
        lemma_clean_lines_split(head, rest + x + b);
        lemma_clean_lines_split(head, rest + y + b);
        assert(a + x + b =~= head + seq!['\n'] + (rest + x + b));
        assert(a + y + b =~= head + seq!['\n'] + (rest + y + b));
    }
}

proof fn lemma_untabbed_append(a: Seq<char>, b: Seq<char>)
    ensures
        untabbed(a + b) == untabbed(a) + untabbed(b),
    decreases b.len(),
{
    if b.len() == 0 {
        assert(a + b =~= a);
        assert(untabbed(a) + untabbed(b) =~= untabbed(a));
    } else {
        lemma_untabbed_append(a, b.drop_last());
        assert((a + b).drop_last() =~= a + b.drop_last());
        let end = if b.last() == '\t' {
            seq![' ', ' ']
        } else {
            seq![b.last()]
        };
        assert(untabbed(a) + (untabbed(b.drop_last()) + end) =~= (untabbed(a) + untabbed(
            b.drop_last(),
        )) + end);
    }
}

proof fn lemma_unified_one(c: char)
    requires
        c != '\r',
    ensures
        unified(seq![c]) == seq![c],
{
    reveal_with_fuel(unified, 2);
    assert(seq![c].skip(1) =~= seq![]);
    assert(unified(seq![c]) =~= seq![c]);
}

/// A tab is two spaces wherever it stands.
pub proof fn law_tabs_are_two_spaces(a: Seq<char>, b: Seq<char>)
    ensures
        normalized(a + seq!['\t'] + b) == normalized(a + seq![' ', ' '] + b),
{
    let tab = seq!['\t'];
    let two = seq![' ', ' '];
    lemma_unified_append(a, tab);
    lemma_unified_append(a + tab, b);
    lemma_unified_append(a, two);
    lemma_unified_append(a + two, b);
    lemma_unified_one('\t');
    lemma_unified_id(two);
    reveal_with_fuel(untabbed, 3);
    assert(untabbed(tab) =~= two);
    assert(two.drop_last() =~= seq![' ']);
    assert(seq![' '].drop_last() =~= seq![]);
    assert(untabbed(two) =~= two);
    let v = unified(b);
    assert forall|l: Seq<char>|
        clean_line(#[trigger] (l + tab) + first_line(v)) == clean_line(l + two + first_line(v)) by {
        lemma_untabbed_append(l + tab, first_line(v));
        lemma_untabbed_append(l, tab);
        lemma_untabbed_append(l + two, first_line(v));
        lemma_untabbed_append(l, two);
    }
    lemma_clean_lines_swap(unified(a), tab, two, v);
}

/// White space at the end of a line makes no difference.
pub proof fn law_white_space_before_a_line_end_goes(a: Seq<char>, c: char, b: Seq<char>)
    requires
        is_white_space(c),
        c != '\n',
        c != '\r',
        a.len() > 0 ==> a.last() != '\r',
    ensures
        normalized(a + seq![c] + (seq!['\n'] + b)) == normalized(a + seq!['\n'] + b),
{
    let one = seq![c];
    let lf = seq!['\n'];
    let tail = lf + b;
    lemma_unified_append(a, one);
    lemma_unified_append(a + one, tail);
    lemma_unified_append(a, tail);
    lemma_unified_append(lf, b);
    lemma_unified_one(c);
    lemma_unified_one('\n');
    assert((a + one).last() == c);
    assert(a + lf + b =~= a + tail);
    let v = unified(tail);
    assert(v[0] == '\n');
    lemma_first_index(v, '\n');
    assert(first_line(v) =~= seq![]);
    let none = Seq::<char>::empty();
    reveal_with_fuel(untabbed, 2);
    assert(one.drop_last() =~= none);
    assert(untabbed(one) =~= if c == '\t' {
        seq![' ', ' ']
    } else {
        one
    });
    assert forall|l: Seq<char>|
        clean_line(#[trigger] (l + one) + first_line(v)) == clean_line(l + none + first_line(v)) by {
        assert((l + one) + first_line(v) =~= l + one);
        assert(l + none + first_line(v) =~= l);
        lemma_untabbed_append(l, one);
        reveal_with_fuel(trim_end, 3);
        let u = untabbed(l);
        if c == '\t' {
            let w = u + seq![' ', ' '];
            assert(is_white_space(' '));
            assert(w.last() == ' ');
            assert(w.drop_last().last() == ' ');
            assert(w.drop_last().drop_last() =~= u);
        } else {
            assert((u + one).drop_last() =~= u);
        }
    }
    lemma_clean_lines_swap(unified(a), one, none, v);
    assert(unified(a) + none + v =~= unified(a) + v);
}

proof fn lemma_clean_lines_push(s: Seq<char>)
    ensures
        clean_lines(s.push('\n')) == clean_lines(s).push('\n'),
        clean_lines(s).len() > 0,
        clean_lines(s).last() == '\n',
    decreases s.len(),
{
    lemma_first_line(s);
    let head = first_line(s);
    let none = Seq::<char>::empty();
    lemma_clean_lines_split(none, none);
    reveal_with_fuel(untabbed, 1);
    assert(clean_line(none) =~= none);
    if head == s {
        lemma_clean_lines_split(s, none);
        assert(s.push('\n') =~= s + seq!['\n'] + none);
        assert(clean_line(s).push('\n') + none.push('\n') =~= clean_lines(s).push('\n'));
    } else {
        let rest = s.skip(head.len() as int + 1);
        lemma_clean_lines_push(rest);
        lemma_clean_lines_split(head, rest);
        lemma_clean_lines_split(head, rest.push('\n'));
        assert(s.push('\n') =~= head + seq!['\n'] + rest.push('\n'));
        assert(clean_line(head).push('\n') + clean_lines(rest).push('\n') =~= (clean_line(head).push(
            '\n',
        ) + clean_lines(rest)).push('\n'));
    }
}

/// Empty lines at the end make no difference, nor whether the last line is
/// ended.
pub proof fn law_empty_lines_at_the_end_go(s: Seq<char>)
    requires
        s.len() > 0 ==> s.last() != '\r',
    ensures
        normalized(s.push('\n')) == normalized(s),
{
    lemma_unified_append(s, seq!['\n']);
    lemma_unified_one('\n');
    assert(s.push('\n') =~= s + seq!['\n']);
    assert(unified(s) + seq!['\n'] =~= unified(s).push('\n'));
    lemma_clean_lines_push(unified(s));
    let t = clean_lines(unified(s));
    assert(t.push('\n').drop_last() =~= t);
}

} // verus!
