//! Paths as text: their components, and the order in which they are listed.
use vstd::prelude::*;
use vstd::string::*;
use crate::text::{
    chars_of, first_index, lemma_first_index, lemma_text_less_irreflexive,
    lemma_text_less_transitive, lemma_text_less_trichotomy, str_eq, str_less, string_of, text_less,
    texts,
};

verus! {

/// The component that a piece of a path between slashes makes: none where it is
/// empty or a single dot.
pub open spec fn component(piece: Seq<char>) -> Seq<Seq<char>> {
    if piece.len() == 0 || piece == seq!['.'] {
        seq![]
    } else {
        seq![piece]
    }
}

/// The components of what follows a slash in a path.
pub open spec fn later_components(s: Seq<char>) -> Seq<Seq<char>>
    decreases s.len(),
{
    match first_index(s, '/') {
        Some(i) if 0 <= i < s.len() => component(s.take(i)) + later_components(s.skip(i + 1)),
        _ => component(s),
    }
}

/// The components of a path. Repeated slashes, a slash at the end and single
/// dots make none, but for a dot at the very front. The first component of an
/// absolute path is empty.
pub open spec fn path_components(path: Seq<char>) -> Seq<Seq<char>> {
    match first_index(path, '/') {
        Some(i) => seq![path.take(i)] + later_components(path.skip(i + 1)),
        None => if path.len() == 0 {
            seq![]
        } else {
            seq![path]
        },
    }
}

/// Where the piece of a path that starts at `from` ends: before the next slash,
/// or with the path.
fn piece_end(cs: &Vec<char>, from: usize) -> (r: usize)
    requires
        from <= cs@.len(),
    ensures
        from <= r <= cs@.len(),
        match first_index(cs@.skip(from as int), '/') {
            Some(i) => r == from + i && r < cs@.len(),
            None => r == cs@.len(),
        },
{
    let mut i: usize = from;
    proof {
        lemma_first_index(cs@.skip(from as int), '/');
    }
    while i < cs.len() && cs[i] != '/'
        invariant
            from <= i <= cs@.len(),
            forall|j: int| from <= j < i ==> cs@[j] != '/',
        decreases cs@.len() - i,
    {
        i += 1;
    }
    proof {
        let rest = cs@.skip(from as int);
        if let Some(k) = first_index(rest, '/') {
            assert(rest[k] == cs@[from + k]);
            if i < cs@.len() {
                assert(rest[i - from] == '/');
            }
        } else if i < cs@.len() {
            assert(rest[i - from] == '/');
        }
    }
    i
}

/// Splits a path into its components.
pub fn split_path(path: &str) -> (r: Vec<String>)
    ensures
        texts(r@) == path_components(path@),
{
    let cs: Vec<char> = chars_of(path);
    let mut out: Vec<String> = Vec::new();
    if cs.len() == 0 {
        proof {
            lemma_first_index(path@, '/');
            assert(texts(out@) =~= path_components(path@));
        }
        return out;
    }
    let mut end: usize = piece_end(&cs, 0);
    out.push(string_of(&cs, 0, end));
    proof {
        assert(cs@.skip(0) =~= cs@);
        assert(cs@.subrange(0, end as int) =~= cs@.take(end as int));
        if end == cs@.len() {
            lemma_first_index(cs@, '/');
            assert(cs@.take(end as int) =~= cs@);
            assert(texts(out@) =~= path_components(path@));
        } else {
            assert(texts(out@) + later_components(cs@.skip(end + 1)) =~= path_components(path@));
        }
    }
    while end < cs.len()
        invariant
            end <= cs@.len(),
            cs@ == path@,
            end < cs@.len() ==> path_components(path@) == texts(out@) + later_components(
                cs@.skip(end + 1),
            ),
            end == cs@.len() ==> path_components(path@) == texts(out@),
        decreases cs@.len() - end,
    {
        let from: usize = end + 1;
        let ghost rest = cs@.skip(from as int);
        let ghost before = out@;
        let next: usize = piece_end(&cs, from);
        let ghost piece = cs@.subrange(from as int, next as int);
        if !(next == from || (next == from + 1 && cs[from] == '.')) {
            out.push(string_of(&cs, from, next));
            proof {
                assert(piece.len() == next - from);
                if piece == seq!['.'] {
                    assert(piece[0] == '.');
                }
                assert(component(piece) == seq![piece]);
                assert(texts(out@) =~= texts(before) + seq![piece]);
            }
        } else {
            proof {
                if next == from + 1 {
                    assert(piece =~= seq!['.']);
                }
                assert(texts(out@) =~= texts(before) + component(piece));
            }
        }
        proof {
            lemma_first_index(rest, '/');
            assert(rest.take(next - from) =~= piece);
            if next < cs@.len() {
                assert(rest.skip(next - from + 1) =~= cs@.skip(next + 1));
                assert(path_components(path@) =~= texts(out@) + later_components(
                    cs@.skip(next + 1),
                ));
            } else {
                assert(rest =~= piece);
                assert(path_components(path@) =~= texts(out@));
            }
        }
        end = next;
    }
    out
}

/// What follows a slash has the components on both sides of any slash in it.
proof fn lemma_later_components_join(a: Seq<char>, b: Seq<char>)
    ensures
        later_components(a + seq!['/'] + b) == later_components(a) + later_components(b),
    decreases a.len(),
{
    let s = a + seq!['/'] + b;
    lemma_first_index(a, '/');
    lemma_first_index(s, '/');
    assert(s[a.len() as int] == '/');
    match first_index(a, '/') {
        Some(i) => {
            assert(s[i] == '/');
            assert(first_index(s, '/') == Some(i)) by {
                let k = first_index(s, '/')->Some_0;
                if k < i {
                    assert(s[k] == a[k]);
                }
            }
            assert(s.take(i) =~= a.take(i));
            assert(s.skip(i + 1) =~= a.skip(i + 1) + seq!['/'] + b);
            lemma_later_components_join(a.skip(i + 1), b);
            assert(component(a.take(i)) + (later_components(a.skip(i + 1)) + later_components(b))
                =~= (component(a.take(i)) + later_components(a.skip(i + 1))) + later_components(b));
        },
        None => {
            assert(first_index(s, '/') == Some(a.len() as int)) by {
                let k = first_index(s, '/')->Some_0;
                if k < a.len() {
                    assert(s[k] == a[k]);
                }
            }
            assert(s.take(a.len() as int) =~= a);
            assert(s.skip(a.len() as int + 1) =~= b);
        },
    }
}

proof fn lemma_path_components_join(a: Seq<char>, b: Seq<char>)
    ensures
        path_components(a + seq!['/'] + b) == (if a.len() == 0 {
            seq![Seq::<char>::empty()]
        } else {
            path_components(a)
        }) + later_components(b),
{
    let s = a + seq!['/'] + b;
    lemma_first_index(a, '/');
    lemma_first_index(s, '/');
    assert(s[a.len() as int] == '/');
    match first_index(a, '/') {
        Some(i) => {
            assert(s[i] == '/');
            assert(first_index(s, '/') == Some(i)) by {
                let k = first_index(s, '/')->Some_0;
                if k < i {
                    assert(s[k] == a[k]);
                }
            }
            assert(s.take(i) =~= a.take(i));
            assert(s.skip(i + 1) =~= a.skip(i + 1) + seq!['/'] + b);
            lemma_later_components_join(a.skip(i + 1), b);
            assert(seq![a.take(i)] + (later_components(a.skip(i + 1)) + later_components(b)) =~= (
            seq![a.take(i)] + later_components(a.skip(i + 1))) + later_components(b));
        },
        None => {
            assert(first_index(s, '/') == Some(a.len() as int)) by {
                let k = first_index(s, '/')->Some_0;
                if k < a.len() {
                    assert(s[k] == a[k]);
                }
            }
            assert(s.take(a.len() as int) =~= a);
            assert(s.skip(a.len() as int + 1) =~= b);
            if a.len() == 0 {
                assert(a =~= Seq::<char>::empty());
            }
        },
    }
}

/// A path has the same components however often its slashes are repeated,
/// whatever single dots stand between them, and with or without a slash at its
/// end.
pub proof fn law_path_spelling(a: Seq<char>, b: Seq<char>)
    ensures
        path_components(a + seq!['/', '/'] + b) == path_components(a + seq!['/'] + b),
        path_components(a + seq!['/', '.', '/'] + b) == path_components(a + seq!['/'] + b),
        a.len() > 0 ==> path_components(a + seq!['/']) == path_components(a),
        a.len() > 0 ==> path_components(a + seq!['/', '.']) == path_components(a),
{
    let none = Seq::<char>::empty();
    let dot = seq!['.'];
    lemma_first_index(none, '/');
    lemma_first_index(dot, '/');
    assert(later_components(none) =~= seq![]);
    assert(first_index(dot, '/') is None);
    assert(later_components(dot) =~= seq![]);
    assert(a + seq!['/', '/'] + b =~= a + seq!['/'] + (none + seq!['/'] + b));
    lemma_later_components_join(none, b);
    assert(later_components(none + seq!['/'] + b) =~= later_components(b));
    assert(a + seq!['/', '.', '/'] + b =~= a + seq!['/'] + (dot + seq!['/'] + b));
    lemma_later_components_join(dot, b);
    assert(later_components(dot + seq!['/'] + b) =~= later_components(b));
    lemma_path_components_join(a, b);
    lemma_path_components_join(a, none + seq!['/'] + b);
    lemma_path_components_join(a, dot + seq!['/'] + b);
    lemma_path_components_join(a, none);
    lemma_path_components_join(a, dot);
    assert(a + seq!['/'] =~= a + seq!['/'] + none);
    assert(a + seq!['/', '.'] =~= a + seq!['/'] + dot);
    assert(path_components(a) + Seq::<Seq<char>>::empty() =~= path_components(a));
}

/// Where a component stands among others: the root first, then `.`, then `..`,
/// then names.
pub open spec fn component_rank(c: Seq<char>) -> int {
    if c.len() == 0 {
        0
    } else if c == seq!['.'] {
        1
    } else if c == seq!['.', '.'] {
        2
    } else {
        3
    }
}

/// Whether a component comes before another.
pub open spec fn component_less(a: Seq<char>, b: Seq<char>) -> bool {
    component_rank(a) < component_rank(b) || (component_rank(a) == component_rank(b) && text_less(
        a,
        b,
    ))
}

/// The order of paths: component after component, a directory before what is in
/// it.
pub open spec fn components_less(a: Seq<Seq<char>>, b: Seq<Seq<char>>) -> bool
    decreases b.len(),
{
    if b.len() == 0 {
        false
    } else if a.len() == 0 {
        true
    } else if a[0] != b[0] {
        component_less(a[0], b[0])
    } else {
        components_less(a.skip(1), b.skip(1))
    }
}

proof fn lemma_component_less_trichotomy(a: Seq<char>, b: Seq<char>)
    ensures
        component_less(a, b) ==> !component_less(b, a) && a != b,
        component_less(a, b) || component_less(b, a) || a == b,
{
    lemma_text_less_trichotomy(a, b);
    lemma_text_less_irreflexive(a);
}

proof fn lemma_component_less_transitive(a: Seq<char>, b: Seq<char>, c: Seq<char>)
    requires
        component_less(a, b),
        component_less(b, c),
    ensures
        component_less(a, c),
{
    if text_less(a, b) && text_less(b, c) {
        lemma_text_less_transitive(a, b, c);
    }
}

/// Of two paths one comes before the other, unless they have the same
/// components.
pub proof fn law_path_order_trichotomy(a: Seq<Seq<char>>, b: Seq<Seq<char>>)
    ensures
        components_less(a, b) ==> !components_less(b, a) && a != b,
        components_less(a, b) || components_less(b, a) || a == b,
    decreases a.len() + b.len(),
{
    if a.len() > 0 && b.len() > 0 {
        lemma_component_less_trichotomy(a[0], b[0]);
        law_path_order_trichotomy(a.skip(1), b.skip(1));
        if a[0] == b[0] && a.skip(1) == b.skip(1) {
            assert(a =~= seq![a[0]] + a.skip(1));
            assert(b =~= seq![b[0]] + b.skip(1));
        }
    } else if a.len() == 0 && b.len() == 0 {
        assert(a =~= b);
    }
}

/// The order of paths is transitive.
pub proof fn law_path_order_transitive(a: Seq<Seq<char>>, b: Seq<Seq<char>>, c: Seq<Seq<char>>)
    requires
        components_less(a, b),
        components_less(b, c),
    ensures
        components_less(a, c),
    decreases b.len(),
{
    if a.len() > 0 {
        if a[0] == b[0] && b[0] == c[0] {
            law_path_order_transitive(a.skip(1), b.skip(1), c.skip(1));
        } else if a[0] != b[0] && b[0] != c[0] {
            lemma_component_less_transitive(a[0], b[0], c[0]);
            lemma_component_less_trichotomy(a[0], c[0]);
        }
    }
}

/// Whether path `i` of a list goes before path `j` once the list is sorted: it
/// comes before it in the order of paths, or the two have the same components
/// and it stood before it.
pub open spec fn goes_before(paths: Seq<Seq<char>>, i: int, j: int) -> bool {
    let a = path_components(paths[i]);
    let b = path_components(paths[j]);
    components_less(a, b) || (a == b && i < j)
}

proof fn lemma_goes_before_transitive(paths: Seq<Seq<char>>, i: int, j: int, k: int)
    requires
        goes_before(paths, i, j),
        goes_before(paths, j, k),
    ensures
        goes_before(paths, i, k),
{
    let a = path_components(paths[i]);
    let b = path_components(paths[j]);
    let c = path_components(paths[k]);
    if components_less(a, b) && components_less(b, c) {
        law_path_order_transitive(a, b, c);
    }
}

fn rank_of(c: &str) -> (r: u8)
    ensures
        r == component_rank(c@),
{
    proof {
        reveal_strlit(".");
        reveal_strlit("..");
        assert("."@ =~= seq!['.']);
        assert(".."@ =~= seq!['.', '.']);
        assert(seq!['.'].len() != seq!['.', '.'].len());
    }
    if c.is_empty() {
        0
    } else if str_eq(c, ".") {
        1
    } else if str_eq(c, "..") {
        2
    } else {
        3
    }
}

/// Whether a path, given by its components, comes before another.
fn comes_before(a: &Vec<String>, b: &Vec<String>) -> (r: bool)
    ensures
        r == components_less(texts(a@), texts(b@)),
{
    let ghost x = texts(a@);
    let ghost y = texts(b@);
    let mut i: usize = 0;
    proof {
        assert(x.skip(0) =~= x);
        assert(y.skip(0) =~= y);
    }
    while i < a.len() && i < b.len()
        invariant
            i <= a@.len(),
            i <= b@.len(),
            x == texts(a@),
            y == texts(b@),
            components_less(x, y) == components_less(x.skip(i as int), y.skip(i as int)),
        decreases a@.len() - i,
    {
        let c: &str = a[i].as_str();
        let d: &str = b[i].as_str();
        assert(x.skip(i as int)[0] == c@ && y.skip(i as int)[0] == d@);
        if !str_eq(c, d) {
            let p: u8 = rank_of(c);
            let q: u8 = rank_of(d);
            return p < q || (p == q && str_less(c, d));
        }
        proof {
            assert(x.skip(i as int).skip(1) =~= x.skip(i + 1));
            assert(y.skip(i as int).skip(1) =~= y.skip(i + 1));
        }
        i += 1;
    }
    i < b.len()
}

/// Sorts paths: says which of them stands at each place. Paths with the same
/// components stay in the order in which they were given.
pub fn sort_paths(paths: &Vec<String>) -> (r: Vec<usize>)
    ensures
        r@.len() == paths@.len(),
        r@.no_duplicates(),
        forall|i: int| 0 <= i < r@.len() ==> (#[trigger] r@[i]) < paths@.len(),
        forall|i: int, j: int|
            0 <= i < j < r@.len() ==> goes_before(
                texts(paths@),
                #[trigger] r@[i] as int,
                #[trigger] r@[j] as int,
            ),
{
    let ghost all = texts(paths@);
    let mut split: Vec<Vec<String>> = Vec::new();
    let mut order: Vec<usize> = Vec::new();
    let mut next: usize = 0;
    while next < paths.len()
        invariant
            next <= paths@.len(),
            all == texts(paths@),
            split@.len() == next,
            forall|i: int|
                0 <= i < next ==> texts((#[trigger] split@[i])@) == path_components(all[i]),
            order@.len() == next,
            order@.no_duplicates(),
            forall|i: int| 0 <= i < next ==> (#[trigger] order@[i]) < next,
            forall|i: int, j: int|
                0 <= i < j < next ==> goes_before(
                    all,
                    #[trigger] order@[i] as int,
                    #[trigger] order@[j] as int,
                ),
        decreases paths@.len() - next,
    {
        let path: Vec<String> = split_path(paths[next].as_str());
        assert(texts(path@) == path_components(all[next as int]));
        let mut at: usize = order.len();
        while at > 0 && comes_before(&path, &split[order[at - 1]])
            invariant
                at <= order@.len(),
                split@.len() == next,
                next < paths@.len(),
                all == texts(paths@),
                texts(path@) == path_components(all[next as int]),
                forall|i: int|
                    0 <= i < next ==> texts((#[trigger] split@[i])@) == path_components(all[i]),
                order@.len() == next,
                forall|i: int| 0 <= i < next ==> (#[trigger] order@[i]) < next,
                forall|j: int|
                    at <= j < next ==> goes_before(all, next as int, #[trigger] order@[j] as int),
            decreases at,
        {
            at -= 1;
        }
        let ghost before = order@;
        order.insert(at, next);
        split.push(path);
        proof {
            assert forall|i: int| 0 <= i < at implies goes_before(
                all,
                #[trigger] before[i] as int,
                next as int,
            ) by {
                let k = before[at - 1] as int;
                law_path_order_trichotomy(path_components(all[k]), path_components(all[next as int]));
                assert(goes_before(all, k, next as int));
                if i < at - 1 {
                    lemma_goes_before_transitive(all, before[i] as int, k, next as int);
                }
            }
            assert forall|i: int, j: int| 0 <= i < j < order@.len() implies goes_before(
                all,
                #[trigger] order@[i] as int,
                #[trigger] order@[j] as int,
            ) by {
                let x = if i < at { before[i] } else if i == at { next } else { before[i - 1] };
                let y = if j < at { before[j] } else if j == at { next } else { before[j - 1] };
                assert(order@[i] == x && order@[j] == y);
            }
        }
        next += 1;
    }
    order
}

/// A path that is followed by a slash and a name has that name for its last
/// component; a lone name is its own only one; a path that starts with a slash
/// starts at the root.
pub proof fn law_names_are_components(a: Seq<char>, name: Seq<char>)
    requires
        name.len() > 0,
        name != seq!['.'],
        forall|i: int| 0 <= i < name.len() ==> name[i] != '/',
    ensures
        path_components(name) == seq![name],
        a.len() > 0 ==> path_components(a + seq!['/'] + name) == path_components(a).push(name),
        path_components(seq!['/'] + name) == seq![Seq::<char>::empty(), name],
{
    lemma_first_index(name, '/');
    lemma_path_components_join(a, name);
    let none = Seq::<char>::empty();
    lemma_path_components_join(none, name);
    assert(none + seq!['/'] + name =~= seq!['/'] + name);
    assert(later_components(name) =~= seq![name]);
    assert(path_components(a) + seq![name] =~= path_components(a).push(name));
    assert(seq![none] + seq![name] =~= seq![none, name]);
}

/// Names are ordered as texts, and after the way up, which comes after the root.
pub proof fn law_names_are_ordered_as_texts(a: Seq<char>, b: Seq<char>)
    requires
        a.len() > 0 && a != seq!['.'] && a != seq!['.', '.'],
        b.len() > 0 && b != seq!['.'] && b != seq!['.', '.'],
    ensures
        component_less(a, b) <==> text_less(a, b),
        component_less(seq!['.', '.'], a),
        component_less(seq!['.'], a),
        component_less(seq!['.'], seq!['.', '.']),
        component_less(seq![], a),
        component_less(seq![], seq!['.']),
{
    assert(seq!['.'].len() == 1 && seq!['.', '.'].len() == 2);
}

/// Two paths are ordered by the first component in which they differ, and a
/// directory comes before what is in it.
pub proof fn law_paths_are_ordered_by_first_difference(
    p: Seq<Seq<char>>,
    x: Seq<char>,
    y: Seq<char>,
    a: Seq<Seq<char>>,
    b: Seq<Seq<char>>,
)
    requires
        x != y,
    ensures
        components_less(p + seq![x] + a, p + seq![y] + b) <==> component_less(x, y),
        components_less(p, p + seq![x] + a),
    decreases p.len(),
{
    let s = p + seq![x] + a;
    let t = p + seq![y] + b;
    if p.len() == 0 {
        assert(s[0] == x && t[0] == y);
    } else {
        law_paths_are_ordered_by_first_difference(p.skip(1), x, y, a, b);
        assert(s[0] == p[0] && t[0] == p[0]);
        assert(s.skip(1) =~= p.skip(1) + seq![x] + a);
        assert(t.skip(1) =~= p.skip(1) + seq![y] + b);
    }
}

} // verus!
