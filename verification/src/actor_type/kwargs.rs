//! Reading keyword arguments: texts and ports with their defaults, time limits
//! and environment variables.
use vstd::prelude::*;
use vstd::string::*;
use crate::runtime::value::{
    field, kind_name_of, law_set_field_then_read, with_field, Dict, Value, ValueModel,
};
use crate::text::{decimal, i64_text};

verus! {

/// The models of a list of name and value pairs.
pub open spec fn pairs_view(s: Seq<(String, String)>) -> Seq<(Seq<char>, Seq<char>)> {
    Seq::new(s.len(), |i: int| (s[i].0@, s[i].1@))
}

/// The text of the keyword argument `name`, or `default` where it is not given.
/// Nothing where it is given and no string.
pub open spec fn text_or_default(
    kw: Seq<(Seq<char>, ValueModel)>,
    name: Seq<char>,
    default: Seq<char>,
) -> Option<Seq<char>> {
    match field(kw, name) {
        None => Some(default),
        Some(ValueModel::String(s)) => Some(s),
        Some(_) => None,
    }
}

/// The keyword argument `name` as a text, with a default.
pub fn text_or(kw: &Dict, name: &str, default: &str) -> (r: Option<String>)
    ensures
        match r {
            Some(s) => text_or_default(kw@, name@, default@) == Some(s@),
            None => text_or_default(kw@, name@, default@) is None,
        },
{
    match kw.get(name) {
        None => Some(String::from_str(default)),
        Some(Value::String(s)) => Some(s.clone()),
        Some(_) => None,
    }
}

/// The port that the keyword argument `name` gives, or `default` where it is
/// not given. Nothing where it is given and no number from 1 to 65535.
pub open spec fn port_or_default(
    kw: Seq<(Seq<char>, ValueModel)>,
    name: Seq<char>,
    default: int,
) -> Option<int> {
    match field(kw, name) {
        None => Some(default),
        Some(ValueModel::Number(n)) if 0 < n <= u16::MAX => Some(n),
        Some(_) => None,
    }
}

/// The keyword argument `name` as a port to connect to, with a default.
pub fn port_or(kw: &Dict, name: &str, default: u16) -> (r: Option<u16>)
    ensures
        match r {
            Some(p) => port_or_default(kw@, name@, default as int) == Some(p as int),
            None => port_or_default(kw@, name@, default as int) is None,
        },
{
    match kw.get(name) {
        None => Some(default),
        Some(Value::Number(n)) => if 0 < *n && *n <= 65535 {
            Some(*n as u16)
        } else {
            None
        },
        Some(_) => None,
    }
}

/// The positive number that the keyword argument `name` gives.
pub open spec fn positive_of(kw: Seq<(Seq<char>, ValueModel)>, name: Seq<char>) -> Option<int> {
    match field(kw, name) {
        Some(ValueModel::Number(n)) if n > 0 => Some(n),
        _ => None,
    }
}

/// The keyword argument `name`, where it is a positive number.
pub fn positive(kw: &Dict, name: &str) -> (r: Option<u64>)
    ensures
        match r {
            Some(n) => positive_of(kw@, name@) == Some(n as int),
            None => positive_of(kw@, name@) is None,
        },
{
    match kw.get(name) {
        Some(Value::Number(n)) => if *n > 0 {
            Some(*n as u64)
        } else {
            None
        },
        _ => None,
    }
}

/// The text that a value gives an environment variable.
pub open spec fn env_text(v: ValueModel) -> Option<Seq<char>> {
    match v {
        ValueModel::String(s) => Some(s),
        ValueModel::Number(n) => Some(decimal(n)),
        ValueModel::Bool(b) => Some(
            if b {
                "true"@
            } else {
                "false"@
            },
        ),
        ValueModel::Atom(a) => Some(a),
        _ => None,
    }
}

/// The environment variables that fields give, in their order, or what is wrong
/// with the first of them that gives none.
pub open spec fn env_entries(entries: Seq<(Seq<char>, ValueModel)>) -> Result<
    Seq<(Seq<char>, Seq<char>)>,
    Seq<char>,
>
    decreases entries.len(),
{
    if entries.len() == 0 {
        Ok(seq![])
    } else {
        match env_entries(entries.drop_last()) {
            Err(e) => Err(e),
            Ok(done) => match env_text(entries.last().1) {
                Some(text) => Ok(done.push((entries.last().0, text))),
                None => Err(
                    "env value for `"@ + entries.last().0 + "` is "@ + kind_name_of(
                        entries.last().1,
                    ) + " (expected string-like)"@,
                ),
            },
        }
    }
}

/// The environment variables that the value of an `env` argument gives.
pub open spec fn env_of(env: ValueModel) -> Result<Seq<(Seq<char>, Seq<char>)>, Seq<char>> {
    match env {
        ValueModel::Dict(entries) => env_entries(entries),
        _ => Err("`env` must be a dict, got "@ + kind_name_of(env)),
    }
}

/// A field that gives no variable is what is wrong with all that has it first.
proof fn lemma_env_error(entries: Seq<(Seq<char>, ValueModel)>, i: int)
    requires
        0 <= i <= entries.len(),
        env_entries(entries.take(i)) is Err,
    ensures
        env_entries(entries) == env_entries(entries.take(i)),
    decreases entries.len() - i,
{
    if i < entries.len() {
        assert(entries.take(i + 1).drop_last() =~= entries.take(i));
        lemma_env_error(entries, i + 1);
    } else {
        assert(entries.take(i) =~= entries);
    }
}

/// The environment variables of an `env` argument, as name and text.
pub fn env_pairs(env: &Value) -> (r: Result<Vec<(String, String)>, String>)
    ensures
        match r {
            Ok(pairs) => env_of(env@) == Ok::<Seq<(Seq<char>, Seq<char>)>, Seq<char>>(
                pairs_view(pairs@),
            ),
            Err(e) => env_of(env@) == Err::<Seq<(Seq<char>, Seq<char>)>, Seq<char>>(e@),
        },
{
    let fields: &Dict = match env {
        Value::Dict(d) => d,
        _ => return Err(String::from_str("`env` must be a dict, got ").concat(env.kind_name())),
    };
    let ghost all = fields@;
    let mut out: Vec<(String, String)> = Vec::new();
    proof {
        assert(pairs_view(out@) =~= seq![]);
    }
    let mut i: usize = 0;
    while i < fields.len()
        invariant
            i <= fields@.len(),
            all == fields@,
            env@ == ValueModel::Dict(all),
            env_entries(all.take(i as int)) == Ok::<Seq<(Seq<char>, Seq<char>)>, Seq<char>>(
                pairs_view(out@),
            ),
        decreases fields@.len() - i,
    {
        proof {
            assert(all.take(i + 1).drop_last() =~= all.take(i as int));
            assert(all.take(i + 1).last() == all[i as int]);
        }
        match fields.get_index(i) {
            Some((k, v)) => {
                let text: String = match v {
                    Value::String(s) => s.clone(),
                    Value::Number(n) => i64_text(*n),
                    Value::Bool(b) => if *b {
                        String::from_str("true")
                    } else {
                        String::from_str("false")
                    },
                    Value::Atom(a) => a.clone(),
                    _ => {
                        proof {
                            lemma_env_error(all, i + 1);
                        }
                        return Err(
                            String::from_str("env value for `").concat(k.as_str()).concat(
                                "` is ",
                            ).concat(v.kind_name()).concat(" (expected string-like)"),
                        );
                    },
                };
                let ghost before = pairs_view(out@);
                out.push((k.clone(), text));
                proof {
                    assert(pairs_view(out@) =~= before.push((k@, text@)));
                }
            },
            None => {},
        }
        i += 1;
    }
    proof {
        assert(all.take(i as int) =~= all);
    }
    Ok(out)
}

/// A keyword argument counts where it is given with a value of its kind; where
/// it is not given, its default does. A port lies between 1 and 65535, and a
/// time limit is positive.
pub proof fn law_keyword_arguments_are_read(
    kw: Seq<(Seq<char>, ValueModel)>,
    name: Seq<char>,
    s: Seq<char>,
    default: Seq<char>,
    n: int,
    port: int,
    v: ValueModel,
)
    ensures
        text_or_default(with_field(kw, name, ValueModel::String(s)), name, default) == Some(s),
        !(v is String) ==> text_or_default(with_field(kw, name, v), name, default) is None,
        field(kw, name) is None ==> text_or_default(kw, name, default) == Some(default),
        port_or_default(with_field(kw, name, ValueModel::Number(n)), name, port) == (if 1 <= n
            <= 65535 {
            Some(n)
        } else {
            None
        }),
        !(v is Number) ==> port_or_default(with_field(kw, name, v), name, port) is None,
        field(kw, name) is None ==> port_or_default(kw, name, port) == Some(port),
        positive_of(with_field(kw, name, ValueModel::Number(n)), name) == (if n >= 1 {
            Some(n)
        } else {
            None
        }),
        !(v is Number) ==> positive_of(with_field(kw, name, v), name) is None,
        field(kw, name) is None ==> positive_of(kw, name) is None,
{
    law_set_field_then_read(kw, name, ValueModel::String(s), name);
    law_set_field_then_read(kw, name, ValueModel::Number(n), name);
    law_set_field_then_read(kw, name, v, name);
}

/// An environment has a variable for each field, in their order and under its
/// name: texts and atoms as they are, numbers and truth values as they are
/// written. Any other value is refused.
pub proof fn law_environments_keep_their_variables(
    entries: Seq<(Seq<char>, ValueModel)>,
    env: ValueModel,
    i: int,
)
    ensures
        env_of(env) is Ok ==> env is Dict,
        env_of(ValueModel::Dict(entries)) is Ok <==> forall|k: int|
            0 <= k < entries.len() ==> (#[trigger] entries[k]).1 is String || entries[k].1 is Number
                || entries[k].1 is Bool || entries[k].1 is Atom,
        env_of(ValueModel::Dict(entries)) matches Ok(vars) ==> vars.len() == entries.len() && (0
            <= i < entries.len() ==> vars[i].0 == entries[i].0 && (entries[i].1
            matches ValueModel::String(s) ==> vars[i].1 == s) && (entries[i].1
            matches ValueModel::Atom(a) ==> vars[i].1 == a) && (entries[i].1
            matches ValueModel::Number(n) ==> vars[i].1 == decimal(n)) && (entries[i].1
            == ValueModel::Bool(true) ==> vars[i].1 == "true"@) && (entries[i].1
            == ValueModel::Bool(false) ==> vars[i].1 == "false"@)),
    decreases entries.len(),
{
    if entries.len() > 0 {
        let front = entries.drop_last();
        law_environments_keep_their_variables(front, env, i);
        if forall|k: int|
            0 <= k < entries.len() ==> (#[trigger] entries[k]).1 is String || entries[k].1 is Number
                || entries[k].1 is Bool || entries[k].1 is Atom {
            assert forall|k: int| 0 <= k < front.len() implies (#[trigger] front[k]).1 is String
                || front[k].1 is Number || front[k].1 is Bool || front[k].1 is Atom by {
                assert(front[k] == entries[k]);
            }
            assert(entries[entries.len() - 1] == entries.last());
        }
        if env_entries(entries) is Ok {
            assert forall|k: int| 0 <= k < entries.len() implies (#[trigger] entries[k]).1 is String
                || entries[k].1 is Number || entries[k].1 is Bool || entries[k].1 is Atom by {
                if k < front.len() {
                    assert(front[k] == entries[k]);
                }
            }
        }
        if 0 <= i < front.len() {
            assert(front[i] == entries[i]);
        }
    }
}

} // verus!
