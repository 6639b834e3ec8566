//! Storage for the member variables of an actor. Each declared name is a slot
//! that may or may not hold a value.
use vstd::prelude::*;
use vstd::string::*;
use crate::actor_type::outcome::lemma_new_field;
use crate::name_map::{ascending, index_of, map_of, NameMap};
use crate::runtime::value::{field, field_index, lemma_field_index, Dict, Value, ValueModel};
use crate::runtime::{declared_view, DeclaredVar, DeclaredVarModel};
use crate::text::{lemma_text_less_irreflexive, text_less};

verus! {

pub struct Members {
    slots: NameMap<Option<Value>>,
}

/// Tells that a name to be assigned was not declared on the actor.
#[derive(Debug, PartialEq, Eq, Structural)]
pub struct Undeclared;

/// The model of a slot.
pub open spec fn slot_view(slot: Option<Value>) -> Option<ValueModel> {
    match slot {
        Some(v) => Some(v@),
        None => None,
    }
}

/// The slots that declarations make: a later declaration of a name takes the
/// place of an earlier one.
pub open spec fn declared_slots(vars: Seq<DeclaredVarModel>) -> Map<Seq<char>, Option<ValueModel>>
    decreases vars.len(),
{
    if vars.len() == 0 {
        Map::empty()
    } else {
        declared_slots(vars.drop_last()).insert(vars.last().name, vars.last().default)
    }
}

/// The assigned slots among sorted entries, in their order.
pub open spec fn assigned(entries: Seq<(Seq<char>, Option<ValueModel>)>) -> Seq<
    (Seq<char>, ValueModel),
>
    decreases entries.len(),
{
    if entries.len() == 0 {
        seq![]
    } else {
        match entries.last().1 {
            Some(v) => assigned(entries.drop_last()).push((entries.last().0, v)),
            None => assigned(entries.drop_last()),
        }
    }
}

/// Whether a list of slots holds what a map of slots does, in ascending order
/// of the names.
pub open spec fn lists(
    entries: Seq<(Seq<char>, Option<ValueModel>)>,
    slots: Map<Seq<char>, Option<ValueModel>>,
) -> bool {
    &&& forall|i: int, j: int|
        0 <= i < j < entries.len() ==> text_less(
            (#[trigger] entries[i]).0,
            (#[trigger] entries[j]).0,
        )
    &&& forall|i: int|
        0 <= i < entries.len() ==> slots.contains_key((#[trigger] entries[i]).0)
            && slots[entries[i].0] == entries[i].1
    &&& forall|k: Seq<char>| #[trigger]
        slots.contains_key(k) ==> exists|i: int|
            0 <= i < entries.len() && (#[trigger] entries[i]).0 == k
}

impl Members {
    pub closed spec fn view(&self) -> Map<Seq<char>, Option<ValueModel>> {
        self.slots@.map_values(|s: Option<Value>| slot_view(s))
    }

    /// A slot for each declared variable, holding its default.
    pub fn from_declarations(vars: &Vec<DeclaredVar>) -> (r: Self)
        ensures
            r@ == declared_slots(declared_view(vars@)),
    {
        let mut m = Members { slots: NameMap::new() };
        let ghost all = declared_view(vars@);
        proof {
            assert(m@ =~= Map::<Seq<char>, Option<ValueModel>>::empty());
        }
        let mut i: usize = 0;
        while i < vars.len()
            invariant
                i <= vars@.len(),
                all == declared_view(vars@),
                m@ == declared_slots(all.take(i as int)),
            decreases vars@.len() - i,
        {
            proof {
                assert(all.take(i + 1).drop_last() =~= all.take(i as int));
                assert(all.take(i + 1).last() == vars@[i as int]@);
            }
            let default: Option<Value> = match &vars[i].default {
                Some(v) => Some(v.clone()),
                None => None,
            };
            let ghost before = m.slots@;
            m.slots.insert(vars[i].name.clone(), default);
            proof {
                assert(m@ =~= before.map_values(|s: Option<Value>| slot_view(s)).insert(
                    all[i as int].name,
                    all[i as int].default,
                ));
            }
            i += 1;
        }
        proof {
            assert(all.take(i as int) =~= all);
        }
        m
    }

    /// The value of a slot that is both declared and assigned.
    pub fn get(&self, name: &str) -> (r: Option<&Value>)
        ensures
            match r {
                Some(v) => self@.contains_key(name@) && self@[name@] == Some(v@),
                None => self@.contains_key(name@) ==> self@[name@] is None,
            },
    {
        match self.slots.get(name) {
            Some(slot) => slot.as_ref(),
            None => None,
        }
    }

    /// Whether the name was declared.
    pub fn is_declared(&self, name: &str) -> (r: bool)
        ensures
            r == self@.contains_key(name@),
    {
        self.slots.contains_key(name)
    }

    /// Assigns a value to a declared slot; a name that was not declared is
    /// refused.
    pub fn set(&mut self, name: &str, value: Value) -> (r: Result<(), Undeclared>)
        ensures
            r is Ok <==> old(self)@.contains_key(name@),
            r is Ok ==> final(self)@ == old(self)@.insert(name@, Some(value@)),
            r is Err ==> final(self)@ == old(self)@,
    {
        if self.slots.contains_key(name) {
            let ghost before = self.slots@;
            self.slots.insert(String::from_str(name), Some(value));
            proof {
                assert(self@ =~= before.map_values(|s: Option<Value>| slot_view(s)).insert(
                    name@,
                    Some(value@),
                ));
            }
            Ok(())
        } else {
            Err(Undeclared)
        }
    }

    /// All assigned slots as a dict, by name in ascending order. Slots without
    /// a value are left out, so that reading one fails like reading a field
    /// that does not exist.
    pub fn assigned_view(&self) -> (r: Dict)
        ensures
            exists|entries: Seq<(Seq<char>, Option<ValueModel>)>|
                lists(entries, self@) && r@ == #[trigger] assigned(entries),
    {
        let n: usize = self.slots.len();
        let ghost raw = self.slots.entries();
        let ghost all = Seq::new(raw.len(), |i: int| (raw[i].0@, slot_view(raw[i].1)));
        proof {
            assert(lists(all, self@)) by {
                assert forall|i: int, j: int| 0 <= i < j < all.len() implies text_less(
                    (#[trigger] all[i]).0,
                    (#[trigger] all[j]).0,
                ) by {
                    assert(text_less(raw[i].0@, raw[j].0@));
                }
                assert forall|i: int| 0 <= i < all.len() implies self@.contains_key(
                    (#[trigger] all[i]).0,
                ) && self@[all[i].0] == all[i].1 by {
                    lemma_entry(raw, i);
                }
                assert forall|k: Seq<char>| #[trigger] self@.contains_key(k) implies exists|
                    i: int,
                |
                    0 <= i < all.len() && (#[trigger] all[i]).0 == k by {
                    let i = index_of(raw, k);
                    assert(raw[i].0@ == k);
                    assert(all[i].0 == k);
                }
            }
        }
        let mut out: Dict = Dict::new();
        let mut i: usize = 0;
        while i < n
            invariant
                i <= n,
                n == raw.len(),
                raw == self.slots.entries(),
                ascending(raw),
                all == Seq::new(raw.len(), |i: int| (raw[i].0@, slot_view(raw[i].1))),
                out@ == assigned(all.take(i as int)),
            decreases n - i,
        {
            let (name, slot): (&String, &Option<Value>) = self.slots.entry(i);
            proof {
                assert(all.take(i + 1).drop_last() =~= all.take(i as int));
                assert(all.take(i + 1).last() == all[i as int]);
                lemma_assigned_names(all, i as int);
                assert forall|j: int| 0 <= j < out@.len() implies (#[trigger] out@[j]).0
                    != all[i as int].0 by {
                    let k = choose|k: int| 0 <= k < i && (#[trigger] all[k]).0 == out@[j].0;
                    assert(text_less(raw[k].0@, raw[i as int].0@));
                    lemma_text_less_irreflexive(all[i as int].0);
                }
            }
            if let Some(v) = slot {
                proof {
                    lemma_new_field(out@, name@, v@);
                }
                out.insert(name.clone(), v.clone());
            }
            i += 1;
        }
        proof {
            assert(all.take(i as int) =~= all);
        }
        out
    }
}

/// The entry at `i` of a sorted list is what its map holds under its name.
proof fn lemma_entry(raw: Seq<(String, Option<Value>)>, i: int)
    requires
        ascending(raw),
        0 <= i < raw.len(),
    ensures
        map_of(raw).contains_key(raw[i].0@),
        map_of(raw)[raw[i].0@] == raw[i].1,
{
    let k = raw[i].0@;
    let j = index_of(raw, k);
    assert(0 <= j < raw.len() && raw[j].0@ == k);
    lemma_text_less_irreflexive(k);
}

/// Every name among the assigned slots is the name of a slot.
proof fn lemma_assigned_names(entries: Seq<(Seq<char>, Option<ValueModel>)>, n: int)
    requires
        0 <= n <= entries.len(),
    ensures
        forall|j: int|
            0 <= j < assigned(entries.take(n)).len() ==> exists|k: int|
                0 <= k < n && (#[trigger] entries[k]).0 == (#[trigger] assigned(
                    entries.take(n),
                )[j]).0,
    decreases n,
{
    if n > 0 {
        lemma_assigned_names(entries, n - 1);
        assert(entries.take(n).drop_last() =~= entries.take(n - 1));
        let before = assigned(entries.take(n - 1));
        let after = assigned(entries.take(n));
        assert forall|j: int| 0 <= j < after.len() implies exists|k: int|
            0 <= k < n && (#[trigger] entries[k]).0 == (#[trigger] after[j]).0 by {
            if j < before.len() {
                assert(after[j] == before[j]);
                let k = choose|k: int| 0 <= k < n - 1 && (#[trigger] entries[k]).0 == before[j].0;
                assert(entries[k].0 == after[j].0);
            } else {
                assert(entries[n - 1].0 == after[j].0);
            }
        }
    }
}

/// What was set is what is read, no other slot changes, and a name that was not
/// declared stays so.
pub proof fn law_set_then_get(
    slots: Map<Seq<char>, Option<ValueModel>>,
    name: Seq<char>,
    value: ValueModel,
    other: Seq<char>,
)
    requires
        slots.contains_key(name),
    ensures
        slots.insert(name, Some(value))[name] == Some(value),
        slots.insert(name, Some(value)).dom() == slots.dom(),
        other != name && slots.contains_key(other) ==> slots.insert(name, Some(value))[other]
            == slots[other],
{
    assert(slots.insert(name, Some(value)).dom() =~= slots.dom());
}

/// The snapshot holds exactly the assigned slots: a field for each slot with a
/// value, and none for the others.
pub proof fn law_assigned_view_omits_unset(
    entries: Seq<(Seq<char>, Option<ValueModel>)>,
    slots: Map<Seq<char>, Option<ValueModel>>,
    name: Seq<char>,
)
    requires
        lists(entries, slots),
    ensures
        field(assigned(entries), name) == if slots.contains_key(name) {
            slots[name]
        } else {
            None
        },
    decreases entries.len(),
{
    let snapshot = assigned(entries);
    lemma_field_index(snapshot, name);
    assert(entries.take(entries.len() as int) =~= entries);
    lemma_assigned_names(entries, entries.len() as int);
    match field_index(snapshot, name) {
        Some(j) => {
            lemma_assigned_value(entries, entries.len() as int, j);
            let k = choose|k: int|
                0 <= k < entries.len() && (#[trigger] entries[k]) == (
                    snapshot[j].0,
                    Some(snapshot[j].1),
                );
            assert(slots[entries[k].0] == entries[k].1);
        },
        None => {
            if slots.contains_key(name) && slots[name] is Some {
                let k = choose|k: int| 0 <= k < entries.len() && (#[trigger] entries[k]).0 == name;
                lemma_assigned_present(entries, entries.len() as int, k);
                let j = choose|j: int|
                    0 <= j < snapshot.len() && (#[trigger] snapshot[j]).0 == entries[k].0;
                assert(snapshot[j].0 == name);
            }
        },
    }
}

/// Every assigned slot comes from an entry with that value.
proof fn lemma_assigned_value(entries: Seq<(Seq<char>, Option<ValueModel>)>, n: int, j: int)
    requires
        0 <= n <= entries.len(),
        0 <= j < assigned(entries.take(n)).len(),
    ensures
        exists|k: int|
            0 <= k < n && (#[trigger] entries[k]) == (
                assigned(entries.take(n))[j].0,
                Some(assigned(entries.take(n))[j].1),
            ),
    decreases n,
{
    if n > 0 {
        assert(entries.take(n).drop_last() =~= entries.take(n - 1));
        let before = assigned(entries.take(n - 1));
        let after = assigned(entries.take(n));
        if j < before.len() {
            lemma_assigned_value(entries, n - 1, j);
            assert(after[j] == before[j]);
        } else {
            assert(entries[n - 1] == (after[j].0, Some(after[j].1)));
        }
    }
}

/// Every entry with a value is among the assigned slots.
proof fn lemma_assigned_present(entries: Seq<(Seq<char>, Option<ValueModel>)>, n: int, k: int)
    requires
        0 <= k < n <= entries.len(),
        entries[k].1 is Some,
    ensures
        exists|j: int|
            0 <= j < assigned(entries.take(n)).len() && (#[trigger] assigned(
                entries.take(n),
            )[j]).0 == entries[k].0,
    decreases n,
{
    assert(entries.take(n).drop_last() =~= entries.take(n - 1));
    let before = assigned(entries.take(n - 1));
    let after = assigned(entries.take(n));
    if k < n - 1 {
        lemma_assigned_present(entries, n - 1, k);
        let j = choose|j: int| 0 <= j < before.len() && (#[trigger] before[j]).0 == entries[k].0;
        assert(after[j] == before[j]);
    } else {
        assert(after[after.len() - 1].0 == entries[k].0);
    }
}

/// A member is declared exactly where a variable of its name is, and starts with
/// the default of the last one.
pub proof fn law_members_start_with_their_defaults(
    vars: Seq<DeclaredVarModel>,
    name: Seq<char>,
    i: int,
)
    ensures
        declared_slots(vars).contains_key(name) <==> exists|k: int|
            0 <= k < vars.len() && (#[trigger] vars[k]).name == name,
        0 <= i < vars.len() && vars[i].name == name && (forall|k: int|
            i < k < vars.len() ==> (#[trigger] vars[k]).name != name) ==> declared_slots(vars)[name]
            == vars[i].default,
    decreases vars.len(),
{
    if vars.len() > 0 {
        let rest = vars.drop_last();
        law_members_start_with_their_defaults(rest, name, i);
        assert forall|k: int| 0 <= k < rest.len() implies rest[k] == vars[k] by {}
        if declared_slots(vars).contains_key(name) {
            if vars.last().name == name {
                assert(vars[vars.len() - 1].name == name);
            } else {
                let k = choose|k: int| 0 <= k < rest.len() && (#[trigger] rest[k]).name == name;
                assert(vars[k].name == name);
            }
        }
        if exists|k: int| 0 <= k < vars.len() && (#[trigger] vars[k]).name == name {
            let k = choose|k: int| 0 <= k < vars.len() && (#[trigger] vars[k]).name == name;
            if k < rest.len() {
                assert(rest[k].name == name);
            }
        }
        if i < vars.len() - 1 {
            assert(vars[vars.len() - 1] == vars.last());
        }
    }
}

/// Reading a member gives the value that it holds, and nothing where it was not
/// declared or holds none.
pub proof fn law_members_are_read(members: Members, name: &str, v: Option<&Value>, declared: bool)
    requires
        call_ensures(Members::get, (&members, name), v),
        call_ensures(Members::is_declared, (&members, name), declared),
    ensures
        declared <==> members@.contains_key(name@),
        !declared ==> v is None,
        declared ==> members@[name@] == (match v {
            Some(v) => Some(v@),
            None => None,
        }),
{
}

/// Assigning to a declared member and reading it gives the value; the other
/// members stay. A name that was not declared is refused and nothing changes.
pub proof fn law_assigned_members_are_read_back(
    members: &mut Members,
    name: &str,
    value: Value,
    r: Result<(), Undeclared>,
    after: Members,
    read: Option<&Value>,
    other: &str,
    before_other: Option<&Value>,
    after_other: Option<&Value>,
)
    requires
        call_ensures(Members::get, (&*old(members), other), before_other),
        call_ensures(Members::set, (members, name, value), r),
        *final(members) == after,
        call_ensures(Members::get, (&after, name), read),
        call_ensures(Members::get, (&after, other), after_other),
    ensures
        r is Ok <==> old(members)@.contains_key(name@),
        r is Ok ==> (read matches Some(v) && v@ == value@),
        r is Err ==> after@ == old(members)@,
        other@ != name@ ==> (after_other is Some <==> before_other is Some),
        other@ != name@ ==> (after_other matches Some(v) ==> v@ == before_other->0@),
{
}

} // verus!
