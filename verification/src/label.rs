//! The human-readable label of a chord: modifier names in a fixed order,
//! then the names of the other keys, sorted and without repetition.

use crate::keys::{
    flag_names, flags_to_strings, is_modifier_keycode, keycode_name, keycode_to_string,
    ModifierFlags,
};
use crate::text::texts;
use std::collections::HashSet;
use vstd::prelude::*;
use vstd::relations::{sorted_by, total_ordering};
use vstd::std_specs::iter::IteratorSpec;

verus! {

broadcast use {vstd::string::group_string_axioms, vstd::std_specs::hash::group_hash_axioms};

/// Whether `a` comes before `b`, or equals it, in dictionary order, where
/// single characters are ordered by their code points.
pub open spec fn text_le(a: Seq<char>, b: Seq<char>) -> bool
    decreases a.len(),
{
    if a.len() == 0 {
        true
    } else if b.len() == 0 {
        false
    } else if a[0] == b[0] {
        text_le(a.drop_first(), b.drop_first())
    } else {
        (a[0] as int) < (b[0] as int)
    }
}

/// Whether `a` comes strictly before `b` in dictionary order.
pub open spec fn text_lt(a: Seq<char>, b: Seq<char>) -> bool {
    text_le(a, b) && a != b
}

/// Dictionary order as a relation.
pub open spec fn text_order() -> spec_fn(Seq<char>, Seq<char>) -> bool {
    |a: Seq<char>, b: Seq<char>| text_le(a, b)
}

/// Every text precedes or equals itself.
pub proof fn lemma_text_le_reflexive(a: Seq<char>)
    ensures
        text_le(a, a),
    decreases a.len(),
{
    if a.len() > 0 {
        lemma_text_le_reflexive(a.drop_first());
    }
}

/// Two texts that precede each other are the same text.
pub proof fn lemma_text_le_antisymmetric(a: Seq<char>, b: Seq<char>)
    requires
        text_le(a, b),
        text_le(b, a),
    ensures
        a == b,
    decreases a.len(),
{
    if a.len() > 0 {
        lemma_text_le_antisymmetric(a.drop_first(), b.drop_first());
        assert(a =~= seq![a[0]] + a.drop_first());
    }
}

/// Dictionary order is transitive.
pub proof fn lemma_text_le_transitive(a: Seq<char>, b: Seq<char>, c: Seq<char>)
    requires
        text_le(a, b),
        text_le(b, c),
    ensures
        text_le(a, c),
    decreases a.len(),
{
    if a.len() > 0 && a[0] == b[0] && b[0] == c[0] {
        lemma_text_le_transitive(a.drop_first(), b.drop_first(), c.drop_first());
    }
}

/// Of two texts, one precedes or equals the other.
pub proof fn lemma_text_le_total(a: Seq<char>, b: Seq<char>)
    ensures
        text_le(a, b) || text_le(b, a),
    decreases a.len(),
{
    if a.len() > 0 && b.len() > 0 {
        if a[0] == b[0] {
            lemma_text_le_total(a.drop_first(), b.drop_first());
        }
    }
}

/// Dictionary order is a total order on texts.
pub proof fn lemma_text_order_is_total()
    ensures
        total_ordering(text_order()),
{
    let leq = text_order();
    assert forall|a: Seq<char>| #[trigger] leq(a, a) by {
        lemma_text_le_reflexive(a);
    }
    assert forall|a: Seq<char>, b: Seq<char>| #[trigger] leq(a, b) && #[trigger] leq(b, a) implies a
        == b by {
        lemma_text_le_antisymmetric(a, b);
    }
    assert forall|a: Seq<char>, b: Seq<char>, c: Seq<char>| #[trigger] leq(a, b) && #[trigger] leq(
        b,
        c,
    ) implies leq(a, c) by {
        lemma_text_le_transitive(a, b, c);
    }
    assert forall|a: Seq<char>, b: Seq<char>| #[trigger] leq(a, b) || #[trigger] leq(b, a) by {
        lemma_text_le_total(a, b);
    }
}

/// Whether `a` comes before `b`, or equals it, in dictionary order.
pub fn text_precedes(a: &str, b: &str) -> (le: bool)
    ensures
        le == text_le(a@, b@),
{
    let mut xs = a.chars();
    let mut ys = b.chars();
    loop
        invariant
            text_le(a@, b@) == text_le(xs.remaining(), ys.remaining()),
            xs.decrease() is Some,
        decreases xs.decrease()->0,
    {
        match xs.next() {
            None => {
                return true;
            },
            Some(x) => {
                match ys.next() {
                    None => {
                        return false;
                    },
                    Some(y) => {
                        if x != y {
                            return x < y;
                        }
                    },
                }
            },
        }
    }
}

/// Whether each text of `names` comes strictly before all that follow it.
pub open spec fn strictly_sorted(names: Seq<Seq<char>>) -> bool {
    forall|i: int, j: int|
        0 <= i < j < names.len() ==> text_lt(#[trigger] names[i], #[trigger] names[j])
}

/// The texts of the finite set `names` in dictionary order.
pub open spec fn sorted_names(names: Set<Seq<char>>) -> Seq<Seq<char>> {
    names.to_sorted_seq(text_order())
}

/// The list that `to_seq` makes of a finite set holds no element twice.
proof fn lemma_to_seq_no_duplicates<A>(set: Set<A>)
    requires
        set.finite(),
    ensures
        set.to_seq().no_duplicates(),
    decreases set.len(),
{
    if set.len() != 0 {
        let x = set.choose();
        let rest = set.remove(x);
        lemma_to_seq_no_duplicates(rest);
        rest.lemma_to_seq_to_set_id();
        assert(!rest.to_seq().contains(x));
    }
}

/// A strictly sorted list is the sorted list of the set of its elements.
pub proof fn lemma_strictly_sorted_is_sorted_names(list: Seq<Seq<char>>)
    requires
        strictly_sorted(list),
    ensures
        list == sorted_names(list.to_set()),
{
    broadcast use vstd::seq_lib::group_to_multiset_ensures;

    let names = list.to_set();
    let leq = text_order();
    lemma_text_order_is_total();
    vstd::seq_lib::seq_to_set_is_finite(list);
    let chosen = names.to_seq();
    names.lemma_to_seq_to_set_id();
    lemma_to_seq_no_duplicates(names);
    let sorted = chosen.sort_by(leq);
    chosen.lemma_sort_by_ensures(leq);
    list.lemma_multiset_has_no_duplicates();
    chosen.lemma_multiset_has_no_duplicates();
    assert forall|x: Seq<char>| list.to_multiset().count(x) == chosen.to_multiset().count(x) by {
        assert(list.contains(x) <==> names.contains(x));
    }
    assert(list.to_multiset() =~= sorted.to_multiset());
    vstd::seq_lib::lemma_sorted_unique(list, sorted, leq);
}

/// Puts `name` into the strictly sorted list `names` at its place in
/// dictionary order, unless the list holds it already.
pub fn insert_name(names: &mut Vec<String>, name: String)
    requires
        strictly_sorted(texts(old(names)@)),
    ensures
        strictly_sorted(texts(final(names)@)),
        texts(final(names)@).to_set() == texts(old(names)@).to_set().insert(name@),
{
    let ghost before = texts(names@);
    let mut at: usize = 0;
    while at < names.len()
        invariant
            at <= names.len(),
            names@ == old(names)@,
            before == texts(names@),
            forall|j: int| 0 <= j < at ==> text_lt(#[trigger] before[j], name@),
        ensures
            at <= names.len(),
            names@ == old(names)@,
            forall|j: int| 0 <= j < at ==> text_lt(#[trigger] before[j], name@),
            at < names.len() ==> text_le(name@, before[at as int]),
        decreases names.len() - at,
    {
        if text_precedes(name.as_str(), names[at].as_str()) {
            break;
        }
        proof {
            lemma_text_le_total(name@, before[at as int]);
        }
        at = at + 1;
    }
    if at < names.len() && text_precedes(names[at].as_str(), name.as_str()) {
        proof {
            lemma_text_le_antisymmetric(name@, before[at as int]);
        }
    } else {
        names.insert(at, name);
        proof {
            let after = texts(names@);
            assert(after =~= before.insert(at as int, name@));
            assert forall|i: int, j: int| 0 <= i < j < after.len() implies text_lt(
                #[trigger] after[i],
                #[trigger] after[j],
            ) by {
                if i == at && j - 1 > at {
                    lemma_text_le_transitive(name@, before[at as int], before[j - 1]);
                    if name@ == before[j - 1] {
                        lemma_text_le_antisymmetric(name@, before[at as int]);
                    }
                }
            }
            assert(after.to_set() =~= before.to_set().insert(name@)) by {
                assert forall|x: Seq<char>| after.to_set().contains(x) <==> before.to_set().insert(
                    name@,
                ).contains(x) by {
                    if before.contains(x) {
                        let k = choose|k: int| 0 <= k < before.len() && before[k] == x;
                        if k < at {
                            assert(after[k] == x);
                        } else {
                            assert(after[k + 1] == x);
                        }
                    }
                    if x == name@ {
                        assert(after[at as int] == x);
                    }
                }
            }
        }
    }
}

/// Whether `name` is what the label shows for the key `key`: its name,
/// provided that it is not a modifier key.
pub open spec fn names_key(key: u64, name: Seq<char>) -> bool {
    !is_modifier_keycode(key) && keycode_name(key) == name
}

/// The names of the keys in `keys` that are not modifier keys.
pub open spec fn key_names(keys: Set<u64>) -> Set<Seq<char>> {
    Set::new(|name: Seq<char>| exists|key: u64| keys.contains(key) && names_key(key, name))
}

/// A list that holds exactly the names of the keys listed in `held` holds
/// the names of the keys of the set that `held` lists.
proof fn lemma_names_of_listed_keys(list: Seq<Seq<char>>, held: Seq<u64>, keys: Set<u64>)
    requires
        forall|name: Seq<char>|
            list.to_set().contains(name) <==> exists|j: int|
                0 <= j < held.len() && names_key(#[trigger] held[j], name),
    ensures
        held.to_set() == keys ==> list.to_set() == key_names(keys),
{
    assert forall|name: Seq<char>| held.to_set() == keys implies (list.to_set().contains(name)
        <==> key_names(keys).contains(name)) by {
        if key_names(keys).contains(name) {
            let key = choose|key: u64| keys.contains(key) && names_key(key, name);
            let j = choose|j: int| 0 <= j < held.len() && held[j] == key;
            assert(names_key(held[j], name));
        }
    }
}

/// The names of the keys in `keys` that are not modifier keys, in
/// dictionary order, each name once.
pub fn sorted_key_names(keys: &HashSet<u64>) -> (names: Vec<String>)
    ensures
        texts(names@) == sorted_names(key_names(keys@)),
        strictly_sorted(texts(names@)),
{
    let mut names: Vec<String> = Vec::new();
    for key in it: keys.iter()
        invariant
            it.seq().unref().to_set() == keys@,
            strictly_sorted(texts(names@)),
            forall|name: Seq<char>|
                texts(names@).to_set().contains(name) <==> exists|j: int|
                    0 <= j < it.index() && names_key(#[trigger] it.seq().unref()[j], name),
            it.index() == it.seq().len() ==> texts(names@).to_set() == key_names(keys@),
    {
        let ghost seen = texts(names@).to_set();
        if !is_modifier_keycode(*key) {
            insert_name(&mut names, keycode_to_string(*key));
        }
        proof {
            let now = texts(names@).to_set();
            let at = it.index();
            let held = it.seq().unref();
            let done = held.take(at + 1);
            assert forall|name: Seq<char>| now.contains(name) <==> exists|j: int|
                0 <= j < done.len() && names_key(#[trigger] done[j], name) by {
                if seen.contains(name) {
                    let j = choose|j: int| 0 <= j < at && names_key(#[trigger] held[j], name);
                    assert(names_key(done[j], name));
                } else if now.contains(name) {
                    assert(names_key(done[at], name));
                }
                if exists|j: int| 0 <= j < done.len() && names_key(#[trigger] done[j], name) {
                    let j = choose|j: int|
                        0 <= j < done.len() && names_key(#[trigger] done[j], name);
                    assert(names_key(held[j], name));
                }
            }
            lemma_names_of_listed_keys(texts(names@), done, keys@);
        }
    }
    proof {
        lemma_strictly_sorted_is_sorted_names(texts(names@));
    }
    names
}

/// The texts of `parts` in order, with `separator` between neighbours.
pub open spec fn joined(parts: Seq<Seq<char>>, separator: Seq<char>) -> Seq<char>
    decreases parts.len(),
{
    if parts.len() == 0 {
        Seq::empty()
    } else if parts.len() == 1 {
        parts[0]
    } else {
        joined(parts.drop_last(), separator) + separator + parts.last()
    }
}

/// The strings of `parts` in order, with `separator` between neighbours.
pub fn join(parts: &Vec<String>, separator: &str) -> (text: String)
    ensures
        text@ == joined(texts(parts@), separator@),
{
    let mut text = String::new();
    let mut i: usize = 0;
    while i < parts.len()
        invariant
            i <= parts.len(),
            text@ == joined(texts(parts@).take(i as int), separator@),
        decreases parts.len() - i,
    {
        if i > 0 {
            text.append(separator);
        }
        text.append(parts[i].as_str());
        i = i + 1;
        proof {
            let done = texts(parts@).take(i as int);
            assert(done.drop_last() =~= texts(parts@).take(i - 1));
        }
    }
    assert(texts(parts@).take(parts.len() as int) =~= texts(parts@));
    text
}

/// The names `names` in dictionary order, each once, joined by " + ".
pub fn names_label(names: &Vec<String>) -> (label: String)
    ensures
        label@ == joined(sorted_names(texts(names@).to_set()), " + "@),
{
    let mut sorted: Vec<String> = Vec::new();
    let mut i: usize = 0;
    while i < names.len()
        invariant
            i <= names.len(),
            strictly_sorted(texts(sorted@)),
            texts(sorted@).to_set() == texts(names@).take(i as int).to_set(),
        decreases names.len() - i,
    {
        insert_name(&mut sorted, names[i].clone());
        i = i + 1;
        proof {
            let seen = texts(names@).take(i as int);
            assert(seen =~= seen.drop_last().push(names@[i - 1]@));
            vstd::seq_lib::seq_to_set_distributes_over_add(seen.drop_last(), seq![names@[i - 1]@]);
            assert(seen.drop_last().push(names@[i - 1]@) =~= seen.drop_last() + seq![
                names@[i - 1]@,
            ]);
            assert(seq![names@[i - 1]@].to_set() =~= Set::<Seq<char>>::empty().insert(
                names@[i - 1]@,
            )) by {
                assert(seq![names@[i - 1]@][0] == names@[i - 1]@);
            }
        }
    }
    proof {
        assert(texts(names@).take(i as int) =~= texts(names@));
        lemma_strictly_sorted_is_sorted_names(texts(sorted@));
    }
    join(&sorted, " + ")
}

/// The label of the chord of `keys` and `modifiers`: the names of the
/// modifiers that are set, then the sorted names of the keys that are not
/// modifier keys, all joined by " + ".
pub open spec fn label_text(keys: Set<u64>, modifiers: ModifierFlags) -> Seq<char> {
    joined(flag_names(modifiers) + sorted_names(key_names(keys)), " + "@)
}

/// The label of the chord of `keys` and `modifiers`, as shown to the user.
pub fn hotkey_label(keys: &HashSet<u64>, modifiers: ModifierFlags) -> (label: String)
    ensures
        label@ == label_text(keys@, modifiers),
{
    let mut parts = flags_to_strings(modifiers);
    let mut names = sorted_key_names(keys);
    let ghost first = parts@;
    let ghost second = names@;
    parts.append(&mut names);
    assert(texts(parts@) =~= texts(first) + texts(second));
    join(&parts, " + ")
}

} // verus!
