//! Collections keyed by name and kept in the order of the names.
//!
//! Names are ordered as strings are: character by character, by code point; a
//! proper prefix comes first. Placing a name that is already there replaces
//! what was stored under it.

use vstd::prelude::*;
use crate::text::{chars_of, same_text, strings_model};

verus! {

/// Whether `a` comes before `b`.
pub open spec fn name_lt(a: Seq<char>, b: Seq<char>) -> bool
    decreases a.len(),
{
    if b.len() == 0 {
        false
    } else if a.len() == 0 {
        true
    } else if a[0] == b[0] {
        name_lt(a.skip(1), b.skip(1))
    } else {
        (a[0] as u32) < (b[0] as u32)
    }
}

/// Whether `a` comes before `b`.
pub fn name_less(a: &str, b: &str) -> (less: bool)
    ensures
        less == name_lt(a@, b@),
{
    let a_chars = chars_of(a);
    let b_chars = chars_of(b);
    let mut i: usize = 0;
    assert(a_chars@.skip(0) =~= a_chars@);
    assert(b_chars@.skip(0) =~= b_chars@);
    while i < a_chars.len() && i < b_chars.len()
        invariant
            i <= a_chars.len(),
            i <= b_chars.len(),
            a_chars@ == a@,
            b_chars@ == b@,
            name_lt(a@, b@) == name_lt(a_chars@.skip(i as int), b_chars@.skip(i as int)),
        decreases a_chars.len() - i,
    {
        let x = a_chars[i];
        let y = b_chars[i];
        proof {
            assert(a_chars@.skip(i as int).skip(1) =~= a_chars@.skip(i + 1));
            assert(b_chars@.skip(i as int).skip(1) =~= b_chars@.skip(i + 1));
        }
        if x != y {
            return (x as u32) < (y as u32);
        }
        i = i + 1;
    }
    i < b_chars.len()
}

/// Where `name` belongs among `names`: the number of names at the front that
/// come before it.
pub open spec fn position(names: Seq<Seq<char>>, name: Seq<char>) -> int
    decreases names.len(),
{
    if names.len() == 0 || !name_lt(names[0], name) {
        0
    } else {
        1 + position(names.skip(1), name)
    }
}

/// Whether `name` stands at the place where it belongs.
pub open spec fn is_placed(names: Seq<Seq<char>>, name: Seq<char>) -> bool {
    position(names, name) < names.len() && names[position(names, name)] == name
}

/// `names` with `name` put where it belongs, unless it stands there already.
pub open spec fn placed_names(names: Seq<Seq<char>>, name: Seq<char>) -> Seq<Seq<char>> {
    if is_placed(names, name) {
        names
    } else {
        names.insert(position(names, name), name)
    }
}

/// `values` after `value` is stored under `name`: in place of what was stored
/// under that name, or else at the name's new place.
pub open spec fn placed_values<T>(
    names: Seq<Seq<char>>,
    values: Seq<T>,
    name: Seq<char>,
    value: T,
) -> Seq<T> {
    if is_placed(names, name) {
        values.update(position(names, name), value)
    } else {
        values.insert(position(names, name), value)
    }
}

/// A position lies within the sequence, or just behind it.
pub proof fn lemma_position_bounds(names: Seq<Seq<char>>, name: Seq<char>)
    ensures
        0 <= position(names, name) <= names.len(),
    decreases names.len(),
{
    if names.len() > 0 && name_lt(names[0], name) {
        lemma_position_bounds(names.skip(1), name);
    }
}

fn find_position(names: &Vec<String>, name: &str) -> (index: usize)
    ensures
        index == position(strings_model(names@), name@),
        index <= names.len(),
{
    let ghost keys = strings_model(names@);
    let mut i: usize = 0;
    assert(keys.skip(0) =~= keys);
    while i < names.len() && name_less(names[i].as_str(), name)
        invariant
            i <= names.len(),
            keys == strings_model(names@),
            position(keys, name@) == i + position(keys.skip(i as int), name@),
        decreases names.len() - i,
    {
        proof {
            assert(keys.skip(i as int).skip(1) =~= keys.skip(i + 1));
        }
        i = i + 1;
    }
    i
}

/// Puts `name` where it belongs among `names`, unless it stands there
/// already. Returns the place, and whether the name stood there.
pub fn place_name(names: &mut Vec<String>, name: String) -> (place: (usize, bool))
    ensures
        strings_model(final(names)@) == placed_names(strings_model(old(names)@), name@),
        place.0 == position(strings_model(old(names)@), name@),
        place.1 == is_placed(strings_model(old(names)@), name@),
        place.0 <= old(names).len(),
        place.1 ==> place.0 < old(names).len() && final(names)@.len() == old(names)@.len(),
        !place.1 ==> final(names)@.len() == old(names)@.len() + 1,
{
    let index = find_position(names, name.as_str());
    let found = index < names.len() && same_text(names[index].as_str(), name.as_str());
    if !found {
        names.insert(index, name);
    }
    (index, found)
}

/// Values stored under names, in the order of the names.
pub struct NameMap<T> {
    names: Vec<String>,
    values: Vec<T>,
}

impl<T> NameMap<T> {
    /// The names, in order.
    pub closed spec fn names(&self) -> Seq<Seq<char>> {
        strings_model(self.names@)
    }

    /// The values, each at the place of its name.
    pub closed spec fn values(&self) -> Seq<T> {
        self.values@
    }

    /// There is one value for each name.
    pub closed spec fn well_formed(&self) -> bool {
        self.names@.len() == self.values@.len()
    }

    /// Names and values are as many.
    pub proof fn lemma_same_length(&self)
        requires
            self.well_formed(),
        ensures
            self.names().len() == self.values().len(),
    {
    }

    /// An empty collection.
    pub fn new() -> (map: NameMap<T>)
        ensures
            map.well_formed(),
            map.names() == Seq::<Seq<char>>::empty(),
            map.values() == Seq::<T>::empty(),
    {
        let map = NameMap { names: Vec::new(), values: Vec::new() };
        map
    }

    /// Stores `value` under `name`, in place of what was stored under it.
    pub fn insert(&mut self, name: String, value: T)
        requires
            old(self).well_formed(),
        ensures
            final(self).well_formed(),
            final(self).names() == placed_names(old(self).names(), name@),
            final(self).values() == placed_values(
                old(self).names(),
                old(self).values(),
                name@,
                value,
            ),
    {
        let (index, found) = place_name(&mut self.names, name);
        if found {
            self.values.set(index, value);
        } else {
            self.values.insert(index, value);
        }
    }

    /// Whether something is stored under `name`.
    pub fn contains_key(&self, name: &str) -> (found: bool)
        ensures
            found == self.names().contains(name@),
    {
        crate::text::contains_string(&self.names, name)
    }

    /// How many names there are.
    pub fn len(&self) -> (count: usize)
        requires
            self.well_formed(),
        ensures
            count == self.names().len(),
            count == self.values().len(),
    {
        self.names.len()
    }

    /// The value at a place.
    pub fn value_at(&self, index: usize) -> (value: &T)
        requires
            self.well_formed(),
            index < self.values().len(),
        ensures
            *value == self.values()[index as int],
    {
        &self.values[index]
    }

    /// Hands out the values, in the order of their names.
    pub fn into_values(self) -> (values: Vec<T>)
        ensures
            values@ == self.values(),
    {
        self.values
    }
}

/// No name comes before itself.
pub proof fn lemma_name_lt_irreflexive(a: Seq<char>)
    ensures
        !name_lt(a, a),
    decreases a.len(),
{
    if a.len() > 0 {
        lemma_name_lt_irreflexive(a.skip(1));
    }
}

/// What comes before a name comes before all that the name comes before.
pub proof fn lemma_name_lt_transitive(a: Seq<char>, b: Seq<char>, c: Seq<char>)
    requires
        name_lt(a, b),
        name_lt(b, c),
    ensures
        name_lt(a, c),
    decreases a.len(),
{
    if a.len() > 0 && a[0] == b[0] && b[0] == c[0] {
        lemma_name_lt_transitive(a.skip(1), b.skip(1), c.skip(1));
    }
}

/// Of two different names one comes before the other.
pub proof fn lemma_name_lt_total(a: Seq<char>, b: Seq<char>)
    ensures
        name_lt(a, b) || a == b || name_lt(b, a),
    decreases a.len(),
{
    if a.len() > 0 && b.len() > 0 {
        if a[0] == b[0] {
            lemma_name_lt_total(a.skip(1), b.skip(1));
            if a.skip(1) == b.skip(1) {
                assert(a =~= seq![a[0]] + a.skip(1));
            }
        } else {
            vstd::utf8::char_u32_cast(a[0], a[0] as u32);
            vstd::utf8::char_u32_cast(b[0], b[0] as u32);
        }
    }
}

/// Every name comes before all names behind it.
pub open spec fn strictly_sorted(names: Seq<Seq<char>>) -> bool {
    forall|i: int, j: int| 0 <= i < j < names.len() ==> name_lt(names[i], names[j])
}

/// In sorted names no name occurs twice.
pub proof fn lemma_sorted_names_differ(names: Seq<Seq<char>>)
    requires
        strictly_sorted(names),
    ensures
        forall|i: int, j: int| 0 <= i < j < names.len() ==> names[i] != names[j],
{
    assert forall|i: int, j: int| 0 <= i < j < names.len() implies names[i] != names[j] by {
        lemma_name_lt_irreflexive(names[i]);
    }
}

/// The names in front of a name's position come before it; the name at its
/// position, if there is one, does not.
pub proof fn lemma_position_splits(names: Seq<Seq<char>>, name: Seq<char>)
    ensures
        0 <= position(names, name) <= names.len(),
        forall|k: int| 0 <= k < position(names, name) ==> name_lt(#[trigger] names[k], name),
        position(names, name) < names.len() ==> !name_lt(names[position(names, name)], name),
    decreases names.len(),
{
    if names.len() > 0 && name_lt(names[0], name) {
        let rest = names.skip(1);
        lemma_position_splits(rest, name);
        assert forall|k: int| 0 <= k < position(names, name) implies name_lt(
            #[trigger] names[k],
            name,
        ) by {
            if k > 0 {
                assert(names[k] == rest[k - 1]);
            }
        }
    }
}

/// Sorted names stay sorted when a name is put where it belongs, and then
/// hold that name.
pub proof fn lemma_placed_names_sorted(names: Seq<Seq<char>>, name: Seq<char>)
    requires
        strictly_sorted(names),
    ensures
        strictly_sorted(placed_names(names, name)),
        placed_names(names, name).contains(name),
        forall|other: Seq<char>|
            placed_names(names, name).contains(other) <==> other == name || names.contains(other),
{
    lemma_position_splits(names, name);
    let place = position(names, name);
    let after = placed_names(names, name);
    if !is_placed(names, name) {
        assert(after[place] == name);
        assert forall|i: int, j: int| 0 <= i < j < after.len() implies name_lt(
            after[i],
            after[j],
        ) by {
            if i == place && place < names.len() {
                lemma_name_lt_total(names[place], name);
                if j - 1 > place {
                    lemma_name_lt_transitive(name, names[place], names[j - 1]);
                }
            }
        }
        assert forall|other: Seq<char>| names.contains(other) implies after.contains(other) by {
            let k = choose|k: int| 0 <= k < names.len() && names[k] == other;
            if k < place {
                assert(after[k] == other);
            } else {
                assert(after[k + 1] == other);
            }
        }
    }
}

/// Where each value is stored under the name it bears, it still is after
/// a value is stored under its name.
pub proof fn lemma_placed_values_keep_names<T>(
    names: Seq<Seq<char>>,
    values: Seq<T>,
    name: Seq<char>,
    value: T,
    name_of: spec_fn(T) -> Seq<char>,
)
    requires
        names.len() == values.len(),
        forall|i: int| 0 <= i < values.len() ==> name_of(#[trigger] values[i]) == names[i],
        name_of(value) == name,
    ensures
        placed_names(names, name).len() == placed_values(names, values, name, value).len(),
        forall|i: int|
            0 <= i < placed_values(names, values, name, value).len() ==> name_of(
                #[trigger] placed_values(names, values, name, value)[i],
            ) == placed_names(names, name)[i],
{
    lemma_position_bounds(names, name);
    let after = placed_values(names, values, name, value);
    let after_names = placed_names(names, name);
    assert forall|i: int| 0 <= i < after.len() implies name_of(#[trigger] after[i])
        == after_names[i] by {
    }
}

/// What is stored under a name, if anything.
pub open spec fn stored<T>(names: Seq<Seq<char>>, values: Seq<T>, name: Seq<char>) -> Option<T> {
    if is_placed(names, name) {
        Some(values[position(names, name)])
    } else {
        None
    }
}

/// The position of a name is the one place with only earlier names in front
/// of it and no earlier name at it.
pub proof fn lemma_position_is(names: Seq<Seq<char>>, name: Seq<char>, place: int)
    requires
        0 <= place <= names.len(),
        forall|k: int| 0 <= k < place ==> name_lt(#[trigger] names[k], name),
        place < names.len() ==> !name_lt(names[place], name),
    ensures
        position(names, name) == place,
    decreases names.len(),
{
    if place > 0 {
        let rest = names.skip(1);
        lemma_position_is(rest, name, place - 1);
    }
}

/// Among sorted names, a name stands at its position iff it is among them.
pub proof fn lemma_placed_iff_contained(names: Seq<Seq<char>>, name: Seq<char>)
    requires
        strictly_sorted(names),
    ensures
        is_placed(names, name) <==> names.contains(name),
{
    lemma_position_splits(names, name);
    if names.contains(name) {
        lemma_name_lt_irreflexive(name);
    }
}

/// After a value is stored under a name, that value is found under the name,
/// and under every other name what was found there before.
pub proof fn lemma_stored_after_placing<T>(
    names: Seq<Seq<char>>,
    values: Seq<T>,
    name: Seq<char>,
    value: T,
    other: Seq<char>,
)
    requires
        strictly_sorted(names),
        names.len() == values.len(),
    ensures
        stored(placed_names(names, name), placed_values(names, values, name, value), other) == (
        if other == name {
            Some(value)
        } else {
            stored(names, values, other)
        }),
{
    lemma_position_splits(names, name);
    lemma_position_splits(names, other);
    lemma_name_lt_irreflexive(name);
    let place = position(names, name);
    let other_place = position(names, other);
    let after_names = placed_names(names, name);
    if !is_placed(names, name) {
        if other == name {
            lemma_position_is(after_names, name, place);
        } else {
            lemma_name_lt_total(name, other);
            if name_lt(name, other) {
                // The new name comes before `other`: what `other` finds moves one place.
                if place > other_place {
                    lemma_name_lt_transitive(names[other_place], name, other);
                }
                lemma_position_is(after_names, other, other_place + 1);
            } else {
                // `other` comes before the new name: what it finds stays in place.
                if other_place > place {
                    lemma_name_lt_transitive(names[place], other, name);
                }
                lemma_position_is(after_names, other, other_place);
            }
        }
    }
}

} // verus!
