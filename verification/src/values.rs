//! The values that the user's arguments give to the placeholders, and their
//! substitution into compiled commands.

use crate::commands_parser::{units_view, Unit};
use crate::grammar::UnitView;
use vstd::prelude::*;
use vstd::string::*;

verus! {

/// The values of the placeholders, as mathematical values: the text given
/// to each placeholder that has a value, and the flags that are set.
pub struct ResolvedView {
    pub values: Map<Seq<char>, Seq<char>>,
    pub flags: Set<Seq<char>>,
}

/// The values that the user's arguments gave to the placeholders, by name.
#[derive(Debug, Clone, PartialEq, Eq)]
pub struct ResolvedValues {
    values: Vec<(String, String)>,
    flags: Vec<String>,
}

/// The map that a list of names and values makes; a later entry replaces an
/// earlier one of the same name.
pub open spec fn values_map(entries: Seq<(String, String)>) -> Map<Seq<char>, Seq<char>>
    decreases entries.len(),
{
    if entries.len() == 0 {
        Map::empty()
    } else {
        values_map(entries.drop_last()).insert(entries.last().0@, entries.last().1@)
    }
}

/// The set of the names in a list.
pub open spec fn names_set(names: Seq<String>) -> Set<Seq<char>> {
    Set::new(
        |name: Seq<char>| exists|i: int| 0 <= i < names.len() && (#[trigger] names[i])@ == name,
    )
}

/// What `name` has in `values_map(entries)` is what it has in the map of the
/// first `end` entries, where none of the others is named `name`.
proof fn lemma_values_map_prefix(entries: Seq<(String, String)>, end: int, name: Seq<char>)
    requires
        0 <= end <= entries.len(),
        forall|k: int| end <= k < entries.len() ==> (#[trigger] entries[k]).0@ != name,
    ensures
        values_map(entries).contains_key(name) == values_map(entries.take(end)).contains_key(name),
        values_map(entries).contains_key(name) ==> values_map(entries)[name] == values_map(
            entries.take(end),
        )[name],
    decreases entries.len() - end,
{
    if end == entries.len() {
        assert(entries.take(end) =~= entries);
    } else {
        assert(entries.drop_last().take(end) =~= entries.take(end));
        lemma_values_map_prefix(entries.drop_last(), end, name);
    }
}

impl View for ResolvedValues {
    type V = ResolvedView;

    closed spec fn view(&self) -> ResolvedView {
        ResolvedView { values: values_map(self.values@), flags: names_set(self.flags@) }
    }
}

impl ResolvedValues {
    /// No value and no flag.
    pub fn new() -> (r: ResolvedValues)
        ensures
            r@.values == Map::<Seq<char>, Seq<char>>::empty(),
            r@.flags == Set::<Seq<char>>::empty(),
    {
        let r = ResolvedValues { values: Vec::new(), flags: Vec::new() };
        assert(r@.flags =~= Set::<Seq<char>>::empty());
        r
    }

    /// Gives the placeholder `name` the value `value`, in place of any
    /// earlier one.
    pub fn set_value(&mut self, name: &str, value: &str)
        ensures
            final(self)@.values == old(self)@.values.insert(name@, value@),
            final(self)@.flags == old(self)@.flags,
    {
        let ghost before = self.values@;
        self.values.push((name.to_owned(), value.to_owned()));
        assert(self.values@.drop_last() =~= before);
    }

    /// Sets the flag `name`.
    pub fn set_flag(&mut self, name: &str)
        ensures
            final(self)@.values == old(self)@.values,
            final(self)@.flags == old(self)@.flags.insert(name@),
    {
        let ghost before = self.flags@;
        self.flags.push(name.to_owned());
        assert forall|n: Seq<char>| names_set(self.flags@).contains(n) == names_set(before).insert(
            name@,
        ).contains(n) by {
            if names_set(self.flags@).contains(n) {
                let i = choose|i: int| 0 <= i < self.flags@.len() && (#[trigger] self.flags@[i])@ == n;
                if i < before.len() {
                    assert(before[i]@ == n);
                }
            }
            if names_set(before).contains(n) {
                let i = choose|i: int| 0 <= i < before.len() && (#[trigger] before[i])@ == n;
                assert(self.flags@[i]@ == n);
            }
            if n == name@ {
                assert(self.flags@[before.len() as int]@ == n);
            }
        }
        assert(self@.flags =~= old(self)@.flags.insert(name@));
    }

    /// The value of the placeholder `name`, if it has one.
    pub fn value(&self, name: &str) -> (r: Option<&String>)
        ensures
            match r {
                Some(value) => self@.values.contains_key(name@) && self@.values[name@] == value@,
                None => !self@.values.contains_key(name@),
            },
    {
        let key = name.to_owned();
        let mut i: usize = self.values.len();
        while i > 0
            invariant
                key@ == name@,
                i <= self.values.len(),
                forall|k: int| i <= k < self.values.len() ==> (#[trigger] self.values@[k]).0@ != name@,
            decreases i,
        {
            i -= 1;
            if self.values[i].0 == key {
                proof {
                    lemma_values_map_prefix(self.values@, i + 1, name@);
                    assert(self.values@.take(i + 1).last() == self.values@[i as int]);
                }
                return Some(&self.values[i].1);
            }
        }
        proof {
            lemma_values_map_prefix(self.values@, 0, name@);
        }
        None
    }

    /// Whether the flag `name` is set.
    pub fn flag(&self, name: &str) -> (r: bool)
        ensures
            r == self@.flags.contains(name@),
    {
        let key = name.to_owned();
        let mut i: usize = 0;
        while i < self.flags.len()
            invariant
                key@ == name@,
                i <= self.flags.len(),
                forall|k: int| 0 <= k < i ==> (#[trigger] self.flags@[k])@ != name@,
            decreases self.flags.len() - i,
        {
            if self.flags[i] == key {
                return true;
            }
            i += 1;
        }
        false
    }
}

/// What stands for `unit` in the final command; `None` where nothing does.
///
/// Text stands for itself. A placeholder that takes a value stands for its
/// value, if it has one. A flag that is set stands for its name after `--`,
/// or after `-` where it has no long name.
pub open spec fn unit_value(unit: UnitView, values: ResolvedView) -> Option<Seq<char>> {
    match unit {
        UnitView::Text(text) => Some(text),
        UnitView::Positional(unit) => if values.values.contains_key(unit.name) {
            Some(values.values[unit.name])
        } else {
            None
        },
        UnitView::Option(unit) => if values.values.contains_key(unit.name) {
            Some(values.values[unit.name])
        } else {
            None
        },
        UnitView::Flag(unit) => if values.flags.contains(unit.name) {
            if unit.long is None {
                Some("-"@ + unit.name)
            } else {
                Some("--"@ + unit.name)
            }
        } else {
            None
        },
    }
}

/// The final command: what stands for each of `units`, one after the other.
pub open spec fn substituted(units: Seq<UnitView>, values: ResolvedView) -> Seq<char>
    decreases units.len(),
{
    if units.len() == 0 {
        Seq::empty()
    } else {
        substituted(units.drop_last(), values) + match unit_value(units.last(), values) {
            Some(text) => text,
            None => Seq::empty(),
        }
    }
}

/// Text alone stands for itself, whatever the values are.
pub proof fn lemma_text_is_kept(text: Seq<char>, values: ResolvedView)
    ensures
        substituted(seq![UnitView::Text(text)], values) == text,
{
    let units = seq![UnitView::Text(text)];
    assert(units.drop_last() =~= Seq::<UnitView>::empty());
    assert(substituted(units.drop_last(), values) =~= Seq::<char>::empty());
    assert(Seq::<char>::empty() + text =~= text);
}

/// What stands for one command after the other is what stands for the
/// first, then what stands for the second.
pub proof fn lemma_substituted_concat(a: Seq<UnitView>, b: Seq<UnitView>, values: ResolvedView)
    ensures
        substituted(a + b, values) == substituted(a, values) + substituted(b, values),
    decreases b.len(),
{
    if b.len() == 0 {
        assert(a + b =~= a);
        assert(substituted(a, values) + substituted(b, values) =~= substituted(a, values));
    } else {
        assert((a + b).drop_last() =~= a + b.drop_last());
        assert((a + b).last() == b.last());
        lemma_substituted_concat(a, b.drop_last(), values);
        let piece = match unit_value(b.last(), values) {
            Some(text) => text,
            None => Seq::<char>::empty(),
        };
        assert((substituted(a, values) + substituted(b.drop_last(), values)) + piece =~= substituted(
            a,
            values,
        ) + (substituted(b.drop_last(), values) + piece));
    }
}

impl Unit {
    /// What stands for this unit in the final command, given the values of
    /// the placeholders.
    pub fn to_value(&self, values: &ResolvedValues) -> (r: Option<String>)
        ensures
            match (r, unit_value(self@, values@)) {
                (Some(text), Some(v)) => text@ == v,
                (None, None) => true,
                _ => false,
            },
    {
        match self {
            Unit::Text(text) => Some(text.clone()),
            Unit::Positional(unit) => match values.value(unit.name.as_str()) {
                Some(value) => Some(value.clone()),
                None => None,
            },
            Unit::Option(unit) => match values.value(unit.name.as_str()) {
                Some(value) => Some(value.clone()),
                None => None,
            },
            Unit::Flag(unit) => {
                if values.flag(unit.name.as_str()) {
                    let prefix = if unit.long.is_none() {
                        "-"
                    } else {
                        "--"
                    };
                    Some(String::from_str(prefix).concat(unit.name.as_str()))
                } else {
                    None
                }
            },
        }
    }
}

/// Puts the values of the placeholders into a compiled command.
///
/// A placeholder without a value, and a flag that is not set, leave nothing.
pub fn substitute(command: &Vec<Unit>, values: &ResolvedValues) -> (r: String)
    ensures
        r@ == substituted(units_view(command@), values@),
{
    let mut result = String::new();
    let mut i: usize = 0;
    while i < command.len()
        invariant
            i <= command.len(),
            result@ == substituted(units_view(command@).take(i as int), values@),
        decreases command.len() - i,
    {
        proof {
            let views = units_view(command@);
            assert(views.take(i + 1).drop_last() =~= views.take(i as int));
            assert(views.take(i + 1).last() == command[i as int]@);
        }
        if let Some(text) = command[i].to_value(values) {
            result.append(text.as_str());
        } else {
            assert(result@ + Seq::<char>::empty() =~= result@);
        }
        i += 1;
    }
    assert(units_view(command@).take(command.len() as int) =~= units_view(command@));
    result
}

} // verus!
