//! The placeholders of a template, each registered once.

use crate::commands_parser::{units_view, CompiledCommand, Unit};
use crate::grammar::UnitView;
use vstd::prelude::*;

verus! {

/// The registry after `unit` is met: text is not registered, nor a
/// placeholder that is equal in every part to one already there.
pub open spec fn register(registry: Seq<UnitView>, unit: UnitView) -> Seq<UnitView> {
    if unit is Text || registry.contains(unit) {
        registry
    } else {
        registry.push(unit)
    }
}

/// The registry after each of `units` is met, in order.
pub open spec fn register_all(registry: Seq<UnitView>, units: Seq<UnitView>) -> Seq<UnitView>
    decreases units.len(),
{
    if units.len() == 0 {
        registry
    } else {
        register(register_all(registry, units.drop_last()), units.last())
    }
}

/// The distinct placeholders of `commands`, in the order in which they are
/// first met.
pub open spec fn registry(commands: Seq<Seq<UnitView>>) -> Seq<UnitView>
    decreases commands.len(),
{
    if commands.len() == 0 {
        Seq::empty()
    } else {
        register_all(registry(commands.drop_last()), commands.last())
    }
}

/// Whether `unit` stands in one of `commands`.
pub open spec fn occurs(commands: Seq<Seq<UnitView>>, unit: UnitView) -> bool {
    exists|c: int| 0 <= c < commands.len() && (#[trigger] commands[c]).contains(unit)
}

/// Registering `units` keeps what is registered, adds the placeholders
/// among `units` and nothing else, and repeats nothing.
pub proof fn lemma_register_all(registry: Seq<UnitView>, units: Seq<UnitView>)
    requires
        registry.no_duplicates(),
        forall|k: int| 0 <= k < registry.len() ==> !(#[trigger] registry[k] is Text),
    ensures
        register_all(registry, units).no_duplicates(),
        forall|k: int|
            0 <= k < register_all(registry, units).len() ==> !(#[trigger] register_all(
                registry,
                units,
            )[k] is Text),
        forall|unit: UnitView| #[trigger]
            register_all(registry, units).contains(unit) <==> registry.contains(unit) || (!(unit
                is Text) && units.contains(unit)),
    decreases units.len(),
{
    if units.len() > 0 {
        let before = register_all(registry, units.drop_last());
        let last = units.last();
        lemma_register_all(registry, units.drop_last());
        let after = register(before, last);
        assert forall|unit: UnitView| #[trigger]
            after.contains(unit) <==> registry.contains(unit) || (!(unit is Text) && units.contains(
                unit,
            )) by {
            if units.contains(unit) {
                let k = choose|k: int| 0 <= k < units.len() && units[k] == unit;
                if k < units.len() - 1 {
                    assert(units.drop_last()[k] == unit);
                }
            }
            if units.drop_last().contains(unit) {
                let k = choose|k: int| 0 <= k < units.drop_last().len() && units.drop_last()[k] == unit;
                assert(units[k] == unit);
            }
            if after.contains(unit) && !before.contains(unit) {
                let k = choose|k: int| 0 <= k < after.len() && after[k] == unit;
                assert(k == before.len());
                assert(units[units.len() - 1] == unit);
            }
            if before.contains(unit) {
                let k = choose|k: int| 0 <= k < before.len() && before[k] == unit;
                assert(after[k] == unit);
            }
            if unit == last && !(last is Text) && !before.contains(last) {
                assert(after[before.len() as int] == unit);
            }
        }
    }
}

/// No placeholder is registered twice, text is not registered, and a unit
/// is registered if and only if it is a placeholder that stands in one of
/// the commands.
pub proof fn lemma_registry(commands: Seq<Seq<UnitView>>)
    ensures
        registry(commands).no_duplicates(),
        forall|k: int|
            0 <= k < registry(commands).len() ==> !(#[trigger] registry(commands)[k] is Text),
        forall|unit: UnitView| #[trigger]
            registry(commands).contains(unit) <==> !(unit is Text) && occurs(commands, unit),
    decreases commands.len(),
{
    if commands.len() > 0 {
        let before = commands.drop_last();
        lemma_registry(before);
        lemma_register_all(registry(before), commands.last());
        assert forall|unit: UnitView| #[trigger]
            registry(commands).contains(unit) <==> !(unit is Text) && occurs(commands, unit) by {
            if occurs(commands, unit) {
                let c = choose|c: int| 0 <= c < commands.len() && (#[trigger] commands[c]).contains(unit);
                if c < commands.len() - 1 {
                    assert(before[c].contains(unit));
                }
            }
            if occurs(before, unit) {
                let c = choose|c: int| 0 <= c < before.len() && (#[trigger] before[c]).contains(unit);
                assert(commands[c].contains(unit));
            }
            if commands.last().contains(unit) {
                assert(commands[commands.len() - 1].contains(unit));
            }
        }
    }
}

/// The views of compiled commands, in order.
pub open spec fn commands_view(commands: Seq<CompiledCommand>) -> Seq<Seq<UnitView>> {
    commands.map_values(|command: CompiledCommand| units_view(command@))
}

/// Whether `unit` is equal in every part to one of `units`.
fn holds(units: &Vec<Unit>, unit: &Unit) -> (r: bool)
    ensures
        r == units_view(units@).contains(unit@),
{
    let mut i: usize = 0;
    while i < units.len()
        invariant
            i <= units.len(),
            forall|k: int| 0 <= k < i ==> units_view(units@)[k] != unit@,
        decreases units.len() - i,
    {
        if units[i] == *unit {
            assert(units_view(units@)[i as int] == unit@);
            return true;
        }
        i += 1;
    }
    false
}

/// The distinct placeholders of `commands`, in the order in which they are
/// first met.
pub fn placeholders(commands: &Vec<CompiledCommand>) -> (r: Vec<Unit>)
    ensures
        units_view(r@) == registry(commands_view(commands@)),
{
    let mut found: Vec<Unit> = Vec::new();
    let mut i: usize = 0;
    assert(commands_view(commands@).take(0) =~= Seq::empty());
    while i < commands.len()
        invariant
            i <= commands.len(),
            units_view(found@) == registry(commands_view(commands@).take(i as int)),
        decreases commands.len() - i,
    {
        let command = &commands[i];
        let ghost before = units_view(found@);
        let ghost units = units_view(command@);
        let mut j: usize = 0;
        assert(units.take(0) =~= Seq::empty());
        while j < command.len()
            invariant
                j <= command.len(),
                units == units_view(command@),
                units_view(found@) == register_all(before, units.take(j as int)),
            decreases command.len() - j,
        {
            proof {
                assert(units.take(j + 1).drop_last() =~= units.take(j as int));
                assert(units.take(j + 1).last() == command[j as int]@);
            }
            let unit = &command[j];
            let is_text = match unit {
                Unit::Text(_) => true,
                _ => false,
            };
            if !is_text && !holds(&found, unit) {
                let ghost old_found = units_view(found@);
                found.push(unit.clone());
                assert(units_view(found@) =~= old_found.push(unit@));
            }
            j += 1;
        }
        proof {
            let views = commands_view(commands@);
            assert(units.take(command.len() as int) =~= units);
            assert(views.take(i + 1).drop_last() =~= views.take(i as int));
            assert(views.take(i + 1).last() == units);
        }
        i += 1;
    }
    assert(commands_view(commands@).take(commands.len() as int) =~= commands_view(commands@));
    found
}

} // verus!
