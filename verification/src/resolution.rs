//! What `clap` answers to the user's arguments, as values of the
//! placeholders or as an error.

use crate::arguments::{
    matched_switch, matched_switches, matched_text, matched_values, ParseOutcome, ResolutionError,
};
use crate::commands_parser::{units_view, Unit};
use crate::grammar::UnitView;
use crate::values::{ResolvedValues, ResolvedView};
use vstd::prelude::*;

verus! {

/// The values after `unit` is read: a placeholder that takes a value gets
/// the one that `values` has for its name, and a flag is set where
/// `switches` has `true` for its name.
pub open spec fn collect(
    found: ResolvedView,
    unit: UnitView,
    values: Map<Seq<char>, Seq<char>>,
    switches: Map<Seq<char>, bool>,
) -> ResolvedView {
    match unit {
        UnitView::Text(_) => found,
        UnitView::Positional(unit) => if values.contains_key(unit.name) {
            ResolvedView { values: found.values.insert(unit.name, values[unit.name]), ..found }
        } else {
            found
        },
        UnitView::Option(unit) => if values.contains_key(unit.name) {
            ResolvedView { values: found.values.insert(unit.name, values[unit.name]), ..found }
        } else {
            found
        },
        UnitView::Flag(unit) => if switches.contains_key(unit.name) && switches[unit.name] {
            ResolvedView { flags: found.flags.insert(unit.name), ..found }
        } else {
            found
        },
    }
}

/// The values of the placeholders `units`, read from what `clap` matched.
pub open spec fn collected(
    units: Seq<UnitView>,
    values: Map<Seq<char>, Seq<char>>,
    switches: Map<Seq<char>, bool>,
) -> ResolvedView
    decreases units.len(),
{
    if units.len() == 0 {
        ResolvedView { values: Map::empty(), flags: Set::empty() }
    } else {
        collect(collected(units.drop_last(), values, switches), units.last(), values, switches)
    }
}

/// Reads the values of the placeholders `units` from what `clap` matched.
pub fn collect_values(units: &Vec<Unit>, matches: &clap::ArgMatches) -> (r: ResolvedValues)
    ensures
        r@ == collected(units_view(units@), matched_values(*matches), matched_switches(*matches)),
{
    let mut found = ResolvedValues::new();
    let mut i: usize = 0;
    assert(units_view(units@).take(0) =~= Seq::empty());
    while i < units.len()
        invariant
            i <= units.len(),
            found@ == collected(
                units_view(units@).take(i as int),
                matched_values(*matches),
                matched_switches(*matches),
            ),
        decreases units.len() - i,
    {
        proof {
            let views = units_view(units@);
            assert(views.take(i + 1).drop_last() =~= views.take(i as int));
            assert(views.take(i + 1).last() == units[i as int]@);
        }
        match &units[i] {
            Unit::Text(_) => {},
            Unit::Positional(unit) => {
                if let Some(value) = matched_text(matches, unit.name.as_str()) {
                    found.set_value(unit.name.as_str(), value.as_str());
                }
            },
            Unit::Option(unit) => {
                if let Some(value) = matched_text(matches, unit.name.as_str()) {
                    found.set_value(unit.name.as_str(), value.as_str());
                }
            },
            Unit::Flag(unit) => {
                if let Some(true) = matched_switch(matches, unit.name.as_str()) {
                    found.set_flag(unit.name.as_str());
                }
            },
        }
        i += 1;
    }
    assert(units_view(units@).take(units.len() as int) =~= units_view(units@));
    found
}

/// What `r` holds is what follows from `outcome` for the placeholders
/// `units`: their values where `clap` matched, else the error.
pub open spec fn resolved_as(
    r: Result<ResolvedValues, ResolutionError>,
    units: Seq<UnitView>,
    outcome: ParseOutcome,
) -> bool {
    match outcome {
        ParseOutcome::Matched(values, switches) => r matches Ok(found) && found@ == collected(
            units,
            values,
            switches,
        ),
        ParseOutcome::Rejected(rejection) => r matches Err(error) && error@ == rejection,
    }
}

} // verus!
