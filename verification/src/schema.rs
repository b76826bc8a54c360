//! The arguments that a template asks for: what may be wrong with them, and
//! the reading of the user's arguments against them.

use crate::arguments::{
    acceptable, agree, arguments_view, clap_parse, command_args, command_model, get_cmd,
    is_positional, models_of, no_hyphen_short, parse_args, positionals, slot, stands_alone,
    template_command, texts_view, unit_arg, unit_args, ArgModel, Argument, ResolutionError,
};
use crate::commands_parser::{same_text, units_view, CompiledCommand, Unit};
use crate::grammar::UnitView;
use crate::registry::{commands_view, lemma_registry, occurs, placeholders, registry};
use crate::resolution::{collect_values, resolved_as};
use crate::values::ResolvedValues;
use vstd::prelude::*;
use vstd::string::*;

verus! {

/// Why the placeholders of a template make no arguments that `clap` takes.
#[derive(Debug, Clone, PartialEq, Eq)]
pub enum SchemaError {
    /// Two placeholders that differ have this name.
    DuplicateName(String),
    /// A flag has neither a long nor a short name.
    UnnamedFlag,
    /// This long name is empty or begins with `-`.
    InvalidLong(String),
    /// This short name is `-`.
    InvalidShort(char),
    /// Two placeholders have this long name.
    DuplicateLong(String),
    /// Two placeholders have this short name.
    DuplicateShort(char),
    /// A positional placeholder has this place, which is none of 1 to the
    /// number of positional placeholders.
    IndexOutOfRange(usize),
    /// Two positional placeholders have this place.
    DuplicateIndex(usize),
    /// The positional placeholder of this name is not required, and one in
    /// a later place is.
    OptionalBeforeRequired(String),
}

/// Why the placeholders make no arguments that `clap` takes, as
/// mathematical values.
pub enum SchemaErrorView {
    DuplicateName(Seq<char>),
    UnnamedFlag,
    InvalidLong(Seq<char>),
    InvalidShort(char),
    DuplicateLong(Seq<char>),
    DuplicateShort(char),
    IndexOutOfRange(usize),
    DuplicateIndex(usize),
    OptionalBeforeRequired(Seq<char>),
}

impl View for SchemaError {
    type V = SchemaErrorView;

    open spec fn view(&self) -> SchemaErrorView {
        match self {
            SchemaError::DuplicateName(name) => SchemaErrorView::DuplicateName(name@),
            SchemaError::UnnamedFlag => SchemaErrorView::UnnamedFlag,
            SchemaError::InvalidLong(long) => SchemaErrorView::InvalidLong(long@),
            SchemaError::InvalidShort(short) => SchemaErrorView::InvalidShort(*short),
            SchemaError::DuplicateLong(long) => SchemaErrorView::DuplicateLong(long@),
            SchemaError::DuplicateShort(short) => SchemaErrorView::DuplicateShort(*short),
            SchemaError::IndexOutOfRange(index) => SchemaErrorView::IndexOutOfRange(*index),
            SchemaError::DuplicateIndex(index) => SchemaErrorView::DuplicateIndex(*index),
            SchemaError::OptionalBeforeRequired(name) => SchemaErrorView::OptionalBeforeRequired(
                name@,
            ),
        }
    }
}

impl SchemaErrorView {
    /// The message of the error.
    pub open spec fn message(self) -> Seq<char> {
        match self {
            SchemaErrorView::DuplicateName(name) => "duplicate argument name: "@ + name,
            SchemaErrorView::UnnamedFlag => "a flag needs a long or a short name"@,
            SchemaErrorView::InvalidLong(long) => "invalid long name: "@ + long,
            SchemaErrorView::InvalidShort(_) => "the short name of an argument cannot be `-`"@,
            SchemaErrorView::DuplicateLong(long) => "duplicate long name: "@ + long,
            SchemaErrorView::DuplicateShort(_) => "two arguments have the same short name"@,
            SchemaErrorView::IndexOutOfRange(_) =>
                "positional arguments must be numbered from 1 on without gaps"@,
            SchemaErrorView::DuplicateIndex(_) => "two positional arguments have the same index"@,
            SchemaErrorView::OptionalBeforeRequired(name) =>
                "optional positional argument before a required one: "@ + name,
        }
    }
}

impl SchemaError {
    /// The message of the error.
    pub fn to_string(&self) -> (r: String)
        ensures
            r@ == self@.message(),
    {
        match self {
            SchemaError::DuplicateName(name) => String::from_str(
                "duplicate argument name: ",
            ).concat(name.as_str()),
            SchemaError::UnnamedFlag => String::from_str("a flag needs a long or a short name"),
            SchemaError::InvalidLong(long) => String::from_str("invalid long name: ").concat(
                long.as_str(),
            ),
            SchemaError::InvalidShort(_) => String::from_str(
                "the short name of an argument cannot be `-`",
            ),
            SchemaError::DuplicateLong(long) => String::from_str("duplicate long name: ").concat(
                long.as_str(),
            ),
            SchemaError::DuplicateShort(_) => String::from_str(
                "two arguments have the same short name",
            ),
            SchemaError::IndexOutOfRange(_) => String::from_str(
                "positional arguments must be numbered from 1 on without gaps",
            ),
            SchemaError::DuplicateIndex(_) => String::from_str(
                "two positional arguments have the same index",
            ),
            SchemaError::OptionalBeforeRequired(name) => String::from_str(
                "optional positional argument before a required one: ",
            ).concat(name.as_str()),
        }
    }
}

/// No two of `args` have the same name.
pub open spec fn distinct_names(args: Seq<ArgModel>) -> bool {
    forall|i: int, j: int|
        0 <= i < j < args.len() ==> (#[trigger] args[i]).id != (#[trigger] args[j]).id
}

/// `clap` takes `args`, and the library can hand them to it.
pub open spec fn supported(args: Seq<ArgModel>) -> bool {
    acceptable(args) && no_hyphen_short(args)
}

/// An argument as a placeholder makes it: only one without names has an
/// index, and a switch has neither an index nor a parser of values.
pub open spec fn coherent(arg: ArgModel) -> bool {
    &&& arg.index is Some ==> is_positional(arg) && !arg.switch
    &&& arg.switch ==> !arg.non_empty
}

/// Every argument that stands for a placeholder is coherent.
pub proof fn lemma_unit_args_coherent(units: Seq<UnitView>)
    ensures
        forall|k: int| 0 <= k < unit_args(units).len() ==> coherent(#[trigger] unit_args(units)[k]),
    decreases units.len(),
{
    if units.len() > 0 {
        lemma_unit_args_coherent(units.drop_last());
        let before = unit_args(units.drop_last());
        assert forall|k: int| 0 <= k < unit_args(units).len() implies coherent(
            #[trigger] unit_args(units)[k],
        ) by {
            if k < before.len() {
                assert(unit_args(units)[k] == before[k]);
            }
        }
    }
}

/// What is wrong with the argument `arg` among `count` positional ones, if
/// anything is: a flag without names, a long name that is empty or begins
/// with `-`, the short name `-`, or a place that is none of 1 to `count`.
pub open spec fn lone_error(arg: ArgModel, count: nat) -> Option<SchemaErrorView> {
    if arg.switch && is_positional(arg) {
        Some(SchemaErrorView::UnnamedFlag)
    } else if arg.long is Some && !(arg.long->0.len() > 0 && arg.long->0[0] != '-') {
        Some(SchemaErrorView::InvalidLong(arg.long->0))
    } else if arg.short == Some('-') {
        Some(SchemaErrorView::InvalidShort('-'))
    } else if is_positional(arg) && !(1 <= slot(arg) <= count) {
        Some(SchemaErrorView::IndexOutOfRange(slot(arg) as usize))
    } else {
        None
    }
}

/// What is wrong with the arguments `a` and `b`, which do not agree and
/// differ in their names: the same long name, the same short name, the same
/// place, or the earlier place not required where the later one is.
pub open spec fn pair_error(a: ArgModel, b: ArgModel) -> SchemaErrorView {
    if a.long is Some && a.long == b.long {
        SchemaErrorView::DuplicateLong(a.long->0)
    } else if a.short is Some && a.short == b.short {
        SchemaErrorView::DuplicateShort(a.short->0)
    } else if slot(a) == slot(b) {
        SchemaErrorView::DuplicateIndex(slot(a) as usize)
    } else if slot(a) < slot(b) {
        SchemaErrorView::OptionalBeforeRequired(a.id)
    } else {
        SchemaErrorView::OptionalBeforeRequired(b.id)
    }
}

/// Whether `a` and `b` clash: in their names, or in anything that `agree`
/// asks for.
pub open spec fn clash(a: ArgModel, b: ArgModel, names: bool) -> bool {
    if names {
        a.id == b.id
    } else {
        !agree(a, b)
    }
}

/// The first of the arguments from `i` on and before `j` that clashes with
/// the one at `j`.
pub open spec fn earlier_clash(args: Seq<ArgModel>, j: int, i: int, names: bool) -> Option<int>
    decreases j - i,
{
    if i >= j {
        None
    } else if clash(args[i], args[j], names) {
        Some(i)
    } else {
        earlier_clash(args, j, i + 1, names)
    }
}

/// The first two arguments that clash, where the later one stands at `j`
/// or after it: the later one as early as can be, then the earlier one.
pub open spec fn first_clash_from(args: Seq<ArgModel>, j: int, names: bool) -> Option<(int, int)>
    decreases args.len() - j,
{
    if j >= args.len() {
        None
    } else {
        match earlier_clash(args, j, 0, names) {
            Some(i) => Some((i, j)),
            None => first_clash_from(args, j + 1, names),
        }
    }
}

/// What is wrong with the first of the arguments from `k` on with which
/// anything is.
pub open spec fn first_lone_error(args: Seq<ArgModel>, count: nat, k: int) -> Option<
    SchemaErrorView,
>
    decreases args.len() - k,
{
    if k >= args.len() {
        None
    } else {
        match lone_error(args[k], count) {
            Some(error) => Some(error),
            None => first_lone_error(args, count, k + 1),
        }
    }
}

/// What is wrong with `args`, if anything is.
///
/// Two arguments of one name come before all else. Then comes what is
/// wrong with one argument, then what is wrong with two; in both the first
/// from the left.
pub open spec fn schema_fault(args: Seq<ArgModel>) -> Option<SchemaErrorView> {
    match first_clash_from(args, 0, true) {
        Some((i, _)) => Some(SchemaErrorView::DuplicateName(args[i].id)),
        None => match first_lone_error(args, positionals(args), 0) {
            Some(error) => Some(error),
            None => match first_clash_from(args, 0, false) {
                Some((i, j)) => Some(pair_error(args[i], args[j])),
                None => None,
            },
        },
    }
}

/// Where the first clash lies, and that no two arguments clash where there
/// is none.
pub proof fn lemma_first_clash(args: Seq<ArgModel>, j: int, names: bool)
    requires
        0 <= j,
    ensures
        match first_clash_from(args, j, names) {
            Some((a, b)) => 0 <= a < b < args.len() && j <= b && clash(args[a], args[b], names),
            None => forall|a: int, b: int|
                0 <= a < b < args.len() && j <= b ==> !clash(
                    #[trigger] args[a],
                    #[trigger] args[b],
                    names,
                ),
        },
    decreases args.len() - j,
{
    if j < args.len() {
        lemma_earlier_clash(args, j, 0, names);
        lemma_first_clash(args, j + 1, names);
    }
}

/// Where the first clash with the argument at `j` lies, and that none
/// before it clashes with it where there is none.
pub proof fn lemma_earlier_clash(args: Seq<ArgModel>, j: int, i: int, names: bool)
    requires
        0 <= i <= j < args.len(),
    ensures
        match earlier_clash(args, j, i, names) {
            Some(a) => i <= a < j && clash(args[a], args[j], names),
            None => forall|a: int| i <= a < j ==> !clash(#[trigger] args[a], args[j], names),
        },
    decreases j - i,
{
    if i < j && !clash(args[i], args[j], names) {
        lemma_earlier_clash(args, j, i + 1, names);
    }
}

/// That an error of one argument is found if and only if one of them has
/// one.
pub proof fn lemma_first_lone_error(args: Seq<ArgModel>, count: nat, k: int)
    requires
        0 <= k,
    ensures
        first_lone_error(args, count, k) is None <==> forall|a: int|
            k <= a < args.len() ==> lone_error(#[trigger] args[a], count) is None,
        first_lone_error(args, count, k) matches Some(error) ==> !(error is DuplicateName),
    decreases args.len() - k,
{
    if k < args.len() {
        lemma_first_lone_error(args, count, k + 1);
    }
}

/// Nothing is wrong with arguments if and only if they are supported, and
/// two arguments of one name are reported if and only if there are two.
pub proof fn lemma_schema_fault(args: Seq<ArgModel>)
    requires
        forall|k: int| 0 <= k < args.len() ==> coherent(#[trigger] args[k]),
    ensures
        schema_fault(args) is None <==> supported(args),
        schema_fault(args) matches Some(SchemaErrorView::DuplicateName(_)) <==> !distinct_names(
            args,
        ),
{
    let count = positionals(args);
    lemma_first_clash(args, 0, true);
    lemma_first_lone_error(args, count, 0);
    lemma_first_clash(args, 0, false);
    if first_clash_from(args, 0, true) is None {
        if first_lone_error(args, count, 0) is None {
            assert forall|i: int| 0 <= i < args.len() implies stands_alone(
                #[trigger] args[i],
                count,
            ) && args[i].short != Some('-') by {
                assert(lone_error(args[i], count) is None);
            }
            match first_clash_from(args, 0, false) {
                Some((a, b)) => {
                    assert(!agree(args[a], args[b]));
                    assert(!(pair_error(args[a], args[b]) is DuplicateName));
                },
                None => {
                    assert forall|i: int, j: int| 0 <= i < j < args.len() implies agree(
                        #[trigger] args[i],
                        #[trigger] args[j],
                    ) by {
                        assert(!clash(args[i], args[j], false));
                    }
                },
            }
        } else {
            let k = choose|k: int| 0 <= k < args.len() && !(lone_error(#[trigger] args[k], count) is None);
            assert(!stands_alone(args[k], count) || args[k].short == Some('-'));
        }
        assert forall|i: int, j: int| 0 <= i < j < args.len() implies (#[trigger] args[i]).id != (
        #[trigger] args[j]).id by {
            assert(!clash(args[i], args[j], true));
        }
    } else {
        let (a, b) = first_clash_from(args, 0, true)->0;
        assert(!agree(args[a], args[b]));
    }
}

/// The name of a placeholder; of text, nothing.
pub open spec fn unit_name(unit: UnitView) -> Seq<char> {
    match unit {
        UnitView::Text(_) => Seq::empty(),
        UnitView::Positional(unit) => unit.name,
        UnitView::Option(unit) => unit.name,
        UnitView::Flag(unit) => unit.name,
    }
}

/// Where no text is among `units`, each of them has its argument at its own
/// place, under its own name.
pub proof fn lemma_unit_args_aligned(units: Seq<UnitView>)
    requires
        forall|k: int| 0 <= k < units.len() ==> !(#[trigger] units[k] is Text),
    ensures
        unit_args(units).len() == units.len(),
        forall|k: int|
            0 <= k < units.len() ==> unit_arg(units[k]) == Some(#[trigger] unit_args(units)[k])
                && unit_args(units)[k].id == unit_name(units[k]),
    decreases units.len(),
{
    if units.len() > 0 {
        let before = units.drop_last();
        assert forall|k: int| 0 <= k < before.len() implies !(#[trigger] before[k] is Text) by {
            assert(before[k] == units[k]);
        }
        lemma_unit_args_aligned(before);
        assert(!(units[units.len() - 1] is Text));
        assert forall|k: int| 0 <= k < units.len() implies unit_arg(units[k]) == Some(
            #[trigger] unit_args(units)[k],
        ) && unit_args(units)[k].id == unit_name(units[k]) by {
            if k < before.len() {
                assert(unit_args(units)[k] == unit_args(before)[k]);
                assert(before[k] == units[k]);
            }
        }
    }
}

/// Two placeholders of one name that differ in anything, and stand in the
/// commands of one template, are reported as two arguments of one name.
pub proof fn lemma_one_name_twice(commands: Seq<Seq<UnitView>>, a: UnitView, b: UnitView)
    requires
        occurs(commands, a),
        occurs(commands, b),
        !(a is Text),
        !(b is Text),
        a != b,
        unit_name(a) == unit_name(b),
    ensures
        schema_fault(unit_args(registry(commands))) matches Some(SchemaErrorView::DuplicateName(_)),
{
    let units = registry(commands);
    let args = unit_args(units);
    lemma_registry(commands);
    lemma_unit_args_aligned(units);
    lemma_unit_args_coherent(units);
    lemma_schema_fault(args);
    assert(units.contains(a) && units.contains(b));
    let i = choose|i: int| 0 <= i < units.len() && units[i] == a;
    let j = choose|j: int| 0 <= j < units.len() && units[j] == b;
    assert(args[i].id == args[j].id);
    assert(i != j);
    if i < j {
        assert(!distinct_names(args));
    } else {
        assert(args[j].id == args[i].id);
        assert(!distinct_names(args));
    }
}

impl Argument {
    /// Whether the argument has neither a long nor a short name.
    fn positional(&self) -> (r: bool)
        ensures
            r == is_positional(self@),
    {
        self.long.is_none() && self.short.is_none()
    }

    /// The place of a positional argument.
    fn place(&self) -> (r: usize)
        ensures
            r == slot(self@),
    {
        match self.index {
            Some(index) => index,
            None => 1,
        }
    }

    /// Whether this argument and `other` clash.
    fn clashes(&self, other: &Argument, names: bool) -> (r: bool)
        ensures
            r == clash(self@, other@, names),
    {
        if names {
            return self.id == other.id;
        }
        if self.id == other.id {
            return true;
        }
        if self.long.is_some() && same_text(&self.long, &other.long) {
            return true;
        }
        if self.short.is_some() && self.short == other.short {
            return true;
        }
        if self.positional() && other.positional() {
            let a = self.place();
            let b = other.place();
            return a == b || (a < b && other.required && !self.required) || (b < a
                && self.required && !other.required);
        }
        false
    }

    /// What is wrong with this argument among `count` positional ones, if
    /// anything is.
    fn lone_error(&self, count: usize) -> (r: Option<SchemaError>)
        ensures
            match (r, lone_error(self@, count as nat)) {
                (Some(error), Some(v)) => error@ == v,
                (None, None) => true,
                _ => false,
            },
    {
        if self.switch && self.positional() {
            return Some(SchemaError::UnnamedFlag);
        }
        if let Some(long) = &self.long {
            if long.as_str().is_empty() || long.as_str().get_char(0) == '-' {
                return Some(SchemaError::InvalidLong(long.clone()));
            }
        }
        if let Some(short) = self.short {
            if short == '-' {
                return Some(SchemaError::InvalidShort(short));
            }
        }
        if self.positional() {
            let place = self.place();
            if place < 1 || place > count {
                return Some(SchemaError::IndexOutOfRange(place));
            }
        }
        None
    }

    /// What is wrong with this argument and `other`, which do not agree and
    /// differ in their names.
    fn pair_error(&self, other: &Argument) -> (r: SchemaError)
        requires
            !agree(self@, other@),
            self.id@ != other.id@,
        ensures
            r@ == pair_error(self@, other@),
    {
        if self.long.is_some() && same_text(&self.long, &other.long) {
            if let Some(long) = &self.long {
                return SchemaError::DuplicateLong(long.clone());
            }
        }
        if let Some(short) = self.short {
            if self.short == other.short {
                return SchemaError::DuplicateShort(short);
            }
        }
        let a = self.place();
        let b = other.place();
        if a == b {
            SchemaError::DuplicateIndex(a)
        } else if a < b {
            SchemaError::OptionalBeforeRequired(self.id.clone())
        } else {
            SchemaError::OptionalBeforeRequired(other.id.clone())
        }
    }
}

/// The first two of `arguments` that clash, if any do.
fn first_clash(arguments: &Vec<Argument>, names: bool) -> (r: Option<(usize, usize)>)
    ensures
        match (r, first_clash_from(arguments_view(arguments@), 0, names)) {
            (Some((i, j)), Some((a, b))) => i == a && j == b && i < j < arguments.len(),
            (None, None) => true,
            _ => false,
        },
{
    let ghost views = arguments_view(arguments@);
    let mut j: usize = 0;
    while j < arguments.len()
        invariant
            j <= arguments.len(),
            views == arguments_view(arguments@),
            first_clash_from(views, 0, names) == first_clash_from(views, j as int, names),
        decreases arguments.len() - j,
    {
        let mut i: usize = 0;
        while i < j
            invariant
                i <= j < arguments.len(),
                views == arguments_view(arguments@),
                first_clash_from(views, 0, names) == first_clash_from(views, j as int, names),
                earlier_clash(views, j as int, 0, names) == earlier_clash(
                    views,
                    j as int,
                    i as int,
                    names,
                ),
            decreases j - i,
        {
            assert(views[i as int] == arguments[i as int]@ && views[j as int] == arguments[j as int]@);
            if arguments[i].clashes(&arguments[j], names) {
                return Some((i, j));
            }
            i += 1;
        }
        j += 1;
    }
    None
}

/// How many of `arguments` are positional.
fn count_positionals(arguments: &Vec<Argument>) -> (r: usize)
    ensures
        r == positionals(arguments_view(arguments@)),
{
    let mut count: usize = 0;
    let mut i: usize = 0;
    assert(arguments_view(arguments@).take(0) =~= Seq::empty());
    while i < arguments.len()
        invariant
            i <= arguments.len(),
            count <= i,
            count == positionals(arguments_view(arguments@).take(i as int)),
        decreases arguments.len() - i,
    {
        proof {
            let views = arguments_view(arguments@);
            assert(views.take(i + 1).drop_last() =~= views.take(i as int));
            assert(views.take(i + 1).last() == arguments[i as int]@);
        }
        if arguments[i].positional() {
            count += 1;
        }
        i += 1;
    }
    assert(arguments_view(arguments@).take(arguments.len() as int) =~= arguments_view(
        arguments@,
    ));
    count
}

/// What is wrong with `arguments`, if anything is.
pub fn find_fault(arguments: &Vec<Argument>) -> (r: Option<SchemaError>)
    ensures
        match (r, schema_fault(arguments_view(arguments@))) {
            (Some(error), Some(v)) => error@ == v,
            (None, None) => true,
            _ => false,
        },
{
    let ghost views = arguments_view(arguments@);
    if let Some((i, j)) = first_clash(arguments, true) {
        assert(views[i as int] == arguments[i as int]@);
        return Some(SchemaError::DuplicateName(arguments[i].id.clone()));
    }
    let count = count_positionals(arguments);
    let mut k: usize = 0;
    while k < arguments.len()
        invariant
            k <= arguments.len(),
            views == arguments_view(arguments@),
            count == positionals(views),
            first_clash_from(views, 0, true) is None,
            first_lone_error(views, count as nat, 0) == first_lone_error(
                views,
                count as nat,
                k as int,
            ),
        decreases arguments.len() - k,
    {
        assert(views[k as int] == arguments[k as int]@);
        if let Some(error) = arguments[k].lone_error(count) {
            return Some(error);
        }
        k += 1;
    }
    if let Some((i, j)) = first_clash(arguments, false) {
        assert(views[i as int] == arguments[i as int]@ && views[j as int] == arguments[j as int]@);
        proof {
            lemma_first_clash(views, 0, true);
            lemma_first_clash(views, 0, false);
            assert(!clash(views[i as int], views[j as int], true));
        }
        return Some(arguments[i].pair_error(&arguments[j]));
    }
    None
}

/// The arguments that a template asks for: its distinct placeholders, which
/// make arguments that `clap` takes.
#[derive(Debug)]
pub struct ArgumentSchema {
    units: Vec<Unit>,
    arguments: Vec<Argument>,
}

impl View for ArgumentSchema {
    type V = Seq<UnitView>;

    closed spec fn view(&self) -> Seq<UnitView> {
        units_view(self.units@)
    }
}

impl ArgumentSchema {
    #[verifier::type_invariant]
    spec fn well_formed(self) -> bool {
        &&& arguments_view(self.arguments@) == unit_args(units_view(self.units@))
        &&& schema_fault(unit_args(units_view(self.units@))) is None
        &&& supported(unit_args(units_view(self.units@)))
    }

    /// Registers the placeholders of `commands`, each once, and makes the
    /// arguments that stand for them.
    ///
    /// Fails where something is wrong with the arguments, so that `clap`
    /// would not take them: above all where two placeholders that differ
    /// have the same name.
    pub fn build(commands: &Vec<CompiledCommand>) -> (r: Result<ArgumentSchema, SchemaError>)
        ensures
            match (r, schema_fault(unit_args(registry(commands_view(commands@))))) {
                (Ok(schema), None) => schema@ == registry(commands_view(commands@)),
                (Err(error), Some(v)) => error@ == v,
                _ => false,
            },
    {
        let units = placeholders(commands);
        let arguments = Unit::to_arguments(&units);
        proof {
            lemma_unit_args_coherent(units_view(units@));
            lemma_schema_fault(arguments_view(arguments@));
        }
        match find_fault(&arguments) {
            Some(error) => Err(error),
            None => Ok(ArgumentSchema { units, arguments }),
        }
    }

    /// The placeholders of the template, each once, in the order in which
    /// they are first met.
    pub fn units(&self) -> (r: &Vec<Unit>)
        ensures
            units_view(r@) == self@,
    {
        &self.units
    }

    /// The arguments that stand for the placeholders; nothing is wrong with
    /// them.
    pub fn arguments(&self) -> (r: &Vec<Argument>)
        ensures
            arguments_view(r@) == unit_args(self@),
            schema_fault(unit_args(self@)) is None,
            supported(unit_args(self@)),
    {
        proof {
            use_type_invariant(self);
        }
        &self.arguments
    }

    /// The `clap` command of the template `name`: the command of
    /// [`get_cmd`] with the arguments that stand for the placeholders.
    pub fn command(&self, name: &str) -> (r: clap::Command)
        ensures
            command_model(r) == Some(template_command(name@, unit_args(self@))),
    {
        proof {
            use_type_invariant(self);
        }
        let args = Argument::to_clap_args(&self.arguments);
        assert(Seq::<ArgModel>::empty() + models_of(args@) =~= unit_args(self@));
        command_args(get_cmd(name), args)
    }

    /// Reads the user's arguments `custom_args` against the arguments of
    /// the template `name`: `clap` parses them, and on success each
    /// placeholder gets its value.
    pub fn resolve(&self, name: &str, custom_args: &Vec<String>) -> (r: Result<
        ResolvedValues,
        ResolutionError,
    >)
        ensures
            resolved_as(r, self@, clap_parse(name@, unit_args(self@), texts_view(custom_args@))),
    {
        proof {
            use_type_invariant(self);
        }
        match parse_args(self.command(name), custom_args) {
            Ok(matches) => Ok(collect_values(&self.units, &matches)),
            Err(error) => Err(error),
        }
    }
}

} // verus!
