//! The arguments that a template asks for, handed to `clap`.
//!
//! Each placeholder becomes one `clap::Arg`, and the arguments of a template
//! make one `clap::Command`. `clap` then reads the user's extra arguments.
//! What it is given is verified here; what it answers is believed, and named
//! by [`clap_parse`].

use crate::commands_parser::{copy_text, text_view, units_view, Unit};
use crate::grammar::UnitView;
use clap::error::ErrorKind;
use vstd::prelude::*;

verus! {

/// `clap`'s definition of one argument; what it holds is named by
/// [`arg_model`].
#[verifier::external_type_specification]
#[verifier::external_body]
pub struct ExArg(clap::Arg);

/// `clap`'s definition of a command; what it holds is named by
/// [`command_model`].
#[verifier::external_type_specification]
#[verifier::external_body]
pub struct ExCommand(clap::Command);

/// What `clap` matched; what it holds is named by [`matched_values`] and
/// [`matched_switches`].
#[verifier::external_type_specification]
#[verifier::external_body]
pub struct ExArgMatches(clap::ArgMatches);

/// What an argument definition holds, as far as this library sets it.
pub struct ArgModel {
    /// The name by which the argument's value is found again.
    pub id: Seq<char>,
    /// What follows `--` on the command line.
    pub long: Option<Seq<char>>,
    /// What follows `-` on the command line.
    pub short: Option<char>,
    /// The place among the arguments without `-`.
    pub index: Option<usize>,
    /// Whether parsing fails where the argument is absent.
    pub required: bool,
    /// Whether the argument is a switch, which takes no value.
    pub switch: bool,
    /// Whether an empty value is refused.
    pub non_empty: bool,
}

/// The argument that `Arg::new` makes: it takes one value, is not required
/// and has neither names nor an index.
pub open spec fn new_arg(id: Seq<char>) -> ArgModel {
    ArgModel {
        id,
        long: None,
        short: None,
        index: None,
        required: false,
        switch: false,
        non_empty: false,
    }
}

/// What `arg` holds, where it was made by `Arg::new` and changed by nothing
/// but `action` with `Set` or `SetTrue`, `required`, `index`, `long`, `short`
/// and `value_parser` with a `NonEmptyStringValueParser`; `None` for any
/// other argument.
pub uninterp spec fn arg_model(arg: clap::Arg) -> Option<ArgModel>;

/// `clap`'s `Arg::new`: an argument with the given name and nothing else
/// set. Such an argument takes one value, is not required and has neither
/// names nor an index.
#[verifier::external_body]
pub(crate) fn arg_new(id: &str) -> (r: clap::Arg)
    ensures
        arg_model(r) == Some(new_arg(id@)),
{
    clap::Arg::new(id.to_owned())
}

/// `clap`'s `Arg::action` with `ArgAction::Set`: the argument takes a
/// value, and holds what it held beside that.
#[verifier::external_body]
pub(crate) fn arg_set(arg: clap::Arg) -> (r: clap::Arg)
    requires
        arg_model(arg) is Some,
    ensures
        arg_model(r) == Some(ArgModel { switch: false, ..arg_model(arg).unwrap() }),
{
    arg.action(clap::ArgAction::Set)
}

/// `clap`'s `Arg::action` with `ArgAction::SetTrue`: the argument is a
/// switch, and holds what it held beside that.
#[verifier::external_body]
pub(crate) fn arg_set_true(arg: clap::Arg) -> (r: clap::Arg)
    requires
        arg_model(arg) is Some,
    ensures
        arg_model(r) == Some(ArgModel { switch: true, ..arg_model(arg).unwrap() }),
{
    arg.action(clap::ArgAction::SetTrue)
}

/// `clap`'s `Arg::required`: the argument is required or is not, as `yes`
/// says, and holds what it held beside that.
#[verifier::external_body]
pub(crate) fn arg_required(arg: clap::Arg, yes: bool) -> (r: clap::Arg)
    requires
        arg_model(arg) is Some,
    ensures
        arg_model(r) == Some(ArgModel { required: yes, ..arg_model(arg).unwrap() }),
{
    arg.required(yes)
}

/// `clap`'s `Arg::index`: the argument has the index `index`, and holds
/// what it held beside that.
#[verifier::external_body]
pub(crate) fn arg_index(arg: clap::Arg, index: usize) -> (r: clap::Arg)
    requires
        arg_model(arg) is Some,
    ensures
        arg_model(r) == Some(ArgModel { index: Some(index), ..arg_model(arg).unwrap() }),
{
    arg.index(index)
}

/// `clap`'s `Arg::value_parser` with a `NonEmptyStringValueParser`: the
/// argument refuses an empty value, and holds what it held beside that.
#[verifier::external_body]
pub(crate) fn arg_non_empty(arg: clap::Arg) -> (r: clap::Arg)
    requires
        arg_model(arg) is Some,
    ensures
        arg_model(r) == Some(ArgModel { non_empty: true, ..arg_model(arg).unwrap() }),
{
    arg.value_parser(clap::builder::NonEmptyStringValueParser::new())
}

/// `clap`'s `Arg::long`: the argument has the long name `long`, as it is
/// given, and holds what it held beside that.
#[verifier::external_body]
pub(crate) fn arg_long(arg: clap::Arg, long: &str) -> (r: clap::Arg)
    requires
        arg_model(arg) is Some,
    ensures
        arg_model(r) == Some(ArgModel { long: Some(long@), ..arg_model(arg).unwrap() }),
{
    arg.long(long.to_owned())
}

/// `clap`'s `Arg::short`: the argument has the short name `short`, and
/// holds what it held beside that. Where `clap` is built with its assertions
/// it panics on `-`.
#[verifier::external_body]
pub(crate) fn arg_short(arg: clap::Arg, short: char) -> (r: clap::Arg)
    requires
        arg_model(arg) is Some,
        short != '-',
    ensures
        arg_model(r) == Some(ArgModel { short: Some(short), ..arg_model(arg).unwrap() }),
{
    arg.short(short)
}

/// One argument that a template asks for, as plain values.
#[derive(Debug, PartialEq, Eq)]
pub struct Argument {
    /// The name by which the argument's value is found again.
    pub id: String,
    /// What follows `--` on the command line.
    pub long: Option<String>,
    /// What follows `-` on the command line.
    pub short: Option<char>,
    /// The place among the arguments without `-`.
    pub index: Option<usize>,
    /// Whether parsing fails where the argument is absent.
    pub required: bool,
    /// Whether the argument is a switch, which takes no value.
    pub switch: bool,
    /// Whether an empty value is refused.
    pub non_empty: bool,
}

impl View for Argument {
    type V = ArgModel;

    open spec fn view(&self) -> ArgModel {
        ArgModel {
            id: self.id@,
            long: text_view(self.long),
            short: self.short,
            index: self.index,
            required: self.required,
            switch: self.switch,
            non_empty: self.non_empty,
        }
    }
}

/// The views of arguments, in order.
pub open spec fn arguments_view(arguments: Seq<Argument>) -> Seq<ArgModel> {
    arguments.map_values(|a: Argument| a@)
}

/// The argument that stands for a placeholder; none for text.
///
/// A positional placeholder takes the place of its index. A value-taking
/// placeholder has the names it was written with. Both refuse an empty value
/// unless they allow it. A flag is a switch with its names.
pub open spec fn unit_arg(unit: UnitView) -> Option<ArgModel> {
    match unit {
        UnitView::Text(_) => None,
        UnitView::Positional(unit) => Some(
            ArgModel {
                id: unit.name,
                long: None,
                short: None,
                index: Some(unit.index),
                required: unit.required,
                switch: false,
                non_empty: !unit.allow_empty_values,
            },
        ),
        UnitView::Option(unit) => Some(
            ArgModel {
                id: unit.name,
                long: unit.long,
                short: unit.short,
                index: None,
                required: unit.required,
                switch: false,
                non_empty: !unit.allow_empty_values,
            },
        ),
        UnitView::Flag(unit) => Some(
            ArgModel {
                id: unit.name,
                long: unit.long,
                short: unit.short,
                index: None,
                required: false,
                switch: true,
                non_empty: false,
            },
        ),
    }
}

/// The arguments that stand for the placeholders among `units`, in order.
pub open spec fn unit_args(units: Seq<UnitView>) -> Seq<ArgModel>
    decreases units.len(),
{
    if units.len() == 0 {
        Seq::empty()
    } else {
        match unit_arg(units.last()) {
            Some(arg) => unit_args(units.drop_last()).push(arg),
            None => unit_args(units.drop_last()),
        }
    }
}

/// What each of `args` holds is what `models` says, one by one.
pub open spec fn args_hold(args: Seq<clap::Arg>, models: Seq<ArgModel>) -> bool {
    &&& args.len() == models.len()
    &&& forall|i: int| 0 <= i < args.len() ==> arg_model(#[trigger] args[i]) == Some(models[i])
}

/// None of `args` has the short name `-`.
pub open spec fn no_hyphen_short(args: Seq<ArgModel>) -> bool {
    forall|i: int| 0 <= i < args.len() ==> (#[trigger] args[i]).short != Some('-')
}

impl Argument {
    /// The `clap` argument that holds what this argument holds.
    pub fn to_clap_arg(&self) -> (r: clap::Arg)
        requires
            self.short != Some('-'),
        ensures
            arg_model(r) == Some(self@),
    {
        let mut arg = arg_new(self.id.as_str());
        arg = if self.switch {
            arg_set_true(arg)
        } else {
            arg_set(arg)
        };
        arg = arg_required(arg, self.required);
        if let Some(index) = self.index {
            arg = arg_index(arg, index);
        }
        if self.non_empty {
            arg = arg_non_empty(arg);
        }
        if let Some(long) = &self.long {
            arg = arg_long(arg, long.as_str());
        }
        if let Some(short) = self.short {
            arg = arg_short(arg, short);
        }
        arg
    }

    /// The `clap` arguments that hold what `arguments` hold, in order.
    pub fn to_clap_args(arguments: &Vec<Argument>) -> (r: Vec<clap::Arg>)
        requires
            no_hyphen_short(arguments_view(arguments@)),
        ensures
            args_hold(r@, arguments_view(arguments@)),
    {
        let mut args: Vec<clap::Arg> = Vec::new();
        let mut i: usize = 0;
        while i < arguments.len()
            invariant
                i <= arguments.len(),
                no_hyphen_short(arguments_view(arguments@)),
                args_hold(args@, arguments_view(arguments@).take(i as int)),
            decreases arguments.len() - i,
        {
            assert(arguments_view(arguments@)[i as int] == arguments[i as int]@);
            args.push(arguments[i].to_clap_arg());
            i += 1;
        }
        assert(arguments_view(arguments@).take(arguments.len() as int) =~= arguments_view(
            arguments@,
        ));
        args
    }
}

impl Unit {
    /// The argument that stands for this placeholder; none for text.
    pub fn to_argument(&self) -> (r: Option<Argument>)
        ensures
            match (r, unit_arg(self@)) {
                (Some(argument), Some(model)) => argument@ == model,
                (None, None) => true,
                _ => false,
            },
    {
        match self {
            Unit::Positional(unit) => Some(
                Argument {
                    id: unit.name.clone(),
                    long: None,
                    short: None,
                    index: Some(unit.index),
                    required: unit.required,
                    switch: false,
                    non_empty: !unit.allow_empty_values,
                },
            ),
            Unit::Option(unit) => Some(
                Argument {
                    id: unit.name.clone(),
                    long: copy_text(&unit.long),
                    short: unit.short,
                    index: None,
                    required: unit.required,
                    switch: false,
                    non_empty: !unit.allow_empty_values,
                },
            ),
            Unit::Flag(unit) => Some(
                Argument {
                    id: unit.name.clone(),
                    long: copy_text(&unit.long),
                    short: unit.short,
                    index: None,
                    required: false,
                    switch: true,
                    non_empty: false,
                },
            ),
            Unit::Text(_) => None,
        }
    }

    /// The arguments that stand for the placeholders among `units`, in
    /// order. Text gives none.
    pub fn to_arguments(units: &Vec<Unit>) -> (r: Vec<Argument>)
        ensures
            arguments_view(r@) == unit_args(units_view(units@)),
    {
        let mut arguments: Vec<Argument> = Vec::new();
        let mut i: usize = 0;
        assert(units_view(units@).take(0) =~= Seq::empty());
        while i < units.len()
            invariant
                i <= units.len(),
                arguments_view(arguments@) == unit_args(units_view(units@).take(i as int)),
            decreases units.len() - i,
        {
            proof {
                let views = units_view(units@);
                assert(views.take(i + 1).drop_last() =~= views.take(i as int));
                assert(views.take(i + 1).last() == units[i as int]@);
            }
            if let Some(argument) = units[i].to_argument() {
                let ghost before = arguments_view(arguments@);
                arguments.push(argument);
                assert(arguments_view(arguments@) =~= before.push(argument@));
            }
            i += 1;
        }
        assert(units_view(units@).take(units.len() as int) =~= units_view(units@));
        arguments
    }

    /// The `clap` arguments that stand for the placeholders among `units`,
    /// in order. Text gives none.
    pub fn to_clap_args(units: &Vec<Unit>) -> (r: Vec<clap::Arg>)
        requires
            no_hyphen_short(unit_args(units_view(units@))),
        ensures
            args_hold(r@, unit_args(units_view(units@))),
    {
        Argument::to_clap_args(&Unit::to_arguments(units))
    }
}

/// An argument that is given without `-`: it has neither a long nor a
/// short name.
pub open spec fn is_positional(arg: ArgModel) -> bool {
    arg.long is None && arg.short is None
}

/// The place of a positional argument: its index, or 1 where it has none.
///
/// `clap` numbers the positional arguments without an index from 1 on, in
/// the order in which they were added: 1 is the place of the first of them.
/// Among `acceptable` arguments there is at most one.
pub open spec fn slot(arg: ArgModel) -> int {
    match arg.index {
        Some(index) => index as int,
        None => 1,
    }
}

/// How many of `args` are positional.
pub open spec fn positionals(args: Seq<ArgModel>) -> nat
    decreases args.len(),
{
    if args.len() == 0 {
        0
    } else if is_positional(args.last()) {
        positionals(args.drop_last()) + 1
    } else {
        positionals(args.drop_last())
    }
}

/// What `clap` asks of one argument among `count` positional ones: only a
/// positional argument has an index, a switch is not positional and has no
/// parser of values, a long name is not empty and does not begin with `-`,
/// and the place of a positional argument is one of 1 to `count`.
pub open spec fn stands_alone(arg: ArgModel, count: nat) -> bool {
    &&& arg.index is Some ==> is_positional(arg)
    &&& arg.switch ==> !is_positional(arg) && !arg.non_empty
    &&& arg.long matches Some(long) ==> long.len() > 0 && long[0] != '-'
    &&& is_positional(arg) ==> 1 <= slot(arg) <= count
}

/// What `clap` asks of two arguments of one command: they differ in their
/// name, in their long and short names where they have them, and, where both
/// are positional, in their place; and of two positional arguments the one
/// in the later place is required only if the other is.
pub open spec fn agree(a: ArgModel, b: ArgModel) -> bool {
    &&& a.id != b.id
    &&& a.long is Some ==> a.long != b.long
    &&& a.short is Some ==> a.short != b.short
    &&& is_positional(a) && is_positional(b) ==> {
        &&& slot(a) != slot(b)
        &&& slot(a) < slot(b) && b.required ==> a.required
        &&& slot(b) < slot(a) && a.required ==> b.required
    }
}

/// What `clap` asks of the arguments of one command; on others it panics
/// where it was built with its assertions.
pub open spec fn acceptable(args: Seq<ArgModel>) -> bool {
    &&& forall|i: int| 0 <= i < args.len() ==> stands_alone(#[trigger] args[i], positionals(args))
    &&& forall|i: int, j: int|
        0 <= i < j < args.len() ==> agree(#[trigger] args[i], #[trigger] args[j])
}

/// Why the user's arguments do not fit the arguments of a template.
#[derive(Debug, Clone, Copy, PartialEq, Eq, Structural)]
pub enum ResolutionErrorKind {
    /// A required argument is absent.
    MissingRequiredArgument,
    /// An argument has a value that it does not take: an empty one where
    /// that is not allowed.
    InvalidValue,
    /// An option, a flag or a further positional argument is not known.
    UnknownArgument,
    /// Anything else.
    Other,
}

/// Why the user's arguments do not fit, with `clap`'s message.
#[derive(Debug, Clone, PartialEq, Eq)]
pub struct ResolutionError {
    pub kind: ResolutionErrorKind,
    pub message: String,
}

/// Why the user's arguments do not fit, as mathematical values.
pub struct ResolutionErrorView {
    pub kind: ResolutionErrorKind,
    pub message: Seq<char>,
}

impl View for ResolutionError {
    type V = ResolutionErrorView;

    open spec fn view(&self) -> ResolutionErrorView {
        ResolutionErrorView { kind: self.kind, message: self.message@ }
    }
}

impl ResolutionError {
    /// The message of the error.
    pub fn to_string(&self) -> (r: String)
        ensures
            r@ == self@.message,
    {
        self.message.clone()
    }
}

/// What `clap` answers to the user's arguments.
pub enum ParseOutcome {
    /// The arguments fit: the value of each argument that has one, and of
    /// each switch whether it is set.
    Matched(Map<Seq<char>, Seq<char>>, Map<Seq<char>, bool>),
    /// The arguments do not fit: the kind of `clap`'s error, and what it
    /// writes for it.
    Rejected(ResolutionErrorView),
}

/// What a command definition holds, as far as this library sets it.
pub struct CommandModel {
    /// The name of the command.
    pub name: Seq<char>,
    /// Whether the first token is an argument, and no program name.
    pub no_binary_name: bool,
    /// Whether `clap` adds no version flag of its own.
    pub disable_version_flag: bool,
    /// Whether `clap` adds no help flag of its own.
    pub disable_help_flag: bool,
    /// The arguments, in the order in which they were added.
    pub args: Seq<ArgModel>,
}

/// The command that `Command::new` makes: none of the settings is set, and
/// it has no arguments.
pub open spec fn new_command(name: Seq<char>) -> CommandModel {
    CommandModel {
        name,
        no_binary_name: false,
        disable_version_flag: false,
        disable_help_flag: false,
        args: Seq::empty(),
    }
}

/// The command of a template: the first token is an argument, `clap` adds
/// neither a help nor a version flag, and the arguments are `args`.
pub open spec fn template_command(name: Seq<char>, args: Seq<ArgModel>) -> CommandModel {
    CommandModel {
        name,
        no_binary_name: true,
        disable_version_flag: true,
        disable_help_flag: true,
        args,
    }
}

/// What `command` holds, where it was made by `Command::new` and changed by
/// nothing but `no_binary_name`, `disable_version_flag`, `disable_help_flag`
/// and `args` with arguments of which `arg_model` says what they hold;
/// `None` for any other command.
pub uninterp spec fn command_model(command: clap::Command) -> Option<CommandModel>;

/// What `clap` answers where a command of the name `name`, which takes no
/// program name and has neither a help nor a version flag, has the
/// arguments `args` and is given `tokens`.
pub uninterp spec fn clap_parse(
    name: Seq<char>,
    args: Seq<ArgModel>,
    tokens: Seq<Seq<char>>,
) -> ParseOutcome;

/// The values that `matches` holds as strings, by the names of their
/// arguments.
pub uninterp spec fn matched_values(matches: clap::ArgMatches) -> Map<Seq<char>, Seq<char>>;

/// The values that `matches` holds as booleans, by the names of their
/// arguments.
pub uninterp spec fn matched_switches(matches: clap::ArgMatches) -> Map<Seq<char>, bool>;

/// What each of `args` holds.
pub open spec fn models_of(args: Seq<clap::Arg>) -> Seq<ArgModel> {
    Seq::new(args.len(), |i: int| arg_model(args[i])->0)
}

/// The views of strings, in order.
pub open spec fn texts_view(texts: Seq<String>) -> Seq<Seq<char>> {
    texts.map_values(|t: String| t@)
}

/// What `r` holds is what `outcome` says.
pub open spec fn parsed_as(
    r: Result<clap::ArgMatches, ResolutionError>,
    outcome: ParseOutcome,
) -> bool {
    match r {
        Ok(matches) => outcome == ParseOutcome::Matched(
            matched_values(matches),
            matched_switches(matches),
        ),
        Err(error) => outcome == ParseOutcome::Rejected(error@),
    }
}

/// `clap`'s `Command::new`: a command with the given name and nothing else
/// set.
#[verifier::external_body]
pub(crate) fn command_new(name: &str) -> (r: clap::Command)
    ensures
        command_model(r) == Some(new_command(name@)),
{
    clap::Command::new(name.to_owned())
}

/// `clap`'s `Command::no_binary_name`: the first token is an argument or is
/// the program's name, as `yes` says; the command holds what it held beside
/// that.
#[verifier::external_body]
pub(crate) fn command_no_binary_name(command: clap::Command, yes: bool) -> (r: clap::Command)
    requires
        command_model(command) is Some,
    ensures
        command_model(r) == Some(
            CommandModel { no_binary_name: yes, ..command_model(command).unwrap() },
        ),
{
    command.no_binary_name(yes)
}

/// `clap`'s `Command::disable_version_flag`: `clap` adds no version flag of
/// its own, or may add one, as `yes` says; the command holds what it held
/// beside that.
#[verifier::external_body]
pub(crate) fn command_disable_version_flag(command: clap::Command, yes: bool) -> (r: clap::Command)
    requires
        command_model(command) is Some,
    ensures
        command_model(r) == Some(
            CommandModel { disable_version_flag: yes, ..command_model(command).unwrap() },
        ),
{
    command.disable_version_flag(yes)
}

/// `clap`'s `Command::disable_help_flag`: `clap` adds no help flag of its
/// own, or adds one, as `yes` says; the command holds what it held beside
/// that.
#[verifier::external_body]
pub(crate) fn command_disable_help_flag(command: clap::Command, yes: bool) -> (r: clap::Command)
    requires
        command_model(command) is Some,
    ensures
        command_model(r) == Some(
            CommandModel { disable_help_flag: yes, ..command_model(command).unwrap() },
        ),
{
    command.disable_help_flag(yes)
}

/// `clap`'s `Command::args`: the arguments are added after those that the
/// command has, in their order; the command holds what it held beside that.
#[verifier::external_body]
pub(crate) fn command_args(command: clap::Command, args: Vec<clap::Arg>) -> (r: clap::Command)
    requires
        command_model(command) is Some,
        forall|i: int| 0 <= i < args.len() ==> arg_model(#[trigger] args[i]) is Some,
    ensures
        command_model(r) == Some(
            CommandModel {
                args: command_model(command).unwrap().args + models_of(args@),
                ..command_model(command).unwrap()
            },
        ),
{
    command.args(args)
}

/// `clap`'s `Command::try_get_matches_from`, on the command of a template.
///
/// What it returns is a function of the command's name, of what its
/// arguments hold and of the tokens, which `clap_parse` names. Of an error
/// the kind and what `clap` writes for it are handed on; the kinds of `clap`
/// that have none of their own here are `Other`. Where `clap` is built with
/// its assertions it panics unless the arguments are `acceptable`.
#[verifier::external_body]
pub(crate) fn parse_args(command: clap::Command, tokens: &Vec<String>) -> (r: Result<
    clap::ArgMatches,
    ResolutionError,
>)
    requires
        command_model(command) matches Some(model) && model == template_command(
            model.name,
            model.args,
        ) && acceptable(model.args),
    ensures
        parsed_as(
            r,
            clap_parse(
                command_model(command).unwrap().name,
                command_model(command).unwrap().args,
                texts_view(tokens@),
            ),
        ),
{
    command.try_get_matches_from(tokens).map_err(|e| ResolutionError {
        kind: match e.kind() {
            ErrorKind::MissingRequiredArgument => ResolutionErrorKind::MissingRequiredArgument,
            ErrorKind::InvalidValue => ResolutionErrorKind::InvalidValue,
            ErrorKind::UnknownArgument => ResolutionErrorKind::UnknownArgument,
            _ => ResolutionErrorKind::Other,
        },
        message: e.to_string(),
    })
}

/// The command of a template without its arguments: it has the name
/// `name`, its first token is an argument and no program name, and `clap`
/// adds neither a help nor a version flag to it.
pub fn get_cmd(name: &str) -> (r: clap::Command)
    ensures
        command_model(r) == Some(template_command(name@, Seq::empty())),
{
    command_disable_help_flag(
        command_disable_version_flag(command_no_binary_name(command_new(name), true), true),
        true,
    )
}

/// `clap`'s `ArgMatches::try_get_one` for a `String`: the value of the
/// argument `id`, `None` where `matches` holds no string for it.
#[verifier::external_body]
pub(crate) fn matched_text(matches: &clap::ArgMatches, id: &str) -> (r: Option<String>)
    ensures
        match r {
            Some(text) => matched_values(*matches).contains_key(id@) && matched_values(
                *matches,
            )[id@] == text@,
            None => !matched_values(*matches).contains_key(id@),
        },
{
    matches.try_get_one::<String>(id).ok().flatten().cloned()
}

/// `clap`'s `ArgMatches::try_get_one` for a `bool`: whether the switch `id`
/// is set, `None` where `matches` holds no boolean for it.
#[verifier::external_body]
pub(crate) fn matched_switch(matches: &clap::ArgMatches, id: &str) -> (r: Option<bool>)
    ensures
        match r {
            Some(set) => matched_switches(*matches).contains_key(id@) && matched_switches(
                *matches,
            )[id@] == set,
            None => !matched_switches(*matches).contains_key(id@),
        },
{
    matches.try_get_one::<bool>(id).ok().flatten().copied()
}

} // verus!
