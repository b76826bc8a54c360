//! A project of a template: the commands that make it, and what to do
//! when it is opened or created.

use crate::arguments::{
    clap_parse, command_model, get_cmd, template_command, texts_view, unit_args, ParseOutcome,
    ResolutionError, ResolutionErrorView,
};
use crate::commands_parser::{debug_string, units_view, SyntaxError};
use crate::config::{compile_all, Template};
use crate::grammar::{debug_text, SyntaxErrorView, UnitView};
use crate::registry::{commands_view, registry};
use crate::resolution::collected;
use crate::schema::{schema_fault, ArgumentSchema, SchemaError, SchemaErrorView};
use crate::values::{substitute, substituted, ResolvedView};
use vstd::prelude::*;
use vstd::string::*;

verus! {

/// Why the commands of a project cannot be made.
#[derive(Debug, Clone, PartialEq, Eq)]
pub enum CommandsError {
    /// A command of the template does not compile.
    Syntax(SyntaxError),
    /// The placeholders make no arguments that `clap` takes.
    Schema(SchemaError),
    /// The user's arguments do not fit.
    Resolution(ResolutionError),
}

/// Why the commands of a project cannot be made, as mathematical values.
pub enum CommandsErrorView {
    Syntax(SyntaxErrorView),
    Schema(SchemaErrorView),
    Resolution(ResolutionErrorView),
}

impl View for CommandsError {
    type V = CommandsErrorView;

    open spec fn view(&self) -> CommandsErrorView {
        match self {
            CommandsError::Syntax(e) => CommandsErrorView::Syntax(e@),
            CommandsError::Schema(e) => CommandsErrorView::Schema(e@),
            CommandsError::Resolution(e) => CommandsErrorView::Resolution(e@),
        }
    }
}

impl CommandsErrorView {
    /// The message of the error.
    pub open spec fn message(self) -> Seq<char> {
        match self {
            CommandsErrorView::Syntax(e) => e.message(),
            CommandsErrorView::Schema(e) => e.message(),
            CommandsErrorView::Resolution(e) => e.message,
        }
    }
}

impl CommandsError {
    /// The message of the error.
    pub fn to_string(&self) -> (r: String)
        ensures
            r@ == self@.message(),
    {
        match self {
            CommandsError::Syntax(e) => e.to_string(),
            CommandsError::Schema(e) => e.to_string(),
            CommandsError::Resolution(e) => e.to_string(),
        }
    }
}

/// The final commands: each compiled command with the values put in.
pub open spec fn substituted_all(commands: Seq<Seq<UnitView>>, values: ResolvedView) -> Seq<
    Seq<char>,
> {
    commands.map_values(|command: Seq<UnitView>| substituted(command, values))
}

/// What `r` holds is what follows from the commands `texts` of the template
/// `name` and from the user's arguments `custom_args`.
///
/// The first command that does not compile gives its error. Else the
/// placeholders are registered; where something is wrong with them, that is
/// the error. Else `clap` reads the user's arguments: its error is handed
/// on, or each command is returned with the values put in.
pub open spec fn commands_as(
    r: Result<Vec<String>, CommandsError>,
    name: Seq<char>,
    texts: Seq<Seq<char>>,
    custom_args: Seq<Seq<char>>,
) -> bool {
    match compile_all(texts) {
        Err(e) => r matches Err(error) && error@ == CommandsErrorView::Syntax(e),
        Ok(commands) => {
            let units = registry(commands);
            match schema_fault(unit_args(units)) {
                Some(e) => r matches Err(error) && error@ == CommandsErrorView::Schema(e),
                None => match clap_parse(name, unit_args(units), custom_args) {
                    ParseOutcome::Rejected(rejection) => r matches Err(error) && error@
                        == CommandsErrorView::Resolution(rejection),
                    ParseOutcome::Matched(values, switches) => r matches Ok(done) && texts_view(
                        done@,
                    ) == substituted_all(commands, collected(units, values, switches)),
                },
            }
        },
    }
}

/// What is to be done when a project is opened or created, in this order.
#[derive(Debug, Clone, Copy, PartialEq, Eq, Structural)]
pub struct Plan {
    /// Remove the project's directory.
    pub remove: bool,
    /// Run the commands that make the project.
    pub create: bool,
    /// Open the project in the editor.
    pub open: bool,
}

/// Why a project is neither opened nor created.
#[derive(Debug, Clone, PartialEq, Eq)]
pub enum ProjectError {
    /// The project of this name exists, and arguments for its commands
    /// were given.
    AlreadyExists(String),
}

impl ProjectError {
    /// The name of the project.
    pub open spec fn name(self) -> Seq<char> {
        match self {
            ProjectError::AlreadyExists(name) => name@,
        }
    }

    /// The message of the error.
    pub fn to_string(&self) -> (r: String)
        ensures
            r@ == "project "@ + debug_text(self.name())
                + " already exists, custom arguments not allowed"@,
    {
        match self {
            ProjectError::AlreadyExists(name) => String::from_str("project ").concat(
                debug_string(name.as_str()).as_str(),
            ).concat(" already exists, custom arguments not allowed"),
        }
    }
}

/// A project of a template.
#[derive(Debug)]
pub struct Project<'a> {
    template: &'a Template,
    name: &'a str,
    custom_args: Vec<String>,
    editor: Option<String>,
    shell: String,
    overwrite: bool,
}

/// Whether `name` asks for help in place of naming a project.
pub open spec fn asks_help(name: Seq<char>) -> bool {
    name == "-h"@ || name == "--help"@
}

/// What is to be done for a project that exists or does not, with or
/// without arguments for its commands, to be overwritten or not.
///
/// A project that exists is removed and made again where it is to be
/// overwritten; else it is opened, unless arguments were given. One that
/// does not exist is made and opened.
pub open spec fn planned(exists: bool, overwrite: bool, with_args: bool) -> Option<Plan> {
    if exists && overwrite {
        Some(Plan { remove: true, create: true, open: true })
    } else if exists {
        if with_args {
            None
        } else {
            Some(Plan { remove: false, create: false, open: true })
        }
    } else {
        Some(Plan { remove: false, create: true, open: true })
    }
}

/// Whether two strings hold the same text.
fn same(a: &str, b: &str) -> (r: bool)
    ensures
        r == (a@ == b@),
{
    a.to_owned() == b.to_owned()
}

impl<'a> Project<'a> {
    /// A project of the template `template` with the name `name`.
    pub fn new(
        template: &'a Template,
        name: &'a str,
        custom_args: Vec<String>,
        editor: Option<String>,
        shell: String,
        overwrite: bool,
    ) -> (r: Self)
        ensures
            r.template() == template,
            r.name() == name,
            r.custom_args() == custom_args,
            r.editor() == editor,
            r.shell() == shell,
            r.overwrite() == overwrite,
    {
        Self { template, name, custom_args, editor, shell, overwrite }
    }

    /// The template of the project.
    #[verifier::when_used_as_spec(spec_template)]
    pub fn template(&self) -> (r: &'a Template)
        ensures
            r == self.template(),
    {
        self.template
    }

    /// The template of the project.
    pub closed spec fn spec_template(&self) -> &'a Template {
        self.template
    }

    /// The name of the project.
    #[verifier::when_used_as_spec(spec_name)]
    pub fn name(&self) -> (r: &'a str)
        ensures
            r == self.name(),
    {
        self.name
    }

    /// The name of the project.
    pub closed spec fn spec_name(&self) -> &'a str {
        self.name
    }

    /// The arguments for the commands of the template.
    #[verifier::when_used_as_spec(spec_custom_args)]
    pub fn custom_args(&self) -> (r: &Vec<String>)
        ensures
            *r == self.custom_args(),
    {
        &self.custom_args
    }

    /// The arguments for the commands of the template.
    pub closed spec fn spec_custom_args(&self) -> &Vec<String> {
        &self.custom_args
    }

    /// The editor to open the project with.
    #[verifier::when_used_as_spec(spec_editor)]
    pub fn editor(&self) -> (r: &Option<String>)
        ensures
            *r == self.editor(),
    {
        &self.editor
    }

    /// The editor to open the project with.
    pub closed spec fn spec_editor(&self) -> &Option<String> {
        &self.editor
    }

    /// The shell to run the commands with.
    #[verifier::when_used_as_spec(spec_shell)]
    pub fn shell(&self) -> (r: &String)
        ensures
            *r == self.shell(),
    {
        &self.shell
    }

    /// The shell to run the commands with.
    pub closed spec fn spec_shell(&self) -> &String {
        &self.shell
    }

    /// Whether a project that exists is made again.
    #[verifier::when_used_as_spec(spec_overwrite)]
    pub fn overwrite(&self) -> (r: bool)
        ensures
            r == self.overwrite(),
    {
        self.overwrite
    }

    /// Whether a project that exists is made again.
    pub closed spec fn spec_overwrite(&self) -> bool {
        self.overwrite
    }

    /// Decides what is to be done when the project is opened or created,
    /// given whether its directory exists.
    ///
    /// Where the name asks for help, it is handed to the commands as an
    /// argument, the project has no name, and the commands alone are run.
    pub fn open_or_create(&mut self, exists: bool) -> (r: Result<Plan, ProjectError>)
        ensures
            final(self).template() == old(self).template(),
            final(self).editor() == old(self).editor(),
            final(self).shell() == old(self).shell(),
            final(self).overwrite() == old(self).overwrite(),
            asks_help(old(self).name()@) ==> {
                &&& r == Ok::<Plan, ProjectError>(Plan { remove: false, create: true, open: false })
                &&& final(self).name()@.len() == 0
                &&& texts_view(final(self).custom_args()@) == texts_view(
                    old(self).custom_args()@,
                ).push(old(self).name()@)
            },
            !asks_help(old(self).name()@) ==> {
                &&& final(self).name() == old(self).name()
                &&& final(self).custom_args() == old(self).custom_args()
                &&& match planned(
                    exists,
                    old(self).overwrite(),
                    old(self).custom_args()@.len() > 0,
                ) {
                    Some(plan) => r == Ok::<Plan, ProjectError>(plan),
                    None => r matches Err(error) && error.name() == old(self).name()@,
                }
            },
    {
        if same(self.name, "-h") || same(self.name, "--help") {
            let ghost before = texts_view(self.custom_args@);
            self.custom_args.push(self.name.to_owned());
            assert(texts_view(self.custom_args@) =~= before.push(self.name@));
            self.name = "";
            proof {
                reveal_strlit("");
            }
            return Ok(Plan { remove: false, create: true, open: false });
        }
        if exists && self.overwrite {
            Ok(Plan { remove: true, create: true, open: true })
        } else if exists {
            if !(self.custom_args.len() == 0) {
                Err(ProjectError::AlreadyExists(self.name.to_owned()))
            } else {
                Ok(Plan { remove: false, create: false, open: true })
            }
        } else {
            Ok(Plan { remove: false, create: true, open: true })
        }
    }

    /// The `clap` command for the arguments of the template, without the
    /// arguments: it has the template's name, its first token is an argument
    /// and no program name, and `clap` adds neither a help nor a version flag
    /// to it.
    pub fn get_cmd(&self) -> (r: clap::Command)
        ensures
            command_model(r) == Some(template_command(self.template()@.name, Seq::empty())),
    {
        get_cmd(self.template.name())
    }

    /// The commands that make the project: the commands of the template
    /// with the values of the user's arguments put in.
    pub fn commands(&self) -> (r: Result<Vec<String>, CommandsError>)
        ensures
            commands_as(
                r,
                self.template()@.name,
                self.template()@.commands,
                texts_view(self.custom_args()@),
            ),
    {
        final_commands(self.template, &self.custom_args)
    }
}

/// The commands of `template` with the values of the user's arguments
/// `custom_args` put in.
pub fn final_commands(template: &Template, custom_args: &Vec<String>) -> (r: Result<
    Vec<String>,
    CommandsError,
>)
    ensures
        commands_as(r, template@.name, template@.commands, texts_view(custom_args@)),
{
    let parsed = match template.commands() {
        Ok(parsed) => parsed,
        Err(e) => {
            return Err(CommandsError::Syntax(e));
        },
    };
    let schema = match ArgumentSchema::build(&parsed) {
        Ok(schema) => schema,
        Err(e) => {
            return Err(CommandsError::Schema(e));
        },
    };
    let values = match schema.resolve(template.name(), custom_args) {
        Ok(values) => values,
        Err(e) => {
            return Err(CommandsError::Resolution(e));
        },
    };
    let mut commands: Vec<String> = Vec::new();
    let mut i: usize = 0;
    while i < parsed.len()
        invariant
            i <= parsed.len(),
            commands.len() == i,
            forall|k: int|
                0 <= k < i ==> (#[trigger] commands[k])@ == substituted(
                    units_view(parsed[k]@),
                    values@,
                ),
        decreases parsed.len() - i,
    {
        commands.push(substitute(&parsed[i], &values));
        i += 1;
    }
    assert(texts_view(commands@) =~= substituted_all(commands_view(parsed@), values@));
    Ok(commands)
}

} // verus!
