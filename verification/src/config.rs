//! The configuration: default editor and shell, and the templates by name.

use crate::arguments::texts_view;
use crate::commands_parser::{compiled, copy_text, parse, text_view, CompiledCommand, SyntaxError};
use crate::grammar::{spec_parse, SyntaxErrorView, UnitView};
use crate::registry::commands_view;
use vstd::prelude::*;
use vstd::string::*;

verus! {

/// A template: where its projects go, and how one is made.
#[derive(Debug, PartialEq, Eq)]
pub struct Template {
    /// The name of the template; empty where the configuration gives none.
    pub name: String,
    /// The directory where new projects with this template will be created.
    pub projects_dir: String,
    /// The editor to execute when creating or opening projects with this
    /// template.
    pub editor: Option<String>,
    /// The shell to use for executing commands when creating projects with
    /// this template.
    pub shell: Option<String>,
    /// The commands to execute when creating a project with this template.
    pub commands: Vec<String>,
}

/// What a template holds, as mathematical values.
pub struct TemplateView {
    pub name: Seq<char>,
    pub projects_dir: Seq<char>,
    pub editor: Option<Seq<char>>,
    pub shell: Option<Seq<char>>,
    pub commands: Seq<Seq<char>>,
}

impl View for Template {
    type V = TemplateView;

    open spec fn view(&self) -> TemplateView {
        TemplateView {
            name: self.name@,
            projects_dir: self.projects_dir@,
            editor: text_view(self.editor),
            shell: text_view(self.shell),
            commands: texts_view(self.commands@),
        }
    }
}

/// How the configuration gives a template.
///
/// ```toml
/// # Allows having both:
/// [templates]
/// example1 = "/path/to/example1/"
///
/// # and:
/// [templates.example2]
/// projects_dir = "/path/to/example2/"
/// ```
#[derive(Debug, PartialEq, Eq)]
pub enum TemplateConfig {
    /// Contains projects_dir
    OnlyProjectsDir(String),
    Complete(Template),
}

/// How the configuration gives a template, as mathematical values.
pub enum TemplateConfigView {
    OnlyProjectsDir(Seq<char>),
    Complete(TemplateView),
}

impl View for TemplateConfig {
    type V = TemplateConfigView;

    open spec fn view(&self) -> TemplateConfigView {
        match self {
            TemplateConfig::OnlyProjectsDir(projects_dir) => TemplateConfigView::OnlyProjectsDir(
                projects_dir@,
            ),
            TemplateConfig::Complete(template) => TemplateConfigView::Complete(template@),
        }
    }
}

/// The template with nothing but the directory of its projects.
pub open spec fn bare_template(projects_dir: Seq<char>) -> TemplateView {
    TemplateView {
        name: Seq::empty(),
        projects_dir,
        editor: None,
        shell: None,
        commands: Seq::empty(),
    }
}

/// The template that the configuration gives.
pub open spec fn configured_template(config: TemplateConfigView) -> TemplateView {
    match config {
        TemplateConfigView::OnlyProjectsDir(projects_dir) => bare_template(projects_dir),
        TemplateConfigView::Complete(template) => template,
    }
}

/// The compiled commands of a template, or the error of the first that does
/// not compile.
pub open spec fn compile_all(commands: Seq<Seq<char>>) -> Result<
    Seq<Seq<UnitView>>,
    SyntaxErrorView,
>
    decreases commands.len(),
{
    if commands.len() == 0 {
        Ok(Seq::empty())
    } else {
        match compile_all(commands.drop_last()) {
            Ok(done) => match spec_parse(commands.last()) {
                Ok(units) => Ok(done.push(units)),
                Err(e) => Err(e),
            },
            Err(e) => Err(e),
        }
    }
}

/// A copy of a list of strings.
fn copy_texts(texts: &Vec<String>) -> (r: Vec<String>)
    ensures
        r@ == texts@,
{
    let mut copy: Vec<String> = Vec::new();
    let mut i: usize = 0;
    while i < texts.len()
        invariant
            i <= texts.len(),
            copy@ == texts@.take(i as int),
        decreases texts.len() - i,
    {
        copy.push(texts[i].clone());
        assert(copy@ =~= texts@.take(i + 1));
        i += 1;
    }
    assert(texts@.take(texts.len() as int) =~= texts@);
    copy
}

impl Clone for Template {
    fn clone(&self) -> (r: Template)
        ensures
            r@ == self@,
    {
        Template {
            name: self.name.clone(),
            projects_dir: self.projects_dir.clone(),
            editor: copy_text(&self.editor),
            shell: copy_text(&self.shell),
            commands: copy_texts(&self.commands),
        }
    }
}

impl Clone for TemplateConfig {
    fn clone(&self) -> (r: TemplateConfig)
        ensures
            r@ == self@,
    {
        match self {
            TemplateConfig::OnlyProjectsDir(projects_dir) => TemplateConfig::OnlyProjectsDir(
                projects_dir.clone(),
            ),
            TemplateConfig::Complete(template) => TemplateConfig::Complete(template.clone()),
        }
    }
}

impl Template {
    /// Creates a new Template only with projects_dir
    pub fn new(projects_dir: &str) -> (r: Template)
        ensures
            r@ == bare_template(projects_dir@),
    {
        let template = Template {
            name: String::new(),
            projects_dir: projects_dir.to_owned(),
            editor: None,
            shell: None,
            commands: Vec::new(),
        };
        assert(template@.commands =~= Seq::empty());
        template
    }

    /// The name of the template.
    pub fn name(&self) -> (r: &str)
        ensures
            r@ == self@.name,
    {
        self.name.as_str()
    }

    /// The directory where the projects of the template go.
    pub fn projects_dir(&self) -> (r: &str)
        ensures
            r@ == self@.projects_dir,
    {
        self.projects_dir.as_str()
    }

    /// The editor of the template, if it has one.
    pub fn editor(&self) -> (r: Option<&String>)
        ensures
            match r {
                Some(editor) => self.editor == Some(*editor),
                None => self.editor is None,
            },
    {
        self.editor.as_ref()
    }

    /// The shell of the template, if it has one.
    pub fn shell(&self) -> (r: Option<&String>)
        ensures
            match r {
                Some(shell) => self.shell == Some(*shell),
                None => self.shell is None,
            },
    {
        self.shell.as_ref()
    }

    /// Returns the commands in this template after parsing them
    ///
    /// Either every command compiles, or the error of the first that does not
    /// is returned.
    pub fn commands(&self) -> (r: Result<Vec<CompiledCommand>, SyntaxError>)
        ensures
            match (r, compile_all(self@.commands)) {
                (Ok(commands), Ok(v)) => commands_view(commands@) == v,
                (Err(e), Err(v)) => e@ == v,
                _ => false,
            },
    {
        let mut commands: Vec<CompiledCommand> = Vec::new();
        let mut i: usize = 0;
        let ghost texts = texts_view(self.commands@);
        assert(texts.take(0) =~= Seq::empty());
        assert(commands_view(commands@) =~= Seq::empty());
        while i < self.commands.len()
            invariant
                i <= self.commands.len(),
                texts == texts_view(self.commands@),
                compile_all(texts.take(i as int)) == Ok::<Seq<Seq<UnitView>>, SyntaxErrorView>(
                    commands_view(commands@),
                ),
            decreases self.commands.len() - i,
        {
            proof {
                assert(texts.take(i + 1).drop_last() =~= texts.take(i as int));
                assert(texts.take(i + 1).last() == self.commands[i as int]@);
            }
            let ghost done = commands_view(commands@);
            match parse(self.commands[i].as_str()) {
                Ok(units) => {
                    commands.push(units);
                    assert(commands_view(commands@) =~= done.push(spec_parse(texts[i as int])->Ok_0));
                },
                Err(e) => {
                    proof {
                        lemma_compile_all_fails(texts, i + 1);
                    }
                    return Err(e);
                },
            }
            i += 1;
        }
        assert(texts.take(self.commands.len() as int) =~= texts);
        Ok(commands)
    }
}

impl<'a> From<&'a TemplateConfig> for Template {
    /// The template that the configuration gives: a copy of a complete
    /// one, else one with nothing but the directory of its projects.
    fn from(template: &'a TemplateConfig) -> (r: Template)
        ensures
            r@ == configured_template(template@),
    {
        match template {
            TemplateConfig::OnlyProjectsDir(projects_dir) => Template::new(projects_dir.as_str()),
            TemplateConfig::Complete(template) => template.clone(),
        }
    }
}

impl<'a> vstd::std_specs::convert::FromSpecImpl<&'a TemplateConfig> for Template {
    open spec fn obeys_from_spec() -> bool {
        false
    }

    open spec fn from_spec(template: &'a TemplateConfig) -> Template {
        arbitrary()
    }
}

/// Where the first `end` commands do not all compile, the whole list fails
/// with the same error.
pub proof fn lemma_compile_all_fails(commands: Seq<Seq<char>>, end: int)
    requires
        0 <= end <= commands.len(),
        compile_all(commands.take(end)) is Err,
    ensures
        compile_all(commands) == compile_all(commands.take(end)),
    decreases commands.len() - end,
{
    if end == commands.len() {
        assert(commands.take(end) =~= commands);
    } else {
        assert(commands.take(end + 1).drop_last() =~= commands.take(end));
        lemma_compile_all_fails(commands, end + 1);
    }
}

/// Configuration options
///
/// The templates are kept in the order in which they were first added; no
/// two of them have the same name.
#[derive(Debug, PartialEq, Eq)]
pub struct Config {
    /// Default editor to execute when creating or opening projects
    editor: Option<String>,
    /// Default shell to use for executing commands when creating projects
    shell: Option<String>,
    /// Templates to use for creating new projects
    templates: Vec<(String, TemplateConfig)>,
}

/// What the configuration holds, as mathematical values.
pub struct ConfigView {
    pub editor: Option<Seq<char>>,
    pub shell: Option<Seq<char>>,
    pub templates: Seq<(Seq<char>, TemplateConfigView)>,
}

/// The views of named templates, in order.
pub open spec fn entries_view(entries: Seq<(String, TemplateConfig)>) -> Seq<
    (Seq<char>, TemplateConfigView),
> {
    entries.map_values(|entry: (String, TemplateConfig)| (entry.0@, entry.1@))
}

/// No two of `entries` have the same name.
pub open spec fn distinct_entries(entries: Seq<(Seq<char>, TemplateConfigView)>) -> bool {
    forall|i: int, j: int|
        0 <= i < j < entries.len() ==> (#[trigger] entries[i]).0 != (#[trigger] entries[j]).0
}

/// The place of the template `name` among `entries`, if it is there.
pub open spec fn position(entries: Seq<(Seq<char>, TemplateConfigView)>, name: Seq<char>) -> Option<
    int,
> {
    if exists|i: int| 0 <= i < entries.len() && (#[trigger] entries[i]).0 == name {
        Some(choose|i: int| 0 <= i < entries.len() && (#[trigger] entries[i]).0 == name)
    } else {
        None
    }
}

/// The configuration that is written where none exists: the editor `vi`,
/// the shell `sh` and one template, `example`.
pub open spec fn default_config() -> ConfigView {
    ConfigView {
        editor: Some("vi"@),
        shell: Some("sh"@),
        templates: seq![
            (
                "example"@,
                TemplateConfigView::Complete(
                    TemplateView {
                        name: "example"@,
                        projects_dir: "/path/to/example/"@,
                        editor: Some("code"@),
                        shell: Some("bash"@),
                        commands: seq!["echo hello"@, "echo $PWD"@, "echo $QK_PROJECT_NAME"@],
                    },
                ),
            ),
        ],
    }
}

impl View for Config {
    type V = ConfigView;

    closed spec fn view(&self) -> ConfigView {
        ConfigView {
            editor: text_view(self.editor),
            shell: text_view(self.shell),
            templates: entries_view(self.templates@),
        }
    }
}

impl Config {
    #[verifier::type_invariant]
    spec fn well_formed(self) -> bool {
        distinct_entries(entries_view(self.templates@))
    }

    /// A configuration without templates.
    pub fn new(editor: Option<String>, shell: Option<String>) -> (r: Config)
        ensures
            r@ == (ConfigView {
                editor: text_view(editor),
                shell: text_view(shell),
                templates: Seq::empty(),
            }),
    {
        let config = Config { editor, shell, templates: Vec::new() };
        assert(config@.templates =~= Seq::empty());
        config
    }

    /// The place of the template `name`, if it is there.
    fn find(&self, name: &str) -> (r: Option<usize>)
        ensures
            match r {
                Some(i) => i < self@.templates.len() && self@.templates[i as int].0 == name@,
                None => forall|i: int|
                    0 <= i < self@.templates.len() ==> (#[trigger] self@.templates[i]).0 != name@,
            },
    {
        let key = name.to_owned();
        let mut i: usize = 0;
        while i < self.templates.len()
            invariant
                key@ == name@,
                i <= self.templates.len(),
                forall|k: int| 0 <= k < i ==> (#[trigger] self@.templates[k]).0 != name@,
            decreases self.templates.len() - i,
        {
            if self.templates[i].0 == key {
                assert(self@.templates[i as int].0 == self.templates[i as int].0@);
                return Some(i);
            }
            assert(self@.templates[i as int].0 == self.templates[i as int].0@);
            i += 1;
        }
        None
    }

    /// The configuration with the template `name` added: in place of one
    /// of that name if there is one, else after the others.
    pub fn with_template(self, name: &str, template: TemplateConfig) -> (r: Config)
        ensures
            r@.editor == self@.editor,
            r@.shell == self@.shell,
            r@.templates == match position(self@.templates, name@) {
                Some(i) => self@.templates.update(i, (name@, template@)),
                None => self@.templates.push((name@, template@)),
            },
    {
        proof {
            use_type_invariant(&self);
        }
        let ghost before = self@.templates;
        let found = self.find(name);
        let Config { editor, shell, mut templates } = self;
        match found {
            Some(i) => {
                assert(position(before, name@) == Some(i as int));
                templates.set(i, (name.to_owned(), template));
                assert(entries_view(templates@) =~= before.update(i as int, (name@, template@)));
            },
            None => {
                templates.push((name.to_owned(), template));
                assert(entries_view(templates@) =~= before.push((name@, template@)));
            },
        }
        Config { editor, shell, templates }
    }

    /// The default editor, if there is one.
    pub fn editor(&self) -> (r: Option<&String>)
        ensures
            match r {
                Some(editor) => self@.editor == Some(editor@),
                None => self@.editor is None,
            },
    {
        self.editor.as_ref()
    }

    /// The default shell, if there is one.
    pub fn shell(&self) -> (r: Option<&String>)
        ensures
            match r {
                Some(shell) => self@.shell == Some(shell@),
                None => self@.shell is None,
            },
    {
        self.shell.as_ref()
    }

    /// The templates as the configuration gives them, each with its name,
    /// in the order of the configuration.
    pub fn entries(&self) -> (r: &Vec<(String, TemplateConfig)>)
        ensures
            entries_view(r@) == self@.templates,
            distinct_entries(self@.templates),
    {
        proof {
            use_type_invariant(self);
        }
        &self.templates
    }

    /// The template of the name `template`, if there is one; no two
    /// templates have the same name.
    pub fn find_template(&self, template: &str) -> (r: Option<Template>)
        ensures
            distinct_entries(self@.templates),
            match r {
                Some(found) => exists|i: int|
                    0 <= i < self@.templates.len() && (#[trigger] self@.templates[i]).0
                        == template@ && found@ == configured_template(self@.templates[i].1),
                None => forall|i: int|
                    0 <= i < self@.templates.len() ==> (#[trigger] self@.templates[i]).0
                        != template@,
            },
    {
        proof {
            use_type_invariant(self);
        }
        match self.find(template) {
            Some(i) => {
                assert(self@.templates[i as int].1 == self.templates[i as int].1@);
                Some(Template::from(&self.templates[i].1))
            },
            None => None,
        }
    }

    /// Returns the templates in the config
    ///
    /// Each with its name, in the order of the configuration; no two have
    /// the same name.
    pub fn templates(&self) -> (r: Vec<(String, Template)>)
        ensures
            distinct_entries(self@.templates),
            r.len() == self@.templates.len(),
            forall|i: int|
                0 <= i < r.len() ==> (#[trigger] r[i]).0@ == self@.templates[i].0 && r[i].1@
                    == configured_template(self@.templates[i].1),
    {
        proof {
            use_type_invariant(self);
        }
        let mut templates: Vec<(String, Template)> = Vec::new();
        let mut i: usize = 0;
        while i < self.templates.len()
            invariant
                i <= self.templates.len(),
                templates.len() == i,
                forall|k: int|
                    0 <= k < i ==> (#[trigger] templates[k]).0@ == self@.templates[k].0
                        && templates[k].1@ == configured_template(self@.templates[k].1),
            decreases self.templates.len() - i,
        {
            assert(self@.templates[i as int] == (
                self.templates[i as int].0@,
                self.templates[i as int].1@,
            ));
            templates.push(
                (self.templates[i].0.clone(), Template::from(&self.templates[i].1)),
            );
            i += 1;
        }
        templates
    }
}

impl Default for Config {
    fn default() -> (r: Config)
        ensures
            r@ == default_config(),
    {
        let mut commands: Vec<String> = Vec::new();
        commands.push(String::from_str("echo hello"));
        commands.push(String::from_str("echo $PWD"));
        commands.push(String::from_str("echo $QK_PROJECT_NAME"));
        let template = Template {
            projects_dir: String::from_str("/path/to/example/"),
            editor: Some(String::from_str("code")),
            shell: Some(String::from_str("bash")),
            commands,
            name: String::from_str("example"),
        };
        assert(template@.commands =~= seq!["echo hello"@, "echo $PWD"@, "echo $QK_PROJECT_NAME"@]);
        let mut templates: Vec<(String, TemplateConfig)> = Vec::new();
        templates.push((String::from_str("example"), TemplateConfig::Complete(template)));
        let config = Config {
            editor: Some(String::from_str("vi")),
            shell: Some(String::from_str("sh")),
            templates,
        };
        assert(config@.templates =~= default_config().templates);
        config
    }
}


} // verus!
