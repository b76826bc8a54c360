//! The choice of the editor and of the shell.

use crate::commands_parser::text_view;
use crate::config::{Config, ConfigView, Template, TemplateView};
use vstd::prelude::*;
use vstd::string::*;

verus! {

/// The first of two optional values that is there.
pub open spec fn or<T>(first: Option<T>, second: Option<T>) -> Option<T> {
    match first {
        Some(_) => first,
        None => second,
    }
}

/// The editor to open a project with: the one given on the command line,
/// else the template's, else the configuration's, else the variable
/// `VISUAL`, else the variable `EDITOR`; none where that is empty.
pub open spec fn chosen_editor(
    config: ConfigView,
    template: TemplateView,
    given: Option<Seq<char>>,
    visual: Option<Seq<char>>,
    editor: Option<Seq<char>>,
) -> Option<Seq<char>> {
    match or(or(or(or(given, template.editor), config.editor), visual), editor) {
        Some(found) => if found.len() == 0 {
            None
        } else {
            Some(found)
        },
        None => None,
    }
}

/// The shell to run the commands with: the template's, else the
/// configuration's, else the variable `SHELL`, else `sh`.
pub open spec fn chosen_shell(
    config: ConfigView,
    template: TemplateView,
    shell: Option<Seq<char>>,
) -> Seq<char> {
    match or(or(template.shell, config.shell), shell) {
        Some(found) => found,
        None => "sh"@,
    }
}

/// A copy of the first of two optional strings that is there.
fn first_of(first: Option<&String>, second: Option<&String>) -> (r: Option<String>)
    ensures
        text_view(r) == or(ref_view(first), ref_view(second)),
{
    match first {
        Some(text) => Some(text.clone()),
        None => match second {
            Some(text) => Some(text.clone()),
            None => None,
        },
    }
}

/// The view of an optional reference to a string.
pub open spec fn ref_view(text: Option<&String>) -> Option<Seq<char>> {
    match text {
        Some(t) => Some(t@),
        None => None,
    }
}

/// Chooses the editor to open a project with.
///
/// `given` is the editor of the command line, `visual` and `editor` are the
/// values of the variables `VISUAL` and `EDITOR`.
pub fn get_editor(
    config: &Config,
    template: &Template,
    given: Option<&String>,
    visual: Option<&String>,
    editor: Option<&String>,
) -> (r: Option<String>)
    ensures
        text_view(r) == chosen_editor(
            config@,
            template@,
            ref_view(given),
            ref_view(visual),
            ref_view(editor),
        ),
{
    let found = first_of(given, template.editor());
    let found = first_of(found.as_ref(), config.editor());
    let found = first_of(found.as_ref(), visual);
    let found = first_of(found.as_ref(), editor);
    // If editor is "", set editor to None
    match found {
        Some(found) => if found.as_str().is_empty() {
            None
        } else {
            Some(found)
        },
        None => None,
    }
}

/// Chooses the shell to run the commands with.
///
/// `shell` is the value of the variable `SHELL`.
pub fn get_shell(config: &Config, template: &Template, shell: Option<&String>) -> (r: String)
    ensures
        r@ == chosen_shell(config@, template@, ref_view(shell)),
{
    let found = first_of(template.shell(), config.shell());
    let found = first_of(found.as_ref(), shell);
    match found {
        Some(found) => found,
        None => String::from_str("sh"),
    }
}

} // verus!
