use qk::commands_parser::{parse, ClapFlag, ClapOption, ClapPositional, Unit};
use qk::config::Template;
use qk::project::{final_commands, CommandsError, Project};
use qk::registry::placeholders;
use qk::arguments::{get_cmd, ResolutionError, ResolutionErrorKind};
use qk::schema::{ArgumentSchema, SchemaError};
use qk::resolution::collect_values;
use qk::values::{substitute, ResolvedValues};

fn template(commands: &[&str]) -> Template {
    Template {
        name: String::new(),
        projects_dir: String::from("/projects"),
        editor: None,
        shell: None,
        commands: commands.iter().map(|c| c.to_string()).collect(),
    }
}

fn run(commands: &[&str], custom_args: &[&str]) -> Result<Vec<String>, CommandsError> {
    let custom_args = custom_args.iter().map(|a| a.to_string()).collect();
    final_commands(&template(commands), &custom_args)
}

fn rejected(commands: &[&str], custom_args: &[&str]) -> ResolutionError {
    match run(commands, custom_args) {
        Err(CommandsError::Resolution(error)) => error,
        other => panic!("no resolution error: {:?}", other),
    }
}

fn schema_error(commands: &[&str]) -> SchemaError {
    match run(commands, &[]) {
        Err(CommandsError::Schema(error)) => error,
        other => panic!("no schema error: {:?}", other),
    }
}

const MAKE_FILE: [&str; 2] = [
    "mkdir $QK_PROJECT_DIR",
    "echo #{2:text!} > $QK_PROJECT_DIR/#{1:filename!}",
];

#[test]
fn positional_values_are_put_in_by_their_index() {
    assert_eq!(
        run(&MAKE_FILE, &["bye.txt", "bye"]).unwrap(),
        vec![
            "mkdir $QK_PROJECT_DIR".to_string(),
            "echo bye > $QK_PROJECT_DIR/bye.txt".to_string()
        ]
    );
}

#[test]
fn a_missing_required_positional_is_named() {
    let error = rejected(&MAKE_FILE, &["bye.txt"]);
    assert_eq!(error.kind, ResolutionErrorKind::MissingRequiredArgument);
    assert!(error.message.contains("required arguments were not provided"));
    assert!(error.message.contains("<text>"));
    assert!(!error.message.contains("  <filename>\n"));
    assert!(error.message.contains("Usage: <filename> <text>"));
    assert_eq!(
        error.message,
        "error: the following required arguments were not provided:\n  <text>\n\n\
         Usage: <filename> <text>\n"
    );
    assert_eq!(error.to_string(), error.message);
}

#[test]
fn a_flag_stands_for_itself_where_it_is_given() {
    assert_eq!(run(&["#{flag?}"], &["--flag"]).unwrap(), vec!["--flag".to_string()]);
    assert_eq!(run(&["#{flag?}"], &[]).unwrap(), vec!["".to_string()]);
}

#[test]
fn flags_are_written_with_their_name_whatever_was_typed() {
    assert_eq!(
        run(
            &["echo flag: #{flag?} other flag: #{other,o?}"],
            &["--flag", "-o"]
        )
        .unwrap(),
        vec!["echo flag: --flag other flag: --other".to_string()]
    );
    assert_eq!(run(&["ls #{,a?}"], &["-a"]).unwrap(), vec!["ls -a".to_string()]);
}

#[test]
fn an_optional_positional_that_is_absent_leaves_nothing() {
    assert_eq!(
        run(
            &[
                "echo hello #{1:name}",
                "echo bye #{1:name}",
                "echo hey #{2:lastname}"
            ],
            &[]
        )
        .unwrap(),
        vec![
            "echo hello ".to_string(),
            "echo bye ".to_string(),
            "echo hey ".to_string()
        ]
    );
    assert_eq!(
        run(&["echo hello #{1:name}"], &["John"]).unwrap(),
        vec!["echo hello John".to_string()]
    );
}

#[test]
fn an_empty_value_is_taken_where_it_is_allowed() {
    assert_eq!(
        run(&["echo #{1:name!*} #{2:lastname!*}"], &["", "Doe"]).unwrap(),
        vec!["echo  Doe".to_string()]
    );
}

#[test]
fn an_empty_value_is_refused_where_it_is_not_allowed() {
    let error = rejected(&["echo #{1:name!*} #{2:lastname!}"], &["John", ""]);
    assert_eq!(error.kind, ResolutionErrorKind::InvalidValue);
    assert_eq!(
        error.message,
        "error: a value is required for '<lastname>' but none was supplied\n"
    );
}

#[test]
fn an_option_takes_its_value_after_its_long_or_short_name() {
    assert_eq!(
        run(&["echo #{string,s!}"], &["--string", "hello"]).unwrap(),
        vec!["echo hello".to_string()]
    );
    assert_eq!(
        run(&["echo #{string,s!}"], &["-s", "hello"]).unwrap(),
        vec!["echo hello".to_string()]
    );
    assert_eq!(run(&["echo #{,s}"], &["-s", "hey"]).unwrap(), vec!["echo hey".to_string()]);
    assert_eq!(run(&["echo #{string,s}"], &[]).unwrap(), vec!["echo ".to_string()]);
}

#[test]
fn a_missing_required_option_is_named() {
    let error = rejected(&["echo #{string,s!}"], &[]);
    assert_eq!(error.kind, ResolutionErrorKind::MissingRequiredArgument);
    assert_eq!(
        error.message,
        "error: the following required arguments were not provided:\n  --string <string>\n\n\
         Usage: --string <string>\n"
    );
}

#[test]
fn an_option_is_given_once() {
    let error = rejected(&["echo #{name}"], &["--name", "a", "--name", "b"]);
    assert_eq!(error.kind, ResolutionErrorKind::Other);
    assert_eq!(
        error.message,
        "error: the argument '--name <name>' cannot be used multiple times\n\nUsage: [OPTIONS]\n"
    );
}

#[test]
fn an_option_needs_its_value() {
    let error = rejected(&["echo #{name}"], &["--name"]);
    assert_eq!(error.kind, ResolutionErrorKind::InvalidValue);
    assert_eq!(
        error.message,
        "error: a value is required for '--name <name>' but none was supplied\n"
    );
    assert_eq!(rejected(&["echo #{name}"], &["--name="]).kind, ResolutionErrorKind::InvalidValue);
    assert_eq!(run(&["echo #{name*}"], &["--name="]).unwrap(), vec!["echo ".to_string()]);
    assert_eq!(run(&["echo #{name}"], &["--name=x"]).unwrap(), vec!["echo x".to_string()]);
}

#[test]
fn what_the_template_does_not_ask_for_is_refused() {
    let error = rejected(&["echo #{name}"], &["--other"]);
    assert_eq!(error.kind, ResolutionErrorKind::UnknownArgument);
    assert_eq!(
        error.message,
        "error: unexpected argument '--other' found\n\nUsage: [OPTIONS]\n"
    );
    let error = rejected(&["echo #{1:name}"], &["one", "two"]);
    assert_eq!(error.kind, ResolutionErrorKind::UnknownArgument);
    let error = rejected(&["echo hello"], &["--help"]);
    assert_eq!(error.kind, ResolutionErrorKind::UnknownArgument);
    let error = rejected(&["echo hello"], &["--version"]);
    assert_eq!(error.kind, ResolutionErrorKind::UnknownArgument);
}

#[test]
fn after_two_hyphens_everything_is_positional() {
    assert_eq!(
        run(&["echo #{1:value}"], &["--", "--value"]).unwrap(),
        vec!["echo --value".to_string()]
    );
}

#[test]
fn the_first_token_is_an_argument_and_no_program_name() {
    assert_eq!(
        run(&["echo #{1:first} #{2:second}"], &["a", "b"]).unwrap(),
        vec!["echo a b".to_string()]
    );
}

#[test]
fn the_same_placeholder_in_two_commands_is_registered_once() {
    let commands = vec![
        parse("echo #{name}").unwrap(),
        parse("cat #{name} #{other?}").unwrap(),
    ];
    let name = Unit::Option(ClapOption {
        name: "name".to_string(),
        long: Some("name".to_string()),
        short: None,
        allow_empty_values: false,
        required: false,
    });
    let other = Unit::Flag(ClapFlag {
        name: "other".to_string(),
        long: Some("other".to_string()),
        short: None,
    });
    assert_eq!(placeholders(&commands), vec![name.clone(), other.clone()]);
    let schema = ArgumentSchema::build(&commands).unwrap();
    assert_eq!(schema.units(), &vec![name, other]);
    assert_eq!(schema.arguments().len(), 2);

    assert_eq!(
        run(&["echo #{name}", "cat #{name}"], &["--name", "x"]).unwrap(),
        vec!["echo x".to_string(), "cat x".to_string()]
    );
}

#[test]
fn one_name_with_different_modifiers_is_a_duplicate() {
    assert_eq!(
        schema_error(&["echo #{x}", "echo #{x!}"]),
        SchemaError::DuplicateName("x".to_string())
    );
    assert_eq!(
        schema_error(&["echo #{x} #{1:x}"]),
        SchemaError::DuplicateName("x".to_string())
    );
    assert_eq!(
        schema_error(&["echo #{x}", "echo #{x!}"]).to_string(),
        "duplicate argument name: x"
    );
}

#[test]
fn a_duplicate_name_is_reported_before_anything_else() {
    assert_eq!(
        schema_error(&["echo #{?} #{3:x} #{x}"]),
        SchemaError::DuplicateName("x".to_string())
    );
}

#[test]
fn names_that_clap_does_not_take_are_refused() {
    assert_eq!(schema_error(&["echo #{?}"]), SchemaError::UnnamedFlag);
    assert_eq!(
        schema_error(&["echo #{-x}"]),
        SchemaError::InvalidLong("-x".to_string())
    );
    assert_eq!(schema_error(&["echo #{,-}"]), SchemaError::InvalidShort('-'));
    assert_eq!(
        schema_error(&["echo #{name,n} #{other,n}"]),
        SchemaError::DuplicateShort('n')
    );
    assert_eq!(
        schema_error(&["echo #{?}"]).to_string(),
        "a flag needs a long or a short name"
    );
    assert_eq!(
        schema_error(&["echo #{-x}"]).to_string(),
        "invalid long name: -x"
    );
    assert_eq!(
        schema_error(&["echo #{,-}"]).to_string(),
        "the short name of an argument cannot be `-`"
    );
    assert_eq!(
        schema_error(&["echo #{name,n} #{other,n}"]).to_string(),
        "two arguments have the same short name"
    );
}

#[test]
fn two_placeholders_cannot_share_a_long_name() {
    let commands = vec![vec![
        Unit::Option(ClapOption {
            name: "a".to_string(),
            long: Some("same".to_string()),
            short: None,
            allow_empty_values: false,
            required: false,
        }),
        Unit::Flag(ClapFlag {
            name: "b".to_string(),
            long: Some("same".to_string()),
            short: None,
        }),
    ]];
    let error = ArgumentSchema::build(&commands).err().unwrap();
    assert_eq!(error, SchemaError::DuplicateLong("same".to_string()));
    assert_eq!(error.to_string(), "duplicate long name: same");
}

#[test]
fn positional_placeholders_are_numbered_from_one_without_gaps() {
    assert_eq!(schema_error(&["echo #{2:a}"]), SchemaError::IndexOutOfRange(2));
    let zero = vec![vec![Unit::Positional(ClapPositional {
        name: "a".to_string(),
        allow_empty_values: false,
        required: false,
        index: 0,
    })]];
    assert_eq!(
        ArgumentSchema::build(&zero).err().unwrap(),
        SchemaError::IndexOutOfRange(0)
    );
    match run(&["echo #{0:a}"], &[]) {
        Err(CommandsError::Syntax(error)) => {
            assert_eq!(error.to_string(), "index 0 not allowed in positional arguments")
        }
        other => panic!("no syntax error: {:?}", other),
    }
    assert_eq!(
        schema_error(&["echo #{1:a} #{3:b}"]),
        SchemaError::IndexOutOfRange(3)
    );
    assert_eq!(
        schema_error(&["echo #{1:a} #{1:b}"]),
        SchemaError::DuplicateIndex(1)
    );
    assert_eq!(
        schema_error(&["echo #{1:a} #{2:b!}"]),
        SchemaError::OptionalBeforeRequired("a".to_string())
    );
    assert_eq!(
        schema_error(&["echo #{2:b!} #{1:a}"]),
        SchemaError::OptionalBeforeRequired("a".to_string())
    );
    assert_eq!(
        schema_error(&["echo #{2:a}"]).to_string(),
        "positional arguments must be numbered from 1 on without gaps"
    );
    assert_eq!(
        schema_error(&["echo #{1:a} #{1:b}"]).to_string(),
        "two positional arguments have the same index"
    );
    assert_eq!(
        schema_error(&["echo #{1:a} #{2:b!}"]).to_string(),
        "optional positional argument before a required one: a"
    );
}

#[test]
fn a_placeholder_without_any_name_takes_the_first_place() {
    assert_eq!(run(&["echo #{}"], &["x"]).unwrap(), vec!["echo x".to_string()]);
    assert_eq!(run(&["echo #{}"], &[]).unwrap(), vec!["echo ".to_string()]);
    assert_eq!(
        schema_error(&["echo #{} #{1:a}"]),
        SchemaError::DuplicateIndex(1)
    );
    assert_eq!(
        run(&["echo #{} #{2:a}"], &["x", "y"]).unwrap(),
        vec!["echo x y".to_string()]
    );
}

#[test]
fn an_error_in_a_command_comes_before_the_arguments_are_read() {
    let result = run(&["echo #{x}", "echo #{a?*}"], &["--unknown"]);
    match result {
        Err(CommandsError::Syntax(error)) => {
            assert_eq!(error.to_string(), "incompatible symbols: `*` and `?`")
        }
        other => panic!("no syntax error: {:?}", other),
    }
    let result = run(&["echo #{x}", "echo #{a?*}"], &["--unknown"]);
    assert_eq!(
        result.unwrap_err().to_string(),
        "incompatible symbols: `*` and `?`"
    );
}

#[test]
fn the_clap_arguments_hold_what_the_placeholders_say() {
    let units = parse("#{1:file!} #{out,o*} #{force,f?} text").unwrap();
    let args = Unit::to_clap_args(&units);
    assert_eq!(args.len(), 3);

    assert_eq!(args[0].get_id().as_str(), "file");
    assert_eq!(args[0].get_index(), Some(1));
    assert!(args[0].is_required_set());
    assert!(args[0].is_positional());
    assert!(matches!(args[0].get_action(), clap::ArgAction::Set));

    assert_eq!(args[1].get_id().as_str(), "out");
    assert_eq!(args[1].get_long(), Some("out"));
    assert_eq!(args[1].get_short(), Some('o'));
    assert_eq!(args[1].get_index(), None);
    assert!(!args[1].is_required_set());
    assert!(matches!(args[1].get_action(), clap::ArgAction::Set));

    assert_eq!(args[2].get_id().as_str(), "force");
    assert_eq!(args[2].get_long(), Some("force"));
    assert_eq!(args[2].get_short(), Some('f'));
    assert!(matches!(args[2].get_action(), clap::ArgAction::SetTrue));
}

#[test]
fn the_arguments_hold_what_the_placeholders_say() {
    let units = parse("#{1:file!} #{out,o*} #{force,f?} text").unwrap();
    let arguments = Unit::to_arguments(&units);
    assert_eq!(arguments.len(), 3);
    assert_eq!(arguments[0].id, "file");
    assert_eq!(arguments[0].index, Some(1));
    assert!(arguments[0].required && arguments[0].non_empty && !arguments[0].switch);
    assert_eq!(arguments[0].long, None);
    assert_eq!(arguments[0].short, None);
    assert_eq!(arguments[1].id, "out");
    assert_eq!(arguments[1].long, Some("out".to_string()));
    assert_eq!(arguments[1].short, Some('o'));
    assert!(!arguments[1].required && !arguments[1].non_empty && !arguments[1].switch);
    assert_eq!(arguments[2].id, "force");
    assert!(arguments[2].switch && !arguments[2].required && !arguments[2].non_empty);
    assert!(Unit::Text("x".to_string()).to_argument().is_none());
}

#[test]
fn values_are_substituted_in_the_order_of_the_units() {
    let command = parse("cp #{2:to} #{1:from} #{verbose,v?}#{force?} \\#{x}").unwrap();
    let mut values = ResolvedValues::new();
    values.set_value("from", "a");
    values.set_value("to", "b");
    values.set_flag("verbose");
    assert_eq!(substitute(&command, &values), "cp b a --verbose #{x}");

    values.set_value("to", "c");
    assert_eq!(values.value("to"), Some(&"c".to_string()));
    assert_eq!(values.value("missing"), None);
    assert!(values.flag("verbose"));
    assert!(!values.flag("force"));
    assert_eq!(substitute(&command, &values), "cp c a --verbose #{x}");
    assert_eq!(substitute(&command, &ResolvedValues::new()), "cp    #{x}");
}

#[test]
fn each_unit_stands_for_its_value() {
    let mut values = ResolvedValues::new();
    values.set_value("name", "value");
    values.set_flag("long");
    values.set_flag("s");
    let text = Unit::Text("plain".to_string());
    let positional = Unit::Positional(ClapPositional {
        name: "name".to_string(),
        allow_empty_values: false,
        required: true,
        index: 1,
    });
    let option = Unit::Option(ClapOption {
        name: "absent".to_string(),
        long: Some("absent".to_string()),
        short: None,
        allow_empty_values: false,
        required: false,
    });
    let long = Unit::Flag(ClapFlag {
        name: "long".to_string(),
        long: Some("long".to_string()),
        short: Some('l'),
    });
    let short = Unit::Flag(ClapFlag { name: "s".to_string(), long: None, short: Some('s') });
    let unset = Unit::Flag(ClapFlag {
        name: "unset".to_string(),
        long: Some("unset".to_string()),
        short: None,
    });
    assert_eq!(text.to_value(&values), Some("plain".to_string()));
    assert_eq!(positional.to_value(&values), Some("value".to_string()));
    assert_eq!(option.to_value(&values), None);
    assert_eq!(long.to_value(&values), Some("--long".to_string()));
    assert_eq!(short.to_value(&values), Some("-s".to_string()));
    assert_eq!(unset.to_value(&values), None);
}

#[test]
fn a_project_makes_the_commands_of_its_template() {
    let template = Template {
        name: String::from("example2"),
        ..template(&MAKE_FILE)
    };
    let project = Project::new(
        &template,
        "two",
        vec!["bye.txt".to_string(), "bye".to_string()],
        Some("echo".to_string()),
        "sh".to_string(),
        false,
    );
    assert_eq!(project.name(), "two");
    assert_eq!(project.get_cmd().get_name(), "example2");
    assert!(project.get_cmd().is_no_binary_name_set());
    assert!(project.get_cmd().is_disable_help_flag_set());
    assert!(project.get_cmd().is_disable_version_flag_set());
    assert_eq!(project.template(), &template);
    assert_eq!(project.custom_args(), &vec!["bye.txt".to_string(), "bye".to_string()]);
    assert_eq!(project.editor(), &Some("echo".to_string()));
    assert_eq!(project.shell(), "sh");
    assert!(!project.overwrite());
    assert_eq!(
        project.commands().unwrap(),
        vec![
            "mkdir $QK_PROJECT_DIR".to_string(),
            "echo bye > $QK_PROJECT_DIR/bye.txt".to_string()
        ]
    );
}

#[test]
fn the_values_are_read_from_what_clap_matched() {
    let matches = clap::Command::new("t")
        .no_binary_name(true)
        .arg(clap::Arg::new("value").long("value"))
        .arg(clap::Arg::new("absent").long("absent"))
        .arg(clap::Arg::new("place").index(1))
        .arg(
            clap::Arg::new("set")
                .long("set")
                .action(clap::ArgAction::SetTrue),
        )
        .arg(
            clap::Arg::new("unset")
                .long("unset")
                .action(clap::ArgAction::SetTrue),
        )
        .try_get_matches_from(["--value", "x", "--set", "y"])
        .unwrap();
    let units = parse("#{value} #{absent} #{1:place} #{set?} #{unset?} #{unknown} #{other?}").unwrap();
    let values = collect_values(&units, &matches);
    assert_eq!(values.value("value"), Some(&"x".to_string()));
    assert_eq!(values.value("absent"), None);
    assert_eq!(values.value("place"), Some(&"y".to_string()));
    assert_eq!(values.value("unknown"), None);
    assert_eq!(values.value("set"), None);
    assert!(values.flag("set"));
    assert!(!values.flag("unset"));
    assert!(!values.flag("other"));
    assert!(!values.flag("value"));
    assert_eq!(substitute(&units, &values), "x  y --set   ");
}

#[test]
fn the_command_of_a_template_has_no_flags_of_its_own() {
    let command = get_cmd("example");
    assert_eq!(command.get_name(), "example");
    assert!(command.is_no_binary_name_set());
    assert!(command.is_disable_help_flag_set());
    assert!(command.is_disable_version_flag_set());
    assert_eq!(command.get_arguments().count(), 0);

    let plain = clap::Command::new("example");
    assert!(!plain.is_no_binary_name_set());
    assert!(!plain.is_disable_help_flag_set());
}

#[test]
fn the_command_of_a_schema_has_the_arguments_of_the_placeholders() {
    let commands = vec![parse("#{1:file!} #{out,o*} #{force,f?} text #{out,o*}").unwrap()];
    let schema = ArgumentSchema::build(&commands).unwrap();
    let command = schema.command("t");
    assert_eq!(command.get_name(), "t");
    assert!(command.is_no_binary_name_set());
    assert!(command.is_disable_help_flag_set());
    assert!(command.is_disable_version_flag_set());
    let ids: Vec<String> = command
        .get_arguments()
        .map(|a| a.get_id().as_str().to_string())
        .collect();
    assert_eq!(ids, vec!["file".to_string(), "out".to_string(), "force".to_string()]);
}
