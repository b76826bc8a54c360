use qk::commands_parser::{
    match_custom_arg, match_literal, match_name, match_unit, match_until_custom_arg_start, parse,
    ClapFlag, ClapOption, ClapPositional, Unit,
};

#[test]
fn command_test_match_unit() {
    assert_eq!(
        match_unit("hello").unwrap(),
        ("", Unit::Text("hello".to_string()))
    );
    assert_eq!(
        match_unit("hello world").unwrap(),
        ("", Unit::Text("hello world".to_string()))
    );
    assert_eq!(
        match_unit("#{hello}").unwrap(),
        (
            "",
            Unit::Option(ClapOption {
                allow_empty_values: false,
                long: Some("hello".to_string()),
                short: None,
                name: "hello".to_string(),
                required: false
            })
        )
    );
    assert_eq!(
        match_unit("\\\\").unwrap(),
        ("", Unit::Text("\\".to_string()))
    );
    assert!(match_unit("\\").is_err());
    assert_eq!(
        match_unit("\\#{hello}").unwrap(),
        ("", Unit::Text("#{hello}".to_string()))
    );
    assert_eq!(
        match_unit("hello #{world}").unwrap(),
        ("#{world}", Unit::Text("hello ".to_string()))
    );
    assert!(match_unit("\\hello").is_err());
}

#[test]
fn command_test_parse() {
    assert_eq!(
        parse("cargo new $QK_PROJECT_NAME #{lib?}").unwrap(),
        vec![
            Unit::Text("cargo new $QK_PROJECT_NAME ".to_string()),
            Unit::Flag(ClapFlag {
                name: "lib".to_string(),
                long: Some("lib".to_string()),
                short: None,
            })
        ]
    );
    assert_eq!(
        parse("echo one #{one} two #{two!} three #{three*} four #{four!*} five #{five*!} six #{six?} seven #{1:seven!} eight #{2:eight!*} nine #{3:nine*!} ten #{4:ten} eleven #{5:eleven*} twelve #{twelve,t} thirteen #{thirteen,h!} fourteen #{fourteen,f*} fifteen #{fifteen,i*!} sixteen #{sixteen,s!*} seventeen #{seventeen,e?} eighteen #{,g} nineteen #{,n!} twenty #{,w*} twenty-one #{,y!*} twenty-two #{,o*!} twenty-three #{,x?}").unwrap(),
        vec![
            Unit::Text("echo one ".to_string()),
            Unit::Option(ClapOption {
                name:"one".to_string(),
                long:Some("one".to_string()),
                short:None,
                allow_empty_values: false,
                required: false
            }),
            Unit::Text(" two ".to_string()),
            Unit::Option(ClapOption {
                name:"two".to_string(),
                long:Some("two".to_string()),
                short:None,
                allow_empty_values: false,
                required: true
            }),
            Unit::Text(" three ".to_string()),
            Unit::Option(ClapOption {
                name:"three".to_string(),
                long:Some("three".to_string()),
                short:None,
                allow_empty_values: true,
                required: false
            }),
            Unit::Text(" four ".to_string()),
            Unit::Option(ClapOption {
                name:"four".to_string(),
                long:Some("four".to_string()),
                short:None,
                allow_empty_values: true,
                required: true
            }),
            Unit::Text(" five ".to_string()),
            Unit::Option(ClapOption {
                name:"five".to_string(),
                long:Some("five".to_string()),
                short:None,
                allow_empty_values: true,
                required: true
            }),
            Unit::Text(" six ".to_string()),
            Unit::Flag(ClapFlag {
                name:"six".to_string(),
                long:Some("six".to_string()),
                short:None,
            }),
            Unit::Text(" seven ".to_string()),
            Unit::Positional(ClapPositional {
                name:"seven".to_string(),
                allow_empty_values:false,
                required:true,
                index: 1
            }),
            Unit::Text(" eight ".to_string()),
            Unit::Positional(ClapPositional {
                name:"eight".to_string(),
                allow_empty_values:true,
                required:true,
                index: 2
            }),
            Unit::Text(" nine ".to_string()),
            Unit::Positional(ClapPositional {
                name:"nine".to_string(),
                allow_empty_values:true,
                required:true,
                index: 3
            }),
            Unit::Text(" ten ".to_string()),
            Unit::Positional(ClapPositional {
                name:"ten".to_string(),
                allow_empty_values:false,
                required:false,
                index: 4
            }),
            Unit::Text(" eleven ".to_string()),
            Unit::Positional(ClapPositional {
                name:"eleven".to_string(),
                allow_empty_values:true,
                required:false,
                index: 5
            }),
            Unit::Text(" twelve ".to_string()),
            Unit::Option(ClapOption {
                name:"twelve".to_string(),
                long: Some("twelve".to_string()),
                short: Some('t'),
                allow_empty_values:false,
                required:false,
            }),
            Unit::Text(" thirteen ".to_string()),
            Unit::Option(ClapOption {
                name:"thirteen".to_string(),
                long: Some("thirteen".to_string()),
                short: Some('h'),
                allow_empty_values:false,
                required:true,
            }),
            Unit::Text(" fourteen ".to_string()),
            Unit::Option(ClapOption {
                name:"fourteen".to_string(),
                long: Some("fourteen".to_string()),
                short: Some('f'),
                allow_empty_values:true,
                required:false,
            }),
            Unit::Text(" fifteen ".to_string()),
            Unit::Option(ClapOption {
                name:"fifteen".to_string(),
                long: Some("fifteen".to_string()),
                short: Some('i'),
                allow_empty_values:true,
                required:true,
            }),
            Unit::Text(" sixteen ".to_string()),
            Unit::Option(ClapOption {
                name:"sixteen".to_string(),
                long: Some("sixteen".to_string()),
                short: Some('s'),
                allow_empty_values:true,
                required:true,
            }),
            Unit::Text(" seventeen ".to_string()),
            Unit::Flag(ClapFlag {
                name:"seventeen".to_string(),
                long: Some("seventeen".to_string()),
                short: Some('e'),
            }),
            Unit::Text(" eighteen ".to_string()),
            Unit::Option(ClapOption {
                name:"g".to_string(),
                long: None,
                short: Some('g'),
                allow_empty_values:false,
                required:false,
            }),
            Unit::Text(" nineteen ".to_string()),
            Unit::Option(ClapOption {
                name:"n".to_string(),
                long: None,
                short: Some('n'),
                allow_empty_values:false,
                required:true,
            }),
            Unit::Text(" twenty ".to_string()),
            Unit::Option(ClapOption {
                name:"w".to_string(),
                long: None,
                short: Some('w'),
                allow_empty_values:true,
                required:false,
            }),
            Unit::Text(" twenty-one ".to_string()),
            Unit::Option(ClapOption {
                name:"y".to_string(),
                long: None,
                short: Some('y'),
                allow_empty_values:true,
                required:true,
            }),
            Unit::Text(" twenty-two ".to_string()),
            Unit::Option(ClapOption {
                name:"o".to_string(),
                long: None,
                short: Some('o'),
                allow_empty_values:true,
                required:true,
            }),
            Unit::Text(" twenty-three ".to_string()),
            Unit::Flag(ClapFlag {
                name:"x".to_string(),
                long: None,
                short: Some('x'),
            }),
        ]
    );
}

#[test]
fn command_test_parse_with_simple_command() {
    assert_eq!(
        parse("echo hello # world").unwrap(),
        vec![Unit::Text("echo hello # world".to_string()),]
    );
}

#[test]
fn command_test_parse_multi_line() {
    assert_eq!(
        parse("echo one\necho two\necho three").unwrap(),
        vec![Unit::Text("echo one\necho two\necho three".to_string())]
    );
}

#[test]
fn command_test_match_simple_args_multi_line() {
    assert_eq!(
        match_until_custom_arg_start("echo one\necho two\necho three"),
        ("", "echo one\necho two\necho three")
    )
}

#[test]
fn command_test_parse_with_custom_args() {
    assert_eq!(
        parse("echo my name is #{1:first!} and my last name is #{2:last!}.").unwrap(),
        vec![
            Unit::Text("echo my name is ".to_string()),
            Unit::Positional(ClapPositional {
                name: "first".to_string(),
                required: true,
                allow_empty_values: false,
                index: 1
            }),
            Unit::Text(" and my last name is ".to_string()),
            Unit::Positional(ClapPositional {
                name: "last".to_string(),
                required: true,
                allow_empty_values: false,
                index: 2
            }),
            Unit::Text(".".to_string()),
        ]
    );
}

#[test]
fn command_test_match_simple_args() {
    assert_eq!(match_until_custom_arg_start("hello world"), ("", "hello world"));
    assert_eq!(match_until_custom_arg_start("hello #{world."), ("#{world.", "hello "));
    assert_eq!(match_until_custom_arg_start("#{hello"), ("#{hello", ""));
    assert_eq!(match_until_custom_arg_start("hello #world"), ("", "hello #world"));
    assert_eq!(match_until_custom_arg_start("hello {world"), ("", "hello {world"));
    assert_eq!(match_until_custom_arg_start("{{hello"), ("{{hello", ""));
    assert_eq!(match_until_custom_arg_start("{{hello world"), ("{{hello world", ""));
    assert_eq!(match_until_custom_arg_start("hello {{world"), ("{{world", "hello "));
    assert_eq!(match_until_custom_arg_start("{hello world"), ("", "{hello world"));
    assert_eq!(match_until_custom_arg_start("hello \\world"), ("\\world", "hello "));
    assert_eq!(match_until_custom_arg_start("\\#{hello}"), ("\\#{hello}", ""));
    assert_eq!(
        match_until_custom_arg_start("hello \\#{world}"),
        ("\\#{world}", "hello ")
    );
    assert_eq!(match_until_custom_arg_start("\\{{hello}}"), ("\\{{hello}}", ""));
    assert_eq!(
        match_until_custom_arg_start("hello \\{{world}}"),
        ("\\{{world}}", "hello ")
    );
}

#[test]
fn command_test_match_custom_arg() {
    assert_eq!(
        match_custom_arg("#{color}").unwrap(),
        (
            "",
            Unit::Option(ClapOption {
                allow_empty_values: false,
                long: Some("color".to_string()),
                name: "color".to_string(),
                short: None,
                required: false
            })
        )
    );
    assert_eq!(
        match_custom_arg("\\#{color}").unwrap(),
        ("", Unit::Text("#{color}".to_string()))
    );
    assert_eq!(
        match_custom_arg("\\#{hello} world").unwrap(),
        ("", Unit::Text("#{hello} world".to_string()))
    );
    assert_eq!(
        match_custom_arg("\\#{hello} #{world}").unwrap(),
        ("#{world}", Unit::Text("#{hello} ".to_string()))
    );
}

#[test]
fn command_test_match_custom_arg_starting_with_number() {
    assert_eq!(
        match_custom_arg("#{1color}").unwrap(),
        (
            "",
            Unit::Option(ClapOption {
                allow_empty_values: false,
                long: Some("1color".to_string()),
                name: "1color".to_string(),
                short: None,
                required: false
            })
        )
    );
}

#[test]
fn command_test_match_name() {
    assert_eq!(match_name("hello"), ("", "hello".to_string()));
    assert_eq!(match_name("hello world"), ("", "hello world".to_string()));
    assert_eq!(match_name("1hello"), ("", "1hello".to_string()));
    assert_eq!(match_name("!hello"), ("!hello", "".to_string()));
    assert_eq!(match_name("hello? world"), ("? world", "hello".to_string()));
    assert_eq!(match_name("hello! world"), ("! world", "hello".to_string()));
    assert_eq!(match_name("hello *world"), ("*world", "hello ".to_string()));
    assert_eq!(match_name("hello,world"), (",world", "hello".to_string()));
    assert_eq!(match_name("hello}world"), ("}world", "hello".to_string()));
}

#[test]
fn command_test_match_name_with_empty_string() {
    assert_eq!(match_name(""), ("", String::new()));
}

#[test]
fn command_test_match_literal_with_empty_string() {
    assert!(match_literal(":", "").is_err())
}
