use qk::echo::{echo, text_lines};

#[test]
fn each_line_is_shown_after_the_prompt() {
    assert_eq!(echo("mkdir $QK_PROJECT_DIR"), "$ mkdir $QK_PROJECT_DIR");
    assert_eq!(echo("echo one\necho two"), "$ echo one\n$ echo two");
    assert_eq!(echo("a\n\nb"), "$ a\n$ \n$ b");
}

#[test]
fn a_last_line_feed_opens_no_line() {
    assert_eq!(echo(""), "");
    assert_eq!(echo("\n"), "$ ");
    assert_eq!(echo("a\n"), "$ a");
    assert_eq!(echo("a\n\n"), "$ a\n$ ");
}

#[test]
fn a_carriage_return_before_a_line_feed_belongs_to_the_ending() {
    assert_eq!(echo("a\r\nb\r\n"), "$ a\n$ b");
    assert_eq!(echo("a\r\r\nb"), "$ a\r\n$ b");
    assert_eq!(echo("a\rb\n"), "$ a\rb");
    assert_eq!(echo("a\r"), "$ a\r");
    assert_eq!(echo("\r\n\r"), "$ \n$ \r");
}

#[test]
fn the_lines_of_a_text_are_those_that_std_gives() {
    for text in [
        "",
        "a",
        "a\n",
        "\n",
        "\n\n",
        "a\nb",
        "a\r\nb\r\n",
        "a\r",
        "\r",
        "\r\n",
        "a\r\r\n\rb\n\r",
        "one\n\ntwo\n\n\n",
        "h\u{e9}\r\n\u{1f600}\n",
    ] {
        let expected: Vec<String> = text.lines().map(|line| line.to_string()).collect();
        assert_eq!(text_lines(text), expected, "{:?}", text);
    }
}
