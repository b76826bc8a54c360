use qk::listing::{join_lines, listing};

fn texts(items: &[&str]) -> Vec<String> {
    items.iter().map(|i| i.to_string()).collect()
}

#[test]
fn nothing_is_listed_where_there_is_no_item() {
    assert_eq!(listing(vec![]), None);
}

#[test]
fn the_items_are_listed_in_ascending_order() {
    assert_eq!(
        listing(texts(&["hello", "example2", "example"])),
        Some("example\nexample2\nhello".to_string())
    );
    assert_eq!(listing(texts(&["two", "one"])), Some("one\ntwo".to_string()));
    assert_eq!(listing(texts(&["one"])), Some("one".to_string()));
}

#[test]
fn the_order_is_that_of_the_characters() {
    assert_eq!(
        listing(texts(&["b", "a", "B", "\u{e9}", "ab", "", "z"])),
        Some("\nB\na\nab\nb\nz\n\u{e9}".to_string())
    );
    assert_eq!(
        listing(texts(&["\u{10000}", "\u{ffff}"])),
        Some("\u{ffff}\n\u{10000}".to_string())
    );
}

#[test]
fn an_item_that_is_there_twice_is_listed_twice() {
    assert_eq!(listing(texts(&["a", "b", "a"])), Some("a\na\nb".to_string()));
}

#[test]
fn lines_are_joined_by_line_feeds() {
    assert_eq!(join_lines(&texts(&[])), "");
    assert_eq!(join_lines(&texts(&["a"])), "a");
    assert_eq!(join_lines(&texts(&["b", "", "a"])), "b\n\na");
}
