use relay::csvfmt::{parse_as_csv, render_table};
use relay::modifications;
use relay::operations::{
    get_modified_input, get_title_case, is_valid_string, lowercase, no_spaces, reverse,
    slugify_input, title_case, uppercase, StringOperation,
};

#[test]
fn case_conversions() {
    assert_eq!(lowercase("HeLLo Wörld"), "hello wörld");
    assert_eq!(uppercase("HeLLo Wörld"), "HELLO WÖRLD");
}

#[test]
fn no_spaces_removes_every_space() {
    assert_eq!(no_spaces("a b  c"), "abc");
    assert_eq!(no_spaces("nospace"), "nospace");
    assert_eq!(no_spaces("  "), "");
}

#[test]
fn reverse_reverses_characters() {
    assert_eq!(reverse("abc"), "cba");
    assert_eq!(reverse(""), "");
    assert_eq!(reverse("noon"), "noon");
}

#[test]
fn slugify_uses_the_slug_rules() {
    assert_eq!(slugify_input("Hello World!"), "hello-world");
    assert_eq!(slugify_input("Čau světe"), "cau-svete");
}

#[test]
fn title_case_capitalizes_words() {
    assert_eq!(get_title_case("hello world"), "Hello World");
    assert_eq!(title_case("  multiple   SPACES  here "), "Multiple Spaces Here");
    assert_eq!(title_case(""), "");
}

#[test]
fn validation_needs_more_than_whitespace() {
    assert_eq!(is_valid_string("  "), (false, "string_validation"));
    assert_eq!(is_valid_string(" x "), (true, "string_validation"));
}

#[test]
fn operation_names_parse() {
    assert!(matches!(StringOperation::from_str("reverse"), Ok(StringOperation::Reverse)));
    assert!(matches!(StringOperation::from_str("title-case"), Ok(StringOperation::TitleCase)));
    assert!(matches!(StringOperation::from_str("csv"), Ok(StringOperation::Csv)));
    assert!(StringOperation::from_str("shout").is_err());
}

#[test]
fn get_modified_input_applies_each_operation() {
    assert_eq!(get_modified_input("A B", StringOperation::Lowercase).unwrap(), "a b");
    assert_eq!(get_modified_input("a b", StringOperation::Uppercase).unwrap(), "A B");
    assert_eq!(get_modified_input("a b", StringOperation::NoSpaces).unwrap(), "ab");
    assert_eq!(get_modified_input("a b", StringOperation::Slugify).unwrap(), "a-b");
    assert_eq!(get_modified_input("ab", StringOperation::Reverse).unwrap(), "ba");
    assert_eq!(get_modified_input("a b", StringOperation::TitleCase).unwrap(), "A B");
}

#[test]
fn modifications_dispatch_by_name() {
    assert_eq!(modifications::get_modified_input("lowercase", "ABC").unwrap(), "abc");
    assert_eq!(modifications::get_modified_input("reverse", "abc").unwrap(), "cba");
    assert!(modifications::get_modified_input("csv", "x").is_err());
    assert!(modifications::get_modified_input("nope", "x").is_err());
}

#[test]
fn csv_renders_an_aligned_table() {
    let out = parse_as_csv("a,b\n1,22").unwrap();
    assert_eq!(out, "a | b \n--+---\n1 | 22\n");
}

#[test]
fn csv_pads_to_the_widest_cell() {
    let out = parse_as_csv("name,qty\npea,1000\nx,2").unwrap();
    assert_eq!(out, "name | qty \n-----+-----\npea  | 1000\nx    | 2   \n");
}

#[test]
fn csv_rejects_ragged_rows() {
    assert!(parse_as_csv("a,b\n1\n").is_err());
    assert!(parse_as_csv("a,b\n1,2,3\n").is_err());
}

#[test]
fn unknown_names_are_reported_with_the_available_ones() {
    let err = StringOperation::from_str("shout").unwrap_err();
    assert_eq!(
        err,
        "Unknown modification: shout\nAvailable modifications: \
         lowercase, uppercase, no-spaces, slugify, reverse, title-case, csv"
    );
    let err = modifications::get_modified_input("nope", "x").unwrap_err();
    assert_eq!(
        err,
        "Unknown modification: nope\nAvailable modifications: \
         lowercase, uppercase, no-spaces, slugify, reverse, title-case"
    );
}

#[test]
fn render_table_accepts_shorter_records() {
    let table = vec![
        vec![String::from("aa"), String::from("bb")],
        vec![String::from("x")],
    ];
    assert_eq!(render_table(&table), "aa | bb\n---+---\nx \n");
}

#[test]
fn render_table_pads_each_column() {
    let table = vec![
        vec![String::from("h"), String::from("wide")],
        vec![String::from("aa"), String::from("b")],
    ];
    assert_eq!(render_table(&table), "h  | wide\n---+-----\naa | b   \n");
}
