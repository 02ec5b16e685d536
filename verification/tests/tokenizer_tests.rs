use eval_bot::tokenizer::tokenize;
use eval_bot::CommandError;

fn fields(input: &str) -> (String, String, String) {
    tokenize(input).unwrap()
}

/// Bare, double-quoted and triple-quoted forms of the same three fields all
/// tokenize to the same values.
#[test]
fn quoting_round_trip() {
    let bare = fields("a b c");
    let double = fields(r#""a" "b" "c""#);
    let triple = fields(r#""""a""" "b" c"#);

    let expected = ("a".to_string(), "b".to_string(), "c".to_string());
    assert_eq!(expected, bare);
    assert_eq!(expected, double);
    assert_eq!(expected, triple);
}

/// Two fields are not enough: the tokenizer demands exactly three.
#[test]
fn two_fields_are_malformed() {
    let result = tokenize(r#""a" "b""#);
    assert!(matches!(result, Err(CommandError::MalformedInput)));
}

/// A fourth field trailing after the third is rejected.
#[test]
fn four_fields_are_malformed() {
    let result = tokenize("a b c d");
    assert!(matches!(result, Err(CommandError::MalformedInput)));
}

/// A quoted field whose closing marker is missing is rejected.
#[test]
fn unterminated_quotes_are_malformed() {
    assert!(matches!(
        tokenize(r#""a b c"#),
        Err(CommandError::MalformedInput)
    ));
    assert!(matches!(
        tokenize(r#""""a b c"#),
        Err(CommandError::MalformedInput)
    ));
}

/// A triple-quoted field may hold spaces and embedded double quotes.
#[test]
fn triple_quotes_keep_spaces_and_quotes() {
    let (name, summary, details) = fields(r#""""a "big" bug""" "has spaces" plain"#);
    assert_eq!(r#"a "big" bug"#, name);
    assert_eq!("has spaces", summary);
    assert_eq!("plain", details);
}

/// A double-quoted field may hold spaces; an empty one is allowed.
#[test]
fn double_quotes_hold_spaces() {
    let (name, summary, details) = fields(r#""one two" "" three"#);
    assert_eq!("one two", name);
    assert_eq!("", summary);
    assert_eq!("three", details);
}

/// The empty string has no fields at all.
#[test]
fn empty_input_is_malformed() {
    assert!(matches!(tokenize(""), Err(CommandError::MalformedInput)));
}
