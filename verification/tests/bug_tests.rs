use eval_bot::bug::BugList;
use eval_bot::bug::normalize_bug_number;
use eval_bot::CommandError;

const REPORTER: u64 = 7;
const OTHER_USER: u64 = 9;

/// Sends a command body (the text after the feature prefix) as `caller`.
fn send(list: &mut BugList, body: &str, caller: u64) -> Result<String, CommandError> {
    eval_bot::bug::handle_message(list, body, caller)
}

/// Reporting on an empty list assigns number 1 and echoes the bug's name.
#[test]
fn report_first_bug() {
    let mut list = BugList::default();

    let response = send(&mut list, r#"report """N""" "S" D"#, REPORTER).unwrap();
    assert_eq!(r#"Added bug #1 "N" to the list"#, response);
}

/// Bug numbers count up from the item count at each report.
#[test]
fn report_assigns_sequential_numbers() {
    let mut list = BugList::default();

    let first = send(&mut list, "report one two three", REPORTER).unwrap();
    assert_eq!(r#"Added bug #1 "one" to the list"#, first);

    let second = send(&mut list, "add uno dos tres", REPORTER).unwrap();
    assert_eq!(r#"Added bug #2 "uno" to the list"#, second);
}

/// A report whose argument does not split into exactly three fields is a
/// malformed input, and the list stays unchanged.
#[test]
fn report_with_two_fields_is_malformed() {
    let mut list = BugList::default();

    let result = send(&mut list, r#"report "a" "b""#, REPORTER);
    assert!(matches!(result, Err(CommandError::MalformedInput)));

    // The whole-list view still shows nothing.
    let response = send(&mut list, "", REPORTER).unwrap();
    assert_eq!("", response);
}

/// A report with trailing text after the third field is rejected as well.
#[test]
fn report_with_four_fields_is_malformed() {
    let mut list = BugList::default();

    let result = send(&mut list, r#"report "a" "b" "c" "d""#, REPORTER);
    assert!(matches!(result, Err(CommandError::MalformedInput)));
}

/// A single word after the prefix is read as a report argument, which cannot
/// hold three fields.
#[test]
fn bare_word_is_a_malformed_report() {
    let mut list = BugList::default();

    let result = send(&mut list, "fix", REPORTER);
    assert!(matches!(result, Err(CommandError::MalformedInput)));
}

/// Printing one bug renders every stored field.
#[test]
fn print_bug_details() {
    let mut list = BugList::default();

    send(&mut list, r#"report """N""" "S" D"#, REPORTER).unwrap();

    let response = send(&mut list, "show 1", OTHER_USER).unwrap();
    assert_eq!(
        "#1 N\n\
         S:\n\
         D:\n\
         Priority: 0\n\
         Status: Open\n\
         Labels: \n\
         Reporter: 7\n\
         Plus Ones: 0\n",
        response,
    );
}

/// Printing a number nobody reported answers with a not-found message, not
/// an error.
#[test]
fn print_unknown_number() {
    let mut list = BugList::default();

    let response = send(&mut list, "show 5", REPORTER).unwrap();
    assert_eq!(
        "I couldn't find a bug with the number 5 in the global list.",
        response,
    );
}

/// A non-numeric bug number is an invalid argument.
#[test]
fn print_with_bad_number_is_invalid() {
    let mut list = BugList::default();

    let result = send(&mut list, "show abc", REPORTER);
    assert!(matches!(result, Err(CommandError::InvalidArgument)));
}

/// A plus-one on a present bug appends the caller and reports how many
/// others were already affected.
#[test]
fn plus_one_counts_others() {
    let mut list = BugList::default();

    send(&mut list, "report crash boom bang", REPORTER).unwrap();

    let first = send(&mut list, "+1 1", OTHER_USER).unwrap();
    assert_eq!(
        "I'm sorry to hear that you're also experiencing this issue.\n\
         At least you've got 0 other(s) for company.",
        first,
    );

    // A repeated plus-one by the same caller still counts.
    let second = send(&mut list, "+1 1", OTHER_USER).unwrap();
    assert_eq!(
        "I'm sorry to hear that you're also experiencing this issue.\n\
         At least you've got 1 other(s) for company.",
        second,
    );
}

/// A plus-one on an absent number answers not-found and leaves the list
/// unchanged.
#[test]
fn plus_one_unknown_number() {
    let mut list = BugList::default();

    send(&mut list, "report crash boom bang", REPORTER).unwrap();
    let before = send(&mut list, "", REPORTER).unwrap();

    let response = send(&mut list, "+1 2", OTHER_USER).unwrap();
    assert_eq!(
        "I couldn't find a bug with the number 2 in the global list.",
        response,
    );

    let after = send(&mut list, "", REPORTER).unwrap();
    assert_eq!(before, after);
}

/// The whole-list view shows a summary line per bug.
#[test]
fn print_all_bugs() {
    let mut list = BugList::default();

    send(&mut list, "report crash boom bang", REPORTER).unwrap();
    send(&mut list, "+1 1", OTHER_USER).unwrap();

    let response = send(&mut list, "", REPORTER).unwrap();
    assert_eq!("#1 crash\tboom\t(1 +1s)\t[]", response);
}

/// An unrecognized command word degrades to the help response.
#[test]
fn unknown_command_degrades_to_help() {
    let mut list = BugList::default();

    let response = send(&mut list, "frobnicate 1", REPORTER).unwrap();
    assert!(response.starts_with("Bug list commands:\n"));

    // The list is untouched.
    let all = send(&mut list, "", REPORTER).unwrap();
    assert_eq!("", all);
}

/// Bug numbers tolerate surrounding whitespace and a leading plus sign, and
/// reject everything else.
#[test]
fn normalize_bug_numbers() {
    assert_eq!(Ok(7), normalize_bug_number(" 7 "));
    assert_eq!(Ok(5), normalize_bug_number("+5"));
    assert_eq!(Ok(0), normalize_bug_number("0"));
    assert_eq!(Ok(4294967295), normalize_bug_number("4294967295"));
    assert!(matches!(
        normalize_bug_number("4294967296"),
        Err(CommandError::InvalidArgument)
    ));
    assert!(matches!(
        normalize_bug_number("99999999999"),
        Err(CommandError::InvalidArgument)
    ));
    assert!(matches!(
        normalize_bug_number("abc"),
        Err(CommandError::InvalidArgument)
    ));
    assert!(matches!(
        normalize_bug_number(""),
        Err(CommandError::InvalidArgument)
    ));
    assert!(matches!(
        normalize_bug_number("+"),
        Err(CommandError::InvalidArgument)
    ));
    assert!(matches!(
        normalize_bug_number("1 2"),
        Err(CommandError::InvalidArgument)
    ));
}

/// Every error kind renders as a human-readable message.
#[test]
fn error_messages() {
    assert_eq!(
        "couldn't parse a user-submitted bug report",
        CommandError::MalformedInput.message(),
    );
    assert_eq!(
        "couldn't parse a bug number from the user input",
        CommandError::InvalidArgument.message(),
    );
}
