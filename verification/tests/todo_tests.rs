use eval_bot::todo::Author;
use eval_bot::todo::TodoCommand;
use eval_bot::todo::TodoList;

const USER_NAME: &str = "randomPoison";

/// Runs a command against `state` as the test user.
fn send_command(command: TodoCommand, state: &mut TodoList) -> String {
    let author = Author { id: 0, name: USER_NAME.to_string() };
    eval_bot::todo::handle_command(command, state, &author)
}

// Adds an item and verifies that the response is correct.
fn add_item(state: &mut TodoList, key: impl Into<String>, priority: u32) {
    let key = key.into();
    let response = send_command(
        TodoCommand::Add {
            key: key.clone(),
            category: None,
        },
        state,
    );

    let expected = match priority {
        1 => format!("Added item {key:?} to your list"),
        _ => format!("Updated item {key:?}, priority is {priority}"),
    };
    assert_eq!(expected, response);
}

// Adds an item and verifies that the response is correct.
fn add_with_category(
    state: &mut TodoList,
    key: impl Into<String>,
    category: impl Into<String>,
    priority: u32,
) {
    let key = key.into();
    let category = category.into();

    let response = send_command(
        TodoCommand::Add {
            key: key.clone(),
            category: Some(category.clone()),
        },
        state,
    );

    let expected = match priority {
        1 => format!("Added item [{category}] {key:?} to your list"),
        _ => format!("Updated item [{category}] {key:?}, priority is {priority}"),
    };
    assert_eq!(expected, response);
}

/// Tests that an item can be added from the list, displayed, and then removed.
#[test]
fn add_display_remove() {
    let mut state = TodoList::default();

    // Add an item with the key "foo" to the list.
    add_item(&mut state, "foo", 1);

    // Verify that the item can be displayed in the TODO list.
    let response = send_command(TodoCommand::Print { category: None }, &mut state);
    assert_eq!(
        format!(
            "TODO list for {USER_NAME}:\n\
            ```\n\
            (1) [ ] foo\n\
            ```\n"
        ),
        response,
    );

    // Remove the item from the list.
    let response = send_command(TodoCommand::Remove("foo".into()), &mut state);
    assert_eq!(r#"Removed "foo" from your list"#, response);

    // Verify that the list is now empty when printed.
    let response = send_command(TodoCommand::Print { category: None }, &mut state);
    assert_eq!(
        format!(
            "TODO list for {USER_NAME}:\n\
            ```\n\
            ```\n"
        ),
        response,
    );
}

// Verifies that items in the TODO list are displayed in priority order.
#[test]
fn priority_sort() {
    let mut state = TodoList::default();

    // Create 3 TODO items, each with different priority values.
    add_item(&mut state, "foo", 1);
    add_item(&mut state, "foo", 2);
    add_item(&mut state, "foo", 3);
    add_item(&mut state, "foo", 4);
    add_item(&mut state, "foo", 5);
    add_item(&mut state, "foo", 6);
    add_item(&mut state, "foo", 7);
    add_item(&mut state, "foo", 8);
    add_item(&mut state, "foo", 9);
    add_item(&mut state, "foo", 10);

    add_item(&mut state, "foo bar", 1);
    add_item(&mut state, "foo bar", 2);

    add_item(&mut state, "foo bar baz", 1);

    // Verify that the items are displayed in the correct order.
    let response = send_command(TodoCommand::Print { category: None }, &mut state);
    assert_eq!(
        format!(
            "TODO list for {USER_NAME}:\n\
            ```\n\
            (10) [ ] foo\n\
            ( 2) [ ] foo bar\n\
            ( 1) [ ] foo bar baz\n\
            ```\n"
        ),
        response,
    );
}

/// Verifies that items can be marked done.
#[test]
fn mark_items_done() {
    let mut state = TodoList::default();

    // Create 2 TODO items with different priority values so that they'll print
    // in a deterministic order.
    add_item(&mut state, "foo", 1);
    add_item(&mut state, "foo", 2);

    add_item(&mut state, "foo bar", 1);

    let response = send_command(TodoCommand::Finish("foo".into()), &mut state);
    assert_eq!(r#"Marked "foo" as done"#, response);

    // Verify that the items are displayed in the correct order.
    let response = send_command(TodoCommand::Print { category: None }, &mut state);
    assert_eq!(
        format!(
            "TODO list for {USER_NAME}:\n\
            ```\n\
            (2) [X] foo\n\
            (1) [ ] foo bar\n\
            ```\n"
        ),
        response,
    );
}

/// Verifies that a category can be set for each item and that categories are
/// correctly handled when displaying the TODO list.
#[test]
fn categories() {
    let mut state = TodoList::default();

    // Create 2 TODO items with different priority values so that they'll print
    // in a deterministic order.
    add_with_category(&mut state, "foo", "Foo", 1);
    add_with_category(&mut state, "foo", "Foo", 2);
    add_item(&mut state, "foo bar", 1);

    // Verify that all items are displayed if no category is specified.
    let response = send_command(TodoCommand::Print { category: None }, &mut state);
    assert_eq!(
        format!(
            "TODO list for {USER_NAME}:\n\
            ```\n\
            (2) [ ] [Foo] foo\n\
            (1) [ ] foo bar\n\
            ```\n"
        ),
        response,
    );

    // Verify that a specific category can be displayed.
    let response = send_command(
        TodoCommand::Print {
            category: Some("Foo".into()),
        },
        &mut state,
    );
    assert_eq!(
        format!(
            "TODO list for {USER_NAME} in category [Foo]:\n\
            ```\n\
            (2) [ ] foo\n\
            ```\n"
        ),
        response,
    );

    // Verify that we can change the category of an existing item.
    add_with_category(&mut state, "foo", "Bar", 3);
    add_with_category(&mut state, "foo bar", "Foo", 2);
    let response = send_command(TodoCommand::Print { category: None }, &mut state);
    assert_eq!(
        format!(
            "TODO list for {USER_NAME}:\n\
            ```\n\
            (3) [ ] [Bar] foo\n\
            (2) [ ] [Foo] foo bar\n\
            ```\n"
        ),
        response,
    );
}

/// Verifies that the category filter is an exact, case-sensitive match: no
/// partial matches, no case folding, and uncategorized items only show in
/// the unfiltered view.
#[test]
fn category_filter_exact() {
    let mut state = TodoList::default();

    add_with_category(&mut state, "one", "Foo", 1);
    add_with_category(&mut state, "two", "Fo", 1);
    add_with_category(&mut state, "three", "foo", 1);
    add_item(&mut state, "four", 1);

    let response = send_command(
        TodoCommand::Print {
            category: Some("Foo".into()),
        },
        &mut state,
    );
    assert_eq!(
        format!(
            "TODO list for {USER_NAME} in category [Foo]:\n\
            ```\n\
            (1) [ ] one\n\
            ```\n"
        ),
        response,
    );
}

/// Verifies that the priority column width comes from the whole list even
/// when a filter hides the highest-priority item.
#[test]
fn column_width_is_stable_across_filters() {
    let mut state = TodoList::default();

    for priority in 1..=10 {
        add_with_category(&mut state, "big", "A", priority);
    }
    add_with_category(&mut state, "small", "B", 1);

    let response = send_command(
        TodoCommand::Print {
            category: Some("B".into()),
        },
        &mut state,
    );
    assert_eq!(
        format!(
            "TODO list for {USER_NAME} in category [B]:\n\
            ```\n\
            ( 1) [ ] small\n\
            ```\n"
        ),
        response,
    );
}

/// Verifies that finishing a key that was never added creates a done item of
/// priority zero, as the engine treats the missing entry as a fresh default.
#[test]
fn finish_absent_key() {
    let mut state = TodoList::default();

    let response = send_command(TodoCommand::Finish("ghost".into()), &mut state);
    assert_eq!(r#"Marked "ghost" as done"#, response);

    let response = send_command(TodoCommand::Print { category: None }, &mut state);
    assert_eq!(
        format!(
            "TODO list for {USER_NAME}:\n\
            ```\n\
            (0) [X] ghost\n\
            ```\n"
        ),
        response,
    );
}

/// Sends a textual command body through the classifier and the engine.
fn send_text(body: &str, state: &mut TodoList) -> String {
    send_command(eval_bot::todo::classify_todo(body), state)
}

/// Verifies that textual commands run the whole path: classifier synonyms,
/// implicit add for unrecognized text, and the print form.
#[test]
fn text_commands() {
    let mut state = TodoList::default();

    assert_eq!(r#"Added item "foo" to your list"#, send_text("foo", &mut state));
    assert_eq!(
        r#"Updated item "foo", priority is 2"#,
        send_text("add foo", &mut state),
    );
    assert_eq!(
        r#"Added item "foo bar" to your list"#,
        send_text("foo bar", &mut state),
    );
    assert_eq!(r#"Marked "foo" as done"#, send_text("done foo", &mut state));
    assert_eq!(
        format!(
            "TODO list for {USER_NAME}:\n\
            ```\n\
            (2) [X] foo\n\
            (1) [ ] foo bar\n\
            ```\n"
        ),
        send_text("show", &mut state),
    );
    assert_eq!(
        r#"Removed "foo" from your list"#,
        send_text("rm foo", &mut state),
    );
    assert_eq!(
        format!(
            "TODO list for {USER_NAME}:\n\
            ```\n\
            (1) [ ] foo bar\n\
            ```\n"
        ),
        send_text("", &mut state),
    );
}

/// Verifies that removing an absent key gives the same confirmation as
/// removing a present one, and leaves other keys untouched.
#[test]
fn remove_is_idempotent() {
    let mut state = TodoList::default();

    add_item(&mut state, "keep", 1);

    let present = send_command(TodoCommand::Remove("gone".into()), &mut state);
    let absent = send_command(TodoCommand::Remove("gone".into()), &mut state);
    assert_eq!(present, absent);
    assert_eq!(r#"Removed "gone" from your list"#, present);

    let response = send_command(TodoCommand::Print { category: None }, &mut state);
    assert_eq!(
        format!(
            "TODO list for {USER_NAME}:\n\
            ```\n\
            (1) [ ] keep\n\
            ```\n"
        ),
        response,
    );
}
