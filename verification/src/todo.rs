//! The prioritized TODO list engine.
//!
//! Each user owns a list of items keyed by free-form text. Adding an item
//! that already exists raises its priority by one; the first add sets it to
//! one. Items can be marked done, removed, and printed sorted by priority,
//! highest first, with an optional exact-match category filter.

use crate::list::find_pair;
use crate::list::find_pair_from;
use crate::list::lemma_find_pair;
use crate::list::lemma_find_pair_push_fresh;
use crate::list::lemma_find_pair_update;
use crate::list::lemma_remove_preserves_others;
use crate::list::pair_value;
use crate::list::unique_keys;
use crate::text::chars_eq_str;
use crate::text::chars_to_string;
use crate::text::copy_range;
use crate::text::dec_str;
use crate::text::find_ws_from;
use crate::text::find_ws_idx;
use crate::text::push_spaces;
use crate::text::push_str_chars;
use crate::text::push_u32;
use crate::text::spaces;
use crate::text::str_to_chars;
use crate::text::trim_chars;
use crate::text::trim_chars_exec;
use vstd::prelude::*;

verus! {

/// A single TODO item in a user's TODO list.
#[derive(Debug, Clone)]
pub struct TodoItem {
    pub priority: u32,
    pub done: bool,
    pub category: Option<String>,
}

/// The mathematical value of a [`TodoItem`].
pub ghost struct TodoItemV {
    pub priority: int,
    pub done: bool,
    pub category: Option<Seq<char>>,
}

impl DeepView for TodoItem {
    type V = TodoItemV;

    open spec fn deep_view(&self) -> TodoItemV {
        TodoItemV {
            priority: self.priority as int,
            done: self.done,
            category: self.category.deep_view(),
        }
    }
}

impl Default for TodoItem {
    /// A fresh item: priority zero, not done, no category.
    fn default() -> (r: TodoItem)
        ensures
            r.deep_view() == (TodoItemV { priority: 0, done: false, category: None }),
    {
        TodoItem { priority: 0, done: false, category: None }
    }
}

/// A TODO list for a single user.
#[derive(Debug, Clone)]
pub struct TodoList {
    user_id: u64,
    /// The items in the user's list, keyed by the item key.
    items: Vec<(String, TodoItem)>,
}

/// The mathematical value of a [`TodoList`].
pub ghost struct TodoListV {
    pub user_id: u64,
    pub items: Seq<(Seq<char>, TodoItemV)>,
}

impl View for TodoList {
    type V = TodoListV;

    closed spec fn view(&self) -> TodoListV {
        TodoListV { user_id: self.user_id, items: self.items.deep_view() }
    }
}

impl TodoList {
    /// Well-formedness: every two items carry different keys.
    pub open spec fn wf(&self) -> bool {
        unique_keys(self@.items)
    }

    /// An empty list owned by `user_id`.
    pub fn new(user_id: u64) -> (r: TodoList)
        ensures
            r@.user_id == user_id,
            r@.items == Seq::<(Seq<char>, TodoItemV)>::empty(),
            r.wf(),
    {
        let r = TodoList { user_id, items: Vec::new() };
        proof {
            assert(r@.items =~= Seq::<(Seq<char>, TodoItemV)>::empty());
        }
        r
    }
}

impl TodoList {
    /// The priority the keyed item currently holds, or `None` when the key
    /// is absent.
    pub fn priority(&self, key: &String) -> (r: Option<u32>)
        ensures
            match r {
                Some(p) => {
                    let i = find_pair(self@.items, key@);
                    &&& i >= 0
                    &&& self@.items[i].1.priority == p
                },
                None => find_pair(self@.items, key@) == -1,
            },
    {
        match find_key(&self.items, key) {
            Some(i) => {
                proof {
                    assert(self@.items[i as int] == self.items@[i as int].deep_view());
                }
                Some(self.items[i].1.priority)
            },
            None => None,
        }
    }
}

impl Default for TodoList {
    /// An empty list owned by the zero user.
    fn default() -> (r: TodoList)
        ensures
            r@.user_id == 0,
            r@.items == Seq::<(Seq<char>, TodoItemV)>::empty(),
            r.wf(),
    {
        TodoList::new(0)
    }
}

/// The identity of the user whose command is being handled.
#[derive(Debug, Clone)]
pub struct Author {
    pub id: u64,
    pub name: String,
}

/// A typed `!todo` command, as classified by the surrounding host.
#[derive(Debug, Clone)]
pub enum TodoCommand {
    /// Print the list, optionally restricted to one category.
    Print { category: Option<String> },
    /// Add the keyed item, or raise its priority; optionally set its
    /// category.
    Add { key: String, category: Option<String> },
    /// Remove the keyed item.
    Remove(String),
    /// Mark the keyed item done.
    Finish(String),
}

/// The mathematical value of a [`TodoCommand`].
pub ghost enum TodoCommandV {
    Print { category: Option<Seq<char>> },
    Add { key: Seq<char>, category: Option<Seq<char>> },
    Remove(Seq<char>),
    Finish(Seq<char>),
}

impl DeepView for TodoCommand {
    type V = TodoCommandV;

    open spec fn deep_view(&self) -> TodoCommandV {
        match self {
            TodoCommand::Print { category } => TodoCommandV::Print {
                category: category.deep_view(),
            },
            TodoCommand::Add { key, category } => TodoCommandV::Add {
                key: key.deep_view(),
                category: category.deep_view(),
            },
            TodoCommand::Remove(key) => TodoCommandV::Remove(key.deep_view()),
            TodoCommand::Finish(key) => TodoCommandV::Finish(key.deep_view()),
        }
    }
}

/// How a TODO command body is classified: the body is trimmed and split at
/// its first whitespace character into a command word and the rest. An empty
/// body prints the whole list; a recognized command word selects its family;
/// any other text is the key of an implicit add, the family's default.
pub open spec fn classify_todo_spec(body: Seq<char>) -> TodoCommandV {
    let t = trim_chars(body);
    if t.len() == 0 {
        TodoCommandV::Print { category: None }
    } else {
        let i = find_ws_from(t, 0);
        let word = if i == -1 {
            t
        } else {
            t.take(i)
        };
        let rest = if i == -1 {
            Seq::<char>::empty()
        } else {
            trim_chars(t.skip(i + 1))
        };
        if word == "show"@ || word == "print"@ || word == "display"@ {
            TodoCommandV::Print {
                category: if rest.len() == 0 {
                    None
                } else {
                    Some(rest)
                },
            }
        } else if word == "remove"@ || word == "rm"@ || word == "delete"@ {
            TodoCommandV::Remove(rest)
        } else if word == "done"@ || word == "finish"@ || word == "finished"@ || word == "x"@
            || word == "X"@ {
            TodoCommandV::Finish(rest)
        } else if word == "add"@ {
            TodoCommandV::Add { key: rest, category: None }
        } else {
            TodoCommandV::Add { key: t, category: None }
        }
    }
}

/// Classifies a TODO command body into a typed command.
pub fn classify_todo(body: &str) -> (r: TodoCommand)
    ensures
        r.deep_view() == classify_todo_spec(body@),
{
    let chars = str_to_chars(body);
    let t = trim_chars_exec(&chars);
    if t.len() == 0 {
        return TodoCommand::Print { category: None };
    }
    let tlen = t.len();
    let (word, rest): (Vec<char>, Vec<char>) = match find_ws_idx(&t) {
        None => {
            let w = copy_range(&t, 0, tlen);
            proof {
                assert(w@ =~= t@);
            }
            (w, Vec::new())
        },
        Some(i) => {
            let w = copy_range(&t, 0, i);
            let after = copy_range(&t, i + 1, tlen);
            let r = trim_chars_exec(&after);
            proof {
                assert(w@ =~= trim_chars(body@).take(i as int));
                assert(after@ =~= trim_chars(body@).skip(i as int + 1));
            }
            (w, r)
        },
    };
    if chars_eq_str(&word, "show") || chars_eq_str(&word, "print") || chars_eq_str(
        &word,
        "display",
    ) {
        if rest.len() == 0 {
            TodoCommand::Print { category: None }
        } else {
            TodoCommand::Print { category: Some(chars_to_string(&rest)) }
        }
    } else if chars_eq_str(&word, "remove") || chars_eq_str(&word, "rm") || chars_eq_str(
        &word,
        "delete",
    ) {
        TodoCommand::Remove(chars_to_string(&rest))
    } else if chars_eq_str(&word, "done") || chars_eq_str(&word, "finish") || chars_eq_str(
        &word,
        "finished",
    ) || chars_eq_str(&word, "x") || chars_eq_str(&word, "X") {
        TodoCommand::Finish(chars_to_string(&rest))
    } else if chars_eq_str(&word, "add") {
        TodoCommand::Add { key: chars_to_string(&rest), category: None }
    } else {
        TodoCommand::Add { key: chars_to_string(&t), category: None }
    }
}

/// The priority the keyed item holds after an add: one more than before, or
/// one for a fresh key.
pub open spec fn add_priority(s: Seq<(Seq<char>, TodoItemV)>, key: Seq<char>) -> int {
    let i = find_pair(s, key);
    if i >= 0 {
        s[i].1.priority + 1
    } else {
        1
    }
}

/// The category the keyed item holds after an add: the given one if any,
/// else the one it had before (none for a fresh key).
pub open spec fn add_category(
    s: Seq<(Seq<char>, TodoItemV)>,
    key: Seq<char>,
    category: Option<Seq<char>>,
) -> Option<Seq<char>> {
    let i = find_pair(s, key);
    if i >= 0 && category is None {
        s[i].1.category
    } else {
        category
    }
}

/// The list after Add: the keyed item's priority rises by one (a fresh key
/// starts at one and is appended), and the category is overwritten when one
/// is given.
pub open spec fn add_item_v(
    s: Seq<(Seq<char>, TodoItemV)>,
    key: Seq<char>,
    category: Option<Seq<char>>,
) -> Seq<(Seq<char>, TodoItemV)> {
    let i = find_pair(s, key);
    if i >= 0 {
        s.update(
            i,
            (
                key,
                TodoItemV {
                    priority: s[i].1.priority + 1,
                    done: s[i].1.done,
                    category: add_category(s, key, category),
                },
            ),
        )
    } else {
        s.push((key, TodoItemV { priority: 1, done: false, category }))
    }
}

/// The list after Remove: the keyed item is gone; an absent key leaves the
/// list unchanged.
pub open spec fn remove_item_v(s: Seq<(Seq<char>, TodoItemV)>, key: Seq<char>) -> Seq<
    (Seq<char>, TodoItemV),
> {
    let i = find_pair(s, key);
    if i >= 0 {
        s.remove(i)
    } else {
        s
    }
}

/// The list after Finish: the keyed item is marked done; a fresh key is
/// appended as a done item of priority zero.
pub open spec fn finish_item_v(s: Seq<(Seq<char>, TodoItemV)>, key: Seq<char>) -> Seq<
    (Seq<char>, TodoItemV),
> {
    let i = find_pair(s, key);
    if i >= 0 {
        s.update(
            i,
            (key, TodoItemV { priority: s[i].1.priority, done: true, category: s[i].1.category }),
        )
    } else {
        s.push((key, TodoItemV { priority: 0, done: true, category: None }))
    }
}

/// The label a response shows for a keyed item: the quoted key, preceded by
/// the category in brackets when the item has one.
pub open spec fn key_label(key: Seq<char>, category: Option<Seq<char>>) -> Seq<char> {
    match category {
        Some(c) => "["@ + c + "] \""@ + key + "\""@,
        None => "\""@ + key + "\""@,
    }
}

/// The response to Add: a fresh-add form when the new priority is one, else
/// an update form naming the new priority.
pub open spec fn add_response(
    s: Seq<(Seq<char>, TodoItemV)>,
    key: Seq<char>,
    category: Option<Seq<char>>,
) -> Seq<char> {
    let p = add_priority(s, key);
    let label = key_label(key, add_category(s, key, category));
    if p == 1 {
        "Added item "@ + label + " to your list"@
    } else {
        "Updated item "@ + label + ", priority is "@ + dec_str(p as nat)
    }
}

/// The response to Remove; it does not depend on whether the key was
/// present.
pub open spec fn removed_response(key: Seq<char>) -> Seq<char> {
    "Removed \""@ + key + "\" from your list"@
}

/// The response to Finish.
pub open spec fn finished_response(key: Seq<char>) -> Seq<char> {
    "Marked \""@ + key + "\" as done"@
}

/// Whether an item's category passes the filter: no filter passes
/// everything; a filter passes exactly the items whose category equals it.
pub open spec fn cat_matches(item_cat: Option<Seq<char>>, filter: Option<Seq<char>>) -> bool {
    filter is None || item_cat == filter
}

/// The items at or after position `i` that pass the filter, in storage
/// order.
pub open spec fn filter_items_from(
    s: Seq<(Seq<char>, TodoItemV)>,
    i: int,
    filter: Option<Seq<char>>,
) -> Seq<(Seq<char>, TodoItemV)>
    decreases s.len() - i,
{
    if i >= s.len() {
        Seq::empty()
    } else {
        let rest = filter_items_from(s, i + 1, filter);
        if cat_matches(s[i].1.category, filter) {
            seq![s[i]] + rest
        } else {
            rest
        }
    }
}

/// The items that pass the filter, in storage order.
pub open spec fn filter_items(
    s: Seq<(Seq<char>, TodoItemV)>,
    filter: Option<Seq<char>>,
) -> Seq<(Seq<char>, TodoItemV)> {
    filter_items_from(s, 0, filter)
}

/// Inserts an item into a priority-descending sequence, after every item of
/// priority greater than or equal to its own.
pub open spec fn insert_desc(
    e: (Seq<char>, TodoItemV),
    s: Seq<(Seq<char>, TodoItemV)>,
) -> Seq<(Seq<char>, TodoItemV)>
    decreases s.len(),
{
    if s.len() == 0 {
        seq![e]
    } else if e.1.priority > s[0].1.priority {
        seq![e] + s
    } else {
        seq![s[0]] + insert_desc(e, s.drop_first())
    }
}

/// The items at or after position `i`, sorted by priority descending; items
/// of equal priority come out in reverse storage order.
pub open spec fn sort_desc_from(s: Seq<(Seq<char>, TodoItemV)>, i: int) -> Seq<
    (Seq<char>, TodoItemV),
>
    decreases s.len() - i,
{
    if i >= s.len() {
        Seq::empty()
    } else {
        insert_desc(s[i], sort_desc_from(s, i + 1))
    }
}

/// The whole sequence, sorted by priority descending.
pub open spec fn sort_desc(s: Seq<(Seq<char>, TodoItemV)>) -> Seq<(Seq<char>, TodoItemV)> {
    sort_desc_from(s, 0)
}

/// The greatest priority among the items at or after position `i`; zero for
/// none.
pub open spec fn max_priority_from(s: Seq<(Seq<char>, TodoItemV)>, i: int) -> int
    decreases s.len() - i,
{
    if i >= s.len() {
        0
    } else {
        let m = max_priority_from(s, i + 1);
        if s[i].1.priority > m {
            s[i].1.priority
        } else {
            m
        }
    }
}

/// The width of the printed priority column: the digit count of the greatest
/// priority in the whole list, or zero for an all-zero (or empty) list. This
/// equals the ceiling of the decimal logarithm of that maximum plus one.
pub open spec fn priority_width(s: Seq<(Seq<char>, TodoItemV)>) -> int {
    let m = max_priority_from(s, 0);
    if m == 0 {
        0
    } else {
        dec_str(m as nat).len() as int
    }
}

/// The priority rendered right-aligned in a column of the given width.
pub open spec fn padded_priority(p: nat, width: int) -> Seq<char> {
    let d = dec_str(p);
    if d.len() < width {
        spaces((width - d.len()) as nat) + d
    } else {
        d
    }
}

/// One printed line: the priority in parentheses, a checkbox, the category
/// tag (only when the view is unfiltered and the item has one), and the key.
pub open spec fn print_line(
    key: Seq<char>,
    item: TodoItemV,
    width: int,
    filtered: bool,
) -> Seq<char> {
    let check: Seq<char> = if item.done {
        seq!['X']
    } else {
        seq![' ']
    };
    let cat_str: Seq<char> = if filtered || item.category is None {
        Seq::empty()
    } else {
        " ["@ + item.category->0 + "]"@
    };
    "("@ + padded_priority(item.priority as nat, width) + ") ["@ + check + "]"@ + cat_str + " "@
        + key + "\n"@
}

/// The printed lines for the items at or after position `i`, concatenated.
pub open spec fn print_lines_from(
    s: Seq<(Seq<char>, TodoItemV)>,
    i: int,
    width: int,
    filtered: bool,
) -> Seq<char>
    decreases s.len() - i,
{
    if i >= s.len() {
        Seq::empty()
    } else {
        print_line(s[i].0, s[i].1, width, filtered) + print_lines_from(s, i + 1, width, filtered)
    }
}

/// The heading of a printed list.
pub open spec fn print_header(name: Seq<char>, filter: Option<Seq<char>>) -> Seq<char> {
    match filter {
        Some(c) => "TODO list for "@ + name + " in category ["@ + c + "]:\n"@,
        None => "TODO list for "@ + name + ":\n"@,
    }
}

/// The response to Print: the heading, then a fenced block holding one line
/// per passing item, sorted by priority descending. The column width is
/// computed over the whole list, so it is stable across filtered views.
pub open spec fn print_response(
    s: Seq<(Seq<char>, TodoItemV)>,
    filter: Option<Seq<char>>,
    name: Seq<char>,
) -> Seq<char> {
    print_header(name, filter) + "```\n"@ + print_lines_from(
        sort_desc(filter_items(s, filter)),
        0,
        priority_width(s),
        filter is Some,
    ) + "```\n"@
}

/// The list state after one command.
pub open spec fn todo_step_items(s: Seq<(Seq<char>, TodoItemV)>, c: TodoCommandV) -> Seq<
    (Seq<char>, TodoItemV),
> {
    match c {
        TodoCommandV::Print { .. } => s,
        TodoCommandV::Add { key, category } => add_item_v(s, key, category),
        TodoCommandV::Remove(key) => remove_item_v(s, key),
        TodoCommandV::Finish(key) => finish_item_v(s, key),
    }
}

/// The response to one command.
pub open spec fn todo_step_response(
    s: Seq<(Seq<char>, TodoItemV)>,
    c: TodoCommandV,
    name: Seq<char>,
) -> Seq<char> {
    match c {
        TodoCommandV::Print { category } => print_response(s, category, name),
        TodoCommandV::Add { key, category } => add_response(s, key, category),
        TodoCommandV::Remove(key) => removed_response(key),
        TodoCommandV::Finish(key) => finished_response(key),
    }
}

/// Add applied `n` times in a row for one key, with no category given.
pub open spec fn repeat_add(s: Seq<(Seq<char>, TodoItemV)>, key: Seq<char>, n: nat) -> Seq<
    (Seq<char>, TodoItemV),
>
    decreases n,
{
    if n == 0 {
        s
    } else {
        add_item_v(repeat_add(s, key, (n - 1) as nat), key, None)
    }
}

/// Law: after `n` adds of a key absent from the list, that key's item holds
/// priority exactly `n`.
pub proof fn lemma_repeat_add_priority(s: Seq<(Seq<char>, TodoItemV)>, key: Seq<char>, n: nat)
    requires
        find_pair(s, key) == -1,
        n >= 1,
    ensures
        ({
            let t = repeat_add(s, key, n);
            let i = find_pair(t, key);
            &&& 0 <= i < t.len()
            &&& t[i].1.priority == n
        }),
    decreases n,
{
    if n == 1 {
        lemma_find_pair_push_fresh(
            s,
            key,
            TodoItemV { priority: 1, done: false, category: None },
        );
    } else {
        lemma_repeat_add_priority(s, key, (n - 1) as nat);
        let t1 = repeat_add(s, key, (n - 1) as nat);
        let i = find_pair(t1, key);
        lemma_find_pair_update(
            t1,
            i,
            key,
            TodoItemV {
                priority: t1[i].1.priority + 1,
                done: t1[i].1.done,
                category: add_category(t1, key, None),
            },
        );
    }
}

/// Law: the response to adding a key that is absent (a fresh add) never
/// equals the response to adding a key whose item already holds a positive
/// priority (an update), whatever the lists, keys and categories involved.
pub proof fn lemma_add_response_forms(
    s1: Seq<(Seq<char>, TodoItemV)>,
    key1: Seq<char>,
    cat1: Option<Seq<char>>,
    s2: Seq<(Seq<char>, TodoItemV)>,
    key2: Seq<char>,
    cat2: Option<Seq<char>>,
)
    requires
        find_pair(s1, key1) == -1,
        find_pair(s2, key2) >= 0,
        s2[find_pair(s2, key2)].1.priority >= 1,
    ensures
        add_response(s1, key1, cat1) != add_response(s2, key2, cat2),
{
    reveal_strlit("Added item ");
    reveal_strlit("Updated item ");
    let r1 = add_response(s1, key1, cat1);
    let r2 = add_response(s2, key2, cat2);
    assert(r1[0] == 'A');
    assert(r2[0] == 'U');
}

/// Law: Remove answers with the same confirmation whether or not the key is
/// present, and never changes what another key maps to.
pub proof fn lemma_remove_props(
    s: Seq<(Seq<char>, TodoItemV)>,
    key: Seq<char>,
    other: Seq<char>,
    name: Seq<char>,
)
    requires
        other != key,
    ensures
        todo_step_response(s, TodoCommandV::Remove(key), name) == removed_response(key),
        pair_value(remove_item_v(s, key), other) == pair_value(s, other),
{
    lemma_find_pair(s, key);
    let i = find_pair(s, key);
    if i >= 0 {
        lemma_remove_preserves_others(s, i, other);
    }
}

/// Priority never increases along the sequence: each item's priority is at
/// least the next one's.
pub open spec fn sorted_desc(s: Seq<(Seq<char>, TodoItemV)>) -> bool {
    forall|i: int, j: int| 0 <= i <= j < s.len() ==> s[i].1.priority >= s[j].1.priority
}

proof fn lemma_insert_desc_props(e: (Seq<char>, TodoItemV), s: Seq<(Seq<char>, TodoItemV)>)
    requires
        sorted_desc(s),
    ensures
        sorted_desc(insert_desc(e, s)),
        insert_desc(e, s).to_multiset() == s.to_multiset().insert(e),
        insert_desc(e, s).len() == s.len() + 1,
        forall|j: int|
            0 <= j < insert_desc(e, s).len() ==> insert_desc(e, s)[j] == e || s.contains(
                #[trigger] insert_desc(e, s)[j],
            ),
    decreases s.len(),
{
    broadcast use vstd::seq_lib::group_seq_properties;

    let t = insert_desc(e, s);
    if s.len() == 0 {
        assert(t =~= Seq::<(Seq<char>, TodoItemV)>::empty().push(e));
        Seq::<(Seq<char>, TodoItemV)>::empty().to_multiset_ensures();
        assert(s.to_multiset() == Seq::<(Seq<char>, TodoItemV)>::empty().to_multiset());
        assert(t.to_multiset() =~= s.to_multiset().insert(e));
    } else if e.1.priority > s[0].1.priority {
        assert(t == seq![e] + s);
        vstd::seq_lib::lemma_multiset_commutative(seq![e], s);
        assert(seq![e] =~= Seq::<(Seq<char>, TodoItemV)>::empty().push(e));
        Seq::<(Seq<char>, TodoItemV)>::empty().to_multiset_ensures();
        assert(t.to_multiset() =~= s.to_multiset().insert(e));
        assert forall|i: int, j: int|
            0 <= i <= j < t.len() implies t[i].1.priority >= t[j].1.priority by {
            if i > 0 {
                assert(t[i] == s[i - 1]);
                assert(t[j] == s[j - 1]);
            } else if j > 0 {
                assert(t[j] == s[j - 1]);
                assert(s[0].1.priority >= s[j - 1].1.priority);
            }
        }
        assert forall|j: int| 0 <= j < t.len() implies t[j] == e || s.contains(
            #[trigger] t[j],
        ) by {
            if j > 0 {
                assert(t[j] == s[j - 1]);
            }
        }
    } else {
        let rest = s.drop_first();
        assert forall|i: int, j: int|
            0 <= i <= j < rest.len() implies rest[i].1.priority >= rest[j].1.priority by {
            assert(rest[i] == s[i + 1]);
            assert(rest[j] == s[j + 1]);
        }
        lemma_insert_desc_props(e, rest);
        let u = insert_desc(e, rest);
        assert(t == seq![s[0]] + u);
        // Multiset equality.
        vstd::seq_lib::lemma_multiset_commutative(seq![s[0]], u);
        vstd::seq_lib::lemma_multiset_commutative(seq![s[0]], rest);
        assert(s =~= seq![s[0]] + rest);
        assert(t.to_multiset() =~= s.to_multiset().insert(e));
        // Every element of the result is the inserted one or comes from `s`.
        assert forall|j: int| 0 <= j < t.len() implies t[j] == e || s.contains(
            #[trigger] t[j],
        ) by {
            if j == 0 {
                assert(t[0] == s[0]);
                assert(s.contains(s[0]));
            } else {
                assert(t[j] == u[j - 1]);
                if u[j - 1] == e {
                } else {
                    let m = choose|m: int| 0 <= m < rest.len() && rest[m] == u[j - 1];
                    assert(s[m + 1] == rest[m]);
                    assert(s.contains(s[m + 1]));
                }
            }
        }
        // Order: the head is at least everything inserted behind it.
        assert forall|i: int, j: int|
            0 <= i <= j < t.len() implies t[i].1.priority >= t[j].1.priority by {
            if i == 0 && j > 0 {
                assert(t[j] == u[j - 1]);
                if u[j - 1] == e {
                    assert(s[0].1.priority >= e.1.priority);
                } else {
                    let m = choose|m: int| 0 <= m < rest.len() && rest[m] == u[j - 1];
                    assert(rest[m] == s[m + 1]);
                    assert(s[0].1.priority >= s[m + 1].1.priority);
                }
            } else if i > 0 {
                assert(t[i] == u[i - 1]);
                assert(t[j] == u[j - 1]);
            }
        }
    }
}

proof fn lemma_sort_desc_from_props(s: Seq<(Seq<char>, TodoItemV)>, i: int)
    requires
        0 <= i <= s.len(),
    ensures
        sorted_desc(sort_desc_from(s, i)),
        sort_desc_from(s, i).to_multiset() == s.skip(i).to_multiset(),
        sort_desc_from(s, i).len() == s.len() - i,
    decreases s.len() - i,
{
    broadcast use vstd::seq_lib::group_seq_properties;

    if i < s.len() {
        lemma_sort_desc_from_props(s, i + 1);
        let rest = sort_desc_from(s, i + 1);
        lemma_insert_desc_props(s[i], rest);
        assert(s.skip(i) =~= seq![s[i]] + s.skip(i + 1));
        vstd::seq_lib::lemma_multiset_commutative(seq![s[i]], s.skip(i + 1));
        assert(seq![s[i]] =~= Seq::<(Seq<char>, TodoItemV)>::empty().push(s[i]));
        Seq::<(Seq<char>, TodoItemV)>::empty().to_multiset_ensures();
        assert(sort_desc_from(s, i).to_multiset() =~= s.skip(i).to_multiset());
    } else {
        assert(s.skip(i) =~= Seq::<(Seq<char>, TodoItemV)>::empty());
        assert(sort_desc_from(s, i) == Seq::<(Seq<char>, TodoItemV)>::empty());
    }
}

/// Law: a printed list shows the items that pass the filter in an order of
/// never-increasing priority (so distinct priorities come out strictly
/// descending), and shows each of them exactly once.
pub proof fn lemma_print_order(s: Seq<(Seq<char>, TodoItemV)>, filter: Option<Seq<char>>)
    ensures
        sorted_desc(sort_desc(filter_items(s, filter))),
        sort_desc(filter_items(s, filter)).to_multiset() == filter_items(s, filter).to_multiset(),
        sort_desc(filter_items(s, filter)).len() == filter_items(s, filter).len(),
{
    let f = filter_items(s, filter);
    lemma_sort_desc_from_props(f, 0);
    assert(f.skip(0) =~= f);
}

proof fn lemma_filter_from_exact(
    s: Seq<(Seq<char>, TodoItemV)>,
    i: int,
    filter: Option<Seq<char>>,
)
    requires
        0 <= i <= s.len(),
    ensures
        forall|j: int|
            0 <= j < filter_items_from(s, i, filter).len() ==> cat_matches(
                #[trigger] filter_items_from(s, i, filter)[j].1.category,
                filter,
            ),
        forall|j: int|
            i <= j < s.len() && cat_matches(s[j].1.category, filter) ==> filter_items_from(
                s,
                i,
                filter,
            ).contains(#[trigger] s[j]),
    decreases s.len() - i,
{
    if i < s.len() {
        lemma_filter_from_exact(s, i + 1, filter);
        let rest = filter_items_from(s, i + 1, filter);
        let t = filter_items_from(s, i, filter);
        if cat_matches(s[i].1.category, filter) {
            assert(t == seq![s[i]] + rest);
            assert(t[0] == s[i]);
            assert forall|j: int|
                i <= j < s.len() && cat_matches(s[j].1.category, filter) implies t.contains(
                #[trigger] s[j],
            ) by {
                if j == i {
                    assert(t[0] == s[j]);
                } else {
                    let m = choose|m: int| 0 <= m < rest.len() && rest[m] == s[j];
                    assert(t[m + 1] == s[j]);
                }
            }
            assert forall|j: int|
                0 <= j < t.len() implies cat_matches(#[trigger] t[j].1.category, filter) by {
                if j > 0 {
                    assert(t[j] == rest[j - 1]);
                }
            }
        } else {
            assert forall|j: int|
                i <= j < s.len() && cat_matches(s[j].1.category, filter) implies t.contains(
                #[trigger] s[j],
            ) by {
                let m = choose|m: int| 0 <= m < rest.len() && rest[m] == s[j];
                assert(t[m] == s[j]);
            }
        }
    }
}

/// Law: a filtered print passes exactly the items whose category equals the
/// filter, compared whole; and every item passes the unfiltered view.
pub proof fn lemma_filter_category_exact(s: Seq<(Seq<char>, TodoItemV)>, c: Seq<char>)
    ensures
        forall|j: int|
            0 <= j < filter_items(s, Some(c)).len() ==> (#[trigger] filter_items(s, Some(c))[j])
                .1.category == Some(c),
        forall|j: int|
            0 <= j < s.len() && s[j].1.category == Some(c) ==> filter_items(s, Some(c)).contains(
                #[trigger] s[j],
            ),
        filter_items(s, None) == s,
{
    lemma_filter_from_exact(s, 0, Some(c));
    lemma_filter_none_from(s, 0);
    assert(filter_items(s, None) =~= s.skip(0));
    assert(s.skip(0) =~= s);
}

proof fn lemma_filter_none_from(s: Seq<(Seq<char>, TodoItemV)>, i: int)
    requires
        0 <= i <= s.len(),
    ensures
        filter_items_from(s, i, None) == s.skip(i),
    decreases s.len() - i,
{
    if i < s.len() {
        lemma_filter_none_from(s, i + 1);
        assert(filter_items_from(s, i, None) =~= s.skip(i));
    } else {
        assert(filter_items_from(s, i, None) =~= s.skip(i));
    }
}

fn clone_opt(c: &Option<String>) -> (r: Option<String>)
    ensures
        r.deep_view() == c.deep_view(),
{
    match c {
        Some(s) => Some(s.clone()),
        None => None,
    }
}

fn clone_entry(e: &(String, TodoItem)) -> (r: (String, TodoItem))
    ensures
        r.deep_view() == e.deep_view(),
{
    (
        e.0.clone(),
        TodoItem { priority: e.1.priority, done: e.1.done, category: clone_opt(&e.1.category) },
    )
}

fn matches_filter(item_cat: &Option<String>, filter: &Option<String>) -> (r: bool)
    ensures
        r == cat_matches(item_cat.deep_view(), filter.deep_view()),
{
    match filter {
        None => true,
        Some(f) => match item_cat {
            Some(c) => *c == *f,
            None => false,
        },
    }
}

fn find_key(items: &Vec<(String, TodoItem)>, key: &String) -> (r: Option<usize>)
    ensures
        match r {
            Some(i) => find_pair(items.deep_view(), key@) == i && i < items@.len(),
            None => find_pair(items.deep_view(), key@) == -1,
        },
{
    let ghost dv = items.deep_view();
    let mut j: usize = 0;
    while j < items.len()
        invariant
            j <= items@.len(),
            dv == items.deep_view(),
            dv.len() == items@.len(),
            find_pair_from(dv, 0, key@) == find_pair_from(dv, j as int, key@),
        decreases items@.len() - j,
    {
        proof {
            assert(dv[j as int] == items@[j as int].deep_view());
        }
        if items[j].0 == *key {
            return Some(j);
        }
        j = j + 1;
    }
    None
}

/// Inserting at the position found by a front-to-back scan realizes
/// [`insert_desc`].
proof fn lemma_insert_desc_at(
    e: (Seq<char>, TodoItemV),
    s: Seq<(Seq<char>, TodoItemV)>,
    p: int,
)
    requires
        0 <= p <= s.len(),
        forall|j: int| 0 <= j < p ==> !(e.1.priority > s[j].1.priority),
        p < s.len() ==> e.1.priority > s[p].1.priority,
    ensures
        insert_desc(e, s) == s.take(p) + seq![e] + s.skip(p),
    decreases p,
{
    if p == 0 {
        assert(insert_desc(e, s) =~= s.take(0) + seq![e] + s.skip(0));
    } else {
        let rest = s.drop_first();
        assert forall|j: int| 0 <= j < p - 1 implies !(e.1.priority > rest[j].1.priority) by {
            assert(rest[j] == s[j + 1]);
        }
        lemma_insert_desc_at(e, rest, p - 1);
        assert(rest.take(p - 1) =~= s.subrange(1, p));
        assert(rest.skip(p - 1) =~= s.skip(p));
        assert(insert_desc(e, s) =~= s.take(p) + seq![e] + s.skip(p));
    }
}

fn insert_sorted(e: (String, TodoItem), v: &mut Vec<(String, TodoItem)>)
    ensures
        final(v).deep_view() == insert_desc(e.deep_view(), old(v).deep_view()),
{
    let ghost dv = v.deep_view();
    let ghost ev = e.deep_view();
    let mut p: usize = 0;
    while p < v.len() && !(e.1.priority > v[p].1.priority)
        invariant
            p <= v@.len(),
            v == old(v),
            dv == v.deep_view(),
            dv.len() == v@.len(),
            ev == e.deep_view(),
            forall|j: int| 0 <= j < p ==> !(ev.1.priority > dv[j].1.priority),
        decreases v@.len() - p,
    {
        proof {
            assert(dv[p as int] == v@[p as int].deep_view());
        }
        p = p + 1;
    }
    proof {
        if p < v.len() {
            assert(dv[p as int] == v@[p as int].deep_view());
        }
        lemma_insert_desc_at(ev, dv, p as int);
    }
    v.insert(p, e);
    proof {
        assert(v.deep_view() =~= dv.take(p as int) + seq![ev] + dv.skip(p as int));
    }
}

fn sort_entries(v: &Vec<(String, TodoItem)>) -> (r: Vec<(String, TodoItem)>)
    ensures
        r.deep_view() == sort_desc(v.deep_view()),
{
    let ghost dv = v.deep_view();
    let mut sorted: Vec<(String, TodoItem)> = Vec::new();
    let mut i: usize = v.len();
    proof {
        assert(sorted.deep_view() =~= sort_desc_from(dv, i as int));
    }
    while i > 0
        invariant
            i <= v@.len(),
            dv == v.deep_view(),
            dv.len() == v@.len(),
            sorted.deep_view() == sort_desc_from(dv, i as int),
        decreases i,
    {
        i = i - 1;
        let e = clone_entry(&v[i]);
        proof {
            assert(dv[i as int] == v@[i as int].deep_view());
        }
        insert_sorted(e, &mut sorted);
    }
    sorted
}

fn filter_entries(items: &Vec<(String, TodoItem)>, filter: &Option<String>) -> (r: Vec<
    (String, TodoItem),
>)
    ensures
        r.deep_view() == filter_items(items.deep_view(), filter.deep_view()),
{
    let ghost dv = items.deep_view();
    let ghost fv = filter.deep_view();
    let mut r: Vec<(String, TodoItem)> = Vec::new();
    let mut i: usize = 0;
    while i < items.len()
        invariant
            i <= items@.len(),
            dv == items.deep_view(),
            dv.len() == items@.len(),
            fv == filter.deep_view(),
            filter_items(dv, fv) == r.deep_view() + filter_items_from(dv, i as int, fv),
        decreases items@.len() - i,
    {
        proof {
            assert(dv[i as int] == items@[i as int].deep_view());
        }
        if matches_filter(&items[i].1.category, filter) {
            let e = clone_entry(&items[i]);
            r.push(e);
            proof {
                assert(r.deep_view().drop_last() + seq![dv[i as int]] =~= r.deep_view());
            }
        }
        i = i + 1;
        proof {
            assert(filter_items(dv, fv) =~= r.deep_view() + filter_items_from(dv, i as int, fv));
        }
    }
    proof {
        assert(filter_items(dv, fv) =~= r.deep_view());
    }
    r
}

fn max_priority_exec(items: &Vec<(String, TodoItem)>) -> (m: u32)
    ensures
        m as int == max_priority_from(items.deep_view(), 0),
{
    let ghost dv = items.deep_view();
    let mut m: u32 = 0;
    let mut i: usize = items.len();
    while i > 0
        invariant
            i <= items@.len(),
            dv == items.deep_view(),
            dv.len() == items@.len(),
            m as int == max_priority_from(dv, i as int),
        decreases i,
    {
        i = i - 1;
        proof {
            assert(dv[i as int] == items@[i as int].deep_view());
        }
        if items[i].1.priority > m {
            m = items[i].1.priority;
        }
    }
    m
}

fn push_key_label(out: &mut Vec<char>, key: &String, category: &Option<String>)
    ensures
        final(out)@ == old(out)@ + key_label(key@, category.deep_view()),
{
    match category {
        Some(c) => {
            push_str_chars(out, "[");
            push_str_chars(out, c.as_str());
            push_str_chars(out, "] \"");
            push_str_chars(out, key.as_str());
            push_str_chars(out, "\"");
            assert(out@ =~= old(out)@ + key_label(key@, category.deep_view()));
        },
        None => {
            push_str_chars(out, "\"");
            push_str_chars(out, key.as_str());
            push_str_chars(out, "\"");
            assert(out@ =~= old(out)@ + key_label(key@, category.deep_view()));
        },
    }
}

#[verifier::rlimit(30)]
fn render_line(out: &mut Vec<char>, e: &(String, TodoItem), width: usize, filtered: bool)
    ensures
        final(out)@ == old(out)@ + print_line(
            e.deep_view().0,
            e.deep_view().1,
            width as int,
            filtered,
        ),
{
    push_str_chars(out, "(");
    let mut dbuf: Vec<char> = Vec::new();
    push_u32(&mut dbuf, e.1.priority);
    if dbuf.len() < width {
        push_spaces(out, width - dbuf.len());
    }
    push_str_chars(out, chars_to_string(&dbuf).as_str());
    push_str_chars(out, ") [");
    if e.1.done {
        out.push('X');
    } else {
        out.push(' ');
    }
    push_str_chars(out, "]");
    if !filtered {
        match &e.1.category {
            Some(c) => {
                push_str_chars(out, " [");
                push_str_chars(out, c.as_str());
                push_str_chars(out, "]");
            },
            None => {},
        }
    }
    push_str_chars(out, " ");
    push_str_chars(out, e.0.as_str());
    push_str_chars(out, "\n");
    proof {
        assert(out@ =~= old(out)@ + print_line(
            e.deep_view().0,
            e.deep_view().1,
            width as int,
            filtered,
        ));
    }
}

fn render_lines(
    out: &mut Vec<char>,
    entries: &Vec<(String, TodoItem)>,
    width: usize,
    filtered: bool,
)
    ensures
        final(out)@ == old(out)@ + print_lines_from(entries.deep_view(), 0, width as int, filtered),
{
    let ghost dv = entries.deep_view();
    let mut i: usize = 0;
    while i < entries.len()
        invariant
            i <= entries@.len(),
            dv == entries.deep_view(),
            dv.len() == entries@.len(),
            old(out)@ + print_lines_from(dv, 0, width as int, filtered) == out@
                + print_lines_from(dv, i as int, width as int, filtered),
        decreases entries@.len() - i,
    {
        proof {
            assert(dv[i as int] == entries@[i as int].deep_view());
        }
        render_line(out, &entries[i], width, filtered);
        i = i + 1;
        proof {
            assert(old(out)@ + print_lines_from(dv, 0, width as int, filtered) =~= out@
                + print_lines_from(dv, i as int, width as int, filtered));
        }
    }
    proof {
        assert(final(out)@ =~= old(out)@ + print_lines_from(dv, 0, width as int, filtered));
    }
}

/// Performs the core logic for handling a TODO command.
///
/// Updates `todo_list` to the new list state and returns the message that
/// should be sent back to the channel where the command was given.
pub fn handle_command(command: TodoCommand, todo_list: &mut TodoList, author: &Author) -> (response:
    String)
    requires
        old(todo_list).wf(),
        (command.deep_view() matches TodoCommandV::Add { key, .. } ==> add_priority(
            old(todo_list)@.items,
            key,
        ) <= u32::MAX),
    ensures
        final(todo_list)@.items == todo_step_items(old(todo_list)@.items, command.deep_view()),
        final(todo_list)@.user_id == old(todo_list)@.user_id,
        final(todo_list).wf(),
        response@ == todo_step_response(
            old(todo_list)@.items,
            command.deep_view(),
            author.name@,
        ),
{
    let ghost old_dv = todo_list@.items;
    match command {
        TodoCommand::Add { key, category } => {
            let ghost key_v = key@;
            let ghost cat_v = category.deep_view();
            let r = find_key(&todo_list.items, &key);
            proof {
                lemma_find_pair(old_dv, key_v);
            }
            let (new_prio, new_done, new_cat): (u32, bool, Option<String>) = match r {
                Some(i) => {
                    proof {
                        assert(old_dv[i as int] == todo_list.items@[i as int].deep_view());
                    }
                    let e = &todo_list.items[i];
                    let np = e.1.priority + 1;
                    let nc: Option<String> = match category {
                        Some(c) => Some(c),
                        None => clone_opt(&e.1.category),
                    };
                    (np, e.1.done, nc)
                },
                None => (1, false, category),
            };
            proof {
                assert(new_prio as int == add_priority(old_dv, key_v));
                assert(new_cat.deep_view() == add_category(old_dv, key_v, cat_v));
            }
            let mut out: Vec<char> = Vec::new();
            if new_prio == 1 {
                push_str_chars(&mut out, "Added item ");
                push_key_label(&mut out, &key, &new_cat);
                push_str_chars(&mut out, " to your list");
                assert(out@ =~= add_response(old_dv, key_v, cat_v));
            } else {
                push_str_chars(&mut out, "Updated item ");
                push_key_label(&mut out, &key, &new_cat);
                push_str_chars(&mut out, ", priority is ");
                push_u32(&mut out, new_prio);
                assert(out@ =~= add_response(old_dv, key_v, cat_v));
            }
            let response = chars_to_string(&out);
            let item = TodoItem { priority: new_prio, done: new_done, category: new_cat };
            match r {
                Some(i) => {
                    todo_list.items.set(i, (key, item));
                    proof {
                        assert(todo_list@.items =~= add_item_v(old_dv, key_v, cat_v));
                    }
                },
                None => {
                    todo_list.items.push((key, item));
                    proof {
                        assert(todo_list@.items =~= add_item_v(old_dv, key_v, cat_v));
                    }
                },
            }
            response
        },
        TodoCommand::Remove(key) => {
            let ghost key_v = key@;
            let r = find_key(&todo_list.items, &key);
            proof {
                lemma_find_pair(old_dv, key_v);
            }
            match r {
                Some(i) => {
                    todo_list.items.remove(i);
                    proof {
                        assert(todo_list@.items =~= remove_item_v(old_dv, key_v));
                    }
                },
                None => {
                    proof {
                        assert(todo_list@.items =~= remove_item_v(old_dv, key_v));
                    }
                },
            }
            let mut out: Vec<char> = Vec::new();
            push_str_chars(&mut out, "Removed \"");
            push_str_chars(&mut out, key.as_str());
            push_str_chars(&mut out, "\" from your list");
            assert(out@ =~= removed_response(key_v));
            chars_to_string(&out)
        },
        TodoCommand::Finish(key) => {
            let ghost key_v = key@;
            let r = find_key(&todo_list.items, &key);
            proof {
                lemma_find_pair(old_dv, key_v);
            }
            match r {
                Some(i) => {
                    proof {
                        assert(old_dv[i as int] == todo_list.items@[i as int].deep_view());
                    }
                    let prio = todo_list.items[i].1.priority;
                    let cat = clone_opt(&todo_list.items[i].1.category);
                    let key2 = key.clone();
                    todo_list.items.set(
                        i,
                        (key2, TodoItem { priority: prio, done: true, category: cat }),
                    );
                    proof {
                        assert(todo_list@.items =~= finish_item_v(old_dv, key_v));
                    }
                },
                None => {
                    let key2 = key.clone();
                    todo_list.items.push(
                        (key2, TodoItem { priority: 0, done: true, category: None }),
                    );
                    proof {
                        assert(todo_list@.items =~= finish_item_v(old_dv, key_v));
                    }
                },
            }
            let mut out: Vec<char> = Vec::new();
            push_str_chars(&mut out, "Marked \"");
            push_str_chars(&mut out, key.as_str());
            push_str_chars(&mut out, "\" as done");
            assert(out@ =~= finished_response(key_v));
            chars_to_string(&out)
        },
        TodoCommand::Print { category } => {
            let ghost cat_v = category.deep_view();
            let mut out: Vec<char> = Vec::new();
            match &category {
                Some(c) => {
                    push_str_chars(&mut out, "TODO list for ");
                    push_str_chars(&mut out, author.name.as_str());
                    push_str_chars(&mut out, " in category [");
                    push_str_chars(&mut out, c.as_str());
                    push_str_chars(&mut out, "]:\n");
                },
                None => {
                    push_str_chars(&mut out, "TODO list for ");
                    push_str_chars(&mut out, author.name.as_str());
                    push_str_chars(&mut out, ":\n");
                },
            }
            assert(out@ =~= print_header(author.name@, cat_v));
            push_str_chars(&mut out, "```\n");
            let maxp = max_priority_exec(&todo_list.items);
            let width: usize = if maxp == 0 {
                0
            } else {
                let mut dbuf: Vec<char> = Vec::new();
                push_u32(&mut dbuf, maxp);
                dbuf.len()
            };
            proof {
                assert(width as int == priority_width(old_dv));
            }
            let filtered = filter_entries(&todo_list.items, &category);
            let sorted = sort_entries(&filtered);
            render_lines(&mut out, &sorted, width, category.is_some());
            push_str_chars(&mut out, "```\n");
            assert(out@ =~= print_response(old_dv, cat_v, author.name@));
            chars_to_string(&out)
        },
    }
}

} // verus!
