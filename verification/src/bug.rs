//! The shared bug list engine.
//!
//! All users report into one global list. A bug gets a number when it is
//! reported (one more than the item count at that moment), a reporter, and
//! three text fields read by the tokenizer. Anyone can print a bug's
//! details, print every open bug, or add a "+1" to note that they hit the
//! same bug. Removal stays unavailable until bug numbers are allocated in a
//! reuse-safe way.

use crate::list::find_pair;
use crate::list::find_pair_from;
use crate::list::lemma_find_pair;
use crate::list::unique_keys;
use crate::text::chars_eq_str;
use crate::text::chars_to_string;
use crate::text::copy_range;
use crate::text::dec_str;
use crate::text::find_ws_from;
use crate::text::find_ws_idx;
use crate::text::parse_u32_chars;
use crate::text::parse_u32_spec;
use crate::text::push_chars;
use crate::text::push_str_chars;
use crate::text::push_u32;
use crate::text::push_u64;
use crate::text::str_to_chars;
use crate::text::trim_chars;
use crate::text::trim_chars_exec;
use crate::tokenizer::tokenize_chars;
use crate::tokenizer::tokenize_spec;
use crate::CommandError;
use vstd::prelude::*;

verus! {

/// Whether a bug is still open.
#[derive(Debug, Clone, PartialEq, Eq)]
pub enum BugStatus {
    Open,
    Closed,
}

/// The text a status renders as.
pub open spec fn status_text(s: BugStatus) -> Seq<char> {
    match s {
        BugStatus::Open => "Open"@,
        BugStatus::Closed => "Closed"@,
    }
}

impl BugStatus {
    /// Renders the status as text.
    pub fn label(&self) -> (r: &'static str)
        ensures
            r@ == status_text(*self),
    {
        match self {
            BugStatus::Open => "Open",
            BugStatus::Closed => "Closed",
        }
    }
}

impl Default for BugStatus {
    /// A fresh bug starts open.
    fn default() -> (r: BugStatus)
        ensures
            r == BugStatus::Open,
    {
        BugStatus::Open
    }
}

/// A single bug in the shared list.
#[derive(Debug, Clone)]
pub struct BugItem {
    pub number: u32,
    pub priority: u32,
    pub status: BugStatus,
    pub labels: Vec<String>,
    pub name: String,
    pub summary: String,
    pub details: String,
    pub reporter: u64,
    pub plus_ones: Vec<u64>,
}

/// The mathematical value of a [`BugItem`].
pub ghost struct BugItemV {
    pub number: u32,
    pub priority: int,
    pub status: BugStatus,
    pub labels: Seq<Seq<char>>,
    pub name: Seq<char>,
    pub summary: Seq<char>,
    pub details: Seq<char>,
    pub reporter: u64,
    pub plus_ones: Seq<u64>,
}

impl DeepView for BugItem {
    type V = BugItemV;

    open spec fn deep_view(&self) -> BugItemV {
        BugItemV {
            number: self.number,
            priority: self.priority as int,
            status: self.status,
            labels: self.labels.deep_view(),
            name: self.name.deep_view(),
            summary: self.summary.deep_view(),
            details: self.details.deep_view(),
            reporter: self.reporter,
            plus_ones: self.plus_ones.deep_view(),
        }
    }
}

/// A global list of bugs, keyed by bug number.
#[derive(Debug, Clone)]
pub struct BugList {
    /// The bugs in the global list, keyed by bug number.
    items: Vec<(u32, BugItem)>,
}

impl View for BugList {
    type V = Seq<(u32, BugItemV)>;

    closed spec fn view(&self) -> Seq<(u32, BugItemV)> {
        self.items.deep_view()
    }
}

impl BugList {
    /// Well-formedness: every two bugs carry different numbers.
    pub open spec fn wf(&self) -> bool {
        unique_keys(self@)
    }

    /// An empty bug list.
    pub fn new() -> (r: BugList)
        ensures
            r@ == Seq::<(u32, BugItemV)>::empty(),
            r.wf(),
    {
        let r = BugList { items: Vec::new() };
        proof {
            assert(r@ =~= Seq::<(u32, BugItemV)>::empty());
        }
        r
    }
}

impl BugList {
    /// The number of bugs in the list.
    pub fn len(&self) -> (r: usize)
        ensures
            r == self@.len(),
    {
        self.items.len()
    }
}

impl Default for BugList {
    /// An empty bug list.
    fn default() -> (r: BugList)
        ensures
            r@ == Seq::<(u32, BugItemV)>::empty(),
            r.wf(),
    {
        BugList::new()
    }
}

/// One typed `!bug` command, with the text following the command word.
pub ghost enum BugCommandV {
    Report(Seq<char>),
    PlusOne(Seq<char>),
    Print(Seq<char>),
    PrintAll,
    Help,
}

/// How a command body is classified: the body is trimmed and split at its
/// first whitespace character into a command word and the rest. An empty
/// body prints the whole list; a body without whitespace is read as a
/// report's argument; an unrecognized command word degrades to help.
pub open spec fn classify_bug(body: Seq<char>) -> BugCommandV {
    let t = trim_chars(body);
    let i = find_ws_from(t, 0);
    if i == -1 {
        if t.len() == 0 {
            BugCommandV::PrintAll
        } else {
            BugCommandV::Report(t)
        }
    } else {
        let word = t.take(i);
        let rest = t.skip(i + 1);
        if word == "show"@ || word == "print"@ || word == "display"@ || word.len() == 0 {
            BugCommandV::Print(rest)
        } else if word == "report"@ || word == "add"@ {
            BugCommandV::Report(rest)
        } else if word == "+1"@ {
            BugCommandV::PlusOne(rest)
        } else {
            BugCommandV::Help
        }
    }
}

/// The number a new bug gets: one more than the current item count.
pub open spec fn next_bug_number(s: Seq<(u32, BugItemV)>) -> u32 {
    (s.len() + 1) as u32
}

/// The bug a report creates: open, unprioritized, unlabeled, with no
/// plus-ones, reported by the caller.
pub open spec fn new_bug_v(
    s: Seq<(u32, BugItemV)>,
    fields: (Seq<char>, Seq<char>, Seq<char>),
    reporter: u64,
) -> BugItemV {
    BugItemV {
        number: next_bug_number(s),
        priority: 0,
        status: BugStatus::Open,
        labels: Seq::empty(),
        name: fields.0,
        summary: fields.1,
        details: fields.2,
        reporter,
        plus_ones: Seq::empty(),
    }
}

/// The list after a report: the new bug stands under its number; a
/// colliding number is overwritten in place. A malformed argument leaves
/// the list unchanged.
pub open spec fn report_step_items(s: Seq<(u32, BugItemV)>, rest: Seq<char>, reporter: u64) -> Seq<
    (u32, BugItemV),
> {
    match tokenize_spec(trim_chars(rest)) {
        None => s,
        Some(fields) => {
            let n = next_bug_number(s);
            let item = new_bug_v(s, fields, reporter);
            let i = find_pair(s, n);
            if i >= 0 {
                s.update(i, (n, item))
            } else {
                s.push((n, item))
            }
        },
    }
}

/// The response to a well-formed report.
pub open spec fn report_response(n: u32, name: Seq<char>) -> Seq<char> {
    "Added bug #"@ + dec_str(n as nat) + " \""@ + name + "\" to the list"@
}

/// The reply to a report: the response, or the tokenizer's error.
pub open spec fn report_step_reply(s: Seq<(u32, BugItemV)>, rest: Seq<char>, reporter: u64) -> Result<
    Seq<char>,
    CommandError,
> {
    match tokenize_spec(trim_chars(rest)) {
        None => Err(CommandError::MalformedInput),
        Some(fields) => Ok(report_response(next_bug_number(s), fields.0)),
    }
}

/// The response when no bug carries the asked-for number; it echoes the
/// argument text as the user wrote it.
pub open spec fn not_found_response(rest: Seq<char>) -> Seq<char> {
    "I couldn't find a bug with the number "@ + rest + " in the global list."@
}

/// The detail block printed for one bug; the heading echoes the argument
/// text as the user wrote it.
pub open spec fn bug_detail(rest: Seq<char>, b: BugItemV) -> Seq<char> {
    "#"@ + rest + " "@ + b.name + "\n"@ + b.summary + ":\n"@ + b.details + ":\n"@ + "Priority: "@
        + dec_str(b.priority as nat) + "\n"@ + "Status: "@ + status_text(b.status) + "\n"@
        + "Labels: "@ + join_comma_from(b.labels, 0) + "\n"@ + "Reporter: "@ + dec_str(
        b.reporter as nat,
    ) + "\n"@ + "Plus Ones: "@ + dec_str(b.plus_ones.len()) + "\n"@
}

/// The labels at or after position `i`, joined with a comma and a space.
pub open spec fn join_comma_from(parts: Seq<Seq<char>>, i: int) -> Seq<char>
    decreases parts.len() - i,
{
    if i >= parts.len() {
        Seq::empty()
    } else if i == parts.len() - 1 {
        parts[i]
    } else {
        parts[i] + ", "@ + join_comma_from(parts, i + 1)
    }
}

/// The reply to printing one bug: its details, a not-found message, or the
/// number error.
pub open spec fn print_step_reply(s: Seq<(u32, BugItemV)>, rest: Seq<char>) -> Result<
    Seq<char>,
    CommandError,
> {
    match parse_u32_spec(trim_chars(rest)) {
        None => Err(CommandError::InvalidArgument),
        Some(n) => {
            let i = find_pair(s, n);
            if i >= 0 {
                Ok(bug_detail(rest, s[i].1))
            } else {
                Ok(not_found_response(rest))
            }
        },
    }
}

/// The list after a plus-one: the caller is appended to the bug's
/// plus-ones, even if already present. An absent number or a malformed one
/// leaves the list unchanged.
pub open spec fn plus_one_items(s: Seq<(u32, BugItemV)>, rest: Seq<char>, caller: u64) -> Seq<
    (u32, BugItemV),
> {
    match parse_u32_spec(trim_chars(rest)) {
        None => s,
        Some(n) => {
            let i = find_pair(s, n);
            if i >= 0 {
                s.update(
                    i,
                    (
                        n,
                        BugItemV {
                            plus_ones: s[i].1.plus_ones.push(caller),
                            number: s[i].1.number,
                            priority: s[i].1.priority,
                            status: s[i].1.status,
                            labels: s[i].1.labels,
                            name: s[i].1.name,
                            summary: s[i].1.summary,
                            details: s[i].1.details,
                            reporter: s[i].1.reporter,
                        },
                    ),
                )
            } else {
                s
            }
        },
    }
}

/// The response to a plus-one on a present bug; the count it shows is the
/// number of plus-ones before the caller's own.
pub open spec fn plus_one_response(others: nat) -> Seq<char> {
    "I'm sorry to hear that you're also experiencing this issue.\nAt least you've got "@ + dec_str(
        others,
    ) + " other(s) for company."@
}

/// The reply to a plus-one: the sympathy response, a not-found message, or
/// the number error.
pub open spec fn plus_one_reply(s: Seq<(u32, BugItemV)>, rest: Seq<char>, caller: u64) -> Result<
    Seq<char>,
    CommandError,
> {
    match parse_u32_spec(trim_chars(rest)) {
        None => Err(CommandError::InvalidArgument),
        Some(n) => {
            let i = find_pair(s, n);
            if i >= 0 {
                Ok(plus_one_response(s[i].1.plus_ones.len()))
            } else {
                Ok(not_found_response(rest))
            }
        },
    }
}

/// The summary line printed for one bug in the whole-list view.
pub open spec fn bug_summary_line(b: BugItemV) -> Seq<char> {
    "#"@ + dec_str(b.number as nat) + " "@ + b.name + "\t"@ + b.summary + "\t("@ + dec_str(
        b.plus_ones.len(),
    ) + " +1s)\t["@ + join_comma_from(b.labels, 0) + "]"@
}

/// The whole-list view: the summary lines of every bug not yet closed, in
/// storage order, concatenated without separators.
pub open spec fn print_all_from(s: Seq<(u32, BugItemV)>, i: int) -> Seq<char>
    decreases s.len() - i,
{
    if i >= s.len() {
        Seq::empty()
    } else {
        let line: Seq<char> = if s[i].1.status != BugStatus::Closed {
            bug_summary_line(s[i].1)
        } else {
            Seq::empty()
        };
        line + print_all_from(s, i + 1)
    }
}

/// The help response an unrecognized command degrades to.
pub open spec fn help_text() -> Seq<char> {
    "Bug list commands:\n!bug - list all open bugs\n!bug show <BUG_NUMBER> - print the details for one bug\n!bug report <NAME> <SUMMARY> <DETAILS> - add a bug to the list\n!bug +1 <BUG_NUMBER> - report that you've also encountered a bug\n"@
}

/// The list state after one command body.
pub open spec fn bug_step_items(s: Seq<(u32, BugItemV)>, body: Seq<char>, caller: u64) -> Seq<
    (u32, BugItemV),
> {
    match classify_bug(body) {
        BugCommandV::Report(rest) => report_step_items(s, rest, caller),
        BugCommandV::PlusOne(rest) => plus_one_items(s, rest, caller),
        BugCommandV::Print(_) => s,
        BugCommandV::PrintAll => s,
        BugCommandV::Help => s,
    }
}

/// The reply to one command body.
pub open spec fn bug_step_reply(s: Seq<(u32, BugItemV)>, body: Seq<char>, caller: u64) -> Result<
    Seq<char>,
    CommandError,
> {
    match classify_bug(body) {
        BugCommandV::Report(rest) => report_step_reply(s, rest, caller),
        BugCommandV::PlusOne(rest) => plus_one_reply(s, rest, caller),
        BugCommandV::Print(rest) => print_step_reply(s, rest),
        BugCommandV::PrintAll => Ok(print_all_from(s, 0)),
        BugCommandV::Help => Ok(help_text()),
    }
}

/// Law: a plus-one on a number that no bug carries answers not-found and
/// leaves the list unchanged; on a present bug it appends exactly the caller
/// to that bug's plus-ones, changes nothing else, and reports one less than
/// the new plus-one count.
pub proof fn lemma_plus_one(s: Seq<(u32, BugItemV)>, rest: Seq<char>, caller: u64)
    requires
        parse_u32_spec(trim_chars(rest)) is Some,
    ensures
        ({
            let n = parse_u32_spec(trim_chars(rest))->0;
            let i = find_pair(s, n);
            let t = plus_one_items(s, rest, caller);
            &&& (i == -1 ==> t == s && plus_one_reply(s, rest, caller) == Ok::<
                Seq<char>,
                CommandError,
            >(not_found_response(rest)))
            &&& (i >= 0 ==> {
                &&& t.len() == s.len()
                &&& t[i].1.plus_ones == s[i].1.plus_ones.push(caller)
                &&& t[i].1.plus_ones.len() == s[i].1.plus_ones.len() + 1
                &&& forall|j: int| 0 <= j < s.len() && j != i ==> t[j] == s[j]
                &&& plus_one_reply(s, rest, caller) == Ok::<Seq<char>, CommandError>(
                    plus_one_response((t[i].1.plus_ones.len() - 1) as nat),
                )
            })
        }),
{
    let n = parse_u32_spec(trim_chars(rest))->0;
    lemma_find_pair(s, n);
}

fn find_bug(items: &Vec<(u32, BugItem)>, n: u32) -> (r: Option<usize>)
    ensures
        match r {
            Some(i) => find_pair(items.deep_view(), n) == i && i < items@.len(),
            None => find_pair(items.deep_view(), n) == -1,
        },
{
    let ghost dv = items.deep_view();
    let mut j: usize = 0;
    while j < items.len()
        invariant
            j <= items@.len(),
            dv == items.deep_view(),
            dv.len() == items@.len(),
            find_pair_from(dv, 0, n) == find_pair_from(dv, j as int, n),
        decreases items@.len() - j,
    {
        proof {
            assert(dv[j as int] == items@[j as int].deep_view());
        }
        if items[j].0 == n {
            return Some(j);
        }
        j = j + 1;
    }
    None
}

fn push_join_comma(out: &mut Vec<char>, parts: &Vec<String>)
    ensures
        final(out)@ == old(out)@ + join_comma_from(parts.deep_view(), 0),
{
    let ghost dv = parts.deep_view();
    let mut i: usize = 0;
    while i < parts.len()
        invariant
            i <= parts@.len(),
            dv == parts.deep_view(),
            dv.len() == parts@.len(),
            old(out)@ + join_comma_from(dv, 0) == out@ + join_comma_from(dv, i as int),
        decreases parts@.len() - i,
    {
        proof {
            assert(dv[i as int] == parts@[i as int].deep_view());
        }
        push_str_chars(out, parts[i].as_str());
        if i + 1 < parts.len() {
            push_str_chars(out, ", ");
        }
        i = i + 1;
        proof {
            assert(old(out)@ + join_comma_from(dv, 0) =~= out@ + join_comma_from(dv, i as int));
        }
    }
    proof {
        assert(final(out)@ =~= old(out)@ + join_comma_from(dv, 0));
    }
}

fn render_bug_detail(out: &mut Vec<char>, rest: &Vec<char>, b: &BugItem)
    ensures
        final(out)@ == old(out)@ + bug_detail(rest@, b.deep_view()),
{
    push_str_chars(out, "#");
    push_chars(out, rest);
    push_str_chars(out, " ");
    push_str_chars(out, b.name.as_str());
    push_str_chars(out, "\n");
    push_str_chars(out, b.summary.as_str());
    push_str_chars(out, ":\n");
    push_str_chars(out, b.details.as_str());
    push_str_chars(out, ":\n");
    push_str_chars(out, "Priority: ");
    push_u32(out, b.priority);
    push_str_chars(out, "\n");
    push_str_chars(out, "Status: ");
    push_str_chars(out, b.status.label());
    push_str_chars(out, "\n");
    push_str_chars(out, "Labels: ");
    push_join_comma(out, &b.labels);
    push_str_chars(out, "\n");
    push_str_chars(out, "Reporter: ");
    push_u64(out, b.reporter);
    push_str_chars(out, "\n");
    push_str_chars(out, "Plus Ones: ");
    let k: usize = b.plus_ones.len();
    push_u64(out, k as u64);
    push_str_chars(out, "\n");
    proof {
        assert(final(out)@ =~= old(out)@ + bug_detail(rest@, b.deep_view()));
    }
}

fn render_bug_summary(out: &mut Vec<char>, b: &BugItem)
    ensures
        final(out)@ == old(out)@ + bug_summary_line(b.deep_view()),
{
    push_str_chars(out, "#");
    push_u32(out, b.number);
    push_str_chars(out, " ");
    push_str_chars(out, b.name.as_str());
    push_str_chars(out, "\t");
    push_str_chars(out, b.summary.as_str());
    push_str_chars(out, "\t(");
    let k: usize = b.plus_ones.len();
    push_u64(out, k as u64);
    push_str_chars(out, " +1s)\t[");
    push_join_comma(out, &b.labels);
    push_str_chars(out, "]");
    proof {
        assert(final(out)@ =~= old(out)@ + bug_summary_line(b.deep_view()));
    }
}

fn render_all(items: &Vec<(u32, BugItem)>) -> (r: String)
    ensures
        r@ == print_all_from(items.deep_view(), 0),
{
    let ghost dv = items.deep_view();
    let mut out: Vec<char> = Vec::new();
    let mut i: usize = 0;
    while i < items.len()
        invariant
            i <= items@.len(),
            dv == items.deep_view(),
            dv.len() == items@.len(),
            print_all_from(dv, 0) == out@ + print_all_from(dv, i as int),
        decreases items@.len() - i,
    {
        proof {
            assert(dv[i as int] == items@[i as int].deep_view());
        }
        let closed = match items[i].1.status {
            BugStatus::Closed => true,
            BugStatus::Open => false,
        };
        if !closed {
            render_bug_summary(&mut out, &items[i].1);
        }
        i = i + 1;
        proof {
            assert(print_all_from(dv, 0) =~= out@ + print_all_from(dv, i as int));
        }
    }
    proof {
        assert(print_all_from(dv, 0) =~= out@);
    }
    chars_to_string(&out)
}

fn bug_report(bug_list: &mut BugList, rest: &Vec<char>, caller: u64) -> (r: Result<
    String,
    CommandError,
>)
    requires
        old(bug_list).wf(),
        old(bug_list)@.len() < u32::MAX,
    ensures
        final(bug_list)@ == report_step_items(old(bug_list)@, rest@, caller),
        final(bug_list).wf(),
        match r {
            Ok(resp) => report_step_reply(old(bug_list)@, rest@, caller) matches Ok(rv) && resp@
                == rv,
            Err(e) => report_step_reply(old(bug_list)@, rest@, caller) == Err::<
                Seq<char>,
                CommandError,
            >(e),
        },
{
    let ghost old_dv = bug_list@;
    let t = trim_chars_exec(rest);
    match tokenize_chars(&t) {
        Err(e) => Err(e),
        Ok(fields) => {
            let n = bug_list.items.len() as u32 + 1;
            let name = chars_to_string(&fields.0);
            let summary = chars_to_string(&fields.1);
            let details = chars_to_string(&fields.2);
            let mut out: Vec<char> = Vec::new();
            push_str_chars(&mut out, "Added bug #");
            push_u32(&mut out, n);
            push_str_chars(&mut out, " \"");
            push_str_chars(&mut out, name.as_str());
            push_str_chars(&mut out, "\" to the list");
            assert(out@ =~= report_response(n, fields.0@));
            let item = BugItem {
                number: n,
                priority: 0,
                status: BugStatus::Open,
                labels: Vec::new(),
                name,
                summary,
                details,
                reporter: caller,
                plus_ones: Vec::new(),
            };
            proof {
                assert(item.deep_view().labels =~= Seq::<Seq<char>>::empty());
                assert(item.deep_view().plus_ones =~= Seq::<u64>::empty());
                lemma_find_pair(old_dv, n);
            }
            match find_bug(&bug_list.items, n) {
                Some(i) => {
                    bug_list.items.set(i, (n, item));
                    proof {
                        assert(bug_list@ =~= report_step_items(old_dv, rest@, caller));
                    }
                },
                None => {
                    bug_list.items.push((n, item));
                    proof {
                        assert(bug_list@ =~= report_step_items(old_dv, rest@, caller));
                    }
                },
            }
            Ok(chars_to_string(&out))
        },
    }
}

fn bug_print(items: &Vec<(u32, BugItem)>, rest: &Vec<char>) -> (r: Result<String, CommandError>)
    ensures
        match r {
            Ok(resp) => print_step_reply(items.deep_view(), rest@) matches Ok(rv) && resp@ == rv,
            Err(e) => print_step_reply(items.deep_view(), rest@) == Err::<Seq<char>, CommandError>(
                e,
            ),
        },
{
    let t = trim_chars_exec(rest);
    match parse_u32_chars(&t) {
        None => Err(CommandError::InvalidArgument),
        Some(n) => {
            match find_bug(items, n) {
                Some(i) => {
                    proof {
                        assert(items.deep_view()[i as int] == items@[i as int].deep_view());
                    }
                    let mut out: Vec<char> = Vec::new();
                    render_bug_detail(&mut out, rest, &items[i].1);
                    Ok(chars_to_string(&out))
                },
                None => {
                    let mut out: Vec<char> = Vec::new();
                    push_str_chars(&mut out, "I couldn't find a bug with the number ");
                    push_chars(&mut out, rest);
                    push_str_chars(&mut out, " in the global list.");
                    assert(out@ =~= not_found_response(rest@));
                    Ok(chars_to_string(&out))
                },
            }
        },
    }
}

fn bug_plus_one(bug_list: &mut BugList, rest: &Vec<char>, caller: u64) -> (r: Result<
    String,
    CommandError,
>)
    requires
        old(bug_list).wf(),
    ensures
        final(bug_list)@ == plus_one_items(old(bug_list)@, rest@, caller),
        final(bug_list).wf(),
        match r {
            Ok(resp) => plus_one_reply(old(bug_list)@, rest@, caller) matches Ok(rv) && resp@
                == rv,
            Err(e) => plus_one_reply(old(bug_list)@, rest@, caller) == Err::<
                Seq<char>,
                CommandError,
            >(e),
        },
{
    let ghost old_dv = bug_list@;
    let t = trim_chars_exec(rest);
    match parse_u32_chars(&t) {
        None => Err(CommandError::InvalidArgument),
        Some(n) => {
            match find_bug(&bug_list.items, n) {
                Some(i) => {
                    let ghost old_items = bug_list.items@;
                    proof {
                        lemma_find_pair(old_dv, n);
                        assert(old_dv[i as int] == bug_list.items@[i as int].deep_view());
                        assert(old_dv[i as int].0 == n);
                    }
                    let pair = bug_list.items.remove(i);
                    let (num, mut item) = pair;
                    let k: usize = item.plus_ones.len();
                    item.plus_ones.push(caller);
                    bug_list.items.insert(i, (num, item));
                    proof {
                        assert(bug_list.items@ =~= old_items.update(i as int, (num, item)));
                        assert(bug_list@ =~= old_dv.update(i as int, (num, item).deep_view()));
                        assert((num, item).deep_view().1.plus_ones =~= old_dv[i as int].1.plus_ones.push(
                            caller,
                        ));
                        assert(bug_list@ =~= plus_one_items(old_dv, rest@, caller));
                    }
                    let mut out: Vec<char> = Vec::new();
                    push_str_chars(
                        &mut out,
                        "I'm sorry to hear that you're also experiencing this issue.\nAt least you've got ",
                    );
                    push_u64(&mut out, k as u64);
                    push_str_chars(&mut out, " other(s) for company.");
                    assert(out@ =~= plus_one_response(old_dv[i as int].1.plus_ones.len()));
                    Ok(chars_to_string(&out))
                },
                None => {
                    let mut out: Vec<char> = Vec::new();
                    push_str_chars(&mut out, "I couldn't find a bug with the number ");
                    push_chars(&mut out, rest);
                    push_str_chars(&mut out, " in the global list.");
                    assert(out@ =~= not_found_response(rest@));
                    Ok(chars_to_string(&out))
                },
            }
        },
    }
}

/// Performs the core logic for handling a `!bug` command.
///
/// Takes the command body (the message text with the feature prefix already
/// stripped) and the calling user, updates `bug_list` to the new list state,
/// and returns the message that should be sent back to the channel where
/// the command was given. A malformed report or bug number is returned as
/// an error for the host to render; the list is then unchanged.
pub fn handle_message(bug_list: &mut BugList, body: &str, caller: u64) -> (r: Result<
    String,
    CommandError,
>)
    requires
        old(bug_list).wf(),
        old(bug_list)@.len() < u32::MAX,
    ensures
        final(bug_list)@ == bug_step_items(old(bug_list)@, body@, caller),
        final(bug_list).wf(),
        match r {
            Ok(resp) => bug_step_reply(old(bug_list)@, body@, caller) matches Ok(rv) && resp@
                == rv,
            Err(e) => bug_step_reply(old(bug_list)@, body@, caller) == Err::<
                Seq<char>,
                CommandError,
            >(e),
        },
{
    let chars = str_to_chars(body);
    let t = trim_chars_exec(&chars);
    match find_ws_idx(&t) {
        None => {
            if t.len() == 0 {
                Ok(render_all(&bug_list.items))
            } else {
                bug_report(bug_list, &t, caller)
            }
        },
        Some(i) => {
            let tlen = t.len();
            let word = copy_range(&t, 0, i);
            let rest = copy_range(&t, i + 1, tlen);
            proof {
                assert(word@ =~= trim_chars(body@).take(i as int));
                assert(rest@ =~= trim_chars(body@).skip(i as int + 1));
            }
            if chars_eq_str(&word, "show") || chars_eq_str(&word, "print") || chars_eq_str(
                &word,
                "display",
            ) || word.len() == 0 {
                bug_print(&bug_list.items, &rest)
            } else if chars_eq_str(&word, "report") || chars_eq_str(&word, "add") {
                bug_report(bug_list, &rest, caller)
            } else if chars_eq_str(&word, "+1") {
                bug_plus_one(bug_list, &rest, caller)
            } else {
                let mut out: Vec<char> = Vec::new();
                push_str_chars(
                    &mut out,
                    "Bug list commands:\n!bug - list all open bugs\n!bug show <BUG_NUMBER> - print the details for one bug\n!bug report <NAME> <SUMMARY> <DETAILS> - add a bug to the list\n!bug +1 <BUG_NUMBER> - report that you've also encountered a bug\n",
                );
                assert(out@ =~= help_text());
                Ok(chars_to_string(&out))
            }
        },
    }
}

/// Reads a user-supplied bug number: the text is trimmed and parsed as an
/// unsigned integer; anything else is an [`CommandError::InvalidArgument`].
pub fn normalize_bug_number(key: &str) -> (r: Result<u32, CommandError>)
    ensures
        match r {
            Ok(n) => parse_u32_spec(trim_chars(key@)) == Some(n),
            Err(e) => parse_u32_spec(trim_chars(key@)) is None && e
                == CommandError::InvalidArgument,
        },
{
    let v = str_to_chars(key);
    let t = trim_chars_exec(&v);
    match parse_u32_chars(&t) {
        Some(n) => Ok(n),
        None => Err(CommandError::InvalidArgument),
    }
}

} // verus!
