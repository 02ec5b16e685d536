//! The bug-report tokenizer.
//!
//! A report's argument text must hold exactly three fields (name, summary,
//! details), separated by single spaces. A field is, in priority order: a
//! triple-quoted literal (`"""..."""`, the body runs to the next `"""` and may
//! hold spaces and single quotes), a double-quoted literal (`"..."`, the body
//! runs to the next `"`), or a bare literal (the maximal run of non-space
//! characters). The quote markers are stripped from the returned field. A
//! missing closing marker, fewer than three fields, or trailing text after the
//! third field is a [`CommandError::MalformedInput`].

use crate::text::copy_range;
use crate::text::str_to_chars;
use crate::text::chars_to_string;
use crate::CommandError;
use vstd::prelude::*;

verus! {

/// The first position `j >= i` with `s[j] == c`, or `-1` if there is none.
pub open spec fn find_char_from(s: Seq<char>, i: int, c: char) -> int
    decreases s.len() - i,
{
    if i >= s.len() {
        -1
    } else if s[i] == c {
        i
    } else {
        find_char_from(s, i + 1, c)
    }
}

/// Whether a triple-quote marker `"""` stands at position `i`.
pub open spec fn starts_triple(s: Seq<char>, i: int) -> bool {
    &&& i + 3 <= s.len()
    &&& s[i] == '"'
    &&& s[i + 1] == '"'
    &&& s[i + 2] == '"'
}

/// The first position `j >= i` where a triple-quote marker stands, or `-1` if
/// there is none.
pub open spec fn find_triple_from(s: Seq<char>, i: int) -> int
    decreases s.len() - i,
{
    if i + 3 > s.len() {
        -1
    } else if starts_triple(s, i) {
        i
    } else {
        find_triple_from(s, i + 1)
    }
}

/// The first position `j >= i` with `s[j] == ' '`, or `s.len()` if there is
/// none.
pub open spec fn find_space_from(s: Seq<char>, i: int) -> int
    decreases s.len() - i,
{
    if i >= s.len() {
        s.len() as int
    } else if s[i] == ' ' {
        i
    } else {
        find_space_from(s, i + 1)
    }
}

/// The field starting at position `i`: its body with the quote markers
/// stripped, and the position just past the field. `None` when a quoted
/// field's closing marker is missing.
pub open spec fn field_at(s: Seq<char>, i: int) -> Option<(Seq<char>, int)> {
    if starts_triple(s, i) {
        let j = find_triple_from(s, i + 3);
        if j == -1 {
            None
        } else {
            Some((s.subrange(i + 3, j), j + 3))
        }
    } else if i < s.len() && s[i] == '"' {
        let j = find_char_from(s, i + 1, '"');
        if j == -1 {
            None
        } else {
            Some((s.subrange(i + 1, j), j + 1))
        }
    } else {
        let j = find_space_from(s, i);
        Some((s.subrange(i, j), j))
    }
}

/// The three fields of a well-formed report argument, or `None` when the text
/// is malformed: a quoted field misses its closing marker, fewer than three
/// fields stand before the end, the separator is not a single space, or text
/// trails after the third field.
pub open spec fn tokenize_spec(s: Seq<char>) -> Option<(Seq<char>, Seq<char>, Seq<char>)> {
    match field_at(s, 0) {
        None => None,
        Some((f1, p1)) => if !(p1 < s.len() && s[p1] == ' ') {
            None
        } else {
            match field_at(s, p1 + 1) {
                None => None,
                Some((f2, p2)) => if !(p2 < s.len() && s[p2] == ' ') {
                    None
                } else {
                    match field_at(s, p2 + 1) {
                        None => None,
                        Some((f3, p3)) => if p3 == s.len() {
                            Some((f1, f2, f3))
                        } else {
                            None
                        },
                    }
                },
            }
        },
    }
}

fn find_char_idx(v: &Vec<char>, start: usize, c: char) -> (r: Option<usize>)
    requires
        start <= v@.len(),
    ensures
        match r {
            Some(j) => find_char_from(v@, start as int, c) == j && start <= j < v@.len(),
            None => find_char_from(v@, start as int, c) == -1,
        },
{
    let mut j: usize = start;
    while j < v.len()
        invariant
            start <= j <= v@.len(),
            find_char_from(v@, start as int, c) == find_char_from(v@, j as int, c),
        decreases v@.len() - j,
    {
        if v[j] == c {
            return Some(j);
        }
        j = j + 1;
    }
    None
}

fn find_triple_idx(v: &Vec<char>, start: usize) -> (r: Option<usize>)
    requires
        start <= v@.len(),
    ensures
        match r {
            Some(j) => find_triple_from(v@, start as int) == j && starts_triple(v@, j as int)
                && start <= j,
            None => find_triple_from(v@, start as int) == -1,
        },
{
    if v.len() < 3 {
        return None;
    }
    let mut j: usize = start;
    while j <= v.len() - 3
        invariant
            v@.len() >= 3,
            start <= j,
            j <= v@.len(),
            find_triple_from(v@, start as int) == find_triple_from(v@, j as int),
        decreases v@.len() - j,
    {
        if v[j] == '"' && v[j + 1] == '"' && v[j + 2] == '"' {
            return Some(j);
        }
        j = j + 1;
    }
    None
}

fn find_space_idx(v: &Vec<char>, start: usize) -> (r: usize)
    requires
        start <= v@.len(),
    ensures
        find_space_from(v@, start as int) == r,
        start <= r <= v@.len(),
{
    let mut j: usize = start;
    while j < v.len()
        invariant
            start <= j <= v@.len(),
            find_space_from(v@, start as int) == find_space_from(v@, j as int),
        decreases v@.len() - j,
    {
        if v[j] == ' ' {
            return j;
        }
        j = j + 1;
    }
    j
}

fn field_at_exec(v: &Vec<char>, i: usize) -> (r: Option<(Vec<char>, usize)>)
    requires
        i <= v@.len(),
    ensures
        match r {
            Some(f) => {
                &&& field_at(v@, i as int) matches Some(g)
                &&& f.0@ == g.0
                &&& f.1 == g.1
                &&& i <= f.1 <= v@.len()
            },
            None => field_at(v@, i as int) is None,
        },
{
    let is_triple = v.len() >= 3 && i <= v.len() - 3 && v[i] == '"' && v[i + 1] == '"' && v[i
        + 2] == '"';
    if is_triple {
        match find_triple_idx(v, i + 3) {
            None => None,
            Some(j) => Some((copy_range(v, i + 3, j), j + 3)),
        }
    } else if i < v.len() && v[i] == '"' {
        match find_char_idx(v, i + 1, '"') {
            None => None,
            Some(j) => Some((copy_range(v, i + 1, j), j + 1)),
        }
    } else {
        let j = find_space_idx(v, i);
        Some((copy_range(v, i, j), j))
    }
}

/// Splits a report's argument, given as a character buffer, into its three
/// fields.
pub fn tokenize_chars(v: &Vec<char>) -> (r: Result<(Vec<char>, Vec<char>, Vec<char>), CommandError>)
    ensures
        match r {
            Ok(f) => tokenize_spec(v@) == Some((f.0@, f.1@, f.2@)),
            Err(e) => tokenize_spec(v@) is None && e == CommandError::MalformedInput,
        },
{
    let f1 = match field_at_exec(v, 0) {
        None => {
            return Err(CommandError::MalformedInput);
        },
        Some(f) => f,
    };
    if !(f1.1 < v.len() && v[f1.1] == ' ') {
        return Err(CommandError::MalformedInput);
    }
    let f2 = match field_at_exec(v, f1.1 + 1) {
        None => {
            return Err(CommandError::MalformedInput);
        },
        Some(f) => f,
    };
    if !(f2.1 < v.len() && v[f2.1] == ' ') {
        return Err(CommandError::MalformedInput);
    }
    let f3 = match field_at_exec(v, f2.1 + 1) {
        None => {
            return Err(CommandError::MalformedInput);
        },
        Some(f) => f,
    };
    if f3.1 != v.len() {
        return Err(CommandError::MalformedInput);
    }
    Ok((f1.0, f2.0, f3.0))
}

/// Splits a report's argument into its three fields: name, summary, details.
pub fn tokenize(input: &str) -> (r: Result<(String, String, String), CommandError>)
    ensures
        match r {
            Ok(f) => tokenize_spec(input@) == Some((f.0@, f.1@, f.2@)),
            Err(e) => tokenize_spec(input@) is None && e == CommandError::MalformedInput,
        },
{
    let v = str_to_chars(input);
    match tokenize_chars(&v) {
        Ok(f) => Ok((chars_to_string(&f.0), chars_to_string(&f.1), chars_to_string(&f.2))),
        Err(e) => Err(e),
    }
}

} // verus!
