//! Verified text utilities shared by the list engines: whitespace tests,
//! decimal rendering of unsigned integers, and character-buffer helpers.
//!
//! Response strings are built in a `Vec<char>` whose view is compared against
//! `Seq<char>`-valued spec functions, and turned into a `String` once at the
//! end.

use vstd::prelude::*;
use vstd::string::StrSliceExecFns;

verus! {

/// The ASCII whitespace characters that command text is trimmed of and split
/// on.
pub open spec fn is_space_char(c: char) -> bool {
    c == ' ' || c == '\t' || c == '\n' || c == '\r' || c == '\u{c}'
}

/// Runtime test for [`is_space_char`].
pub fn is_space(c: char) -> (r: bool)
    ensures
        r == is_space_char(c),
{
    c == ' ' || c == '\t' || c == '\n' || c == '\r' || c == '\u{c}'
}

/// The character for one decimal digit.
pub open spec fn digit_char(d: nat) -> char {
    if d == 0 {
        '0'
    } else if d == 1 {
        '1'
    } else if d == 2 {
        '2'
    } else if d == 3 {
        '3'
    } else if d == 4 {
        '4'
    } else if d == 5 {
        '5'
    } else if d == 6 {
        '6'
    } else if d == 7 {
        '7'
    } else if d == 8 {
        '8'
    } else {
        '9'
    }
}

/// The decimal rendering of `n`, without a sign and without leading zeros
/// (except that zero itself renders as one digit).
pub open spec fn dec_str(n: nat) -> Seq<char>
    decreases n,
{
    if n < 10 {
        seq![digit_char(n)]
    } else {
        dec_str(n / 10) + seq![digit_char(n % 10)]
    }
}

/// A run of `n` spaces, used to right-align the priority column.
pub open spec fn spaces(n: nat) -> Seq<char>
    decreases n,
{
    if n == 0 {
        Seq::empty()
    } else {
        spaces((n - 1) as nat) + seq![' ']
    }
}

fn push_digit(out: &mut Vec<char>, d: u64)
    requires
        d < 10,
    ensures
        final(out)@ == old(out)@ + seq![digit_char(d as nat)],
{
    let c: char = if d == 0 {
        '0'
    } else if d == 1 {
        '1'
    } else if d == 2 {
        '2'
    } else if d == 3 {
        '3'
    } else if d == 4 {
        '4'
    } else if d == 5 {
        '5'
    } else if d == 6 {
        '6'
    } else if d == 7 {
        '7'
    } else if d == 8 {
        '8'
    } else {
        '9'
    };
    out.push(c);
    assert(out@ =~= old(out)@ + seq![digit_char(d as nat)]);
}

/// Appends the decimal rendering of `n` to `out`.
pub fn push_u64(out: &mut Vec<char>, n: u64)
    ensures
        final(out)@ == old(out)@ + dec_str(n as nat),
    decreases n,
{
    if n < 10 {
        push_digit(out, n);
    } else {
        push_u64(out, n / 10);
        push_digit(out, n % 10);
        assert(out@ =~= old(out)@ + dec_str(n as nat));
    }
}

/// Appends the decimal rendering of `n` to `out`.
pub fn push_u32(out: &mut Vec<char>, n: u32)
    ensures
        final(out)@ == old(out)@ + dec_str(n as nat),
{
    push_u64(out, n as u64);
}

/// Appends `n` spaces to `out`.
pub fn push_spaces(out: &mut Vec<char>, n: usize)
    ensures
        final(out)@ == old(out)@ + spaces(n as nat),
{
    let mut i: usize = 0;
    while i < n
        invariant
            i <= n,
            out@ == old(out)@ + spaces(i as nat),
        decreases n - i,
    {
        out.push(' ');
        i = i + 1;
        assert(out@ =~= old(out)@ + spaces(i as nat));
    }
}

/// Appends every character of `s` to `out`.
pub fn push_str_chars(out: &mut Vec<char>, s: &str)
    ensures
        final(out)@ == old(out)@ + s@,
{
    let len = s.unicode_len();
    let mut i: usize = 0;
    while i < len
        invariant
            i <= len,
            len == s@.len(),
            out@ == old(out)@ + s@.subrange(0, i as int),
        decreases len - i,
    {
        let c = s.get_char(i);
        out.push(c);
        i = i + 1;
        assert(out@ =~= old(out)@ + s@.subrange(0, i as int));
    }
    assert(s@.subrange(0, len as int) =~= s@);
}

/// The characters of `s`, one per element.
pub fn str_to_chars(s: &str) -> (v: Vec<char>)
    ensures
        v@ == s@,
{
    let mut v: Vec<char> = Vec::new();
    push_str_chars(&mut v, s);
    v
}

/// Appends every character of `v` to `out`.
pub fn push_chars(out: &mut Vec<char>, v: &Vec<char>)
    ensures
        final(out)@ == old(out)@ + v@,
{
    let mut i: usize = 0;
    while i < v.len()
        invariant
            i <= v@.len(),
            out@ == old(out)@ + v@.subrange(0, i as int),
        decreases v@.len() - i,
    {
        out.push(v[i]);
        i = i + 1;
        assert(out@ =~= old(out)@ + v@.subrange(0, i as int));
    }
    assert(v@.subrange(0, v@.len() as int) =~= v@);
}

/// The characters of `v` from `lo` (inclusive) to `hi` (exclusive).
pub fn copy_range(v: &Vec<char>, lo: usize, hi: usize) -> (r: Vec<char>)
    requires
        lo <= hi <= v@.len(),
    ensures
        r@ == v@.subrange(lo as int, hi as int),
{
    let mut r: Vec<char> = Vec::new();
    let mut k: usize = lo;
    while k < hi
        invariant
            lo <= k <= hi <= v@.len(),
            r@ == v@.subrange(lo as int, k as int),
        decreases hi - k,
    {
        r.push(v[k]);
        k = k + 1;
        assert(r@ =~= v@.subrange(lo as int, k as int));
    }
    r
}

/// Relies on `String::from_iter` over `char`: the resulting string holds
/// exactly the characters of the iterator, in order.
#[verifier::external_body]
pub fn chars_to_string(v: &Vec<char>) -> (s: String)
    ensures
        s@ == v@,
{
    v.iter().collect()
}

/// Whether `c` is a decimal digit.
pub open spec fn is_digit_char(c: char) -> bool {
    c == '0' || c == '1' || c == '2' || c == '3' || c == '4' || c == '5' || c == '6' || c == '7'
        || c == '8' || c == '9'
}

/// The value of a decimal digit; zero for any other character.
pub open spec fn digit_val(c: char) -> nat {
    if c == '1' {
        1
    } else if c == '2' {
        2
    } else if c == '3' {
        3
    } else if c == '4' {
        4
    } else if c == '5' {
        5
    } else if c == '6' {
        6
    } else if c == '7' {
        7
    } else if c == '8' {
        8
    } else if c == '9' {
        9
    } else {
        0
    }
}

/// The numeric value of a digit string, read left to right.
pub open spec fn dec_val(s: Seq<char>) -> nat
    decreases s.len(),
{
    if s.len() == 0 {
        0
    } else {
        dec_val(s.drop_last()) * 10 + digit_val(s.last())
    }
}

/// A longer digit prefix never has a smaller value.
pub proof fn lemma_dec_val_grows(s: Seq<char>, i: int)
    requires
        0 <= i <= s.len(),
    ensures
        dec_val(s.take(i)) <= dec_val(s),
    decreases s.len() - i,
{
    if i < s.len() {
        assert(s.take(i + 1).drop_last() =~= s.take(i));
        assert(s.take(i + 1).last() == s[i]);
        lemma_dec_val_grows(s, i + 1);
    } else {
        assert(s.take(i) =~= s);
    }
}

/// A valid unsigned decimal: at least one character, all digits, value in
/// range.
pub open spec fn valid_u32_digits(s: Seq<char>) -> bool {
    &&& s.len() > 0
    &&& forall|i: int| 0 <= i < s.len() ==> is_digit_char(s[i])
    &&& dec_val(s) <= u32::MAX
}

/// The digit portion of a number: the text with a leading plus sign
/// removed.
pub open spec fn u32_digits_of(s: Seq<char>) -> Seq<char> {
    if s.len() > 0 && s[0] == '+' {
        s.drop_first()
    } else {
        s
    }
}

/// How an unsigned 32-bit integer is read from text: an optional leading
/// plus sign, then decimal digits whose value fits.
pub open spec fn parse_u32_spec(s: Seq<char>) -> Option<u32> {
    let digits = u32_digits_of(s);
    if valid_u32_digits(digits) {
        Some(dec_val(digits) as u32)
    } else {
        None
    }
}

fn digit_of(c: char) -> (r: Option<u64>)
    ensures
        match r {
            Some(d) => is_digit_char(c) && d == digit_val(c) && d < 10,
            None => !is_digit_char(c),
        },
{
    if c == '0' {
        Some(0)
    } else if c == '1' {
        Some(1)
    } else if c == '2' {
        Some(2)
    } else if c == '3' {
        Some(3)
    } else if c == '4' {
        Some(4)
    } else if c == '5' {
        Some(5)
    } else if c == '6' {
        Some(6)
    } else if c == '7' {
        Some(7)
    } else if c == '8' {
        Some(8)
    } else if c == '9' {
        Some(9)
    } else {
        None
    }
}

/// Reads an unsigned 32-bit integer from a character buffer.
pub fn parse_u32_chars(v: &Vec<char>) -> (r: Option<u32>)
    ensures
        r == parse_u32_spec(v@),
{
    let plus: bool = v.len() > 0 && v[0] == '+';
    let start: usize = if plus {
        1
    } else {
        0
    };
    let ghost digits = if plus {
        v@.drop_first()
    } else {
        v@
    };
    proof {
        assert(digits =~= v@.subrange(start as int, v@.len() as int));
    }
    if v.len() == start {
        return None;
    }
    let mut acc: u64 = 0;
    let mut i: usize = start;
    while i < v.len()
        invariant
            start <= i <= v@.len(),
            start <= 1,
            digits == u32_digits_of(v@),
            digits == v@.subrange(start as int, v@.len() as int),
            forall|j: int| 0 <= j < i - start ==> is_digit_char(digits[j]),
            acc == dec_val(digits.take(i - start)),
            acc <= u32::MAX,
        decreases v@.len() - i,
    {
        let c = v[i];
        proof {
            assert(digits[i - start] == v@[i as int]);
        }
        match digit_of(c) {
            None => {
                proof {
                    assert(!is_digit_char(digits[i - start]));
                }
                return None;
            },
            Some(d) => {
                acc = acc * 10 + d;
                proof {
                    assert(digits.take(i - start + 1).drop_last() =~= digits.take(i - start));
                    assert(digits.take(i - start + 1).last() == digits[i - start]);
                }
                if acc > u32::MAX as u64 {
                    proof {
                        lemma_dec_val_grows(digits, i - start + 1);
                    }
                    return None;
                }
            },
        }
        i = i + 1;
    }
    proof {
        assert(digits.take(i - start) =~= digits);
    }
    Some(acc as u32)
}

/// The first position at or after `i` that is not a space, scanning forward;
/// `s.len()` if all are spaces.
pub open spec fn trim_start_idx(s: Seq<char>, i: int) -> int
    decreases s.len() - i,
{
    if i >= s.len() {
        s.len() as int
    } else if is_space_char(s[i]) {
        trim_start_idx(s, i + 1)
    } else {
        i
    }
}

/// The position just past the last non-space character before `i`, scanning
/// backward; zero if all are spaces.
pub open spec fn trim_end_idx(s: Seq<char>, i: int) -> int
    decreases i,
{
    if i <= 0 {
        0
    } else if is_space_char(s[i - 1]) {
        trim_end_idx(s, i - 1)
    } else {
        i
    }
}

/// The text with its leading and trailing whitespace removed.
pub open spec fn trim_chars(s: Seq<char>) -> Seq<char> {
    let a = trim_start_idx(s, 0);
    let b = trim_end_idx(s, s.len() as int);
    if a <= b {
        s.subrange(a, b)
    } else {
        Seq::empty()
    }
}

/// Removes leading and trailing whitespace from a character buffer.
pub fn trim_chars_exec(v: &Vec<char>) -> (r: Vec<char>)
    ensures
        r@ == trim_chars(v@),
{
    let mut a: usize = 0;
    while a < v.len() && is_space(v[a])
        invariant
            a <= v@.len(),
            trim_start_idx(v@, 0) == trim_start_idx(v@, a as int),
        decreases v@.len() - a,
    {
        a = a + 1;
    }
    let mut b: usize = v.len();
    while b > 0 && is_space(v[b - 1])
        invariant
            b <= v@.len(),
            trim_end_idx(v@, v@.len() as int) == trim_end_idx(v@, b as int),
        decreases b,
    {
        b = b - 1;
    }
    if a <= b {
        copy_range(v, a, b)
    } else {
        let r: Vec<char> = Vec::new();
        proof {
            assert(r@ =~= trim_chars(v@));
        }
        r
    }
}

/// The first whitespace position at or after `i`, or `-1` if there is none.
pub open spec fn find_ws_from(s: Seq<char>, i: int) -> int
    decreases s.len() - i,
{
    if i >= s.len() {
        -1
    } else if is_space_char(s[i]) {
        i
    } else {
        find_ws_from(s, i + 1)
    }
}

/// Finds the first whitespace character of a buffer.
pub fn find_ws_idx(v: &Vec<char>) -> (r: Option<usize>)
    ensures
        match r {
            Some(j) => find_ws_from(v@, 0) == j && j < v@.len(),
            None => find_ws_from(v@, 0) == -1,
        },
{
    let mut j: usize = 0;
    while j < v.len()
        invariant
            j <= v@.len(),
            find_ws_from(v@, 0) == find_ws_from(v@, j as int),
        decreases v@.len() - j,
    {
        if is_space(v[j]) {
            return Some(j);
        }
        j = j + 1;
    }
    None
}

/// Whether a buffer holds exactly the characters of `s`.
pub fn chars_eq_str(v: &Vec<char>, s: &str) -> (r: bool)
    ensures
        r == (v@ == s@),
{
    let len = s.unicode_len();
    if v.len() != len {
        return false;
    }
    let mut i: usize = 0;
    while i < len
        invariant
            i <= len,
            len == s@.len(),
            v@.len() == len,
            forall|j: int| 0 <= j < i ==> v@[j] == s@[j],
        decreases len - i,
    {
        if v[i] != s.get_char(i) {
            return false;
        }
        i = i + 1;
    }
    proof {
        assert(v@ =~= s@);
    }
    true
}

/// The number of digits in the decimal rendering never shrinks as the value
/// grows.
pub proof fn lemma_dec_str_len_monotonic(a: nat, b: nat)
    requires
        a <= b,
    ensures
        dec_str(a).len() <= dec_str(b).len(),
    decreases b,
{
    if b >= 10 {
        if a >= 10 {
            lemma_dec_str_len_monotonic(a / 10, b / 10);
        } else {
            lemma_dec_str_len_pos(b / 10);
        }
    }
}

/// A decimal rendering holds at least one digit.
pub proof fn lemma_dec_str_len_pos(n: nat)
    ensures
        dec_str(n).len() >= 1,
    decreases n,
{
    if n >= 10 {
        lemma_dec_str_len_pos(n / 10);
    }
}

} // verus!
