//! Finding the running process of a recorded application in a process
//! listing (one `pid command` pair per line, as `ps -axo pid=,comm=` prints).
use vstd::prelude::*;
use crate::text::{
    char_is_white_space, chars_between, chars_of, executable_paths_match_chars, is_white_space,
    paths_match, trim_bounds, trim_end, trim_start, trimmed,
};

verus! {

/// The first position at or after `i` that holds a line feed, or the end.
pub open spec fn line_end(s: Seq<char>, i: nat) -> nat
    decreases s.len() - i,
{
    if i >= s.len() {
        s.len()
    } else if s[i as int] == '\n' {
        i
    } else {
        line_end(s, i + 1)
    }
}

pub proof fn lemma_line_end_bounds(s: Seq<char>, i: nat)
    ensures
        i < s.len() ==> i <= line_end(s, i) <= s.len(),
        i >= s.len() ==> line_end(s, i) == s.len(),
    decreases s.len() - i,
{
    if i < s.len() && s[i as int] != '\n' {
        lemma_line_end_bounds(s, i + 1);
    }
}

/// `str::lines` from position `i`: the text split at line feeds, a carriage
/// return before a line feed dropped, and no empty line after a final line
/// feed.
pub open spec fn lines_from(s: Seq<char>, i: nat) -> Seq<Seq<char>>
    decreases s.len() + 1 - i,
{
    if i >= s.len() {
        Seq::empty()
    } else {
        let e = line_end(s, i);
        proof {
            lemma_line_end_bounds(s, i);
        }
        let raw = s.subrange(i as int, e as int);
        let line = if e < s.len() && raw.len() > 0 && raw.last() == '\r' {
            raw.drop_last()
        } else {
            raw
        };
        seq![line] + lines_from(s, e + 1)
    }
}

/// The value of a sequence of decimal digits.
pub open spec fn digits_value(d: Seq<char>) -> int
    decreases d.len(),
{
    if d.len() == 0 {
        0
    } else {
        digits_value(d.drop_last()) * 10 + (d.last() as int - 48)
    }
}

pub open spec fn is_digit(c: char) -> bool {
    '0' <= c && c <= '9'
}

/// Every character is an ASCII digit.
pub open spec fn all_digits(d: Seq<char>) -> bool {
    forall|i: int| 0 <= i < d.len() ==> is_digit(#[trigger] d[i])
}

/// The length of a leading sign.
pub open spec fn sign_length(s: Seq<char>) -> int {
    if s.len() > 0 && (s[0] == '-' || s[0] == '+') {
        1
    } else {
        0
    }
}

/// `i32::from_str`: an optional `+` or `-`, then at least one ASCII digit, of
/// a value that fits.
pub open spec fn parsed_i32(s: Seq<char>) -> Option<i32> {
    let digits = s.skip(sign_length(s));
    if digits.len() == 0 || !all_digits(digits) {
        None
    } else {
        let v = if s[0] == '-' {
            -digits_value(digits)
        } else {
            digits_value(digits)
        };
        if i32::MIN <= v <= i32::MAX {
            Some(v as i32)
        } else {
            None
        }
    }
}

/// The first position that holds whitespace.
pub open spec fn first_white_space(s: Seq<char>, i: nat) -> Option<nat>
    decreases s.len() - i,
{
    if i >= s.len() {
        None
    } else if is_white_space(s[i as int]) {
        Some(i)
    } else {
        first_white_space(s, i + 1)
    }
}

/// The process a listing line names, when its command is the recorded
/// executable: the line without leading whitespace is a process number, a
/// whitespace and the command.
pub open spec fn line_match(line: Seq<char>, executable: Seq<char>) -> Option<i32> {
    let t = trim_start(line);
    match first_white_space(t, 0) {
        None => None,
        Some(split) => match parsed_i32(t.take(split as int)) {
            None => None,
            Some(pid) => if paths_match(executable, trimmed(t.skip(split as int))) {
                Some(pid)
            } else {
                None
            },
        },
    }
}

/// The first line of the listing that names a process of the executable.
pub open spec fn first_line_match(lines: Seq<Seq<char>>, executable: Seq<char>) -> Option<i32>
    decreases lines.len(),
{
    if lines.len() == 0 {
        None
    } else {
        match line_match(lines[0], executable) {
            Some(pid) => Some(pid),
            None => first_line_match(lines.drop_first(), executable),
        }
    }
}

proof fn lemma_digits_value_grows(d: Seq<char>, k: int)
    requires
        0 <= k <= d.len(),
        forall|i: int| 0 <= i < d.len() ==> is_digit(#[trigger] d[i]),
    ensures
        digits_value(d.take(k)) <= digits_value(d),
        0 <= digits_value(d.take(k)),
    decreases d.len(),
{
    if k < d.len() {
        let rest = d.drop_last();
        assert forall|i: int| 0 <= i < rest.len() implies is_digit(#[trigger] rest[i]) by {
            assert(rest[i] == d[i]);
        }
        lemma_digits_value_grows(rest, k);
        assert(rest.take(k) =~= d.take(k));
        lemma_digits_value_grows(rest, rest.len() as int);
        assert(rest.take(rest.len() as int) =~= rest);
        assert(is_digit(d.last()));
    } else {
        assert(d.take(k) =~= d);
        if d.len() > 0 {
            let rest = d.drop_last();
            assert forall|i: int| 0 <= i < rest.len() implies is_digit(#[trigger] rest[i]) by {
                assert(rest[i] == d[i]);
            }
            lemma_digits_value_grows(rest, rest.len() as int);
            assert(rest.take(rest.len() as int) =~= rest);
            assert(is_digit(d.last()));
        }
    }
}

/// Parses a process number as `i32::from_str` does.
pub fn parse_process_number(s: &Vec<char>) -> (r: Option<i32>)
    ensures
        r == parsed_i32(s@),
{
    if s.len() == 0 {
        return None;
    }
    let negative = s[0] == '-';
    let start: usize = if s[0] == '-' || s[0] == '+' {
        1
    } else {
        0
    };
    let ghost digits = s@.skip(start as int);
    assert(start == sign_length(s@));
    if start == s.len() {
        assert(digits.len() == 0);
        return None;
    }
    let mut value: i64 = 0;
    let mut i: usize = start;
    let mut overflow = false;
    assert(digits.take(0) =~= Seq::<char>::empty());
    while i < s.len()
        invariant
            start <= i <= s.len(),
            s@.len() > 0,
            start == sign_length(s@),
            negative == (s@[0] == '-'),
            digits == s@.skip(start as int),
            forall|j: int| 0 <= j < i - start ==> is_digit(#[trigger] digits[j]),
            !overflow ==> value == digits_value(digits.take(i - start)),
            !overflow ==> 0 <= value <= 2_147_483_648,
            overflow ==> digits_value(digits.take(i - start)) > 2_147_483_648,
        decreases s.len() - i,
    {
        let c = s[i];
        assert(digits[i - start] == c);
        if !('0' <= c && c <= '9') {
            assert(!is_digit(digits[i - start]));
            assert(!all_digits(digits));
            return None;
        }
        let ghost before = digits.take(i - start);
        assert(digits.take(i - start + 1).drop_last() =~= before);
        assert(digits.take(i - start + 1).last() == c);
        if !overflow {
            let next = value * 10 + (c as i64 - 48);
            if next > 2_147_483_648 {
                overflow = true;
            } else {
                value = next;
            }
        } else {
            assert(digits_value(digits.take(i - start + 1)) == digits_value(before) * 10 + (c as int
                - 48));
        }
        i = i + 1;
    }
    assert(digits.take(s.len() - start) =~= digits);
    if overflow {
        proof {
            lemma_digits_value_grows(digits, digits.len() as int);
        }
        return None;
    }
    if negative {
        Some((0 - value) as i32)
    } else if value > 2_147_483_647 {
        None
    } else {
        Some(value as i32)
    }
}

/// The first whitespace position in `v`.
fn find_white_space(v: &Vec<char>) -> (r: Option<usize>)
    ensures
        match r {
            Some(i) => first_white_space(v@, 0) == Some(i as nat) && i < v.len(),
            None => first_white_space(v@, 0) is None,
        },
{
    let mut i: usize = 0;
    while i < v.len()
        invariant
            i <= v.len(),
            first_white_space(v@, 0) == first_white_space(v@, i as nat),
        decreases v.len() - i,
    {
        if char_is_white_space(v[i]) {
            return Some(i);
        }
        i = i + 1;
    }
    None
}

/// The process a listing line names, when its command is `executable`.
pub fn match_listing_line(line: &Vec<char>, executable: &Vec<char>) -> (r: Option<i32>)
    ensures
        r == line_match(line@, executable@),
{
    let (a, _) = trim_bounds(line);
    let t = chars_between(line, a, line.len());
    match find_white_space(&t) {
        None => None,
        Some(split) => {
            let number = chars_between(&t, 0, split);
            assert(number@ =~= t@.take(split as int));
            match parse_process_number(&number) {
                None => None,
                Some(pid) => {
                    let rest = chars_between(&t, split, t.len());
                    assert(rest@ =~= t@.skip(split as int));
                    let (b, e) = trim_bounds(&rest);
                    let command = chars_between(&rest, b, e);
                    if executable_paths_match_chars(executable, &command) {
                        Some(pid)
                    } else {
                        None
                    }
                },
            }
        },
    }
}

/// The process of the recorded executable in a listing: the first line that
/// names it.
pub fn find_process_in_listing(listing: &str, executable: &str) -> (r: Option<i32>)
    ensures
        r == first_line_match(lines_from(listing@, 0), executable@),
{
    let s = chars_of(listing);
    let exe = chars_of(executable);
    let n = s.len();
    let mut i: usize = 0;
    while i < n
        invariant
            n == s.len(),
            s@ == listing@,
            exe@ == executable@,
            i <= n,
            first_line_match(lines_from(s@, 0), exe@) == first_line_match(
                lines_from(s@, i as nat),
                exe@,
            ),
        decreases n - i,
    {
        let mut e: usize = i;
        while e < n && s[e] != '\n'
            invariant
                i <= e <= n,
                n == s.len(),
                line_end(s@, i as nat) == line_end(s@, e as nat),
            decreases n - e,
        {
            e = e + 1;
        }
        assert(line_end(s@, e as nat) == e);
        proof {
            lemma_line_end_bounds(s@, i as nat);
        }
        let raw = chars_between(&s, i, e);
        let line = if e < n && raw.len() > 0 && raw[raw.len() - 1] == '\r' {
            let stripped = chars_between(&raw, 0, raw.len() - 1);
            assert(stripped@ =~= raw@.drop_last());
            stripped
        } else {
            raw
        };
        let ghost rest = lines_from(s@, (e + 1) as nat);
        assert(lines_from(s@, i as nat) == seq![line@] + rest);
        assert((seq![line@] + rest)[0] == line@);
        assert((seq![line@] + rest).drop_first() =~= rest);
        match match_listing_line(&line, &exe) {
            Some(pid) => {
                return Some(pid);
            },
            None => {},
        }
        if e == n {
            assert(lines_from(s@, (e + 1) as nat) =~= Seq::<Seq<char>>::empty());
            assert(first_line_match(rest, exe@) is None);
            assert(first_line_match(seq![line@] + rest, exe@) == first_line_match(rest, exe@));
            return None;
        }
        i = e + 1;
    }
    None
}


/// `first_white_space` finds the earliest whitespace at or after `i`: the
/// position it gives holds whitespace and none comes before it; without a
/// position, there is no whitespace from `i` on.
pub proof fn law_first_white_space_is_the_earliest(s: Seq<char>, i: nat)
    ensures
        match first_white_space(s, i) {
            Some(k) => i <= k < s.len() && is_white_space(s[k as int]) && forall|j: int|
                i <= j < k ==> !is_white_space(#[trigger] s[j]),
            None => forall|j: int| i <= j < s.len() ==> !is_white_space(#[trigger] s[j]),
        },
    decreases s.len() - i,
{
    if i < s.len() && !is_white_space(s[i as int]) {
        law_first_white_space_is_the_earliest(s, i + 1);
    }
}

proof fn lemma_trim_start_of_padded(lead: Seq<char>, rest: Seq<char>)
    requires
        forall|i: int| 0 <= i < lead.len() ==> is_white_space(#[trigger] lead[i]),
        rest.len() > 0,
        !is_white_space(rest[0]),
    ensures
        trim_start(lead + rest) == rest,
    decreases lead.len(),
{
    if lead.len() == 0 {
        assert(lead + rest =~= rest);
    } else {
        assert((lead + rest)[0] == lead[0]);
        assert((lead + rest).drop_first() =~= lead.drop_first() + rest);
        assert forall|i: int| 0 <= i < lead.drop_first().len() implies is_white_space(
            #[trigger] lead.drop_first()[i],
        ) by {
            assert(lead.drop_first()[i] == lead[i + 1]);
        }
        lemma_trim_start_of_padded(lead.drop_first(), rest);
    }
}

proof fn lemma_split_after_digits(t: Seq<char>, n: nat, i: nat)
    requires
        i <= n < t.len(),
        forall|j: int| 0 <= j < n ==> '0' <= #[trigger] t[j] && t[j] <= '9',
        is_white_space(t[n as int]),
    ensures
        first_white_space(t, i) == Some(n),
    decreases n - i,
{
    if i < n {
        assert('0' <= t[i as int] && t[i as int] <= '9');
        lemma_split_after_digits(t, n, i + 1);
    }
}

/// A listing line names its process by the number before the first gap: a
/// line of optional leading whitespace, a decimal process number, a
/// whitespace and a command (which may itself hold spaces) that matches the
/// executable names that process.
pub proof fn law_listing_lines_split_at_the_first_gap(
    lead: Seq<char>,
    digits: Seq<char>,
    gap: char,
    command: Seq<char>,
    executable: Seq<char>,
)
    requires
        forall|i: int| 0 <= i < lead.len() ==> is_white_space(#[trigger] lead[i]),
        digits.len() > 0,
        forall|i: int| 0 <= i < digits.len() ==> '0' <= #[trigger] digits[i] && digits[i] <= '9',
        digits_value(digits) <= i32::MAX,
        is_white_space(gap),
        command.len() > 0,
        !is_white_space(command[0]),
        !is_white_space(command.last()),
        paths_match(executable, command),
    ensures
        line_match(lead + digits + seq![gap] + command, executable) == Some(
            digits_value(digits) as i32,
        ),
{
    let t = digits + seq![gap] + command;
    let line = lead + digits + seq![gap] + command;
    let n = digits.len();
    assert(line =~= lead + t);
    assert(t[0] == digits[0]);
    assert('0' <= t[0] && t[0] <= '9');
    lemma_trim_start_of_padded(lead, t);
    assert forall|j: int| 0 <= j < n implies '0' <= #[trigger] t[j] && t[j] <= '9' by {
        assert(t[j] == digits[j]);
    }
    assert(t[n as int] == gap);
    lemma_split_after_digits(t, n, 0);
    assert(t.take(n as int) =~= digits);
    assert(digits.skip(0) =~= digits);
    assert(all_digits(digits)) by {
        assert forall|i: int| 0 <= i < digits.len() implies is_digit(#[trigger] digits[i]) by {
            assert('0' <= digits[i] && digits[i] <= '9');
        }
    }
    lemma_digits_value_grows(digits, digits.len() as int);
    assert(digits.take(digits.len() as int) =~= digits);
    assert(parsed_i32(digits) == Some(digits_value(digits) as i32));
    let after = t.skip(n as int);
    assert(after =~= seq![gap] + command);
    assert(after[0] == gap);
    assert(after.drop_first() =~= command);
    assert(trim_start(command) == command);
    assert(trim_start(after) == command);
    assert(trim_end(command) == command);
}

} // verus!
