use vstd::prelude::*;
use vstd::string::*;

verus! {

/// An ASCII decimal digit.
pub open spec fn is_digit(c: char) -> bool {
    '0' <= c && c <= '9'
}

/// The value of a decimal digit.
pub open spec fn digit_value(c: char) -> int {
    (c as u32) as int - 48
}

/// The value of a string of decimal digits, most significant first.
pub open spec fn digits_value(t: Seq<char>) -> int
    decreases t.len(),
{
    if t.len() == 0 {
        0
    } else {
        digits_value(t.drop_last()) * 10 + digit_value(t.last())
    }
}

/// The index at which the run of digits that starts at `i` ends.
pub open spec fn digit_run(s: Seq<char>, i: int) -> int
    decreases s.len() - i,
{
    if 0 <= i < s.len() && is_digit(s[i]) {
        digit_run(s, i + 1)
    } else {
        i
    }
}

/// The number of bytes that a unit suffix stands for.
pub open spec fn unit_size(t: Seq<char>) -> Option<int> {
    if t == seq!['B'] {
        Some(1)
    } else if t == seq!['K', 'i', 'B'] {
        Some(1024)
    } else if t == seq!['M', 'i', 'B'] {
        Some(1048576)
    } else if t == seq!['G', 'i', 'B'] {
        Some(1073741824)
    } else if t == seq!['T', 'i', 'B'] {
        Some(1099511627776)
    } else if t == seq!['P', 'i', 'B'] {
        Some(1125899906842624)
    } else if t == seq!['E', 'i', 'B'] {
        Some(1152921504606846976)
    } else {
        None
    }
}

/// The size that a text such as `"4KiB"` stands for: a decimal number, an
/// optional fractional part, and an optional binary unit. A fractional part
/// is ignored without a unit, and rejected before one.
pub open spec fn binary_size(s: Seq<char>) -> Option<int> {
    let n = digit_run(s, 0);
    if n == 0 {
        None
    } else {
        let a = digits_value(s.subrange(0, n));
        if n == s.len() {
            Some(a)
        } else {
            let m = if s[n] == '.' { digit_run(s, n + 1) } else { n };
            let fractional = s[n] == '.';
            if m == s.len() {
                Some(a)
            } else {
                match unit_size(s.subrange(m, s.len() as int)) {
                    Some(c) => if fractional { None } else { Some(a * c) },
                    None => None,
                }
            }
        }
    }
}

proof fn lemma_digit_run_bounds(s: Seq<char>, i: int)
    requires
        0 <= i <= s.len(),
    ensures
        i <= digit_run(s, i) <= s.len(),
        forall|k: int| i <= k < digit_run(s, i) ==> is_digit(#[trigger] s[k]),
    decreases s.len() - i,
{
    if i < s.len() && is_digit(s[i]) {
        lemma_digit_run_bounds(s, i + 1);
    }
}

fn is_ascii_digit(c: char) -> (r: bool)
    ensures
        r == is_digit(c),
{
    '0' <= c && c <= '9'
}

proof fn lemma_digits_value_nonneg(t: Seq<char>)
    requires
        forall|k: int| 0 <= k < t.len() ==> is_digit(#[trigger] t[k]),
    ensures
        digits_value(t) >= 0,
    decreases t.len(),
{
    if t.len() > 0 {
        let u = t.drop_last();
        assert forall|k: int| 0 <= k < u.len() implies is_digit(#[trigger] u[k]) by {
            assert(u[k] == t[k]);
        }
        lemma_digits_value_nonneg(u);
        assert(is_digit(t[t.len() - 1]));
    }
}

/// A size is never less than the number that it starts with.
proof fn lemma_size_at_least_number(s: Seq<char>)
    requires
        digit_run(s, 0) > 0,
    ensures
        match binary_size(s) {
            Some(v) => v >= digits_value(s.subrange(0, digit_run(s, 0))),
            None => true,
        },
{
    lemma_digit_run_bounds(s, 0);
    let n = digit_run(s, 0);
    let p = s.subrange(0, n);
    assert forall|k: int| 0 <= k < p.len() implies is_digit(#[trigger] p[k]) by {
        assert(p[k] == s[k]);
    }
    lemma_digits_value_nonneg(p);
    let a = digits_value(p);
    if n < s.len() {
        let m = if s[n] == '.' { digit_run(s, n + 1) } else { n };
        if s[n] == '.' {
            lemma_digit_run_bounds(s, n + 1);
        }
        if m < s.len() {
            match unit_size(s.subrange(m, s.len() as int)) {
                Some(c) => {
                    assert(c >= 1);
                    assert(a * c >= a) by (nonlinear_arith)
                        requires
                            a >= 0,
                            c >= 1,
                    ;
                },
                None => {},
            }
        }
    }
}

/// Finds the end of the run of digits that starts at `start`.
fn scan_digits(input: &str, start: usize) -> (end: usize)
    requires
        start <= input@.len(),
    ensures
        end == digit_run(input@, start as int),
        start <= end <= input@.len(),
{
    let len = input.unicode_len();
    let mut i = start;
    while i < len && is_ascii_digit(input.get_char(i))
        invariant
            start <= i <= len,
            len == input@.len(),
            digit_run(input@, start as int) == digit_run(input@, i as int),
        decreases len - i,
    {
        i = i + 1;
    }
    i
}

/// The value of the digits `input[start..end]`, or `None` where it does not
/// fit in a `u64`.
fn read_digits(input: &str, start: usize, end: usize) -> (r: Option<u64>)
    requires
        start <= end <= input@.len(),
        forall|k: int| start <= k < end ==> is_digit(#[trigger] input@[k]),
    ensures
        match r {
            Some(v) => v as int == digits_value(input@.subrange(start as int, end as int)),
            None => digits_value(input@.subrange(start as int, end as int)) > u64::MAX,
        },
{
    let ghost s = input@;
    let mut value: u64 = 0;
    let mut overflow = false;
    let mut i = start;
    assert(s.subrange(start as int, start as int).len() == 0);
    while i < end
        invariant
            start <= i <= end,
            end <= s.len(),
            s == input@,
            forall|k: int| start <= k < end ==> is_digit(#[trigger] s[k]),
            !overflow ==> value as int == digits_value(s.subrange(start as int, i as int)),
            overflow ==> digits_value(s.subrange(start as int, i as int)) > u64::MAX,
        decreases end - i,
    {
        let c = input.get_char(i);
        assert(is_digit(s[i as int]));
        let d = (c as u32 - 48u32) as u64;
        let ghost prev = s.subrange(start as int, i as int);
        let ghost next = s.subrange(start as int, i + 1);
        assert(next.drop_last() =~= prev);
        assert(next.last() == s[i as int]);
        assert(digits_value(next) == digits_value(prev) * 10 + digit_value(s[i as int]));
        proof {
            assert forall|k: int| 0 <= k < prev.len() implies is_digit(#[trigger] prev[k]) by {
                assert(prev[k] == s[start + k]);
            }
            lemma_digits_value_nonneg(prev);
        }
        if !overflow {
            if value > 1844674407370955161u64 || (value == 1844674407370955161u64 && d > 5) {
                overflow = true;
            } else {
                value = value * 10 + d;
            }
        }
        i = i + 1;
    }
    if overflow {
        None
    } else {
        Some(value)
    }
}

/// The unit that `input[start..]` names, if any.
fn read_unit(input: &str, start: usize) -> (r: Option<u64>)
    requires
        start <= input@.len(),
    ensures
        match unit_size(input@.subrange(start as int, input@.len() as int)) {
            Some(c) => r == Some(c as u64),
            None => r is None,
        },
{
    let ghost t = input@.subrange(start as int, input@.len() as int);
    let len = input.unicode_len();
    if len - start == 1 {
        if input.get_char(start) == 'B' {
            assert(t =~= seq!['B']);
            return Some(1);
        }
        assert(t[0] != 'B');
        assert(t != seq!['B']);
        assert(t.len() != 3);
        return None;
    }
    if len - start != 3 {
        assert(t.len() != 1 && t.len() != 3);
        return None;
    }
    let c0 = input.get_char(start);
    let c1 = input.get_char(start + 1);
    let c2 = input.get_char(start + 2);
    if c1 != 'i' || c2 != 'B' {
        assert(t[1] != 'i' || t[2] != 'B');
        return None;
    }
    assert(t =~= seq![c0, 'i', 'B']);
    if c0 == 'K' {
        Some(1024)
    } else if c0 == 'M' {
        Some(1048576)
    } else if c0 == 'G' {
        Some(1073741824)
    } else if c0 == 'T' {
        Some(1099511627776)
    } else if c0 == 'P' {
        Some(1125899906842624)
    } else if c0 == 'E' {
        Some(1152921504606846976)
    } else {
        assert(t[0] == c0);
        None
    }
}

/// Parses a size in bytes such as `"123"`, `"4KiB"` or `"7GiB"`.
///
/// A fractional part is accepted and ignored where no unit follows, and
/// rejected before a unit (`"1.5KiB"`, `"1.0KiB"`). An unknown unit, a missing number, and a size that
/// does not fit in a `u64` are errors.
pub fn parse_binary_size(input: &str) -> (r: Result<u64, ()>)
    ensures
        match binary_size(input@) {
            Some(v) => if v <= u64::MAX { r == Ok::<u64, ()>(v as u64) } else { r is Err },
            None => r is Err,
        },
{
    let ghost s = input@;
    let len = input.unicode_len();
    let n = scan_digits(input, 0);
    if n == 0 {
        return Err(());
    }
    proof {
        lemma_digit_run_bounds(s, 0);
    }
    let a = match read_digits(input, 0, n) {
        Some(a) => a,
        None => {
            proof {
                lemma_size_at_least_number(s);
            }
            return Err(());
        },
    };
    if n == len {
        return Ok(a);
    }
    let mut m = n;
    let fractional = input.get_char(n) == '.';
    if fractional {
        m = scan_digits(input, n + 1);
    }
    if m == len {
        return Ok(a);
    }
    match read_unit(input, m) {
        None => Err(()),
        Some(c) => {
            if fractional {
                Err(())
            } else {
                a.checked_mul(c).ok_or(())
            }
        },
    }
}

} // verus!
