//! Reading numbers and lists out of text.

use vstd::prelude::*;
use vstd::std_specs::iter::IteratorSpec;

verus! {

broadcast use vstd::string::group_string_axioms;

/// The characters of `s`, in order.
pub fn chars_of(s: &str) -> (chars: Vec<char>)
    ensures
        chars@ == s@,
{
    let mut chars: Vec<char> = Vec::new();
    for c in it: s.chars()
        invariant
            chars@ == it.seq().take(it.index()),
            it.seq() == s@,
    {
        chars.push(c);
    }
    chars
}


/// Whether `c` counts as white space: the characters that Unicode gives the
/// property `White_Space`.
pub open spec fn is_space(c: char) -> bool {
    let n = c as u32;
    ||| 0x09 <= n <= 0x0D
    ||| n == 0x20
    ||| n == 0x85
    ||| n == 0xA0
    ||| n == 0x1680
    ||| 0x2000 <= n <= 0x200A
    ||| n == 0x2028
    ||| n == 0x2029
    ||| n == 0x202F
    ||| n == 0x205F
    ||| n == 0x3000
}

/// `s` without the white space at its start.
pub open spec fn trim_start(s: Seq<char>) -> Seq<char>
    decreases s.len(),
{
    if s.len() > 0 && is_space(s[0]) {
        trim_start(s.drop_first())
    } else {
        s
    }
}

/// `s` without the white space at its end.
pub open spec fn trim_end(s: Seq<char>) -> Seq<char>
    decreases s.len(),
{
    if s.len() > 0 && is_space(s.last()) {
        trim_end(s.drop_last())
    } else {
        s
    }
}

/// `s` without the white space at either end.
pub open spec fn trim(s: Seq<char>) -> Seq<char> {
    trim_end(trim_start(s))
}

/// The pieces of `s` between occurrences of `sep`. There is always at least
/// one piece: each `sep` ends a piece and starts the next, every other
/// character goes to the piece that is open.
pub open spec fn split(s: Seq<char>, sep: char) -> Seq<Seq<char>>
    decreases s.len(),
{
    if s.len() == 0 {
        seq![Seq::empty()]
    } else {
        let before = split(s.drop_last(), sep);
        if s.last() == sep {
            before.push(Seq::empty())
        } else {
            before.drop_last().push(before.last().push(s.last()))
        }
    }
}

/// The pieces of `s` between occurrences of the two characters `a` and `b`
/// one after the other, found from the left. There is always at least one
/// piece: each other character goes to the piece that is open, and a `b`
/// right after an `a` takes that `a` back out, ends the piece and starts the
/// next.
pub open spec fn split_on_pair(s: Seq<char>, a: char, b: char) -> Seq<Seq<char>>
    decreases s.len(),
{
    if s.len() == 0 {
        seq![Seq::empty()]
    } else {
        let before = split_on_pair(s.drop_last(), a, b);
        let open = before.last();
        if s.last() == b && open.len() > 0 && open.last() == a {
            before.drop_last().push(open.drop_last()).push(Seq::empty())
        } else {
            before.drop_last().push(open.push(s.last()))
        }
    }
}

/// Whether `c` is one of `0` to `9`.
pub open spec fn is_digit(c: char) -> bool {
    '0' <= c <= '9'
}

/// The value of the digit `c`.
pub open spec fn digit_value(c: char) -> nat {
    (c as u32 - '0' as u32) as nat
}

/// Whether `s` holds digits only.
pub open spec fn all_digits(s: Seq<char>) -> bool {
    forall|i: int| 0 <= i < s.len() ==> is_digit(#[trigger] s[i])
}

/// The number that the digits `s` write in base ten; 0 for no digits.
pub open spec fn decimal(s: Seq<char>) -> nat
    decreases s.len(),
{
    if s.len() == 0 {
        0
    } else {
        10 * decimal(s.drop_last()) + digit_value(s.last())
    }
}

/// The integer that `s` writes: an optional `+` or `-`, then one digit or
/// more, and nothing else. `None` for any other text.
pub open spec fn parse_int(s: Seq<char>) -> Option<int> {
    if s.len() > 0 && (s[0] == '-' || s[0] == '+') {
        let digits = s.drop_first();
        if digits.len() > 0 && all_digits(digits) {
            Some(
                if s[0] == '-' {
                    -(decimal(digits) as int)
                } else {
                    decimal(digits) as int
                },
            )
        } else {
            None
        }
    } else if s.len() > 0 && all_digits(s) {
        Some(decimal(s) as int)
    } else {
        None
    }
}

/// The natural number that `s` writes: an optional `+`, then one digit or
/// more, and nothing else. `None` for any other text, a leading `-` included.
pub open spec fn parse_nat(s: Seq<char>) -> Option<nat> {
    if s.len() > 0 && s[0] == '-' {
        None
    } else {
        match parse_int(s) {
            Some(v) => Some(v as nat),
            None => None,
        }
    }
}

/// What `parse_int` gives, where that fits in an `i64`.
pub open spec fn parse_i64(s: Seq<char>) -> Option<i64> {
    match parse_int(s) {
        Some(v) => if i64::MIN <= v <= i64::MAX {
            Some(v as i64)
        } else {
            None
        },
        None => None,
    }
}

/// What `parse_nat` gives, where that fits in a `u64`.
pub open spec fn parse_u64(s: Seq<char>) -> Option<u64> {
    match parse_nat(s) {
        Some(v) => if v <= u64::MAX {
            Some(v as u64)
        } else {
            None
        },
        None => None,
    }
}

/// What `parse_nat` gives, where that fits in a `usize`.
pub open spec fn parse_usize(s: Seq<char>) -> Option<usize> {
    match parse_nat(s) {
        Some(v) => if v <= usize::MAX {
            Some(v as usize)
        } else {
            None
        },
        None => None,
    }
}

/// The numbers that the lines of `text` write, if each line writes one.
pub open spec fn numbers_by_line(text: Seq<char>) -> Option<Seq<usize>> {
    let lines = split(text, '\n');
    if forall|k: int| 0 <= k < lines.len() ==> parse_usize(#[trigger] lines[k]) is Some {
        Some(Seq::new(lines.len(), |k: int| parse_usize(lines[k]).unwrap()))
    } else {
        None
    }
}

/// Whether `c` is white space.
pub fn is_whitespace(c: char) -> (b: bool)
    ensures
        b == is_space(c),
{
    let n: u32 = c as u32;
    (0x09 <= n && n <= 0x0D) || n == 0x20 || n == 0x85 || n == 0xA0 || n == 0x1680 || (0x2000 <= n
        && n <= 0x200A) || n == 0x2028 || n == 0x2029 || n == 0x202F || n == 0x205F || n == 0x3000
}

/// The largest magnitude that `parse_digits` still reports exactly.
pub const DIGITS_CAP: u128 = 0x1_0000_0000_0000_0000;

/// Reads `chars[from..to]` as a run of digits. `None` if the run is empty or
/// holds anything but digits; else its value, or `DIGITS_CAP` where the value
/// is that large or larger.
pub fn parse_digits(chars: &Vec<char>, from: usize, to: usize) -> (r: Option<u128>)
    requires
        from <= to <= chars.len(),
    ensures
        r is Some <==> from < to && all_digits(chars@.subrange(from as int, to as int)),
        r matches Some(v) ==> v == if decimal(chars@.subrange(from as int, to as int))
            < DIGITS_CAP {
            decimal(chars@.subrange(from as int, to as int))
        } else {
            DIGITS_CAP as nat
        },
{
    let ghost run = chars@.subrange(from as int, to as int);
    if from == to {
        return None;
    }
    let mut acc: u128 = 0;
    let mut i: usize = from;
    while i < to
        invariant
            from <= i <= to <= chars.len(),
            run == chars@.subrange(from as int, to as int),
            all_digits(run.take(i - from)),
            acc <= DIGITS_CAP,
            acc == if decimal(run.take(i - from)) < DIGITS_CAP {
                decimal(run.take(i - from))
            } else {
                DIGITS_CAP as nat
            },
        decreases to - i,
    {
        let c = chars[i];
        let ghost before = run.take(i - from);
        let ghost after = run.take(i - from + 1);
        assert(after.drop_last() =~= before);
        if !('0' <= c && c <= '9') {
            assert(!is_digit(run[i - from]));
            return None;
        }
        assert forall|j: int| 0 <= j < after.len() implies is_digit(#[trigger] after[j]) by {
            if j < before.len() {
                assert(after[j] == before[j]);
            }
        }
        let d: u128 = (c as u32 - '0' as u32) as u128;
        let next: u128 = 10 * acc + d;
        acc = if next < DIGITS_CAP {
            next
        } else {
            DIGITS_CAP
        };
        i = i + 1;
    }
    assert(run.take(to - from) =~= run);
    Some(acc)
}


/// Reads `chars[from..to]` as an integer of type `i64`.
pub fn parse_i64_in(chars: &Vec<char>, from: usize, to: usize) -> (r: Option<i64>)
    requires
        from <= to <= chars.len(),
    ensures
        r == parse_i64(chars@.subrange(from as int, to as int)),
{
    let ghost run = chars@.subrange(from as int, to as int);
    if from == to {
        return None;
    }
    let first = chars[from];
    if first == '-' || first == '+' {
        assert(run.drop_first() =~= chars@.subrange(from + 1, to as int));
        match parse_digits(chars, from + 1, to) {
            None => None,
            Some(m) => {
                if first == '-' {
                    if m <= 0x8000_0000_0000_0000 {
                        Some((-(m as i128)) as i64)
                    } else {
                        None
                    }
                } else if m <= 0x7fff_ffff_ffff_ffff {
                    Some(m as i64)
                } else {
                    None
                }
            },
        }
    } else {
        match parse_digits(chars, from, to) {
            None => None,
            Some(m) => if m <= 0x7fff_ffff_ffff_ffff {
                Some(m as i64)
            } else {
                None
            },
        }
    }
}

/// Reads `chars[from..to]` as a natural number of type `u64`.
pub fn parse_u64_in(chars: &Vec<char>, from: usize, to: usize) -> (r: Option<u64>)
    requires
        from <= to <= chars.len(),
    ensures
        r == parse_u64(chars@.subrange(from as int, to as int)),
{
    let ghost run = chars@.subrange(from as int, to as int);
    if from == to {
        return None;
    }
    let first = chars[from];
    let start: usize = if first == '+' {
        from + 1
    } else {
        from
    };
    assert(first == '+' ==> run.drop_first() =~= chars@.subrange(from + 1, to as int));
    if first == '-' {
        return None;
    }
    match parse_digits(chars, start, to) {
        None => None,
        Some(m) => if m <= 0xffff_ffff_ffff_ffff {
            Some(m as u64)
        } else {
            None
        },
    }
}

/// Reads `chars[from..to]` as a natural number of type `usize`.
pub fn parse_usize_in(chars: &Vec<char>, from: usize, to: usize) -> (r: Option<usize>)
    requires
        from <= to <= chars.len(),
    ensures
        r == parse_usize(chars@.subrange(from as int, to as int)),
{
    match parse_u64_in(chars, from, to) {
        Some(v) => if v <= usize::MAX as u64 {
            Some(v as usize)
        } else {
            None
        },
        None => None,
    }
}

/// Where `chars[from..to]` starts and ends once the white space at both ends
/// is left out.
pub fn trim_bounds(chars: &Vec<char>, from: usize, to: usize) -> (r: (usize, usize))
    requires
        from <= to <= chars.len(),
    ensures
        from <= r.0 <= r.1 <= to,
        chars@.subrange(r.0 as int, r.1 as int) == trim(chars@.subrange(from as int, to as int)),
{
    let mut lo: usize = from;
    while lo < to && is_whitespace(chars[lo])
        invariant
            from <= lo <= to <= chars.len(),
            trim_start(chars@.subrange(from as int, to as int)) == trim_start(
                chars@.subrange(lo as int, to as int),
            ),
        decreases to - lo,
    {
        assert(chars@.subrange(lo as int, to as int).drop_first() =~= chars@.subrange(
            lo + 1,
            to as int,
        ));
        lo = lo + 1;
    }
    let mut hi: usize = to;
    while lo < hi && is_whitespace(chars[hi - 1])
        invariant
            lo <= hi <= to <= chars.len(),
            trim_end(chars@.subrange(lo as int, to as int)) == trim_end(
                chars@.subrange(lo as int, hi as int),
            ),
        decreases hi - lo,
    {
        assert(chars@.subrange(lo as int, hi as int).drop_last() =~= chars@.subrange(
            lo as int,
            hi - 1,
        ));
        hi = hi - 1;
    }
    (lo, hi)
}

/// Where the pieces of `chars[from..to]` between occurrences of `sep` start
/// and end.
pub fn split_bounds(chars: &Vec<char>, from: usize, to: usize, sep: char) -> (pieces: Vec<
    (usize, usize),
>)
    requires
        from <= to <= chars.len(),
    ensures
        pieces.len() == split(chars@.subrange(from as int, to as int), sep).len(),
        forall|k: int|
            0 <= k < pieces.len() ==> from <= (#[trigger] pieces[k]).0 <= pieces[k].1 <= to,
        forall|k: int|
            0 <= k < pieces.len() ==> chars@.subrange(
                (#[trigger] pieces[k]).0 as int,
                pieces[k].1 as int,
            ) == split(chars@.subrange(from as int, to as int), sep)[k],
{
    let ghost run = chars@.subrange(from as int, to as int);
    let mut pieces: Vec<(usize, usize)> = Vec::new();
    let mut start: usize = from;
    let mut i: usize = from;
    while i < to
        invariant
            from <= start <= i <= to <= chars.len(),
            run == chars@.subrange(from as int, to as int),
            split(run.take(i - from), sep).len() == pieces.len() + 1,
            split(run.take(i - from), sep).last() == chars@.subrange(start as int, i as int),
            forall|k: int|
                0 <= k < pieces.len() ==> from <= (#[trigger] pieces[k]).0 <= pieces[k].1 <= to,
            forall|k: int|
                0 <= k < pieces.len() ==> chars@.subrange(
                    (#[trigger] pieces[k]).0 as int,
                    pieces[k].1 as int,
                ) == split(run.take(i - from), sep)[k],
        decreases to - i,
    {
        let c = chars[i];
        assert(run.take(i - from + 1).drop_last() =~= run.take(i - from));
        if c == sep {
            pieces.push((start, i));
            start = i + 1;
        } else {
            assert(chars@.subrange(start as int, i + 1) =~= chars@.subrange(
                start as int,
                i as int,
            ).push(c));
        }
        i = i + 1;
    }
    assert(run.take(to - from) =~= run);
    pieces.push((start, to));
    pieces
}

/// Where the pieces of `chars[from..to]` between occurrences of `a` and `b`
/// one after the other start and end.
pub fn split_on_pair_bounds(chars: &Vec<char>, from: usize, to: usize, a: char, b: char) -> (pieces:
    Vec<(usize, usize)>)
    requires
        from <= to <= chars.len(),
    ensures
        pieces.len() == split_on_pair(chars@.subrange(from as int, to as int), a, b).len(),
        forall|k: int|
            0 <= k < pieces.len() ==> from <= (#[trigger] pieces[k]).0 <= pieces[k].1 <= to,
        forall|k: int|
            0 <= k < pieces.len() ==> chars@.subrange(
                (#[trigger] pieces[k]).0 as int,
                pieces[k].1 as int,
            ) == split_on_pair(chars@.subrange(from as int, to as int), a, b)[k],
{
    let ghost run = chars@.subrange(from as int, to as int);
    let mut pieces: Vec<(usize, usize)> = Vec::new();
    let mut start: usize = from;
    let mut i: usize = from;
    while i < to
        invariant
            from <= start <= i <= to <= chars.len(),
            run == chars@.subrange(from as int, to as int),
            split_on_pair(run.take(i - from), a, b).len() == pieces.len() + 1,
            split_on_pair(run.take(i - from), a, b).last() == chars@.subrange(
                start as int,
                i as int,
            ),
            forall|k: int|
                0 <= k < pieces.len() ==> from <= (#[trigger] pieces[k]).0 <= pieces[k].1 <= to,
            forall|k: int|
                0 <= k < pieces.len() ==> chars@.subrange(
                    (#[trigger] pieces[k]).0 as int,
                    pieces[k].1 as int,
                ) == split_on_pair(run.take(i - from), a, b)[k],
        decreases to - i,
    {
        let c = chars[i];
        assert(run.take(i - from + 1).drop_last() =~= run.take(i - from));
        if c == b && start < i && chars[i - 1] == a {
            pieces.push((start, i - 1));
            start = i + 1;
        } else {
            assert(chars@.subrange(start as int, i + 1) =~= chars@.subrange(
                start as int,
                i as int,
            ).push(c));
        }
        i = i + 1;
    }
    assert(run.take(to - from) =~= run);
    pieces.push((start, to));
    pieces
}

/// Whether two texts are the same.
pub fn same_text(a: &Vec<char>, b: &Vec<char>) -> (r: bool)
    ensures
        r == (a@ == b@),
{
    if a.len() != b.len() {
        return false;
    }
    let mut k: usize = 0;
    while k < a.len()
        invariant
            k <= a.len() == b.len(),
            forall|i: int| 0 <= i < k ==> a[i] == b[i],
        decreases a.len() - k,
    {
        if a[k] != b[k] {
            return false;
        }
        k = k + 1;
    }
    assert(a@ =~= b@);
    true
}

/// A copy of `chars[from..to]`.
pub fn copy_text(chars: &Vec<char>, from: usize, to: usize) -> (text: Vec<char>)
    requires
        from <= to <= chars.len(),
    ensures
        text@ == chars@.subrange(from as int, to as int),
{
    let mut text: Vec<char> = Vec::new();
    let mut k: usize = from;
    while k < to
        invariant
            from <= k <= to <= chars.len(),
            text@ == chars@.subrange(from as int, k as int),
        decreases to - k,
    {
        text.push(chars[k]);
        k = k + 1;
    }
    text
}

/// The list of integers that `s` writes: numbers with commas between them,
/// each with any white space around it. `None` if some piece between two
/// commas is no number, or does not fit in an `i64`.
pub open spec fn int_list(s: Seq<char>) -> Option<Seq<i64>> {
    let pieces = split(s, ',');
    if forall|k: int| 0 <= k < pieces.len() ==> parse_i64(trim(#[trigger] pieces[k])) is Some {
        Some(Seq::new(pieces.len(), |k: int| parse_i64(trim(pieces[k])).unwrap()))
    } else {
        None
    }
}

/// Reads `chars[from..to]` as a list of integers with commas between them.
pub fn parse_int_list_in(chars: &Vec<char>, from: usize, to: usize) -> (r: Option<Vec<i64>>)
    requires
        from <= to <= chars.len(),
    ensures
        r is Some <==> int_list(chars@.subrange(from as int, to as int)) is Some,
        r matches Some(v) ==> v@ == int_list(chars@.subrange(from as int, to as int)).unwrap(),
{
    let ghost text = chars@.subrange(from as int, to as int);
    let pieces = split_bounds(chars, from, to, ',');
    let ghost parts = split(text, ',');
    let mut values: Vec<i64> = Vec::new();
    let mut k: usize = 0;
    while k < pieces.len()
        invariant
            k <= pieces.len() == parts.len(),
            parts == split(text, ','),
            text == chars@.subrange(from as int, to as int),
            forall|j: int|
                0 <= j < pieces.len() ==> (#[trigger] pieces[j]).0 <= pieces[j].1 <= chars.len(),
            forall|j: int|
                0 <= j < pieces.len() ==> chars@.subrange(
                    (#[trigger] pieces[j]).0 as int,
                    pieces[j].1 as int,
                ) == parts[j],
            values.len() == k,
            forall|j: int| 0 <= j < k ==> parse_i64(trim(#[trigger] parts[j])) == Some(values[j]),
        decreases pieces.len() - k,
    {
        let (lo, hi) = trim_bounds(chars, pieces[k].0, pieces[k].1);
        match parse_i64_in(chars, lo, hi) {
            Some(v) => {
                values.push(v);
            },
            None => {
                return None;
            },
        }
        k = k + 1;
    }
    Some(values)
}

/// Reads `s` as a list of integers with commas between them.
pub fn parse_int_list(s: &str) -> (r: Option<Vec<i64>>)
    ensures
        r is Some <==> int_list(s@) is Some,
        r matches Some(v) ==> v@ == int_list(s@).unwrap(),
{
    let chars = chars_of(s);
    assert(chars@.subrange(0, chars.len() as int) =~= s@);
    parse_int_list_in(&chars, 0, chars.len())
}

/// The character that writes the digit `d`, which is below ten.
pub open spec fn digit_char(d: nat) -> char {
    (d + '0' as u32) as char
}

/// The text that writes `n` in base ten, without leading zeros.
pub open spec fn decimal_text(n: nat) -> Seq<char>
    decreases n,
{
    if n < 10 {
        seq![digit_char(n)]
    } else {
        decimal_text(n / 10).push(digit_char(n % 10))
    }
}

/// Calls `String::push`, which adds one character at the end of the string.
#[verifier::external_body]
pub(crate) fn push_char(s: &mut String, c: char)
    ensures
        final(s)@ == old(s)@.push(c),
{
    s.push(c)
}

/// The character that writes the digit `d`.
pub fn char_of_digit(d: u8) -> (c: char)
    requires
        d < 10,
    ensures
        c == digit_char(d as nat),
{
    if d == 0 {
        '0'
    } else if d == 1 {
        '1'
    } else if d == 2 {
        '2'
    } else if d == 3 {
        '3'
    } else if d == 4 {
        '4'
    } else if d == 5 {
        '5'
    } else if d == 6 {
        '6'
    } else if d == 7 {
        '7'
    } else if d == 8 {
        '8'
    } else {
        '9'
    }
}

/// Adds to `s` the text that writes `n` in base ten.
pub fn push_decimal(s: &mut String, n: u64)
    ensures
        final(s)@ == old(s)@ + decimal_text(n as nat),
    decreases n,
{
    if n < 10 {
        push_char(s, char_of_digit(n as u8));
    } else {
        push_decimal(s, n / 10);
        push_char(s, char_of_digit((n % 10) as u8));
    }
}

/// Reads one number from each line of `s`.
pub fn parse_numbers_by_line(s: &str) -> (r: Option<Vec<usize>>)
    ensures
        match numbers_by_line(s@) {
            Some(numbers) => r matches Some(v) && v@ == numbers,
            None => r is None,
        },
{
    let chars = chars_of(s);
    assert(chars@.subrange(0, chars.len() as int) =~= s@);
    let lines = split_bounds(&chars, 0, chars.len(), '\n');
    let ghost parts = split(s@, '\n');
    let mut numbers: Vec<usize> = Vec::new();
    let mut k: usize = 0;
    while k < lines.len()
        invariant
            k <= lines.len() == parts.len(),
            parts == split(s@, '\n'),
            chars@ == s@,
            forall|j: int|
                0 <= j < lines.len() ==> (#[trigger] lines[j]).0 <= lines[j].1 <= chars.len(),
            forall|j: int|
                0 <= j < lines.len() ==> chars@.subrange(
                    (#[trigger] lines[j]).0 as int,
                    lines[j].1 as int,
                ) == parts[j],
            numbers.len() == k,
            forall|j: int| 0 <= j < k ==> parse_usize(#[trigger] parts[j]) == Some(numbers[j]),
        decreases lines.len() - k,
    {
        match parse_usize_in(&chars, lines[k].0, lines[k].1) {
            Some(v) => {
                numbers.push(v);
            },
            None => {
                return None;
            },
        }
        k = k + 1;
    }
    Some(numbers)
}

} // verus!
