//! Cleaning a signal of digits by a transform that is applied in phases.

use vstd::prelude::*;

use crate::failure::{Cause, Failure};
use crate::text::{char_of_digit, chars_of, digit_char, is_digit, push_char};

verus! {

/// The digits that `text` writes, if it holds digits only.
pub open spec fn signal_of(text: Seq<char>) -> Option<Seq<i32>> {
    if forall|k: int| 0 <= k < text.len() ==> is_digit(#[trigger] text[k]) {
        Some(Seq::new(text.len(), |k: int| (text[k] as u32 - '0' as u32) as i32))
    } else {
        None
    }
}

/// The factor at place `j`, counted from 0, of the pattern for the output
/// digit `row`, counted from 1. The pattern repeats 0, 1, 0, -1, each `row`
/// times over, and its very first factor is left out.
pub open spec fn pattern(row: int, j: int) -> int {
    let quarter = ((j + 1) / row) % 4;
    if quarter == 1 {
        1
    } else if quarter == 3 {
        -1
    } else {
        0
    }
}

/// The sum of the first `n` digits of `signal`, each times its factor in the
/// pattern for `row`.
pub open spec fn weighted_sum(signal: Seq<i32>, row: int, n: int) -> int
    decreases n,
{
    if n <= 0 {
        0
    } else {
        weighted_sum(signal, row, n - 1) + signal[n - 1] * pattern(row, n - 1)
    }
}

/// The last digit of `v`, whatever its sign.
pub open spec fn last_digit(v: int) -> int {
    if v < 0 {
        (-v) % 10
    } else {
        v % 10
    }
}

/// One phase of the transform: output digit `i` is the last digit of the
/// weighted sum of the whole signal with the pattern for `i + 1`.
pub open spec fn transform(signal: Seq<i32>) -> Seq<i32> {
    Seq::new(
        signal.len(),
        |i: int| last_digit(weighted_sum(signal, i + 1, signal.len() as int)) as i32,
    )
}

/// The signal after `n` phases.
pub open spec fn phases(signal: Seq<i32>, n: nat) -> Seq<i32>
    decreases n,
{
    if n == 0 {
        signal
    } else {
        transform(phases(signal, (n - 1) as nat))
    }
}

/// The first eight digits of `signal`, or all of them if they are fewer,
/// written as text.
pub open spec fn first_eight(signal: Seq<i32>) -> Seq<char> {
    Seq::new(
        if signal.len() < 8 {
            signal.len()
        } else {
            8
        },
        |k: int| digit_char(signal[k] as nat),
    )
}

/// Reads the digits of `input`.
fn digits(input: &str) -> (r: Option<Vec<i32>>)
    ensures
        match signal_of(input@) {
            Some(signal) => r matches Some(v) && v@ == signal,
            None => r is None,
        },
{
    let chars = chars_of(input);
    let mut signal: Vec<i32> = Vec::new();
    let mut k: usize = 0;
    while k < chars.len()
        invariant
            k <= chars.len(),
            chars@ == input@,
            signal.len() == k,
            forall|j: int| 0 <= j < k ==> is_digit(#[trigger] chars@[j]),
            forall|j: int|
                0 <= j < k ==> #[trigger] signal[j] == (chars@[j] as u32 - '0' as u32) as i32,
        decreases chars.len() - k,
    {
        let c = chars[k];
        if !('0' <= c && c <= '9') {
            return None;
        }
        signal.push((c as u32 - '0' as u32) as i32);
        k = k + 1;
    }
    Some(signal)
}

/// The factor at place `j` of the pattern for the output digit `row`.
fn factor(row: usize, j: usize) -> (f: i128)
    requires
        row >= 1,
        j < usize::MAX,
    ensures
        f == pattern(row as int, j as int),
{
    let quarter = ((j + 1) / row) % 4;
    if quarter == 1 {
        1
    } else if quarter == 3 {
        -1
    } else {
        0
    }
}

/// One phase of the transform.
pub fn fft(input: Vec<i32>) -> (out: Vec<i32>)
    ensures
        out@ == transform(input@),
{
    let n = input.len();
    let mut out: Vec<i32> = Vec::new();
    let mut i: usize = 0;
    while i < n
        invariant
            i <= n == input.len(),
            out.len() == i,
            forall|k: int|
                0 <= k < i ==> #[trigger] out[k] == last_digit(
                    weighted_sum(input@, k + 1, n as int),
                ) as i32,
        decreases n - i,
    {
        let mut sum: i128 = 0;
        let mut j: usize = 0;
        while j < n
            invariant
                j <= n == input.len(),
                i < n,
                sum == weighted_sum(input@, i + 1, j as int),
                -0x8000_0000 * j <= sum <= 0x8000_0000 * j,
            decreases n - j,
        {
            let f = factor(i + 1, j);
            sum = sum + (input[j] as i128) * f;
            j = j + 1;
        }
        let magnitude: i128 = if sum < 0 {
            -sum
        } else {
            sum
        };
        out.push((magnitude % 10) as i32);
        i = i + 1;
    }
    out
}

/// The first eight digits of the signal in `input` after 100 phases, or
/// `Failure::BadInput` if `input` holds anything but digits.
pub fn q1(input: String, _args: &[String]) -> (r: Result<String, Failure>)
    ensures
        match signal_of(input@) {
            Some(signal) => r matches Ok(answer) && answer@ == first_eight(phases(signal, 100)),
            None => r matches Err(e) && e@ == Cause::BadInput,
        },
{
    let mut signal = match digits(input.as_str()) {
        Some(signal) => signal,
        None => {
            return Err(Failure::BadInput);
        },
    };
    let ghost start = signal@;
    let mut round: usize = 0;
    while round < 100
        invariant
            round <= 100,
            signal@ == phases(start, round as nat),
        decreases 100 - round,
    {
        signal = fft(signal);
        round = round + 1;
    }
    let mut text = String::new();
    let mut k: usize = 0;
    while k < 8 && k < signal.len()
        invariant
            k <= 8,
            k <= signal.len(),
            text@.len() == k,
            signal@ == phases(start, 100),
            forall|j: int| 0 <= j < k ==> #[trigger] text@[j] == digit_char(signal[j] as nat),
        decreases 8 - k,
    {
        push_char(&mut text, char_of_digit(signal[k] as u8));
        k = k + 1;
    }
    Ok(text)
}

} // verus!
