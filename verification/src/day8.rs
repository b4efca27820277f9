//! An image sent as layers of 25 by 6 pixels, one digit for each pixel.

use vstd::prelude::*;

use crate::failure::{Cause, Failure};
use crate::text::{chars_of, push_char};

verus! {

/// The number of pixels in a layer: six rows of 25.
pub const AREA: usize = 150;

/// The number of layers in `text`; the last may be short.
pub open spec fn layers(text: Seq<char>) -> int {
    (text.len() + AREA - 1) / AREA as int
}

/// Layer `k` of `text`.
pub open spec fn layer(text: Seq<char>, k: int) -> Seq<char> {
    text.subrange(
        k * AREA,
        if (k + 1) * AREA <= text.len() {
            (k + 1) * AREA
        } else {
            text.len() as int
        },
    )
}

/// The number of times that `c` occurs among the first `n` of `pixels`.
pub open spec fn tally(pixels: Seq<char>, c: char, n: int) -> int
    decreases n,
{
    if n <= 0 {
        0
    } else {
        tally(pixels, c, n - 1) + if pixels[n - 1] == c {
            1int
        } else {
            0int
        }
    }
}

/// The number of times that `c` occurs in layer `k`.
pub open spec fn tally_in(text: Seq<char>, k: int, c: char) -> int {
    tally(layer(text, k), c, layer(text, k).len() as int)
}

/// Among the first `n` layers, the first of those with the fewest zeros.
pub open spec fn fewest_zeros(text: Seq<char>, n: int) -> int
    decreases n,
{
    if n <= 1 {
        0
    } else {
        let best = fewest_zeros(text, n - 1);
        if tally_in(text, n - 1, '0') < tally_in(text, best, '0') {
            n - 1
        } else {
            best
        }
    }
}

/// The number of ones times the number of twos in the layer with the
/// fewest zeros.
pub open spec fn checksum(text: Seq<char>) -> Result<usize, Cause> {
    if text.len() == 0 {
        Err(Cause::BadInput)
    } else {
        let k = fewest_zeros(text, layers(text));
        Ok((tally_in(text, k, '1') * tally_in(text, k, '2')) as usize)
    }
}

/// What is seen at pixel `i` through the first `n` layers: the pixel of the
/// first layer that has one there and is not see-through, which is the digit
/// 2. A blank stands for no pixel yet.
pub open spec fn seen(text: Seq<char>, i: int, n: int) -> char
    decreases n,
{
    if n <= 0 {
        ' '
    } else {
        let above = seen(text, i, n - 1);
        if (above == ' ' || above == '2') && i < layer(text, n - 1).len() {
            layer(text, n - 1)[i]
        } else {
            above
        }
    }
}

/// How a pixel is drawn: black as a blank, white as `X`, anything else as `_`.
pub open spec fn glyph(c: char) -> char {
    if c == '0' {
        ' '
    } else if c == '1' {
        'X'
    } else {
        '_'
    }
}

/// The glyphs of all pixels, row after row.
pub open spec fn glyphs(text: Seq<char>) -> Seq<char> {
    Seq::new(AREA as nat, |i: int| glyph(seen(text, i, layers(text))))
}

/// The picture: six lines of 25 glyphs with a line feed after each line but
/// the last.
pub open spec fn picture(text: Seq<char>) -> Seq<char> {
    Seq::new(
        155,
        |p: int|
            if p % 26 == 25 {
                '\n'
            } else {
                glyphs(text)[(p / 26) * 25 + p % 26]
            },
    )
}

/// Counts `c` in `chars[from..to]`.
fn count_char(chars: &Vec<char>, from: usize, to: usize, c: char) -> (n: usize)
    requires
        from <= to <= chars.len(),
    ensures
        n == tally(chars@.subrange(from as int, to as int), c, to - from),
        n <= to - from,
{
    let ghost pixels = chars@.subrange(from as int, to as int);
    let mut n: usize = 0;
    let mut k: usize = from;
    while k < to
        invariant
            from <= k <= to <= chars.len(),
            pixels == chars@.subrange(from as int, to as int),
            n == tally(pixels, c, k - from),
            n <= k - from,
        decreases to - k,
    {
        if chars[k] == c {
            n = n + 1;
        }
        k = k + 1;
    }
    n
}

/// Where the layer that starts at `from` ends, in `len` pixels.
fn layer_end(len: usize, from: usize, Ghost(k): Ghost<int>) -> (end: usize)
    requires
        from < len,
        from == k * 150,
    ensures
        end == if (k + 1) * 150 <= len {
            (k + 1) * 150
        } else {
            len as int
        },
        from < end <= len,
        end - from <= 150,
{
    if len - from >= AREA {
        from + AREA
    } else {
        len
    }
}

/// The number of ones times the number of twos in the layer of `input` with
/// the fewest zeros; of several such layers the first. It is
/// `Failure::BadInput` if `input` is empty.
pub fn q1(input: String, _args: &[String]) -> (r: Result<usize, Failure>)
    ensures
        match checksum(input@) {
            Ok(n) => r == Ok::<usize, Failure>(n),
            Err(cause) => r matches Err(e) && e@ == cause,
        },
{
    let chars = chars_of(input.as_str());
    let len = chars.len();
    if len == 0 {
        return Err(Failure::BadInput);
    }
    let mut best_from: usize = 0;
    let mut best_to = layer_end(len, 0, Ghost(0));
    let mut best_zeros = count_char(&chars, 0, best_to, '0');
    let ghost mut best: int = 0;
    let ghost mut k: int = 1;
    let mut from: usize = best_to;
    while from < len
        invariant
            chars@ == input@,
            len == chars.len(),
            1 <= k,
            from <= len,
            from < len ==> from == k * 150,
            from == len ==> (k - 1) * 150 < len <= k * 150,
            0 <= best < k,
            best == fewest_zeros(input@, k),
            best_from == best * 150,
            best_from < best_to <= len,
            chars@.subrange(best_from as int, best_to as int) == layer(input@, best),
            best_zeros == tally_in(input@, best, '0'),
        decreases len - from,
    {
        let end = layer_end(len, from, Ghost(k));
        let zeros = count_char(&chars, from, end, '0');
        if zeros < best_zeros {
            best_from = from;
            best_to = end;
            best_zeros = zeros;
            proof {
                best = k;
            }
        }
        from = end;
        proof {
            k = k + 1;
        }
    }
    let ones = count_char(&chars, best_from, best_to, '1');
    let twos = count_char(&chars, best_from, best_to, '2');
    assert(ones * twos <= 150 * 150) by (nonlinear_arith)
        requires
            ones <= 150,
            twos <= 150,
    ;
    Ok(ones * twos)
}

/// What is seen at pixel `i` through all the layers of `chars`.
fn look(chars: &Vec<char>, i: usize) -> (shade: char)
    requires
        i < 150,
    ensures
        shade == seen(chars@, i as int, layers(chars@)),
{
    let len = chars.len();
    let mut shade = ' ';
    let ghost mut k: int = 0;
    let mut from: usize = 0;
    while from < len
        invariant
            len == chars.len(),
            0 <= k,
            from <= len,
            from < len ==> from == k * 150,
            from == len ==> k == layers(chars@),
            shade == seen(chars@, i as int, k),
        decreases len - from,
    {
        let end = layer_end(len, from, Ghost(k));
        if (shade == ' ' || shade == '2') && i < end - from {
            shade = chars[from + i];
        }
        from = end;
        proof {
            k = k + 1;
        }
    }
    shade
}

/// The picture that the layers in `input` show, with the first layer on
/// top: six lines of 25 glyphs, a blank for black, an `X` for white.
pub fn q2(input: String, _args: &[String]) -> (r: Result<String, Failure>)
    ensures
        r matches Ok(text) && text@ == picture(input@),
{
    let chars = chars_of(input.as_str());
    let mut text = String::new();
    let mut p: usize = 0;
    while p < 155
        invariant
            chars@ == input@,
            p <= 155,
            text@.len() == p,
            forall|q: int| 0 <= q < p ==> text@[q] == picture(input@)[q],
        decreases 155 - p,
    {
        if p % 26 == 25 {
            push_char(&mut text, '\n');
        } else {
            let shade = look(&chars, (p / 26) * 25 + p % 26);
            push_char(
                &mut text,
                if shade == '0' {
                    ' '
                } else if shade == '1' {
                    'X'
                } else {
                    '_'
                },
            );
        }
        p = p + 1;
    }
    Ok(text)
}

} // verus!
