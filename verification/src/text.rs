use vstd::prelude::*;
use vstd::string::StringExecFns;
use crate::units::FULL_FRAME_FPS;

verus! {

/// The character of a decimal digit.
pub open spec fn digit_char(d: nat) -> char {
    (48 + d) as char
}

/// Decimal notation of a natural number, most significant digit first, with
/// no leading zeros.
pub open spec fn decimal_digits(n: nat) -> Seq<char>
    decreases n,
{
    if n < 10 {
        seq![digit_char(n)]
    } else {
        decimal_digits(n / 10).push(digit_char(n % 10))
    }
}

/// The one-character string of a decimal digit.
fn digit_str(d: u64) -> (r: &'static str)
    requires
        d < 10,
    ensures
        r@ == seq![digit_char(d as nat)],
{
    match d {
        0 => { proof { reveal_strlit("0"); } "0" }
        1 => { proof { reveal_strlit("1"); } "1" }
        2 => { proof { reveal_strlit("2"); } "2" }
        3 => { proof { reveal_strlit("3"); } "3" }
        4 => { proof { reveal_strlit("4"); } "4" }
        5 => { proof { reveal_strlit("5"); } "5" }
        6 => { proof { reveal_strlit("6"); } "6" }
        7 => { proof { reveal_strlit("7"); } "7" }
        8 => { proof { reveal_strlit("8"); } "8" }
        _ => { proof { reveal_strlit("9"); } "9" }
    }
}

/// Decimal notation of `n`.
pub fn decimal_string(n: u64) -> (r: String)
    ensures
        r@ == decimal_digits(n as nat),
    decreases n,
{
    if n < 10 {
        let mut s = String::new();
        s.append(digit_str(n));
        s
    } else {
        let mut s = decimal_string(n / 10);
        s.append(digit_str(n % 10));
        s
    }
}

/// A duration given in full frames, in tenths of a second.
pub open spec fn frames_to_tenths(frames: nat) -> nat {
    frames * 10 / (FULL_FRAME_FPS as nat)
}

/// A duration in seconds with one decimal: whole seconds, a point, tenths.
pub open spec fn time_text(frames: nat) -> Seq<char> {
    let tenths = frames_to_tenths(frames);
    decimal_digits(tenths / 10) + seq!['.'] + decimal_digits(tenths % 10)
}

/// Formats a duration given in full frames as seconds with one decimal,
/// such as `12.4`.
pub fn time_string(frames: u64) -> (r: String)
    requires
        frames * 10 <= u64::MAX,
    ensures
        r@ == time_text(frames as nat),
{
    let tenths = frames * 10 / (FULL_FRAME_FPS as u64);
    let mut s = decimal_string(tenths / 10);
    proof { reveal_strlit("."); }
    s.append(".");
    let t = decimal_string(tenths % 10);
    s.append(t.as_str());
    s
}

/// Ten to the power `k`.
pub open spec fn pow10(k: nat) -> nat
    decreases k,
{
    if k == 0 { 1 } else { 10 * pow10((k - 1) as nat) }
}

/// A number below `10^k` has at most `k` digits.
pub proof fn lemma_decimal_digits_len_bound(n: nat, k: nat)
    requires
        k >= 1,
        n < pow10(k),
    ensures
        decimal_digits(n).len() <= k,
    decreases k,
{
    lemma_decimal_digits_len(n);
    if n >= 10 {
        assert(k >= 2) by {
            if k == 1 {
                assert(pow10(1) == 10) by { reveal_with_fuel(pow10, 2); }
            }
        }
        lemma_decimal_digits_len_bound(n / 10, (k - 1) as nat);
    }
}

/// A duration of a `u64` number of frames (in range for tenths) is written
/// with at most 21 characters.
pub proof fn lemma_time_text_len(frames: nat)
    requires
        frames * 10 <= u64::MAX,
    ensures
        time_text(frames).len() <= 21,
        time_text(frames).len() >= 3,
{
    let tenths = frames_to_tenths(frames);
    assert(pow10(19) == 10_000_000_000_000_000_000) by { reveal_with_fuel(pow10, 20); }
    lemma_decimal_digits_len_bound(tenths / 10, 19);
    lemma_decimal_digits_len(tenths / 10);
    lemma_decimal_digits_len(tenths % 10);
}

/// Number of characters of `decimal_digits(n)`.
pub proof fn lemma_decimal_digits_len(n: nat)
    ensures
        decimal_digits(n).len() >= 1,
        n < 10 ==> decimal_digits(n).len() == 1,
        n >= 10 ==> decimal_digits(n).len() == decimal_digits(n / 10).len() + 1,
    decreases n,
{
    if n >= 10 {
        lemma_decimal_digits_len(n / 10);
    }
}

} // verus!
