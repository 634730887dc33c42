//! Decimal digit strings.
//!
//! Two encodings are used by the pipeline: ordinary (most significant digit
//! first, no leading zeros) decimal for the numbers inside a fingerprint, and
//! a fixed-width least-significant-first form for the length fields of the
//! registry transport format, which a reader can decode without a delimiter.

use vstd::prelude::*;
use vstd::string::StringExecFns;
use vstd::string::StrSliceExecFns;

verus! {

/// The character for one decimal digit value below ten.
pub open spec fn digit_char(d: nat) -> char {
    if d == 0 {
        '0'
    } else if d == 1 {
        '1'
    } else if d == 2 {
        '2'
    } else if d == 3 {
        '3'
    } else if d == 4 {
        '4'
    } else if d == 5 {
        '5'
    } else if d == 6 {
        '6'
    } else if d == 7 {
        '7'
    } else if d == 8 {
        '8'
    } else {
        '9'
    }
}

/// The value of a decimal digit character; ten marks a character that is
/// not a digit.
pub open spec fn digit_val(c: char) -> nat {
    if c == '0' {
        0
    } else if c == '1' {
        1
    } else if c == '2' {
        2
    } else if c == '3' {
        3
    } else if c == '4' {
        4
    } else if c == '5' {
        5
    } else if c == '6' {
        6
    } else if c == '7' {
        7
    } else if c == '8' {
        8
    } else if c == '9' {
        9
    } else {
        10
    }
}

pub open spec fn is_dec_digit(c: char) -> bool {
    digit_val(c) < 10
}

pub open spec fn all_dec_digits(s: Seq<char>) -> bool {
    forall|k: int| 0 <= k < s.len() ==> is_dec_digit(#[trigger] s[k])
}

pub proof fn lemma_digit_char_val(d: nat)
    requires
        d < 10,
    ensures
        digit_val(digit_char(d)) == d,
        is_dec_digit(digit_char(d)),
{
}

/// Ordinary decimal notation: most significant digit first, no leading zeros
/// (zero itself is the single digit `'0'`).
pub open spec fn dec_chars(n: nat) -> Seq<char>
    decreases n,
{
    if n < 10 {
        seq![digit_char(n)]
    } else {
        dec_chars(n / 10).push(digit_char(n % 10))
    }
}

/// The number a digit string denotes, read most significant digit first.
pub open spec fn dec_value(s: Seq<char>) -> nat
    decreases s.len(),
{
    if s.len() == 0 {
        0
    } else {
        dec_value(s.drop_last()) * 10 + digit_val(s.last())
    }
}

pub proof fn lemma_dec_chars_value(n: nat)
    ensures
        dec_value(dec_chars(n)) == n,
    decreases n,
{
    if n < 10 {
        let s = seq![digit_char(n)];
        assert(s.drop_last() =~= Seq::<char>::empty());
        assert(dec_value(Seq::<char>::empty()) == 0);
        assert(s.last() == digit_char(n));
        lemma_digit_char_val(n);
    } else {
        lemma_dec_chars_value(n / 10);
        let s = dec_chars(n / 10);
        let t = s.push(digit_char(n % 10));
        assert(t.drop_last() =~= s);
        assert(t.last() == digit_char(n % 10));
        lemma_digit_char_val(n % 10);
        assert(n == 10 * (n / 10) + n % 10) by {
            vstd::arithmetic::div_mod::lemma_fundamental_div_mod(n as int, 10);
        };
    }
}

pub proof fn lemma_dec_chars_digits(n: nat)
    ensures
        dec_chars(n).len() >= 1,
        all_dec_digits(dec_chars(n)),
    decreases n,
{
    if n < 10 {
        lemma_digit_char_val(n);
    } else {
        lemma_dec_chars_digits(n / 10);
        lemma_digit_char_val(n % 10);
        let s = dec_chars(n / 10);
        let t = s.push(digit_char(n % 10));
        assert forall|k: int| 0 <= k < t.len() implies is_dec_digit(#[trigger] t[k]) by {
            if k < s.len() {
                assert(t[k] == s[k]);
            } else {
                assert(t[k] == digit_char(n % 10));
            }
        };
    }
}

/// Equal decimal strings denote equal numbers.
pub proof fn lemma_dec_chars_injective(a: nat, b: nat)
    requires
        dec_chars(a) == dec_chars(b),
    ensures
        a == b,
{
    lemma_dec_chars_value(a);
    lemma_dec_chars_value(b);
}

/// Ten to the given power.
pub open spec fn pow10(w: nat) -> nat
    decreases w,
{
    if w == 0 {
        1
    } else {
        10 * pow10((w - 1) as nat)
    }
}

pub proof fn lemma_pow10_monotone(v: nat, w: nat)
    requires
        v <= w,
    ensures
        pow10(v) <= pow10(w),
    decreases w,
{
    if v < w {
        lemma_pow10_monotone(v, (w - 1) as nat);
    }
}

/// The width of every length field in the registry transport format; wide
/// enough for any machine-sized length.
pub const LEN_WIDTH: usize = 20;

pub proof fn lemma_pow10_len_width()
    ensures
        pow10(20) == 100000000000000000000nat,
{
    assert(pow10(0) == 1);
    assert(pow10(1) == 10);
    assert(pow10(2) == 100);
    assert(pow10(3) == 1000);
    assert(pow10(4) == 10000);
    assert(pow10(5) == 100000);
    assert(pow10(6) == 1000000);
    assert(pow10(7) == 10000000);
    assert(pow10(8) == 100000000);
    assert(pow10(9) == 1000000000);
    assert(pow10(10) == 10000000000);
    assert(pow10(11) == 100000000000);
    assert(pow10(12) == 1000000000000);
    assert(pow10(13) == 10000000000000);
    assert(pow10(14) == 100000000000000);
    assert(pow10(15) == 1000000000000000);
    assert(pow10(16) == 10000000000000000);
    assert(pow10(17) == 100000000000000000);
    assert(pow10(18) == 1000000000000000000);
    assert(pow10(19) == 10000000000000000000);
    assert(pow10(20) == 100000000000000000000nat);
}

/// Fixed-width decimal, least significant digit first.
pub open spec fn le_digits(n: nat, w: nat) -> Seq<char>
    decreases w,
{
    if w == 0 {
        Seq::empty()
    } else {
        seq![digit_char(n % 10)] + le_digits(n / 10, (w - 1) as nat)
    }
}

/// The number a digit string denotes, read least significant digit first.
pub open spec fn le_value(s: Seq<char>) -> nat
    decreases s.len(),
{
    if s.len() == 0 {
        0
    } else {
        digit_val(s[0]) + 10 * le_value(s.drop_first())
    }
}

pub proof fn lemma_le_digits_len(n: nat, w: nat)
    ensures
        le_digits(n, w).len() == w,
    decreases w,
{
    if w > 0 {
        lemma_le_digits_len(n / 10, (w - 1) as nat);
    }
}

pub proof fn lemma_le_digits_digits(n: nat, w: nat)
    ensures
        all_dec_digits(le_digits(n, w)),
    decreases w,
{
    if w > 0 {
        lemma_le_digits_digits(n / 10, (w - 1) as nat);
        lemma_digit_char_val(n % 10);
        let rest = le_digits(n / 10, (w - 1) as nat);
        let t = seq![digit_char(n % 10)] + rest;
        assert forall|k: int| 0 <= k < t.len() implies is_dec_digit(#[trigger] t[k]) by {
            if k == 0 {
                assert(t[k] == digit_char(n % 10));
            } else {
                assert(t[k] == rest[k - 1]);
            }
        };
    }
}

pub proof fn lemma_le_digits_value(n: nat, w: nat)
    requires
        n < pow10(w),
    ensures
        le_value(le_digits(n, w)) == n,
    decreases w,
{
    if w == 0 {
        assert(n == 0);
    } else {
        assert(n == 10 * (n / 10) + n % 10) by {
            vstd::arithmetic::div_mod::lemma_fundamental_div_mod(n as int, 10);
        };
        assert(n / 10 < pow10((w - 1) as nat));
        lemma_le_digits_value(n / 10, (w - 1) as nat);
        let rest = le_digits(n / 10, (w - 1) as nat);
        let t = seq![digit_char(n % 10)] + rest;
        assert(t[0] == digit_char(n % 10));
        assert(t.drop_first() =~= rest);
        lemma_digit_char_val(n % 10);
    }
}

/// A digit string of a given width denotes a number below ten to that width.
pub proof fn lemma_le_value_bound(s: Seq<char>)
    requires
        all_dec_digits(s),
    ensures
        le_value(s) < pow10(s.len()),
    decreases s.len(),
{
    if s.len() > 0 {
        assert(is_dec_digit(s[0]));
        let rest = s.drop_first();
        assert(all_dec_digits(rest)) by {
            assert forall|k: int| 0 <= k < rest.len() implies is_dec_digit(#[trigger] rest[k]) by {
                assert(rest[k] == s[k + 1]);
            };
        };
        lemma_le_value_bound(rest);
    }
}

/// The one-character string for a decimal digit value.
fn digit_str(d: u64) -> (r: &'static str)
    requires
        d < 10,
    ensures
        r@ == seq![digit_char(d as nat)],
{
    proof {
        reveal_strlit("0");
        reveal_strlit("1");
        reveal_strlit("2");
        reveal_strlit("3");
        reveal_strlit("4");
        reveal_strlit("5");
        reveal_strlit("6");
        reveal_strlit("7");
        reveal_strlit("8");
        reveal_strlit("9");
    }
    let r: &'static str = if d == 0 {
        "0"
    } else if d == 1 {
        "1"
    } else if d == 2 {
        "2"
    } else if d == 3 {
        "3"
    } else if d == 4 {
        "4"
    } else if d == 5 {
        "5"
    } else if d == 6 {
        "6"
    } else if d == 7 {
        "7"
    } else if d == 8 {
        "8"
    } else {
        "9"
    };
    proof {
        assert(r@ =~= seq![digit_char(d as nat)]);
    }
    r
}

/// The value of a decimal digit character, or nothing for any other character.
fn char_digit(c: char) -> (r: Option<u64>)
    ensures
        match r {
            Some(d) => d < 10 && d as nat == digit_val(c),
            None => !is_dec_digit(c),
        },
{
    match c {
        '0' => Some(0),
        '1' => Some(1),
        '2' => Some(2),
        '3' => Some(3),
        '4' => Some(4),
        '5' => Some(5),
        '6' => Some(6),
        '7' => Some(7),
        '8' => Some(8),
        '9' => Some(9),
        _ => None,
    }
}

/// Appends a number in ordinary decimal notation.
pub fn push_dec_u64(out: &mut String, n: u64)
    ensures
        final(out)@ == old(out)@ + dec_chars(n as nat),
    decreases n,
{
    if n < 10 {
        out.append(digit_str(n));
        proof {
            assert(out@ =~= old(out)@ + dec_chars(n as nat));
        }
    } else {
        push_dec_u64(out, n / 10);
        out.append(digit_str(n % 10));
        proof {
            assert(dec_chars(n as nat) == dec_chars(n as nat / 10).push(digit_char(n as nat % 10)));
            assert(n as nat / 10 == (n / 10) as nat);
            assert(out@ =~= old(out)@ + dec_chars(n as nat));
        }
    }
}

/// Appends a number in fixed-width least-significant-first decimal.
pub fn push_le_digits(out: &mut String, n: u64, w: usize)
    ensures
        final(out)@ == old(out)@ + le_digits(n as nat, w as nat),
    decreases w,
{
    if w == 0 {
        proof {
            assert(out@ =~= old(out)@ + le_digits(n as nat, 0));
        }
    } else {
        out.append(digit_str(n % 10));
        push_le_digits(out, n / 10, w - 1);
        proof {
            assert(out@ =~= old(out)@ + le_digits(n as nat, w as nat));
        }
    }
}

/// Reads a fixed-width least-significant-first digit string starting at a
/// character position, or nothing if any of those characters is no digit.
pub fn read_le_value(s: &str, i: usize, w: usize) -> (r: Option<u128>)
    requires
        i + w <= s@.len(),
        s@.len() <= usize::MAX,
        w <= 20,
    ensures
        match r {
            Some(v) => all_dec_digits(s@.subrange(i as int, i + w))
                && v as nat == le_value(s@.subrange(i as int, i + w)),
            None => !all_dec_digits(s@.subrange(i as int, i + w)),
        },
    decreases w,
{
    let ghost full = s@.subrange(i as int, i + w);
    if w == 0 {
        proof {
            assert(full =~= Seq::<char>::empty());
        }
        Some(0)
    } else {
        let c = s.get_char(i);
        proof {
            assert(full[0] == c);
        }
        match char_digit(c) {
            None => {
                proof {
                    assert(!is_dec_digit(full[0]));
                }
                None
            },
            Some(d) => {
                let ghost rest = s@.subrange(i + 1, i + w);
                proof {
                    assert(full.drop_first() =~= rest);
                }
                match read_le_value(s, i + 1, w - 1) {
                    None => {
                        proof {
                            let k = choose|k: int| 0 <= k < rest.len() && !is_dec_digit(rest[k]);
                            assert(full[k + 1] == rest[k]);
                        }
                        None
                    },
                    Some(v) => {
                        proof {
                            lemma_le_value_bound(rest);
                            lemma_pow10_monotone(rest.len(), 19);
                            lemma_pow10_len_width();
                            assert(pow10(19) * 10 == pow10(20));
                            assert(all_dec_digits(full)) by {
                                assert forall|k: int| 0 <= k < full.len() implies is_dec_digit(
                                    #[trigger] full[k],
                                ) by {
                                    if k == 0 {
                                    } else {
                                        assert(full[k] == rest[k - 1]);
                                    }
                                };
                            };
                        }
                        Some(d as u128 + 10 * v)
                    },
                }
            },
        }
    }
}

} // verus!
