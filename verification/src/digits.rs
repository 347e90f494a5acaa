//! Decimal digit rendering: single digits, fixed-width zero-padded fields,
//! and full decimal notation of an unsigned integer.

use vstd::prelude::*;

verus! {

/// The character for one decimal digit.
pub open spec fn digit_char(d: nat) -> char
    recommends
        d < 10,
{
    if d == 0 {
        '0'
    } else if d == 1 {
        '1'
    } else if d == 2 {
        '2'
    } else if d == 3 {
        '3'
    } else if d == 4 {
        '4'
    } else if d == 5 {
        '5'
    } else if d == 6 {
        '6'
    } else if d == 7 {
        '7'
    } else if d == 8 {
        '8'
    } else {
        '9'
    }
}

/// Whether a character is a decimal digit.
pub open spec fn is_digit(c: char) -> bool {
    '0' <= c && c <= '9'
}

/// The numeric value of a digit character.
pub open spec fn digit_val(c: char) -> nat
    recommends
        is_digit(c),
{
    (c as nat - '0' as nat) as nat
}

/// A number below 100 as exactly two digits, zero-padded.
pub open spec fn two_digit(n: nat) -> Seq<char>
    recommends
        n < 100,
{
    seq![digit_char(n / 10), digit_char(n % 10)]
}

/// A number below 1000 as exactly three digits, zero-padded.
pub open spec fn three_digit(n: nat) -> Seq<char>
    recommends
        n < 1000,
{
    seq![digit_char(n / 100), digit_char(n / 10 % 10), digit_char(n % 10)]
}

/// A number below 10000 as exactly four digits, zero-padded.
pub open spec fn four_digit(n: nat) -> Seq<char>
    recommends
        n < 10000,
{
    seq![digit_char(n / 1000), digit_char(n / 100 % 10), digit_char(n / 10 % 10), digit_char(
        n % 10,
    )]
}

/// Ordinary decimal notation of a number: most significant digit first,
/// no leading zeros (a single `'0'` for zero).
pub open spec fn dec_chars(n: nat) -> Seq<char>
    decreases n,
{
    if n < 10 {
        seq![digit_char(n)]
    } else {
        dec_chars(n / 10).push(digit_char(n % 10))
    }
}

pub proof fn lemma_digit_char_val(d: nat)
    requires
        d < 10,
    ensures
        is_digit(digit_char(d)),
        digit_val(digit_char(d)) == d,
{
}

pub proof fn lemma_dec_chars_digits(n: nat)
    ensures
        dec_chars(n).len() >= 1,
        forall|i: int| 0 <= i < dec_chars(n).len() ==> is_digit(#[trigger] dec_chars(n)[i]),
    decreases n,
{
    if n >= 10 {
        lemma_dec_chars_digits(n / 10);
    }
}

/// The one-character string for a decimal digit.
pub fn digit_str(d: u64) -> (r: &'static str)
    requires
        d < 10,
    ensures
        r@ =~= seq![digit_char(d as nat)],
{
    proof {
        reveal_strlit("0");
        reveal_strlit("1");
        reveal_strlit("2");
        reveal_strlit("3");
        reveal_strlit("4");
        reveal_strlit("5");
        reveal_strlit("6");
        reveal_strlit("7");
        reveal_strlit("8");
        reveal_strlit("9");
    }
    match d {
        0 => "0",
        1 => "1",
        2 => "2",
        3 => "3",
        4 => "4",
        5 => "5",
        6 => "6",
        7 => "7",
        8 => "8",
        _ => "9",
    }
}

/// Append a number below 100 as two zero-padded digits.
pub fn append_two_digit(out: &mut String, n: u64)
    requires
        n < 100,
    ensures
        final(out)@ == old(out)@ + two_digit(n as nat),
{
    out.append(digit_str(n / 10));
    out.append(digit_str(n % 10));
    proof {
        assert(out@ =~= old(out)@ + two_digit(n as nat));
    }
}

/// Append a number below 1000 as three zero-padded digits.
pub fn append_three_digit(out: &mut String, n: u64)
    requires
        n < 1000,
    ensures
        final(out)@ == old(out)@ + three_digit(n as nat),
{
    out.append(digit_str(n / 100));
    out.append(digit_str(n / 10 % 10));
    out.append(digit_str(n % 10));
    proof {
        assert(out@ =~= old(out)@ + three_digit(n as nat));
    }
}

/// Append a number below 10000 as four zero-padded digits.
pub fn append_four_digit(out: &mut String, n: u64)
    requires
        n < 10000,
    ensures
        final(out)@ == old(out)@ + four_digit(n as nat),
{
    out.append(digit_str(n / 1000));
    out.append(digit_str(n / 100 % 10));
    out.append(digit_str(n / 10 % 10));
    out.append(digit_str(n % 10));
    proof {
        assert(out@ =~= old(out)@ + four_digit(n as nat));
    }
}

/// The digit values of a sequence, as characters.
pub open spec fn chars_of_digits(ds: Seq<u64>) -> Seq<char> {
    ds.map_values(|d: u64| digit_char(d as nat))
}

/// Append a number in ordinary decimal notation.
pub fn append_u64(out: &mut String, n: u64)
    ensures
        final(out)@ == old(out)@ + dec_chars(n as nat),
{
    let mut ds: Vec<u64> = Vec::new();
    let mut m: u64 = n;
    while m >= 10
        invariant
            dec_chars(n as nat) =~= dec_chars(m as nat) + chars_of_digits(ds@).reverse(),
            forall|k: int| 0 <= k < ds@.len() ==> #[trigger] ds@[k] < 10,
            out@ == old(out)@,
        decreases m,
    {
        let d: u64 = m % 10;
        proof {
            let prev = ds@;
            assert(chars_of_digits(prev.push(d)).reverse() =~= seq![digit_char(d as nat)]
                + chars_of_digits(prev).reverse());
            assert(dec_chars(m as nat) =~= dec_chars((m / 10) as nat) + seq![
                digit_char((m % 10) as nat),
            ]);
        }
        ds.push(d);
        m = m / 10;
        proof {
            assert(dec_chars(n as nat) =~= dec_chars(m as nat) + chars_of_digits(ds@).reverse());
        }
    }
    out.append(digit_str(m));
    let ghost rendered = dec_chars(n as nat);
    proof {
        assert(rendered =~= seq![digit_char(m as nat)] + chars_of_digits(ds@).reverse());
    }
    let mut i: usize = ds.len();
    while i > 0
        invariant
            i <= ds.len(),
            rendered == seq![digit_char(m as nat)] + chars_of_digits(ds@).reverse(),
            rendered.len() == 1 + ds.len(),
            m < 10,
            forall|k: int| 0 <= k < ds@.len() ==> #[trigger] ds@[k] < 10,
            out@ =~= old(out)@ + rendered.subrange(0, rendered.len() - i),
        decreases i,
    {
        i = i - 1;
        let d: u64 = ds[i];
        proof {
            let pos = rendered.len() - (i + 1) as int;
            assert(rendered[pos] == chars_of_digits(ds@).reverse()[pos - 1]);
            assert(chars_of_digits(ds@).reverse()[pos - 1] == chars_of_digits(ds@)[i as int]);
            assert(rendered[pos] == digit_char(d as nat));
        }
        out.append(digit_str(d));
        proof {
            assert(out@ =~= old(out)@ + rendered.subrange(0, rendered.len() - i));
        }
    }
    proof {
        assert(rendered.subrange(0, rendered.len() as int) =~= rendered);
    }
}

} // verus!
