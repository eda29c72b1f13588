//! Decimal numbers and padding, as text.

use vstd::prelude::*;
use vstd::string::StringExecFns;

verus! {

/// The numeral of a digit.
pub open spec fn digit(d: int) -> Seq<char> {
    if d == 0 {
        "0"@
    } else if d == 1 {
        "1"@
    } else if d == 2 {
        "2"@
    } else if d == 3 {
        "3"@
    } else if d == 4 {
        "4"@
    } else if d == 5 {
        "5"@
    } else if d == 6 {
        "6"@
    } else if d == 7 {
        "7"@
    } else if d == 8 {
        "8"@
    } else {
        "9"@
    }
}

/// The decimal numeral of a natural number, without leading zeros.
pub open spec fn digits(n: nat) -> Seq<char>
    decreases n,
{
    if n < 10 {
        digit(n as int)
    } else {
        digits(n / 10) + digit((n % 10) as int)
    }
}

/// The decimal numeral of an integer, with a minus sign where it is negative.
pub open spec fn decimal(v: int) -> Seq<char> {
    if v < 0 {
        "-"@ + digits((-v) as nat)
    } else {
        digits(v as nat)
    }
}

/// `count` copies of `unit` in a row; none where `count` is not positive.
pub open spec fn repeated(unit: Seq<char>, count: int) -> Seq<char>
    decreases count,
{
    if count <= 0 {
        Seq::empty()
    } else {
        repeated(unit, count - 1) + unit
    }
}

/// The text, preceded by as many spaces as it is shorter than `width`.
pub open spec fn right_aligned(text: Seq<char>, width: int) -> Seq<char> {
    repeated(" "@, width - text.len()) + text
}

/// The text, followed by as many spaces as it is shorter than `width`.
pub open spec fn left_aligned(text: Seq<char>, width: int) -> Seq<char> {
    text + repeated(" "@, width - text.len())
}

/// The numeral, preceded by as many zeros as it is shorter than `width`.
pub open spec fn zero_padded(n: nat, width: int) -> Seq<char> {
    repeated("0"@, width - digits(n).len()) + digits(n)
}

/// How many digits the decimal numeral of a natural number has.
pub open spec fn digit_count(n: nat) -> nat
    decreases n,
{
    if n < 10 {
        1
    } else {
        digit_count(n / 10) + 1
    }
}

/// The numeral of a digit is the one character that stands for it.
pub proof fn lemma_digit(d: int)
    requires
        0 <= d <= 9,
    ensures
        digit(d).len() == 1,
        digit(d)[0] == (if d == 0 {
            '0'
        } else if d == 1 {
            '1'
        } else if d == 2 {
            '2'
        } else if d == 3 {
            '3'
        } else if d == 4 {
            '4'
        } else if d == 5 {
            '5'
        } else if d == 6 {
            '6'
        } else if d == 7 {
            '7'
        } else if d == 8 {
            '8'
        } else {
            '9'
        }),
{
    reveal_strlit("0");
    reveal_strlit("1");
    reveal_strlit("2");
    reveal_strlit("3");
    reveal_strlit("4");
    reveal_strlit("5");
    reveal_strlit("6");
    reveal_strlit("7");
    reveal_strlit("8");
    reveal_strlit("9");
}

/// A numeral is as long as its number has digits.
pub proof fn lemma_digits_len(n: nat)
    ensures
        digits(n).len() == digit_count(n),
    decreases n,
{
    if n < 10 {
        lemma_digit(n as int);
    } else {
        lemma_digits_len(n / 10);
        lemma_digit((n % 10) as int);
    }
}

/// The length of a signed numeral.
pub proof fn lemma_decimal_len(v: int)
    ensures
        decimal(v).len() == if v < 0 {
            digit_count((-v) as nat) + 1
        } else {
            digit_count(v as nat)
        },
{
    reveal_strlit("-");
    if v < 0 {
        lemma_digits_len((-v) as nat);
    } else {
        lemma_digits_len(v as nat);
    }
}

/// The numeral of a digit.
fn digit_str(d: u64) -> (s: &'static str)
    requires
        d <= 9,
    ensures
        s@ == digit(d as int),
{
    if d == 0 {
        "0"
    } else if d == 1 {
        "1"
    } else if d == 2 {
        "2"
    } else if d == 3 {
        "3"
    } else if d == 4 {
        "4"
    } else if d == 5 {
        "5"
    } else if d == 6 {
        "6"
    } else if d == 7 {
        "7"
    } else if d == 8 {
        "8"
    } else {
        "9"
    }
}

/// Appends the decimal numeral of `n`.
pub fn push_digits(out: &mut String, n: u64)
    ensures
        final(out)@ == old(out)@ + digits(n as nat),
    decreases n,
{
    if n >= 10 {
        push_digits(out, n / 10);
    }
    out.append(digit_str(n % 10));
    assert(out@ =~= old(out)@ + digits(n as nat));
}

/// Appends the decimal numeral of `v`.
pub fn push_decimal(out: &mut String, v: i64)
    ensures
        final(out)@ == old(out)@ + decimal(v as int),
{
    if v < 0 {
        out.append("-");
        let magnitude: u64 = ((-(v as i128)) as u64);
        push_digits(out, magnitude);
        assert(out@ =~= old(out)@ + decimal(v as int));
    } else {
        push_digits(out, v as u64);
    }
}

/// Ten to the power of `e`.
pub open spec fn pow10(e: nat) -> int
    decreases e,
{
    if e == 0 {
        1
    } else {
        10 * pow10((e - 1) as nat)
    }
}

/// A number below the `k`-th power of ten has at most `k` digits.
proof fn lemma_digit_count_bound(n: nat, k: nat)
    requires
        k >= 1,
        n < pow10(k),
    ensures
        digit_count(n) <= k,
    decreases n,
{
    if n >= 10 {
        assert(pow10(1) == 10) by {
            reveal_with_fuel(pow10, 2);
        }
        assert(k >= 2);
        lemma_digit_count_bound(n / 10, (k - 1) as nat);
    }
}

/// A 64-bit number has at most twenty digits.
proof fn lemma_digit_count_u64(n: u64)
    ensures
        digit_count(n as nat) <= 20,
{
    assert(pow10(20) == 100000000000000000000int) by {
        reveal_with_fuel(pow10, 21);
    }
    lemma_digit_count_bound(n as nat, 20);
}

/// How many digits the decimal numeral of `n` has.
pub fn count_digits(n: u64) -> (count: usize)
    ensures
        count == digit_count(n as nat),
        count == digits(n as nat).len(),
        1 <= count <= 20,
{
    proof {
        lemma_digits_len(n as nat);
        lemma_digit_count_u64(n);
    }
    let mut rest: u64 = n;
    let mut count: usize = 1;
    while rest >= 10
        invariant
            1 <= count,
            count + digit_count(rest as nat) == digit_count(n as nat) + 1,
            digit_count(n as nat) <= 20,
        decreases rest,
    {
        rest = rest / 10;
        count = count + 1;
    }
    count
}

/// How many characters the decimal numeral of `v` has.
pub fn decimal_width(v: i64) -> (width: usize)
    ensures
        width == decimal(v as int).len(),
        1 <= width <= 21,
{
    proof {
        lemma_decimal_len(v as int);
    }
    if v < 0 {
        let magnitude: u64 = ((-(v as i128)) as u64);
        count_digits(magnitude) + 1
    } else {
        count_digits(v as u64)
    }
}

/// Appends `count` copies of `unit`.
pub fn push_repeated(out: &mut String, unit: &str, count: usize)
    ensures
        final(out)@ == old(out)@ + repeated(unit@, count as int),
{
    let mut done: usize = 0;
    assert(out@ =~= old(out)@ + repeated(unit@, 0));
    while done < count
        invariant
            done <= count,
            out@ == old(out)@ + repeated(unit@, done as int),
        decreases count - done,
    {
        out.append(unit);
        done = done + 1;
        assert(out@ =~= old(out)@ + repeated(unit@, done as int));
    }
}

/// Appends the numeral of `v`, preceded by spaces up to `width` characters.
pub fn push_right_aligned(out: &mut String, v: i64, width: usize)
    ensures
        final(out)@ == old(out)@ + right_aligned(decimal(v as int), width as int),
{
    let len: usize = decimal_width(v);
    if len < width {
        push_repeated(out, " ", width - len);
    } else {
        assert(repeated(" "@, width - len) =~= Seq::<char>::empty());
    }
    push_decimal(out, v);
    assert(out@ =~= old(out)@ + right_aligned(decimal(v as int), width as int));
}

/// Appends the numeral of `n`, preceded by spaces up to `width` characters.
pub fn push_right_aligned_count(out: &mut String, n: u64, width: usize)
    ensures
        final(out)@ == old(out)@ + right_aligned(digits(n as nat), width as int),
{
    let len: usize = count_digits(n);
    if len < width {
        push_repeated(out, " ", width - len);
    } else {
        assert(repeated(" "@, width - len) =~= Seq::<char>::empty());
    }
    push_digits(out, n);
    assert(out@ =~= old(out)@ + right_aligned(digits(n as nat), width as int));
}

/// Appends the numeral of `n`, followed by spaces up to `width` characters.
pub fn push_left_aligned(out: &mut String, n: u64, width: usize)
    ensures
        final(out)@ == old(out)@ + left_aligned(digits(n as nat), width as int),
{
    let len: usize = count_digits(n);
    push_digits(out, n);
    if len < width {
        push_repeated(out, " ", width - len);
    } else {
        assert(repeated(" "@, width - len) =~= Seq::<char>::empty());
    }
    assert(out@ =~= old(out)@ + left_aligned(digits(n as nat), width as int));
}

/// Appends the numeral of `n`, preceded by zeros up to `width` characters.
pub fn push_zero_padded(out: &mut String, n: u64, width: usize)
    ensures
        final(out)@ == old(out)@ + zero_padded(n as nat, width as int),
{
    let len: usize = count_digits(n);
    if len < width {
        push_repeated(out, "0", width - len);
    } else {
        assert(repeated("0"@, width - len) =~= Seq::<char>::empty());
    }
    push_digits(out, n);
    assert(out@ =~= old(out)@ + zero_padded(n as nat, width as int));
}

} // verus!
