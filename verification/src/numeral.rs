//! Numbers as text: decimal, zero-padded octal and zero-padded hexadecimal.

use crate::text;
use vstd::prelude::*;

verus! {

/// The digit for a value below sixteen.
pub open spec fn digit(d: int) -> char {
    if d == 0 {
        '0'
    } else if d == 1 {
        '1'
    } else if d == 2 {
        '2'
    } else if d == 3 {
        '3'
    } else if d == 4 {
        '4'
    } else if d == 5 {
        '5'
    } else if d == 6 {
        '6'
    } else if d == 7 {
        '7'
    } else if d == 8 {
        '8'
    } else if d == 9 {
        '9'
    } else if d == 10 {
        'a'
    } else if d == 11 {
        'b'
    } else if d == 12 {
        'c'
    } else if d == 13 {
        'd'
    } else if d == 14 {
        'e'
    } else {
        'f'
    }
}

/// The numeral of `n` in `base`, without leading zeros.
pub open spec fn numeral(n: nat, base: nat) -> Seq<char>
    decreases n,
{
    if base < 2 {
        Seq::empty()
    } else if n < base {
        seq![digit(n as int)]
    } else {
        proof {
            assert(n / base < n) by (nonlinear_arith)
                requires
                    n >= base,
                    base >= 2,
            ;
        }
        numeral(n / base, base).push(digit((n % base) as int))
    }
}

/// `s` with as many zeros before it as bring it to `width`.
pub open spec fn zero_padded(s: Seq<char>, width: nat) -> Seq<char> {
    if s.len() >= width {
        s
    } else {
        Seq::new((width - s.len()) as nat, |i: int| '0') + s
    }
}

/// `n` in decimal.
pub open spec fn decimal(n: nat) -> Seq<char> {
    numeral(n, 10)
}

/// `n` in octal, with at least four digits.
pub open spec fn octal4(n: nat) -> Seq<char> {
    zero_padded(numeral(n, 8), 4)
}

/// `n` in hexadecimal, with at least sixteen digits.
pub open spec fn hex16(n: nat) -> Seq<char> {
    zero_padded(numeral(n, 16), 16)
}

fn digit_of(d: u64) -> (c: char)
    requires
        d < 16,
    ensures
        c == digit(d as int),
{
    match d {
        0 => '0',
        1 => '1',
        2 => '2',
        3 => '3',
        4 => '4',
        5 => '5',
        6 => '6',
        7 => '7',
        8 => '8',
        9 => '9',
        10 => 'a',
        11 => 'b',
        12 => 'c',
        13 => 'd',
        14 => 'e',
        _ => 'f',
    }
}

fn numeral_of(n: u64, base: u64) -> (r: Vec<char>)
    requires
        2 <= base <= 16,
    ensures
        r@ == numeral(n as nat, base as nat),
    decreases n,
{
    if n < base {
        let mut r: Vec<char> = Vec::new();
        r.push(digit_of(n));
        assert(r@ =~= seq![digit(n as int)]);
        r
    } else {
        assert(n / base < n) by (nonlinear_arith)
            requires
                n >= base,
                base >= 2,
        ;
        let mut r = numeral_of(n / base, base);
        r.push(digit_of(n % base));
        r
    }
}

fn zero_pad(s: Vec<char>, width: usize) -> (r: Vec<char>)
    ensures
        r@ == zero_padded(s@, width as nat),
{
    if s.len() >= width {
        return s;
    }
    let missing: usize = width - s.len();
    let mut r: Vec<char> = Vec::new();
    let mut i: usize = 0;
    while i < missing
        invariant
            i <= missing,
            r@ == Seq::new(i as nat, |k: int| '0'),
        decreases missing - i,
    {
        r.push('0');
        i = i + 1;
        assert(r@ =~= Seq::new(i as nat, |k: int| '0'));
    }
    let mut s = s;
    r.append(&mut s);
    r
}

/// `n` in decimal.
pub fn to_decimal(n: u64) -> (r: String)
    ensures
        r@ == decimal(n as nat),
{
    text::string_of(&numeral_of(n, 10))
}

/// `n` in octal, with at least four digits.
pub fn to_octal4(n: u64) -> (r: String)
    ensures
        r@ == octal4(n as nat),
{
    text::string_of(&zero_pad(numeral_of(n, 8), 4))
}

/// `n` in hexadecimal, with sixteen digits.
pub fn to_hex16(n: u64) -> (r: String)
    ensures
        r@ == hex16(n as nat),
        r@.len() == 16,
{
    proof {
        reveal_with_fuel(pow16, 17);
        lemma_hex_len(n as nat, 16);
    }
    text::string_of(&zero_pad(numeral_of(n, 16), 16))
}

// ---------------------------------------------------------------------------------------------
// Numerals stand for one number each
// ---------------------------------------------------------------------------------------------

/// The value of a digit.
spec fn digit_value(c: char) -> nat {
    if c == '0' {
        0
    } else if c == '1' {
        1
    } else if c == '2' {
        2
    } else if c == '3' {
        3
    } else if c == '4' {
        4
    } else if c == '5' {
        5
    } else if c == '6' {
        6
    } else if c == '7' {
        7
    } else if c == '8' {
        8
    } else if c == '9' {
        9
    } else if c == 'a' {
        10
    } else if c == 'b' {
        11
    } else if c == 'c' {
        12
    } else if c == 'd' {
        13
    } else if c == 'e' {
        14
    } else {
        15
    }
}

/// The number that a row of digits stands for.
spec fn value(s: Seq<char>, base: nat) -> nat
    decreases s.len(),
{
    if s.len() == 0 {
        0
    } else {
        value(s.drop_last(), base) * base + digit_value(s.last())
    }
}

proof fn lemma_value_of_numeral(n: nat, base: nat)
    requires
        2 <= base <= 16,
    ensures
        value(numeral(n, base), base) == n,
    decreases n,
{
    let s = numeral(n, base);
    if n < base {
        assert(s.drop_last() =~= Seq::empty());
        assert(value(s.drop_last(), base) == 0);
        assert(0 * base == 0) by (nonlinear_arith);
    } else {
        assert(n / base < n) by (nonlinear_arith)
            requires
                n >= base,
                base >= 2,
        ;
        lemma_value_of_numeral(n / base, base);
        assert(s.drop_last() =~= numeral(n / base, base));
        let d = n % base;
        assert(0 <= d < base);
        assert((n / base) * base + d == n) by (nonlinear_arith)
            requires
                base >= 2,
                d == n % base,
        ;
    }
}

proof fn lemma_value_of_padded(s: Seq<char>, k: nat, base: nat)
    ensures
        value(Seq::new(k, |i: int| '0') + s, base) == value(s, base),
    decreases k + s.len(),
{
    let zeros = Seq::new(k, |i: int| '0');
    let p = zeros + s;
    if s.len() > 0 {
        assert(p.drop_last() =~= zeros + s.drop_last());
        lemma_value_of_padded(s.drop_last(), k, base);
    } else if k > 0 {
        let fewer = Seq::new((k - 1) as nat, |i: int| '0');
        assert(p.drop_last() =~= fewer + s);
        lemma_value_of_padded(s, (k - 1) as nat, base);
        assert(0 * base == 0) by (nonlinear_arith);
    } else {
        assert(p =~= s);
    }
}

/// Sixteen to the power of `k`.
spec fn pow16(k: nat) -> nat
    decreases k,
{
    if k == 0 {
        1
    } else {
        16 * pow16((k - 1) as nat)
    }
}

proof fn lemma_hex_len(n: nat, k: nat)
    requires
        k >= 1,
        n < pow16(k),
    ensures
        1 <= numeral(n, 16).len() <= k,
    decreases k,
{
    reveal_with_fuel(pow16, 2);
    if n >= 16 {
        lemma_hex_len(n / 16, (k - 1) as nat);
    }
}

/// Two numbers with the same decimal numeral are the same number.
pub proof fn decimal_is_injective(a: nat, b: nat)
    requires
        decimal(a) == decimal(b),
    ensures
        a == b,
{
    lemma_value_of_numeral(a, 10);
    lemma_value_of_numeral(b, 10);
}

/// Two numbers with the same padded hexadecimal numeral are the same number.
pub proof fn hex16_is_injective(a: nat, b: nat)
    requires
        hex16(a) == hex16(b),
    ensures
        a == b,
{
    lemma_value_of_hex16(a);
    lemma_value_of_hex16(b);
}

proof fn lemma_value_of_hex16(n: nat)
    ensures
        value(hex16(n), 16) == n,
{
    let s = numeral(n, 16);
    lemma_value_of_numeral(n, 16);
    if s.len() < 16 {
        lemma_value_of_padded(s, (16 - s.len()) as nat, 16);
    }
}

/// A numeral is not empty and holds nothing but digits.
pub proof fn numeral_is_digits(n: nat, base: nat)
    requires
        2 <= base <= 16,
    ensures
        numeral(n, base).len() > 0,
        forall|i: int|
            0 <= i < numeral(n, base).len() ==> '0' <= #[trigger] numeral(n, base)[i] <= '9' || 'a'
                <= numeral(n, base)[i] <= 'f',
    decreases n,
{
    if n >= base {
        assert(n / base < n) by (nonlinear_arith)
            requires
                n >= base,
                base >= 2,
        ;
        numeral_is_digits(n / base, base);
    }
}

/// What a row of digits stands for: the value of the last digit, and `base` times that of the others.
/// A letter stands for ten and more.
pub proof fn numeral_stands_for_its_number(n: nat, base: nat) -> (values: Seq<nat>)
    requires
        2 <= base <= 16,
    ensures
        values.len() == numeral(n, base).len() > 0,
        values.last() == n,
        forall|i: int|
            0 <= i < values.len() ==> {
                let c = #[trigger] numeral(n, base)[i];
                let d = if '0' <= c <= '9' {
                    c as int - '0' as int
                } else {
                    c as int - 'a' as int + 10
                };
                &&& '0' <= c <= '9' || 'a' <= c <= 'f'
                &&& 0 <= d < base
                &&& values[i] == (if i == 0 {
                    d
                } else {
                    values[i - 1] * base + d
                })
            },
        numeral(n, base).len() > 1 ==> numeral(n, base)[0] != '0',
    decreases n,
{
    let s = numeral(n, base);
    if n < base {
        seq![n]
    } else {
        assert(n / base < n && n / base > 0) by (nonlinear_arith)
            requires
                n >= base,
                base >= 2,
        ;
        let before = numeral_stands_for_its_number(n / base, base);
        let t = numeral(n / base, base);
        assert((n / base) * base + n % base == n) by (nonlinear_arith)
            requires
                base >= 2,
        ;
        let values = before.push(n);
        assert forall|i: int| 0 <= i < values.len() implies {
            let c = #[trigger] numeral(n, base)[i];
            let d = if '0' <= c <= '9' {
                c as int - '0' as int
            } else {
                c as int - 'a' as int + 10
            };
            &&& '0' <= c <= '9' || 'a' <= c <= 'f'
            &&& 0 <= d < base
            &&& values[i] == (if i == 0 {
                d
            } else {
                values[i - 1] * base + d
            })
        } by {
            if i < t.len() {
                assert(s[i] == t[i]);
            } else {
                assert(s[i] == digit((n % base) as int));
                assert(values[i - 1] == n / base);
            }
        }
        if t.len() == 1 {
            assert(before[0] == n / base);
            assert(t[0] != '0');
        }
        values
    }
}

/// Decimal numerals have base ten. Octal and hexadecimal ones have bases eight and sixteen, and
/// zeros before them where they are short of four and of sixteen digits.
pub proof fn numerals_have_their_bases(n: nat, i: int)
    ensures
        decimal(n) == numeral(n, 10),
        numeral(n, 8).len() >= 4 ==> octal4(n) == numeral(n, 8),
        numeral(n, 8).len() < 4 ==> octal4(n).len() == 4 && octal4(n).skip(
            4 - numeral(n, 8).len(),
        ) == numeral(n, 8),
        0 <= i < 4 - numeral(n, 8).len() ==> octal4(n)[i] == '0',
        numeral(n, 16).len() >= 16 ==> hex16(n) == numeral(n, 16),
        numeral(n, 16).len() < 16 ==> hex16(n).len() == 16 && hex16(n).skip(
            16 - numeral(n, 16).len(),
        ) == numeral(n, 16),
        0 <= i < 16 - numeral(n, 16).len() ==> hex16(n)[i] == '0',
{
    if numeral(n, 8).len() < 4 {
        assert(octal4(n).skip(4 - numeral(n, 8).len()) =~= numeral(n, 8));
    }
    if numeral(n, 16).len() < 16 {
        assert(hex16(n).skip(16 - numeral(n, 16).len()) =~= numeral(n, 16));
    }
}

} // verus!
