//! Numbers as text: writing them in base ten and sixteen, and reading them back.

use vstd::prelude::*;

verus! {

/// The character for the digit `d`, which is below sixteen.
pub open spec fn digit_char(d: nat) -> char {
    if d < 10 {
        (48 + d) as char
    } else {
        (87 + d) as char
    }
}

/// What a digit is worth; nothing, for a character that is no digit.
pub open spec fn digit_value(c: char) -> nat {
    if '0' <= c <= '9' {
        (c as int - 48) as nat
    } else if 'a' <= c <= 'f' {
        (c as int - 87) as nat
    } else {
        0
    }
}

/// `n` in base `base`, without leading zeros.
pub open spec fn numeral(n: nat, base: nat) -> Seq<char>
    decreases n,
{
    if base < 2 || n < base {
        seq![digit_char(n)]
    } else {
        proof {
            vstd::arithmetic::div_mod::lemma_div_decreases(n as int, base as int);
        }
        numeral(n / base, base).push(digit_char(n % base))
    }
}

/// `n` in base ten.
pub open spec fn dec(n: nat) -> Seq<char> {
    numeral(n, 10)
}

/// `n` in base sixteen, in small letters.
pub open spec fn hex(n: nat) -> Seq<char> {
    numeral(n, 16)
}

/// `i` in base ten, with a minus sign where it is negative.
pub open spec fn decimal(i: int) -> Seq<char> {
    if i < 0 {
        seq!['-'] + dec((-i) as nat)
    } else {
        dec(i as nat)
    }
}

/// The number that `s` stands for in base `base`.
pub open spec fn value(s: Seq<char>, base: nat) -> nat
    decreases s.len(),
{
    if s.len() == 0 {
        0
    } else {
        value(s.drop_last(), base) * base + digit_value(s.last())
    }
}

/// Whether `s` is one or more decimal digits and nothing else.
pub open spec fn all_digits(s: Seq<char>) -> bool {
    &&& s.len() > 0
    &&& forall|i: int| 0 <= i < s.len() ==> '0' <= #[trigger] s[i] <= '9'
}

/// The unsigned number that `s` writes in base ten: digits, with or without a
/// plus sign in front, that stand for a value of 64 bits.
pub open spec fn parsed(s: Seq<char>) -> Option<u64> {
    let digits = if s.len() > 0 && s[0] == '+' {
        s.skip(1)
    } else {
        s
    };
    if all_digits(digits) && value(digits, 10) <= u64::MAX {
        Some(value(digits, 10) as u64)
    } else {
        None
    }
}

/// A numeral stands for the number it was made from, and is made of digits.
pub proof fn lemma_numeral(n: nat, base: nat)
    requires
        base == 10 || base == 16,
    ensures
        numeral(n, base).len() > 0,
        value(numeral(n, base), base) == n,
        forall|i: int|
            0 <= i < numeral(n, base).len() ==> {
                let c = #[trigger] numeral(n, base)[i];
                ('0' <= c <= '9') || (base == 16 && 'a' <= c <= 'f')
            },
    decreases n,
{
    let s = numeral(n, base);
    if n < base {
        assert(s =~= seq![digit_char(n)]);
        assert(s.drop_last() =~= Seq::empty());
        assert(value(s.drop_last(), base) == 0);
        assert(digit_value(digit_char(n)) == n);
    } else {
        let head = numeral(n / base, base);
        vstd::arithmetic::div_mod::lemma_div_decreases(n as int, base as int);
        lemma_numeral(n / base, base);
        assert(s.drop_last() =~= head);
        assert(digit_value(digit_char(n % base)) == n % base);
        vstd::arithmetic::div_mod::lemma_fundamental_div_mod(n as int, base as int);
        assert((n / base) * base == base * (n / base)) by (nonlinear_arith);
    }
}

/// Different numbers have different numerals.
pub proof fn lemma_numeral_injective(m: nat, n: nat, base: nat)
    requires
        base == 10 || base == 16,
        numeral(m, base) == numeral(n, base),
    ensures
        m == n,
{
    lemma_numeral(m, base);
    lemma_numeral(n, base);
}

/// Different integers are written differently.
pub proof fn lemma_decimal_injective(i: int, j: int)
    requires
        decimal(i) == decimal(j),
    ensures
        i == j,
{
    let m = (if i < 0 { -i } else { i }) as nat;
    let n = (if j < 0 { -j } else { j }) as nat;
    lemma_numeral(m, 10);
    lemma_numeral(n, 10);
    if i < 0 {
        assert(decimal(i)[0] == '-');
        assert(decimal(i).skip(1) =~= dec(m));
    } else {
        assert(decimal(i)[0] != '-');
    }
    if j < 0 {
        assert(decimal(j)[0] == '-');
        assert(decimal(j).skip(1) =~= dec(n));
    } else {
        assert(decimal(j)[0] != '-');
    }
    lemma_numeral_injective(m, n, 10);
}

/// Reading gives back what writing wrote: the decimal form of every number of 64
/// bits is read as that number.
pub proof fn law_parse_reads_what_dec_writes(n: u64)
    ensures
        parsed(dec(n as nat)) == Some(n),
{
    lemma_numeral(n as nat, 10);
}

/// The digits are those that everybody uses.
pub proof fn law_digits(d: nat)
    requires
        d < 16,
    ensures
        digit_char(d) == "0123456789abcdef"@[d as int],
        digit_value(digit_char(d)) == d,
{
    reveal_strlit("0123456789abcdef");
}

/// A numeral is written digit by digit: a number below the base is its digit, and a
/// further digit makes `base` times the number, and the digit more.
pub proof fn law_numerals_are_positional(n: nat, d: nat, base: nat)
    requires
        base == 10 || base == 16,
        d < base,
    ensures
        numeral(d, base) == seq![digit_char(d)],
        n > 0 ==> numeral(base * n + d, base) == numeral(n, base).push(digit_char(d)),
{
    if n > 0 {
        let m = base * n + d;
        assert(m >= base) by (nonlinear_arith)
            requires
                m == base * n + d,
                n > 0,
        ;
        vstd::arithmetic::div_mod::lemma_fundamental_div_mod_converse(
            m as int,
            base as int,
            n as int,
            d as int,
        );
    }
}

/// A negative number is written with a minus before what it is without it.
pub proof fn law_minus_signs(n: nat)
    ensures
        decimal(n as int) == dec(n),
        n > 0 ==> decimal(-(n as int)) == "-"@ + dec(n),
{
    reveal_strlit("-");
    assert("-"@ =~= seq!['-']);
}

/// That many zeros.
pub open spec fn zeros(k: nat) -> Seq<char> {
    Seq::new(k, |i: int| '0')
}

/// A plus sign, where there is to be one.
pub open spec fn plus(yes: bool) -> Seq<char> {
    if yes {
        seq!['+']
    } else {
        Seq::empty()
    }
}

proof fn lemma_digits_are_a_numeral(s: Seq<char>) -> (k: nat)
    requires
        all_digits(s),
    ensures
        s == zeros(k) + dec(value(s, 10)),
    decreases s.len(),
{
    let t = s.drop_last();
    let d = digit_value(s.last());
    assert('0' <= s[s.len() - 1] <= '9');
    assert(digit_char(d) == s.last());
    if t.len() == 0 {
        assert(value(t, 10) == 0);
        assert(s =~= zeros(0) + dec(d));
        0
    } else {
        assert forall|i: int| 0 <= i < t.len() implies '0' <= #[trigger] t[i] <= '9' by {
            assert(t[i] == s[i]);
        }
        let k = lemma_digits_are_a_numeral(t);
        let v = value(t, 10);
        law_numerals_are_positional(v, d, 10);
        assert(s =~= t.push(s.last()));
        if v > 0 {
            assert(10 * v + d == value(s, 10));
            assert(s =~= zeros(k) + dec(value(s, 10)));
            k
        } else {
            assert(dec(0) =~= seq!['0']);
            assert(s =~= zeros(k + 1) + dec(value(s, 10)));
            k + 1
        }
    }
}

proof fn lemma_value_of_padded(k: nat, s: Seq<char>)
    ensures
        value(zeros(k) + s, 10) == value(s, 10),
    decreases k + s.len(),
{
    let padded = zeros(k) + s;
    if s.len() > 0 {
        assert(padded.drop_last() =~= zeros(k) + s.drop_last());
        lemma_value_of_padded(k, s.drop_last());
    } else if k > 0 {
        assert(padded.drop_last() =~= zeros((k - 1) as nat) + s);
        lemma_value_of_padded((k - 1) as nat, s);
    }
}

/// Whether `s` is the decimal form of `n`, with `k` zeros before it and perhaps a plus
/// sign before those.
pub open spec fn writes(s: Seq<char>, n: u64, signed: bool, k: nat) -> bool {
    s == plus(signed) + zeros(k) + dec(n as nat)
}

/// A text is read as a number exactly where it is the decimal form of that number,
/// with or without zeros and a plus sign before it.
pub proof fn law_what_is_read_as_a_number(s: Seq<char>, n: u64)
    ensures
        parsed(s) == Some(n) <==> exists|signed: bool, k: nat| #[trigger] writes(s, n, signed, k),
{
    if parsed(s) == Some(n) {
        let signed = s.len() > 0 && s[0] == '+';
        let digits = if signed {
            s.skip(1)
        } else {
            s
        };
        let k = lemma_digits_are_a_numeral(digits);
        assert(value(digits, 10) == n);
        assert(s =~= plus(signed) + digits);
        assert(plus(signed) + (zeros(k) + dec(n as nat)) =~= plus(signed) + zeros(k) + dec(
            n as nat,
        ));
        assert(writes(s, n, signed, k));
    }
    if exists|signed: bool, k: nat| #[trigger] writes(s, n, signed, k) {
        let (signed, k) = choose|signed: bool, k: nat| #[trigger] writes(s, n, signed, k);
        let digits = zeros(k) + dec(n as nat);
        lemma_numeral(n as nat, 10);
        lemma_value_of_padded(k, dec(n as nat));
        assert forall|i: int| 0 <= i < digits.len() implies '0' <= #[trigger] digits[i] <= '9' by {
            if i >= k {
                assert(digits[i] == dec(n as nat)[i - k]);
            }
        }
        if signed {
            assert(s.skip(1) =~= digits);
        } else {
            assert(s =~= digits);
            assert('0' <= digits[0] <= '9');
        }
    }
}

proof fn lemma_value_monotone(s: Seq<char>, i: int)
    requires
        0 <= i <= s.len(),
    ensures
        value(s.take(i), 10) <= value(s, 10),
    decreases s.len() - i,
{
    if i < s.len() {
        lemma_value_monotone(s, i + 1);
        assert(s.take(i + 1).drop_last() =~= s.take(i));
    } else {
        assert(s.take(i) =~= s);
    }
}

/// The text of one digit.
fn digit_text(d: u128) -> (r: &'static str)
    requires
        d < 16,
    ensures
        r@ == seq![digit_char(d as nat)],
{
    proof {
        reveal_strlit("0");
        reveal_strlit("1");
        reveal_strlit("2");
        reveal_strlit("3");
        reveal_strlit("4");
        reveal_strlit("5");
        reveal_strlit("6");
        reveal_strlit("7");
        reveal_strlit("8");
        reveal_strlit("9");
        reveal_strlit("a");
        reveal_strlit("b");
        reveal_strlit("c");
        reveal_strlit("d");
        reveal_strlit("e");
        reveal_strlit("f");
    }
    let r: &'static str = match d {
        0 => "0",
        1 => "1",
        2 => "2",
        3 => "3",
        4 => "4",
        5 => "5",
        6 => "6",
        7 => "7",
        8 => "8",
        9 => "9",
        10 => "a",
        11 => "b",
        12 => "c",
        13 => "d",
        14 => "e",
        _ => "f",
    };
    assert(r@ =~= seq![digit_char(d as nat)]);
    r
}

/// Writes `n` in base `base` at the end of `out`.
fn push_numeral(out: &mut String, n: u128, base: u128)
    requires
        base == 10 || base == 16,
    ensures
        final(out)@ == old(out)@ + numeral(n as nat, base as nat),
    decreases n,
{
    if n < base {
        out.append(digit_text(n));
        assert(numeral(n as nat, base as nat) == seq![digit_char(n as nat)]);
    } else {
        push_numeral(out, n / base, base);
        out.append(digit_text(n % base));
        assert(out@ =~= old(out)@ + numeral(n as nat, base as nat));
    }
}

/// Writes `n` in base ten at the end of `out`.
pub fn push_dec(out: &mut String, n: u64)
    ensures
        final(out)@ == old(out)@ + dec(n as nat),
{
    push_numeral(out, n as u128, 10);
}

/// Writes `n` in base sixteen at the end of `out`.
pub fn push_hex(out: &mut String, n: u128)
    ensures
        final(out)@ == old(out)@ + hex(n as nat),
{
    push_numeral(out, n, 16);
}

/// Writes `i` in base ten at the end of `out`.
pub fn push_decimal(out: &mut String, i: i32)
    ensures
        final(out)@ == old(out)@ + decimal(i as int),
{
    if i < 0 {
        proof {
            reveal_strlit("-");
        }
        assert("-"@ =~= seq!['-']);
        out.append("-");
        let magnitude: i64 = -(i as i64);
        push_numeral(out, magnitude as u128, 10);
        assert(out@ =~= old(out)@ + decimal(i as int));
    } else {
        push_numeral(out, i as u128, 10);
    }
}

/// Reads the stretch of `chars` from `lo` to `hi` as an unsigned number.
pub fn parse_u64(chars: &Vec<char>, lo: usize, hi: usize) -> (r: Option<u64>)
    requires
        lo <= hi <= chars.len(),
    ensures
        r == parsed(chars@.subrange(lo as int, hi as int)),
{
    let ghost s = chars@.subrange(lo as int, hi as int);
    let from: usize = if lo < hi && chars[lo] == '+' {
        lo + 1
    } else {
        lo
    };
    let ghost digits = chars@.subrange(from as int, hi as int);
    assert(from > lo ==> digits =~= s.skip(1));
    if from == hi {
        return None;
    }
    let mut acc: u64 = 0;
    let mut i: usize = from;
    assert(digits.take(0) =~= Seq::empty());
    while i < hi
        invariant
            lo <= from <= i <= hi <= chars.len(),
            from < hi,
            digits == chars@.subrange(from as int, hi as int),
            digits == (if s.len() > 0 && s[0] == '+' {
                s.skip(1)
            } else {
                s
            }),
            forall|k: int| 0 <= k < i - from ==> '0' <= #[trigger] digits[k] <= '9',
            acc == value(digits.take(i - from), 10),
            s == chars@.subrange(lo as int, hi as int),
        decreases hi - i,
    {
        let c: char = chars[i];
        assert(digits[i - from] == c);
        if c < '0' || c > '9' {
            return None;
        }
        let d: u64 = (c as u32 - 48) as u64;
        proof {
            assert(digits.take(i + 1 - from).drop_last() =~= digits.take(i - from));
            assert(d == digit_value(c));
            lemma_value_monotone(digits, i + 1 - from);
        }
        if acc > (u64::MAX - d) / 10 {
            return None;
        }
        acc = acc * 10 + d;
        i += 1;
    }
    assert(digits.take(i - from) =~= digits);
    Some(acc)
}

} // verus!
