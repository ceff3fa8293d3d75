//! Numbers as text: decimal and hexadecimal numerals, written and read back.
use vstd::prelude::*;
use vstd::string::*;

verus! {

/// The character for the digit `d` below 16; the letters are upper case.
pub open spec fn digit_char(d: nat) -> char {
    if d < 10 {
        (48 + d) as char
    } else {
        (55 + d) as char
    }
}

/// The decimal numeral of `n`: no sign, no leading zero, `"0"` for zero.
pub open spec fn decimal(n: nat) -> Seq<char>
    decreases n,
{
    if n < 10 {
        seq![digit_char(n)]
    } else {
        decimal(n / 10).push(digit_char(n % 10))
    }
}

/// The last `width` hexadecimal digits of `v`, most significant first.
pub open spec fn hex(v: nat, width: nat) -> Seq<char>
    decreases width,
{
    if width == 0 {
        Seq::empty()
    } else {
        hex(v / 16, (width - 1) as nat).push(digit_char(v % 16))
    }
}

/// Whether `c` is one of `0` to `9`.
pub open spec fn is_decimal_digit(c: char) -> bool {
    48 <= c as int <= 57
}

/// The number that the decimal digit `c` stands for.
pub open spec fn digit_value(c: char) -> nat {
    (c as int - 48) as nat
}

/// Whether `s` holds decimal digits only.
pub open spec fn all_digits(s: Seq<char>) -> bool {
    forall|k: int| 0 <= k < s.len() ==> is_decimal_digit(#[trigger] s[k])
}

/// Whether `s` is a decimal numeral as `decimal` writes it.
pub open spec fn is_numeral(s: Seq<char>) -> bool {
    &&& s.len() >= 1
    &&& all_digits(s)
    &&& (s.len() > 1 ==> s[0] != '0')
}

/// The number that a string of decimal digits stands for.
pub open spec fn numeral_value(s: Seq<char>) -> nat
    decreases s.len(),
{
    if s.len() == 0 {
        0
    } else {
        numeral_value(s.drop_last()) * 10 + digit_value(s.last())
    }
}

/// `decimal` writes numerals: reading one back gives the number it was written from.
pub proof fn lemma_decimal_reads_back(n: nat)
    ensures
        is_numeral(decimal(n)),
        numeral_value(decimal(n)) == n,
        n > 0 ==> decimal(n)[0] != '0',
    decreases n,
{
    if n < 10 {
        let s = decimal(n);
        assert(s.drop_last() =~= Seq::<char>::empty());
        assert(numeral_value(s.drop_last()) == 0);
    } else {
        lemma_decimal_reads_back(n / 10);
        let p = decimal(n / 10);
        let s = decimal(n);
        assert(s.drop_last() =~= p);
        assert(s[0] == p[0]);
    }
}

/// A string of digits that does not start with `0` stands for a positive number, and
/// `decimal` writes that number as the same string.
pub proof fn lemma_digits_write_back(s: Seq<char>)
    requires
        s.len() >= 1,
        all_digits(s),
        s[0] != '0',
    ensures
        numeral_value(s) >= 1,
        decimal(numeral_value(s)) == s,
    decreases s.len(),
{
    let p = s.drop_last();
    let c = s.last();
    assert(is_decimal_digit(c));
    if p.len() == 0 {
        assert(numeral_value(p) == 0);
        assert(s =~= seq![c]);
        assert(c == s[0]);
        assert(digit_char(digit_value(c)) == c);
    } else {
        assert(p[0] == s[0]);
        lemma_digits_write_back(p);
        let v = numeral_value(s);
        assert(v / 10 == numeral_value(p));
        assert(v % 10 == digit_value(c));
        assert(digit_char(digit_value(c)) == c);
        assert(decimal(v) =~= s);
    }
}

/// Every numeral is what `decimal` writes for the number it stands for.
pub proof fn lemma_numeral_writes_back(s: Seq<char>)
    requires
        is_numeral(s),
    ensures
        decimal(numeral_value(s)) == s,
{
    if s[0] == '0' {
        assert(s.drop_last() =~= Seq::<char>::empty());
        assert(numeral_value(s.drop_last()) == 0);
        assert(s =~= seq!['0']);
    } else {
        lemma_digits_write_back(s);
    }
}

/// Two numbers with the same decimal numeral are the same number.
pub proof fn lemma_decimal_injective(a: nat, b: nat)
    requires
        decimal(a) == decimal(b),
    ensures
        a == b,
{
    lemma_decimal_reads_back(a);
    lemma_decimal_reads_back(b);
}

/// A string of digits stands for at least as much as any of its prefixes.
pub proof fn lemma_value_grows(s: Seq<char>, k: int)
    requires
        0 <= k <= s.len(),
    ensures
        numeral_value(s.take(k)) <= numeral_value(s),
    decreases s.len() - k,
{
    if k == s.len() {
        assert(s.take(k) =~= s);
    } else {
        lemma_value_grows(s, k + 1);
        assert(s.take(k + 1).drop_last() =~= s.take(k));
    }
}

/// The string that holds the one digit `d`.
fn digit_str(d: u64) -> (s: &'static str)
    requires
        d < 16,
    ensures
        s@ == seq![digit_char(d as nat)],
{
    proof {
        reveal_strlit("0");
        reveal_strlit("1");
        reveal_strlit("2");
        reveal_strlit("3");
        reveal_strlit("4");
        reveal_strlit("5");
        reveal_strlit("6");
        reveal_strlit("7");
        reveal_strlit("8");
        reveal_strlit("9");
        reveal_strlit("A");
        reveal_strlit("B");
        reveal_strlit("C");
        reveal_strlit("D");
        reveal_strlit("E");
        reveal_strlit("F");
    }
    let s = if d == 0 {
        "0"
    } else if d == 1 {
        "1"
    } else if d == 2 {
        "2"
    } else if d == 3 {
        "3"
    } else if d == 4 {
        "4"
    } else if d == 5 {
        "5"
    } else if d == 6 {
        "6"
    } else if d == 7 {
        "7"
    } else if d == 8 {
        "8"
    } else if d == 9 {
        "9"
    } else if d == 10 {
        "A"
    } else if d == 11 {
        "B"
    } else if d == 12 {
        "C"
    } else if d == 13 {
        "D"
    } else if d == 14 {
        "E"
    } else {
        "F"
    };
    assert(s@ =~= seq![digit_char(d as nat)]);
    s
}

/// Writes the decimal numeral of `n` at the end of `out`.
pub fn push_decimal(out: &mut String, n: u64)
    ensures
        final(out)@ == old(out)@ + decimal(n as nat),
    decreases n,
{
    if n >= 10 {
        push_decimal(out, n / 10);
    }
    out.append(digit_str(n % 10));
    assert(out@ =~= old(out)@ + decimal(n as nat));
}

/// Writes the last `width` hexadecimal digits of `v` at the end of `out`.
pub fn push_hex(out: &mut String, v: u64, width: u8)
    ensures
        final(out)@ == old(out)@ + hex(v as nat, width as nat),
    decreases width,
{
    if width > 0 {
        push_hex(out, v / 16, width - 1);
        out.append(digit_str(v % 16));
    }
    assert(out@ =~= old(out)@ + hex(v as nat, width as nat));
}

/// Whether `s` begins with `prefix`.
pub fn has_prefix(s: &str, prefix: &str) -> (r: bool)
    ensures
        r == (prefix@.len() <= s@.len() && s@.take(prefix@.len() as int) == prefix@),
{
    let n: usize = s.unicode_len();
    let m: usize = prefix.unicode_len();
    if n < m {
        return false;
    }
    let mut k: usize = 0;
    while k < m
        invariant
            k <= m <= n,
            n == s@.len(),
            m == prefix@.len(),
            forall|j: int| 0 <= j < k ==> s@[j] == prefix@[j],
        decreases m - k,
    {
        if s.get_char(k) != prefix.get_char(k) {
            assert(s@.take(m as int)[k as int] != prefix@[k as int]);
            return false;
        }
        k = k + 1;
    }
    assert(s@.take(m as int) =~= prefix@);
    true
}

/// Reads the decimal numeral that `s` holds from the character at position `from`
/// to its end.
///
/// There is a result when `s` is longer than `from` characters and what follows them
/// is a numeral, written as `decimal` writes it, of a number that fits 64 bits; the
/// result is that number.
pub fn read_decimal(s: &str, from: usize) -> (r: Option<u64>)
    ensures
        r is Some <==> from <= s@.len() && is_numeral(s@.skip(from as int)) && numeral_value(
            s@.skip(from as int),
        ) <= u64::MAX,
        r matches Some(v) ==> v == numeral_value(s@.skip(from as int)),
{
    let n: usize = s.unicode_len();
    let ghost rest = s@.skip(from as int);
    if n <= from {
        return None;
    }
    if n - from > 1 && s.get_char(from) == '0' {
        assert(rest[0] == '0');
        return None;
    }
    let mut value: u64 = 0;
    let mut k: usize = from;
    assert(rest.take(0) =~= Seq::<char>::empty());
    while k < n
        invariant
            from <= k <= n,
            n == s@.len(),
            rest == s@.skip(from as int),
            all_digits(rest.take(k - from)),
            value == numeral_value(rest.take(k - from)),
        decreases n - k,
    {
        let c: char = s.get_char(k);
        assert(c == rest[k - from]);
        if !('0' <= c && c <= '9') {
            assert(!is_decimal_digit(rest[k - from]));
            return None;
        }
        let d: u64 = (c as u32 - 48) as u64;
        proof {
            let next = rest.take(k - from + 1);
            assert(next.drop_last() =~= rest.take(k - from));
            assert(next.last() == c);
            assert(numeral_value(next) == value * 10 + d);
            lemma_value_grows(rest, k - from + 1);
            assert forall|j: int| 0 <= j < next.len() implies is_decimal_digit(
                #[trigger] next[j],
            ) by {
                if j < k - from {
                    assert(next[j] == rest.take(k - from)[j]);
                }
            }
        }
        if value > (u64::MAX - d) / 10 {
            return None;
        }
        value = value * 10 + d;
        k = k + 1;
    }
    assert(rest.take(n - from) =~= rest);
    Some(value)
}

} // verus!
