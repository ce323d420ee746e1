//! Numerals as text: how numbers are written into keys and store commands, and read back.

use vstd::prelude::*;
use vstd::string::StringExecFns;
use vstd::string::StrSliceExecFns;

verus! {

/// The character that stands for the digit `d`, in lower case for the digits above nine.
pub open spec fn digit_char(d: nat) -> char
    recommends
        d < 16,
{
    if d < 10 {
        ((48 + d) as u8) as char
    } else {
        ((87 + d) as u8) as char
    }
}

/// `n` written in the given base without sign, padding or leading zeros; zero is `"0"`.
pub open spec fn numeral(base: nat, n: nat) -> Seq<char>
    recommends
        2 <= base <= 16,
    decreases n,
    via numeral_decreases
{
    if n < base || base < 2 {
        seq![digit_char(n)]
    } else {
        numeral(base, n / base).push(digit_char(n % base))
    }
}

#[via_fn]
proof fn numeral_decreases(base: nat, n: nat) {
    if !(n < base || base < 2) {
        lemma_quotient_smaller(base, n);
    }
}

/// Dividing by two or more makes a positive number smaller.
proof fn lemma_quotient_smaller(base: nat, n: nat)
    requires
        2 <= base <= n,
    ensures
        n / base < n,
        n % base < base,
{
    assert(n / base < n && n % base < base) by (nonlinear_arith)
        requires
            2 <= base <= n,
    ;
}

/// `n` in decimal.
pub open spec fn decimal(n: nat) -> Seq<char> {
    numeral(10, n)
}

/// `n` in lower-case hexadecimal.
pub open spec fn hexadecimal(n: nat) -> Seq<char> {
    numeral(16, n)
}

/// Whether `c` is one of `0` to `9`.
pub open spec fn is_decimal_digit(c: char) -> bool {
    '0' <= c <= '9'
}

/// Whether `c` can occur in a numeral of base sixteen or less.
pub open spec fn is_digit(c: char) -> bool {
    '0' <= c <= '9' || 'a' <= c <= 'f'
}

/// Whether `s` is a non-empty run of decimal digits.
pub open spec fn is_decimal(s: Seq<char>) -> bool {
    s.len() > 0 && forall|i: int| 0 <= i < s.len() ==> is_decimal_digit(#[trigger] s[i])
}

/// The number that a run of decimal digits denotes.
pub open spec fn decimal_value(s: Seq<char>) -> nat
    decreases s.len(),
{
    if s.len() == 0 {
        0
    } else {
        decimal_value(s.drop_last()) * 10 + (s.last() as nat - 48) as nat
    }
}

/// What reading `s` as an unsigned 64-bit number gives: the digits may follow one `+`, and the
/// value must fit.
pub open spec fn parsed_u64(s: Seq<char>) -> Option<u64> {
    let digits = if s.len() > 0 && s[0] == '+' {
        s.subrange(1, s.len() as int)
    } else {
        s
    };
    if is_decimal(digits) && decimal_value(digits) <= u64::MAX {
        Some(decimal_value(digits) as u64)
    } else {
        None
    }
}

/// Every character of a numeral is a digit, and a numeral is never empty.
pub proof fn lemma_numeral_digits(base: nat, n: nat)
    requires
        2 <= base <= 16,
    ensures
        numeral(base, n).len() > 0,
        forall|i: int| 0 <= i < numeral(base, n).len() ==> is_digit(#[trigger] numeral(base, n)[i]),
        base <= 10 ==> is_decimal(numeral(base, n)),
    decreases n,
{
    if n >= base {
        lemma_quotient_smaller(base, n);
        lemma_numeral_digits(base, n / base);
    }
}

/// Reading a decimal numeral gives back the number it was written from.
pub proof fn lemma_decimal_round_trip(n: nat)
    ensures
        is_decimal(decimal(n)),
        decimal_value(decimal(n)) == n,
    decreases n,
{
    lemma_numeral_digits(10, n);
    if n >= 10 {
        lemma_decimal_round_trip(n / 10);
        let s = decimal(n);
        assert(s.drop_last() =~= decimal(n / 10));
    } else {
        let s = decimal(n);
        assert(decimal_value(s.drop_last()) == 0);
    }
}

/// A number that was written in decimal is read back as it was.
pub proof fn law_written_numbers_are_read_back(n: u64)
    ensures
        parsed_u64(decimal(n as nat)) == Some(n),
{
    lemma_decimal_round_trip(n as nat);
}

/// The value of a run of digits extended by one digit.
pub proof fn lemma_decimal_value_push(s: Seq<char>, c: char)
    ensures
        decimal_value(s.push(c)) == decimal_value(s) * 10 + (c as nat - 48) as nat,
{
    assert(s.push(c).drop_last() =~= s);
}

/// A longer run of digits never denotes a smaller number than its prefix.
pub proof fn lemma_decimal_value_grows(s: Seq<char>, k: int)
    requires
        0 <= k <= s.len(),
    ensures
        decimal_value(s.subrange(0, k)) <= decimal_value(s),
    decreases s.len() - k,
{
    if k < s.len() {
        lemma_decimal_value_grows(s, k + 1);
        assert(s.subrange(0, k + 1).drop_last() =~= s.subrange(0, k));
    } else {
        assert(s.subrange(0, k) =~= s);
    }
}

/// Different digits below sixteen have different characters.
proof fn lemma_digit_char_injective(d: nat, e: nat)
    requires
        d < 16,
        e < 16,
        digit_char(d) == digit_char(e),
    ensures
        d == e,
{
    assert(digit_char(d) as int == if d < 10 {
        48 + d
    } else {
        87 + d
    });
    assert(digit_char(e) as int == if e < 10 {
        48 + e
    } else {
        87 + e
    });
}

/// Different numbers are written differently.
pub proof fn lemma_numeral_injective(base: nat, n: nat, m: nat)
    requires
        2 <= base <= 16,
        numeral(base, n) == numeral(base, m),
    ensures
        n == m,
    decreases n,
{
    lemma_numeral_digits(base, n);
    lemma_numeral_digits(base, m);
    if n < base && m < base {
        assert(numeral(base, n)[0] == digit_char(n));
        lemma_digit_char_injective(n, m);
    } else if n >= base && m >= base {
        lemma_quotient_smaller(base, n);
        lemma_quotient_smaller(base, m);
        let p = numeral(base, n / base);
        let q = numeral(base, m / base);
        assert(p =~= p.push(digit_char(n % base)).drop_last());
        assert(q =~= q.push(digit_char(m % base)).drop_last());
        assert(p.push(digit_char(n % base)).last() == digit_char(n % base));
        lemma_numeral_injective(base, n / base, m / base);
        lemma_digit_char_injective(n % base, m % base);
        assert(n == m) by (nonlinear_arith)
            requires
                base > 0,
                n / base == m / base,
                n % base == m % base,
        ;
    } else if n >= base {
        lemma_numeral_digits(base, n / base);
    } else {
        lemma_numeral_digits(base, m / base);
    }
}

/// Whether the character `c` does not occur in `s`.
pub open spec fn free_of(s: Seq<char>, c: char) -> bool {
    forall|i: int| 0 <= i < s.len() ==> #[trigger] s[i] != c
}

/// No numeral holds a character that is not a digit.
pub proof fn lemma_numeral_free_of(base: nat, n: nat, c: char)
    requires
        2 <= base <= 16,
        !is_digit(c),
    ensures
        free_of(numeral(base, n), c),
        numeral(base, n).len() > 0,
{
    lemma_numeral_digits(base, n);
}

/// Two texts that agree as a whole agree in their first words, where a word ends at the first
/// occurrence of the separator or at the end of the text.
pub proof fn lemma_same_first_word(
    a: Seq<char>,
    x: Seq<char>,
    b: Seq<char>,
    y: Seq<char>,
    separator: char,
)
    requires
        a + x == b + y,
        free_of(a, separator),
        free_of(b, separator),
        x.len() == 0 || x[0] == separator,
        y.len() == 0 || y[0] == separator,
    ensures
        a == b,
        x == y,
{
    let whole = a + x;
    if a.len() < b.len() {
        assert(whole[a.len() as int] == x[0]);
    }
    if b.len() < a.len() {
        assert((b + y)[b.len() as int] == y[0]);
    }
    assert forall|i: int| 0 <= i < a.len() implies a[i] == b[i] by {
        assert(whole[i] == a[i]);
    }
    assert forall|i: int| 0 <= i < x.len() implies x[i] == y[i] by {
        assert(whole[a.len() + i] == x[i]);
    }
}

/// The words joined into one text, the separator between each two of them.
pub open spec fn joined(words: Seq<Seq<char>>, separator: char) -> Seq<char>
    decreases words.len(),
{
    if words.len() == 0 {
        Seq::empty()
    } else if words.len() == 1 {
        words[0]
    } else {
        words[0] + seq![separator] + joined(words.drop_first(), separator)
    }
}

/// Whether each of the words is non-empty and free of the separator.
pub open spec fn plain_words(words: Seq<Seq<char>>, separator: char) -> bool {
    forall|i: int|
        0 <= i < words.len() ==> (#[trigger] words[i]).len() > 0 && free_of(words[i], separator)
}

/// Whether `x` can follow joined words without being taken for one more of them: it is empty or
/// begins with the separator twice.
pub open spec fn ends_words(x: Seq<char>, separator: char) -> bool {
    x.len() == 0 || (x.len() >= 2 && x[0] == separator && x[1] == separator)
}

/// Joined words can be told apart again: two texts that agree, each made of joined words and
/// something that ends them, are made of the same words and the same ending.
pub proof fn lemma_joined_injective(
    words: Seq<Seq<char>>,
    x: Seq<char>,
    others: Seq<Seq<char>>,
    y: Seq<char>,
    separator: char,
)
    requires
        words.len() > 0,
        others.len() > 0,
        plain_words(words, separator),
        plain_words(others, separator),
        ends_words(x, separator),
        ends_words(y, separator),
        joined(words, separator) + x == joined(others, separator) + y,
    ensures
        words == others,
        x == y,
    decreases words.len(),
{
    let sep = seq![separator];
    let rest = if words.len() == 1 {
        x
    } else {
        sep + joined(words.drop_first(), separator) + x
    };
    let other_rest = if others.len() == 1 {
        y
    } else {
        sep + joined(others.drop_first(), separator) + y
    };
    assert(joined(words, separator) + x =~= words[0] + rest);
    assert(joined(others, separator) + y =~= others[0] + other_rest);
    lemma_same_first_word(words[0], rest, others[0], other_rest, separator);
    if words.len() > 1 {
        let tail = words.drop_first();
        let other_tail = others.drop_first();
        assert(joined(tail, separator) + x =~= rest.subrange(1, rest.len() as int));
        assert(joined(other_tail, separator) + y =~= other_rest.subrange(
            1,
            other_rest.len() as int,
        ));
        lemma_joined_injective(tail, x, other_tail, y, separator);
        assert(words =~= seq![words[0]] + tail);
    }
}

/// The one-character text of a digit.
fn digit_text(d: u8) -> (r: &'static str)
    requires
        d < 16,
    ensures
        r@ == seq![digit_char(d as nat)],
{
    proof {
        reveal_strlit("0");
        reveal_strlit("1");
        reveal_strlit("2");
        reveal_strlit("3");
        reveal_strlit("4");
        reveal_strlit("5");
        reveal_strlit("6");
        reveal_strlit("7");
        reveal_strlit("8");
        reveal_strlit("9");
        reveal_strlit("a");
        reveal_strlit("b");
        reveal_strlit("c");
        reveal_strlit("d");
        reveal_strlit("e");
        reveal_strlit("f");
    }
    let r = match d {
        0 => "0",
        1 => "1",
        2 => "2",
        3 => "3",
        4 => "4",
        5 => "5",
        6 => "6",
        7 => "7",
        8 => "8",
        9 => "9",
        10 => "a",
        11 => "b",
        12 => "c",
        13 => "d",
        14 => "e",
        _ => "f",
    };
    r
}

/// Appends `n`, written in the given base, to `out`.
pub fn append_numeral(out: &mut String, base: u64, n: u64)
    requires
        2 <= base <= 16,
    ensures
        final(out)@ == old(out)@ + numeral(base as nat, n as nat),
    decreases n,
{
    if n >= base {
        proof {
            lemma_quotient_smaller(base as nat, n as nat);
        }
        append_numeral(out, base, n / base);
        let d: u64 = n % base;
        out.append(digit_text(d as u8));
    } else {
        out.append(digit_text(n as u8));
    }
}

/// `n` in decimal, as an owned string.
pub fn decimal_string(n: u64) -> (r: String)
    ensures
        r@ == decimal(n as nat),
{
    let mut out = String::new();
    append_numeral(&mut out, 10, n);
    out
}

/// Reads `s` as an unsigned 64-bit number in decimal.
pub fn parse_u64(s: &str) -> (r: Option<u64>)
    ensures
        r == parsed_u64(s@),
{
    broadcast use vstd::string::is_ascii_spec_bytes;

    let ghost digits = if s@.len() > 0 && s@[0] == '+' {
        s@.subrange(1, s@.len() as int)
    } else {
        s@
    };
    if !s.is_ascii() {
        proof {
            if is_decimal(digits) {
                assert forall|i: int| 0 <= i < s@.len() implies '\0' <= #[trigger] s@[i]
                    <= '\u{7f}' by {
                    if digits.len() < s@.len() && i > 0 {
                        assert(s@[i] == digits[i - 1]);
                    }
                }
            }
        }
        return None;
    }
    proof {
        vstd::utf8::is_ascii_chars_encode_utf8(s@);
    }
    let len = s.as_bytes().len();
    let signed = len > 0 && s.get_ascii(0) == 43;
    let start: usize = if signed {
        1
    } else {
        0
    };
    if start == len {
        return None;
    }
    let mut value: u64 = 0;
    let mut i: usize = start;
    while i < len
        invariant
            s.is_ascii(),
            len == s@.len(),
            start <= i <= len,
            start < len,
            digits == s@.subrange(start as int, len as int),
            digits == if s@.len() > 0 && s@[0] == '+' {
                s@.subrange(1, s@.len() as int)
            } else {
                s@
            },
            forall|j: int| 0 <= j < i - start ==> is_decimal_digit(#[trigger] digits[j]),
            value as nat == decimal_value(digits.subrange(0, i - start)),
        decreases len - i,
    {
        let b = s.get_ascii(i);
        assert(digits[i - start] == s@[i as int]);
        if b < 48 || b > 57 {
            return None;
        }
        let d: u64 = (b - 48) as u64;
        proof {
            assert(digits.subrange(0, i - start + 1) =~= digits.subrange(0, i - start).push(
                digits[i - start],
            ));
            lemma_decimal_value_push(digits.subrange(0, i - start), digits[i - start]);
            lemma_decimal_value_grows(digits, i - start + 1);
        }
        if value > (u64::MAX - d) / 10 {
            return None;
        }
        value = value * 10 + d;
        i = i + 1;
    }
    assert(digits.subrange(0, i - start) =~= digits);
    Some(value)
}

} // verus!
