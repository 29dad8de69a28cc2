//! Text helpers: decimal numerals and their parsing, and the masking of a
//! secret in a text.

use vstd::prelude::*;

verus! {

/// The character of a decimal digit.
pub open spec fn digit_char(d: nat) -> char {
    if d == 0 { '0' }
    else if d == 1 { '1' }
    else if d == 2 { '2' }
    else if d == 3 { '3' }
    else if d == 4 { '4' }
    else if d == 5 { '5' }
    else if d == 6 { '6' }
    else if d == 7 { '7' }
    else if d == 8 { '8' }
    else { '9' }
}

/// The decimal numeral of `n`, without leading zeros.
pub open spec fn decimal(n: nat) -> Seq<char>
    decreases n,
{
    if n < 10 { seq![digit_char(n)] } else { decimal(n / 10).push(digit_char(n % 10)) }
}

/// The value of a decimal digit character.
pub open spec fn digit_value(c: char) -> nat {
    (c as int - '0' as int) as nat
}

/// Whether `c` is a decimal digit.
pub open spec fn is_digit(c: char) -> bool {
    '0' <= c && c <= '9'
}

/// The value of a sequence of decimal digits.
pub open spec fn digits_value(s: Seq<char>) -> nat
    decreases s.len(),
{
    if s.len() == 0 { 0 } else { digits_value(s.drop_last()) * 10 + digit_value(s.last()) }
}

/// The text after an optional leading `+`.
pub open spec fn unsigned_part(s: Seq<char>) -> Seq<char> {
    if s.len() > 0 && s[0] == '+' { s.drop_first() } else { s }
}

/// Whether every character is a decimal digit.
pub open spec fn all_digits(s: Seq<char>) -> bool {
    forall|i: int| 0 <= i < s.len() ==> is_digit(#[trigger] s[i])
}

/// What `u16::from_str` accepts: an optional `+`, then one or more decimal
/// digits whose value is at most 65535.
pub open spec fn parsed_u16(s: Seq<char>) -> Option<u16> {
    let digits = unsigned_part(s);
    if digits.len() > 0 && all_digits(digits) && digits_value(digits) <= u16::MAX {
        Some(digits_value(digits) as u16)
    } else {
        None
    }
}

fn digit_str(d: u64) -> (s: &'static str)
    requires
        d < 10,
    ensures
        s@ == seq![digit_char(d as nat)],
{
    proof {
        reveal_strlit("0");
        reveal_strlit("1");
        reveal_strlit("2");
        reveal_strlit("3");
        reveal_strlit("4");
        reveal_strlit("5");
        reveal_strlit("6");
        reveal_strlit("7");
        reveal_strlit("8");
        reveal_strlit("9");
    }
    if d == 0 { "0" }
    else if d == 1 { "1" }
    else if d == 2 { "2" }
    else if d == 3 { "3" }
    else if d == 4 { "4" }
    else if d == 5 { "5" }
    else if d == 6 { "6" }
    else if d == 7 { "7" }
    else if d == 8 { "8" }
    else { "9" }
}

/// Appends the decimal numeral of `n`.
pub fn push_decimal(out: &mut String, n: u64)
    ensures
        final(out)@ == old(out)@ + decimal(n as nat),
    decreases n,
{
    if n >= 10 {
        push_decimal(out, n / 10);
        out.append(digit_str(n % 10));
        proof {
            assert(decimal(n as nat) == decimal((n / 10) as nat).push(digit_char((n % 10) as nat)));
        }
    } else {
        out.append(digit_str(n));
    }
}

/// The decimal numeral of `n`.
pub fn decimal_string(n: u64) -> (s: String)
    ensures
        s@ == decimal(n as nat),
{
    let mut s = String::new();
    push_decimal(&mut s, n);
    proof { assert(Seq::<char>::empty() + decimal(n as nat) =~= decimal(n as nat)); }
    s
}

proof fn lemma_digits_value_push(s: Seq<char>, c: char)
    ensures
        digits_value(s.push(c)) == digits_value(s) * 10 + digit_value(c),
{
    assert(s.push(c).drop_last() =~= s);
}

/// Parses a port number as `u16::from_str` does.
pub fn parse_u16(s: &str) -> (r: Option<u16>)
    ensures
        r == parsed_u16(s@),
{
    let n = s.unicode_len();
    let mut start: usize = 0;
    if n > 0 && s.get_char(0) == '+' {
        start = 1;
    }
    let ghost digits = unsigned_part(s@);
    if start >= n {
        return None;
    }
    let mut value: u32 = 0;
    let mut i: usize = start;
    while i < n
        invariant
            n == s@.len(),
            start <= i <= n,
            start < n,
            digits == s@.subrange(start as int, n as int),
            digits == unsigned_part(s@),
            forall|j: int| 0 <= j < i - start ==> is_digit(#[trigger] digits[j]),
            value == digits_value(digits.subrange(0, i - start)),
            value <= u16::MAX,
        decreases n - i,
    {
        let c = s.get_char(i);
        if !('0' <= c && c <= '9') {
            proof {
                assert(digits[i - start] == c);
                assert(!is_digit(digits[i - start]));
                assert(!all_digits(digits));
            }
            return None;
        }
        let d = (c as u32) - ('0' as u32);
        proof {
            assert(digits.subrange(0, i - start + 1) =~= digits.subrange(0, i - start).push(c));
            lemma_digits_value_push(digits.subrange(0, i - start), c);
        }
        value = value * 10 + d;
        if value > 65535 {
            proof {
                lemma_digits_value_monotone(digits, i - start + 1);
                assert(digits_value(digits) > u16::MAX);
            }
            return None;
        }
        i += 1;
    }
    proof { assert(digits.subrange(0, n - start) =~= digits); }
    Some(value as u16)
}

proof fn lemma_digits_value_monotone(s: Seq<char>, k: int)
    requires
        0 <= k <= s.len(),
    ensures
        digits_value(s) >= digits_value(s.subrange(0, k)),
    decreases s.len() - k,
{
    if k < s.len() {
        lemma_digits_value_monotone(s, k + 1);
        assert(s.subrange(0, k + 1) =~= s.subrange(0, k).push(s[k]));
        lemma_digits_value_push(s.subrange(0, k), s[k]);
    } else {
        assert(s.subrange(0, k) =~= s);
    }
}

/// `s` with each occurrence of `secret`, found from left to right, masked:
/// each of its characters replaced by `mark`. The length is kept.
pub open spec fn masked_with(s: Seq<char>, secret: Seq<char>, mark: char) -> Seq<char>
    decreases s.len(),
{
    if secret.len() == 0 || s.len() == 0 {
        s
    } else if s.len() >= secret.len() && s.take(secret.len() as int) == secret {
        Seq::new(secret.len(), |_i: int| mark) + masked_with(s.skip(secret.len() as int), secret, mark)
    } else {
        seq![s[0]] + masked_with(s.skip(1), secret, mark)
    }
}

/// `s` with `secret` masked: each occurrence's characters replaced by `*`, or
/// by `#` when the secret holds a `*`; when it holds both, the whole text
/// becomes `***`. An empty secret leaves `s` as it is.
pub open spec fn masked_text(s: Seq<char>, secret: Seq<char>) -> Seq<char> {
    if secret.len() == 0 {
        s
    } else if !secret.contains('*') {
        masked_with(s, secret, '*')
    } else if !secret.contains('#') {
        masked_with(s, secret, '#')
    } else {
        "***"@
    }
}

/// Whether `secret` occurs in `s`.
pub open spec fn occurs_in(secret: Seq<char>, s: Seq<char>) -> bool {
    exists|p: int| 0 <= p && p + secret.len() <= s.len() && #[trigger] s.subrange(p, p + secret.len()) == secret
}

proof fn lemma_masked_with_pointwise(s: Seq<char>, secret: Seq<char>, mark: char)
    ensures
        masked_with(s, secret, mark).len() == s.len(),
        forall|j: int| 0 <= j < s.len() ==> #[trigger] masked_with(s, secret, mark)[j] == s[j]
            || masked_with(s, secret, mark)[j] == mark,
    decreases s.len(),
{
    let out = masked_with(s, secret, mark);
    let m = secret.len() as int;
    if secret.len() == 0 || s.len() == 0 {
    } else if s.len() >= secret.len() && s.take(m) == secret {
        let rest = s.skip(m);
        lemma_masked_with_pointwise(rest, secret, mark);
        assert forall|j: int| 0 <= j < s.len() implies #[trigger] out[j] == s[j] || out[j] == mark by {
            if j >= m {
                assert(out[j] == masked_with(rest, secret, mark)[j - m]);
                assert(rest[j - m] == s[j]);
            }
        }
    } else {
        let rest = s.skip(1);
        lemma_masked_with_pointwise(rest, secret, mark);
        assert forall|j: int| 0 <= j < s.len() implies #[trigger] out[j] == s[j] || out[j] == mark by {
            if j >= 1 {
                assert(out[j] == masked_with(rest, secret, mark)[j - 1]);
                assert(rest[j - 1] == s[j]);
            }
        }
    }
}

proof fn lemma_masked_with_hides(s: Seq<char>, secret: Seq<char>, mark: char)
    requires
        secret.len() > 0,
        !secret.contains(mark),
    ensures
        !occurs_in(secret, masked_with(s, secret, mark)),
    decreases s.len(),
{
    let out = masked_with(s, secret, mark);
    let m = secret.len() as int;
    lemma_masked_with_pointwise(s, secret, mark);
    if s.len() == 0 {
    } else if s.len() >= secret.len() && s.take(m) == secret {
        let rest = s.skip(m);
        lemma_masked_with_hides(rest, secret, mark);
        let r = masked_with(rest, secret, mark);
        assert forall|p: int| 0 <= p && p + m <= out.len() implies #[trigger] out.subrange(p, p + m) != secret by {
            if p < m {
                assert(out[p] == mark);
                assert(out.subrange(p, p + m)[0] == mark);
                if out.subrange(p, p + m) == secret {
                    assert(secret[0] == mark);
                    assert(secret.contains(mark));
                }
            } else {
                assert(out.subrange(p, p + m) =~= r.subrange(p - m, p - m + m));
            }
        }
    } else {
        let rest = s.skip(1);
        lemma_masked_with_hides(rest, secret, mark);
        let r = masked_with(rest, secret, mark);
        assert forall|p: int| 0 <= p && p + m <= out.len() implies #[trigger] out.subrange(p, p + m) != secret by {
            if p >= 1 {
                assert(out.subrange(p, p + m) =~= r.subrange(p - 1, p - 1 + m));
            } else if out.subrange(p, p + m) == secret {
                assert forall|j: int| 0 <= j < m implies s[j] == secret[j] by {
                    assert(out[j] == out.subrange(0, m)[j]);
                    if out[j] == mark {
                        assert(secret[j] == mark);
                        assert(secret.contains(mark));
                    }
                }
                assert(s.take(m) =~= secret);
            }
        }
    }
}

/// Masking leaves no occurrence of a non-empty secret in the text.
pub proof fn lemma_masked_hides_secret(s: Seq<char>, secret: Seq<char>)
    requires
        secret.len() > 0,
    ensures
        !occurs_in(secret, masked_text(s, secret)),
{
    if !secret.contains('*') {
        lemma_masked_with_hides(s, secret, '*');
    } else if !secret.contains('#') {
        lemma_masked_with_hides(s, secret, '#');
    } else {
        reveal_strlit("***");
        let t = masked_text(s, secret);
        assert(t == "***"@);
        let w = choose|i: int| 0 <= i < secret.len() && secret[i] == '#';
        assert forall|p: int| 0 <= p && p + secret.len() <= t.len() implies #[trigger] t.subrange(p, p + secret.len()) != secret by {
            if t.subrange(p, p + secret.len()) == secret {
                assert(t[p + w] == secret[w]);
            }
        }
    }
}

fn contains_char(s: &str, c: char) -> (b: bool)
    ensures
        b == s@.contains(c),
{
    let n = s.unicode_len();
    let mut i: usize = 0;
    while i < n
        invariant
            i <= n,
            n == s@.len(),
            forall|j: int| 0 <= j < i ==> s@[j] != c,
        decreases n - i,
    {
        if s.get_char(i) == c {
            assert(s@[i as int] == c);
            return true;
        }
        i += 1;
    }
    false
}

fn push_marks(out: &mut String, mark: &str, n: usize)
    requires
        old(out)@.len() + n <= usize::MAX,
        mark@.len() == 1,
    ensures
        final(out)@ == old(out)@ + Seq::new(n as nat, |_i: int| mark@[0]),
{
    let ghost start = out@;
    let mut k: usize = 0;
    while k < n
        invariant
            k <= n,
            mark@.len() == 1,
            out@ == start + Seq::new(k as nat, |_i: int| mark@[0]),
        decreases n - k,
    {
        out.append(mark);
        proof {
            assert(out@ =~= start + Seq::new((k + 1) as nat, |_i: int| mark@[0]));
        }
        k += 1;
    }
}

fn mask_with(text: &str, secret: &str, mark: &str) -> (r: String)
    requires
        secret@.len() > 0,
        mark@.len() == 1,
    ensures
        r@ == masked_with(text@, secret@, mark@[0]),
{
    let n = text.unicode_len();
    let m = secret.unicode_len();
    let ghost c = mark@[0];
    let mut out = String::new();
    let mut i: usize = 0;
    proof {
        assert(text@.skip(0) =~= text@);
        assert(out@ + masked_with(text@, secret@, c) =~= masked_with(text@, secret@, c));
    }
    while i < n
        invariant
            i <= n,
            n == text@.len(),
            m == secret@.len(),
            m > 0,
            mark@.len() == 1,
            c == mark@[0],
            out@.len() == i,
            masked_with(text@, secret@, c) == out@ + masked_with(text@.skip(i as int), secret@, c),
        decreases n - i,
    {
        let ghost rest = text@.skip(i as int);
        if n - i >= m && text.substring_char(i, i + m).to_owned() == secret.to_owned() {
            proof {
                assert(rest.take(m as int) =~= text@.subrange(i as int, i + m));
                assert(rest.skip(m as int) =~= text@.skip(i + m));
            }
            push_marks(&mut out, mark, m);
            proof {
                assert(out@.len() == i + m);
            }
            i += m;
        } else {
            proof {
                if n - i >= m {
                    assert(rest.take(m as int) =~= text@.subrange(i as int, i + m));
                }
                assert(rest.skip(1) =~= text@.skip(i + 1));
                assert(seq![rest[0]] =~= text@.subrange(i as int, i + 1));
            }
            out.append(text.substring_char(i, i + 1));
            i += 1;
        }
    }
    proof {
        assert(text@.skip(n as int) =~= Seq::<char>::empty());
        assert(out@ + Seq::<char>::empty() =~= out@);
    }
    out
}

/// `text` with `secret` masked (see `masked_text`): no occurrence of a
/// non-empty secret is left.
pub fn mask_secret(text: &str, secret: &str) -> (r: String)
    ensures
        r@ == masked_text(text@, secret@),
        secret@.len() > 0 ==> !occurs_in(secret@, r@),
{
    proof {
        if secret@.len() > 0 {
            lemma_masked_hides_secret(text@, secret@);
        }
    }
    if secret.unicode_len() == 0 {
        return text.to_owned();
    }
    if !contains_char(secret, '*') {
        proof { reveal_strlit("*"); }
        mask_with(text, secret, "*")
    } else if !contains_char(secret, '#') {
        proof { reveal_strlit("#"); }
        mask_with(text, secret, "#")
    } else {
        "***".to_owned()
    }
}

} // verus!
