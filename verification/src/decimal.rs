//! Decimal text for unsigned integers: formatting as `to_string` writes it,
//! and parsing as `str::parse::<u64>` reads it.

use vstd::prelude::*;

verus! {

/// The ASCII digit for `d` (which is below ten).
pub open spec fn digit_char(d: nat) -> char {
    (48 + d) as char
}

/// Whether `c` is an ASCII decimal digit.
pub open spec fn is_digit(c: char) -> bool {
    '0' <= c && c <= '9'
}

/// The value of the ASCII digit `c`.
pub open spec fn digit_value(c: char) -> nat {
    (c as int - 48) as nat
}

/// The shortest decimal text of `n`, without sign or leading zeros.
pub open spec fn decimal(n: nat) -> Seq<char>
    decreases n,
{
    if n < 10 {
        seq![digit_char(n)]
    } else {
        decimal(n / 10).push(digit_char(n % 10))
    }
}

/// Every character of `s` is an ASCII digit.
pub open spec fn all_digits(s: Seq<char>) -> bool {
    forall|i: int| 0 <= i < s.len() ==> is_digit(#[trigger] s[i])
}

/// The number that the digit string `s` denotes (the empty string denotes 0).
pub open spec fn digits_value(s: Seq<char>) -> nat
    decreases s.len(),
{
    if s.len() == 0 {
        0
    } else {
        digits_value(s.drop_last()) * 10 + digit_value(s.last())
    }
}

/// What remains of `s` once one leading `+` is dropped.
pub open spec fn unsigned_body(s: Seq<char>) -> Seq<char> {
    if s.len() > 0 && s[0] == '+' {
        s.drop_first()
    } else {
        s
    }
}

/// What `str::parse::<u64>` returns for `s`: an optional `+`, then one or more
/// ASCII digits whose value fits in a `u64`; anything else is refused.
pub open spec fn parsed_u64(s: Seq<char>) -> Option<u64> {
    let body = unsigned_body(s);
    if body.len() > 0 && all_digits(body) && digits_value(body) <= u64::MAX {
        Some(digits_value(body) as u64)
    } else {
        None
    }
}

/// Appends the decimal text of `n` to `s`.
pub fn push_decimal(s: &mut String, n: u128)
    ensures
        final(s)@ == old(s)@ + decimal(n as nat),
    decreases n,
{
    if n >= 10 {
        push_decimal(s, n / 10);
    }
    let d: u8 = (n % 10) as u8;
    let c: char = (48u8 + d) as char;
    assert(c == digit_char((n % 10) as nat));
    s.push(c);
}

/// The decimal text of `n`, as `n.to_string()` writes it.
pub fn decimal_string(n: u128) -> (s: String)
    ensures
        s@ == decimal(n as nat),
{
    let mut s = String::new();
    push_decimal(&mut s, n);
    s
}

proof fn lemma_prefix_value_le(s: Seq<char>, j: int, k: int)
    requires
        0 <= j <= k <= s.len(),
    ensures
        digits_value(s.take(j)) <= digits_value(s.take(k)),
    decreases k - j,
{
    if j < k {
        lemma_prefix_value_le(s, j, k - 1);
        assert(s.take(k).drop_last() == s.take(k - 1));
    }
}

/// Parses `s` as `str::parse::<u64>` does.
pub fn parse_u64(s: &str) -> (r: Option<u64>)
    ensures
        r == parsed_u64(s@),
{
    let v = crate::text::chars_of(s);
    let start: usize = if v.len() > 0 && v[0] == '+' { 1 } else { 0 };
    let ghost body = unsigned_body(s@);
    assert(body == v@.skip(start as int));
    if start >= v.len() {
        return None;
    }
    let mut acc: u64 = 0;
    let mut i: usize = start;
    while i < v.len()
        invariant
            v@ == s@,
            body == v@.skip(start as int),
            body == unsigned_body(s@),
            start <= i <= v.len(),
            acc == digits_value(body.take(i - start)),
            all_digits(body.take(i - start)),
        decreases v.len() - i,
    {
        let c = v[i];
        assert(body[i - start] == c);
        assert(body.take(i - start + 1).drop_last() == body.take(i - start));
        assert(body.take(i - start + 1).last() == c);
        if c < '0' || c > '9' {
            assert(!is_digit(body[i - start]));
            return None;
        }
        let d: u64 = (c as u32 - 48) as u64;
        assert(digit_value(c) == d);
        assert(digits_value(body.take(i - start + 1)) == acc * 10 + d);
        match acc.checked_mul(10) {
            Some(m) => match m.checked_add(d) {
                Some(a) => {
                    acc = a;
                },
                None => {
                    proof {
                        lemma_prefix_value_le(body, i - start + 1, body.len() as int);
                        assert(body.take(body.len() as int) == body);
                    }
                    return None;
                },
            },
            None => {
                proof {
                    lemma_prefix_value_le(body, i - start + 1, body.len() as int);
                    assert(body.take(body.len() as int) == body);
                }
                return None;
            },
        }
        i += 1;
    }
    assert(body.take(i - start) == body);
    Some(acc)
}

pub proof fn lemma_decimal_digits(n: nat)
    ensures
        decimal(n).len() > 0,
        all_digits(decimal(n)),
        digits_value(decimal(n)) == n,
    decreases n,
{
    assert(digit_value(digit_char(n % 10)) == n % 10);
    assert(is_digit(digit_char(n % 10)));
    if n >= 10 {
        lemma_decimal_digits(n / 10);
        assert(decimal(n).drop_last() == decimal(n / 10));
        assert(decimal(n).last() == digit_char(n % 10));
        assert(digits_value(decimal(n)) == digits_value(decimal(n / 10)) * 10 + n % 10);
        assert(n / 10 * 10 + n % 10 == n);
    } else {
        assert(decimal(n).drop_last().len() == 0);
        assert(digits_value(decimal(n).drop_last()) == 0);
        assert(decimal(n).last() == digit_char(n));
    }
}

/// Reading back the decimal text of any `u64` gives that number again.
pub proof fn law_parse_reads_decimal(n: u64)
    ensures
        parsed_u64(decimal(n as nat)) == Some(n),
{
    lemma_decimal_digits(n as nat);
    let d = decimal(n as nat);
    assert(is_digit(d[0]));
    assert(unsigned_body(d) == d);
}

/// A parse succeeds exactly on an optional `+` followed by one or more ASCII
/// digits denoting at most `u64::MAX`, and then gives that number: a sign
/// other than one leading `+`, any other character, an empty digit string or
/// a value past `u64::MAX` is refused.
pub proof fn law_parse_accepts_digits_only(s: Seq<char>)
    ensures
        parsed_u64(s) is Some ==> {
            let body = if s.len() > 0 && s[0] == '+' { s.drop_first() } else { s };
            &&& body.len() > 0
            &&& forall|i: int| 0 <= i < body.len() ==> '0' <= #[trigger] body[i] && body[i] <= '9'
            &&& parsed_u64(s) == Some(digits_value(body) as u64)
            &&& digits_value(body) <= u64::MAX
        },
        (exists|i: int| 1 <= i < s.len() && !('0' <= #[trigger] s[i] && s[i] <= '9')) ==> parsed_u64(s) is None,
        (s.len() > 0 && s[0] != '+' && !('0' <= s[0] && s[0] <= '9')) ==> parsed_u64(s) is None,
        s.len() == 0 ==> parsed_u64(s) is None,
{
    let body = unsigned_body(s);
    if exists|i: int| 1 <= i < s.len() && !('0' <= #[trigger] s[i] && s[i] <= '9') {
        let i = choose|i: int| 1 <= i < s.len() && !('0' <= #[trigger] s[i] && s[i] <= '9');
        if s[0] == '+' {
            assert(body[i - 1] == s[i]);
            assert(!is_digit(body[i - 1]));
        } else {
            assert(body[i] == s[i]);
            assert(!is_digit(body[i]));
        }
    }
    if s.len() > 0 && s[0] != '+' && !('0' <= s[0] && s[0] <= '9') {
        assert(!is_digit(body[0]));
    }
}

} // verus!
