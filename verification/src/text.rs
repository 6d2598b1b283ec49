//! Small text routines the rest of the library states its contracts with:
//! decimal integers (parsing as `str::parse` does, and rendering), string
//! comparison, and building strings.

use vstd::prelude::*;

verus! {

/// Whether `c` is an ASCII decimal digit.
pub open spec fn is_digit(c: char) -> bool {
    '0' <= c && c <= '9'
}

/// The value of an ASCII decimal digit.
pub open spec fn digit_value(c: char) -> nat {
    (c as int - '0' as int) as nat
}

/// Every character of `s` is an ASCII decimal digit.
pub open spec fn all_digits(s: Seq<char>) -> bool {
    forall|i: int| 0 <= i < s.len() ==> #[trigger] is_digit(s[i])
}

/// The number a string of decimal digits denotes (most significant first).
pub open spec fn digits_value(s: Seq<char>) -> nat
    decreases s.len(),
{
    if s.len() == 0 {
        0
    } else {
        digits_value(s.drop_last()) * 10 + digit_value(s.last())
    }
}

/// What `s.parse::<u64>()` gives: an optional `+`, then one or more ASCII
/// digits denoting a value that fits in `u64`.
pub open spec fn parse_u64(s: Seq<char>) -> Option<u64> {
    let body = if s.len() > 0 && s[0] == '+' {
        s.drop_first()
    } else {
        s
    };
    if body.len() > 0 && all_digits(body) && digits_value(body) <= u64::MAX {
        Some(digits_value(body) as u64)
    } else {
        None
    }
}

/// What `s.parse::<i64>()` gives: an optional `+` or `-`, then one or more
/// ASCII digits denoting a value that fits in `i64` once signed.
pub open spec fn parse_i64(s: Seq<char>) -> Option<i64> {
    let negative = s.len() > 0 && s[0] == '-';
    let body = if s.len() > 0 && (s[0] == '+' || s[0] == '-') {
        s.drop_first()
    } else {
        s
    };
    if body.len() > 0 && all_digits(body) {
        let v: int = if negative {
            -digits_value(body)
        } else {
            digits_value(body) as int
        };
        if i64::MIN <= v <= i64::MAX {
            Some(v as i64)
        } else {
            None
        }
    } else {
        None
    }
}

proof fn lemma_digits_value_prefix(s: Seq<char>, i: int)
    requires
        0 <= i < s.len(),
        is_digit(s[i]),
    ensures
        digits_value(s.take(i + 1)) == digits_value(s.take(i)) * 10 + digit_value(s[i]),
{
    assert(s.take(i + 1).drop_last() =~= s.take(i));
}

proof fn lemma_digits_value_grows(s: Seq<char>, i: int)
    requires
        0 <= i <= s.len(),
        all_digits(s),
    ensures
        digits_value(s.take(i)) <= digits_value(s),
    decreases s.len() - i,
{
    if i < s.len() {
        lemma_digits_value_prefix(s, i);
        lemma_digits_value_grows(s, i + 1);
    } else {
        assert(s.take(i) =~= s);
    }
}

/// The magnitude of the digits in `s` from `start` on, if they are all
/// digits, there is at least one, and the value fits in `u64`.
fn parse_digits(s: &str, start: usize) -> (value: Option<u64>)
    requires
        start <= s@.len(),
    ensures
        ({
            let body = s@.skip(start as int);
            match value {
                Some(v) => body.len() > 0 && all_digits(body) && v == digits_value(body),
                None => !(body.len() > 0 && all_digits(body) && digits_value(body) <= u64::MAX),
            }
        }),
{
    let n = s.unicode_len();
    let ghost body = s@.skip(start as int);
    if start >= n {
        return None;
    }
    let mut acc: u64 = 0;
    let mut i: usize = start;
    assert(body.take(0) =~= Seq::<char>::empty());
    while i < n
        invariant
            n == s@.len(),
            start <= i <= n,
            body == s@.skip(start as int),
            forall|j: int| 0 <= j < i - start ==> #[trigger] is_digit(body[j]),
            acc == digits_value(body.take(i - start)),
        decreases n - i,
    {
        let c = s.get_char(i);
        assert(c == body[i - start]);
        if !('0' <= c && c <= '9') {
            assert(!is_digit(body[i - start]));
            return None;
        }
        let d = (c as u32 - '0' as u32) as u64;
        proof {
            lemma_digits_value_prefix(body, i - start);
        }
        if acc > (u64::MAX - d) / 10 {
            proof {
                assert(acc * 10 + d > u64::MAX) by (nonlinear_arith)
                    requires
                        acc > (u64::MAX - d) / 10,
                        d <= 9,
                ;
                if all_digits(body) {
                    lemma_digits_value_grows(body, i - start + 1);
                }
            }
            return None;
        }
        assert(acc * 10 + d <= u64::MAX) by (nonlinear_arith)
            requires
                acc <= (u64::MAX - d) / 10,
                d <= 9,
        ;
        acc = acc * 10 + d;
        i += 1;
    }
    assert(body.take(n - start) =~= body);
    Some(acc)
}

/// Parses a `u64` exactly as `str::parse::<u64>` does.
pub fn parse_u64_str(s: &str) -> (value: Option<u64>)
    ensures
        value == parse_u64(s@),
{
    let n = s.unicode_len();
    let start: usize = if n > 0 && s.get_char(0) == '+' {
        1
    } else {
        0
    };
    proof {
        if start == 1 {
            assert(s@.skip(1) =~= s@.drop_first());
        } else {
            assert(s@.skip(0) =~= s@);
        }
    }
    parse_digits(s, start)
}

/// Parses an `i64` exactly as `str::parse::<i64>` does.
pub fn parse_i64_str(s: &str) -> (value: Option<i64>)
    ensures
        value == parse_i64(s@),
{
    let n = s.unicode_len();
    let first = if n > 0 {
        Some(s.get_char(0))
    } else {
        None
    };
    let negative = first == Some('-');
    let start: usize = if first == Some('+') || first == Some('-') {
        1
    } else {
        0
    };
    proof {
        if start == 1 {
            assert(s@.skip(1) =~= s@.drop_first());
        } else {
            assert(s@.skip(0) =~= s@);
        }
    }
    match parse_digits(s, start) {
        None => None,
        Some(magnitude) => {
            if negative {
                if magnitude <= 9223372036854775807u64 {
                    Some(0i64 - magnitude as i64)
                } else if magnitude == 9223372036854775808u64 {
                    Some(i64::MIN)
                } else {
                    None
                }
            } else {
                if magnitude <= 9223372036854775807u64 {
                    Some(magnitude as i64)
                } else {
                    None
                }
            }
        },
    }
}

/// The ASCII decimal digit for `d < 10`.
pub open spec fn digit_char(d: nat) -> char {
    ((48 + d) as u8) as char
}

/// The decimal rendering of `n`, without leading zeros.
pub open spec fn decimal(n: nat) -> Seq<char>
    decreases n,
{
    if n < 10 {
        seq![digit_char(n)]
    } else {
        decimal(n / 10).push(digit_char(n % 10))
    }
}

/// `s` preceded by enough `'0'`s to make it at least `width` long.
pub open spec fn zero_padded(s: Seq<char>, width: nat) -> Seq<char> {
    if s.len() >= width {
        s
    } else {
        Seq::new((width - s.len()) as nat, |_i: int| '0') + s
    }
}

/// The digits value of `s` does not change when zeros are put in front.
pub proof fn lemma_leading_zeros(z: nat, s: Seq<char>)
    ensures
        digits_value(Seq::new(z, |_i: int| '0') + s) == digits_value(s),
    decreases s.len(), z,
{
    let zeros = Seq::new(z, |_i: int| '0');
    if s.len() == 0 {
        assert(zeros + s =~= zeros);
        if z > 0 {
            let fewer = Seq::new((z - 1) as nat, |_i: int| '0');
            assert(zeros.drop_last() =~= fewer + Seq::<char>::empty());
            lemma_leading_zeros((z - 1) as nat, Seq::<char>::empty());
            assert(digit_value(zeros.last()) == 0);
        }
    } else {
        assert((zeros + s).drop_last() =~= zeros + s.drop_last());
        assert((zeros + s).last() == s.last());
        lemma_leading_zeros(z, s.drop_last());
    }
}

/// `String::push`: appends one character.
#[verifier::external_body]
pub(crate) fn push_char(s: &mut String, c: char)
    ensures
        final(s)@ == old(s)@.push(c),
{
    s.push(c);
}

/// Appends the decimal rendering of `n`.
pub fn push_decimal(out: &mut String, n: u64)
    ensures
        final(out)@ == old(out)@ + decimal(n as nat),
    decreases n,
{
    if n >= 10 {
        push_decimal(out, n / 10);
    }
    let d = (n % 10) as u8;
    push_char(out, (48u8 + d) as char);
    proof {
        if n < 10 {
            assert(old(out)@.push(digit_char(n as nat)) =~= old(out)@ + seq![digit_char(n as nat)]);
        } else {
            assert(decimal(n as nat) == decimal((n / 10) as nat).push(digit_char((n % 10) as nat)));
        }
    }
}

proof fn lemma_decimal_nonempty(n: nat)
    ensures
        decimal(n).len() >= 1,
    decreases n,
{
    if n >= 10 {
        lemma_decimal_nonempty(n / 10);
    }
}

/// Appends the decimal rendering of `n`, zero-padded to at least `width`
/// digits (as `format!("{n:0width$}")` renders it).
pub fn push_decimal_padded(out: &mut String, n: u64, width: usize)
    ensures
        final(out)@ == old(out)@ + zero_padded(decimal(n as nat), width as nat),
{
    let mut digits = String::new();
    push_decimal(&mut digits, n);
    let len = digits.as_str().unicode_len();
    let ghost start = out@;
    let mut k: usize = len;
    while k < width
        invariant
            len == decimal(n as nat).len(),
            len <= k,
            k <= width || k == len,
            out@ == start + Seq::new((k - len) as nat, |_i: int| '0'),
        decreases width - k,
    {
        push_char(out, '0');
        k += 1;
        assert(out@ =~= start + Seq::new((k - len) as nat, |_i: int| '0'));
    }
    out.append(digits.as_str());
    proof {
        if len >= width {
            assert(out@ =~= start + decimal(n as nat));
        } else {
            assert(out@ =~= start + zero_padded(decimal(n as nat), width as nat));
        }
    }
}

/// Whether two strings are equal.
pub fn str_eq(a: &str, b: &str) -> (equal: bool)
    ensures
        equal == (a@ == b@),
{
    let n = a.unicode_len();
    if n != b.unicode_len() {
        return false;
    }
    let mut i: usize = 0;
    while i < n
        invariant
            n == a@.len(),
            n == b@.len(),
            i <= n,
            forall|j: int| 0 <= j < i ==> a@[j] == b@[j],
        decreases n - i,
    {
        if a.get_char(i) != b.get_char(i) {
            return false;
        }
        i += 1;
    }
    assert(a@ =~= b@);
    true
}

/// The ASCII lowercase of a character; other characters are unchanged.
pub open spec fn ascii_lower(c: char) -> char {
    if 'A' <= c && c <= 'Z' {
        ((c as u32) + 32) as char
    } else {
        c
    }
}

/// Whether two strings are equal up to ASCII case (as
/// `str::eq_ignore_ascii_case` compares them).
pub open spec fn eq_ignore_ascii_case(a: Seq<char>, b: Seq<char>) -> bool {
    a.len() == b.len() && forall|i: int| 0 <= i < a.len() ==> #[trigger] ascii_lower(a[i])
        == ascii_lower(b[i])
}

fn lower_char(c: char) -> (l: char)
    ensures
        l == ascii_lower(c),
{
    if 'A' <= c && c <= 'Z' {
        ((c as u8) + 32) as char
    } else {
        c
    }
}

/// Compares two strings up to ASCII case.
pub fn str_eq_ignore_ascii_case(a: &str, b: &str) -> (equal: bool)
    ensures
        equal == eq_ignore_ascii_case(a@, b@),
{
    let n = a.unicode_len();
    if n != b.unicode_len() {
        return false;
    }
    let mut i: usize = 0;
    while i < n
        invariant
            n == a@.len(),
            n == b@.len(),
            i <= n,
            forall|j: int| 0 <= j < i ==> #[trigger] ascii_lower(a@[j]) == ascii_lower(b@[j]),
        decreases n - i,
    {
        if lower_char(a.get_char(i)) != lower_char(b.get_char(i)) {
            return false;
        }
        i += 1;
    }
    true
}

/// Two strings are equal up to ASCII case when they are equal, and the
/// relation is symmetric.
pub proof fn law_eq_ignore_ascii_case_reflexive_symmetric(a: Seq<char>, b: Seq<char>)
    ensures
        eq_ignore_ascii_case(a, a),
        eq_ignore_ascii_case(a, b) == eq_ignore_ascii_case(b, a),
{
}

/// Upper- and lower-case ASCII letters match each other, and no other pair
/// of distinct characters does.
pub proof fn law_ascii_lower_matches_case_pairs(c: char, d: char)
    ensures
        ('A' <= c && c <= 'Z') ==> ascii_lower(c) == ((c as u32) + 32) as char,
        (ascii_lower(c) == ascii_lower(d) && c != d) ==> (('A' <= c && c <= 'Z' && d == ((c as u32)
            + 32) as char) || ('A' <= d && d <= 'Z' && c == ((d as u32) + 32) as char)),
{
}

} // verus!
