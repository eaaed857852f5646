//! Character-level helpers: comparison, case conversion and the parsing and
//! printing of unsigned numbers.

use vstd::prelude::*;
use vstd::string::*;

verus! {

/// Appends one character to a string.
///
/// Trusted: `String::push` adds the character at the end of the string.
#[verifier::external_body]
pub(crate) fn push_char(s: &mut String, c: char)
    ensures
        final(s)@ == old(s)@.push(c),
{
    s.push(c);
}

/// Whether two string slices hold the same characters.
pub fn text_eq(a: &str, b: &str) -> (r: bool)
    ensures
        r == (a@ == b@),
{
    let n = a.unicode_len();
    let m = b.unicode_len();
    if n != m {
        return false;
    }
    let mut i: usize = 0;
    while i < n
        invariant
            n == a@.len(),
            m == b@.len(),
            n == m,
            i <= n,
            forall|j: int| 0 <= j < i ==> a@[j] == b@[j],
        decreases n - i,
    {
        if a.get_char(i) != b.get_char(i) {
            return false;
        }
        i = i + 1;
    }
    assert(a@ =~= b@);
    true
}

/// The value of `c` as a digit in base `radix` (at most 36), as
/// `char::to_digit` reads it.
pub open spec fn digit_value(c: char, radix: int) -> Option<int> {
    let v: int = if '0' <= c <= '9' {
        c as int - '0' as int
    } else if 'a' <= c <= 'z' {
        c as int - 'a' as int + 10
    } else if 'A' <= c <= 'Z' {
        c as int - 'A' as int + 10
    } else {
        radix
    };
    if v < radix {
        Some(v)
    } else {
        None
    }
}

/// Every character of `s` is a digit in base `radix`.
pub open spec fn all_digits(s: Seq<char>, radix: int) -> bool {
    forall|i: int| 0 <= i < s.len() ==> (#[trigger] digit_value(s[i], radix)) is Some
}

/// The number written by the digits `s` in base `radix`, most significant
/// digit first.
pub open spec fn digits_value(s: Seq<char>, radix: int) -> int
    decreases s.len(),
{
    if s.len() == 0 {
        0
    } else {
        digits_value(s.drop_last(), radix) * radix + digit_value(s.last(), radix)->0
    }
}

/// What the standard library's unsigned integer parsing (`from_str_radix`)
/// gives for `s`: an optional leading `+`, then at least one digit, all of
/// them digits of `radix`, and a value no greater than `max`.
pub open spec fn unsigned_value(s: Seq<char>, radix: int, max: int) -> Option<int> {
    let digits = if s.len() > 0 && s[0] == '+' {
        s.drop_first()
    } else {
        s
    };
    if digits.len() > 0 && all_digits(digits, radix) && digits_value(digits, radix) <= max {
        Some(digits_value(digits, radix))
    } else {
        None
    }
}

proof fn lemma_digits_value_nonneg(s: Seq<char>, radix: int)
    requires
        2 <= radix,
        all_digits(s, radix),
    ensures
        digits_value(s, radix) >= 0,
    decreases s.len(),
{
    if s.len() > 0 {
        assert(digit_value(s[s.len() - 1], radix) is Some);
        assert(all_digits(s.drop_last(), radix)) by {
            assert forall|i: int| 0 <= i < s.drop_last().len() implies (#[trigger] digit_value(
                s.drop_last()[i],
                radix,
            )) is Some by {
                assert(s.drop_last()[i] == s[i]);
            }
        }
        lemma_digits_value_nonneg(s.drop_last(), radix);
        assert(digits_value(s.drop_last(), radix) * radix >= 0) by (nonlinear_arith)
            requires
                digits_value(s.drop_last(), radix) >= 0,
                radix >= 2,
        ;
    }
}

/// Once the value of a prefix of digits exceeds `max`, so does the value of
/// every longer run of digits.
proof fn lemma_digits_value_grows(s: Seq<char>, k: int, radix: int)
    requires
        2 <= radix,
        0 <= k <= s.len(),
        all_digits(s, radix),
    ensures
        digits_value(s.take(k), radix) <= digits_value(s, radix),
    decreases s.len() - k,
{
    if k < s.len() {
        lemma_digits_value_grows(s, k + 1, radix);
        let p = s.take(k + 1);
        assert(p.drop_last() =~= s.take(k));
        assert(p.last() == s[k]);
        assert(digit_value(s[k], radix) is Some);
        assert(all_digits(s.take(k), radix)) by {
            assert forall|i: int| 0 <= i < s.take(k).len() implies (#[trigger] digit_value(
                s.take(k)[i],
                radix,
            )) is Some by {
                assert(s.take(k)[i] == s[i]);
            }
        }
        lemma_digits_value_nonneg(s.take(k), radix);
        let a = digits_value(s.take(k), radix);
        assert(a <= a * radix) by (nonlinear_arith)
            requires
                a >= 0,
                radix >= 2,
        ;
    } else {
        assert(s.take(k) =~= s);
    }
}

/// The value of `c` as a digit in base `radix`.
fn to_digit(c: char, radix: u64) -> (r: Option<u64>)
    requires
        2 <= radix <= 36,
    ensures
        r matches Some(v) ==> digit_value(c, radix as int) == Some(v as int),
        r is None ==> digit_value(c, radix as int) is None,
{
    let v: u64 = if '0' <= c && c <= '9' {
        (c as u64) - ('0' as u64)
    } else if 'a' <= c && c <= 'z' {
        (c as u64) - ('a' as u64) + 10
    } else if 'A' <= c && c <= 'Z' {
        (c as u64) - ('A' as u64) + 10
    } else {
        radix
    };
    if v < radix {
        Some(v)
    } else {
        None
    }
}

/// Parses an unsigned number in base `radix` no greater than `max`, as the
/// standard library's `from_str_radix` for unsigned types does.
pub fn parse_unsigned(s: &str, radix: u64, max: u64) -> (r: Option<u64>)
    requires
        2 <= radix <= 36,
    ensures
        r matches Some(v) ==> unsigned_value(s@, radix as int, max as int) == Some(v as int),
        r is None ==> unsigned_value(s@, radix as int, max as int) is None,
{
    let n = s.unicode_len();
    let start: usize = if n > 0 && s.get_char(0) == '+' {
        1
    } else {
        0
    };
    let ghost digits = if s@.len() > 0 && s@[0] == '+' {
        s@.drop_first()
    } else {
        s@
    };
    assert(digits =~= s@.subrange(start as int, n as int));
    if start >= n {
        return None;
    }
    let mut acc: u64 = 0;
    let mut i: usize = start;
    while i < n
        invariant
            n == s@.len(),
            start <= i <= n,
            start < n,
            2 <= radix <= 36,
            digits =~= s@.subrange(start as int, n as int),
            digits == (if s@.len() > 0 && s@[0] == '+' {
                s@.drop_first()
            } else {
                s@
            }),
            all_digits(digits.take(i - start), radix as int),
            acc as int == digits_value(digits.take(i - start), radix as int),
            acc <= max,
        decreases n - i,
    {
        let ghost k: int = i - start;
        let c = s.get_char(i);
        assert(c == digits[k]);
        match to_digit(c, radix) {
            None => {
                assert(digit_value(digits[k], radix as int) is None);
                assert(!all_digits(digits, radix as int));
                return None;
            },
            Some(d) => {
                let ghost next = digits.take(k + 1);
                assert(next.drop_last() =~= digits.take(k));
                assert(next.last() == c);
                assert(digits_value(next, radix as int) == acc * radix + d);
                assert(all_digits(next, radix as int)) by {
                    assert forall|j: int| 0 <= j < next.len() implies (#[trigger] digit_value(
                        next[j],
                        radix as int,
                    )) is Some by {
                        if j < k {
                            assert(next[j] == digits.take(k)[j]);
                        }
                    }
                }
                if d > max {
                    proof {
                        if all_digits(digits, radix as int) {
                            lemma_digits_value_grows(digits, k + 1, radix as int);
                            lemma_digits_value_nonneg(digits.take(k), radix as int);
                            let a = digits_value(digits.take(k), radix as int);
                            assert(a * radix >= 0) by (nonlinear_arith)
                                requires
                                    a >= 0,
                                    radix >= 2,
                            ;
                        }
                    }
                    return None;
                }
                let limit = (max - d) / radix;
                if acc > limit {
                    assert(acc * radix + d > max) by (nonlinear_arith)
                        requires
                            acc > limit,
                            limit as int == (max as int - d as int) / (radix as int),
                            radix >= 2,
                            d <= max,
                    ;
                    proof {
                        if all_digits(digits, radix as int) {
                            lemma_digits_value_grows(digits, k + 1, radix as int);
                        }
                    }
                    return None;
                }
                assert(acc * radix + d <= max) by (nonlinear_arith)
                    requires
                        acc <= limit,
                        limit as int == (max as int - d as int) / (radix as int),
                        radix >= 2,
                        d <= max,
                ;
                acc = acc * radix + d;
            },
        }
        i = i + 1;
    }
    assert(digits.take(n - start) =~= digits);
    Some(acc)
}

/// The decimal digit character for `d` (below ten).
pub open spec fn digit_char(d: int) -> char {
    (d + 48) as char
}

/// The decimal representation of `n`, without leading zeros.
pub open spec fn decimal_text(n: nat) -> Seq<char>
    decreases n,
{
    if n < 10 {
        seq![digit_char(n as int)]
    } else {
        decimal_text(n / 10).push(digit_char((n % 10) as int))
    }
}

/// Writes `n` in decimal, as `format!("{}", n)` does.
pub fn decimal_string(n: u64) -> (r: String)
    ensures
        r@ == decimal_text(n as nat),
    decreases n,
{
    let d = (n % 10) as u8;
    let c = (d + 48) as char;
    assert(c == digit_char((n % 10) as int));
    if n < 10 {
        let mut s = String::new();
        push_char(&mut s, c);
        assert(s@ =~= seq![c]);
        s
    } else {
        let mut s = decimal_string(n / 10);
        push_char(&mut s, c);
        s
    }
}

/// The character that writes the digit `d` (below 36): `0` to `9`, then the
/// lower case letters `a` to `z`.
pub open spec fn radix_digit(d: nat) -> char {
    if d < 10 {
        (d + 48) as char
    } else {
        (d + 87) as char
    }
}

/// `n` written in base `radix`, most significant digit first, without
/// leading zeros (`0` is written `0`).
pub open spec fn radix_text(n: nat, radix: nat) -> Seq<char>
    decreases n,
{
    if radix < 2 || n < radix {
        seq![radix_digit(n)]
    } else {
        proof {
            assert(n / radix < n) by (nonlinear_arith)
                requires
                    radix >= 2,
                    n >= radix,
            ;
        }
        radix_text(n / radix, radix).push(radix_digit(n % radix))
    }
}

proof fn lemma_radix_digit(d: nat, radix: nat)
    requires
        d < radix <= 36,
    ensures
        digit_value(radix_digit(d), radix as int) == Some(d as int),
        radix_digit(d) != '+',
{
}

/// A number written in a base is read back as itself: parsing the digits of
/// `n` in base `radix` gives `n`, whatever greater bound the number is
/// checked against.
pub proof fn lemma_written_number_reads_back(n: nat, radix: nat, max: int)
    requires
        2 <= radix <= 36,
        n <= max,
    ensures
        unsigned_value(radix_text(n, radix), radix as int, max) == Some(n as int),
{
    lemma_radix_text_value(n, radix);
    let t = radix_text(n, radix);
    assert(t[0] != '+') by {
        lemma_radix_text_first(n, radix);
    }
}

proof fn lemma_radix_text_first(n: nat, radix: nat)
    requires
        2 <= radix <= 36,
    ensures
        radix_text(n, radix).len() > 0,
        radix_text(n, radix)[0] != '+',
    decreases n,
{
    if n < radix {
        lemma_radix_digit(n, radix);
    } else {
        assert(n / radix < n) by (nonlinear_arith)
            requires
                radix >= 2,
                n >= radix,
        ;
        lemma_radix_text_first(n / radix, radix);
    }
}

proof fn lemma_radix_text_value(n: nat, radix: nat)
    requires
        2 <= radix <= 36,
    ensures
        radix_text(n, radix).len() > 0,
        all_digits(radix_text(n, radix), radix as int),
        digits_value(radix_text(n, radix), radix as int) == n,
    decreases n,
{
    let t = radix_text(n, radix);
    if n < radix {
        lemma_radix_digit(n, radix);
        assert(t.drop_last() =~= Seq::<char>::empty());
        assert(digits_value(t.drop_last(), radix as int) == 0);
    } else {
        let q = n / radix;
        let r = n % radix;
        assert(q < n) by (nonlinear_arith)
            requires
                q == n / radix,
                radix >= 2,
                n >= radix,
        ;
        lemma_radix_text_value(q, radix);
        lemma_radix_digit(r, radix);
        let p = radix_text(q, radix);
        assert(t.drop_last() =~= p);
        assert(t.last() == radix_digit(r));
        assert(all_digits(t, radix as int)) by {
            assert forall|i: int| 0 <= i < t.len() implies (#[trigger] digit_value(t[i], radix as int))
                is Some by {
                if i < p.len() {
                    assert(t[i] == p[i]);
                }
            }
        }
        assert(q * radix + r == n) by (nonlinear_arith)
            requires
                q == n / radix,
                r == n % radix,
                radix > 0,
        ;
    }
}

/// The decimal text of `n` is `n` written in base ten.
pub proof fn lemma_decimal_text_is_base_ten(n: nat)
    ensures
        decimal_text(n) == radix_text(n, 10),
    decreases n,
{
    if n >= 10 {
        lemma_decimal_text_is_base_ten(n / 10);
    }
}

/// A decimal number is read back as itself: the decimal text of `n` parses,
/// in base ten, to `n`.
pub proof fn lemma_decimal_text_reads_back(n: nat, max: int)
    requires
        n <= max,
    ensures
        unsigned_value(decimal_text(n), 10, max) == Some(n as int),
{
    lemma_decimal_text_is_base_ten(n);
    lemma_written_number_reads_back(n, 10, max);
}

/// A run of decimal digits reads, in base ten, as the number it writes, as
/// long as that number is within the bound: each digit counts ten times the
/// one after it.
pub proof fn lemma_decimal_digits_read(s: Seq<char>, max: int)
    requires
        s.len() > 0,
        forall|i: int| 0 <= i < s.len() ==> '0' <= #[trigger] s[i] <= '9',
        digits_value(s, 10) <= max,
    ensures
        unsigned_value(s, 10, max) == Some(digits_value(s, 10)),
        s.len() > 1 ==> digits_value(s, 10) == digits_value(s.drop_last(), 10) * 10 + (s.last() as int - '0' as int),
{
    assert(s[0] != '+');
    assert(all_digits(s, 10)) by {
        assert forall|i: int| 0 <= i < s.len() implies (#[trigger] digit_value(s[i], 10)) is Some by {
            assert('0' <= s[i] <= '9');
        }
    }
}

/// `c` in ASCII lower case: letters `A` to `Z` become `a` to `z`, every other
/// character stays as it is.
pub open spec fn ascii_lower(c: char) -> char {
    if 'A' <= c <= 'Z' {
        (c as int + 32) as char
    } else {
        c
    }
}

/// `c` in ASCII upper case: letters `a` to `z` become `A` to `Z`, every other
/// character stays as it is.
pub open spec fn ascii_upper(c: char) -> char {
    if 'a' <= c <= 'z' {
        (c as int - 32) as char
    } else {
        c
    }
}

/// `char::make_ascii_lowercase` on one character.
pub fn to_ascii_lower(c: char) -> (r: char)
    ensures
        r == ascii_lower(c),
{
    if 'A' <= c && c <= 'Z' {
        ((c as u8) + 32) as char
    } else {
        c
    }
}

/// Whether the Unicode property `Uppercase` holds of `c`, as
/// `char::is_uppercase` reports it.
pub uninterp spec fn char_uppercase(c: char) -> bool;

/// Trusted: `char::is_uppercase`. Its value is named `char_uppercase`; of an
/// ASCII character it holds exactly for `A` to `Z`.
#[verifier::external_body]
pub(crate) fn is_uppercase(c: char) -> (r: bool)
    ensures
        r == char_uppercase(c),
        (c as u32) < 128 ==> (r <==> ('A' <= c <= 'Z')),
{
    c.is_uppercase()
}

/// What `format!("{:?}", s)` prints for a string slice `s`: the text
/// between double quotes, with characters escaped as `char::escape_debug`
/// does.
pub uninterp spec fn debug_text(s: Seq<char>) -> Seq<char>;

/// Printable ASCII that the `Debug` form of a string leaves unescaped.
pub open spec fn is_plain_char(c: char) -> bool {
    ' ' <= c <= '~' && c != '"' && c != '\\' && c != '\''
}

/// Trusted: the `Debug` form of a string slice (`format!("{:?}", s)`). The
/// result is named `debug_text`; a string of plain printable ASCII is printed
/// between double quotes, unchanged.
#[verifier::external_body]
pub(crate) fn debug_string(s: &str) -> (r: String)
    ensures
        r@ == debug_text(s@),
        (forall|i: int| 0 <= i < s@.len() ==> #[trigger] is_plain_char(s@[i])) ==> r@ == seq!['"']
            + s@ + seq!['"'],
{
    format!("{:?}", s)
}

} // verus!
