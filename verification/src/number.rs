//! Numbers as text: decimal ids and hexadecimal salts.

use vstd::prelude::*;
use vstd::string::*;

verus! {

/// Why a text is not a number.
#[derive(Debug, Clone, Copy, PartialEq, Eq, Structural)]
pub enum IntError {
    /// The text is empty.
    Empty,
    /// A character stands where a digit should.
    InvalidDigit,
    /// The number does not fit.
    PosOverflow,
}

/// The value of the decimal digits `s`, read from the left, or the first thing
/// that is wrong with them.
pub open spec fn digits_value(s: Seq<char>) -> Result<nat, IntError>
    decreases s.len(),
{
    if s.len() == 0 {
        Ok(0)
    } else {
        match digits_value(s.drop_last()) {
            Err(e) => Err(e),
            Ok(v) => if !('0' <= s.last() <= '9') {
                Err(IntError::InvalidDigit)
            } else {
                let n = 10 * v + (s.last() as nat - '0' as nat) as nat;
                if n > usize::MAX {
                    Err(IntError::PosOverflow)
                } else {
                    Ok(n)
                }
            },
        }
    }
}

/// The number that `s` writes: decimal digits, perhaps with a plus sign in front.
pub open spec fn number_value(s: Seq<char>) -> Result<nat, IntError> {
    if s.len() == 0 {
        Err(IntError::Empty)
    } else if s[0] != '+' {
        digits_value(s)
    } else if s.len() == 1 {
        Err(IntError::InvalidDigit)
    } else {
        digits_value(s.drop_first())
    }
}

/// The digit for `d`, of sixteen.
pub open spec fn digit(d: nat) -> char {
    if d < 10 {
        ('0' as nat + d) as char
    } else {
        ('A' as nat + d - 10) as char
    }
}

/// `n` in the given radix, without leading zeros.
pub open spec fn numeral(n: nat, radix: nat) -> Seq<char>
    decreases n,
{
    if radix < 2 || n < radix {
        seq![digit(n)]
    } else {
        proof {
            assert(n / radix < n) by (nonlinear_arith)
                requires
                    n >= radix,
                    radix >= 2,
            ;
        }
        numeral(n / radix, radix).push(digit(n % radix))
    }
}

/// `n` in decimal digits.
pub open spec fn decimal(n: nat) -> Seq<char> {
    numeral(n, 10)
}

/// `n` in upper case hexadecimal digits.
pub open spec fn hex_upper(n: nat) -> Seq<char> {
    numeral(n, 16)
}

/// Once the digits of a prefix are wrong, so are all of them, and for that reason.
proof fn lemma_digits_err(s: Seq<char>, k: int)
    requires
        0 <= k <= s.len(),
        digits_value(s.take(k)) is Err,
    ensures
        digits_value(s) == digits_value(s.take(k)),
    decreases s.len() - k,
{
    if k == s.len() {
        assert(s.take(k) == s);
    } else {
        assert(s.take(k + 1).drop_last() == s.take(k));
        lemma_digits_err(s, k + 1);
    }
}

/// Reads decimal digits.
fn parse_digits(s: &str) -> (res: Result<usize, IntError>)
    ensures
        match res {
            Ok(n) => digits_value(s@) == Ok::<nat, IntError>(n as nat),
            Err(e) => digits_value(s@) == Err::<nat, IntError>(e),
        },
{
    let mut value: usize = 0;
    for c in it: s.chars()
        invariant
            it.seq() == s@,
            digits_value(s@.take(it.index())) == Ok::<nat, IntError>(value as nat),
    {
        let ghost k = it.index();
        proof {
            assert(s@.take(k + 1).drop_last() == s@.take(k));
            assert(s@.take(k + 1).last() == c);
        }
        if !('0' <= c && c <= '9') {
            proof {
                lemma_digits_err(s@, k + 1);
            }
            return Err(IntError::InvalidDigit);
        }
        let d: usize = (c as u32 - '0' as u32) as usize;
        if value > usize::MAX / 10 || value * 10 > usize::MAX - d {
            proof {
                lemma_digits_err(s@, k + 1);
            }
            return Err(IntError::PosOverflow);
        }
        value = value * 10 + d;
    }
    proof {
        assert(s@.take(s@.len() as int) == s@);
    }
    Ok(value)
}

/// Reads a number: decimal digits, perhaps with a plus sign in front.
pub fn parse_number(s: &str) -> (res: Result<usize, IntError>)
    ensures
        match res {
            Ok(n) => number_value(s@) == Ok::<nat, IntError>(n as nat),
            Err(e) => number_value(s@) == Err::<nat, IntError>(e),
        },
{
    let n: usize = s.unicode_len();
    if n == 0 {
        return Err(IntError::Empty);
    }
    if s.get_char(0) != '+' {
        return parse_digits(s);
    }
    if n == 1 {
        return Err(IntError::InvalidDigit);
    }
    proof {
        assert(s@.drop_first() == s@.subrange(1, n as int));
    }
    parse_digits(s.substring_char(1, n))
}

/// Writes `n` in the given radix, without leading zeros.
fn to_numeral(n: u64, radix: u64) -> (res: String)
    requires
        2 <= radix <= 16,
    ensures
        res@ == numeral(n as nat, radix as nat),
    decreases n,
{
    let (mut res, d): (String, u64) = if n < radix {
        (String::new(), n)
    } else {
        proof {
            assert(n / radix < n) by (nonlinear_arith)
                requires
                    n >= radix,
                    radix >= 2,
            ;
        }
        (to_numeral(n / radix, radix), n % radix)
    };
    let c: char = if d < 10 {
        (48u8 + d as u8) as char
    } else {
        (55u8 + d as u8) as char
    };
    res.push(c);
    res
}

/// Writes `n` in decimal digits.
pub fn to_decimal(n: usize) -> (res: String)
    ensures
        res@ == decimal(n as nat),
{
    to_numeral(n as u64, 10)
}

/// Writes `n` in upper case hexadecimal digits.
pub fn to_hex_upper(n: u64) -> (res: String)
    ensures
        res@ == hex_upper(n as nat),
{
    to_numeral(n, 16)
}

/// Every character of a decimal numeral is a decimal digit, and there is one.
pub proof fn lemma_decimal_digits(n: nat)
    ensures
        decimal(n).len() >= 1,
        forall|i: int| 0 <= i < decimal(n).len() ==> '0' <= #[trigger] decimal(n)[i] <= '9',
    decreases n,
{
    if n >= 10 {
        lemma_decimal_digits(n / 10);
    }
}

/// The digits of a number that fits are read back as that number.
proof fn lemma_digits_of_decimal(n: nat)
    requires
        n <= usize::MAX,
    ensures
        digits_value(decimal(n)) == Ok::<nat, IntError>(n),
    decreases n,
{
    if n >= 10 {
        lemma_digits_of_decimal(n / 10);
        assert(decimal(n).drop_last() == decimal(n / 10));
        assert(decimal(n).last() == digit(n % 10));
    } else {
        assert(decimal(n).drop_last() == Seq::<char>::empty());
        assert(digits_value(Seq::<char>::empty()) == Ok::<nat, IntError>(0));
        assert(decimal(n).last() == digit(n));
    }
}

/// What is written as a decimal numeral is read back as the same number.
pub proof fn law_decimal_round_trip(n: nat)
    requires
        n <= usize::MAX,
    ensures
        number_value(decimal(n)) == Ok::<nat, IntError>(n),
{
    lemma_decimal_digits(n);
    lemma_digits_of_decimal(n);
}

/// The digits behind a sign, or all of them, with one more character.
proof fn lemma_pushed_digits(s: Seq<char>, c: char)
    ensures
        digits_value(s.push(c)) == match digits_value(s) {
            Err(e) => Err::<nat, IntError>(e),
            Ok(v) => if !('0' <= c <= '9') {
                Err(IntError::InvalidDigit)
            } else if 10 * v + (c as int - '0' as int) > usize::MAX {
                Err(IntError::PosOverflow)
            } else {
                Ok((10 * v + (c as int - '0' as int)) as nat)
            },
        },
        s.len() > 0 ==> s.push(c).drop_first() == s.drop_first().push(c),
        seq![c].drop_first() == Seq::<char>::empty(),
{
    assert(s.push(c).drop_last() == s);
}

/// No number holds a semicolon.
pub proof fn lemma_number_has_no_semicolon(s: Seq<char>)
    requires
        number_value(s) is Ok,
    ensures
        !s.contains(';'),
{
    if s.contains(';') {
        let k = choose|k: int| 0 <= k < s.len() && s[k] == ';';
        if s[0] != '+' {
            lemma_bad_digit(s, k);
        } else {
            lemma_bad_digit(s.drop_first(), k - 1);
        }
    }
}

/// Digits with something else among them have no value.
proof fn lemma_bad_digit(s: Seq<char>, k: int)
    requires
        0 <= k < s.len(),
        !('0' <= s[k] <= '9'),
    ensures
        digits_value(s) is Err,
{
    assert(s.take(k + 1).last() == s[k]);
    lemma_digits_err(s, k + 1);
}

/// A digit is read as its value. One more digit behind a number makes it ten times as
/// large and adds the digit, if the result fits.
pub proof fn law_one_more_digit(s: Seq<char>, n: nat, d: nat)
    requires
        number_value(s) == Ok::<nat, IntError>(n),
        d < 10,
    ensures
        number_value(seq![('0' as nat + d) as char]) == Ok::<nat, IntError>(d),
        10 * n + d <= usize::MAX ==> number_value(s.push(('0' as nat + d) as char)) == Ok::<
            nat,
            IntError,
        >(10 * n + d),
        10 * n + d > usize::MAX ==> number_value(s.push(('0' as nat + d) as char)) == Err::<
            nat,
            IntError,
        >(IntError::PosOverflow),
{
    let c = ('0' as nat + d) as char;
    lemma_pushed_digits(s, c);
    lemma_pushed_digits(s.drop_first(), c);
    lemma_pushed_digits(Seq::empty(), c);
    assert(Seq::<char>::empty().push(c) == seq![c]);
}

/// A plus sign in front of a number changes nothing. Alone, or in front of another, it
/// is not a digit.
pub proof fn law_sign(s: Seq<char>)
    ensures
        s.len() > 0 && s[0] != '+' ==> number_value(seq!['+'] + s) == number_value(s),
        s.len() == 0 || s[0] == '+' ==> number_value(seq!['+'] + s) == Err::<nat, IntError>(
            IntError::InvalidDigit,
        ),
{
    let signed = seq!['+'] + s;
    assert(signed.drop_first() == s);
    if s.len() > 0 && s[0] == '+' {
        assert(s.take(1).drop_last() == Seq::<char>::empty());
        assert(digits_value(Seq::<char>::empty()) == Ok::<nat, IntError>(0));
        assert(digits_value(s.take(1)) == Err::<nat, IntError>(IntError::InvalidDigit));
        lemma_digits_err(s, 1);
    }
}

/// The empty text is no number. A character that is no digit makes what it follows no
/// number, and so does a first one that is neither a digit nor a sign. What is wrong
/// stays wrong, and for the same reason, whatever follows.
pub proof fn law_no_number(s: Seq<char>, c: char, rest: Seq<char>)
    ensures
        number_value(Seq::empty()) == Err::<nat, IntError>(IntError::Empty),
        (s.len() == 0 || number_value(s) is Ok) && !('0' <= c <= '9') ==> number_value(s.push(c))
            == Err::<nat, IntError>(IntError::InvalidDigit),
        s.len() > 0 && s != seq!['+'] && number_value(s) is Err ==> number_value(s + rest)
            == number_value(s),
{
    lemma_pushed_digits(s, c);
    lemma_pushed_digits(s.drop_first(), c);
    lemma_pushed_digits(Seq::empty(), c);
    assert(s.len() == 0 ==> s.push(c).drop_first() == Seq::<char>::empty());
    if s.len() > 0 && s != seq!['+'] && number_value(s) is Err {
        let all = s + rest;
        if s[0] != '+' {
            assert(all.take(s.len() as int) == s);
            lemma_digits_err(all, s.len() as int);
        } else {
            if s.len() == 1 {
                assert(s == seq!['+']);
            }
            assert(all.drop_first().take(s.len() - 1) == s.drop_first());
            lemma_digits_err(all.drop_first(), s.len() - 1);
        }
    }
}

/// A decimal numeral is made of decimal digits and does not start with a zero, but for
/// that of zero.
pub proof fn law_decimal_digits(n: nat)
    ensures
        decimal(n).len() >= 1,
        forall|i: int| 0 <= i < decimal(n).len() ==> '0' <= #[trigger] decimal(n)[i] <= '9',
        decimal(n)[0] == '0' <==> n == 0,
        n == 0 ==> decimal(n) == seq!['0'],
    decreases n,
{
    lemma_decimal_digits(n);
    if n >= 10 {
        law_decimal_digits(n / 10);
    }
}

/// The hexadecimal numeral of a number below sixteen is its digit; otherwise that digit
/// of the remainder follows the numeral of the sixteenth.
pub proof fn law_hex_digits(q: nat, d: nat)
    requires
        d < 16,
    ensures
        hex_upper(d) == seq!["0123456789ABCDEF"@[d as int]],
        q > 0 ==> hex_upper(16 * q + d) == hex_upper(q).push("0123456789ABCDEF"@[d as int]),
{
    reveal_strlit("0123456789ABCDEF");
    assert((16 * q + d) / 16 == q);
    assert((16 * q + d) % 16 == d);
    assert(digit(d) == "0123456789ABCDEF"@[d as int]);
}

/// The numbers with eight hexadecimal digits or more are those from `0x1000_0000` on.
pub proof fn law_eight_hex_digits(n: u64)
    ensures
        hex_upper(n as nat).len() >= 8 <==> n >= 0x1000_0000,
        hex_upper(n as nat).len() <= 16,
{
    reveal_with_fuel(vstd::arithmetic::power::pow, 17);
    assert(vstd::arithmetic::power::pow(16, 7) == 0x1000_0000);
    assert(vstd::arithmetic::power::pow(16, 16) == 0x1_0000_0000_0000_0000);
    lemma_hex_len_upper(n as nat, 16);
    if n >= 0x1000_0000 {
        lemma_hex_len_lower(n as nat, 7);
    } else {
        lemma_hex_len_upper(n as nat, 7);
    }
}

/// A hexadecimal numeral is ASCII.
pub proof fn lemma_hex_ascii(n: nat)
    ensures
        vstd::utf8::is_ascii_chars(hex_upper(n)),
    decreases n,
{
    if n >= 16 {
        lemma_hex_ascii(n / 16);
    }
}

/// A number from `k` hexadecimal digits on has more than `k` of them.
proof fn lemma_hex_len_lower(n: nat, k: nat)
    requires
        n >= vstd::arithmetic::power::pow(16, k),
    ensures
        hex_upper(n).len() > k,
    decreases k,
{
    reveal(vstd::arithmetic::power::pow);
    if k > 0 {
        lemma_hex_len_lower(n / 16, (k - 1) as nat);
        vstd::arithmetic::power::lemma_pow_positive(16, (k - 1) as nat);
    }
}

/// A number below `k` hexadecimal digits has at most `k` of them.
proof fn lemma_hex_len_upper(n: nat, k: nat)
    requires
        n < vstd::arithmetic::power::pow(16, k),
        k > 0,
    ensures
        hex_upper(n).len() <= k,
    decreases k,
{
    reveal(vstd::arithmetic::power::pow);
    if n >= 16 {
        if k == 1 {
            assert(vstd::arithmetic::power::pow(16, 0) == 1);
        } else {
            lemma_hex_len_upper(n / 16, (k - 1) as nat);
        }
    }
}

/// The hexadecimal digits of a number from `0x1000_0000` on are eight to sixteen.
pub proof fn lemma_hex_len(n: u64)
    requires
        n >= 0x1000_0000,
    ensures
        8 <= hex_upper(n as nat).len() <= 16,
{
    reveal_with_fuel(vstd::arithmetic::power::pow, 17);
    assert(vstd::arithmetic::power::pow(16, 7) == 0x1000_0000);
    assert(vstd::arithmetic::power::pow(16, 16) == 0x1_0000_0000_0000_0000);
    lemma_hex_len_lower(n as nat, 7);
    lemma_hex_len_upper(n as nat, 16);
}

} // verus!
