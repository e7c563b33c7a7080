//! Decimal and hexadecimal numerals.
use crate::text;
use vstd::prelude::*;

verus! {

pub open spec fn digit_char(d: int) -> char {
    (('0' as u32) + d) as char
}

/// The decimal numeral of `n`, without leading zeros.
pub open spec fn decimal(n: nat) -> Seq<char>
    decreases n,
{
    if n < 10 {
        seq![digit_char(n as int)]
    } else {
        decimal(n / 10).push(digit_char((n % 10) as int))
    }
}

fn digit(d: u8) -> (c: char)
    requires
        d < 10,
    ensures
        c == digit_char(d as int),
{
    (48u8 + d) as char
}

/// The decimal numeral of `n`.
pub fn to_decimal(n: u64) -> (s: String)
    ensures
        s@ == decimal(n as nat),
    decreases n,
{
    if n < 10 {
        let mut s: String = String::new();
        s.push(digit(n as u8));
        assert(s@ =~= seq![digit_char(n as int)]);
        s
    } else {
        let mut s: String = to_decimal(n / 10);
        s.push(digit((n % 10) as u8));
        s
    }
}

/// The number that a string of decimal digits stands for.
pub open spec fn digits_value(s: Seq<char>) -> nat
    decreases s.len(),
{
    if s.len() == 0 {
        0
    } else {
        digits_value(s.drop_last()) * 10 + ((s.last() as u32) - ('0' as u32)) as nat
    }
}

pub open spec fn all_digits(s: Seq<char>) -> bool {
    forall|i: int| 0 <= i < s.len() ==> text::is_ascii_digit(#[trigger] s[i])
}

/// The digits of a numeral: what is left after one leading plus sign.
pub open spec fn numeral_digits(s: Seq<char>) -> Seq<char> {
    if s.len() > 0 && s[0] == '+' {
        s.drop_first()
    } else {
        s
    }
}

/// The number that `s` stands for, where `s` is a numeral: one or more decimal
/// digits, after an optional plus sign, whose value is at most `max`.
pub open spec fn numeral_value(s: Seq<char>, max: nat) -> Option<nat> {
    let digits = numeral_digits(s);
    if digits.len() > 0 && all_digits(digits) && digits_value(digits) <= max {
        Some(digits_value(digits))
    } else {
        None
    }
}

proof fn lemma_value_monotonic(s: Seq<char>, n: int)
    requires
        all_digits(s),
        0 <= n <= s.len(),
    ensures
        digits_value(s.take(n)) <= digits_value(s),
    decreases s.len() - n,
{
    if n == s.len() {
        assert(s.take(n) =~= s);
    } else {
        lemma_value_monotonic(s, n + 1);
        assert(s.take(n + 1).drop_last() =~= s.take(n));
        assert(text::is_ascii_digit(s[n]));
    }
}

/// The number that `s` stands for, where it is a numeral that fits in a `u64`.
pub fn parse_u64(s: &str) -> (r: Option<u64>)
    ensures
        match r {
            Some(n) => numeral_value(s@, u64::MAX as nat) == Some(n as nat),
            None => numeral_value(s@, u64::MAX as nat) is None,
        },
{
    let v = text::to_chars(s);
    let start: usize = if v.len() > 0 && v[0] == '+' {
        1
    } else {
        0
    };
    let ghost digits = numeral_digits(s@);
    assert(v@.skip(start as int) =~= digits);
    let n: usize = v.len();
    if start == n {
        return None;
    }
    let mut i: usize = start;
    let mut value: u64 = 0;
    while i < n
        invariant
            v@ == s@,
            n == v@.len(),
            start <= i <= n,
            start < n,
            digits == numeral_digits(s@),
            v@.skip(start as int) == digits,
            forall|k: int| 0 <= k < i - start ==> text::is_ascii_digit(#[trigger] digits[k]),
            value == digits_value(digits.take(i - start)),
        decreases n - i,
    {
        let c: char = v[i];
        assert(digits[i - start] == c);
        if c < '0' || c > '9' {
            assert(!text::is_ascii_digit(digits[i - start]));
            return None;
        }
        assert(digits.take(i - start + 1).drop_last() =~= digits.take(i - start));
        let d: u64 = (c as u32 - '0' as u32) as u64;
        if value > (u64::MAX - d) / 10 {
            proof {
                assert(value * 10 + d > u64::MAX) by (nonlinear_arith)
                    requires
                        value > (u64::MAX - d) / 10,
                        d <= 9,
                ;
                assert(digits_value(digits.take(i - start + 1)) > u64::MAX);
                if all_digits(digits) {
                    lemma_value_monotonic(digits, i - start + 1);
                }
            }
            return None;
        }
        value = value * 10 + d;
        i = i + 1;
    }
    assert(digits.take(n - start) =~= digits);
    Some(value)
}

/// The number that `s` stands for, where it is a numeral that fits in a `u32`.
pub fn parse_u32(s: &str) -> (r: Option<u32>)
    ensures
        match r {
            Some(n) => numeral_value(s@, u32::MAX as nat) == Some(n as nat),
            None => numeral_value(s@, u32::MAX as nat) is None,
        },
{
    match parse_u64(s) {
        Some(n) => {
            if n <= u32::MAX as u64 {
                Some(n as u32)
            } else {
                None
            }
        },
        None => None,
    }
}

proof fn lemma_decimal(n: nat)
    ensures
        decimal(n).len() > 0,
        all_digits(decimal(n)),
        digits_value(decimal(n)) == n,
    decreases n,
{
    if n < 10 {
        assert(seq![digit_char(n as int)].drop_last() =~= Seq::<char>::empty());
        assert(digits_value(Seq::<char>::empty()) == 0);
    } else {
        lemma_decimal(n / 10);
        let s = decimal(n / 10);
        assert(s.push(digit_char((n % 10) as int)).drop_last() =~= s);
        assert forall|i: int| 0 <= i < decimal(n).len() implies text::is_ascii_digit(
            #[trigger] decimal(n)[i],
        ) by {
            if i < s.len() {
                assert(text::is_ascii_digit(s[i]));
            }
        }
    }
}

/// Reading back the numeral of a number gives the number.
pub proof fn law_decimal_reads_back(n: u64)
    ensures
        numeral_value(decimal(n as nat), u64::MAX as nat) == Some(n as nat),
{
    lemma_decimal(n as nat);
    assert(text::is_ascii_digit(decimal(n as nat)[0]));
}

/// Two numbers with the same numeral are the same.
pub proof fn law_decimal_injective(a: nat, b: nat)
    requires
        decimal(a) == decimal(b),
    ensures
        a == b,
{
    lemma_decimal(a);
    lemma_decimal(b);
}

/// A numeral holds nothing but digits.
pub proof fn lemma_decimal_digits(n: nat)
    ensures
        decimal(n).len() > 0,
        all_digits(decimal(n)),
{
    lemma_decimal(n);
}

// ---------------------------------------------------------------------------
// Hexadecimal
// ---------------------------------------------------------------------------
pub open spec fn hex_char(d: int) -> char {
    if d < 10 {
        (('0' as u32) + d) as char
    } else {
        (('a' as u32) + d - 10) as char
    }
}

/// The last `width` hexadecimal digits of `n`, in small letters, with leading
/// zeros.
pub open spec fn hex(n: nat, width: nat) -> Seq<char>
    decreases width,
{
    if width == 0 {
        Seq::empty()
    } else {
        hex(n / 16, (width - 1) as nat).push(hex_char((n % 16) as int))
    }
}

fn hex_digit(d: u8) -> (c: char)
    requires
        d < 16,
    ensures
        c == hex_char(d as int),
{
    if d < 10 {
        (48u8 + d) as char
    } else {
        (97u8 + (d - 10)) as char
    }
}

fn to_hex_width(n: u64, width: u8) -> (s: String)
    ensures
        s@ == hex(n as nat, width as nat),
    decreases width,
{
    if width == 0 {
        String::new()
    } else {
        let mut s: String = to_hex_width(n / 16, width - 1);
        s.push(hex_digit((n % 16) as u8));
        s
    }
}

/// The sixteen hexadecimal digits of `n`.
pub fn to_hex16(n: u64) -> (s: String)
    ensures
        s@ == hex(n as nat, 16),
{
    to_hex_width(n, 16)
}

proof fn lemma_hex_injective(a: nat, b: nat, width: nat, bound: nat)
    requires
        hex(a, width) == hex(b, width),
        bound == vstd::arithmetic::power::pow(16, width),
        a < bound,
        b < bound,
    ensures
        a == b,
    decreases width,
{
    vstd::arithmetic::power::lemma_pow0(16);
    if width > 0 {
        let w = (width - 1) as nat;
        vstd::arithmetic::power::lemma_pow_adds(16, w, 1);
        vstd::arithmetic::power::lemma_pow1(16);
        vstd::arithmetic::power::lemma_pow_positive(16, w);
        let inner = vstd::arithmetic::power::pow(16, w) as nat;
        assert(bound == inner * 16);
        let ha = hex(a / 16, w);
        let hb = hex(b / 16, w);
        assert(hex(a, width).drop_last() =~= ha);
        assert(hex(b, width).drop_last() =~= hb);
        assert(hex(a, width).last() == hex_char((a % 16) as int));
        assert(hex(b, width).last() == hex_char((b % 16) as int));
        lemma_hex_injective(a / 16, b / 16, w, inner);
        assert(a % 16 == b % 16);
    }
}

/// Two 64-bit numbers with the same sixteen digits are the same.
pub proof fn law_hex16_injective(a: u64, b: u64)
    requires
        hex(a as nat, 16) == hex(b as nat, 16),
    ensures
        a == b,
{
    assert(vstd::arithmetic::power::pow(16, 16) == 0x1_0000_0000_0000_0000) by {
        reveal_with_fuel(vstd::arithmetic::power::pow, 17);
    }
    lemma_hex_injective(a as nat, b as nat, 16, 0x1_0000_0000_0000_0000);
}

/// The digits hold no slash and number `width`.
pub proof fn lemma_hex_digits(n: nat, width: nat)
    ensures
        hex(n, width).len() == width,
        !hex(n, width).contains('/'),
    decreases width,
{
    if width > 0 {
        lemma_hex_digits(n / 16, (width - 1) as nat);
        let s = hex(n / 16, (width - 1) as nat);
        if hex(n, width).contains('/') {
            let i = choose|i: int| 0 <= i < hex(n, width).len() && hex(n, width)[i] == '/';
            if i < s.len() {
                assert(s[i] == '/');
            }
        }
    }
}

// ---------------------------------------------------------------------------
// Places
// ---------------------------------------------------------------------------
/// In a decimal numeral each place counts ten times the next, and there are no
/// leading zeros.
pub proof fn law_decimal_places(n: nat, d: nat)
    requires
        d < 10,
    ensures
        decimal(d) == seq!["0123456789"@[d as int]],
        n > 0 ==> decimal(10 * n + d) == decimal(n).push("0123456789"@[d as int]),
{
    reveal_strlit("0123456789");
    if n > 0 {
        assert((10 * n + d) / 10 == n);
        assert((10 * n + d) % 10 == d);
    }
}

/// In a hexadecimal numeral each place counts sixteen times the next.
pub proof fn law_hex_places(n: nat, d: nat, width: nat)
    requires
        d < 16,
    ensures
        hex(16 * n + d, width + 1) == hex(n, width).push("0123456789abcdef"@[d as int]),
        hex(n, 0) == Seq::<char>::empty(),
{
    reveal_strlit("0123456789abcdef");
    assert((16 * n + d) / 16 == n);
    assert((16 * n + d) % 16 == d);
    assert(hex(16 * n + d, width + 1) == hex(n, width).push(hex_char(d as int)));
}

/// What is read as a number is made of decimal digits, one at least, with or
/// without a plus sign before them. Nothing else is, nor is what exceeds the bound.
pub proof fn law_what_numerals_are(s: Seq<char>, max: nat)
    ensures
        (s.len() > 0 && forall|i: int| 0 <= i < s.len() ==> '0' <= #[trigger] s[i] <= '9') ==> {
            let read = if digits_value(s) <= max {
                Some(digits_value(s))
            } else {
                None
            };
            &&& numeral_value(s, max) == read
            &&& numeral_value(seq!['+'] + s, max) == read
        },
        numeral_value(s, max) is Some ==> {
            &&& s.len() > 0
            &&& s[0] == '+' ==> s.len() > 1
            &&& '0' <= s[0] <= '9' || s[0] == '+'
            &&& forall|i: int| 1 <= i < s.len() ==> '0' <= #[trigger] s[i] <= '9'
        },
{
    assert((seq!['+'] + s).drop_first() =~= s);
    if numeral_value(s, max) is Some {
        let digits = numeral_digits(s);
        assert(text::is_ascii_digit(digits[0]));
        assert forall|i: int| 1 <= i < s.len() implies '0' <= #[trigger] s[i] <= '9' by {
            if s[0] == '+' {
                assert(text::is_ascii_digit(digits[i - 1]));
            } else {
                assert(text::is_ascii_digit(digits[i]));
            }
        }
    }
}

/// The value of digits goes by their places.
pub proof fn law_value_of_digits(s: Seq<char>, d: nat)
    requires
        d < 10,
    ensures
        digits_value(s.push("0123456789"@[d as int])) == 10 * digits_value(s) + d,
        digits_value(Seq::<char>::empty()) == 0,
{
    reveal_strlit("0123456789");
    assert(s.push("0123456789"@[d as int]).drop_last() =~= s);
}

} // verus!
