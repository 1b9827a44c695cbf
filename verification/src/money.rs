//! Conversion between the `numeric(10,2)` amounts operators type and the integer
//! minor units Square requires.
//!
//! Getting this wrong does not throw — it silently charges the customer 100x too
//! little (or too much) — so the rounding rule is stated exactly and proved.

use vstd::prelude::*;
use crate::text::{ascii_lower, decimal, digit, digit_char, eq_ignore_ascii_case, push_char, push_decimal, push_str};

verus! {

/// Currencies whose minor unit is not 1/100 of the major unit are not supported;
/// the shop prices in USD and Square is told so explicitly.
pub const DEFAULT_CURRENCY: &'static str = "USD";

/// A single line over $1,000,000 is not a perfume order.
pub const MAX_LINE_CENTS: i64 = 100_000_000;

/// The largest magnitude a decimal amount can carry (96 bits).
pub const MAX_MANTISSA: u128 = 79228162514264337593543950335;

/// A decimal amount as the database hands it over: a sign flag, a magnitude and
/// a scale, worth `mantissa / 10^scale` (negated when `negative`).
#[derive(Clone, Copy, Debug, PartialEq, Eq)]
pub struct Amount {
    pub negative: bool,
    pub mantissa: u128,
    pub scale: u32,
}

pub open spec fn pow10(n: nat) -> nat
    decreases n,
{
    if n == 0 { 1 } else { 10 * pow10((n - 1) as nat) }
}

/// Round `num / den` to the nearest integer, ties to the even neighbour.
pub open spec fn round_half_even(num: nat, den: nat) -> nat {
    let q = num / den;
    let r = num % den;
    if 2 * r < den {
        q
    } else if 2 * r > den {
        q + 1
    } else if q % 2 == 0 {
        q
    } else {
        q + 1
    }
}

impl Amount {
    /// Within the range of a 96-bit decimal with at most 28 fractional digits.
    pub open spec fn wf(self) -> bool {
        self.mantissa <= MAX_MANTISSA && self.scale <= 28
    }

    /// The signed value times `10^scale`.
    pub open spec fn numerator(self) -> int {
        if self.negative { -(self.mantissa as int) } else { self.mantissa as int }
    }

    /// Strictly below zero (a negative zero is not).
    pub open spec fn is_below_zero(self) -> bool {
        self.negative && self.mantissa > 0
    }

    /// Both amounts denote the same number.
    pub open spec fn same_value(self, other: Amount) -> bool {
        self.numerator() * pow10(other.scale as nat) == other.numerator() * pow10(self.scale as nat)
    }

    /// Multiplying by 100 stays within a 96-bit decimal: the scale can absorb
    /// at most two of the extra digits.
    pub open spec fn times_hundred_fits(self) -> bool {
        self.scale >= 2 || self.mantissa * pow10((2 - self.scale) as nat) <= MAX_MANTISSA
    }

    /// Whole cents of a non-negative amount, rounded half to even.
    pub open spec fn rounded_cents(self) -> nat {
        round_half_even(self.mantissa as nat * 100, pow10(self.scale as nat))
    }
}

/// `60.00` -> `6000`: the value times 100, rounded half to even; nothing for a
/// negative amount (negative zero included) or one over [`MAX_LINE_CENTS`].
pub open spec fn spec_to_cents(a: Amount) -> Option<i64> {
    if a.negative {
        None
    } else if a.rounded_cents() > MAX_LINE_CENTS {
        None
    } else {
        Some(a.rounded_cents() as i64)
    }
}

pub proof fn lemma_pow10_positive(n: nat)
    ensures
        pow10(n) >= 1,
    decreases n,
{
    if n > 0 {
        lemma_pow10_positive((n - 1) as nat);
    }
}

pub proof fn lemma_pow10_monotone(i: nat, j: nat)
    requires
        i <= j,
    ensures
        pow10(i) <= pow10(j),
    decreases j,
{
    if i < j {
        lemma_pow10_monotone(i, (j - 1) as nat);
        lemma_pow10_positive((j - 1) as nat);
    }
}

proof fn lemma_pow10_28()
    ensures
        pow10(28) == 10000000000000000000000000000nat,
{
    reveal_with_fuel(pow10, 29);
}

proof fn lemma_pow10_add(a: nat, b: nat)
    ensures
        pow10(a + b) == pow10(a) * pow10(b),
    decreases a,
{
    if a == 0 {
        assert(a + b == b);
        assert(pow10(0) == 1);
        assert(pow10(a) * pow10(b) == pow10(b));
    } else {
        let a1 = (a - 1) as nat;
        lemma_pow10_add(a1, b);
        let x = pow10(a1);
        let y = pow10(b);
        assert(pow10(a1 + b) == x * y);
        assert(a + b == (a1 + b) + 1);
        assert(pow10(a + b) == 10 * pow10(a1 + b));
        assert(pow10(a) == 10 * x);
        assert(10 * (x * y) == (10 * x) * y) by (nonlinear_arith);
    }
}

/// `10^s` for a decimal scale.
pub fn pow10_u128(s: u32) -> (r: u128)
    requires
        s <= 28,
    ensures
        r == pow10(s as nat),
{
    let mut r: u128 = 1;
    let mut i: u32 = 0;
    proof {
        lemma_pow10_28();
    }
    while i < s
        invariant
            i <= s <= 28,
            r == pow10(i as nat),
            pow10(28) == 10000000000000000000000000000nat,
        decreases s - i,
    {
        proof {
            lemma_pow10_monotone((i + 1) as nat, 28);
        }
        r = r * 10;
        i = i + 1;
    }
    r
}

/// `60.00` -> `6000`. Rounds half-to-even at 2dp, which is what you want for
/// money: half-up biases every borderline cent in the same direction.
///
/// Returns `None` for negatives and for values too large to be a sane price —
/// both indicate a bug or bad input upstream, and neither should reach Square.
pub fn to_cents(amount: Amount) -> (r: Option<i64>)
    requires
        amount.wf(),
        amount.negative || amount.times_hundred_fits(),
    ensures
        r == spec_to_cents(amount),
{
    if amount.negative {
        return None;
    }
    let den = pow10_u128(amount.scale);
    proof {
        lemma_pow10_positive(amount.scale as nat);
        lemma_pow10_28();
        lemma_pow10_monotone(amount.scale as nat, 28);
    }
    let num = amount.mantissa * 100;
    let q = num / den;
    let rem = num % den;
    let c = if 2 * rem < den {
        q
    } else if 2 * rem > den {
        q + 1
    } else if q % 2 == 0 {
        q
    } else {
        q + 1
    };
    if c > 100_000_000 {
        None
    } else {
        Some(c as i64)
    }
}

proof fn lemma_round_scaled(num: nat, den: nat, k: nat)
    requires
        den > 0,
        k > 0,
    ensures
        round_half_even(num * k, den * k) == round_half_even(num, den),
{
    let q = num / den;
    let r = num % den;
    assert(num == den * q + r && 0 <= r < den) by (nonlinear_arith)
        requires den > 0, q == num / den, r == num % den;
    assert(num * k == (den * k) * q + r * k) by (nonlinear_arith)
        requires num == den * q + r;
    assert(0 <= r * k < den * k) by (nonlinear_arith)
        requires 0 <= r < den, k > 0;
    vstd::arithmetic::div_mod::lemma_fundamental_div_mod_converse(
        (num * k) as int, (den * k) as int, q as int, (r * k) as int);
    assert(2 * (r * k) < den * k <==> 2 * r < den) by (nonlinear_arith)
        requires k > 0;
    assert(2 * (r * k) > den * k <==> 2 * r > den) by (nonlinear_arith)
        requires k > 0;
}

/// The same price can arrive from the database at different scales (`60`,
/// `60.0`, `60.000`); every such spelling converts to the same cents.
pub proof fn lemma_to_cents_depends_only_on_value(a: Amount, b: Amount)
    requires
        a.wf(),
        b.wf(),
        !a.negative,
        !b.negative,
        a.same_value(b),
    ensures
        spec_to_cents(a) == spec_to_cents(b),
{
    let pa = pow10(a.scale as nat);
    let pb = pow10(b.scale as nat);
    lemma_pow10_positive(a.scale as nat);
    lemma_pow10_positive(b.scale as nat);
    lemma_round_scaled(a.mantissa as nat * 100, pa, pb);
    lemma_round_scaled(b.mantissa as nat * 100, pb, pa);
    assert((a.mantissa as nat * 100) * pb == (b.mantissa as nat * 100) * pa) by (nonlinear_arith)
        requires (a.mantissa as int) * pb == (b.mantissa as int) * pa;
    assert(pa * pb == pb * pa) by (nonlinear_arith);
}

/// An amount with at most two decimal places converts exactly: nothing is
/// rounded away, so `19.99` is `1999` and never `1998`.
pub proof fn lemma_to_cents_exact_at_two_places(a: Amount)
    requires
        a.wf(),
        !a.negative,
        a.scale <= 2,
    ensures
        a.rounded_cents() == a.mantissa * pow10((2 - a.scale) as nat),
{
    let s = a.scale as nat;
    let k = pow10((2 - s) as nat);
    lemma_pow10_add(s, (2 - s) as nat);
    assert(pow10(2) == 100) by {
        reveal_with_fuel(pow10, 3);
    }
    let p = pow10(s);
    lemma_pow10_positive(s);
    assert(a.mantissa as nat * 100 == p * (a.mantissa * k)) by (nonlinear_arith)
        requires 100 == p * k;
    vstd::arithmetic::div_mod::lemma_fundamental_div_mod_converse(
        (a.mantissa as nat * 100) as int, p as int, (a.mantissa * k) as int, 0);
}

/// The conversion is to the nearest cent: the result is never more than half
/// a cent away from the exact value.
pub proof fn lemma_to_cents_within_half_a_cent(a: Amount)
    requires
        a.wf(),
        !a.negative,
    ensures
        ({
            let den = pow10(a.scale as nat) as int;
            let exact = a.mantissa as int * 100;
            let c = a.rounded_cents() as int;
            -den <= 2 * (c * den - exact) <= den
        }),
{
    let den = pow10(a.scale as nat);
    lemma_pow10_positive(a.scale as nat);
    let num = a.mantissa as nat * 100;
    let q = num / den;
    let r = num % den;
    assert(num == den * q + r && 0 <= r < den) by (nonlinear_arith)
        requires den > 0, q == num / den, r == num % den;
    let c = a.rounded_cents();
    assert(c == q || c == q + 1);
    if c == q {
        assert(2 * r <= den);
        assert(c * den - num == -(r as int)) by (nonlinear_arith)
            requires num == den * q + r, c == q;
    } else {
        assert(2 * r >= den);
        assert(c * den - num == den - r) by (nonlinear_arith)
            requires num == den * q + r, c == q + 1;
    }
}

/// Whether `currency` names US dollars, compared ASCII case-insensitively.
pub open spec fn is_usd(currency: Seq<char>) -> bool {
    eq_ignore_ascii_case(currency, seq!['U', 'S', 'D'])
}

fn check_usd(currency: &str) -> (r: bool)
    ensures
        r == is_usd(currency@),
{
    let n = currency.unicode_len();
    if n != 3 {
        return false;
    }
    let a = currency.get_char(0);
    let b = currency.get_char(1);
    let c = currency.get_char(2);
    let r = (a == 'u' || a == 'U') && (b == 's' || b == 'S') && (c == 'd' || c == 'D');
    proof {
        let target = seq!['U', 'S', 'D'];
        if r {
            assert forall|i: int| 0 <= i < currency@.len() implies ascii_lower(
                #[trigger] currency@[i],
            ) == ascii_lower(target[i]) by {
                if i == 0 {
                } else if i == 1 {
                } else {
                }
            }
        } else {
            if is_usd(currency@) {
                assert(ascii_lower(currency@[0]) == ascii_lower(target[0]));
                assert(ascii_lower(currency@[1]) == ascii_lower(target[1]));
                assert(ascii_lower(currency@[2]) == ascii_lower(target[2]));
            }
        }
    }
    r
}

/// `$60.00` for US dollars (signed, two decimal places), `19.99 CAD` for
/// anything else.
pub open spec fn spec_format_cents(cents: int, currency: Seq<char>) -> Seq<char> {
    let sign: Seq<char> = if cents < 0 { seq!['-'] } else { seq![] };
    let abs: nat = if cents < 0 { (-cents) as nat } else { cents as nat };
    let symbol: Seq<char> = if is_usd(currency) { seq!['$'] } else { seq![] };
    let rendered = sign + symbol + decimal(abs / 100) + seq![
        '.',
        digit_char((abs % 100) / 10),
        digit_char(abs % 10),
    ];
    if is_usd(currency) {
        rendered
    } else {
        rendered + seq![' '] + currency
    }
}

/// The value of a decimal digit character; -1 for any other character.
pub open spec fn digit_value(c: char) -> int {
    if c == '0' { 0 }
    else if c == '1' { 1 }
    else if c == '2' { 2 }
    else if c == '3' { 3 }
    else if c == '4' { 4 }
    else if c == '5' { 5 }
    else if c == '6' { 6 }
    else if c == '7' { 7 }
    else if c == '8' { 8 }
    else if c == '9' { 9 }
    else { -1 }
}

/// What a run of decimal digits reads as, most significant first.
pub open spec fn reads_as(d: Seq<char>) -> int
    decreases d.len(),
{
    if d.len() == 0 { 0 } else { reads_as(d.drop_last()) * 10 + digit_value(d.last()) }
}

/// Every character is a decimal digit.
pub open spec fn all_digits(d: Seq<char>) -> bool {
    forall|i: int| 0 <= i < d.len() ==> 0 <= #[trigger] digit_value(d[i]) <= 9
}

proof fn lemma_digit_char_reads_back(k: nat)
    requires
        k < 10,
    ensures
        digit_value(digit_char(k)) == k,
{
}

/// A number's decimal text is all digits, with no leading zero, and reads
/// back as the number.
proof fn lemma_decimal_reads_back(n: nat)
    ensures
        decimal(n).len() >= 1,
        all_digits(decimal(n)),
        reads_as(decimal(n)) == n,
        decimal(n).len() > 1 ==> decimal(n)[0] != '0',
        n >= 10 <==> decimal(n).len() > 1,
    decreases n,
{
    if n < 10 {
        lemma_digit_char_reads_back(n);
        assert(decimal(n).drop_last() =~= Seq::<char>::empty());
        assert(reads_as(Seq::<char>::empty()) == 0);
        assert(decimal(n).last() == digit_char(n));
    } else {
        lemma_decimal_reads_back(n / 10);
        lemma_digit_char_reads_back(n % 10);
        let d = decimal(n / 10);
        assert(decimal(n).drop_last() =~= d);
        assert(decimal(n).last() == digit_char(n % 10));
        assert(reads_as(decimal(n)) == reads_as(d) * 10 + digit_value(digit_char(n % 10)));
        assert(n == (n / 10) * 10 + n % 10);
        assert(decimal(n)[0] == d[0]);
        if d.len() == 1 {
            assert(n / 10 < 10);
            lemma_digit_char_reads_back(n / 10);
            assert(d[0] == digit_char(n / 10));
        }
        assert forall|i: int| 0 <= i < decimal(n).len() implies 0 <= #[trigger] digit_value(decimal(n)[i]) <= 9 by {
            if i < d.len() {
                assert(decimal(n)[i] == d[i]);
            }
        }
    }
}

/// Money text reads back as the amount: an optional `-` for a negative
/// amount, `$` for dollars, then the whole units as decimal digits (no leading
/// zero) that read back as |cents| / 100, a `.`, and two digits that read back
/// as |cents| % 100; any other currency follows after a space. Nothing of the
/// amount is dropped: 123456 cents is `$1234.56`.
pub proof fn lemma_format_cents_reads_back(cents: int, currency: Seq<char>)
    ensures
        ({
            let s = spec_format_cents(cents, currency);
            let abs: int = if cents < 0 { -cents } else { cents };
            let lead: int = (if cents < 0 { 1int } else { 0int }) + (if is_usd(currency) { 1int } else { 0int });
            let end: int = s.len() - (if is_usd(currency) { 0int } else { 1 + currency.len() as int });
            let units = s.subrange(lead, end - 3);
            &&& lead + 1 <= end - 3 && end <= s.len()
            &&& cents < 0 ==> s[0] == '-'
            &&& is_usd(currency) ==> s[lead - 1] == '$'
            &&& !is_usd(currency) ==> s.subrange(end, s.len() as int) == seq![' '] + currency
            &&& all_digits(units) && reads_as(units) == abs / 100
            &&& units.len() > 1 ==> units[0] != '0'
            &&& s[end - 3] == '.'
            &&& 0 <= digit_value(s[end - 2]) <= 9 && 0 <= digit_value(s[end - 1]) <= 9
            &&& digit_value(s[end - 2]) * 10 + digit_value(s[end - 1]) == abs % 100
        }),
{
    let sign: Seq<char> = if cents < 0 { seq!['-'] } else { seq![] };
    let abs: nat = if cents < 0 { (-cents) as nat } else { cents as nat };
    let symbol: Seq<char> = if is_usd(currency) { seq!['$'] } else { seq![] };
    let dec = decimal(abs / 100);
    let cents_part = seq!['.', digit_char((abs % 100) / 10), digit_char(abs % 10)];
    let rendered = sign + symbol + dec + cents_part;
    let s = spec_format_cents(cents, currency);
    lemma_decimal_reads_back(abs / 100);
    lemma_digit_char_reads_back((abs % 100) / 10);
    lemma_digit_char_reads_back(abs % 10);
    let lead: int = (if cents < 0 { 1int } else { 0int }) + (if is_usd(currency) { 1int } else { 0int });
    let end: int = s.len() - (if is_usd(currency) { 0int } else { 1 + currency.len() as int });
    assert(end == rendered.len());
    assert(s.subrange(0, end) =~= rendered);
    assert(rendered.subrange(lead, end - 3) =~= dec);
    assert(s.subrange(lead, end - 3) =~= dec);
    if !is_usd(currency) {
        assert(s.subrange(end, s.len() as int) =~= seq![' '] + currency);
    }
    assert(s[end - 3] == rendered[end - 3]);
    assert(s[end - 2] == rendered[end - 2]);
    assert(s[end - 1] == rendered[end - 1]);
    if cents < 0 {
        assert(s[0] == rendered[0]);
    }
    if is_usd(currency) {
        assert(s[lead - 1] == rendered[lead - 1]);
    }
}

/// Render cents as a plain `$60.00` for logs, reports, and the admin UI.
pub fn format_cents(cents: i64, currency: &str) -> (r: String)
    requires
        cents > i64::MIN,
    ensures
        r@ == spec_format_cents(cents as int, currency@),
{
    let abs: u64 = if cents < 0 { (-cents) as u64 } else { cents as u64 };
    let usd = check_usd(currency);
    let mut s = String::new();
    if cents < 0 {
        push_char(&mut s, '-');
    }
    if usd {
        push_char(&mut s, '$');
    }
    push_decimal(&mut s, abs / 100);
    push_char(&mut s, '.');
    push_char(&mut s, digit((abs % 100) / 10));
    push_char(&mut s, digit(abs % 10));
    if !usd {
        push_char(&mut s, ' ');
        push_str(&mut s, currency);
    }
    proof {
        let sign: Seq<char> = if cents < 0 { seq!['-'] } else { seq![] };
        let symbol: Seq<char> = if usd { seq!['$'] } else { seq![] };
        let body = sign + symbol + decimal((abs / 100) as nat) + seq![
            '.',
            digit_char(((abs % 100) / 10) as nat),
            digit_char((abs % 10) as nat),
        ];
        if usd {
            assert(s@ =~= body);
        } else {
            assert(s@ =~= body + seq![' '] + currency@);
        }
    }
    s
}

} // verus!
