//! Identifiers as text: 128-bit ids in the two spellings the service uses
//! (hyphenated in messages, 32 plain hex digits in derived ids), and decimal
//! amounts as the database prints them.

use vstd::prelude::*;
use crate::money::{pow10, Amount};
use crate::text::{decimal, digit_char, push_char};

verus! {

/// Lower-case hexadecimal digit.
pub open spec fn hex_lower(d: nat) -> char {
    if d < 10 {
        digit_char(d)
    } else if d == 10 {
        'a'
    } else if d == 11 {
        'b'
    } else if d == 12 {
        'c'
    } else if d == 13 {
        'd'
    } else if d == 14 {
        'e'
    } else {
        'f'
    }
}

/// The lowest `n` hexadecimal digits of `x`, most significant first.
pub open spec fn hex_fixed(x: nat, n: nat) -> Seq<char>
    decreases n,
{
    if n == 0 {
        seq![]
    } else {
        hex_fixed(x / 16, (n - 1) as nat).push(hex_lower(x % 16))
    }
}

pub proof fn lemma_hex_fixed_len(x: nat, n: nat)
    ensures
        hex_fixed(x, n).len() == n,
    decreases n,
{
    if n > 0 {
        lemma_hex_fixed_len(x / 16, (n - 1) as nat);
    }
}

/// An id as 32 lower-case hex digits (`Uuid::simple`).
pub open spec fn spec_id_simple(id: u128) -> Seq<char> {
    hex_fixed(id as nat, 32)
}

/// An id in the canonical hyphenated 8-4-4-4-12 form (`Uuid`'s `Display`).
pub open spec fn spec_id_text(id: u128) -> Seq<char> {
    let h = spec_id_simple(id);
    h.subrange(0, 8) + seq!['-'] + h.subrange(8, 12) + seq!['-'] + h.subrange(12, 16) + seq!['-']
        + h.subrange(16, 20) + seq!['-'] + h.subrange(20, 32)
}

fn hex_digit_lower(d: u128) -> (c: char)
    requires
        d < 16,
    ensures
        c == hex_lower(d as nat),
{
    if d < 10 {
        crate::text::digit(d as u64)
    } else if d == 10 {
        'a'
    } else if d == 11 {
        'b'
    } else if d == 12 {
        'c'
    } else if d == 13 {
        'd'
    } else if d == 14 {
        'e'
    } else {
        'f'
    }
}

/// The 32 hex digits of `id`, most significant first.
fn id_digits(id: u128) -> (v: Vec<char>)
    ensures
        v@ == spec_id_simple(id),
        v@.len() == 32,
{
    proof {
        lemma_hex_fixed_len(id as nat, 32);
    }
    let mut rev: Vec<char> = Vec::new();
    let mut x: u128 = id;
    let mut k: usize = 0;
    let ghost mut rest: nat = id as nat;
    while k < 32
        invariant
            k <= 32,
            x as nat == rest,
            rev@.len() == k,
            forall|n: nat|
                #![trigger hex_fixed(id as nat, n)]
                n >= k ==> hex_fixed(id as nat, n) == hex_fixed(rest, (n - k) as nat) + rev@.reverse(),
        decreases 32 - k,
    {
        let d = x % 16;
        let c = hex_digit_lower(d);
        proof {
            assert forall|n: nat| #![trigger hex_fixed(id as nat, n)] n >= k + 1 implies hex_fixed(id as nat, n)
                == hex_fixed(rest / 16, (n - k - 1) as nat) + rev@.push(c).reverse() by {
                assert(hex_fixed(id as nat, n) == hex_fixed(rest, (n - k) as nat) + rev@.reverse());
                assert(hex_fixed(rest, (n - k) as nat) == hex_fixed(rest / 16, (n - k - 1) as nat).push(
                    hex_lower(rest % 16),
                ));
                assert(rev@.push(c).reverse() =~= seq![c] + rev@.reverse());
                assert(hex_fixed(rest / 16, (n - k - 1) as nat).push(c) + rev@.reverse() =~= hex_fixed(
                    rest / 16,
                    (n - k - 1) as nat,
                ) + (seq![c] + rev@.reverse()));
            }
            rest = rest / 16;
        }
        rev.push(c);
        x = x / 16;
        k = k + 1;
    }
    proof {
        assert(hex_fixed(id as nat, 32) == hex_fixed(rest, 0) + rev@.reverse());
        assert(hex_fixed(rest, 0) =~= Seq::<char>::empty());
        assert(hex_fixed(id as nat, 32) =~= rev@.reverse());
    }
    let mut v: Vec<char> = Vec::new();
    let mut j: usize = 32;
    while j > 0
        invariant
            j <= 32,
            rev@.len() == 32,
            v@ =~= rev@.reverse().take(32 - j),
        decreases j,
    {
        j = j - 1;
        proof {
            assert(rev@.reverse().take(32 - j) =~= rev@.reverse().take(32 - j - 1).push(rev@[j as int]));
        }
        v.push(rev[j]);
    }
    proof {
        assert(rev@.reverse().take(32) =~= rev@.reverse());
    }
    v
}

fn push_range(s: &mut String, v: &Vec<char>, a: usize, b: usize)
    requires
        a <= b <= v@.len(),
    ensures
        final(s)@ == old(s)@ + v@.subrange(a as int, b as int),
{
    let mut i = a;
    while i < b
        invariant
            a <= i <= b <= v@.len(),
            s@ == old(s)@ + v@.subrange(a as int, i as int),
        decreases b - i,
    {
        push_char(s, v[i]);
        proof {
            assert(v@.subrange(a as int, i + 1) =~= v@.subrange(a as int, i as int).push(v@[i as int]));
        }
        i = i + 1;
    }
}

/// `Uuid::simple`: the id as 32 lower-case hex digits.
pub fn id_simple(id: u128) -> (r: String)
    ensures
        r@ == spec_id_simple(id),
{
    let v = id_digits(id);
    let mut s = String::new();
    push_range(&mut s, &v, 0, 32);
    proof {
        assert(v@.subrange(0, 32) =~= v@);
    }
    s
}

/// Appends the hyphenated form of `id`.
pub fn push_id_text(s: &mut String, id: u128)
    ensures
        final(s)@ == old(s)@ + spec_id_text(id),
{
    let v = id_digits(id);
    push_range(s, &v, 0, 8);
    push_char(s, '-');
    push_range(s, &v, 8, 12);
    push_char(s, '-');
    push_range(s, &v, 12, 16);
    push_char(s, '-');
    push_range(s, &v, 16, 20);
    push_char(s, '-');
    push_range(s, &v, 20, 32);
    proof {
        let h = v@;
        assert(final(s)@ =~= old(s)@ + (h.subrange(0, 8) + seq!['-'] + h.subrange(8, 12) + seq!['-']
            + h.subrange(12, 16) + seq!['-'] + h.subrange(16, 20) + seq!['-'] + h.subrange(20, 32)));
    }
}

/// The lowest `n` decimal digits of `x`, zero-padded, most significant first.
pub open spec fn decimal_fixed(x: nat, n: nat) -> Seq<char>
    decreases n,
{
    if n == 0 {
        seq![]
    } else {
        decimal_fixed(x / 10, (n - 1) as nat).push(digit_char(x % 10))
    }
}

/// How the database prints a decimal: a `-` when the sign flag is set, the
/// whole part, and exactly `scale` fractional digits after a point.
pub open spec fn spec_amount_text(a: Amount) -> Seq<char> {
    let p = pow10(a.scale as nat);
    let sign: Seq<char> = if a.negative { seq!['-'] } else { seq![] };
    let whole = decimal((a.mantissa as nat) / p);
    if a.scale == 0 {
        sign + whole
    } else {
        sign + whole + seq!['.'] + decimal_fixed((a.mantissa as nat) % p, a.scale as nat)
    }
}

fn push_decimal_u128(s: &mut String, n: u128)
    ensures
        final(s)@ == old(s)@ + decimal(n as nat),
    decreases n,
{
    if n >= 10 {
        push_decimal_u128(s, n / 10);
    }
    push_char(s, crate::text::digit((n % 10) as u64));
    proof {
        if n >= 10 {
            assert(decimal(n as nat) == decimal((n / 10) as nat).push(digit_char((n % 10) as nat)));
        } else {
            assert(decimal(n as nat) == seq![digit_char(n as nat)]);
        }
    }
}

fn push_decimal_fixed(s: &mut String, x: u128, n: u32)
    ensures
        final(s)@ == old(s)@ + decimal_fixed(x as nat, n as nat),
    decreases n,
{
    if n > 0 {
        push_decimal_fixed(s, x / 10, n - 1);
        push_char(s, crate::text::digit((x % 10) as u64));
    }
}

/// Appends the printed form of a decimal amount.
pub fn push_amount_text(s: &mut String, a: Amount)
    requires
        a.wf(),
    ensures
        final(s)@ == old(s)@ + spec_amount_text(a),
{
    let p = crate::money::pow10_u128(a.scale);
    proof {
        crate::money::lemma_pow10_positive(a.scale as nat);
    }
    let ghost start = s@;
    if a.negative {
        push_char(s, '-');
    }
    push_decimal_u128(s, a.mantissa / p);
    if a.scale > 0 {
        push_char(s, '.');
        push_decimal_fixed(s, a.mantissa % p, a.scale);
    }
    proof {
        let sign: Seq<char> = if a.negative { seq!['-'] } else { seq![] };
        let whole = decimal((a.mantissa as nat) / pow10(a.scale as nat));
        if a.scale == 0 {
            assert(s@ =~= start + (sign + whole));
        } else {
            assert(s@ =~= start + (sign + whole + seq!['.'] + decimal_fixed(
                (a.mantissa as nat) % pow10(a.scale as nat),
                a.scale as nat,
            )));
        }
    }
}

} // verus!
