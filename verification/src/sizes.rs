//! Byte counts in words: `512 B`, `1.5 KiB`, `2 GiB`, and back.
//!
//! The numbers are those a double-precision quotient rounds to, worked out in
//! whole numbers: dividing by a power of two moves no digit, so only the step
//! into the double and the step into the decimal round.
use crate::text;
use vstd::prelude::*;

verus! {

/// The distance between neighbouring doubles around `n`.
pub open spec fn grain(n: nat) -> nat
    decreases n,
{
    if n < 0x20_0000_0000_0000 {
        1
    } else {
        2 * grain(n / 2)
    }
}

/// `n / d` to the nearest whole number, a tie going to the even one.
pub open spec fn nearest_even(n: nat, d: nat) -> nat {
    let q = n / d;
    let r = n % d;
    if 2 * r < d || (2 * r == d && q % 2 == 0) {
        q
    } else {
        q + 1
    }
}

/// The double nearest to a whole number, itself a whole number.
pub open spec fn double_of(n: nat) -> nat {
    nearest_even(n, grain(n)) * grain(n)
}

/// How many times 1024 goes into a byte count before a number under 1024 is
/// left, up to four times.
pub open spec fn unit_of(size: nat) -> nat {
    if size < 0x400 {
        0
    } else if size < 0x10_0000 {
        1
    } else if size < 0x4000_0000 {
        2
    } else if size < 0x100_0000_0000 {
        3
    } else {
        4
    }
}

/// The bytes in one of the unit: 1024 to that power.
pub open spec fn unit_size(unit: nat) -> nat {
    if unit == 0 {
        1
    } else if unit == 1 {
        0x400
    } else if unit == 2 {
        0x10_0000
    } else if unit == 3 {
        0x4000_0000
    } else {
        0x100_0000_0000
    }
}

/// A number of tenths with one decimal.
pub open spec fn tenths_text(tenths: nat) -> Seq<char> {
    text::numeral(tenths / 10, 10) + seq!['.'] + seq![text::digit((tenths % 10) as int)]
}

/// A byte count in the largest unit it fills, one decimal past bytes.
pub open spec fn size_text(bytes: nat, units: Seq<Seq<char>>) -> Seq<char> {
    let size = double_of(bytes);
    let unit = unit_of(size);
    if unit == 0 {
        text::numeral(bytes, 10) + seq![' '] + units[0]
    } else {
        tenths_text(nearest_even(10 * size, unit_size(unit))) + seq![' '] + units[unit as int]
    }
}

/// The binary units.
pub open spec fn binary_units() -> Seq<Seq<char>> {
    seq!["B"@, "KiB"@, "MiB"@, "GiB"@, "TiB"@]
}

/// The units a listing goes by.
pub open spec fn listing_units() -> Seq<Seq<char>> {
    seq!["B"@, "KB"@, "MB"@, "GB"@, "TB"@]
}

/// A grain fits under the number it is the grain of.
proof fn lemma_grain(n: nat)
    ensures
        grain(n) >= 1,
        n < 0x20_0000_0000_0000 ==> grain(n) == 1,
        n >= 0x20_0000_0000_0000 ==> grain(n) * 0x10_0000_0000_0000 <= n,
    decreases n,
{
    if n >= 0x20_0000_0000_0000 {
        lemma_grain(n / 2);
    }
}

fn grain_of(n: u128) -> (r: u128)
    requires
        n < 0x100_0000_0000_0000_0000_0000,
    ensures
        r == grain(n as nat),
    decreases n,
{
    proof {
        lemma_grain(n as nat);
    }
    if n < 0x20_0000_0000_0000 {
        1
    } else {
        let half: u128 = grain_of(n / 2);
        half * 2
    }
}

fn round_even(n: u128, d: u128) -> (r: u128)
    requires
        0 < d < 0x100_0000_0000_0000_0000_0000,
        n < 0x100_0000_0000_0000_0000_0000,
    ensures
        r == nearest_even(n as nat, d as nat),
        r <= n / d + 1,
{
    let q: u128 = n / d;
    let rest: u128 = n % d;
    if 2 * rest < d || (2 * rest == d && q % 2 == 0) {
        q
    } else {
        proof {
            assert(q <= n) by (nonlinear_arith)
                requires
                    q == n / d,
                    d > 0,
                    n >= 0,
            ;
        }
        q + 1
    }
}

/// The double nearest to `n`.
fn as_double(n: u128) -> (r: u128)
    requires
        n < 0x80_0000_0000_0000_0000_0000,
    ensures
        r == double_of(n as nat),
        r <= 2 * n + 2,
{
    let g: u128 = grain_of(n);
    proof {
        lemma_grain(n as nat);
    }
    let q: u128 = round_even(n, g);
    proof {
        assert(q * g <= n + g) by (nonlinear_arith)
            requires
                q <= n / g + 1,
                g >= 1,
                n >= 0,
        ;
        assert(g <= n + 1) by {
            if n >= 0x20_0000_0000_0000 {
                assert(g * 0x10_0000_0000_0000 <= n);
            }
        }
    }
    q * g
}

fn unit_for(size: u128) -> (r: usize)
    ensures
        r == unit_of(size as nat),
        r <= 4,
{
    if size < 0x400 {
        0
    } else if size < 0x10_0000 {
        1
    } else if size < 0x4000_0000 {
        2
    } else if size < 0x100_0000_0000 {
        3
    } else {
        4
    }
}

fn size_of_unit(unit: usize) -> (r: u128)
    ensures
        r == unit_size(unit as nat),
        0 < r <= 0x100_0000_0000,
{
    if unit == 0 {
        1
    } else if unit == 1 {
        0x400
    } else if unit == 2 {
        0x10_0000
    } else if unit == 3 {
        0x4000_0000
    } else {
        0x100_0000_0000
    }
}

fn write_size(bytes: u64, units: [&'static str; 5]) -> (r: String)
    ensures
        r@ == size_text(bytes as nat, seq![units@[0]@, units@[1]@, units@[2]@, units@[3]@, units@[4]@]),
{
    let ghost names = seq![units@[0]@, units@[1]@, units@[2]@, units@[3]@, units@[4]@];
    let size: u128 = as_double(bytes as u128);
    let unit: usize = unit_for(size);
    let name: &'static str = units[unit];
    assert(name@ == names[unit as int]);
    if unit == 0 {
        let mut out = text::decimal(bytes);
        out.push(' ');
        out.append(name);
        assert(out@ =~= text::numeral(bytes as nat, 10) + seq![' '] + names[0]);
        out
    } else {
        let per: u128 = size_of_unit(unit);
        let tenths: u128 = round_even(10 * size, per);
        proof {
            assert(10 * size / (per as int) <= 10 * size / 0x400) by (nonlinear_arith)
                requires
                    per >= 0x400,
                    size >= 0,
            ;
        }
        let whole: u64 = (tenths / 10) as u64;
        let rest: u64 = (tenths % 10) as u64;
        let mut out = text::decimal(whole);
        out.push('.');
        out.push(text::digit_of(rest));
        out.push(' ');
        out.append(name);
        proof {
            let t = nearest_even(10 * size as nat, unit_size(unit as nat));
            assert(tenths == t);
            assert(out@ =~= text::numeral(t / 10, 10) + seq!['.'] + seq![
                text::digit((t % 10) as int),
            ] + seq![' '] + names[unit as int]);
        }
        out
    }
}

/// Bytes in human units: `512 B`, `1.5 KiB`, `2.0 GiB`. One decimal past bytes
/// so a quota line reads at a glance.
pub fn human_bytes(bytes: u64) -> (r: String)
    ensures
        r@ == size_text(bytes as nat, binary_units()),
{
    write_size(bytes, ["B", "KiB", "MiB", "GiB", "TiB"])
}

/// A file's size as the drive listing shows it.
pub fn human_size(bytes: u64) -> (r: String)
    ensures
        r@ == size_text(bytes as nat, listing_units()),
{
    write_size(bytes, ["B", "KB", "MB", "GB", "TB"])
}

// ---- Form amounts ---------------------------------------------------------
/// The units the limit forms speak.
#[derive(Clone, Copy, Debug, PartialEq, Eq, Structural)]
pub enum LimitUnit {
    MiB,
    GiB,
}

/// The word of a form unit.
pub open spec fn limit_word(unit: LimitUnit) -> Seq<char> {
    match unit {
        LimitUnit::MiB => "MiB"@,
        LimitUnit::GiB => "GiB"@,
    }
}

/// Bytes in one of the unit.
pub open spec fn limit_size(unit: LimitUnit) -> nat {
    match unit {
        LimitUnit::MiB => 0x10_0000,
        LimitUnit::GiB => 0x4000_0000,
    }
}

/// The unit a byte count is edited in: gibibytes once it reaches one.
pub open spec fn limit_unit_of(bytes: nat) -> LimitUnit {
    if bytes >= 0x4000_0000 {
        LimitUnit::GiB
    } else {
        LimitUnit::MiB
    }
}

/// A byte count in hundredths of a unit: the quotient times a hundred as the
/// doubles have it, a tie going up.
pub open spec fn hundredths_of(bytes: nat, per: nat) -> nat {
    (2 * double_of(100 * double_of(bytes)) + per) / (2 * per)
}

/// Hundredths as a form amount: two decimals at most, no trailing zero and no
/// bare point.
pub open spec fn amount_text(hundredths: nat) -> Seq<char> {
    let whole = text::numeral(hundredths / 100, 10);
    let rest = hundredths % 100;
    if rest == 0 {
        whole
    } else if rest % 10 == 0 {
        whole + seq!['.'] + seq![text::digit((rest / 10) as int)]
    } else {
        whole + seq!['.'] + seq![text::digit((rest / 10) as int)] + seq![
            text::digit((rest % 10) as int),
        ]
    }
}

impl LimitUnit {
    pub fn as_str(self) -> (r: &'static str)
        ensures
            r@ == limit_word(self),
    {
        match self {
            LimitUnit::MiB => "MiB",
            LimitUnit::GiB => "GiB",
        }
    }

    /// The unit a form field names, if it is one the form offers.
    pub fn from_word(word: &str) -> (r: Option<LimitUnit>)
        ensures
            match r {
                Some(unit) => limit_word(unit) == word@,
                None => forall|unit: LimitUnit| #[trigger] limit_word(unit) != word@,
            },
    {
        if text::same(word, "MiB") {
            Some(LimitUnit::MiB)
        } else if text::same(word, "GiB") {
            Some(LimitUnit::GiB)
        } else {
            None
        }
    }
}

/// A form amount for a number input, so the field reads `2` and `2.5`, never
/// `2.00` or `2.5000000001`.
pub fn trim_amount(hundredths: u64) -> (r: String)
    ensures
        r@ == amount_text(hundredths as nat),
{
    let rest: u64 = hundredths % 100;
    let mut out = text::decimal(hundredths / 100);
    let ghost whole = out@;
    if rest != 0 {
        out.push('.');
        out.push(text::digit_of(rest / 10));
        if rest % 10 != 0 {
            out.push(text::digit_of(rest % 10));
            assert(out@ =~= whole + seq!['.'] + seq![text::digit(rest as int / 10)] + seq![
                text::digit(rest as int % 10),
            ]);
        } else {
            assert(out@ =~= whole + seq!['.'] + seq![text::digit(rest as int / 10)]);
        }
    }
    out
}

/// The amount and unit a human-unit form field defaults to: gibibytes once the
/// value reaches one, mebibytes below it.
pub fn bytes_as_unit(bytes: u64) -> (r: (String, LimitUnit))
    ensures
        r.1 == limit_unit_of(bytes as nat),
        r.0@ == amount_text(hundredths_of(bytes as nat, limit_size(limit_unit_of(bytes as nat)))),
{
    let unit = if bytes >= 0x4000_0000 {
        LimitUnit::GiB
    } else {
        LimitUnit::MiB
    };
    let per: u128 = match unit {
        LimitUnit::MiB => 0x10_0000,
        LimitUnit::GiB => 0x4000_0000,
    };
    let near: u128 = as_double(bytes as u128);
    let scaled: u128 = as_double(100 * near);
    let hundredths: u128 = (2 * scaled + per) / (2 * per);
    proof {
        assert(hundredths <= 0xffff_ffff_ffff_ffff) by (nonlinear_arith)
            requires
                hundredths == (2 * scaled + per) / (2 * per),
                per >= 0x10_0000,
                scaled <= 0x400_0000_0000_0000_0000,
        ;
    }
    (trim_amount(hundredths as u64), unit)
}

/// A double taken apart: `mantissa` times two to the `exponent`, when it is
/// finite and no negative number.
pub open spec fn double_parts(bits: u64) -> Option<(nat, int)> {
    let negative = bits >= 0x8000_0000_0000_0000;
    let exponent = (bits / 0x10_0000_0000_0000) % 0x800;
    let fraction = bits % 0x10_0000_0000_0000;
    if exponent == 0x7ff {
        None
    } else if negative && !(exponent == 0 && fraction == 0) {
        None
    } else if exponent == 0 {
        Some((fraction as nat, -1074))
    } else {
        Some(((0x10_0000_0000_0000 + fraction) as nat, exponent - 1075))
    }
}

/// `mantissa` times two to the `exponent`, to the nearest whole number, a tie
/// going up.
pub open spec fn scaled(mantissa: nat, exponent: int) -> nat {
    if exponent >= 0 {
        mantissa * vstd::arithmetic::power2::pow2(exponent as nat)
    } else {
        (2 * mantissa + vstd::arithmetic::power2::pow2((-exponent) as nat)) / (2 * vstd::arithmetic::power2::pow2((-exponent) as nat))
    }
}

/// The power of two a form unit is.
pub open spec fn limit_power(unit: LimitUnit) -> int {
    match unit {
        LimitUnit::MiB => 20,
        LimitUnit::GiB => 30,
    }
}

/// The bytes an amount of a unit names, capped at what 64 bits hold.
pub open spec fn limit_of(amount: Option<u64>, unit: Option<LimitUnit>) -> Option<u64> {
    match (amount, unit) {
        (Some(bits), Some(unit)) => match double_parts(bits) {
            Some((mantissa, exponent)) => {
                let bytes = scaled(mantissa, exponent + limit_power(unit));
                Some(
                    if bytes > u64::MAX {
                        u64::MAX
                    } else {
                        bytes as u64
                    },
                )
            },
            None => None,
        },
        _ => None,
    }
}

/// The unit a word names.
pub open spec fn unit_named(word: Seq<char>) -> Option<LimitUnit> {
    if word == "MiB"@ {
        Some(LimitUnit::MiB)
    } else if word == "GiB"@ {
        Some(LimitUnit::GiB)
    } else {
        None
    }
}

fn power_of_two(k: u32) -> (r: u64)
    requires
        k < 64,
    ensures
        r == vstd::arithmetic::power2::pow2(k as nat),
        r >= 1,
    decreases k,
{
    proof {
        vstd::arithmetic::power2::lemma_pow2(k as nat);
        vstd::arithmetic::power2::lemma2_to64();
        vstd::arithmetic::power2::lemma2_to64_rest();
    }
    if k == 0 {
        1
    } else {
        proof {
            vstd::arithmetic::power2::lemma_pow2_unfold(k as nat);
            vstd::arithmetic::power2::lemma_pow2_strictly_increases(k as nat, 64);
        }
        let half: u64 = power_of_two(k - 1);
        half * 2
    }
}

/// `mantissa` times two to the `exponent`, rounded and capped.
fn scale(mantissa: u64, exponent: i64) -> (r: u64)
    requires
        mantissa < 0x20_0000_0000_0000,
        exponent >= 0 ==> mantissa >= 0x10_0000_0000_0000,
        -2000 < exponent < 2000,
    ensures
        r == if scaled(mantissa as nat, exponent as int) > u64::MAX {
            u64::MAX
        } else {
            scaled(mantissa as nat, exponent as int) as u64
        },
{
    proof {
        vstd::arithmetic::power2::lemma2_to64();
        vstd::arithmetic::power2::lemma2_to64_rest();
    }
    if exponent >= 12 {
        proof {
            let p = vstd::arithmetic::power2::pow2(exponent as nat);
            if exponent > 12 {
                vstd::arithmetic::power2::lemma_pow2_strictly_increases(12, exponent as nat);
            }
            assert(p >= 0x1000);
            assert(mantissa * p >= 0x10_0000_0000_0000 * 0x1000) by (nonlinear_arith)
                requires
                    mantissa >= 0x10_0000_0000_0000,
                    p >= 0x1000,
            ;
        }
        u64::MAX
    } else if exponent >= 0 {
        let p: u64 = power_of_two(exponent as u32);
        proof {
            if exponent < 11 {
                vstd::arithmetic::power2::lemma_pow2_strictly_increases(exponent as nat, 11);
            }
            assert(p <= 0x800);
            assert(mantissa * p <= 0x1f_ffff_ffff_ffff * 0x800) by (nonlinear_arith)
                requires
                    mantissa <= 0x1f_ffff_ffff_ffff,
                    p <= 0x800,
            ;
        }
        mantissa * p
    } else if exponent <= -55 {
        proof {
            let p = vstd::arithmetic::power2::pow2((-exponent) as nat);
            if exponent < -55 {
                vstd::arithmetic::power2::lemma_pow2_strictly_increases(55, (-exponent) as nat);
            }
            assert(p >= 0x80_0000_0000_0000);
            assert((2 * mantissa + p) / (2 * p as int) == 0) by (nonlinear_arith)
                requires
                    0 <= 2 * mantissa < p,
                    p > 0,
            ;
        }
        0
    } else {
        let p: u64 = power_of_two((-exponent) as u32);
        proof {
            if exponent > -54 {
                vstd::arithmetic::power2::lemma_pow2_strictly_increases((-exponent) as nat, 54);
            }
            assert(p <= 0x40_0000_0000_0000);
            assert((2 * mantissa + p) / (2 * p as int) <= 2 * mantissa + p) by (nonlinear_arith)
                requires
                    mantissa >= 0,
                    p > 0,
            ;
        }
        (2 * mantissa + p) / (2 * p)
    }
}

/// The bytes an amount of a unit names, or `None` when the pair is not a usable
/// limit: an unknown unit, or an amount that is not a finite number from zero
/// up. `amount` holds the bits of the amount as a double, or nothing where the
/// field held no number. Callers decide whether zero passes.
pub fn unit_bytes(amount: Option<u64>, unit: &str) -> (r: Option<u64>)
    ensures
        r == limit_of(amount, unit_named(unit@)),
{
    let unit = match LimitUnit::from_word(unit) {
        Some(unit) => unit,
        None => {
            assert(limit_word(LimitUnit::MiB) != unit@);
            assert(limit_word(LimitUnit::GiB) != unit@);
            return None;
        },
    };
    proof {
        reveal_strlit("MiB");
        reveal_strlit("GiB");
        assert("MiB"@[0] != "GiB"@[0]);
    }
    let bits: u64 = match amount {
        Some(bits) => bits,
        None => return None,
    };
    let exponent: u64 = (bits / 0x10_0000_0000_0000) % 0x800;
    let fraction: u64 = bits % 0x10_0000_0000_0000;
    if exponent == 0x7ff {
        return None;
    }
    if bits >= 0x8000_0000_0000_0000 && !(exponent == 0 && fraction == 0) {
        return None;
    }
    let power: i64 = match unit {
        LimitUnit::MiB => 20,
        LimitUnit::GiB => 30,
    };
    if exponent == 0 {
        Some(scale(fraction, -1074 + power))
    } else {
        Some(scale(0x10_0000_0000_0000 + fraction, exponent as i64 - 1075 + power))
    }
}

/// Whether the bits are those of a double that is the whole number `n`.
pub open spec fn double_is(bits: u64, n: nat) -> bool {
    match double_parts(bits) {
        Some((mantissa, exponent)) => if exponent >= 0 {
            mantissa * vstd::arithmetic::power2::pow2(exponent as nat) == n
        } else {
            mantissa == n * vstd::arithmetic::power2::pow2((-exponent) as nat)
        },
        None => false,
    }
}

/// Doubles hold a whole number of 53 bits times a power of two as it is.
proof fn lemma_double_exact(m: nat, k: nat)
    requires
        m < 0x20_0000_0000_0000,
    ensures
        double_of(m * vstd::arithmetic::power2::pow2(k)) == m * vstd::arithmetic::power2::pow2(k),
{
    let n = m * vstd::arithmetic::power2::pow2(k);
    let g = grain(n);
    lemma_grain(n);
    lemma_grain_divides(m, k);
    let q = choose|q: nat| n == #[trigger] (q * g);
    assert(n / g == q && n % g == 0) by (nonlinear_arith)
        requires
            n == q * g,
            g >= 1,
            q >= 0,
    ;
}

proof fn lemma_grain_divides(m: nat, k: nat)
    requires
        m < 0x20_0000_0000_0000,
    ensures
        exists|q: nat|
            m * vstd::arithmetic::power2::pow2(k) == #[trigger] (q * grain(
                m * vstd::arithmetic::power2::pow2(k),
            )),
    decreases k,
{
    let n = m * vstd::arithmetic::power2::pow2(k);
    if n < 0x20_0000_0000_0000 {
        let g = grain(n);
        assert(g == 1);
        assert(n == n * g) by (nonlinear_arith)
            requires
                g == 1,
        ;
    } else {
        if k == 0 {
            vstd::arithmetic::power2::lemma2_to64();
            assert(false);
        }
        let half = m * vstd::arithmetic::power2::pow2((k - 1) as nat);
        vstd::arithmetic::power2::lemma_pow2_unfold(k);
        assert(n == 2 * half) by (nonlinear_arith)
            requires
                n == m * vstd::arithmetic::power2::pow2(k),
                half == m * vstd::arithmetic::power2::pow2((k - 1) as nat),
                vstd::arithmetic::power2::pow2(k) == 2 * vstd::arithmetic::power2::pow2(
                    (k - 1) as nat,
                ),
        ;
        lemma_grain_divides(m, (k - 1) as nat);
        let q = choose|q: nat| half == #[trigger] (q * grain(half));
        let g = grain(half);
        assert(n == q * (2 * g)) by (nonlinear_arith)
            requires
                n == 2 * half,
                half == q * g,
        ;
        assert(n / 2 == half);
        assert(n == q * grain(n));
    }
}

/// A whole number taken as a double and scaled by a power of two is the product.
pub proof fn lemma_scaled(bits: u64, n: nat, power: nat)
    requires
        double_is(bits, n),
    ensures
        match double_parts(bits) {
            Some((mantissa, exponent)) => scaled(mantissa, exponent + power) == n
                * vstd::arithmetic::power2::pow2(power),
            None => false,
        },
{
    let (m, e) = double_parts(bits)->Some_0;
    let p = vstd::arithmetic::power2::pow2(power);
    if e >= 0 {
        let a = vstd::arithmetic::power2::pow2(e as nat);
        vstd::arithmetic::power2::lemma_pow2_adds(e as nat, power);
        assert(m * (a * p) == n * p) by (nonlinear_arith)
            requires
                n == m * a,
        ;
    } else if e + power >= 0 {
        let a = vstd::arithmetic::power2::pow2((-e) as nat);
        let b = vstd::arithmetic::power2::pow2((e + power) as nat);
        vstd::arithmetic::power2::lemma_pow2_adds((-e) as nat, (e + power) as nat);
        assert(m * b == n * p) by (nonlinear_arith)
            requires
                m == n * a,
                p == a * b,
        ;
    } else {
        let a = vstd::arithmetic::power2::pow2((-e) as nat);
        let b = vstd::arithmetic::power2::pow2((-(e + power)) as nat);
        vstd::arithmetic::power2::lemma_pow2_adds(power, (-(e + power)) as nat);
        vstd::arithmetic::power2::lemma_pow2_pos((-(e + power)) as nat);
        let c = n * p;
        assert(m == c * b) by (nonlinear_arith)
            requires
                m == n * a,
                a == p * b,
                c == n * p,
        ;
        assert((2 * m + b) / (2 * b) == c) by (nonlinear_arith)
            requires
                m == c * b,
                b > 0,
                c >= 0,
        ;
    }
}

pub proof fn lemma_unit_power(unit: LimitUnit)
    ensures
        limit_size(unit) == vstd::arithmetic::power2::pow2(limit_power(unit) as nat),
{
    vstd::arithmetic::power2::lemma2_to64();
}

/// A whole number of units is that number of hundreds of hundredths.
proof fn lemma_whole_units(n: nat, unit: LimitUnit)
    requires
        n < 0x4_0000_0000,
    ensures
        hundredths_of(n * limit_size(unit), limit_size(unit)) == 100 * n,
{
    let per = limit_size(unit);
    let power = limit_power(unit) as nat;
    let hundred = 100 * n;
    lemma_unit_power(unit);
    lemma_double_exact(n, power);
    lemma_double_exact(hundred, power);
    assert(hundred * per == 100 * (n * per)) by (nonlinear_arith)
        requires
            hundred == 100 * n,
    ;
    assert((2 * (hundred * per) + per) / (2 * per) == hundred) by (nonlinear_arith)
        requires
            per > 0,
            hundred >= 0,
    ;
}

/// A form saved as it was shown keeps its limit: a whole number of mebibytes
/// under a gibibyte, or of gibibytes, is shown as its numeral in that unit, the
/// numeral reads as the number, and any double that is the number names the same
/// bytes again.
pub proof fn law_an_unedited_form_keeps_its_limit(n: nat, unit: LimitUnit, bits: u64)
    requires
        match unit {
            LimitUnit::MiB => n < 1024,
            LimitUnit::GiB => 1 <= n < 0x4_0000_0000,
        },
        double_is(bits, n),
    ensures
        ({
            let bytes = n * limit_size(unit);
            let shown = amount_text(hundredths_of(bytes, limit_size(limit_unit_of(bytes))));
            &&& bytes <= u64::MAX
            &&& limit_unit_of(bytes) == unit
            &&& shown == text::numeral(n, 10)
            &&& text::read_unsigned(shown) == Some(n as int)
            &&& limit_of(Some(bits), unit_named(limit_word(unit))) == Some(bytes as u64)
        }),
{
    let per = limit_size(unit);
    let power = limit_power(unit) as nat;
    let bytes = n * per;
    lemma_unit_power(unit);
    assert(bytes <= u64::MAX && limit_unit_of(bytes) == unit) by {
        assert(n * 0x10_0000 == bytes || n * 0x4000_0000 == bytes);
    }
    lemma_whole_units(n, unit);
    assert(amount_text(100 * n) == text::numeral(n, 10)) by {
        assert((100 * n) / 100 == n && (100 * n) % 100 == 0);
    }
    text::law_numeral_is_read_back(n);
    lemma_scaled(bits, n, power);
    assert(unit_named(limit_word(unit)) == Some(unit)) by {
        reveal_strlit("MiB");
        reveal_strlit("GiB");
        assert("MiB"@[0] != "GiB"@[0]);
    }
}

/// The share of a quota already held, from 0 to 100; all of it where there is
/// none.
pub open spec fn percent_of(used: nat, quota: nat) -> nat {
    if quota == 0 {
        100
    } else {
        let hundredfold = if used * 100 > u64::MAX {
            u64::MAX as nat
        } else {
            used * 100
        };
        if hundredfold / quota > 100 {
            100
        } else {
            hundredfold / quota
        }
    }
}

/// The share of the quota already held, for the usage bar's width.
pub fn quota_percent(used_bytes: u64, quota_bytes: u64) -> (r: u8)
    ensures
        r == percent_of(used_bytes as nat, quota_bytes as nat),
        r <= 100,
{
    if quota_bytes == 0 {
        return 100;
    }
    let hundredfold: u64 = if used_bytes > u64::MAX / 100 {
        u64::MAX
    } else {
        used_bytes * 100
    };
    let share: u64 = hundredfold / quota_bytes;
    if share > 100 {
        100
    } else {
        share as u8
    }
}

} // verus!
