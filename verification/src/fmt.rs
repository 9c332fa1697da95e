//! Decimal rendering of amounts and quantities.
//!
//! An amount prints as an optionally signed decimal: the integer part,
//! and — when the remainder is not zero — a fractional part of up to
//! [`FRAC_DIGIT_CAP`] digits. Every amount whose denominator divides a
//! power of ten inside that cap prints exactly.

use vstd::prelude::*;

use crate::rat::{rat_wf, Rat};
use crate::text::ascii_to_string;

verus! {

/// Most fractional digits ever printed.
pub const FRAC_DIGIT_CAP: u32 = 40;

/// The ASCII digits of a nonnegative integer, most significant first.
pub open spec fn digits_of(n: int) -> Seq<u8>
    decreases n,
    when n >= 0
{
    if n < 10 {
        seq![(48 + n) as u8]
    } else {
        digits_of(n / 10) + seq![(48 + n % 10) as u8]
    }
}

/// The ASCII digits of the fractional expansion of `rem / d`, at most
/// `fuel` of them.
pub open spec fn frac_digits_of(rem: int, d: int, fuel: nat) -> Seq<u8>
    decreases fuel,
{
    if rem == 0 || fuel == 0 || d <= 0 {
        Seq::empty()
    } else {
        seq![(48 + (rem * 10) / d) as u8] + frac_digits_of((rem * 10) % d, d, (fuel - 1) as nat)
    }
}

/// The full ASCII rendering of a rational: optional minus sign, integer
/// digits, and a dot followed by the fractional digits when any exist.
pub open spec fn decimal_bytes(r: Rat) -> Seq<u8> {
    let m: int = crate::rat::rat_abs(r.num as int);
    let d: int = r.den as int;
    let sign: Seq<u8> = if r.num < 0 {
        seq![45u8]
    } else {
        Seq::empty()
    };
    let frac = frac_digits_of(m % d, d, FRAC_DIGIT_CAP as nat);
    if frac.len() == 0 {
        sign + digits_of(m / d)
    } else {
        sign + digits_of(m / d) + seq![46u8] + frac
    }
}

/// Appends the decimal digits of `n`.
fn push_digits(out: &mut Vec<u8>, n: i128)
    requires
        n >= 0,
    ensures
        final(out)@ == old(out)@ + digits_of(n as int),
    decreases n,
{
    if n < 10 {
        out.push(48 + n as u8);
        proof {
            assert(out@ =~= old(out)@ + digits_of(n as int));
        }
    } else {
        push_digits(out, n / 10);
        let d = n % 10;
        out.push(48 + d as u8);
        proof {
            assert(out@ =~= old(out)@ + digits_of(n as int));
        }
    }
}

/// Appends up to `fuel` fractional digits of `rem / d`.
fn push_frac_digits(out: &mut Vec<u8>, rem: i128, d: i128, fuel: u32)
    requires
        0 <= rem < d,
        1 <= d <= crate::rat::RAT_BOUND,
    ensures
        final(out)@ == old(out)@ + frac_digits_of(rem as int, d as int, fuel as nat),
    decreases fuel,
{
    if rem == 0 || fuel == 0 {
        proof {
            assert(out@ =~= old(out)@ + frac_digits_of(rem as int, d as int, fuel as nat));
        }
        return ;
    }
    let r10 = rem * 10;
    let q = r10 / d;
    let r2 = r10 % d;
    proof {
        assert(0 <= q < 10 && 0 <= r2 < d) by (nonlinear_arith)
            requires
                0 <= rem < d,
                1 <= d,
                r10 == rem * 10,
                q == r10 as int / d as int,
                r2 == r10 as int % d as int,
        ;
    }
    out.push(48 + q as u8);
    push_frac_digits(out, r2, d, fuel - 1);
    proof {
        assert(out@ =~= old(out)@ + frac_digits_of(rem as int, d as int, fuel as nat));
    }
}

/// Every digit byte of an integer rendering is an ASCII digit.
proof fn lemma_digits_ascii(n: int)
    requires
        n >= 0,
    ensures
        forall|i: int| 0 <= i < digits_of(n).len() ==> 48 <= #[trigger] digits_of(n)[i] < 58,
    decreases n,
{
    if n >= 10 {
        lemma_digits_ascii(n / 10);
        assert(0 <= n % 10 < 10);
        assert forall|i: int| 0 <= i < digits_of(n).len() implies 48 <= #[trigger] digits_of(n)[i]
            < 58 by {
            if i < digits_of(n / 10).len() {
                assert(digits_of(n)[i] == digits_of(n / 10)[i]);
            } else {
                assert(digits_of(n)[i] == (48 + n % 10) as u8);
            }
        }
    }
}

/// Every digit byte of a fractional rendering is an ASCII digit.
proof fn lemma_frac_ascii(rem: int, d: int, fuel: nat)
    requires
        0 <= rem < d,
    ensures
        forall|i: int|
            0 <= i < frac_digits_of(rem, d, fuel).len() ==> 48 <= #[trigger] frac_digits_of(
                rem,
                d,
                fuel,
            )[i] < 58,
    decreases fuel,
{
    if rem != 0 && fuel > 0 && d > 0 {
        assert(0 <= (rem * 10) / d < 10 && 0 <= (rem * 10) % d < d) by (nonlinear_arith)
            requires
                0 <= rem < d,
                1 <= d,
        ;
        lemma_frac_ascii((rem * 10) % d, d, (fuel - 1) as nat);
        let tail = frac_digits_of((rem * 10) % d, d, (fuel - 1) as nat);
        assert forall|i: int| 0 <= i < frac_digits_of(rem, d, fuel).len() implies 48
            <= #[trigger] frac_digits_of(rem, d, fuel)[i] < 58 by {
            if i == 0 {
                assert(frac_digits_of(rem, d, fuel)[0] == (48 + (rem * 10) / d) as u8);
            } else {
                assert(frac_digits_of(rem, d, fuel)[i] == tail[i - 1]);
            }
        }
    }
}

/// Renders an amount as a decimal string.
pub fn decimal_string(r: &Rat) -> (s: String)
    requires
        rat_wf(*r),
    ensures
        s@ == decimal_chars(*r),
{
    let mut out: Vec<u8> = Vec::new();
    let m = if r.num < 0 {
        -r.num
    } else {
        r.num
    };
    if r.num < 0 {
        out.push(45);
    }
    let ghost after_sign = out@;
    let ip = m / r.den;
    let rem = m % r.den;
    proof {
        assert(0 <= ip && 0 <= rem < r.den) by (nonlinear_arith)
            requires
                0 <= m,
                1 <= r.den,
                ip == m as int / r.den as int,
                rem == m as int % r.den as int,
        ;
        assert(m as int == crate::rat::rat_abs(r.num as int));
    }
    push_digits(&mut out, ip);
    let ghost after_int = out@;
    if rem != 0 {
        out.push(46);
        push_frac_digits(&mut out, rem, r.den, FRAC_DIGIT_CAP);
        proof {
            assert(frac_digits_of(rem as int, r.den as int, FRAC_DIGIT_CAP as nat).len() > 0);
            assert(out@ =~= decimal_bytes(*r));
        }
    } else {
        proof {
            assert(frac_digits_of(rem as int, r.den as int, FRAC_DIGIT_CAP as nat).len() == 0);
            assert(out@ =~= decimal_bytes(*r));
        }
    }
    proof {
        lemma_digits_ascii(ip as int);
        lemma_frac_ascii(rem as int, r.den as int, FRAC_DIGIT_CAP as nat);
        assert(forall|i: int| 0 <= i < out@.len() ==> #[trigger] out@[i] < 128);
    }
    let s = ascii_to_string(&out);
    proof {
        assert(s@ =~= decimal_chars(*r));
    }
    s
}

/// Renders an amount followed by a unit symbol, or the bare amount when
/// the symbol is empty.
pub fn amount_with_symbol(r: &Rat, symbol: &str) -> (s: String)
    requires
        rat_wf(*r),
    ensures
        symbol@.len() == 0 ==> s@ == decimal_chars(*r),
        symbol@.len() > 0 ==> s@ == with_symbol_chars(*r, symbol@),
{
    let num = decimal_string(r);
    if symbol.unicode_len() == 0 {
        return num;
    }
    let mut s = num;
    s.append(" ");
    s.append(symbol);
    proof {
        reveal_strlit(" ");
        assert(s@ =~= with_symbol_chars(*r, symbol@));
    }
    s
}

/// The rendering of an amount with a nonempty symbol.
pub open spec fn with_symbol_chars(r: Rat, symbol: Seq<char>) -> Seq<char> {
    decimal_chars(r) + seq![' '] + symbol
}

/// The rendering of a bare amount, as characters.
pub open spec fn decimal_chars(r: Rat) -> Seq<char> {
    decimal_bytes(r).map_values(|b: u8| b as char)
}

/// The rendering of an amount with a symbol that may be empty: the bare
/// amount then, `amount symbol` otherwise.
pub open spec fn qty_chars(r: Rat, symbol: Seq<char>) -> Seq<char> {
    if symbol.len() == 0 {
        decimal_chars(r)
    } else {
        with_symbol_chars(r, symbol)
    }
}

/// The rendering of a rate: the term side, a slash, the per side.
pub open spec fn rate_chars(ta: Rat, ts: Seq<char>, k: Rat, ps: Seq<char>) -> Seq<char> {
    qty_chars(ta, ts) + seq![' ', '/', ' '] + qty_chars(k, ps)
}

/// Most fractional digits a precision option may request.
pub const PRECISION_CAP: u32 = 18;

/// `10^p`.
pub open spec fn pow10(p: nat) -> int
    decreases p,
{
    if p == 0 {
        1
    } else {
        10 * pow10((p - 1) as nat)
    }
}

/// Powers of ten are positive and grow with the exponent.
pub proof fn lemma_pow10_le(a: nat, b: nat)
    requires
        a <= b,
    ensures
        1 <= pow10(a) <= pow10(b),
    decreases b,
{
    if a < b {
        lemma_pow10_le(a, (b - 1) as nat);
    } else if a > 0 {
        lemma_pow10_le((a - 1) as nat, (a - 1) as nat);
    }
}

/// The numeric value of the largest allowed power of ten.
proof fn lemma_pow10_cap()
    ensures
        pow10(PRECISION_CAP as nat) == 1000000000000000000,
{
    reveal_with_fuel(pow10, 20);
}

/// `10^p` as a machine value.
fn pow10_val(p: u32) -> (r: i128)
    requires
        p <= PRECISION_CAP,
    ensures
        r == pow10(p as nat),
{
    let mut r: i128 = 1;
    let mut i: u32 = 0;
    while i < p
        invariant
            i <= p <= PRECISION_CAP,
            r == pow10(i as nat),
        decreases p - i,
    {
        proof {
            lemma_pow10_le((i + 1) as nat, PRECISION_CAP as nat);
            lemma_pow10_cap();
        }
        r = r * 10;
        i = i + 1;
    }
    r
}

/// The nonnegative integer nearest to `|r| * 10^p`, ties away from zero.
pub open spec fn rounded_abs(r: Rat, p: nat) -> int {
    let n = crate::rat::rat_abs(r.num as int) * pow10(p);
    let q = n / (r.den as int);
    if 2 * (n % (r.den as int)) >= r.den as int {
        q + 1
    } else {
        q
    }
}

/// The last `p` decimal digits of `n`, leading zeros kept.
pub open spec fn fixed_digits_of(n: int, p: nat) -> Seq<u8>
    decreases p,
{
    if p == 0 {
        Seq::empty()
    } else {
        fixed_digits_of(n / 10, (p - 1) as nat) + seq![(48 + n % 10) as u8]
    }
}

/// The ASCII rendering of an amount rounded to exactly `p` fractional
/// digits: the sign, the integer digits, and — when `p > 0` — a dot and
/// `p` digits. Ties round away from zero.
pub open spec fn precise_bytes(r: Rat, p: nat, sign_plus: bool) -> Seq<u8> {
    let sign: Seq<u8> = if r.num < 0 {
        seq![45u8]
    } else if sign_plus {
        seq![43u8]
    } else {
        Seq::empty()
    };
    let s = rounded_abs(r, p);
    if p == 0 {
        sign + digits_of(s)
    } else {
        sign + digits_of(s / pow10(p)) + seq![46u8] + fixed_digits_of(s % pow10(p), p)
    }
}

/// The rounded rendering, as characters.
pub open spec fn precise_chars(r: Rat, p: nat, sign_plus: bool) -> Seq<char> {
    precise_bytes(r, p, sign_plus).map_values(|b: u8| b as char)
}

/// The rendering of an amount under an optional precision and the sign
/// option: the exact decimal expansion when no precision is given, the
/// rounded fixed-width expansion otherwise.
pub open spec fn amount_opt_chars(r: Rat, precision: Option<u32>, sign_plus: bool) -> Seq<char> {
    match precision {
        None => if sign_plus && r.num >= 0 {
            seq!['+'] + decimal_chars(r)
        } else {
            decimal_chars(r)
        },
        Some(p) => precise_chars(r, p as nat, sign_plus),
    }
}

/// Where the fill goes when a rendering is narrower than the field.
#[derive(Clone, Copy, Debug, PartialEq, Eq, Structural)]
pub enum Alignment {
    /// The rendering keeps to the left; fill follows it.
    Left,
    /// The rendering is centered; an odd fill leaves the extra on the
    /// right.
    Center,
    /// The rendering keeps to the right; fill precedes it.
    Right,
}

/// The recognized rendering options: minimum field width, fill
/// character, alignment, decimal precision and sign display.
#[derive(Clone, Copy, Debug)]
pub struct FmtOptions {
    /// Minimum number of characters; a shorter rendering is filled.
    pub width: usize,
    /// The character that fills a short rendering.
    pub fill: char,
    /// Where the fill goes.
    pub align: Alignment,
    /// Exact number of fractional digits, ties rounded away from zero;
    /// `None` renders the exact expansion.
    pub precision: Option<u32>,
    /// Whether a nonnegative amount shows a plus sign.
    pub sign_plus: bool,
}

/// `n` copies of the fill character.
pub open spec fn fill_chars(c: char, n: int) -> Seq<char> {
    Seq::new(n as nat, |i: int| c)
}

/// The rendering padded to the field width; one at least as wide as the
/// field is unchanged.
pub open spec fn padded_chars(body: Seq<char>, width: int, fill: char, align: Alignment) -> Seq<
    char,
> {
    if body.len() >= width {
        body
    } else {
        let d = width - body.len();
        match align {
            Alignment::Left => body + fill_chars(fill, d),
            Alignment::Right => fill_chars(fill, d) + body,
            Alignment::Center => fill_chars(fill, d / 2) + body + fill_chars(fill, d - d / 2),
        }
    }
}

/// The full rendering of an amount with a symbol under the options: the
/// amount, then a space and the symbol when one exists, padded to the
/// field width.
pub open spec fn formatted_chars(r: Rat, symbol: Seq<char>, o: FmtOptions) -> Seq<char> {
    let body = amount_opt_chars(r, o.precision, o.sign_plus) + (if symbol.len() == 0 {
        Seq::<char>::empty()
    } else {
        seq![' '] + symbol
    });
    padded_chars(body, o.width as int, o.fill, o.align)
}

/// Appends exactly `p` decimal digits of `n`, leading zeros kept.
fn push_padded_digits(out: &mut Vec<u8>, n: i128, p: u32)
    requires
        n >= 0,
    ensures
        final(out)@ == old(out)@ + fixed_digits_of(n as int, p as nat),
    decreases p,
{
    if p == 0 {
        proof {
            assert(out@ =~= old(out)@ + fixed_digits_of(n as int, 0));
        }
        return ;
    }
    push_padded_digits(out, n / 10, p - 1);
    let d = n % 10;
    out.push(48 + d as u8);
    proof {
        assert(out@ =~= old(out)@ + fixed_digits_of(n as int, p as nat));
    }
}

/// Every digit byte of a fixed-width rendering is an ASCII digit.
proof fn lemma_fixed_ascii(n: int, p: nat)
    requires
        n >= 0,
    ensures
        forall|i: int|
            0 <= i < fixed_digits_of(n, p).len() ==> 48 <= #[trigger] fixed_digits_of(n, p)[i]
                < 58,
    decreases p,
{
    if p > 0 {
        lemma_fixed_ascii(n / 10, (p - 1) as nat);
        let t = fixed_digits_of(n / 10, (p - 1) as nat);
        assert forall|i: int| 0 <= i < fixed_digits_of(n, p).len() implies 48
            <= #[trigger] fixed_digits_of(n, p)[i] < 58 by {
            if i < t.len() {
                assert(fixed_digits_of(n, p)[i] == t[i]);
            } else {
                assert(fixed_digits_of(n, p)[i] == (48 + n % 10) as u8);
            }
        }
    }
}

/// Renders an amount under an optional precision and the sign option.
pub fn format_amount(r: &Rat, precision: Option<u32>, sign_plus: bool) -> (s: String)
    requires
        rat_wf(*r),
        precision matches Some(p) ==> p <= PRECISION_CAP,
    ensures
        s@ == amount_opt_chars(*r, precision, sign_plus),
{
    let p = match precision {
        None => {
            let d = decimal_string(r);
            if sign_plus && r.num >= 0 {
                let mut s = "+".to_owned();
                s.append(d.as_str());
                proof {
                    reveal_strlit("+");
                    assert(s@ =~= seq!['+'] + decimal_chars(*r));
                }
                return s;
            }
            return d;
        },
        Some(p) => p,
    };
    let m = if r.num < 0 {
        -r.num
    } else {
        r.num
    };
    let pw = pow10_val(p);
    proof {
        lemma_pow10_le(p as nat, PRECISION_CAP as nat);
        lemma_pow10_cap();
        assert(0 <= m * pw <= crate::rat::RAT_BOUND * 1000000000000000000) by (nonlinear_arith)
            requires
                0 <= m <= crate::rat::RAT_BOUND,
                1 <= pw <= 1000000000000000000,
        ;
    }
    let n = m * pw;
    let q = n / r.den;
    let rem = n % r.den;
    proof {
        assert(0 <= q <= n && 0 <= rem < r.den) by (nonlinear_arith)
            requires
                0 <= n,
                1 <= r.den,
                q == n as int / r.den as int,
                rem == n as int % r.den as int,
        ;
    }
    let s_val = if 2 * rem >= r.den {
        q + 1
    } else {
        q
    };
    proof {
        assert(m as int == crate::rat::rat_abs(r.num as int));
        assert(s_val == rounded_abs(*r, p as nat));
    }
    let mut out: Vec<u8> = Vec::new();
    if r.num < 0 {
        out.push(45);
    } else if sign_plus {
        out.push(43);
    }
    if p == 0 {
        push_digits(&mut out, s_val);
        proof {
            assert(out@ =~= precise_bytes(*r, p as nat, sign_plus));
            lemma_digits_ascii(s_val as int);
            assert(forall|i: int| 0 <= i < out@.len() ==> #[trigger] out@[i] < 128);
        }
    } else {
        let ip = s_val / pw;
        let fp = s_val % pw;
        proof {
            assert(0 <= ip && 0 <= fp) by (nonlinear_arith)
                requires
                    0 <= s_val,
                    1 <= pw,
                    ip == s_val as int / pw as int,
                    fp == s_val as int % pw as int,
            ;
        }
        push_digits(&mut out, ip);
        out.push(46);
        push_padded_digits(&mut out, fp, p);
        proof {
            assert(out@ =~= precise_bytes(*r, p as nat, sign_plus));
            lemma_digits_ascii(ip as int);
            lemma_fixed_ascii(fp as int, p as nat);
            assert(forall|i: int| 0 <= i < out@.len() ==> #[trigger] out@[i] < 128);
        }
    }
    let s = ascii_to_string(&out);
    proof {
        assert(s@ =~= amount_opt_chars(*r, precision, sign_plus));
    }
    s
}

/// Pads a rendering to the field width with the fill character.
pub fn pad_string(body: &str, width: usize, fill: char, align: Alignment) -> (s: String)
    ensures
        s@ == padded_chars(body@, width as int, fill, align),
{
    let len = body.unicode_len();
    if len >= width {
        return body.to_owned();
    }
    let d = width - len;
    let (lead, trail): (usize, usize) = match align {
        Alignment::Left => (0, d),
        Alignment::Right => (d, 0),
        Alignment::Center => (d / 2, d - d / 2),
    };
    let f = crate::text::char_string(fill);
    let mut s = String::new();
    let mut i: usize = 0;
    while i < lead
        invariant
            i <= lead,
            f@ == seq![fill],
            s@ == fill_chars(fill, i as int),
        decreases lead - i,
    {
        s.append(f.as_str());
        proof {
            assert(s@ =~= fill_chars(fill, i + 1));
        }
        i += 1;
    }
    s.append(body);
    let mut j: usize = 0;
    while j < trail
        invariant
            j <= trail,
            f@ == seq![fill],
            s@ == fill_chars(fill, lead as int) + body@ + fill_chars(fill, j as int),
        decreases trail - j,
    {
        s.append(f.as_str());
        proof {
            assert(s@ =~= fill_chars(fill, lead as int) + body@ + fill_chars(fill, j + 1));
        }
        j += 1;
    }
    proof {
        assert(s@ =~= padded_chars(body@, width as int, fill, align));
    }
    s
}

/// Renders an amount with a symbol under the full option set: decimal
/// precision and sign on the amount, then field width, fill and
/// alignment on the whole rendering.
pub fn format_qty(r: &Rat, symbol: &str, opts: &FmtOptions) -> (s: String)
    requires
        rat_wf(*r),
        opts.precision matches Some(p) ==> p <= PRECISION_CAP,
    ensures
        s@ == formatted_chars(*r, symbol@, *opts),
{
    let mut body = format_amount(r, opts.precision, opts.sign_plus);
    if symbol.unicode_len() > 0 {
        body.append(" ");
        body.append(symbol);
        proof {
            reveal_strlit(" ");
        }
    }
    proof {
        assert(body@ =~= amount_opt_chars(*r, opts.precision, opts.sign_plus) + (
        if symbol@.len() == 0 {
            Seq::<char>::empty()
        } else {
            seq![' '] + symbol@
        }));
    }
    pad_string(body.as_str(), opts.width, opts.fill, opts.align)
}

} // verus!
