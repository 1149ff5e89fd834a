//! Display formatting: FIX, SCI and ENG modes.
//!
//! A value is rendered from its decimal mantissa and exponent by pure
//! digit-string manipulation: the 15 mantissa digits are laid out around
//! the decimal point, rounded half-up to the configured number of decimal
//! places, and truncated to the display width.

use crate::text::{spec_digit_char, spec_i64_digits, digit_char, chars_to_string, i64_to_string,
    two_digit_string, u64_to_string, spec_u64_digits};
use crate::value::pow10;
use crate::value::Value;
use vstd::prelude::*;
use vstd::string::*;

verus! {

/// The display mode of the calculator.
#[derive(Clone, Copy, Debug, PartialEq, Eq, Structural)]
pub enum DisplayMode {
    /// Fixed decimal places.
    Fix,
    /// Scientific notation.
    Sci,
    /// Engineering notation (exponent a multiple of 3).
    Eng,
}

/// Renders values under a mode and a decimal-place count.
#[derive(Clone, Copy, Debug)]
pub struct DisplayFormatter {
    pub mode: DisplayMode,
    pub digits: usize,
}

/// The status-line text of a formatter: its mode name and decimal count.
pub open spec fn spec_mode_string(d: DisplayFormatter) -> Seq<char> {
    match d.mode {
        DisplayMode::Fix => "FIX "@ + spec_u64_digits(d.digits as int),
        DisplayMode::Sci => "SCI "@ + spec_u64_digits(d.digits as int),
        DisplayMode::Eng => "ENG "@ + spec_u64_digits(d.digits as int),
    }
}

/// The zero display: "0" or "0.000..." in FIX, "0.000...E+00" in SCI/ENG.
pub open spec fn spec_zero_display(mode: DisplayMode, digits: int) -> Seq<char> {
    let frac = Seq::new(digits as nat, |i: int| '0');
    match mode {
        DisplayMode::Fix => if digits == 0 {
            "0"@
        } else {
            "0."@ + frac
        },
        _ => "0."@ + frac + "E+00"@,
    }
}

impl DisplayFormatter {
    /// At most nine decimal places are ever configured.
    pub open spec fn wf(&self) -> bool {
        self.digits <= 9
    }

    /// A new formatter: FIX with four decimal places.
    pub fn new() -> (r: DisplayFormatter)
        ensures
            r.mode == DisplayMode::Fix,
            r.digits == 4,
            r.wf(),
    {
        DisplayFormatter { mode: DisplayMode::Fix, digits: 4 }
    }

    /// The current mode rendered for the status line: the mode name and
    /// the decimal-place count.
    pub fn get_mode_string(&self) -> (r: String)
        ensures
            r@ == spec_mode_string(*self),
    {
        let n = u64_to_string(self.digits as u64);
        match self.mode {
            DisplayMode::Fix => String::from_str("FIX ").concat(n.as_str()),
            DisplayMode::Sci => String::from_str("SCI ").concat(n.as_str()),
            DisplayMode::Eng => String::from_str("ENG ").concat(n.as_str()),
        }
    }

    /// Render a value in the current mode, truncated to `width`
    /// characters: exactly `spec_format_number`, cut to the display width.
    pub fn format_number(&self, value: Value, width: usize) -> (r: String)
        requires
            self.wf(),
            value.wf(),
            width >= 1,
        ensures
            r@ == spec_truncated(
                spec_format_number(self.mode, self.digits as int, value),
                width as int,
            ),
            r@.len() <= width,
    {
        let full: String = if value.mant == 0 {
            self.zero_string()
        } else {
            match self.mode {
                DisplayMode::Fix => fix_string(value, self.digits),
                DisplayMode::Sci => sci_string(value, self.digits),
                DisplayMode::Eng => eng_string(value, self.digits),
            }
        };
        truncate_to(&full, width)
    }

    /// The rendering of zero in the current mode.
    fn zero_string(&self) -> (r: String)
        requires
            self.wf(),
        ensures
            r@ == spec_zero_display(self.mode, self.digits as int),
            r@.len() >= 1,
    {
        let mut frac: Vec<char> = Vec::new();
        let mut i: usize = 0;
        while i < self.digits
            invariant
                i <= self.digits,
                frac@ =~= Seq::new(i as nat, |j: int| '0'),
            decreases self.digits - i,
        {
            frac.push('0');
            proof {
                assert(frac@ =~= Seq::new((i + 1) as nat, |j: int| '0'));
            }
            i = i + 1;
        }
        proof {
            assert(frac@ =~= Seq::new(self.digits as nat, |j: int| '0'));
        }
        let zeros = chars_to_string(&frac);
        proof {
            reveal_strlit("0");
            reveal_strlit("0.");
            reveal_strlit("E+00");
        }
        match self.mode {
            DisplayMode::Fix => if self.digits == 0 {
                String::from_str("0")
            } else {
                String::from_str("0.").concat(zeros.as_str())
            },
            _ => String::from_str("0.").concat(zeros.as_str()).concat("E+00"),
        }
    }
}

/// A string cut to at most `width` characters.
pub open spec fn spec_truncated(s: Seq<char>, width: int) -> Seq<char> {
    if s.len() <= width {
        s
    } else {
        s.subrange(0, width)
    }
}

/// The first `width` characters of `s` (all of it when it is shorter).
fn truncate_to(s: &String, width: usize) -> (r: String)
    ensures
        r@ == spec_truncated(s@, width as int),
        r@.len() <= width,
{
    let n = s.as_str().unicode_len();
    if n <= width {
        return s.clone();
    }
    let mut v: Vec<char> = Vec::new();
    let mut i: usize = 0;
    while i < width
        invariant
            i <= width,
            width < n == s@.len(),
            v@ =~= s@.subrange(0, i as int),
        decreases width - i,
    {
        v.push(s.as_str().get_char(i));
        proof {
            assert(v@ =~= s@.subrange(0, i + 1));
        }
        i = i + 1;
    }
    chars_to_string(&v)
}

/// The 15 decimal digits of a mantissa, most significant first.
pub open spec fn spec_mant_digits(mant: int) -> Seq<u64> {
    Seq::new(15, |i: int| ((mant / pow10((14 - i) as nat)) % 10) as u64)
}

/// Digits rendered as their characters.
pub open spec fn spec_digit_chars(v: Seq<u64>) -> Seq<char> {
    v.map_values(|d: u64| spec_digit_char(d as int))
}

/// `n` zero digits.
pub open spec fn spec_zero_digits(n: int) -> Seq<u64> {
    Seq::new(n as nat, |i: int| 0u64)
}

/// `n` zero characters.
pub open spec fn spec_zero_chars(n: int) -> Seq<char> {
    Seq::new(n as nat, |i: int| '0')
}

/// Every digit of the 15-digit decomposition is a digit.
proof fn lemma_mant_digits_bounded(mant: int)
    ensures
        forall|i: int| 0 <= i < 15 ==> #[trigger] spec_mant_digits(mant)[i] <= 9,
        spec_mant_digits(mant).len() == 15,
{
    assert forall|i: int| 0 <= i < 15 implies #[trigger] spec_mant_digits(mant)[i] <= 9 by {
        crate::value::lemma_pow10_pos((14 - i) as nat);
        vstd::arithmetic::div_mod::lemma_mod_division_less_than_divisor(
            mant / pow10((14 - i) as nat),
            10,
        );
    }
}

/// The 15 decimal digits of a normalized mantissa, most significant first.
fn mant_digits(mant: u64) -> (r: Vec<u64>)
    requires
        mant < crate::value::MANT_LIMIT,
    ensures
        r@ == spec_mant_digits(mant as int),
        r@.len() == 15,
        forall|i: int| 0 <= i < 15 ==> #[trigger] r@[i] <= 9,
{
    proof {
        crate::value::lemma_pow10_val();
        lemma_mant_digits_bounded(mant as int);
    }
    let mut rev: Vec<u64> = Vec::new();
    let mut m = mant;
    let mut i: usize = 0;
    while i < 15
        invariant
            i <= 15,
            mant < crate::value::MANT_LIMIT,
            rev@.len() == i,
            m == mant as int / pow10(i as nat),
            forall|j: int|
                0 <= j < i ==> #[trigger] rev@[j] == ((mant as int / pow10(j as nat)) % 10) as u64,
        decreases 15 - i,
    {
        proof {
            crate::value::lemma_pow10_pos(i as nat);
            vstd::arithmetic::div_mod::lemma_div_denominator(mant as int, pow10(i as nat), 10);
            assert(pow10(i as nat) * 10 == pow10((i + 1) as nat)) by {
                crate::value::lemma_pow10_adds(i as nat, 1nat);
                assert(pow10(1) == 10) by {
                    reveal_with_fuel(pow10, 2);
                }
            }
        }
        rev.push(m % 10);
        m = m / 10;
        i = i + 1;
    }
    let mut r: Vec<u64> = Vec::new();
    let mut k: usize = 15;
    while k > 0
        invariant
            k <= 15,
            rev@.len() == 15,
            forall|j: int|
                0 <= j < 15 ==> #[trigger] rev@[j] == ((mant as int / pow10(j as nat)) % 10) as u64,
            r@.len() == 15 - k,
            forall|j: int|
                0 <= j < r@.len() ==> #[trigger] r@[j] == spec_mant_digits(mant as int)[j],
        decreases k,
    {
        k = k - 1;
        r.push(rev[k]);
    }
    proof {
        assert(r@ =~= spec_mant_digits(mant as int));
    }
    r
}

/// A digit sequence incremented by one from its last position, with the
/// carry out of the front.
pub open spec fn spec_inc(v: Seq<u64>) -> (Seq<u64>, bool)
    decreases v.len(),
{
    if v.len() == 0 {
        (v, true)
    } else if v.last() < 9 {
        (v.drop_last().push((v.last() + 1) as u64), false)
    } else {
        let r = spec_inc(v.drop_last());
        (r.0.push(0u64), r.1)
    }
}

/// Half-up rounding of a digit sequence to its first `keep` digits: the
/// kept prefix, incremented when the first dropped digit is five or more.
pub open spec fn spec_round_digits(v: Seq<u64>, keep: int) -> (Seq<u64>, bool) {
    let kept = v.subrange(0, keep);
    if keep < v.len() && v[keep] >= 5 {
        spec_inc(kept)
    } else {
        (kept, false)
    }
}

/// Incrementing a sequence whose suffix past `k` is all nines bumps the
/// digit at `k` and zeroes the suffix.
proof fn lemma_inc_at(v: Seq<u64>, k: int)
    requires
        0 <= k < v.len(),
        v[k] < 9,
        forall|j: int| k < j < v.len() ==> v[j] == 9,
    ensures
        spec_inc(v) == (v.subrange(0, k).push((v[k] + 1) as u64) + spec_zero_digits(
            v.len() - 1 - k,
        ), false),
    decreases v.len(),
{
    if k == v.len() - 1 {
        assert(v.drop_last() =~= v.subrange(0, k));
        assert(v.drop_last().push((v.last() + 1) as u64) =~= v.subrange(0, k).push(
            (v[k] + 1) as u64,
        ) + spec_zero_digits(0));
    } else {
        lemma_inc_at(v.drop_last(), k);
        assert(v.drop_last().subrange(0, k) =~= v.subrange(0, k));
        assert(spec_inc(v).0 =~= v.subrange(0, k).push((v[k] + 1) as u64) + spec_zero_digits(
            v.len() - 1 - k,
        ));
    }
}

/// Incrementing all nines yields all zeros and a carry out.
proof fn lemma_inc_nines(v: Seq<u64>)
    requires
        forall|j: int| 0 <= j < v.len() ==> v[j] == 9,
    ensures
        spec_inc(v) == (spec_zero_digits(v.len() as int), true),
    decreases v.len(),
{
    if v.len() == 0 {
        assert(v =~= spec_zero_digits(0));
    } else {
        lemma_inc_nines(v.drop_last());
        assert(spec_inc(v).0 =~= spec_zero_digits(v.len() as int));
    }
}

/// Round a digit vector half-up so that only `keep` digits remain; the
/// returned flag reports a carry out of the leading digit, in which case
/// the result is all zeros.
fn round_digit_vec(v: Vec<u64>, keep: usize) -> (r: (Vec<u64>, bool))
    requires
        keep <= v@.len(),
        forall|i: int| 0 <= i < v@.len() ==> #[trigger] v@[i] <= 9,
    ensures
        r.0@ == spec_round_digits(v@, keep as int).0,
        r.1 == spec_round_digits(v@, keep as int).1,
        r.0@.len() == keep,
        forall|i: int| 0 <= i < keep ==> #[trigger] r.0@[i] <= 9,
{
    let ghost kept = v@.subrange(0, keep as int);
    let round_up = keep < v.len() && v[keep] >= 5;
    let mut out: Vec<u64> = Vec::new();
    let mut i: usize = 0;
    while i < keep
        invariant
            i <= keep <= v@.len(),
            forall|j: int| 0 <= j < v@.len() ==> #[trigger] v@[j] <= 9,
            out@ == v@.subrange(0, i as int),
        decreases keep - i,
    {
        out.push(v[i]);
        proof {
            assert(out@ =~= v@.subrange(0, i + 1));
        }
        i = i + 1;
    }
    if !round_up {
        return (out, false);
    }
    let mut k: usize = keep;
    while k > 0
        invariant
            keep < v@.len(),
            v@[keep as int] >= 5,
            k <= keep == out@.len(),
            kept == v@.subrange(0, keep as int),
            kept.len() == keep,
            forall|j: int| 0 <= j < k ==> #[trigger] out@[j] == kept[j],
            forall|j: int| k <= j < keep ==> #[trigger] out@[j] == 0,
            forall|j: int| k <= j < keep ==> #[trigger] kept[j] == 9,
            forall|j: int| 0 <= j < keep ==> #[trigger] kept[j] <= 9,
        decreases k,
    {
        k = k - 1;
        if out[k] == 9 {
            out.set(k, 0);
        } else {
            let d = out[k];
            out.set(k, d + 1);
            proof {
                assert(forall|j: int| (k as int) < j < kept.len() ==> kept[j] == 9);
                lemma_inc_at(kept, k as int);
                assert(out@ =~= kept.subrange(0, k as int).push((kept[k as int] + 1) as u64)
                    + spec_zero_digits(kept.len() - 1 - k));
            }
            return (out, false);
        }
    }
    proof {
        assert(forall|j: int| 0 <= j < kept.len() ==> kept[j] == 9);
        lemma_inc_nines(kept);
        assert(out@ =~= spec_zero_digits(keep as int));
    }
    (out, true)
}

/// Push the characters of the digits `v[from..to]` onto `out`.
fn push_digit_chars(out: &mut Vec<char>, v: &Vec<u64>, from: usize, to: usize)
    requires
        from <= to <= v@.len(),
        forall|i: int| 0 <= i < v@.len() ==> #[trigger] v@[i] <= 9,
    ensures
        final(out)@ == old(out)@ + spec_digit_chars(v@.subrange(from as int, to as int)),
{
    let ghost n0 = out@;
    let mut i = from;
    while i < to
        invariant
            from <= i <= to <= v@.len(),
            forall|j: int| 0 <= j < v@.len() ==> #[trigger] v@[j] <= 9,
            out@ == n0 + spec_digit_chars(v@.subrange(from as int, i as int)),
        decreases to - i,
    {
        out.push(digit_char(v[i]));
        proof {
            assert(out@ =~= n0 + spec_digit_chars(v@.subrange(from as int, i + 1)));
        }
        i = i + 1;
    }
    proof {
        assert(out@ =~= n0 + spec_digit_chars(v@.subrange(from as int, to as int)));
    }
}

/// Push `count` zero characters onto `out`.
fn push_zeros(out: &mut Vec<char>, count: usize)
    requires
        count <= 1000,
    ensures
        final(out)@ == old(out)@ + spec_zero_chars(count as int),
{
    let ghost n0 = out@;
    let mut i: usize = 0;
    while i < count
        invariant
            i <= count,
            out@ == n0 + spec_zero_chars(i as int),
        decreases count - i,
    {
        out.push('0');
        proof {
            assert(out@ =~= n0 + spec_zero_chars(i + 1));
        }
        i = i + 1;
    }
}

/// The digit layout of a nonzero value around its decimal point: all its
/// digit positions down to the units place, and where the point sits.
pub open spec fn spec_fix_layout(v: Value) -> (Seq<u64>, int) {
    let dv = spec_mant_digits(v.mant as int);
    if v.exp >= 0 {
        let point = v.exp + 1;
        (if point > 15 {
            dv + spec_zero_digits(point - 15)
        } else {
            dv
        }, point as int)
    } else {
        (seq![0u64] + spec_zero_digits(-v.exp - 1) + dv, 1)
    }
}

/// Fixed-point rendering of a nonzero value: sign, integer digits (with a
/// carry prepended when rounding overflows), and `digits` decimal places,
/// rounded half-up.
pub open spec fn spec_format_fix(v: Value, digits: int) -> Seq<char> {
    let lay = spec_fix_layout(v);
    let all = lay.0;
    let point = lay.1;
    let keep = point + digits;
    let rc = if keep <= all.len() {
        spec_round_digits(all, keep)
    } else {
        (all + spec_zero_digits(keep - all.len()), false)
    };
    let rounded = rc.0;
    let sign: Seq<char> = if v.neg {
        seq!['-']
    } else {
        Seq::empty()
    };
    let lead: Seq<char> = if rc.1 {
        seq!['1']
    } else {
        Seq::empty()
    };
    let frac: Seq<char> = if digits > 0 {
        seq!['.'] + spec_digit_chars(rounded.subrange(point, keep))
    } else {
        Seq::empty()
    };
    sign + lead + spec_digit_chars(rounded.subrange(0, point)) + frac
}

/// Scientific rendering of a nonzero value: one leading digit, `digits`
/// decimal places rounded half-up (a carry bumps the exponent), and a
/// lowercase exponent.
pub open spec fn spec_format_sci(v: Value, digits: int) -> Seq<char> {
    let rc = spec_round_digits(spec_mant_digits(v.mant as int), 1 + digits);
    let rounded = rc.0;
    let e: int = if rc.1 {
        v.exp + 1
    } else {
        v.exp as int
    };
    let sign: Seq<char> = if v.neg {
        seq!['-']
    } else {
        Seq::empty()
    };
    let mant_part: Seq<char> = if rc.1 {
        seq!['1'] + (if digits > 0 {
            seq!['.'] + spec_zero_chars(digits)
        } else {
            Seq::empty()
        })
    } else {
        spec_digit_chars(rounded.subrange(0, 1)) + (if digits > 0 {
            seq!['.'] + spec_digit_chars(rounded.subrange(1, 1 + digits))
        } else {
            Seq::empty()
        })
    };
    sign + mant_part + seq!['e'] + spec_i64_digits(e)
}

/// A nonnegative number zero-padded to two digits, as the engineering
/// exponent shows it.
pub open spec fn spec_two_digits(n: int) -> Seq<char> {
    if n < 10 {
        seq!['0', spec_digit_char(n)]
    } else {
        spec_u64_digits(n)
    }
}

/// Engineering rendering of a nonzero value: the exponent lowered to a
/// multiple of three, up to three digits before the point, `digits`
/// decimal places rounded half-up, and a sign-and-padded exponent.
pub open spec fn spec_format_eng(v: Value, digits: int) -> Seq<char> {
    let eng: int = if v.exp >= 0 {
        v.exp - (v.exp % 3)
    } else {
        -3 * ((-(v.exp as int) + 2) / 3)
    };
    let int_len = v.exp - eng + 1;
    let rc = spec_round_digits(spec_mant_digits(v.mant as int), int_len + digits);
    let rounded = rc.0;
    let sign: Seq<char> = if v.neg {
        seq!['-']
    } else {
        Seq::empty()
    };
    let mant_part: Seq<char> = if rc.1 {
        seq!['1'] + spec_zero_chars(int_len) + (if digits > 0 {
            seq!['.'] + spec_zero_chars(digits)
        } else {
            Seq::empty()
        })
    } else {
        spec_digit_chars(rounded.subrange(0, int_len)) + (if digits > 0 {
            seq!['.'] + spec_digit_chars(rounded.subrange(int_len, int_len + digits))
        } else {
            Seq::empty()
        })
    };
    sign + mant_part + seq!['E'] + (if eng >= 0 {
        seq!['+']
    } else {
        seq!['-']
    }) + spec_two_digits(if eng >= 0 {
        eng
    } else {
        -eng
    })
}

/// What a value renders as, before truncation to the display width.
pub open spec fn spec_format_number(mode: DisplayMode, digits: int, v: Value) -> Seq<char> {
    if v.mant == 0 {
        spec_zero_display(mode, digits)
    } else {
        match mode {
            DisplayMode::Fix => spec_format_fix(v, digits),
            DisplayMode::Sci => spec_format_sci(v, digits),
            DisplayMode::Eng => spec_format_eng(v, digits),
        }
    }
}

/// Fixed-point rendering: sign, integer digits, and `digits` decimal
/// places, rounded half-up.
#[verifier::spinoff_prover]
#[verifier::rlimit(100)]
fn fix_string(value: Value, digits: usize) -> (r: String)
    requires
        value.wf(),
        !value.spec_is_zero(),
        digits <= 9,
    ensures
        r@ == spec_format_fix(value, digits as int),
{
    let dv = mant_digits(value.mant);
    let ghost lay = spec_fix_layout(value);
    // Lay the digits out as an integer part and a fraction source.
    let mut all: Vec<u64> = Vec::new();
    let point: usize;
    if value.exp >= 0 {
        point = value.exp as usize + 1;
        let mut i: usize = 0;
        // Mantissa digits, then zeros up to the point position if the
        // exponent exceeds the mantissa width.
        while i < 15
            invariant
                i <= 15,
                dv@ == spec_mant_digits(value.mant as int),
                dv@.len() == 15,
                forall|j: int| 0 <= j < 15 ==> #[trigger] dv@[j] <= 9,
                all@ == dv@.subrange(0, i as int),
            decreases 15 - i,
        {
            all.push(dv[i]);
            proof {
                assert(all@ =~= dv@.subrange(0, i + 1));
            }
            i = i + 1;
        }
        proof {
            assert(all@ =~= dv@);
            assert(all@ =~= dv@ + spec_zero_digits(0));
        }
        let mut k: usize = 15;
        while k < point
            invariant
                15 <= k,
                k <= point || point <= 15,
                point <= 15 ==> k == 15,
                point <= 308,
                dv@ == spec_mant_digits(value.mant as int),
                all@ == dv@ + spec_zero_digits(k - 15),
                forall|j: int| 0 <= j < k ==> #[trigger] all@[j] <= 9,
            decreases point - k,
        {
            all.push(0);
            proof {
                assert(all@ =~= dv@ + spec_zero_digits(k - 15 + 1));
            }
            k = k + 1;
        }
        proof {
            if point <= 15 {
                assert(all@ =~= dv@);
            }
            assert(all@ =~= lay.0);
        }
    } else {
        point = 1;
        // A pure fraction: a zero integer digit, then exponent-many
        // leading zeros, then the mantissa digits.
        all.push(0);
        let lead = ((-(value.exp as i64)) - 1) as usize;
        let mut k: usize = 0;
        proof {
            assert(all@ =~= seq![0u64] + spec_zero_digits(0));
        }
        while k < lead
            invariant
                k <= lead <= 306,
                all@ == seq![0u64] + spec_zero_digits(k as int),
                forall|j: int| 0 <= j < all@.len() ==> #[trigger] all@[j] <= 9,
            decreases lead - k,
        {
            all.push(0);
            proof {
                assert(all@ =~= seq![0u64] + spec_zero_digits(k + 1));
            }
            k = k + 1;
        }
        let mut i: usize = 0;
        while i < 15
            invariant
                i <= 15,
                dv@ == spec_mant_digits(value.mant as int),
                dv@.len() == 15,
                forall|j: int| 0 <= j < 15 ==> #[trigger] dv@[j] <= 9,
                lead <= 306,
                lead == -(value.exp as int) - 1,
                all@ == seq![0u64] + spec_zero_digits(lead as int) + dv@.subrange(0, i as int),
                forall|j: int| 0 <= j < all@.len() ==> #[trigger] all@[j] <= 9,
            decreases 15 - i,
        {
            all.push(dv[i]);
            proof {
                assert(all@ =~= seq![0u64] + spec_zero_digits(lead as int) + dv@.subrange(
                    0,
                    i + 1,
                ));
            }
            i = i + 1;
        }
        proof {
            assert(dv@.subrange(0, 15) =~= dv@);
            assert(all@ =~= lay.0);
        }
    }
    // Round away everything past `digits` decimal places.
    let keep = point + digits;
    let ghost rc = if keep <= lay.0.len() {
        spec_round_digits(lay.0, keep as int)
    } else {
        (lay.0 + spec_zero_digits(keep - lay.0.len()), false)
    };
    let (rounded, carry, point2): (Vec<u64>, bool, usize) = if keep <= all.len() {
        let (rv, c) = round_digit_vec(all, keep);
        (rv, c, point)
    } else {
        let extra = keep - all.len();
        let mut grown = all;
        let ghost base = grown@;
        let mut k: usize = 0;
        while k < extra
            invariant
                k <= extra <= 9,
                grown@ == base + spec_zero_digits(k as int),
                base.len() == keep - extra,
                forall|j: int| 0 <= j < grown@.len() ==> #[trigger] grown@[j] <= 9,
            decreases extra - k,
        {
            grown.push(0);
            proof {
                assert(grown@ =~= base + spec_zero_digits(k + 1));
            }
            k = k + 1;
        }
        (grown, false, point)
    };
    proof {
        assert(rounded@ == rc.0 && carry == rc.1);
    }
    let mut out: Vec<char> = Vec::new();
    if value.neg {
        out.push('-');
    }
    if carry {
        out.push('1');
    }
    push_digit_chars(&mut out, &rounded, 0, point2);
    if digits > 0 {
        out.push('.');
        push_digit_chars(&mut out, &rounded, point2, rounded.len());
    }
    let r = chars_to_string(&out);
    proof {
        assert(r@ =~= spec_format_fix(value, digits as int));
    }
    r
}

/// Scientific rendering: one leading digit, `digits` decimal places, and
/// a lowercase exponent, as in "1.500e2".
#[verifier::spinoff_prover]
#[verifier::rlimit(100)]
fn sci_string(value: Value, digits: usize) -> (r: String)
    requires
        value.wf(),
        !value.spec_is_zero(),
        digits <= 9,
    ensures
        r@ == spec_format_sci(value, digits as int),
{
    let dv = mant_digits(value.mant);
    let (rounded, carry) = round_digit_vec(dv, 1 + digits);
    let e: i64 = if carry {
        value.exp as i64 + 1
    } else {
        value.exp as i64
    };
    let mut out: Vec<char> = Vec::new();
    if value.neg {
        out.push('-');
    }
    if carry {
        out.push('1');
        if digits > 0 {
            out.push('.');
            push_zeros(&mut out, digits);
        }
    } else {
        push_digit_chars(&mut out, &rounded, 0, 1);
        if digits > 0 {
            out.push('.');
            push_digit_chars(&mut out, &rounded, 1, rounded.len());
        }
    }
    out.push('e');
    let head = chars_to_string(&out);
    let es = i64_to_string(e);
    let r = head.concat(es.as_str());
    proof {
        assert(r@ =~= spec_format_sci(value, digits as int));
    }
    r
}

/// Engineering rendering: the exponent is lowered to a multiple of three
/// and up to three digits stand before the point, as in "150.00E+03".
#[verifier::spinoff_prover]
#[verifier::rlimit(100)]
fn eng_string(value: Value, digits: usize) -> (r: String)
    requires
        value.wf(),
        !value.spec_is_zero(),
        digits <= 9,
    ensures
        r@ == spec_format_eng(value, digits as int),
{
    let dv = mant_digits(value.mant);
    // The engineering exponent: the largest multiple of three at most exp.
    let eng: i64 = if value.exp >= 0 {
        (value.exp as i64) - (value.exp as i64) % 3
    } else {
        let k = ((-(value.exp as i64)) + 2) / 3;
        -(3 * k)
    };
    let int_len = (value.exp as i64 - eng + 1) as usize;
    let (rounded, carry) = round_digit_vec(dv, int_len + digits);
    let mut out: Vec<char> = Vec::new();
    if value.neg {
        out.push('-');
    }
    if carry {
        out.push('1');
        push_zeros(&mut out, int_len);
        if digits > 0 {
            out.push('.');
            push_zeros(&mut out, digits);
        }
    } else {
        push_digit_chars(&mut out, &rounded, 0, int_len);
        if digits > 0 {
            out.push('.');
            push_digit_chars(&mut out, &rounded, int_len, rounded.len());
        }
    }
    out.push('E');
    if eng >= 0 {
        out.push('+');
    } else {
        out.push('-');
    }
    let head = chars_to_string(&out);
    let mag: u64 = if eng >= 0 {
        eng as u64
    } else {
        (-eng) as u64
    };
    let es = two_digit_string(mag);
    let r = head.concat(es.as_str());
    proof {
        assert(r@ =~= spec_format_eng(value, digits as int));
    }
    r
}

} // verus!
