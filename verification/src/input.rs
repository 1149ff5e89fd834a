//! Number entry: digit-by-digit mantissa building with decimal point and
//! EEX (enter-exponent) mode.
//!
//! The mantissa is a string of digits with at most one decimal point and a
//! bounded length; the exponent is at most three digits. Every accepted
//! keystroke reparses the entry into a `Value`; entering more than the
//! allowed digits fails with an overflow error and leaves the state
//! untouched.

use crate::error::InputError;
use crate::text::{spec_digits_val, spec_is_digit, digit_val, is_digit, lemma_digits_val_bounds,
    chars_to_string};
use crate::value::{Value, pow10, spec_make, lemma_pow10_val, lemma_pow10_mono};
use vstd::prelude::*;
use vstd::seq_lib::*;
use vstd::string::*;

verus! {

broadcast use
    vstd::seq_lib::lemma_seq_contains_after_push,
    vstd::seq_lib::group_filter_ensures,
    vstd::seq::Seq::lemma_filter_push,
;

/// Maximum length of the mantissa entry string (to prevent overflow).
pub const MAX_ENTRY_LENGTH: usize = 15;

/// Maximum number of exponent digits.
pub const MAX_EEX_DIGITS: usize = 3;

/// Spec-level picture of an input state.
pub struct InputV {
    /// Whether a number is being entered.
    pub entering: bool,
    /// The mantissa characters (digits and at most one dot).
    pub mant: Seq<char>,
    /// Whether EEX mode is active.
    pub eexm: bool,
    /// The exponent digits.
    pub eexd: Seq<char>,
}

/// The digit characters of a mantissa string (the dot removed).
pub open spec fn digits_of(m: Seq<char>) -> Seq<char> {
    m.filter(|c: char| c != '.')
}

/// How many digits follow the decimal point (zero when there is none or
/// nothing follows it).
pub open spec fn spec_frac_len(m: Seq<char>) -> int
    decreases m.len(),
{
    if !m.contains('.') {
        0
    } else if m.last() == '.' {
        0
    } else {
        1 + spec_frac_len(m.drop_last())
    }
}

/// The value an entry denotes: the mantissa digits as an integer, scaled
/// by the entered exponent minus the number of fraction digits; `None` on
/// exponent overflow.
pub open spec fn entry_value(m: Seq<char>, eexm: bool, eexd: Seq<char>) -> Option<Value> {
    let e = (if eexm && eexd.len() > 0 {
        spec_digits_val(eexd)
    } else {
        0
    }) - spec_frac_len(m);
    spec_make(false, spec_digits_val(digits_of(m)) as nat, e)
}

/// The fresh entry state right after `begin_entry`.
pub open spec fn begun() -> InputV {
    InputV { entering: true, mant: Seq::empty(), eexm: false, eexd: Seq::empty() }
}

/// The cleared state.
pub open spec fn cleared() -> InputV {
    InputV { entering: false, mant: Seq::empty(), eexm: false, eexd: Seq::empty() }
}

/// The reparse outcome used after an accepted digit: a value, or overflow.
pub open spec fn reparse(v: InputV) -> Result<Option<Value>, InputError> {
    match entry_value(v.mant, v.eexm, v.eexd) {
        Some(val) => Ok(Some(val)),
        None => Err(InputError::Overflow),
    }
}

/// One EEX-mode digit: non-digits are ignored, a fourth digit overflows,
/// an accepted digit is appended and the entry reparsed.
pub open spec fn spec_eex_digit(v: InputV, key: char) -> (InputV, Result<
    Option<Value>,
    InputError,
>) {
    if !spec_is_digit(key) {
        (v, Ok(None))
    } else if v.eexd.len() >= MAX_EEX_DIGITS {
        (v, Err(InputError::Overflow))
    } else {
        let v2 = InputV { eexd: v.eexd.push(key), ..v };
        (v2, reparse(v2))
    }
}

/// One mantissa keystroke: a second dot is ignored, a leading dot is
/// normalized to "0.", a digit beyond the length bound overflows, a lone
/// leading zero is replaced, and an accepted digit reparses the entry.
pub open spec fn spec_mant_digit(v: InputV, key: char) -> (InputV, Result<
    Option<Value>,
    InputError,
>) {
    if key == '.' {
        if v.mant.contains('.') {
            (v, Ok(None))
        } else if v.mant.len() == 0 {
            (InputV { mant: seq!['0', '.'], ..v }, Ok(None))
        } else {
            (InputV { mant: v.mant.push('.'), ..v }, Ok(None))
        }
    } else if v.mant.len() >= MAX_ENTRY_LENGTH {
        (v, Err(InputError::Overflow))
    } else {
        let m2 = if v.mant == seq!['0'] {
            seq![key]
        } else {
            v.mant.push(key)
        };
        let v2 = InputV { mant: m2, ..v };
        (v2, reparse(v2))
    }
}

/// One keystroke of number entry: anything but a digit or dot is ignored;
/// the first keystroke begins a fresh entry; EEX mode routes to exponent
/// digits, otherwise to the mantissa.
pub open spec fn spec_handle_digit(v: InputV, key: char) -> (InputV, Result<
    Option<Value>,
    InputError,
>) {
    if !spec_is_digit(key) && key != '.' {
        (v, Ok(None))
    } else {
        let v1 = if !v.entering {
            begun()
        } else {
            v
        };
        if v1.eexm {
            spec_eex_digit(v1, key)
        } else {
            spec_mant_digit(v1, key)
        }
    }
}

/// One backspace: exponent digits pop first (leaving EEX mode when the
/// last goes), then mantissa characters; an emptied mantissa clears the
/// entry entirely and reports zero.
pub open spec fn spec_backspace(v: InputV) -> (InputV, Option<Value>) {
    let zero = Value { neg: false, mant: 0, exp: 0 };
    if v.eexm && v.eexd.len() > 0 {
        let d2 = v.eexd.drop_last();
        let v2 = InputV { eexm: d2.len() > 0, eexd: d2, ..v };
        (v2, backspace_value(v2))
    } else if v.eexm {
        let v2 = InputV { eexm: false, ..v };
        (v2, backspace_value(v2))
    } else if v.mant.len() > 0 {
        let m2 = v.mant.drop_last();
        if m2.len() == 0 {
            (cleared(), Some(zero))
        } else {
            let v2 = InputV { mant: m2, ..v };
            (v2, backspace_value(v2))
        }
    } else {
        (cleared(), Some(zero))
    }
}

/// What backspace reports for the remaining entry: its reparsed value, or
/// zero where nothing parses.
pub open spec fn backspace_value(v: InputV) -> Option<Value> {
    let zero = Value { neg: false, mant: 0, exp: 0 };
    if v.mant.len() == 0 && !(v.eexm && v.eexd.len() > 0) {
        Some(zero)
    } else {
        match entry_value(v.mant, v.eexm, v.eexd) {
            Some(val) => Some(val),
            None => Some(zero),
        }
    }
}

/// The entry rendered for the display: the mantissa, the EEX separator
/// and exponent digits when active, and a trailing cursor; empty when no
/// entry is in progress.
pub open spec fn spec_entry_display(v: InputV) -> Seq<char> {
    if !v.entering {
        Seq::empty()
    } else if v.eexm {
        v.mant + " E"@ + v.eexd + "_"@
    } else {
        v.mant + "_"@
    }
}

/// Manages the state of number input.
#[derive(Debug, Clone)]
pub struct InputState {
    /// Whether we're currently entering a number.
    entering_number: bool,
    /// The string being built during number entry.
    number_entry_string: String,
    /// Whether we're in EEX (Enter Exponent) mode.
    eex_mode: bool,
    /// Digits entered for the exponent.
    eex_digits: String,
}

impl InputState {
    /// The spec-level picture of this state.
    pub closed spec fn view(&self) -> InputV {
        InputV {
            entering: self.entering_number,
            mant: self.number_entry_string@,
            eexm: self.eex_mode,
            eexd: self.eex_digits@,
        }
    }

    /// Structural soundness of the entry: the mantissa holds at most 15
    /// digits and at most one dot, the exponent at most three digits, and
    /// the flags agree with the content.
    pub open spec fn wf(&self) -> bool {
        let v = self@;
        &&& forall|i: int|
            0 <= i < v.mant.len() ==> spec_is_digit(#[trigger] v.mant[i]) || v.mant[i] == '.'
        &&& digits_of(v.mant).len() + 1 >= v.mant.len()
        &&& digits_of(v.mant).len() <= 15
        &&& v.mant.len() <= 16
        &&& forall|i: int| 0 <= i < v.eexd.len() ==> spec_is_digit(#[trigger] v.eexd[i])
        &&& v.eexd.len() <= 3
        &&& (!v.eexm ==> v.eexd.len() == 0)
        &&& (!v.entering ==> v.mant.len() == 0 && !v.eexm)
    }

    /// A new, inactive input state.
    pub fn new() -> (r: InputState)
        ensures
            r@ == cleared(),
            r.wf(),
    {
        InputState {
            entering_number: false,
            number_entry_string: String::new(),
            eex_mode: false,
            eex_digits: String::new(),
        }
    }

    /// Whether a number is currently being entered.
    pub fn is_entering(&self) -> (r: bool)
        ensures
            r == self@.entering,
    {
        self.entering_number
    }

    /// Whether EEX mode is active.
    pub fn is_eex_mode(&self) -> (r: bool)
        ensures
            r == self@.eexm,
    {
        self.eex_mode
    }

    /// Start number entry afresh.
    pub fn begin_entry(&mut self)
        ensures
            final(self)@ == begun(),
            final(self).wf(),
    {
        self.entering_number = true;
        self.number_entry_string = String::new();
        self.eex_mode = false;
        self.eex_digits = String::new();
    }

    /// Clear all input state.
    pub fn clear(&mut self)
        ensures
            final(self)@ == cleared(),
            final(self).wf(),
    {
        self.entering_number = false;
        self.number_entry_string = String::new();
        self.eex_mode = false;
        self.eex_digits = String::new();
    }

    /// Enter EEX mode: outside an entry this begins one with mantissa "0";
    /// the exponent digits always restart empty.
    pub fn enter_eex_mode(&mut self) -> (r: Result<(), InputError>)
        requires
            old(self).wf(),
        ensures
            r is Ok,
            final(self)@ == (InputV {
                entering: true,
                mant: if old(self)@.entering {
                    old(self)@.mant
                } else {
                    seq!['0']
                },
                eexm: true,
                eexd: Seq::<char>::empty(),
            }),
            final(self).wf(),
    {
        if !self.entering_number {
            self.begin_entry();
            let mut v: Vec<char> = Vec::new();
            v.push('0');
            proof {
                assert(v@ =~= seq!['0']);
            }
            self.number_entry_string = chars_to_string(&v);
        }
        self.eex_mode = true;
        self.eex_digits = String::new();
        proof {
            if !old(self)@.entering {
                assert(!self@.mant.contains('.')) by {
                    if self@.mant.contains('.') {
                        let k = choose|k: int|
                            0 <= k < self@.mant.len() && #[trigger] self@.mant[k] == '.';
                        assert(self@.mant[k] == '0');
                    }
                }
                lemma_digits_no_dot(self@.mant);
            }
        }
        Ok(())
    }

    /// Append one character to the mantissa string.
    fn push_mant(&mut self, key: char)
        ensures
            final(self)@ == (InputV { mant: old(self)@.mant.push(key), ..old(self)@ }),
    {
        let mut v = crate::text::str_to_chars(self.number_entry_string.as_str());
        v.push(key);
        self.number_entry_string = chars_to_string(&v);
    }

    /// Handle a digit or decimal point keystroke, reparsing the entry.
    pub fn handle_digit(&mut self, key: char) -> (r: Result<Option<Value>, InputError>)
        requires
            old(self).wf(),
        ensures
            final(self).wf(),
            ({
                let (v2, res) = spec_handle_digit(old(self)@, key);
                final(self)@ == v2 && r == res
            }),
            r matches Ok(Some(val)) ==> val.wf(),
    {
        if !(is_digit(key) || key == '.') {
            return Ok(None);
        }
        if !self.entering_number {
            self.begin_entry();
        }
        if self.eex_mode {
            self.handle_eex_digit(key)
        } else {
            self.handle_mantissa_digit(key)
        }
    }

    /// Handle a digit keystroke for the mantissa.
    fn handle_mantissa_digit(&mut self, key: char) -> (r: Result<Option<Value>, InputError>)
        requires
            old(self).wf(),
            old(self)@.entering,
            !old(self)@.eexm,
            spec_is_digit(key) || key == '.',
        ensures
            final(self).wf(),
            ({
                let (v2, res) = spec_mant_digit(old(self)@, key);
                final(self)@ == v2 && r == res
            }),
            r matches Ok(Some(val)) ==> val.wf(),
    {
        if key == '.' {
            if contains_dot(self.number_entry_string.as_str()) {
                return Ok(None);
            }
            if self.number_entry_string.as_str().unicode_len() == 0 {
                self.push_mant('0');
                self.push_mant('.');
                proof {
                    let m0 = Seq::<char>::empty();
                    lemma_digits_no_dot(m0);
                    lemma_filter_push_kept(m0);
                    lemma_filter_push_kept(m0.push('0'));
                    assert(self@.mant =~= seq!['0', '.']);
                    assert(digits_of(self@.mant) =~= seq!['0']);
                }
            } else {
                self.push_mant('.');
                proof {
                    lemma_digits_no_dot(old(self)@.mant);
                    lemma_filter_push_kept(old(self)@.mant);
                }
            }
            Ok(None)
        } else {
            if self.number_entry_string.as_str().unicode_len() >= MAX_ENTRY_LENGTH {
                return Err(InputError::Overflow);
            }
            let is_lone_zero = self.number_entry_string.as_str().unicode_len() == 1
                && self.number_entry_string.as_str().get_char(0) == '0';
            if is_lone_zero {
                proof {
                    assert(self@.mant =~= seq!['0']);
                }
                let mut v: Vec<char> = Vec::new();
                v.push(key);
                proof {
                    assert(v@ =~= seq![key]);
                }
                self.number_entry_string = chars_to_string(&v);
                proof {
                    assert(!self@.mant.contains('.')) by {
                        if self@.mant.contains('.') {
                            let k = choose|k: int|
                                0 <= k < self@.mant.len() && #[trigger] self@.mant[k] == '.';
                            assert(self@.mant[k] == key);
                        }
                    }
                    lemma_digits_no_dot(self@.mant);
                }
            } else {
                proof {
                    assert(!(old(self)@.mant =~= seq!['0']));
                }
                self.push_mant(key);
                proof {
                    lemma_filter_push_kept(old(self)@.mant);
                }
            }
            self.try_parse()
        }
    }

    /// Handle a digit keystroke in EEX mode.
    fn handle_eex_digit(&mut self, key: char) -> (r: Result<Option<Value>, InputError>)
        requires
            old(self).wf(),
            old(self)@.entering,
            old(self)@.eexm,
            spec_is_digit(key) || key == '.',
        ensures
            final(self).wf(),
            ({
                let (v2, res) = spec_eex_digit(old(self)@, key);
                final(self)@ == v2 && r == res
            }),
            r matches Ok(Some(val)) ==> val.wf(),
    {
        if !is_digit(key) {
            return Ok(None);
        }
        if self.eex_digits.as_str().unicode_len() >= MAX_EEX_DIGITS {
            return Err(InputError::Overflow);
        }
        let mut v = crate::text::str_to_chars(self.eex_digits.as_str());
        v.push(key);
        self.eex_digits = chars_to_string(&v);
        self.try_parse()
    }

    /// Reparse the current entry as a value.
    pub fn try_parse(&self) -> (r: Result<Option<Value>, InputError>)
        requires
            self.wf(),
        ensures
            (self@.mant.len() == 0 && !(self@.eexm && self@.eexd.len() > 0)) ==> (
            r matches Err(InputError::InvalidNumber(s)) && s@ == Seq::<char>::empty()),
            !(self@.mant.len() == 0 && !(self@.eexm && self@.eexd.len() > 0)) ==> r == reparse(
                self@,
            ),
            r matches Ok(Some(val)) ==> val.wf(),
    {
        if self.number_entry_string.as_str().unicode_len() == 0 && !(self.eex_mode
            && self.eex_digits.as_str().unicode_len() > 0) {
            return Err(InputError::InvalidNumber(String::new()));
        }
        let (digits, frac) = scan_mantissa(self.number_entry_string.as_str());
        let e: i64 = if self.eex_mode && self.eex_digits.as_str().unicode_len() > 0 {
            let ev = scan_digits(self.eex_digits.as_str());
            proof {
                lemma_digits_val_bounds(self@.eexd);
                lemma_pow10_val();
                lemma_pow10_mono(self@.eexd.len(), 3nat);
                assert(pow10(3) == 1000) by {
                    reveal_with_fuel(pow10, 5);
                }
            }
            ev as i64 - frac as i64
        } else {
            0 - (frac as i64)
        };
        proof {
            lemma_digits_of_all_digits(self@.mant);
            lemma_digits_val_bounds(digits_of(self@.mant));
            lemma_pow10_val();
            lemma_pow10_mono(digits_of(self@.mant).len(), 15nat);
            lemma_pow10_mono(15nat, 32nat);
            lemma_frac_len_bounds(self@.mant);
        }
        if e > 400 {
            // The entered exponent alone already exceeds every representable
            // magnitude.
            if digits == 0 {
                return Ok(Some(Value::zero()));
            }
            proof {
                crate::value::lemma_make_overflow(false, digits as nat, e as int);
            }
            return Err(InputError::Overflow);
        }
        match crate::value::make(false, digits as u128, e) {
            Some(v) => Ok(Some(v)),
            None => Err(InputError::Overflow),
        }
    }

    /// Handle backspace during number entry.
    pub fn handle_backspace(&mut self) -> (r: Option<Value>)
        requires
            old(self).wf(),
        ensures
            final(self).wf(),
            ({
                let (v2, res) = spec_backspace(old(self)@);
                final(self)@ == v2 && r == res
            }),
            r matches Some(val) ==> val.wf(),
    {
        if self.eex_mode && self.eex_digits.as_str().unicode_len() > 0 {
            let mut v = crate::text::str_to_chars(self.eex_digits.as_str());
            v.pop();
            proof {
                assert(v@ =~= old(self)@.eexd.drop_last());
            }
            self.eex_digits = chars_to_string(&v);
            if self.eex_digits.as_str().unicode_len() == 0 {
                self.eex_mode = false;
            }
        } else if self.eex_mode {
            self.eex_mode = false;
        } else if self.number_entry_string.as_str().unicode_len() > 0 {
            let mut v = crate::text::str_to_chars(self.number_entry_string.as_str());
            v.pop();
            proof {
                assert(v@ =~= old(self)@.mant.drop_last());
                lemma_filter_drop_last(old(self)@.mant);
            }
            self.number_entry_string = chars_to_string(&v);
            if self.number_entry_string.as_str().unicode_len() == 0 {
                self.clear();
                return Some(Value::zero());
            }
        } else {
            self.clear();
            return Some(Value::zero());
        }
        match self.try_parse() {
            Ok(x) => x,
            Err(_) => Some(Value::zero()),
        }
    }

    /// The display string for the current entry: the mantissa, the EEX
    /// separator and exponent digits when active, and a trailing cursor.
    pub fn get_display_string(&self) -> (r: String)
        ensures
            r@ == spec_entry_display(self@),
    {
        if !self.entering_number {
            return String::new();
        }
        if self.eex_mode {
            self.number_entry_string.clone().concat(" E").concat(self.eex_digits.as_str()).concat(
                "_",
            )
        } else {
            self.number_entry_string.clone().concat("_")
        }
    }

    /// The raw mantissa entry string.
    pub fn get_entry_string(&self) -> (r: &str)
        ensures
            r@ == self@.mant,
    {
        self.number_entry_string.as_str()
    }
}

impl Default for InputState {
    /// An inactive input state.
    fn default() -> (r: InputState)
        ensures
            r@ == cleared(),
            r.wf(),
    {
        InputState::new()
    }
}

/// Whether the string holds a decimal point.
fn contains_dot(s: &str) -> (r: bool)
    ensures
        r == s@.contains('.'),
{
    let n = s.unicode_len();
    let mut i: usize = 0;
    while i < n
        invariant
            i <= n == s@.len(),
            forall|j: int| 0 <= j < i ==> s@[j] != '.',
        decreases n - i,
    {
        if s.get_char(i) == '.' {
            return true;
        }
        i = i + 1;
    }
    false
}

/// A mantissa without a dot is all digits: filtering changes nothing.
proof fn lemma_digits_no_dot(m: Seq<char>)
    requires
        !m.contains('.'),
    ensures
        digits_of(m) =~= m,
    decreases m.len(),
{
    if m.len() == 0 {
        assert(digits_of(m) =~= m) by {
            reveal(Seq::filter);
        }
    } else {
        assert(!m.drop_last().contains('.')) by {
            if m.drop_last().contains('.') {
                let k = choose|k: int| 0 <= k < m.len() - 1 && #[trigger] m.drop_last()[k] == '.';
                assert(m[k] == '.');
            }
        }
        lemma_digits_no_dot(m.drop_last());
        assert(m.last() != '.') by {
            assert(m[m.len() - 1] == m.last());
        }
        lemma_filter_push_kept(m.drop_last());
        assert(m.drop_last().push(m.last()) =~= m);
        assert(digits_of(m) =~= m);
    }
}

/// Filtering keeps a pushed dot out of the digit sequence.
proof fn lemma_filter_push_kept(m: Seq<char>)
    ensures
        digits_of(m.push('.')) == digits_of(m),
        forall|c: char| c != '.' ==> digits_of(m.push(c)) == digits_of(m).push(c),
{
    let pred = |c: char| c != '.';
    m.lemma_filter_push('.', pred);
    assert forall|c: char| c != '.' implies digits_of(m.push(c)) == digits_of(m).push(c) by {
        m.lemma_filter_push(c, pred);
    }
}

/// Dropping the last character drops at most one digit.
proof fn lemma_filter_drop_last(m: Seq<char>)
    requires
        m.len() > 0,
    ensures
        m.last() == '.' ==> digits_of(m.drop_last()) == digits_of(m),
        m.last() != '.' ==> digits_of(m) == digits_of(m.drop_last()).push(m.last()),
    decreases m.len(),
{
    assert(m.drop_last().push(m.last()) =~= m);
    lemma_filter_push_kept(m.drop_last());
    assert(digits_of(m.drop_last().push(m.last())) == digits_of(m));
}

/// The fraction length of a mantissa is bounded by its digit count.
proof fn lemma_frac_len_bounds(m: Seq<char>)
    ensures
        0 <= spec_frac_len(m) <= digits_of(m).len(),
    decreases m.len(),
{
    if m.len() == 0 {
    } else if !m.contains('.') {
    } else if m.last() == '.' {
    } else {
        lemma_frac_len_bounds(m.drop_last());
        lemma_filter_drop_last(m);
        assert(m.drop_last().contains('.')) by {
            let k = choose|k: int| 0 <= k < m.len() && m[k] == '.';
            assert(m.drop_last()[k] == '.');
        }
    }
}

/// Scan a mantissa string: the digit value and the fraction length.
fn scan_mantissa(s: &str) -> (r: (u64, u32))
    requires
        forall|i: int| 0 <= i < s@.len() ==> spec_is_digit(#[trigger] s@[i]) || s@[i] == '.',
        digits_of(s@).len() <= 15,
        s@.len() <= 16,
    ensures
        r.0 == spec_digits_val(digits_of(s@)),
        r.1 == spec_frac_len(s@),
        r.0 < crate::value::MANT_LIMIT,
{
    proof {
        lemma_pow10_val();
        lemma_digits_of_all_digits(s@);
        lemma_digits_val_bounds(digits_of(s@));
        lemma_pow10_mono(digits_of(s@).len(), 15nat);
    }
    let n = s.unicode_len();
    let mut d: u64 = 0;
    let mut frac: u32 = 0;
    let mut seen_dot: bool = false;
    let mut i: usize = 0;
    while i < n
        invariant
            i <= n == s@.len(),
            forall|j: int| 0 <= j < s@.len() ==> spec_is_digit(#[trigger] s@[j]) || s@[j] == '.',
            digits_of(s@).len() <= 15,
            d == spec_digits_val(digits_of(s@.subrange(0, i as int))),
            frac == spec_frac_len(s@.subrange(0, i as int)),
            frac <= i,
            n <= 16,
            seen_dot == s@.subrange(0, i as int).contains('.'),
            digits_of(s@.subrange(0, i as int)).len() <= digits_of(s@).len(),
            d < crate::value::MANT_LIMIT,
        decreases n - i,
    {
        let c = s.get_char(i);
        proof {
            lemma_pow10_val();
            assert(s@.subrange(0, i + 1) =~= s@.subrange(0, i as int).push(s@[i as int]));
            lemma_filter_push_kept(s@.subrange(0, i as int));
            lemma_filter_prefix(s@, i + 1);
        }
        if c == '.' {
            seen_dot = true;
            frac = 0;
            proof {
                assert(s@.subrange(0, i + 1).last() == '.');
                assert(spec_frac_len(s@.subrange(0, i + 1)) == 0);
            }
        } else {
            proof {
                let pref = digits_of(s@.subrange(0, i as int));
                lemma_digits_of_all_digits(s@.subrange(0, i + 1));
                lemma_digits_val_bounds(digits_of(s@.subrange(0, i + 1)));
                lemma_pow10_mono(digits_of(s@.subrange(0, i + 1)).len(), 15nat);
                assert(digits_of(s@.subrange(0, i + 1)).drop_last() =~= pref);
                if seen_dot {
                    assert(s@.subrange(0, i + 1).contains('.')) by {
                        let k = choose|k: int|
                            0 <= k < i && #[trigger] s@.subrange(0, i as int)[k] == '.';
                        assert(s@.subrange(0, i + 1)[k] == '.');
                    }
                    assert(s@.subrange(0, i + 1).drop_last() =~= s@.subrange(0, i as int));
                } else {
                    if s@.subrange(0, i + 1).contains('.') {
                        let k = choose|k: int|
                            0 <= k < i + 1 && #[trigger] s@.subrange(0, i + 1)[k] == '.';
                        assert(s@.subrange(0, i as int)[k] == '.');
                    }
                }
            }
            d = d * 10 + digit_val(c);
            if seen_dot {
                frac = frac + 1;
            }
        }
        i = i + 1;
    }
    proof {
        assert(s@.subrange(0, n as int) =~= s@);
    }
    (d, frac)
}

/// The digit sequence of a prefix is a prefix of the digit sequence.
proof fn lemma_filter_prefix(s: Seq<char>, i: int)
    requires
        0 <= i <= s.len(),
    ensures
        digits_of(s.subrange(0, i)).len() <= digits_of(s).len(),
    decreases s.len() - i,
{
    broadcast use vstd::seq_lib::group_filter_ensures;

    if i == s.len() {
        assert(s.subrange(0, i) =~= s);
    } else {
        assert(s.subrange(0, i + 1) =~= s.subrange(0, i).push(s[i]));
        lemma_filter_push_kept(s.subrange(0, i));
        lemma_filter_prefix(s, i + 1);
    }
}

/// Every character the digit filter keeps is a digit.
proof fn lemma_digits_of_all_digits(m: Seq<char>)
    requires
        forall|j: int| 0 <= j < m.len() ==> spec_is_digit(#[trigger] m[j]) || m[j] == '.',
    ensures
        forall|k: int|
            0 <= k < digits_of(m).len() ==> spec_is_digit(#[trigger] digits_of(m)[k]),
{
    assert forall|k: int| 0 <= k < digits_of(m).len() implies spec_is_digit(
        #[trigger] digits_of(m)[k],
    ) by {
        let elem = digits_of(m)[k];
        assert(digits_of(m).contains(elem));
        m.lemma_filter_contains_rev(|c: char| c != '.', elem);
        assert(m.contains(elem));
        let j = choose|j: int| 0 <= j < m.len() && m[j] == elem;
        assert(spec_is_digit(m[j]) || m[j] == '.');
        m.lemma_filter_pred(|c: char| c != '.', k);
    }
}

/// Scan a short digit string into its value.
fn scan_digits(s: &str) -> (r: u64)
    requires
        forall|i: int| 0 <= i < s@.len() ==> spec_is_digit(#[trigger] s@[i]),
        s@.len() <= 3,
    ensures
        r == spec_digits_val(s@),
        r <= 999,
{
    proof {
        lemma_digits_val_bounds(s@);
        assert(pow10(3) == 1000) by {
            reveal_with_fuel(pow10, 5);
        }
        lemma_pow10_mono(s@.len(), 3nat);
    }
    let n = s.unicode_len();
    let mut d: u64 = 0;
    let mut i: usize = 0;
    while i < n
        invariant
            i <= n == s@.len() <= 3,
            forall|j: int| 0 <= j < s@.len() ==> spec_is_digit(#[trigger] s@[j]),
            d == spec_digits_val(s@.subrange(0, i as int)),
            d <= 999,
        decreases n - i,
    {
        proof {
            assert(s@.subrange(0, i + 1) =~= s@.subrange(0, i as int).push(s@[i as int]));
            assert(s@.subrange(0, i + 1).drop_last() =~= s@.subrange(0, i as int));
            assert(forall|j: int|
                0 <= j < s@.subrange(0, i + 1).len() ==> spec_is_digit(
                    #[trigger] s@.subrange(0, i + 1)[j],
                ));
            lemma_digits_val_bounds(s@.subrange(0, i + 1));
            lemma_pow10_mono(s@.subrange(0, i + 1).len(), 3nat);
            assert(pow10(3) == 1000) by {
                reveal_with_fuel(pow10, 5);
            }
        }
        d = d * 10 + digit_val(s.get_char(i));
        i = i + 1;
    }
    proof {
        assert(s@.subrange(0, n as int) =~= s@);
    }
    d
}

} // verus!
