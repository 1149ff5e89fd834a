//! Character and string helpers used across the crate.
//!
//! All parser and display logic works over `Seq<char>` views of `String`
//! and `&str`. New strings are assembled as `Vec<char>` and converted once
//! at the end through `chars_to_string`, the only trusted item here.

use vstd::prelude::*;
use vstd::seq_lib::*;
use vstd::string::*;

verus! {

/// Lowercase an ASCII letter; other characters are unchanged.
pub open spec fn spec_lower_char(c: char) -> char {
    if 'A' <= c <= 'Z' {
        (((c as u8) + 32) as char)
    } else {
        c
    }
}

/// Lowercase an ASCII letter; other characters are unchanged.
pub fn lower_char(c: char) -> (r: char)
    ensures
        r == spec_lower_char(c),
{
    if 'A' <= c && c <= 'Z' {
        ((c as u8) + 32) as char
    } else {
        c
    }
}

/// Uppercase an ASCII letter; other characters are unchanged.
pub open spec fn spec_upper_char(c: char) -> char {
    if 'a' <= c <= 'z' {
        (((c as u8) - 32) as char)
    } else {
        c
    }
}

/// Uppercase an ASCII letter; other characters are unchanged.
pub fn upper_char(c: char) -> (r: char)
    ensures
        r == spec_upper_char(c),
{
    if 'a' <= c && c <= 'z' {
        ((c as u8) - 32) as char
    } else {
        c
    }
}

/// Whether `c` is an ASCII decimal digit.
pub open spec fn spec_is_digit(c: char) -> bool {
    '0' <= c <= '9'
}

/// Whether `c` is an ASCII decimal digit.
pub fn is_digit(c: char) -> (r: bool)
    ensures
        r == spec_is_digit(c),
{
    '0' <= c && c <= '9'
}

/// Whether `c` is an ASCII letter or digit.
pub open spec fn spec_is_alnum(c: char) -> bool {
    ('0' <= c <= '9') || ('a' <= c <= 'z') || ('A' <= c <= 'Z')
}

/// Whether `c` is an ASCII letter or digit.
pub fn is_alnum(c: char) -> (r: bool)
    ensures
        r == spec_is_alnum(c),
{
    ('0' <= c && c <= '9') || ('a' <= c && c <= 'z') || ('A' <= c && c <= 'Z')
}

/// The numeric value of an ASCII digit character.
pub open spec fn spec_digit_val(c: char) -> int {
    (c as u8) - 48
}

/// The numeric value of an ASCII digit character.
pub fn digit_val(c: char) -> (r: u64)
    requires
        spec_is_digit(c),
    ensures
        r == spec_digit_val(c),
        r <= 9,
{
    ((c as u8) - 48) as u64
}

/// The ASCII character of a single decimal digit.
pub open spec fn spec_digit_char(d: int) -> char {
    ((48 + d) as u8) as char
}

/// The ASCII character of a single decimal digit.
pub fn digit_char(d: u64) -> (r: char)
    requires
        d <= 9,
    ensures
        r == spec_digit_char(d as int),
        spec_is_digit(r),
{
    (48 + (d as u8)) as char
}

/// A `String` holding exactly the given characters.
///
/// Relies on `String`'s `FromIterator<char>` implementation: collecting an
/// iterator of characters yields the string of exactly those characters in
/// order.
#[verifier::external_body]
pub fn chars_to_string(v: &Vec<char>) -> (s: String)
    ensures
        s@ == v@,
{
    v.iter().collect()
}

/// The characters of a string slice, as a vector.
pub fn str_to_chars(s: &str) -> (r: Vec<char>)
    ensures
        r@ == s@,
{
    let n = s.unicode_len();
    let mut r: Vec<char> = Vec::new();
    let mut i: usize = 0;
    while i < n
        invariant
            i <= n == s@.len(),
            r@ == s@.subrange(0, i as int),
        decreases n - i,
    {
        r.push(s.get_char(i));
        proof {
            assert(r@ =~= s@.subrange(0, i + 1));
        }
        i = i + 1;
    }
    proof {
        assert(r@ =~= s@);
    }
    r
}

/// A string mapped through `spec_lower_char`, character by character.
pub open spec fn spec_lower_seq(s: Seq<char>) -> Seq<char> {
    s.map_values(|c: char| spec_lower_char(c))
}

/// The lowercase form of a string (ASCII letters only).
pub fn str_lower(s: &str) -> (r: String)
    ensures
        r@ == spec_lower_seq(s@),
{
    let n = s.unicode_len();
    let mut v: Vec<char> = Vec::new();
    let mut i: usize = 0;
    while i < n
        invariant
            i <= n == s@.len(),
            v@ == spec_lower_seq(s@).subrange(0, i as int),
        decreases n - i,
    {
        v.push(lower_char(s.get_char(i)));
        proof {
            assert(v@ =~= spec_lower_seq(s@).subrange(0, i + 1));
        }
        i = i + 1;
    }
    proof {
        assert(v@ =~= spec_lower_seq(s@));
    }
    chars_to_string(&v)
}

/// The uppercase form of a string (ASCII letters only).
pub open spec fn spec_upper_seq(s: Seq<char>) -> Seq<char> {
    s.map_values(|c: char| spec_upper_char(c))
}

/// The uppercase form of a string (ASCII letters only).
pub fn str_upper(s: &str) -> (r: String)
    ensures
        r@ == spec_upper_seq(s@),
{
    let n = s.unicode_len();
    let mut v: Vec<char> = Vec::new();
    let mut i: usize = 0;
    while i < n
        invariant
            i <= n == s@.len(),
            v@ == spec_upper_seq(s@).subrange(0, i as int),
        decreases n - i,
    {
        v.push(upper_char(s.get_char(i)));
        proof {
            assert(v@ =~= spec_upper_seq(s@).subrange(0, i + 1));
        }
        i = i + 1;
    }
    proof {
        assert(v@ =~= spec_upper_seq(s@));
    }
    chars_to_string(&v)
}

/// Whether two string slices hold the same characters.
pub fn str_eq(a: &str, b: &str) -> (r: bool)
    ensures
        r == (a@ == b@),
{
    let na = a.unicode_len();
    let nb = b.unicode_len();
    if na != nb {
        return false;
    }
    let mut i: usize = 0;
    while i < na
        invariant
            i <= na == a@.len(),
            na == b@.len(),
            forall|j: int| 0 <= j < i ==> a@.index(j) == b@.index(j),
        decreases na - i,
    {
        if a.get_char(i) != b.get_char(i) {
            return false;
        }
        i = i + 1;
    }
    proof {
        assert(a@ =~= b@);
    }
    true
}

/// Whether `p` is a prefix of `s`.
pub fn str_starts_with(s: &str, p: &str) -> (r: bool)
    ensures
        r == p@.is_prefix_of(s@),
{
    let ns = s.unicode_len();
    let np = p.unicode_len();
    if np > ns {
        return false;
    }
    let mut i: usize = 0;
    while i < np
        invariant
            i <= np == p@.len(),
            np <= ns == s@.len(),
            forall|j: int| 0 <= j < i ==> s@.index(j) == p@.index(j),
        decreases np - i,
    {
        if s.get_char(i) != p.get_char(i) {
            proof {
                assert(!(p@ =~= s@.subrange(0, np as int)));
            }
            return false;
        }
        i = i + 1;
    }
    proof {
        assert(p@ =~= s@.subrange(0, np as int));
    }
    true
}

/// The decimal digit characters of `n`, most significant first.
pub open spec fn spec_u64_digits(n: int) -> Seq<char>
    decreases n,
{
    if n < 10 {
        seq![spec_digit_char(n)]
    } else {
        spec_u64_digits(n / 10).push(spec_digit_char(n % 10))
    }
}

/// The decimal digit characters of `n`, most significant first.
pub fn u64_digit_chars(n: u64) -> (r: Vec<char>)
    ensures
        r@ == spec_u64_digits(n as int),
    decreases n,
{
    if n < 10 {
        let mut v: Vec<char> = Vec::new();
        v.push(digit_char(n));
        proof {
            assert(v@ =~= seq![spec_digit_char(n as int)]);
        }
        v
    } else {
        let mut v = u64_digit_chars(n / 10);
        v.push(digit_char(n % 10));
        v
    }
}

/// The decimal representation of `n`.
pub fn u64_to_string(n: u64) -> (r: String)
    ensures
        r@ == spec_u64_digits(n as int),
{
    let v = u64_digit_chars(n);
    chars_to_string(&v)
}

/// The number a sequence of ASCII digit characters denotes, most
/// significant first.
pub open spec fn spec_digits_val(s: Seq<char>) -> int
    decreases s.len(),
{
    if s.len() == 0 {
        0
    } else {
        spec_digits_val(s.drop_last()) * 10 + spec_digit_val(s.last())
    }
}

/// A digit string of length n denotes a number in [0, 10^n).
pub proof fn lemma_digits_val_bounds(s: Seq<char>)
    requires
        forall|i: int| 0 <= i < s.len() ==> spec_is_digit(#[trigger] s[i]),
    ensures
        0 <= spec_digits_val(s) < crate::value::pow10(s.len()),
    decreases s.len(),
{
    if s.len() == 0 {
        assert(crate::value::pow10(0) == 1);
    } else {
        assert(forall|i: int|
            0 <= i < s.drop_last().len() ==> spec_is_digit(#[trigger] s.drop_last()[i]));
        lemma_digits_val_bounds(s.drop_last());
        assert(spec_is_digit(s.last()));
        assert(0 <= spec_digit_val(s.last()) <= 9);
        assert(crate::value::pow10(s.len()) == 10 * crate::value::pow10(s.drop_last().len()));
    }
}

/// The decimal representation of a signed number: a minus sign for
/// negative values, then the digits of the magnitude.
pub open spec fn spec_i64_digits(n: int) -> Seq<char> {
    if n < 0 {
        seq!['-'] + spec_u64_digits(-n)
    } else {
        spec_u64_digits(n)
    }
}

/// The decimal representation of `n`.
pub fn i64_to_string(n: i64) -> (r: String)
    requires
        n > i64::MIN,
    ensures
        r@ == spec_i64_digits(n as int),
{
    if n < 0 {
        let mut v: Vec<char> = Vec::new();
        v.push('-');
        let d = u64_digit_chars((-n) as u64);
        let mut i: usize = 0;
        while i < d.len()
            invariant
                i <= d.len(),
                d@ == spec_u64_digits(-(n as int)),
                v@ == seq!['-'] + d@.subrange(0, i as int),
            decreases d.len() - i,
        {
            v.push(d[i]);
            proof {
                assert(v@ =~= seq!['-'] + d@.subrange(0, i + 1));
            }
            i = i + 1;
        }
        proof {
            assert(v@ =~= seq!['-'] + d@);
        }
        chars_to_string(&v)
    } else {
        u64_to_string(n as u64)
    }
}

/// The decimal representation of `n`, zero-padded on the left to two
/// characters.
pub fn two_digit_string(n: u64) -> (r: String)
    ensures
        n < 10 ==> r@ == seq!['0', spec_digit_char(n as int)],
        n >= 10 ==> r@ == spec_u64_digits(n as int),
{
    if n < 10 {
        let mut v: Vec<char> = Vec::new();
        v.push('0');
        v.push(digit_char(n));
        proof {
            assert(v@ =~= seq!['0', spec_digit_char(n as int)]);
        }
        chars_to_string(&v)
    } else {
        u64_to_string(n)
    }
}

/// The argument tokens joined by `sep`.
pub open spec fn spec_join(args: Seq<Seq<char>>, sep: Seq<char>) -> Seq<char>
    decreases args.len(),
{
    if args.len() == 0 {
        Seq::empty()
    } else if args.len() == 1 {
        args[0]
    } else {
        spec_join(args.drop_last(), sep) + sep + args.last()
    }
}

/// The strings joined by single spaces.
pub fn join_with_spaces(args: &Vec<String>) -> (r: String)
    requires
        args.len() > 0,
    ensures
        r@ == spec_join(args.deep_view(), " "@),
{
    let mut r = args[0].clone();
    let mut i: usize = 1;
    proof {
        assert(args.deep_view().subrange(0, 1) =~= seq![args.deep_view()[0]]);
    }
    while i < args.len()
        invariant
            1 <= i <= args.len(),
            args.len() == args.deep_view().len(),
            r@ == spec_join(args.deep_view().subrange(0, i as int), " "@),
        decreases args.len() - i,
    {
        r.append(" ");
        r.append(args[i].as_str());
        proof {
            let dv = args.deep_view();
            assert(dv.subrange(0, i + 1).drop_last() =~= dv.subrange(0, i as int));
            assert(dv.subrange(0, i + 1).last() == dv[i as int]);
        }
        i = i + 1;
    }
    proof {
        assert(args.deep_view().subrange(0, args.len() as int) =~= args.deep_view());
    }
    r
}

} // verus!
