//! Verified text helpers: decimal integer parsing and formatting, and the
//! `"galaxy:system:position"` coordinate string codec used at the payload
//! boundary.

use vstd::prelude::*;
use vstd::string::StrSliceExecFns;
use vstd::string::StringExecFns;

verus! {

/// A decimal digit.
pub open spec fn is_digit(c: char) -> bool {
    '0' <= c && c <= '9'
}

/// The value of a decimal digit.
pub open spec fn digit_val(c: char) -> int {
    c as int - '0' as int
}

/// Every character is a decimal digit.
pub open spec fn all_digits(s: Seq<char>) -> bool {
    forall|i: int| 0 <= i < s.len() ==> is_digit(#[trigger] s[i])
}

/// The non-negative value of a digit string.
pub open spec fn digits_value(s: Seq<char>) -> int
    decreases s.len(),
{
    if s.len() == 0 {
        0
    } else {
        digits_value(s.drop_last()) * 10 + digit_val(s.last())
    }
}

/// What a decimal integer string denotes: an optional sign followed by at
/// least one digit, as `str::parse` accepts for the integer types.
pub open spec fn int_of_string(s: Seq<char>) -> Option<int> {
    if s.len() > 0 && (s[0] == '-' || s[0] == '+') {
        if s.len() > 1 && all_digits(s.skip(1)) {
            if s[0] == '-' {
                Some(-digits_value(s.skip(1)))
            } else {
                Some(digits_value(s.skip(1)))
            }
        } else {
            None
        }
    } else if s.len() > 0 && all_digits(s) {
        Some(digits_value(s))
    } else {
        None
    }
}

/// What parsing a string as `i64` yields: the denoted value when it is in
/// range, and nothing otherwise.
pub open spec fn i64_of_string(s: Seq<char>) -> Option<i64> {
    match int_of_string(s) {
        Some(v) => if -0x8000_0000_0000_0000 <= v <= 0x7fff_ffff_ffff_ffff {
            Some(v as i64)
        } else {
            None
        },
        None => None,
    }
}

/// A digit string's value is non-negative.
pub proof fn lemma_digits_value_nonneg(s: Seq<char>)
    requires
        all_digits(s),
    ensures
        digits_value(s) >= 0,
    decreases s.len(),
{
    if s.len() > 0 {
        assert(all_digits(s.drop_last())) by {
            assert(forall|i: int| 0 <= i < s.len() - 1 ==> s.drop_last()[i] == s[i]);
        }
        lemma_digits_value_nonneg(s.drop_last());
    }
}

/// A digit string's value dominates the value of any of its prefixes.
pub proof fn lemma_digits_prefix_bound(s: Seq<char>, j: int)
    requires
        all_digits(s),
        0 <= j <= s.len(),
    ensures
        digits_value(s) >= digits_value(s.subrange(0, j)),
        digits_value(s.subrange(0, j)) >= 0,
    decreases s.len() - j,
{
    assert(all_digits(s.subrange(0, j))) by {
        assert(forall|k: int| 0 <= k < j ==> s.subrange(0, j)[k] == s[k]);
    }
    lemma_digits_value_nonneg(s.subrange(0, j));
    if j < s.len() {
        assert(s.subrange(0, j + 1).drop_last() =~= s.subrange(0, j));
        assert(s.subrange(0, j + 1).last() == s[j]);
        assert(digits_value(s.subrange(0, j + 1)) == digits_value(s.subrange(0, j)) * 10
            + digit_val(s[j]));
        assert(digit_val(s[j]) >= 0 && digits_value(s.subrange(0, j)) >= 0);
        lemma_digits_prefix_bound(s, j + 1);
    } else {
        assert(s.subrange(0, j) =~= s);
    }
}

/// Parses a decimal integer exactly as `str::parse::<i64>` does: an
/// optional sign, then at least one digit; anything else, or a value out
/// of the `i64` range, yields nothing.
pub fn parse_i64(s: &str) -> (r: Option<i64>)
    ensures
        r == i64_of_string(s@),
{
    let n = s.unicode_len();
    if n == 0 {
        proof { assert(i64_of_string(s@) is None); }
        return None;
    }
    let first = s.get_char(0);
    let negative = first == '-';
    let start: usize = if first == '-' || first == '+' {
        1
    } else {
        0
    };
    if n == start {
        proof { assert(i64_of_string(s@) is None); }
        return None;
    }
    let ghost digits = s@.skip(start as int);
    let mut mag: u64 = 0;
    let mut i: usize = start;
    proof {
        assert(digits.subrange(0, 0) =~= Seq::<char>::empty());
        assert(s@.skip(0) =~= s@);
    }
    while i < n
        invariant
            start <= i <= n,
            n == s@.len(),
            start == 0 || start == 1,
            start == 1 ==> (s@[0] == '-' || s@[0] == '+'),
            start == 0 ==> !(s@[0] == '-' || s@[0] == '+'),
            negative == (s@[0] == '-'),
            n > start,
            digits == s@.skip(start as int),
            digits.len() == n - start,
            all_digits(digits.subrange(0, i - start)),
            mag == digits_value(digits.subrange(0, i - start)),
        decreases n - i,
    {
        let c = s.get_char(i);
        proof {
            assert(digits[i - start] == s@[i as int]);
        }
        if c < '0' || c > '9' {
            proof {
                assert(!is_digit(digits[i - start]));
                assert(!all_digits(digits));
                assert(s@.skip(0) =~= s@);
                assert(i64_of_string(s@) is None);
            }
            return None;
        }
        let d = (c as u32) as u64 - ('0' as u32) as u64;
        proof {
            assert(digits.subrange(0, i - start + 1).drop_last() =~= digits.subrange(
                0,
                i - start,
            ));
            assert(digits.subrange(0, i - start + 1).last() == digits[i - start]);
        }
        if mag > (0xffff_ffff_ffff_ffffu64 - d) / 10 {
            // The magnitude can only grow from here: whatever follows, the
            // parse either fails on a later character or denotes a value
            // outside the i64 range.
            proof {
                let c_max = 0xffff_ffff_ffff_ffff as int;
                let q = (c_max - d) / 10;
                assert(q * 10 + (c_max - d) % 10 == c_max - d);
                assert(mag >= q + 1);
                assert(mag * 10 + d > c_max);
                if all_digits(digits) {
                    lemma_digits_prefix_bound(digits, i - start + 1);
                    assert(digits_value(digits.subrange(0, i - start + 1)) == mag * 10 + d);
                    assert(digits_value(digits) > 0x7fff_ffff_ffff_ffff + 1);
                    if start == 1 {
                        if s@[0] == '-' {
                            assert(int_of_string(s@) == Some(-digits_value(digits)));
                        } else {
                            assert(int_of_string(s@) == Some(digits_value(digits)));
                        }
                    } else {
                        assert(s@.skip(0) =~= s@);
                        assert(int_of_string(s@) == Some(digits_value(digits)));
                    }
                } else {
                    assert(s@.skip(0) =~= s@);
                    assert(int_of_string(s@) is None);
                }
                assert(i64_of_string(s@) is None);
            }
            return None;
        }
        mag = mag * 10 + d;
        i = i + 1;
    }
    proof {
        assert(digits.subrange(0, (n - start) as int) =~= digits);
        assert(all_digits(digits));
        lemma_digits_value_nonneg(digits);
    }
    if negative {
        if mag > 0x8000_0000_0000_0000u64 {
            proof { assert(i64_of_string(s@) is None); }
            return None;
        }
        if mag == 0x8000_0000_0000_0000u64 {
            proof { assert(i64_of_string(s@) == Some((-0x8000_0000_0000_0000) as i64)); }
            return Some(-0x7fff_ffff_ffff_ffffi64 - 1);
        }
        proof { assert(i64_of_string(s@) == Some((-(mag as int)) as i64)); }
        Some(-(mag as i64))
    } else {
        if mag > 0x7fff_ffff_ffff_ffffu64 {
            proof { assert(i64_of_string(s@) is None); }
            return None;
        }
        proof { assert(i64_of_string(s@) == Some((mag as int) as i64)); }
        Some(mag as i64)
    }
}

/// The digit character for a value below ten.
pub open spec fn digit_char(v: int) -> char {
    if v == 0 {
        '0'
    } else if v == 1 {
        '1'
    } else if v == 2 {
        '2'
    } else if v == 3 {
        '3'
    } else if v == 4 {
        '4'
    } else if v == 5 {
        '5'
    } else if v == 6 {
        '6'
    } else if v == 7 {
        '7'
    } else if v == 8 {
        '8'
    } else {
        '9'
    }
}

/// The canonical decimal rendering of a non-negative integer.
pub open spec fn dec_string(v: int) -> Seq<char>
    decreases v,
{
    if v < 10 {
        seq![digit_char(if v < 0 {
            0
        } else {
            v
        })]
    } else {
        dec_string(v / 10).push(digit_char(v % 10))
    }
}

/// The decimal rendering of any integer: a minus sign, then the magnitude.
pub open spec fn dec_string_i64(v: int) -> Seq<char> {
    if v < 0 {
        seq!['-'] + dec_string(-v)
    } else {
        dec_string(v)
    }
}

/// Renders one digit.
fn digit_str(d: u64) -> (r: &'static str)
    requires
        d < 10,
    ensures
        r@ == seq![digit_char(d as int)],
{
    proof {
        reveal_strlit("0");
        reveal_strlit("1");
        reveal_strlit("2");
        reveal_strlit("3");
        reveal_strlit("4");
        reveal_strlit("5");
        reveal_strlit("6");
        reveal_strlit("7");
        reveal_strlit("8");
        reveal_strlit("9");
    }
    let r = match d {
        0 => "0",
        1 => "1",
        2 => "2",
        3 => "3",
        4 => "4",
        5 => "5",
        6 => "6",
        7 => "7",
        8 => "8",
        _ => "9",
    };
    proof {
        assert(r@ =~= seq![digit_char(d as int)]);
    }
    r
}

/// Renders a non-negative integer in decimal.
pub fn u64_to_string(v: u64) -> (r: String)
    ensures
        r@ == dec_string(v as int),
    decreases v,
{
    if v < 10 {
        String::from_str(digit_str(v))
    } else {
        let mut r = u64_to_string(v / 10);
        r.append(digit_str(v % 10));
        proof {
            assert(r@ =~= dec_string(v as int));
        }
        r
    }
}

/// Renders a signed integer in decimal.
pub fn i64_to_string(v: i64) -> (r: String)
    ensures
        r@ == dec_string_i64(v as int),
{
    if v >= 0 {
        u64_to_string(v as u64)
    } else {
        let mag: u64 = ((-(v + 1)) as u64) + 1;
        let mut r = String::from_str("-");
        r.append(u64_to_string(mag).as_str());
        proof {
            reveal_strlit("-");
            assert(r@ =~= dec_string_i64(v as int));
        }
        r
    }
}

// ===========================================================================
// Coordinate strings
// ===========================================================================

/// Number of ':' separators.
pub open spec fn colon_count(s: Seq<char>) -> int
    decreases s.len(),
{
    if s.len() == 0 {
        0
    } else {
        (if s[0] == ':' {
            1int
        } else {
            0int
        }) + colon_count(s.skip(1))
    }
}

/// Index of the first ':', or the length when there is none.
pub open spec fn find_colon(s: Seq<char>) -> int
    decreases s.len(),
{
    if s.len() == 0 {
        0
    } else if s[0] == ':' {
        0
    } else {
        1 + find_colon(s.skip(1))
    }
}

/// The three ':'-separated parts of a coordinate string, when it has
/// exactly two separators.
pub open spec fn coord_parts(s: Seq<char>) -> Option<(Seq<char>, Seq<char>, Seq<char>)> {
    if colon_count(s) == 2 {
        let i = find_colon(s);
        let j = i + 1 + find_colon(s.skip(i + 1));
        Some((s.subrange(0, i), s.subrange(i + 1, j), s.skip(j + 1)))
    } else {
        None
    }
}

/// Finding the first colon: basic facts.
proof fn lemma_find_colon(s: Seq<char>)
    ensures
        0 <= find_colon(s) <= s.len(),
        find_colon(s) < s.len() ==> s[find_colon(s)] == ':',
        forall|k: int| 0 <= k < find_colon(s) ==> s[k] != ':',
    decreases s.len(),
{
    if s.len() > 0 && s[0] != ':' {
        lemma_find_colon(s.skip(1));
        assert forall|k: int| 0 <= k < find_colon(s) implies s[k] != ':' by {
            if k > 0 {
                assert(s.skip(1)[k - 1] == s[k]);
            }
        }
    }
}

/// A colon count splits at the first colon.
proof fn lemma_colon_count_split(s: Seq<char>)
    requires
        find_colon(s) < s.len(),
    ensures
        colon_count(s) == 1 + colon_count(s.skip(find_colon(s) + 1)),
    decreases s.len(),
{
    lemma_find_colon(s);
    if s.len() > 0 {
        if s[0] == ':' {
            assert(s.skip(1) =~= s.skip(find_colon(s) + 1));
        } else {
            lemma_colon_count_split(s.skip(1));
            assert(s.skip(1).skip(find_colon(s.skip(1)) + 1) =~= s.skip(find_colon(s) + 1));
        }
    }
}

/// A string without a colon has colon count zero.
proof fn lemma_colon_count_none(s: Seq<char>)
    requires
        find_colon(s) == s.len(),
    ensures
        colon_count(s) == 0,
    decreases s.len(),
{
    if s.len() > 0 {
        lemma_find_colon(s);
        lemma_colon_count_none(s.skip(1));
    }
}

/// Splits a coordinate string into its three parts, when it has exactly
/// two ':' separators.
pub fn split_coordinates<'a>(s: &'a str) -> (r: Option<(&'a str, &'a str, &'a str)>)
    ensures
        (match r {
            Some((a, b, c)) => coord_parts(s@) == Some((a@, b@, c@)),
            None => coord_parts(s@) is None,
        }),
{
    let n = s.unicode_len();
    // Find the colon positions in one scan.
    let mut first: Option<usize> = None;
    let mut second: Option<usize> = None;
    let mut count: usize = 0;
    let mut i: usize = 0;
    while i < n
        invariant
            0 <= i <= n,
            n == s@.len(),
            count == colon_count(s@.subrange(0, i as int)) && count <= i,
            (match first {
                Some(f) => f < i && s@[f as int] == ':' && (forall|k: int|
                    0 <= k < f ==> s@[k] != ':') && count >= 1,
                None => count == 0 && (forall|k: int| 0 <= k < i ==> s@[k] != ':'),
            }),
            (match second {
                Some(g) => first is Some && first->0 < g < i && s@[g as int] == ':' && (forall|
                    k: int| first->0 < k < g ==> s@[k] != ':') && count >= 2,
                None => count <= 1 && (first is Some ==> (forall|k: int|
                    first->0 < k < i ==> s@[k] != ':')),
            }),
        decreases n - i,
    {
        let c = s.get_char(i);
        proof {
            assert(s@.subrange(0, i + 1).drop_last() =~= s@.subrange(0, i as int));
            lemma_colon_count_snoc(s@.subrange(0, i + 1));
        }
        if c == ':' {
            if first.is_none() {
                first = Some(i);
            } else if second.is_none() {
                second = Some(i);
            }
            count = count + 1;
        }
        i = i + 1;
    }
    proof {
        assert(s@.subrange(0, n as int) =~= s@);
    }
    if count != 2 {
        proof {
            assert(colon_count(s@) != 2);
        }
        return None;
    }
    let f = first.unwrap();
    let g = second.unwrap();
    proof {
        lemma_find_prefix_colon(s@, f as int);
        assert(find_colon(s@) == f);
        assert forall|k: int| 0 <= k < g - f - 1 implies (#[trigger] s@.skip(f + 1)[k]) != ':' by {
            assert(s@.skip(f + 1)[k] == s@[f + 1 + k]);
        }
        assert(s@.skip(f + 1)[g - f - 1] == ':');
        lemma_find_prefix_colon(s@.skip(f + 1), g - f - 1);
        assert(find_colon(s@.skip(f + 1)) == g - f - 1);
    }
    let a = s.substring_char(0, f);
    let b = s.substring_char(f + 1, g);
    let c = s.substring_char(g + 1, n);
    proof {
        assert(a@ =~= s@.subrange(0, f as int));
        assert(b@ =~= s@.subrange(f + 1, g as int));
        assert(c@ =~= s@.skip(g + 1));
    }
    Some((a, b, c))
}

/// Appending one character adjusts the colon count by whether it is one.
proof fn lemma_colon_count_snoc(s: Seq<char>)
    requires
        s.len() > 0,
    ensures
        colon_count(s) == colon_count(s.drop_last()) + (if s.last() == ':' {
            1int
        } else {
            0int
        }),
    decreases s.len(),
{
    if s.len() == 1 {
        assert(s.skip(1) =~= Seq::<char>::empty());
        assert(s.drop_last() =~= Seq::<char>::empty());
    } else {
        lemma_colon_count_snoc(s.skip(1));
        assert(s.skip(1).drop_last() =~= s.drop_last().skip(1));
        assert(s.skip(1).last() == s.last());
    }
}

/// A position whose prefix holds no colon and that holds one is the first.
proof fn lemma_find_prefix_colon(s: Seq<char>, f: int)
    requires
        0 <= f < s.len(),
        s[f] == ':',
        forall|k: int| 0 <= k < f ==> s[k] != ':',
    ensures
        find_colon(s) == f,
    decreases f,
{
    if f > 0 {
        assert forall|k: int| 0 <= k < f - 1 implies s.skip(1)[k] != ':' by {
            assert(s.skip(1)[k] == s[k + 1]);
        }
        assert(s.skip(1)[f - 1] == s[f]);
        lemma_find_prefix_colon(s.skip(1), f - 1);
    }
}

/// An absent or unparsable figure counts as zero.
pub open spec fn parse_or_zero(s: Seq<char>) -> i64 {
    match i64_of_string(s) {
        Some(v) => v,
        None => 0,
    }
}

/// What lenient coordinate parsing yields: the three figures, each zero
/// when unparsable, or nothing when the string does not have exactly two
/// ':' separators.
pub open spec fn coords_of_string(s: Seq<char>) -> Option<(i64, i64, i64)> {
    match coord_parts(s) {
        Some((a, b, c)) => Some((parse_or_zero(a), parse_or_zero(b), parse_or_zero(c))),
        None => None,
    }
}

/// Parses a `"galaxy:system:position"` string leniently: a malformed
/// shape is rejected, an unparsable figure counts as zero.
pub fn parse_coordinates_lenient(s: &str) -> (r: Option<(i64, i64, i64)>)
    ensures
        r == coords_of_string(s@),
{
    match split_coordinates(s) {
        Some((a, b, c)) => {
            let g = match parse_i64(a) {
                Some(v) => v,
                None => 0,
            };
            let sy = match parse_i64(b) {
                Some(v) => v,
                None => 0,
            };
            let p = match parse_i64(c) {
                Some(v) => v,
                None => 0,
            };
            Some((g, sy, p))
        },
        None => None,
    }
}

/// The canonical `"galaxy:system:position"` rendering.
pub open spec fn coords_string(g: int, s: int, p: int) -> Seq<char> {
    dec_string_i64(g) + seq![':'] + dec_string_i64(s) + seq![':'] + dec_string_i64(p)
}

/// Renders a coordinate triple as `"galaxy:system:position"`.
pub fn coordinates_text(g: i64, s: i64, p: i64) -> (r: String)
    ensures
        r@ == coords_string(g as int, s as int, p as int),
{
    let mut out = i64_to_string(g);
    out.append(":");
    out.append(i64_to_string(s).as_str());
    out.append(":");
    out.append(i64_to_string(p).as_str());
    proof {
        reveal_strlit(":");
        assert(out@ =~= coords_string(g as int, s as int, p as int));
    }
    out
}

/// What parsing a string as `u8` yields: the denoted value when it is in
/// range and carries no minus sign, and nothing otherwise.
pub open spec fn u8_of_string(s: Seq<char>) -> Option<u8> {
    match int_of_string(s) {
        Some(v) => if 0 <= v <= 255 && !(s.len() > 0 && s[0] == '-') {
            Some(v as u8)
        } else {
            None
        },
        None => None,
    }
}

/// What parsing a string as `u16` yields.
pub open spec fn u16_of_string(s: Seq<char>) -> Option<u16> {
    match int_of_string(s) {
        Some(v) => if 0 <= v <= 65535 && !(s.len() > 0 && s[0] == '-') {
            Some(v as u16)
        } else {
            None
        },
        None => None,
    }
}

/// Parses a `u8` as `str::parse::<u8>` does.
pub fn parse_u8(s: &str) -> (r: Option<u8>)
    ensures
        r == u8_of_string(s@),
{
    let n = s.unicode_len();
    if n > 0 && s.get_char(0) == '-' {
        return None;
    }
    match parse_i64(s) {
        Some(v) => if 0 <= v && v <= 255 {
            Some(v as u8)
        } else {
            None
        },
        None => {
            proof {
                if int_of_string(s@) is Some {
                    lemma_int_of_string_sign_bound(s@);
                }
            }
            None
        },
    }
}

/// Parses a `u16` as `str::parse::<u16>` does.
pub fn parse_u16(s: &str) -> (r: Option<u16>)
    ensures
        r == u16_of_string(s@),
{
    let n = s.unicode_len();
    if n > 0 && s.get_char(0) == '-' {
        return None;
    }
    match parse_i64(s) {
        Some(v) => if 0 <= v && v <= 65535 {
            Some(v as u16)
        } else {
            None
        },
        None => {
            proof {
                if int_of_string(s@) is Some {
                    lemma_int_of_string_sign_bound(s@);
                }
            }
            None
        },
    }
}

/// An unsigned-looking integer string denotes a non-negative value no
/// larger than its digit string's value; in particular, one that fails to
/// parse as `i64` is far outside the small unsigned ranges.
proof fn lemma_int_of_string_sign_bound(s: Seq<char>)
    requires
        int_of_string(s) is Some,
        !(s.len() > 0 && s[0] == '-'),
    ensures
        int_of_string(s)->0 >= 0,
{
    if s.len() > 0 && s[0] == '+' {
        lemma_digits_value_nonneg(s.skip(1));
    } else {
        lemma_digits_value_nonneg(s);
    }
}

impl crate::models::Coordinates {
    /// Parses a `"galaxy:system:planet"` string strictly, each figure in
    /// its own range; the error names the part that failed.
    pub fn from_str(s: &str) -> (r: Result<crate::models::Coordinates, &'static str>)
        ensures
            (match coord_parts(s@) {
                Some((a, b, c)) => (match (u8_of_string(a), u16_of_string(b), u8_of_string(c)) {
                    (Some(g), Some(sy), Some(p)) => r == Ok::<crate::models::Coordinates,
                        &'static str>(crate::models::Coordinates { galaxy: g, system: sy, planet: p }),
                    _ => r is Err,
                }),
                None => r is Err,
            }),
    {
        match split_coordinates(s) {
            Some((a, b, c)) => {
                let galaxy = match parse_u8(a) {
                    Some(v) => v,
                    None => {
                        return Err("Invalid galaxy");
                    },
                };
                let system = match parse_u16(b) {
                    Some(v) => v,
                    None => {
                        return Err("Invalid system");
                    },
                };
                let planet = match parse_u8(c) {
                    Some(v) => v,
                    None => {
                        return Err("Invalid planet");
                    },
                };
                Ok(crate::models::Coordinates { galaxy, system, planet })
            },
            None => Err("Invalid format: expected 'galaxy:system:planet'"),
        }
    }

    /// Renders the triple as `"galaxy:system:planet"`.
    pub fn text(&self) -> (r: String)
        ensures
            r@ == coords_string(self.galaxy as int, self.system as int, self.planet as int),
    {
        coordinates_text(self.galaxy as i64, self.system as i64, self.planet as i64)
    }
}

} // verus!
