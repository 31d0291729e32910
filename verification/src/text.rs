//! Verified text utilities: blank tests, equality, substring search,
//! decimal rendering, and the size / transaction-number formats.

use vstd::prelude::*;

use crate::models::Date;
use crate::models::Timestamp;

verus! {

/// ASCII whitespace, the characters a blank input may consist of.
pub open spec fn is_space_char(c: char) -> bool {
    c == ' ' || c == '\t' || c == '\n' || c == '\r'
}

/// A string is blank when every character is whitespace (so the empty
/// string is blank).
pub open spec fn is_blank(s: Seq<char>) -> bool {
    forall|i: int| 0 <= i < s.len() ==> is_space_char(#[trigger] s[i])
}

/// Decides `is_blank` executably.
pub fn str_is_blank(s: &str) -> (r: bool)
    ensures
        r == is_blank(s@),
{
    let len = s.unicode_len();
    let mut i: usize = 0;
    while i < len
        invariant
            len == s@.len(),
            0 <= i <= len,
            forall|j: int| 0 <= j < i ==> is_space_char(#[trigger] s@[j]),
        decreases len - i,
    {
        let c = s.get_char(i);
        if !(c == ' ' || c == '\t' || c == '\n' || c == '\r') {
            assert(!is_space_char(s@[i as int]));
            return false;
        }
        i = i + 1;
    }
    true
}

/// Decides view equality of two string slices.
pub fn str_eq(a: &str, b: &str) -> (r: bool)
    ensures
        r == (a@ == b@),
{
    let alen = a.unicode_len();
    let blen = b.unicode_len();
    if alen != blen {
        return false;
    }
    let mut i: usize = 0;
    while i < alen
        invariant
            alen == a@.len(),
            alen == b@.len(),
            0 <= i <= alen,
            forall|j: int| 0 <= j < i ==> a@[j] == b@[j],
        decreases alen - i,
    {
        if a.get_char(i) != b.get_char(i) {
            return false;
        }
        i = i + 1;
    }
    proof {
        assert(a@ =~= b@);
    }
    true
}

/// The needle occurs somewhere in the haystack (the empty needle occurs
/// everywhere).
pub open spec fn contains_seq(hay: Seq<char>, needle: Seq<char>) -> bool {
    exists|i: int|
        0 <= i && i + needle.len() <= hay.len() && #[trigger] hay.subrange(i, i + needle.len())
            == needle
}

/// Decides `contains_seq` executably.
pub fn str_contains(hay: &str, needle: &str) -> (r: bool)
    ensures
        r == contains_seq(hay@, needle@),
{
    let hlen = hay.unicode_len();
    let nlen = needle.unicode_len();
    if nlen > hlen {
        return false;
    }
    let mut start: usize = 0;
    while start <= hlen - nlen
        invariant
            hlen == hay@.len(),
            nlen == needle@.len(),
            nlen <= hlen,
            0 <= start <= hlen - nlen + 1,
            forall|s: int|
                0 <= s < start ==> #[trigger] hay@.subrange(s, s + nlen as int) != needle@,
        decreases hlen - nlen - start + 1,
    {
        let mut j: usize = 0;
        let mut all_match = true;
        while j < nlen
            invariant
                hlen == hay@.len(),
                nlen == needle@.len(),
                0 <= start <= hlen - nlen,
                0 <= j <= nlen,
                all_match ==> forall|k: int|
                    0 <= k < j ==> hay@[start + k] == #[trigger] needle@[k],
                !all_match ==> hay@.subrange(start as int, start + nlen as int) != needle@,
            decreases nlen - j,
        {
            if hay.get_char(start + j) != needle.get_char(j) {
                proof {
                    let sub = hay@.subrange(start as int, start + nlen as int);
                    assert(sub[j as int] == hay@[start + j]);
                }
                all_match = false;
                j = nlen;
            } else {
                j = j + 1;
            }
        }
        if all_match {
            proof {
                let sub = hay@.subrange(start as int, start + nlen as int);
                assert forall|k: int| 0 <= k < nlen implies sub[k] == needle@[k] by {
                    assert(hay@[start + k] == needle@[k]);
                }
                assert(sub =~= needle@);
            }
            return true;
        }
        proof {
            if nlen == 0 {
                assert(hay@.subrange(start as int, start as int) =~= needle@);
            }
        }
        start = start + 1;
    }
    false
}

/// The character of one decimal digit.
pub open spec fn digit_char(d: int) -> char {
    if d == 0 {
        '0'
    } else if d == 1 {
        '1'
    } else if d == 2 {
        '2'
    } else if d == 3 {
        '3'
    } else if d == 4 {
        '4'
    } else if d == 5 {
        '5'
    } else if d == 6 {
        '6'
    } else if d == 7 {
        '7'
    } else if d == 8 {
        '8'
    } else {
        '9'
    }
}

/// The decimal rendering of a natural number, most significant digit
/// first, without leading zeros (0 renders as "0").
pub open spec fn spec_digits(n: nat) -> Seq<char>
    decreases n,
{
    if n < 10 {
        seq![digit_char(n as int)]
    } else {
        spec_digits(n / 10).push(digit_char((n % 10) as int))
    }
}

/// One decimal digit as a string slice.
fn digit_str(d: u64) -> (s: &'static str)
    requires
        d < 10,
    ensures
        s@ =~= seq![digit_char(d as int)],
{
    proof {
        reveal_strlit("0");
        reveal_strlit("1");
        reveal_strlit("2");
        reveal_strlit("3");
        reveal_strlit("4");
        reveal_strlit("5");
        reveal_strlit("6");
        reveal_strlit("7");
        reveal_strlit("8");
        reveal_strlit("9");
    }
    match d {
        0 => "0",
        1 => "1",
        2 => "2",
        3 => "3",
        4 => "4",
        5 => "5",
        6 => "6",
        7 => "7",
        8 => "8",
        _ => "9",
    }
}

/// Renders a number in decimal.
pub fn u64_to_string(n: u64) -> (s: String)
    ensures
        s@ == spec_digits(n as nat),
    decreases n,
{
    if n < 10 {
        String::from_str(digit_str(n))
    } else {
        let mut s = u64_to_string(n / 10);
        s.append(digit_str(n % 10));
        proof {
            assert(s@ =~= spec_digits(n as nat));
        }
        s
    }
}

/// The "TR-" prefixed form of a transaction number.
pub open spec fn spec_transaction_number_text(n: nat) -> Seq<char> {
    seq!['T', 'R', '-'] + spec_digits(n)
}

/// Renders a transaction number as its human-facing "TR-NNNN" text.
pub fn format_transaction_number(n: u64) -> (s: String)
    ensures
        s@ == spec_transaction_number_text(n as nat),
{
    proof {
        reveal_strlit("TR-");
    }
    let mut s = String::from_str("TR-");
    let digits = u64_to_string(n);
    s.append(digits.as_str());
    proof {
        assert(s@ =~= spec_transaction_number_text(n as nat));
    }
    s
}

/// A run of zeros, as decimal padding.
pub open spec fn zeros(n: nat) -> Seq<char> {
    Seq::new(n, |i: int| '0')
}

/// A number rendered with at least four digits.
pub open spec fn spec_padded4(n: nat) -> Seq<char> {
    let ds = spec_digits(n);
    if ds.len() >= 4 {
        ds
    } else {
        zeros((4 - ds.len()) as nat) + ds
    }
}

/// The last two decimal digits of a number, zero-padded.
pub open spec fn spec_two_digits(n: nat) -> Seq<char> {
    seq![digit_char((n / 10 % 10) as int), digit_char((n % 10) as int)]
}

/// A calendar date as "YYYY-MM-DD" (a negative year keeps its sign).
pub open spec fn spec_date_text(d: Date) -> Seq<char> {
    (if d.year < 0 {
        seq!['-'] + spec_padded4((-d.year) as nat)
    } else {
        spec_padded4(d.year as nat)
    }) + seq!['-'] + spec_two_digits(d.month as nat) + seq!['-'] + spec_two_digits(d.day as nat)
}

/// A second of day as "HH:MM:SS".
pub open spec fn spec_clock_text(seconds: nat) -> Seq<char> {
    spec_two_digits(seconds / 3600) + seq![':'] + spec_two_digits(seconds % 3600 / 60) + seq![':']
        + spec_two_digits(seconds % 60)
}

/// A point in time as "YYYY-MM-DD HH:MM:SS".
pub open spec fn spec_timestamp_text(t: Timestamp) -> Seq<char> {
    spec_date_text(t.date) + seq![' '] + spec_clock_text(t.seconds as nat)
}

/// Renders the last two decimal digits of a number, zero-padded.
fn two_digits(n: u64) -> (s: String)
    ensures
        s@ == spec_two_digits(n as nat),
{
    let mut s = String::from_str(digit_str(n / 10 % 10));
    s.append(digit_str(n % 10));
    proof {
        assert(s@ =~= spec_two_digits(n as nat));
    }
    s
}

/// Renders a calendar date as "YYYY-MM-DD".
pub fn format_date(d: Date) -> (s: String)
    ensures
        s@ == spec_date_text(d),
{
    proof {
        reveal_strlit("-");
        reveal_strlit("0");
    }
    let mut s = String::new();
    if d.year < 0 {
        s.append("-");
        proof {
            assert(s@ =~= seq!['-']);
        }
    }
    let abs_year: u64 = if d.year < 0 {
        (-(d.year as i64)) as u64
    } else {
        d.year as u64
    };
    let ghost sign = s@;
    let digits = u64_to_string(abs_year);
    let digits_len = digits.as_str().unicode_len();
    let mut k: usize = digits_len;
    while k < 4
        invariant
            digits@ == spec_digits(abs_year as nat),
            digits_len == digits@.len(),
            digits_len <= k <= 4 || (k == digits_len && k > 4),
            s@ == sign + zeros((k - digits_len) as nat),
            "0"@ =~= seq!['0'],
        decreases 4 - k,
    {
        s.append("0");
        proof {
            assert(s@ =~= sign + zeros((k + 1 - digits_len) as nat));
        }
        k = k + 1;
    }
    s.append(digits.as_str());
    s.append("-");
    let month_text = two_digits(d.month as u64);
    s.append(month_text.as_str());
    s.append("-");
    let day_text = two_digits(d.day as u64);
    s.append(day_text.as_str());
    proof {
        assert(zeros(0) =~= Seq::<char>::empty());
        assert(s@ =~= spec_date_text(d));
    }
    s
}

/// Renders a point in time as "YYYY-MM-DD HH:MM:SS".
pub fn format_timestamp(t: Timestamp) -> (s: String)
    ensures
        s@ == spec_timestamp_text(t),
{
    proof {
        reveal_strlit(" ");
        reveal_strlit(":");
    }
    let mut s = format_date(t.date);
    s.append(" ");
    let seconds = t.seconds as u64;
    let hours = two_digits(seconds / 3600);
    s.append(hours.as_str());
    s.append(":");
    let minutes = two_digits(seconds % 3600 / 60);
    s.append(minutes.as_str());
    s.append(":");
    let secs = two_digits(seconds % 60);
    s.append(secs.as_str());
    proof {
        assert(s@ =~= spec_timestamp_text(t));
    }
    s
}

/// Bytes in a kibibyte.
pub const KB: u64 = 1024;

/// Bytes in a mebibyte.
pub const MB: u64 = 1024 * 1024;

/// Bytes in a gibibyte.
pub const GB: u64 = 1024 * 1024 * 1024;

/// A byte count scaled by a unit into hundredths, rounded to nearest
/// (half away from zero).
pub open spec fn scaled_hundredths(bytes: nat, unit: nat) -> nat
    recommends
        unit > 0,
{
    (bytes * 100 + unit / 2) / unit
}

/// "W.FF" — a count of hundredths rendered with two decimal places.
pub open spec fn spec_two_decimals(h: nat) -> Seq<char> {
    spec_digits(h / 100) + seq!['.', digit_char((h / 10 % 10) as int), digit_char(
        (h % 10) as int,
    )]
}

/// The human-readable form of a byte size: scaled to GB, MB or KB with
/// two decimals, or the plain byte count.
pub open spec fn spec_format_file_size(bytes: nat) -> Seq<char> {
    if bytes >= GB {
        spec_two_decimals(scaled_hundredths(bytes, GB as nat)) + seq![' ', 'G', 'B']
    } else if bytes >= MB {
        spec_two_decimals(scaled_hundredths(bytes, MB as nat)) + seq![' ', 'M', 'B']
    } else if bytes >= KB {
        spec_two_decimals(scaled_hundredths(bytes, KB as nat)) + seq![' ', 'K', 'B']
    } else {
        spec_digits(bytes) + seq![' ', 'b', 'y', 't', 'e', 's']
    }
}

/// Renders "W.FF" for a count of hundredths.
fn format_two_decimals(h: u64) -> (s: String)
    ensures
        s@ == spec_two_decimals(h as nat),
{
    proof {
        reveal_strlit(".");
    }
    let mut s = u64_to_string(h / 100);
    s.append(".");
    s.append(digit_str(h / 10 % 10));
    s.append(digit_str(h % 10));
    proof {
        assert(s@ =~= spec_two_decimals(h as nat));
    }
    s
}

/// Divides a byte count by a unit into rounded hundredths; the result
/// fits `u64` for any unit of at least 1024.
fn hundredths_of_unit(bytes: u64, unit: u64) -> (h: u64)
    requires
        unit >= 1024,
    ensures
        h as nat == scaled_hundredths(bytes as nat, unit as nat),
{
    let wide: u128 = (bytes as u128 * 100 + (unit / 2) as u128) / (unit as u128);
    proof {
        let max = 0xffff_ffff_ffff_ffffu64 as int;
        let num = bytes as int * 100 + (unit as int) / 2;
        vstd::arithmetic::div_mod::lemma_div_is_ordered(unit as int, max, 2);
        vstd::arithmetic::div_mod::lemma_div_is_ordered_by_denominator(num, 1024, unit as int);
        vstd::arithmetic::div_mod::lemma_div_is_ordered(num, max * 100 + max / 2, 1024);
        assert((max * 100 + max / 2) / 1024 < max);
    }
    wide as u64
}

/// Renders a byte count in human-readable form ("1.50 MB", "512 bytes").
pub fn format_file_size(size_bytes: u64) -> (s: String)
    ensures
        s@ == spec_format_file_size(size_bytes as nat),
{
    proof {
        reveal_strlit(" GB");
        reveal_strlit(" MB");
        reveal_strlit(" KB");
        reveal_strlit(" bytes");
    }
    if size_bytes >= GB {
        let mut s = format_two_decimals(hundredths_of_unit(size_bytes, GB));
        s.append(" GB");
        proof {
            assert(s@ =~= spec_format_file_size(size_bytes as nat));
        }
        s
    } else if size_bytes >= MB {
        let mut s = format_two_decimals(hundredths_of_unit(size_bytes, MB));
        s.append(" MB");
        proof {
            assert(s@ =~= spec_format_file_size(size_bytes as nat));
        }
        s
    } else if size_bytes >= KB {
        let mut s = format_two_decimals(hundredths_of_unit(size_bytes, KB));
        s.append(" KB");
        proof {
            assert(s@ =~= spec_format_file_size(size_bytes as nat));
        }
        s
    } else {
        let mut s = u64_to_string(size_bytes);
        s.append(" bytes");
        proof {
            assert(s@ =~= spec_format_file_size(size_bytes as nat));
        }
        s
    }
}

} // verus!
