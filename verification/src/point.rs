//! One synthetic data point and its line-protocol record.

use crate::text::decimal_text;
use crate::text::is_digit;
use crate::text::push_decimal;
use crate::text::push_signed_decimal;
use crate::text::signed_decimal_text;
use vstd::prelude::*;
use vstd::string::*;
use vstd::utf8::is_ascii_chars;

verus! {

/// One synthetic record: a tag, five fields and the time it was made.
///
/// `field_f` holds the decimal text of the 64-bit float field, as it is to
/// stand in the record.
#[derive(Clone, Debug, PartialEq, Eq)]
pub struct Point {
    pub tag: char,
    pub field_s: String,
    pub field_i: i64,
    pub field_u: u64,
    pub field_f: String,
    pub field_b: bool,
    pub time: u128,
}

/// The mathematical value of a [`Point`].
pub struct PointView {
    pub tag: char,
    pub field_s: Seq<char>,
    pub field_i: int,
    pub field_u: nat,
    pub field_f: Seq<char>,
    pub field_b: bool,
    pub time: nat,
}

impl View for Point {
    type V = PointView;

    open spec fn view(&self) -> PointView {
        PointView {
            tag: self.tag,
            field_s: self.field_s@,
            field_i: self.field_i as int,
            field_u: self.field_u as nat,
            field_f: self.field_f@,
            field_b: self.field_b,
            time: self.time as nat,
        }
    }
}

/// True for the ASCII letters `A`..`Z` and `a`..`z`.
pub open spec fn is_letter(c: char) -> bool {
    ('A' <= c <= 'Z') || ('a' <= c <= 'z')
}

/// True when every character of `s` is an ASCII letter.
pub open spec fn all_letters(s: Seq<char>) -> bool {
    forall|i: int| 0 <= i < s.len() ==> is_letter(#[trigger] s[i])
}

/// The part of a float text behind its optional minus sign.
pub open spec fn float_body(s: Seq<char>) -> Seq<char> {
    if s.len() > 0 && s[0] == '-' {
        s.skip(1)
    } else {
        s
    }
}

/// True for the decimal text of a finite float: an optional minus sign, one
/// or more digits, and optionally a point followed by one or more digits.
pub open spec fn is_float_text(s: Seq<char>) -> bool {
    let body = float_body(s);
    &&& body.len() > 0
    &&& is_digit(body.first())
    &&& is_digit(body.last())
    &&& forall|i: int| 0 <= i < body.len() ==> is_digit(#[trigger] body[i]) || body[i] == '.'
    &&& forall|i: int, j: int|
        0 <= i < j < body.len() ==> !(#[trigger] body[i] == '.' && #[trigger] body[j] == '.')
}

impl PointView {
    /// What the record schema asks of a point: a letter as tag, eight letters
    /// in the string field, a signed and an unsigned integer of 64 bits, a
    /// float text in the float field, and a timestamp of 128 bits.
    pub open spec fn valid(self) -> bool {
        &&& is_letter(self.tag)
        &&& self.field_s.len() == 8
        &&& all_letters(self.field_s)
        &&& i64::MIN <= self.field_i <= i64::MAX
        &&& self.field_u <= u64::MAX
        &&& is_float_text(self.field_f)
        &&& self.time <= u128::MAX
    }
}

/// The text of a boolean field.
pub open spec fn bool_text(b: bool) -> Seq<char> {
    if b {
        "true"@
    } else {
        "false"@
    }
}

/// The record of a point, without the newline that ends it: measurement
/// `table`, the tag, the five fields in their fixed order, and the timestamp
/// in nanoseconds.
pub open spec fn record_text(p: PointView) -> Seq<char> {
    "table,tag="@.push(p.tag)
        + " field_s=\""@ + p.field_s
        + "\",field_i="@ + signed_decimal_text(p.field_i)
        + "i,field_u="@ + decimal_text(p.field_u)
        + "u,field_f="@ + p.field_f
        + ",field_b="@ + bool_text(p.field_b)
        + " "@ + decimal_text(p.time)
}

/// The line of a point: its record and the newline that ends it.
pub open spec fn line_text(p: PointView) -> Seq<char> {
    record_text(p).push('\n')
}

/// Appends the line of `p` to `w`.
pub fn encode_line(w: &mut String, p: &Point)
    ensures
        final(w)@ == old(w)@ + line_text(p@),
{
    w.append("table,tag=");
    w.push(p.tag);
    w.append(" field_s=\"");
    w.append(p.field_s.as_str());
    w.append("\",field_i=");
    push_signed_decimal(w, p.field_i);
    w.append("i,field_u=");
    push_decimal(w, p.field_u as u128);
    w.append("u,field_f=");
    w.append(p.field_f.as_str());
    w.append(",field_b=");
    if p.field_b {
        w.append("true");
    } else {
        w.append("false");
    }
    w.append(" ");
    push_decimal(w, p.time);
    w.push('\n');
    proof {
        assert(w@ =~= old(w)@ + line_text(p@));
    }
}

/// Tells whether every character of `s` is an ASCII letter.
pub fn check_letters(s: &str) -> (ok: bool)
    ensures
        ok == all_letters(s@),
{
    if !s.is_ascii() {
        proof {
            let i = choose|i: int| 0 <= i < s@.len() && !('\0' <= #[trigger] s@[i] <= '\u{7f}');
            assert(!is_letter(s@[i]));
        }
        return false;
    }
    let bytes = s.as_bytes();
    proof {
        is_ascii_spec_bytes(s);
    }
    let mut i: usize = 0;
    while i < bytes.len()
        invariant
            i <= bytes.len(),
            bytes@.len() == s@.len(),
            is_ascii_chars(s@),
            forall|k: int| 0 <= k < s@.len() ==> bytes@[k] == s@[k] as u8,
            forall|k: int| 0 <= k < i ==> is_letter(#[trigger] s@[k]),
        decreases bytes.len() - i,
    {
        let b: u8 = bytes[i];
        // `A`..`Z` are 65..90 and `a`..`z` are 97..122.
        if !((65 <= b && b <= 90) || (97 <= b && b <= 122)) {
            proof {
                assert(!is_letter(s@[i as int]));
            }
            return false;
        }
        proof {
            assert(is_letter(s@[i as int]));
        }
        i += 1;
    }
    true
}

/// Tells whether `s` is the decimal text of a finite float.
pub fn check_float_text(s: &str) -> (ok: bool)
    ensures
        ok == is_float_text(s@),
{
    let ghost body = float_body(s@);
    if !s.is_ascii() {
        proof {
            let i = choose|i: int| 0 <= i < s@.len() && !('\0' <= #[trigger] s@[i] <= '\u{7f}');
            if body.len() == s@.len() {
                assert(body[i] == s@[i]);
            } else {
                assert(i > 0);
                assert(body[i - 1] == s@[i]);
            }
        }
        return false;
    }
    let bytes = s.as_bytes();
    proof {
        is_ascii_spec_bytes(s);
    }
    let n: usize = bytes.len();
    // The minus sign is 45, the point 46, and `0`..`9` are 48..57.
    let start: usize = if n > 0 && bytes[0] == 45 {
        1
    } else {
        0
    };
    proof {
        assert(body =~= s@.skip(start as int));
    }
    if start == n {
        return false;
    }
    let first: u8 = bytes[start];
    let last: u8 = bytes[n - 1];
    proof {
        assert(body.first() == s@[start as int]);
        assert(body.last() == s@[n - 1]);
    }
    if !(48 <= first && first <= 57) || !(48 <= last && last <= 57) {
        return false;
    }
    let mut seen_point: bool = false;
    let ghost mut point_at: int = 0;
    let mut i: usize = start;
    while i < n
        invariant
            start <= i <= n,
            n == bytes@.len(),
            bytes@.len() == s@.len(),
            is_ascii_chars(s@),
            body == float_body(s@),
            body == s@.skip(start as int),
            forall|k: int| 0 <= k < s@.len() ==> bytes@[k] == s@[k] as u8,
            forall|k: int| 0 <= k < i - start ==> is_digit(#[trigger] body[k]) || body[k] == '.',
            seen_point ==> 0 <= point_at < i - start && body[point_at] == '.',
            seen_point ==> forall|k: int|
                0 <= k < i - start && k != point_at ==> #[trigger] body[k] != '.',
            !seen_point ==> forall|k: int| 0 <= k < i - start ==> #[trigger] body[k] != '.',
        decreases n - i,
    {
        let b: u8 = bytes[i];
        proof {
            assert(body[i - start] == s@[i as int]);
        }
        if b == 46 {
            if seen_point {
                proof {
                    assert(body[point_at] == '.' && body[i - start] == '.');
                }
                return false;
            }
            seen_point = true;
            proof {
                point_at = i - start;
            }
        } else if !(48 <= b && b <= 57) {
            proof {
                assert(!is_digit(body[i - start]) && body[i - start] != '.');
            }
            return false;
        }
        i += 1;
    }
    true
}

impl Point {
    /// Tells whether the point meets the record schema.
    pub fn is_valid(&self) -> (ok: bool)
        ensures
            ok == self@.valid(),
    {
        let tag = self.tag;
        let tag_ok = ('A' <= tag && tag <= 'Z') || ('a' <= tag && tag <= 'z');
        tag_ok && self.field_s.as_str().unicode_len() == 8 && check_letters(self.field_s.as_str())
            && check_float_text(self.field_f.as_str())
    }
}

} // verus!
