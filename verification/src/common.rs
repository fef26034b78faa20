//! Positions in the text, character classes of XML and small helpers on
//! character sequences.

use vstd::prelude::*;
use vstd::string::*;

verus! {

/// A position in the text: zero-based row and column.
#[derive(Copy, Clone, Debug, PartialEq, Eq, Structural)]
pub struct TextPosition {
    pub row: u64,
    pub column: u64,
}

impl TextPosition {
    /// The position of the first character of a document.
    pub fn new() -> (p: TextPosition)
        ensures
            p.row == 0,
            p.column == 0,
    {
        TextPosition { row: 0, column: 0 }
    }

    /// Moves the position `count` characters to the right (the column stops
    /// growing at `u64::MAX`).
    pub fn advance(&mut self, count: u8)
        ensures
            final(self).row == old(self).row,
            final(self).column == if old(self).column + count <= u64::MAX {
                (old(self).column + count) as u64
            } else {
                u64::MAX
            },
    {
        self.column = self.column.saturating_add(count as u64);
    }

    /// Moves the position to the beginning of the next line (the row stops
    /// growing at `u64::MAX`).
    pub fn new_line(&mut self)
        ensures
            final(self).column == 0,
            final(self).row == if old(self).row < u64::MAX {
                (old(self).row + 1) as u64
            } else {
                u64::MAX
            },
    {
        self.column = 0;
        self.row = self.row.saturating_add(1);
    }
}

/// XML versions that a declaration may name.
#[derive(Copy, Clone, Debug, PartialEq, Eq, Structural)]
pub enum XmlVersion {
    Version10,
    Version11,
}

/// `NameStartChar` of the XML specification.
pub open spec fn spec_name_start_char(c: char) -> bool {
    let u = c as u32;
    ||| u == 0x3A
    ||| 0x41 <= u <= 0x5A
    ||| u == 0x5F
    ||| 0x61 <= u <= 0x7A
    ||| 0xC0 <= u <= 0xD6
    ||| 0xD8 <= u <= 0xF6
    ||| 0xF8 <= u <= 0x2FF
    ||| 0x370 <= u <= 0x37D
    ||| 0x37F <= u <= 0x1FFF
    ||| 0x200C <= u <= 0x200D
    ||| 0x2070 <= u <= 0x218F
    ||| 0x2C00 <= u <= 0x2FEF
    ||| 0x3001 <= u <= 0xD7FF
    ||| 0xF900 <= u <= 0xFDCF
    ||| 0xFDF0 <= u <= 0xFFFD
    ||| 0x10000 <= u <= 0xEFFFF
}

/// `NameChar` of the XML specification.
pub open spec fn spec_name_char(c: char) -> bool {
    let u = c as u32;
    ||| spec_name_start_char(c)
    ||| u == 0x2D
    ||| u == 0x2E
    ||| 0x30 <= u <= 0x39
    ||| u == 0xB7
    ||| 0x300 <= u <= 0x36F
    ||| 0x203F <= u <= 0x2040
}

/// White space of the XML specification: space, tab, carriage return, line feed.
pub open spec fn spec_whitespace_char(c: char) -> bool {
    let u = c as u32;
    u == 0x20 || u == 0x09 || u == 0x0D || u == 0x0A
}

/// The code of a `Char` of XML 1.0.
pub open spec fn spec_xml10_code(u: u32) -> bool {
    ||| u == 0x09
    ||| u == 0x0A
    ||| u == 0x0D
    ||| 0x20 <= u <= 0xD7FF
    ||| 0xE000 <= u <= 0xFFFD
    ||| 0x10000 <= u
}

/// `Char` of XML 1.0.
pub open spec fn spec_xml10_char(c: char) -> bool {
    spec_xml10_code(c as u32)
}

/// The code of a `Char` of XML 1.1.
pub open spec fn spec_xml11_code(u: u32) -> bool {
    ||| 0x1 <= u <= 0xD7FF
    ||| 0xE000 <= u <= 0xFFFD
    ||| 0x10000 <= u
}

/// `Char` of XML 1.1.
pub open spec fn spec_xml11_char(c: char) -> bool {
    spec_xml11_code(c as u32)
}

/// `Char` of XML 1.1 outside its restricted characters.
pub open spec fn spec_xml11_char_not_restricted(c: char) -> bool {
    let u = c as u32;
    &&& spec_xml11_char(c)
    &&& !(0x1 <= u <= 0x8 || 0xB <= u <= 0xC || 0xE <= u <= 0x1F || 0x7F <= u <= 0x84 || 0x86
        <= u <= 0x9F)
}

/// Checks whether `c` is a character of XML 1.1 that is not restricted.
pub fn is_xml11_char_not_restricted(c: char) -> (r: bool)
    ensures
        r == spec_xml11_char_not_restricted(c),
{
    let u = c as u32;
    is_xml11_char(c) && !((0x1 <= u && u <= 0x8) || (0xB <= u && u <= 0xC) || (0xE <= u && u
        <= 0x1F) || (0x7F <= u && u <= 0x84) || (0x86 <= u && u <= 0x9F))
}

/// `s` without the white space at its start.
pub open spec fn trim_start_ws(s: Seq<char>) -> Seq<char>
    decreases s.len(),
{
    if s.len() > 0 && spec_whitespace_char(s[0]) {
        trim_start_ws(s.drop_first())
    } else {
        s
    }
}

/// `s` without the white space at its end.
pub open spec fn trim_end_ws(s: Seq<char>) -> Seq<char>
    decreases s.len(),
{
    if s.len() > 0 && spec_whitespace_char(s.last()) {
        trim_end_ws(s.drop_last())
    } else {
        s
    }
}

/// `s` without the white space at either end.
pub open spec fn trim_ws(s: Seq<char>) -> Seq<char> {
    trim_end_ws(trim_start_ws(s))
}

/// Removes the white space at either end of `s`.
pub fn trim_whitespace(s: &Vec<char>) -> (r: Vec<char>)
    ensures
        r@ == trim_ws(s@),
{
    let mut i: usize = 0;
    assert(s@.subrange(0, s@.len() as int) =~= s@);
    while i < s.len() && is_whitespace_char(s[i])
        invariant
            i <= s.len(),
            trim_start_ws(s@) == trim_start_ws(s@.subrange(i as int, s@.len() as int)),
        decreases s.len() - i,
    {
        assert(s@.subrange(i as int, s@.len() as int).drop_first() =~= s@.subrange(
            i + 1,
            s@.len() as int,
        ));
        i = i + 1;
    }
    let mut j: usize = s.len();
    let ghost t = s@.subrange(i as int, s@.len() as int);
    assert(t.subrange(0, t.len() as int) =~= t);
    while j > i && is_whitespace_char(s[j - 1])
        invariant
            i <= j <= s.len(),
            t == s@.subrange(i as int, s@.len() as int),
            trim_end_ws(t) == trim_end_ws(s@.subrange(i as int, j as int)),
        decreases j,
    {
        assert(s@.subrange(i as int, j as int).drop_last() =~= s@.subrange(i as int, j - 1));
        j = j - 1;
    }
    let mut r: Vec<char> = Vec::new();
    let mut k: usize = i;
    while k < j
        invariant
            i <= k <= j <= s.len(),
            r@ == s@.subrange(i as int, k as int),
        decreases j - k,
    {
        r.push(s[k]);
        k = k + 1;
    }
    r
}

/// Checks whether `c` may start an XML name.
pub fn is_name_start_char(c: char) -> (r: bool)
    ensures
        r == spec_name_start_char(c),
{
    let u = c as u32;
    u == 0x3A || (0x41 <= u && u <= 0x5A) || u == 0x5F || (0x61 <= u && u <= 0x7A) || (0xC0 <= u
        && u <= 0xD6) || (0xD8 <= u && u <= 0xF6) || (0xF8 <= u && u <= 0x2FF) || (0x370 <= u && u
        <= 0x37D) || (0x37F <= u && u <= 0x1FFF) || (0x200C <= u && u <= 0x200D) || (0x2070 <= u
        && u <= 0x218F) || (0x2C00 <= u && u <= 0x2FEF) || (0x3001 <= u && u <= 0xD7FF) || (0xF900
        <= u && u <= 0xFDCF) || (0xFDF0 <= u && u <= 0xFFFD) || (0x10000 <= u && u <= 0xEFFFF)
}

/// Checks whether `c` may stand inside an XML name.
pub fn is_name_char(c: char) -> (r: bool)
    ensures
        r == spec_name_char(c),
{
    let u = c as u32;
    is_name_start_char(c) || u == 0x2D || u == 0x2E || (0x30 <= u && u <= 0x39) || u == 0xB7 || (
    0x300 <= u && u <= 0x36F) || (0x203F <= u && u <= 0x2040)
}

/// Checks whether `c` is XML white space.
pub fn is_whitespace_char(c: char) -> (r: bool)
    ensures
        r == spec_whitespace_char(c),
{
    let u = c as u32;
    u == 0x20 || u == 0x09 || u == 0x0D || u == 0x0A
}

/// Checks whether `c` is a character of XML 1.0.
pub fn is_xml10_char(c: char) -> (r: bool)
    ensures
        r == spec_xml10_char(c),
{
    let u = c as u32;
    u == 0x09 || u == 0x0A || u == 0x0D || (0x20 <= u && u <= 0xD7FF) || (0xE000 <= u && u
        <= 0xFFFD) || 0x10000 <= u
}

/// Checks whether `c` is a character of XML 1.1.
pub fn is_xml11_char(c: char) -> (r: bool)
    ensures
        r == spec_xml11_char(c),
{
    let u = c as u32;
    (0x1 <= u && u <= 0xD7FF) || (0xE000 <= u && u <= 0xFFFD) || 0x10000 <= u
}

/// The characters of a string slice.
pub fn text(s: &str) -> (r: Vec<char>)
    ensures
        r@ == s@,
{
    let n = s.unicode_len();
    let mut v: Vec<char> = Vec::new();
    let mut i: usize = 0;
    while i < n
        invariant
            n == s@.len(),
            i <= n,
            v@ == s@.subrange(0, i as int),
        decreases n - i,
    {
        v.push(s.get_char(i));
        i = i + 1;
    }
    v
}

/// A copy of a character sequence.
pub fn copy_chars(s: &Vec<char>) -> (r: Vec<char>)
    ensures
        r@ == s@,
{
    let mut v: Vec<char> = Vec::new();
    let mut i: usize = 0;
    while i < s.len()
        invariant
            i <= s.len(),
            v@ == s@.subrange(0, i as int),
        decreases s.len() - i,
    {
        v.push(s[i]);
        i = i + 1;
    }
    v
}

/// Appends the characters of `s` to `v`.
pub fn push_all(v: &mut Vec<char>, s: &Vec<char>)
    ensures
        final(v)@ == old(v)@ + s@,
{
    let mut i: usize = 0;
    while i < s.len()
        invariant
            i <= s.len(),
            v@ == old(v)@ + s@.subrange(0, i as int),
        decreases s.len() - i,
    {
        v.push(s[i]);
        i = i + 1;
    }
}

/// Compares two character sequences.
pub fn chars_eq(a: &Vec<char>, b: &Vec<char>) -> (r: bool)
    ensures
        r == (a@ == b@),
{
    if a.len() != b.len() {
        return false;
    }
    let mut i: usize = 0;
    while i < a.len()
        invariant
            a.len() == b.len(),
            i <= a.len(),
            forall|j: int| 0 <= j < i ==> a@[j] == b@[j],
        decreases a.len() - i,
    {
        if a[i] != b[i] {
            return false;
        }
        i = i + 1;
    }
    assert(a@ =~= b@);
    true
}

/// Compares a character sequence with a string slice.
pub fn chars_eq_str(a: &Vec<char>, b: &str) -> (r: bool)
    ensures
        r == (a@ == b@),
{
    let t = text(b);
    chars_eq(a, &t)
}

/// Whether `v` is a Unicode scalar value: at most U+10FFFF and not a
/// surrogate.
pub open spec fn is_scalar_value(v: u32) -> bool {
    v <= 0x10FFFF && !(0xD800 <= v && v <= 0xDFFF)
}

/// `char::from_u32` of std: the character whose scalar value is `v`, and
/// none where `v` is not a Unicode scalar value. Its documentation says
/// exactly this; nothing here proves it.
#[verifier::external_body]
pub(crate) fn char_from_u32(v: u32) -> (r: Option<char>)
    ensures
        is_scalar_value(v) ==> r is Some && r->Some_0 as u32 == v,
        !is_scalar_value(v) ==> r is None,
{
    char::from_u32(v)
}

/// The value of the digit `c` in base `radix` (10 or 16; letters in either
/// case).
pub open spec fn digit_value(c: char, radix: nat) -> Option<nat> {
    let u = c as u32;
    if 0x30 <= u <= 0x39 && u - 0x30 < radix {
        Some((u - 0x30) as nat)
    } else if 0x61 <= u <= 0x7A && u - 0x61 + 10 < radix {
        Some((u - 0x61 + 10) as nat)
    } else if 0x41 <= u <= 0x5A && u - 0x41 + 10 < radix {
        Some((u - 0x41 + 10) as nat)
    } else {
        None
    }
}

/// The value of the digits `s` in base `radix`, if they all are digits.
pub open spec fn digits_value(s: Seq<char>, radix: nat) -> Option<nat>
    decreases s.len(),
{
    if s.len() == 0 {
        Some(0)
    } else {
        match (digits_value(s.drop_last(), radix), digit_value(s.last(), radix)) {
            (Some(v), Some(d)) => Some(v * radix + d),
            _ => None,
        }
    }
}

/// What `u32::from_str_radix` gives: an optional `+`, then one digit or more,
/// with a value that fits in a `u32`.
pub open spec fn spec_from_str_radix(s: Seq<char>, radix: nat) -> Option<u32> {
    let digits = if s.len() > 0 && s[0] == '+' {
        s.drop_first()
    } else {
        s
    };
    if digits.len() == 0 {
        None
    } else {
        match digits_value(digits, radix) {
            Some(v) => if v <= u32::MAX {
                Some(v as u32)
            } else {
                None
            },
            None => None,
        }
    }
}

proof fn lemma_digits_grow(s: Seq<char>, radix: nat, i: int, v: nat)
    requires
        radix >= 1,
        0 <= i <= s.len(),
        digits_value(s.take(i), radix) == Some(v),
    ensures
        match digits_value(s, radix) {
            Some(w) => w >= v,
            None => true,
        },
    decreases s.len() - i,
{
    if i < s.len() {
        assert(s.take(i + 1).drop_last() =~= s.take(i));
        assert(s.take(i + 1).last() == s[i]);
        match digit_value(s[i], radix) {
            Some(d) => {
                assert(v * radix >= v) by (nonlinear_arith)
                    requires
                        radix >= 1,
                ;
                lemma_digits_grow(s, radix, i + 1, v * radix + d);
            },
            None => {
                lemma_digits_none(s, radix, i + 1);
            },
        }
    } else {
        assert(s.take(i) =~= s);
    }
}

proof fn lemma_digits_none(s: Seq<char>, radix: nat, i: int)
    requires
        0 <= i <= s.len(),
        digits_value(s.take(i), radix) is None,
    ensures
        digits_value(s, radix) is None,
    decreases s.len() - i,
{
    if i < s.len() {
        assert(s.take(i + 1).drop_last() =~= s.take(i));
        lemma_digits_none(s, radix, i + 1);
    } else {
        assert(s.take(i) =~= s);
    }
}

fn digit_of(c: char, radix: u32) -> (r: Option<u32>)
    requires
        radix == 10 || radix == 16,
    ensures
        match r {
            Some(d) => digit_value(c, radix as nat) == Some(d as nat) && d < radix,
            None => digit_value(c, radix as nat) is None,
        },
{
    let u = c as u32;
    if 0x30 <= u && u <= 0x39 && u - 0x30 < radix {
        Some(u - 0x30)
    } else if 0x61 <= u && u <= 0x7A && u - 0x61 + 10 < radix {
        Some(u - 0x61 + 10)
    } else if 0x41 <= u && u <= 0x5A && u - 0x41 + 10 < radix {
        Some(u - 0x41 + 10)
    } else {
        None
    }
}

/// `u32::from_str_radix` of std, for base 10 or 16.
pub fn from_str_radix(s: &Vec<char>, radix: u32) -> (r: Option<u32>)
    requires
        radix == 10 || radix == 16,
    ensures
        r == spec_from_str_radix(s@, radix as nat),
{
    let start: usize = if s.len() > 0 && s[0] == '+' {
        1
    } else {
        0
    };
    let ghost digits = if s@.len() > 0 && s@[0] == '+' {
        s@.drop_first()
    } else {
        s@
    };
    assert(digits =~= s@.subrange(start as int, s@.len() as int));
    if start >= s.len() {
        return None;
    }
    let mut v: u64 = 0;
    let mut i: usize = start;
    while i < s.len()
        invariant
            start <= i <= s.len(),
            start < s.len(),
            digits == s@.subrange(start as int, s@.len() as int),
            digits == (if s@.len() > 0 && s@[0] == '+' {
                s@.drop_first()
            } else {
                s@
            }),
            radix == 10 || radix == 16,
            digits_value(digits.take(i - start), radix as nat) == Some(v as nat),
            v <= u32::MAX,
        decreases s.len() - i,
    {
        let ghost k = i - start;
        assert(digits.take(k + 1).drop_last() =~= digits.take(k));
        assert(digits.take(k + 1).last() == s@[i as int]);
        match digit_of(s[i], radix) {
            Some(d) => {
                assert(v * (radix as u64) <= 0xFFFF_FFFF * 16) by (nonlinear_arith)
                    requires
                        v <= u32::MAX,
                        radix <= 16,
                ;
                let w: u64 = v * (radix as u64) + (d as u64);
                if w > 0xFFFF_FFFF {
                    proof {
                        lemma_digits_grow(digits, radix as nat, k + 1, w as nat);
                    }
                    return None;
                }
                v = w;
            },
            None => {
                proof {
                    lemma_digits_none(digits, radix as nat, k + 1);
                }
                return None;
            },
        }
        i = i + 1;
    }
    assert(digits.take(i - start) =~= digits);
    Some(v as u32)
}

/// `c` in ASCII lower case.
pub open spec fn ascii_lower(c: char) -> char {
    if 'A' <= c && c <= 'Z' {
        ((c as u32) + 32) as char
    } else {
        c
    }
}

/// `a` and `b` agree but for the case of ASCII letters.
pub open spec fn eq_ignore_ascii_case(a: Seq<char>, b: Seq<char>) -> bool {
    a.len() == b.len() && forall|i: int| 0 <= i < a.len() ==> ascii_lower(a[i]) == ascii_lower(b[i])
}

fn lower(c: char) -> (r: char)
    ensures
        r == ascii_lower(c),
{
    if 'A' <= c && c <= 'Z' {
        let u = (c as u32) + 32;
        assert(u < 128);
        ((u as u8) as char)
    } else {
        c
    }
}

/// Compares `a` with `b` but for the case of ASCII letters.
pub fn chars_eq_ignore_ascii_case(a: &Vec<char>, b: &str) -> (r: bool)
    ensures
        r == eq_ignore_ascii_case(a@, b@),
{
    let t = text(b);
    if a.len() != t.len() {
        return false;
    }
    let mut i: usize = 0;
    while i < a.len()
        invariant
            a.len() == t.len(),
            t@ == b@,
            i <= a.len(),
            forall|j: int| 0 <= j < i ==> ascii_lower(a@[j]) == ascii_lower(t@[j]),
        decreases a.len() - i,
    {
        if lower(a[i]) != lower(t[i]) {
            return false;
        }
        i = i + 1;
    }
    true
}

/// The uppercase hexadecimal digit of `d`, which is below 16.
pub open spec fn hex_digit(d: nat) -> char {
    if d < 10 {
        (48 + d) as char
    } else {
        (55 + d) as char
    }
}

/// The digits of `v` in uppercase hexadecimal, without leading zeros.
pub open spec fn hex_digits(v: nat) -> Seq<char>
    decreases v,
{
    if v < 16 {
        seq![hex_digit(v)]
    } else {
        hex_digits(v / 16).push(hex_digit(v % 16))
    }
}

/// The decimal digit of `d`, which is below 10.
pub open spec fn dec_digit(d: nat) -> char {
    (48 + d) as char
}

/// The digits of `v` in decimal, without leading zeros.
pub open spec fn dec_digits(v: nat) -> Seq<char>
    decreases v,
{
    if v < 10 {
        seq![dec_digit(v)]
    } else {
        dec_digits(v / 10).push(dec_digit(v % 10))
    }
}

fn hex_digit_char(d: u32) -> (c: char)
    requires
        d < 16,
    ensures
        c == hex_digit(d as nat),
{
    let cs = text("0123456789ABCDEF");
    proof {
        reveal_strlit("0123456789ABCDEF");
    }
    let c = cs[d as usize];
    assert(c == hex_digit(d as nat)) by {
        assert(cs@ == "0123456789ABCDEF"@);
    }
    c
}

fn dec_digit_char(d: u64) -> (c: char)
    requires
        d < 10,
    ensures
        c == dec_digit(d as nat),
{
    let cs = text("0123456789");
    proof {
        reveal_strlit("0123456789");
    }
    let c = cs[d as usize];
    assert(c == dec_digit(d as nat)) by {
        assert(cs@ == "0123456789"@);
    }
    c
}

/// Writes `v` in uppercase hexadecimal, without leading zeros.
pub fn hex_upper(v: u32) -> (r: Vec<char>)
    ensures
        r@ == hex_digits(v as nat),
    decreases v,
{
    if v < 16 {
        let mut r: Vec<char> = Vec::new();
        r.push(hex_digit_char(v));
        r
    } else {
        let mut r = hex_upper(v / 16);
        r.push(hex_digit_char(v % 16));
        r
    }
}

/// Writes `v` in decimal, without leading zeros.
pub fn decimal(v: u64) -> (r: Vec<char>)
    ensures
        r@ == dec_digits(v as nat),
    decreases v,
{
    if v < 10 {
        let mut r: Vec<char> = Vec::new();
        r.push(dec_digit_char(v));
        r
    } else {
        let mut r = decimal(v / 10);
        r.push(dec_digit_char(v % 10));
        r
    }
}

} // verus!
