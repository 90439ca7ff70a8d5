//! Byte-level text utilities shared by the protocol modules: whitespace
//! trimming, prefix tests, decimal parsing and decimal rendering.
//!
//! The wire protocol is ASCII text carried in byte buffers, so everything
//! here works on `u8` slices, with the meaning of each operation pinned down
//! over `Seq<u8>`.

use vstd::prelude::*;
use vstd::string::StringSliceAdditionalSpecFns;
use vstd::utf8::encode_utf8;

verus! {

/// Whitespace as the line protocol sees it: space, tab, carriage return,
/// line feed.
pub open spec fn is_ws(b: u8) -> bool {
    b == 32 || b == 9 || b == 13 || b == 10
}

/// `s` without leading whitespace.
pub open spec fn trim_front(s: Seq<u8>) -> Seq<u8>
    decreases s.len(),
{
    if s.len() > 0 && is_ws(s[0]) {
        trim_front(s.drop_first())
    } else {
        s
    }
}

/// `s` without trailing whitespace.
pub open spec fn trim_back(s: Seq<u8>) -> Seq<u8>
    decreases s.len(),
{
    if s.len() > 0 && is_ws(s.last()) {
        trim_back(s.drop_last())
    } else {
        s
    }
}

/// `s` without leading and trailing whitespace.
pub open spec fn trim_spec(s: Seq<u8>) -> Seq<u8> {
    trim_back(trim_front(s))
}

/// `s` begins with `prefix`.
pub open spec fn has_prefix_spec(s: Seq<u8>, prefix: Seq<u8>) -> bool {
    s.len() >= prefix.len() && s.take(prefix.len() as int) == prefix
}

/// `b` is an ASCII decimal digit.
pub open spec fn is_digit(b: u8) -> bool {
    48 <= b <= 57
}

/// Every byte of `s` is a decimal digit.
pub open spec fn all_digits(s: Seq<u8>) -> bool {
    forall|i: int| 0 <= i < s.len() ==> is_digit(#[trigger] s[i])
}

/// Value of a digit string read in base ten.
pub open spec fn digits_val(s: Seq<u8>) -> int
    decreases s.len(),
{
    if s.len() == 0 {
        0
    } else {
        digits_val(s.drop_last()) * 10 + (s.last() - 48)
    }
}

/// The number denoted by `s` as a signed 32-bit decimal: an optional sign,
/// then at least one digit, with the value in `i32` range; anything else
/// denotes nothing.
pub open spec fn parse_i32_spec(s: Seq<u8>) -> Option<int> {
    let signed = s.len() > 0 && (s[0] == 43 || s[0] == 45);
    let negative = s.len() > 0 && s[0] == 45;
    let ds = if signed {
        s.drop_first()
    } else {
        s
    };
    if ds.len() == 0 || !all_digits(ds) {
        None
    } else {
        let v = if negative {
            -digits_val(ds)
        } else {
            digits_val(ds)
        };
        if i32::MIN <= v <= i32::MAX {
            Some(v)
        } else {
            None
        }
    }
}

/// The number denoted by `s`, or -1 when `s` denotes none.
pub open spec fn parse_i32_or_neg1(s: Seq<u8>) -> int {
    match parse_i32_spec(s) {
        Some(v) => v,
        None => -1,
    }
}

/// The decimal digit string of a non-negative number.
pub open spec fn dec_digits(n: int) -> Seq<u8>
    decreases n,
{
    if n < 10 {
        seq![(48 + if n >= 0 { n } else { 0 }) as u8]
    } else {
        dec_digits(n / 10).push((48 + n % 10) as u8)
    }
}

/// A byte that ends a line: carriage return, line feed, or the NUL with
/// which the modem terminates a response buffer.
pub open spec fn is_break(b: u8) -> bool {
    b == 13 || b == 10 || b == 0
}

/// Position of the first line break in `s`.
pub open spec fn find_break(s: Seq<u8>) -> Option<int>
    decreases s.len(),
{
    if s.len() == 0 {
        None
    } else if is_break(s[0]) {
        Some(0int)
    } else {
        match find_break(s.drop_first()) {
            None => None,
            Some(j) => Some(j + 1),
        }
    }
}

/// `find_break` lands exactly on the first break byte.
pub proof fn lemma_find_break_at(s: Seq<u8>, j: int)
    requires
        0 <= j <= s.len(),
        forall|k: int| 0 <= k < j ==> !is_break(#[trigger] s[k]),
        j < s.len() ==> is_break(s[j]),
    ensures
        j < s.len() ==> find_break(s) == Some(j),
        j == s.len() ==> find_break(s) is None,
    decreases s.len(),
{
    if s.len() > 0 && !is_break(s[0]) {
        assert(forall|k: int| 0 <= k < j - 1 ==> !is_break(#[trigger] s.drop_first()[k]));
        lemma_find_break_at(s.drop_first(), j - 1);
    }
}


/// What `find_break` returns: the index of a break byte with none before
/// it, or nothing when no byte of `s` is a break.
pub proof fn lemma_find_break_bounds(s: Seq<u8>)
    ensures
        match find_break(s) {
            Some(i) => 0 <= i < s.len() && is_break(s[i]) && (forall|k: int|
                0 <= k < i ==> !is_break(#[trigger] s[k])),
            None => forall|k: int| 0 <= k < s.len() ==> !is_break(#[trigger] s[k]),
        },
    decreases s.len(),
{
    if s.len() > 0 && !is_break(s[0]) {
        lemma_find_break_bounds(s.drop_first());
        assert(forall|k: int| 1 <= k < s.len() ==> s.drop_first()[k - 1] == #[trigger] s[k]);
    }
}

/// Width of the well-formed UTF-8 scalar encoding at the front of `s`, or
/// zero when `s` does not begin with one: the leading byte decides the
/// width and its continuation bytes must follow, with the narrowed second
/// bytes after 0xE0/0xED/0xF0/0xF4 that exclude overlong encodings,
/// surrogates and codepoints past the Unicode maximum.
pub open spec fn scalar_width(s: Seq<u8>) -> int {
    if s.len() == 0 {
        0
    } else {
        let b0 = s[0];
        if b0 <= 0x7f {
            1
        } else if 0xc2 <= b0 <= 0xdf {
            if s.len() >= 2 && vstd::utf8::is_continuation_byte(s[1]) {
                2
            } else {
                0
            }
        } else if 0xe0 <= b0 <= 0xef {
            if s.len() >= 3 && vstd::utf8::is_continuation_byte(s[2]) && (if b0 == 0xe0 {
                0xa0 <= s[1] <= 0xbf
            } else if b0 == 0xed {
                0x80 <= s[1] <= 0x9f
            } else {
                vstd::utf8::is_continuation_byte(s[1])
            }) {
                3
            } else {
                0
            }
        } else if 0xf0 <= b0 <= 0xf4 {
            if s.len() >= 4 && vstd::utf8::is_continuation_byte(s[2])
                && vstd::utf8::is_continuation_byte(s[3]) && (if b0 == 0xf0 {
                0x90 <= s[1] <= 0xbf
            } else if b0 == 0xf4 {
                0x80 <= s[1] <= 0x8f
            } else {
                vstd::utf8::is_continuation_byte(s[1])
            }) {
                4
            } else {
                0
            }
        } else {
            0
        }
    }
}

/// The byte-table test above agrees with the UTF-8 model: a positive
/// width marks a well-formed scalar of exactly that length, and width
/// zero marks a sequence that begins with no well-formed scalar.
proof fn lemma_scalar_width_correct(s: Seq<u8>)
    requires
        s.len() > 0,
    ensures
        scalar_width(s) > 0 ==> vstd::utf8::valid_first_scalar(s)
            && vstd::utf8::length_of_first_scalar(s) == scalar_width(s),
        scalar_width(s) == 0 ==> !vstd::utf8::valid_first_scalar(s),
{
    let b0 = s[0];
    if b0 <= 0x7f {
        assert((b0 & 0x7f) as u32 <= 0x7f) by (bit_vector);
    } else if 0xc2 <= b0 <= 0xdf {
        if s.len() >= 2 && vstd::utf8::is_continuation_byte(s[1]) {
            let b1 = s[1];
            assert(0x80 <= ((((b0 & 0x1f) as u32) << 6) | ((b1 & 0x3f) as u32)) < 0x800)
                by (bit_vector)
                requires
                    0xc2 <= b0 <= 0xdf,
            ;
        }
    } else if b0 == 0xc0 || b0 == 0xc1 {
        // A two-byte shape whose codepoint is below 0x80: overlong.
        if vstd::utf8::valid_leading_and_continuation_bytes_first_codepoint(s) {
            let b1 = s[1];
            assert(((((b0 & 0x1f) as u32) << 6) | ((b1 & 0x3f) as u32)) < 0x80)
                by (bit_vector)
                requires
                    b0 == 0xc0 || b0 == 0xc1,
            ;
        }
    } else if 0xe0 <= b0 <= 0xef {
        if scalar_width(s) == 3 {
            let b1 = s[1];
            let b2 = s[2];
            assert(0x800 <= (((((b0 & 0x0f) as u32) << 12) | (((b1 & 0x3f) as u32) << 6) | ((b2
                & 0x3f) as u32))) <= 0xffff && !(0xd800 <= (((((b0 & 0x0f) as u32) << 12) | (((b1
                & 0x3f) as u32) << 6) | ((b2 & 0x3f) as u32))) <= 0xdfff))
                by (bit_vector)
                requires
                    0xe0 <= b0 <= 0xef,
                    0x80 <= b2 <= 0xbf,
                    b0 == 0xe0 ==> 0xa0 <= b1 <= 0xbf,
                    b0 == 0xed ==> 0x80 <= b1 <= 0x9f,
                    b0 != 0xe0 && b0 != 0xed ==> 0x80 <= b1 <= 0xbf,
            ;
        } else {
            // Either a continuation byte is missing, or the second byte
            // makes the encoding overlong (after 0xE0) or a surrogate
            // (after 0xED).
            if vstd::utf8::valid_leading_and_continuation_bytes_first_codepoint(s) {
                let b1 = s[1];
                let b2 = s[2];
                if b0 == 0xe0 {
                    assert(((((b0 & 0x0f) as u32) << 12) | (((b1 & 0x3f) as u32) << 6) | ((b2
                        & 0x3f) as u32)) < 0x800)
                        by (bit_vector)
                        requires
                            b0 == 0xe0,
                            0x80 <= b1 < 0xa0,
                    ;
                } else {
                    assert(0xd800 <= (((((b0 & 0x0f) as u32) << 12) | (((b1 & 0x3f) as u32) << 6)
                        | ((b2 & 0x3f) as u32))) <= 0xdfff)
                        by (bit_vector)
                        requires
                            b0 == 0xed,
                            0xa0 <= b1 <= 0xbf,
                    ;
                }
            }
        }
    } else if 0xf0 <= b0 <= 0xf4 {
        if scalar_width(s) == 4 {
            let b1 = s[1];
            let b2 = s[2];
            let b3 = s[3];
            assert(0x10000 <= (((((b0 & 0x07) as u32) << 18) | (((b1 & 0x3f) as u32) << 12) | (((
            b2 & 0x3f) as u32) << 6) | ((b3 & 0x3f) as u32))) <= 0x10ffff)
                by (bit_vector)
                requires
                    0xf0 <= b0 <= 0xf4,
                    0x80 <= b2 <= 0xbf,
                    0x80 <= b3 <= 0xbf,
                    b0 == 0xf0 ==> 0x90 <= b1 <= 0xbf,
                    b0 == 0xf4 ==> 0x80 <= b1 <= 0x8f,
                    b0 != 0xf0 && b0 != 0xf4 ==> 0x80 <= b1 <= 0xbf,
            ;
        } else {
            if vstd::utf8::valid_leading_and_continuation_bytes_first_codepoint(s) {
                let b1 = s[1];
                let b2 = s[2];
                let b3 = s[3];
                if b0 == 0xf0 {
                    assert(((((b0 & 0x07) as u32) << 18) | (((b1 & 0x3f) as u32) << 12) | (((b2
                        & 0x3f) as u32) << 6) | ((b3 & 0x3f) as u32)) < 0x10000)
                        by (bit_vector)
                        requires
                            b0 == 0xf0,
                            0x80 <= b1 < 0x90,
                    ;
                } else {
                    assert(((((b0 & 0x07) as u32) << 18) | (((b1 & 0x3f) as u32) << 12) | (((b2
                        & 0x3f) as u32) << 6) | ((b3 & 0x3f) as u32)) > 0x10ffff)
                        by (bit_vector)
                        requires
                            b0 == 0xf4,
                            0x90 <= b1 <= 0xbf,
                    ;
                }
            }
        }
    } else if 0xf5 <= b0 <= 0xf7 {
        // A four-byte shape whose codepoint is past the Unicode maximum.
        if vstd::utf8::valid_leading_and_continuation_bytes_first_codepoint(s) {
            let b1 = s[1];
            let b2 = s[2];
            let b3 = s[3];
            assert(((((b0 & 0x07) as u32) << 18) | (((b1 & 0x3f) as u32) << 12) | (((b2
                & 0x3f) as u32) << 6) | ((b3 & 0x3f) as u32)) > 0x10ffff)
                by (bit_vector)
                requires
                    0xf5 <= b0 <= 0xf7,
            ;
        }
    } else {
        // A stray continuation byte or an impossible leading byte matches
        // no shape at all.
    }
}

/// Is `bytes` a well-formed UTF-8 encoding?  Decided scalar by scalar
/// against the UTF-8 model.
pub fn is_valid_utf8(bytes: &[u8]) -> (r: bool)
    ensures
        r == vstd::utf8::valid_utf8(bytes@),
{
    let n = bytes.len();
    let mut i: usize = 0;
    proof {
        assert(bytes@.skip(0) =~= bytes@);
    }
    while i < n
        invariant
            n == bytes@.len(),
            0 <= i <= n,
            vstd::utf8::valid_utf8(bytes@) == vstd::utf8::valid_utf8(bytes@.skip(i as int)),
        decreases n - i,
    {
        let ghost s = bytes@.skip(i as int);
        proof {
            lemma_scalar_width_correct(s);
        }
        let b0 = bytes[i];
        let width: usize = if b0 <= 0x7f {
            1
        } else if 0xc2 <= b0 && b0 <= 0xdf {
            if n - i >= 2 && 0x80 <= bytes[i + 1] && bytes[i + 1] <= 0xbf {
                2
            } else {
                0
            }
        } else if 0xe0 <= b0 && b0 <= 0xef {
            if n - i >= 3 && 0x80 <= bytes[i + 2] && bytes[i + 2] <= 0xbf && (if b0 == 0xe0 {
                0xa0 <= bytes[i + 1] && bytes[i + 1] <= 0xbf
            } else if b0 == 0xed {
                0x80 <= bytes[i + 1] && bytes[i + 1] <= 0x9f
            } else {
                0x80 <= bytes[i + 1] && bytes[i + 1] <= 0xbf
            }) {
                3
            } else {
                0
            }
        } else if 0xf0 <= b0 && b0 <= 0xf4 {
            if n - i >= 4 && 0x80 <= bytes[i + 2] && bytes[i + 2] <= 0xbf && 0x80 <= bytes[i + 3]
                && bytes[i + 3] <= 0xbf && (if b0 == 0xf0 {
                0x90 <= bytes[i + 1] && bytes[i + 1] <= 0xbf
            } else if b0 == 0xf4 {
                0x80 <= bytes[i + 1] && bytes[i + 1] <= 0x8f
            } else {
                0x80 <= bytes[i + 1] && bytes[i + 1] <= 0xbf
            }) {
                4
            } else {
                0
            }
        } else {
            0
        };
        proof {
            assert(s[0] == bytes@[i as int]);
            if width > 0 {
                assert(scalar_width(s) == width);
                assert(vstd::utf8::pop_first_scalar(s) =~= bytes@.skip(i + width));
            } else {
                assert(scalar_width(s) == 0);
            }
        }
        if width == 0 {
            return false;
        }
        i = i + width;
    }
    proof {
        assert(bytes@.skip(n as int) =~= Seq::<u8>::empty());
    }
    true
}

/// The UTF-8 bytes of a string, as a fresh vector.
pub(crate) fn str_bytes(s: &str) -> (r: Vec<u8>)
    ensures
        r@ == encode_utf8(s@),
{
    let bytes = s.as_bytes();
    proof {
        assert(bytes@ == s.spec_bytes());
    }
    vstd::slice::slice_to_vec(bytes)
}

/// Copy `v[from..to]` into a fresh vector.
pub fn subvec(v: &Vec<u8>, from: usize, to: usize) -> (r: Vec<u8>)
    requires
        0 <= from <= to <= v@.len(),
    ensures
        r@ == v@.subrange(from as int, to as int),
{
    let mut r: Vec<u8> = Vec::new();
    let mut i = from;
    while i < to
        invariant
            from <= i <= to <= v@.len(),
            r@ == v@.subrange(from as int, i as int),
        decreases to - i,
    {
        r.push(v[i]);
        proof {
            assert(v@.subrange(from as int, i + 1) =~= v@.subrange(from as int, i as int).push(
                v@[i as int],
            ));
        }
        i = i + 1;
    }
    r
}

/// Are two byte strings equal?
pub fn bytes_eq(a: &[u8], b: &[u8]) -> (r: bool)
    ensures
        r == (a@ == b@),
{
    if a.len() != b.len() {
        return false;
    }
    let n = a.len();
    let mut i: usize = 0;
    while i < n
        invariant
            n == a@.len() == b@.len(),
            0 <= i <= n,
            forall|k: int| 0 <= k < i ==> a@[k] == b@[k],
        decreases n - i,
    {
        if a[i] != b[i] {
            return false;
        }
        i = i + 1;
    }
    proof {
        assert(a@ =~= b@);
    }
    true
}

/// Does `s` begin with `prefix`?
pub fn has_prefix(s: &[u8], prefix: &[u8]) -> (r: bool)
    ensures
        r == has_prefix_spec(s@, prefix@),
{
    if s.len() < prefix.len() {
        return false;
    }
    let n = prefix.len();
    let mut i: usize = 0;
    while i < n
        invariant
            n == prefix@.len() <= s@.len(),
            0 <= i <= n,
            forall|k: int| 0 <= k < i ==> s@[k] == prefix@[k],
        decreases n - i,
    {
        if s[i] != prefix[i] {
            proof {
                if s@.take(n as int) == prefix@ {
                    assert(s@.take(n as int)[i as int] == prefix@[i as int]);
                }
            }
            return false;
        }
        i = i + 1;
    }
    proof {
        assert(s@.take(n as int) =~= prefix@);
    }
    true
}

/// Executable whitespace test.
pub fn is_ws_byte(b: u8) -> (r: bool)
    ensures
        r == is_ws(b),
{
    b == 32 || b == 9 || b == 13 || b == 10
}

/// Strip leading and trailing whitespace from `line`.
pub fn trim(line: &Vec<u8>) -> (r: Vec<u8>)
    ensures
        r@ == trim_spec(line@),
{
    let n = line.len();
    let mut start: usize = 0;
    proof {
        assert(line@.skip(0) =~= line@);
    }
    while start < n && is_ws_byte(line[start])
        invariant
            n == line@.len(),
            0 <= start <= n,
            trim_front(line@) == trim_front(line@.skip(start as int)),
        decreases n - start,
    {
        proof {
            assert(line@.skip(start as int).drop_first() =~= line@.skip(start + 1));
        }
        start = start + 1;
    }
    proof {
        assert(trim_front(line@) =~= line@.skip(start as int));
    }
    let mut end: usize = n;
    while end > start && is_ws_byte(line[end - 1])
        invariant
            n == line@.len(),
            0 <= start <= end <= n,
            trim_front(line@) == line@.skip(start as int),
            trim_back(line@.skip(start as int)) == trim_back(
                line@.subrange(start as int, end as int),
            ),
        decreases end,
    {
        proof {
            assert(line@.subrange(start as int, end as int).drop_last() =~= line@.subrange(
                start as int,
                end - 1,
            ));
        }
        end = end - 1;
    }
    proof {
        let sub = line@.subrange(start as int, end as int);
        if end > start {
            assert(!is_ws(sub.last()));
        }
        assert(trim_back(sub) =~= sub);
        assert(line@.skip(start as int) =~= line@.subrange(start as int, n as int));
    }
    subvec(line, start, end)
}

/// Digit strings denote non-negative values.
proof fn lemma_digits_val_nonneg(s: Seq<u8>)
    requires
        all_digits(s),
    ensures
        digits_val(s) >= 0,
    decreases s.len(),
{
    if s.len() > 0 {
        assert(all_digits(s.drop_last()));
        lemma_digits_val_nonneg(s.drop_last());
    }
}

/// Appending digits never shrinks the denoted value.
proof fn lemma_digits_val_monotone(s: Seq<u8>, k: int)
    requires
        all_digits(s),
        0 <= k <= s.len(),
    ensures
        digits_val(s.take(k)) <= digits_val(s),
    decreases s.len() - k,
{
    if k < s.len() {
        lemma_digits_val_monotone(s, k + 1);
        assert(s.take(k + 1).drop_last() =~= s.take(k));
        assert(all_digits(s.take(k + 1)));
        lemma_digits_val_nonneg(s.take(k));
        assert(digits_val(s.take(k + 1)) == digits_val(s.take(k)) * 10 + (s[k] - 48));
        assert(digits_val(s.take(k)) * 10 >= digits_val(s.take(k)));
    } else {
        assert(s.take(k) =~= s);
    }
}

/// Parse `s` as a signed 32-bit decimal, yielding -1 where it is not one.
pub fn parse_i32_default_neg1(s: &Vec<u8>) -> (r: i32)
    ensures
        r as int == parse_i32_or_neg1(s@),
{
    let n = s.len();
    let signed = n > 0 && (s[0] == 43 || s[0] == 45);
    let negative = n > 0 && s[0] == 45;
    let from: usize = if signed {
        1
    } else {
        0
    };
    let ghost ds = if signed {
        s@.drop_first()
    } else {
        s@
    };
    proof {
        if signed {
            assert(ds =~= s@.subrange(1, n as int));
            assert(ds == s@.drop_first());
        } else {
            assert(ds =~= s@.subrange(0, n as int));
        }
    }
    if n == from {
        return -1;
    }
    let mut acc: u64 = 0;
    let mut overflow = false;
    let mut i = from;
    while i < n
        invariant
            n == s@.len(),
            from <= i <= n,
            from <= 1,
            signed == (n > 0 && (s@[0] == 43 || s@[0] == 45)),
            negative == (n > 0 && s@[0] == 45),
            signed ==> from == 1,
            !signed ==> from == 0,
            ds == s@.subrange(from as int, n as int),
            signed ==> ds == s@.drop_first(),
            !signed ==> ds == s@,
            forall|k: int| 0 <= k < i - from ==> is_digit(#[trigger] ds[k]),
            !overflow ==> acc as int == digits_val(ds.take(i - from)) && acc
                < 4_000_000_000u64,
            overflow ==> digits_val(ds.take(i - from)) >= 4_000_000_000,
            overflow ==> all_digits(ds.take(i - from)) ==> digits_val(ds.take(i - from))
                >= 4_000_000_000,
        decreases n - i,
    {
        let b = s[i];
        if b < 48 || b > 57 {
            proof {
                assert(ds[i - from] == s@[i as int]);
                assert(!is_digit(ds[i - from]));
            }
            return -1;
        }
        proof {
            assert(ds[i - from] == s@[i as int]);
            assert(ds.take(i - from + 1).drop_last() =~= ds.take(i - from));
            assert(all_digits(ds.take(i - from + 1)));
            lemma_digits_val_nonneg(ds.take(i - from));
        }
        let d = (b - 48) as u64;
        if overflow {
            proof {
                let prev = digits_val(ds.take(i - from));
                assert(digits_val(ds.take(i - from + 1)) == prev * 10 + (ds[i - from] - 48));
                assert(prev * 10 >= prev);
            }
        } else {
            acc = acc * 10 + d;
            if acc >= 4_000_000_000 {
                overflow = true;
            }
        }
        i = i + 1;
    }
    proof {
        assert(ds.take(n - from) =~= ds);
    }
    if overflow {
        proof {
            lemma_digits_val_nonneg(ds);
            assert(digits_val(ds) > i32::MAX);
            assert(-digits_val(ds) < i32::MIN);
        }
        return -1;
    }
    if negative {
        if acc > 2_147_483_648 {
            return -1;
        }
        let v: i64 = -(acc as i64);
        v as i32
    } else {
        if acc > 2_147_483_647 {
            return -1;
        }
        acc as i32
    }
}

/// Append the decimal rendering of `n` to `out`.
pub fn push_decimal(out: &mut Vec<u8>, n: u32)
    ensures
        final(out)@ == old(out)@ + dec_digits(n as int),
    decreases n,
{
    if n < 10 {
        out.push(48 + n as u8);
        proof {
            assert(final(out)@ =~= old(out)@ + dec_digits(n as int));
        }
    } else {
        push_decimal(out, n / 10);
        out.push(48 + (n % 10) as u8);
        proof {
            assert(final(out)@ =~= old(out)@ + dec_digits(n as int));
        }
    }
}

} // verus!
