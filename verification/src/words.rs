use vstd::prelude::*;

use vstd::string::StrSliceExecFns;
use vstd::utf8::{
    decode_utf8, encode_scalar, encode_utf8, encode_utf8_decode_utf8, encode_utf8_valid_utf8,
    valid_utf8,
};

verus! {

/// A decimal digit character.
pub open spec fn is_digit(c: char) -> bool {
    48 <= c as u32 && c as u32 <= 57
}

/// The numeric value of a digit character.
pub open spec fn digit_val(c: char) -> int {
    c as u32 - 48
}

pub open spec fn all_digits(s: Seq<char>) -> bool {
    forall|i: int| 0 <= i < s.len() ==> is_digit(#[trigger] s[i])
}

/// The value of a digit string, most significant digit first.
pub open spec fn dec_val(s: Seq<char>) -> int
    decreases s.len(),
{
    if s.len() == 0 {
        0
    } else {
        dec_val(s.drop_last()) * 10 + digit_val(s.last())
    }
}

/// The unsigned decimal field grammar: one or more digits.
pub open spec fn is_unsigned_dec(s: Seq<char>) -> bool {
    s.len() > 0 && all_digits(s)
}

/// The signed decimal field grammar: an optional minus sign, then digits.
pub open spec fn is_signed_dec(s: Seq<char>) -> bool {
    if s.len() > 0 && s[0] == '-' {
        is_unsigned_dec(s.skip(1))
    } else {
        is_unsigned_dec(s)
    }
}

/// The value of a signed decimal field.
pub open spec fn signed_dec_val(s: Seq<char>) -> int {
    if s.len() > 0 && s[0] == '-' {
        -dec_val(s.skip(1))
    } else {
        dec_val(s)
    }
}

pub proof fn lemma_dec_val_nonneg(s: Seq<char>)
    requires
        all_digits(s),
    ensures
        dec_val(s) >= 0,
    decreases s.len(),
{
    if s.len() > 0 {
        assert(all_digits(s.drop_last()));
        lemma_dec_val_nonneg(s.drop_last());
    }
}

/// On a digit string the value of a prefix never exceeds the value of the
/// whole string.
pub proof fn lemma_dec_val_take_le(s: Seq<char>, i: int)
    requires
        all_digits(s),
        0 <= i <= s.len(),
    ensures
        dec_val(s.take(i)) <= dec_val(s),
    decreases s.len() - i,
{
    if i == s.len() {
        assert(s.take(i) =~= s);
    } else {
        assert(s.take(i + 1).drop_last() =~= s.take(i));
        assert(all_digits(s.take(i)));
        lemma_dec_val_nonneg(s.take(i));
        assert(dec_val(s.take(i + 1)) == dec_val(s.take(i)) * 10 + digit_val(s[i]));
        lemma_dec_val_take_le(s, i + 1);
    }
}

/// What parsing a word as an unsigned `u64` field yields.
pub open spec fn spec_parse_u64(s: Seq<char>) -> Option<u64> {
    if is_unsigned_dec(s) && dec_val(s) <= u64::MAX {
        Some(dec_val(s) as u64)
    } else {
        None
    }
}

/// What parsing a word as an unsigned `usize` field yields.
pub open spec fn spec_parse_usize(s: Seq<char>) -> Option<usize> {
    if is_unsigned_dec(s) && dec_val(s) <= usize::MAX {
        Some(dec_val(s) as usize)
    } else {
        None
    }
}

/// What parsing a word as an unsigned `u32` field yields.
pub open spec fn spec_parse_u32(s: Seq<char>) -> Option<u32> {
    if is_unsigned_dec(s) && dec_val(s) <= u32::MAX {
        Some(dec_val(s) as u32)
    } else {
        None
    }
}

/// What parsing a word as an unsigned `u16` field yields.
pub open spec fn spec_parse_u16(s: Seq<char>) -> Option<u16> {
    if is_unsigned_dec(s) && dec_val(s) <= u16::MAX {
        Some(dec_val(s) as u16)
    } else {
        None
    }
}

/// What parsing a word as a signed `i32` field yields.
pub open spec fn spec_parse_i32(s: Seq<char>) -> Option<i32> {
    if is_signed_dec(s) && i32::MIN <= signed_dec_val(s) && signed_dec_val(s) <= i32::MAX {
        Some(signed_dec_val(s) as i32)
    } else {
        None
    }
}

/// What parsing a word as a signed `i16` field yields.
pub open spec fn spec_parse_i16(s: Seq<char>) -> Option<i16> {
    if is_signed_dec(s) && i16::MIN <= signed_dec_val(s) && signed_dec_val(s) <= i16::MAX {
        Some(signed_dec_val(s) as i16)
    } else {
        None
    }
}

/// Whether two string slices hold the same characters.
pub fn str_eq(a: &str, b: &str) -> (r: bool)
    ensures
        r == (a@ == b@),
{
    let sa: String = a.to_owned();
    let sb: String = b.to_owned();
    sa == sb
}

/// Parses an unsigned decimal field into a `u64`: succeeds exactly on a
/// nonempty all-digit word whose value fits.
pub fn parse_u64(s: &str) -> (r: Option<u64>)
    ensures
        r == spec_parse_u64(s@),
{
    let n = s.unicode_len();
    if n == 0 {
        return None;
    }
    let mut acc: u64 = 0;
    let mut i: usize = 0;
    while i < n
        invariant
            n == s@.len(),
            0 <= i <= n,
            all_digits(s@.take(i as int)),
            acc as int == dec_val(s@.take(i as int)),
        decreases n - i,
    {
        let c = s.get_char(i);
        let u = c as u32;
        if u < 48 || u > 57 {
            return None;
        }
        let digit = (u - 48) as u64;
        proof {
            assert(s@.take(i as int + 1).drop_last() =~= s@.take(i as int));
            assert(s@.take(i as int + 1).last() == s@[i as int]);
        }
        if acc > (u64::MAX - digit) / 10 {
            proof {
                assert(dec_val(s@.take(i as int + 1)) > u64::MAX);
                if all_digits(s@) {
                    lemma_dec_val_take_le(s@, i as int + 1);
                }
            }
            return None;
        }
        acc = acc * 10 + digit;
        i = i + 1;
    }
    proof {
        assert(s@.take(n as int) =~= s@);
    }
    Some(acc)
}

/// Parses an unsigned decimal field into a `usize`.
pub fn parse_usize(s: &str) -> (r: Option<usize>)
    ensures
        r == spec_parse_usize(s@),
{
    proof {
        if is_unsigned_dec(s@) {
            lemma_dec_val_nonneg(s@);
        }
    }
    match parse_u64(s) {
        Some(v) => {
            if v <= usize::MAX as u64 {
                Some(v as usize)
            } else {
                None
            }
        },
        None => None,
    }
}

/// Parses an unsigned decimal field into a `u32`.
pub fn parse_u32(s: &str) -> (r: Option<u32>)
    ensures
        r == spec_parse_u32(s@),
{
    proof {
        if is_unsigned_dec(s@) {
            lemma_dec_val_nonneg(s@);
        }
    }
    match parse_u64(s) {
        Some(v) => {
            if v <= u32::MAX as u64 {
                Some(v as u32)
            } else {
                None
            }
        },
        None => None,
    }
}

/// Parses an unsigned decimal field into a `u16`.
pub fn parse_u16(s: &str) -> (r: Option<u16>)
    ensures
        r == spec_parse_u16(s@),
{
    proof {
        if is_unsigned_dec(s@) {
            lemma_dec_val_nonneg(s@);
        }
    }
    match parse_u64(s) {
        Some(v) => {
            if v <= u16::MAX as u64 {
                Some(v as u16)
            } else {
                None
            }
        },
        None => None,
    }
}

/// Parses a signed decimal field into an `i32`.
pub fn parse_i32(s: &str) -> (r: Option<i32>)
    ensures
        r == spec_parse_i32(s@),
{
    let n = s.unicode_len();
    proof {
        if s@.len() > 0 && s@[0] == '-' {
            if is_unsigned_dec(s@.skip(1)) {
                lemma_dec_val_nonneg(s@.skip(1));
            }
        } else {
            if is_unsigned_dec(s@) {
                lemma_dec_val_nonneg(s@);
            }
        }
    }
    if n > 0 && s.get_char(0) == '-' {
        let rest = s.substring_char(1, n);
        proof {
            assert(rest@ =~= s@.skip(1));
        }
        match parse_u64(rest) {
            Some(v) => {
                if v <= 0x8000_0000u64 {
                    Some((0i64 - (v as i64)) as i32)
                } else {
                    None
                }
            },
            None => None,
        }
    } else {
        match parse_u64(s) {
            Some(v) => {
                if v <= i32::MAX as u64 {
                    Some(v as i32)
                } else {
                    None
                }
            },
            None => None,
        }
    }
}

/// Parses a signed decimal field into an `i16`.
pub fn parse_i16(s: &str) -> (r: Option<i16>)
    ensures
        r == spec_parse_i16(s@),
{
    let n = s.unicode_len();
    proof {
        if s@.len() > 0 && s@[0] == '-' {
            if is_unsigned_dec(s@.skip(1)) {
                lemma_dec_val_nonneg(s@.skip(1));
            }
        } else {
            if is_unsigned_dec(s@) {
                lemma_dec_val_nonneg(s@);
            }
        }
    }
    if n > 0 && s.get_char(0) == '-' {
        let rest = s.substring_char(1, n);
        proof {
            assert(rest@ =~= s@.skip(1));
        }
        match parse_u64(rest) {
            Some(v) => {
                if v <= 32768u64 {
                    Some((0i32 - (v as i32)) as i16)
                } else {
                    None
                }
            },
            None => None,
        }
    } else {
        match parse_u64(s) {
            Some(v) => {
                if v <= i16::MAX as u64 {
                    Some(v as i16)
                } else {
                    None
                }
            },
            None => None,
        }
    }
}

/// The canonical decimal word for a value: one or more digits, most
/// significant first, with no leading zero.
pub open spec fn is_canonical_dec(s: Seq<char>, v: int) -> bool {
    is_unsigned_dec(s) && dec_val(s) == v && (s.len() > 1 ==> s[0] != '0')
}

/// The character of one decimal digit.
pub open spec fn digit_char(d: int) -> char {
    if d == 0 {
        '0'
    } else if d == 1 {
        '1'
    } else if d == 2 {
        '2'
    } else if d == 3 {
        '3'
    } else if d == 4 {
        '4'
    } else if d == 5 {
        '5'
    } else if d == 6 {
        '6'
    } else if d == 7 {
        '7'
    } else if d == 8 {
        '8'
    } else {
        '9'
    }
}

/// The decimal word that renders a value: its digits, most significant
/// first, with no leading zero.
pub open spec fn dec_word(v: int) -> Seq<char>
    decreases v,
{
    if v < 10 {
        seq![digit_char(v)]
    } else {
        dec_word(v / 10).push(digit_char(v % 10))
    }
}

proof fn lemma_digit_char_val(d: int)
    requires
        0 <= d < 10,
    ensures
        digit_char(d) as u32 == 48 + d,
        is_digit(digit_char(d)),
        digit_val(digit_char(d)) == d,
{
}

/// The decimal word of a value is exactly its canonical decimal rendering.
pub proof fn lemma_dec_word_canonical(v: int)
    requires
        v >= 0,
    ensures
        is_canonical_dec(dec_word(v), v),
    decreases v,
{
    if v < 10 {
        lemma_digit_char_val(v);
        let c = digit_char(v);
        assert(dec_word(v) == seq![c]);
        assert(seq![c].drop_last() =~= Seq::<char>::empty());
        assert(seq![c].last() == c);
        assert(dec_val(seq![c]) == dec_val(Seq::<char>::empty()) * 10 + digit_val(c));
        assert(forall|i: int| 0 <= i < 1 ==> is_digit(#[trigger] seq![c][i]));
    } else {
        lemma_dec_word_canonical(v / 10);
        lemma_digit_char_val(v % 10);
        let s = dec_word(v / 10);
        let c = digit_char(v % 10);
        assert(s.push(c).drop_last() =~= s);
        assert(s.push(c).last() == c);
        assert(dec_val(dec_word(v)) == dec_val(s) * 10 + digit_val(c));
        assert forall|i: int| 0 <= i < s.push(c).len() implies is_digit(
            #[trigger] s.push(c)[i],
        ) by {
            if i < s.len() {
                assert(s.push(c)[i] == s[i]);
                assert(is_digit(s[i]));
            }
        }
        assert(dec_word(v)[0] == s[0]);
        if v / 10 < 10 {
            assert(s == seq![digit_char(v / 10)]);
            lemma_digit_char_val(v / 10);
            assert(digit_char(v / 10) as u32 >= 49);
            assert('0' as u32 == 48);
            assert(s[0] != '0');
        } else {
            assert(s == dec_word(v / 100).push(digit_char((v / 10) % 10)));
            assert(dec_word(v / 100).len() >= 1);
            assert(s.len() > 1);
            assert(s[0] != '0');
        }
        assert(is_unsigned_dec(dec_word(v)));
        assert(dec_val(dec_word(v)) == v);
        assert(dec_word(v).len() > 1 ==> dec_word(v)[0] != '0');
    }
}

proof fn lemma_encode_scalar_ascii(c: char)
    requires
        (c as u32) < 128,
    ensures
        ({
            let b = (c as u32) as u8;
            encode_scalar(c as u32) == seq![b]
        }),
{
    let u = c as u32;
    assert(u < 128 ==> (u & 0x7F) == u) by (bit_vector);
}

proof fn lemma_encode_utf8_push(s: Seq<char>, c: char)
    ensures
        encode_utf8(s.push(c)) == encode_utf8(s) + encode_scalar(c as u32),
    decreases s.len(),
{
    assert(s.push(c).len() == s.len() + 1);
    assert(encode_utf8(s.push(c)) == encode_scalar(s.push(c)[0] as u32) + encode_utf8(
        s.push(c).drop_first(),
    ));
    if s.len() == 0 {
        assert(s.push(c)[0] == c);
        assert(s.push(c).drop_first() =~= Seq::<char>::empty());
        assert(encode_utf8(Seq::<char>::empty()) == Seq::<u8>::empty());
        assert(encode_utf8(s.push(c)) =~= encode_utf8(s) + encode_scalar(c as u32));
    } else {
        assert(s.push(c)[0] == s[0]);
        assert(s.push(c).drop_first() =~= s.drop_first().push(c));
        lemma_encode_utf8_push(s.drop_first(), c);
        assert(encode_utf8(s) == encode_scalar(s[0] as u32) + encode_utf8(s.drop_first()));
        assert(encode_utf8(s.push(c)) =~= encode_utf8(s) + encode_scalar(c as u32));
    }
}

/// Appends the UTF-8 bytes of the decimal word of `v`.
fn push_dec_bytes(v: u64, out: &mut Vec<u8>)
    ensures
        final(out)@ == old(out)@ + encode_utf8(dec_word(v as int)),
    decreases v,
{
    let ghost prefix = out@;
    if v >= 10 {
        push_dec_bytes(v / 10, out);
    }
    let d = (v % 10) as u8;
    let b = 48 + d;
    out.push(b);
    proof {
        lemma_digit_char_val(d as int);
        let c = digit_char(d as int);
        lemma_encode_scalar_ascii(c);
        assert((c as u32) as u8 == b);
        assert(encode_scalar(c as u32) =~= seq![b]);
        if v < 10 {
            assert(dec_word(v as int) == seq![c]);
            assert(seq![c].drop_first() =~= Seq::<char>::empty());
            assert(seq![c][0] == c);
            assert(encode_utf8(seq![c]) == encode_scalar(c as u32) + encode_utf8(
                Seq::<char>::empty(),
            ));
            assert(encode_utf8(Seq::<char>::empty()) == Seq::<u8>::empty());
            assert(encode_utf8(dec_word(v as int)) =~= seq![b]);
            assert(out@ =~= prefix + encode_utf8(dec_word(v as int)));
        } else {
            assert(dec_word(v as int) == dec_word(v as int / 10).push(c));
            lemma_encode_utf8_push(dec_word(v as int / 10), c);
            assert(out@ =~= prefix + encode_utf8(dec_word(v as int)));
        }
    }
}

/// Renders an unsigned integer as its canonical decimal word: its digits,
/// most significant first, with no leading zero.
pub fn format_u64(v: u64) -> (r: String)
    ensures
        r@ == dec_word(v as int),
        is_canonical_dec(r@, v as int),
{
    broadcast use encode_utf8_valid_utf8;
    broadcast use encode_utf8_decode_utf8;

    let mut bytes: Vec<u8> = Vec::new();
    push_dec_bytes(v, &mut bytes);
    proof {
        assert(bytes@ =~= encode_utf8(dec_word(v as int)));
        lemma_dec_word_canonical(v as int);
    }
    match string_from_utf8(bytes) {
        Some(s) => s,
        None => {
            proof {
                assert(false);
            }
            String::new()
        },
    }
}

/// Relies on `String::from_utf8`: it succeeds exactly on valid UTF-8 input,
/// and then returns the string whose characters are the UTF-8 decoding of
/// that input.
#[verifier::external_body]
pub(crate) fn string_from_utf8(v: Vec<u8>) -> (r: Option<String>)
    ensures
        (r is Some) <==> valid_utf8(v@),
        r matches Some(s) ==> s@ == decode_utf8(v@),
{
    String::from_utf8(v).ok()
}

/// The boolean field grammar: exactly `true` or `false`.
pub open spec fn spec_parse_bool(s: Seq<char>) -> Option<bool> {
    if s == "true"@ {
        Some(true)
    } else if s == "false"@ {
        Some(false)
    } else {
        None
    }
}

/// Parses a boolean field.
pub fn parse_bool(s: &str) -> (r: Option<bool>)
    ensures
        r == spec_parse_bool(s@),
{
    if str_eq(s, "true") {
        Some(true)
    } else if str_eq(s, "false") {
        Some(false)
    } else {
        None
    }
}

} // verus!
