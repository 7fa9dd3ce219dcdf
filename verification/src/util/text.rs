//! Bytes as text: byte strings compared, decimal numbers written and read,
//! the case of letters, and what the standard library makes of UTF-8 text.

use vstd::prelude::*;
use vstd::utf8::valid_utf8;

verus! {

/// The digit `0`.
pub const ZERO: u8 = 48;

/// The sign `+`.
pub const PLUS: u8 = 43;

/// The sign `-`.
pub const MINUS: u8 = 45;

/// The decimal digits of `n`, without leading zeros; `0` for zero.
pub open spec fn decimal(n: nat) -> Seq<u8>
    decreases n,
{
    if n < 10 {
        seq![(ZERO + n) as u8]
    } else {
        decimal(n / 10).push((ZERO + n % 10) as u8)
    }
}

/// The decimal text of `n`, with `-` before the digits of a negative number.
pub open spec fn signed_decimal(n: int) -> Seq<u8> {
    if n < 0 {
        seq![MINUS] + decimal((-n) as nat)
    } else {
        decimal(n as nat)
    }
}

/// Whether `byte` is a decimal digit.
pub open spec fn is_digit(byte: u8) -> bool {
    ZERO <= byte <= ZERO + 9
}

/// Whether `text` holds decimal digits and nothing else.
pub open spec fn all_digits(text: Seq<u8>) -> bool {
    forall|i: int| 0 <= i < text.len() ==> is_digit(#[trigger] text[i])
}

/// The number that the decimal digits `text` spell.
pub open spec fn digits_value(text: Seq<u8>) -> nat
    decreases text.len(),
{
    if text.len() == 0 {
        0
    } else {
        (digits_value(text.drop_last()) * 10 + (text.last() - ZERO)) as nat
    }
}

/// The unsigned number that `text` spells: decimal digits, at least one,
/// after an optional `+`, of a value that fits 64 bits. Anything else
/// spells none.
pub open spec fn spec_parse_u64(text: Seq<u8>) -> Option<u64> {
    let digits = if text.len() > 0 && text[0] == PLUS {
        text.skip(1)
    } else {
        text
    };
    if digits.len() > 0 && all_digits(digits) && digits_value(digits) <= u64::MAX {
        Some(digits_value(digits) as u64)
    } else {
        None
    }
}

/// The signed number that `text` spells: decimal digits, at least one,
/// after an optional `+` or `-`, of a value that fits 64 bits. Anything
/// else spells none.
pub open spec fn spec_parse_i64(text: Seq<u8>) -> Option<i64> {
    let negative = text.len() > 0 && text[0] == MINUS;
    let digits = if text.len() > 0 && (text[0] == PLUS || text[0] == MINUS) {
        text.skip(1)
    } else {
        text
    };
    if digits.len() > 0 && all_digits(digits) {
        let value = digits_value(digits);
        if negative && value <= 0x8000_0000_0000_0000 {
            Some((-value) as i64)
        } else if !negative && value <= i64::MAX {
            Some(value as i64)
        } else {
            None
        }
    } else {
        None
    }
}

/// `byte` in upper case where it is a lower-case ASCII letter, and as it is
/// otherwise.
pub open spec fn upper(byte: u8) -> u8 {
    if 97 <= byte <= 122 {
        (byte - 32) as u8
    } else {
        byte
    }
}

/// `byte` in lower case where it is an upper-case ASCII letter, and as it is
/// otherwise.
pub open spec fn lower(byte: u8) -> u8 {
    if 65 <= byte <= 90 {
        (byte + 32) as u8
    } else {
        byte
    }
}

/// `text` with its ASCII letters in upper case.
pub open spec fn spec_upper(text: Seq<u8>) -> Seq<u8> {
    text.map_values(|b: u8| upper(b))
}

/// `text` with its ASCII letters in lower case.
pub open spec fn spec_lower(text: Seq<u8>) -> Seq<u8> {
    text.map_values(|b: u8| lower(b))
}

/// The text that `String::from_utf8_lossy` makes of bytes: their text where
/// they are well-formed UTF-8, with the replacement character in place of
/// each part that is not.
pub uninterp spec fn spec_lossy(bytes: Seq<u8>) -> Seq<char>;

/// The text that `{:?}` makes of a text: the text between double quotes,
/// with what does not print written as an escape.
pub uninterp spec fn spec_debug(text: Seq<char>) -> Seq<char>;

/// The words that `str::split_whitespace` finds in a text, given and
/// returned as UTF-8 bytes: the parts between runs of Unicode white space.
pub uninterp spec fn spec_words(line: Seq<u8>) -> Seq<Seq<u8>>;

/// The text that `str::to_lowercase` makes of a text, given and returned as
/// UTF-8 bytes.
pub uninterp spec fn spec_lowercase(word: Seq<u8>) -> Seq<u8>;

/// The text that `str::trim` makes of a text, given and returned as UTF-8
/// bytes: the text without the white space at its ends. Bytes that are not
/// UTF-8 are taken as `String::from_utf8_lossy` takes them.
pub uninterp spec fn spec_trim(text: Seq<u8>) -> Seq<u8>;

/// `text` without the white space at its ends, as `str::trim` makes it.
/// What comes out is text, and so UTF-8.
#[verifier::external_body]
pub(crate) fn trim(text: &[u8]) -> (trimmed: Vec<u8>)
    ensures
        trimmed@ == spec_trim(text@),
        valid_utf8(trimmed@),
{
    String::from_utf8_lossy(text).trim().as_bytes().to_vec()
}

/// The words of `line`, as `str::split_whitespace` finds them. The bytes
/// are UTF-8 and so are taken as text as they stand; each word is a part of
/// that text, and so UTF-8 itself.
#[verifier::external_body]
pub(crate) fn split_words(line: &[u8]) -> (words: Vec<Vec<u8>>)
    requires
        valid_utf8(line@),
    ensures
        words@.map_values(|w: Vec<u8>| w@) == spec_words(line@),
        forall|i: int| 0 <= i < words@.len() ==> valid_utf8(#[trigger] words@[i]@),
{
    String::from_utf8_lossy(line).split_whitespace().map(|w| w.as_bytes().to_vec()).collect()
}

/// `word` in lower case, as `str::to_lowercase` makes it. The bytes are
/// UTF-8 and so are taken as text as they stand.
#[verifier::external_body]
pub(crate) fn lowercase(word: &[u8]) -> (lowered: Vec<u8>)
    requires
        valid_utf8(word@),
    ensures
        lowered@ == spec_lowercase(word@),
{
    String::from_utf8_lossy(word).to_lowercase().into_bytes()
}

/// The unsigned number of 32 bits that `text` spells.
pub open spec fn spec_parse_u32(text: Seq<u8>) -> Option<u32> {
    match spec_parse_u64(text) {
        Some(value) => if value <= u32::MAX {
            Some(value as u32)
        } else {
            None
        },
        None => None,
    }
}

/// The unsigned number of the machine's word size that `text` spells.
pub open spec fn spec_parse_usize(text: Seq<u8>) -> Option<usize> {
    match spec_parse_u64(text) {
        Some(value) => if value <= usize::MAX {
            Some(value as usize)
        } else {
            None
        },
        None => None,
    }
}

/// The text that `String::from_utf8_lossy` makes of `bytes`.
#[verifier::external_body]
pub(crate) fn lossy_text(bytes: &[u8]) -> (text: String)
    ensures
        text@ == spec_lossy(bytes@),
{
    String::from_utf8_lossy(bytes).into_owned()
}

/// `text` as `{:?}` formats it, through `<str as Debug>::fmt`.
#[verifier::external_body]
pub(crate) fn debug_text(text: &str) -> (quoted: String)
    ensures
        quoted@ == spec_debug(text@),
{
    format!("{:?}", text)
}

/// The UTF-8 bytes of the character whose code is `byte`: the byte itself
/// below 128, and two bytes from there on.
pub open spec fn latin1_utf8(byte: u8) -> Seq<u8> {
    if byte < 128 {
        seq![byte]
    } else {
        seq![0xC0u8 | (byte >> 6), 0x80u8 | (byte & 0x3F)]
    }
}

/// Append the UTF-8 bytes of the character whose code is `byte` to `out`.
pub fn push_latin1(out: &mut Vec<u8>, byte: u8)
    ensures
        final(out)@ == old(out)@ + latin1_utf8(byte),
{
    if byte < 128 {
        out.push(byte);
    } else {
        out.push(0xC0u8 | (byte >> 6));
        out.push(0x80u8 | (byte & 0x3F));
    }
    assert(out@ =~= old(out)@ + latin1_utf8(byte));
}

/// `std::str::from_utf8` accepts `bytes`: it does so exactly where they are
/// well-formed UTF-8.
#[verifier::external_body]
pub(crate) fn is_utf8(bytes: &[u8]) -> (valid: bool)
    ensures
        valid == valid_utf8(bytes@),
{
    std::str::from_utf8(bytes).is_ok()
}

/// Whether two byte strings are equal.
pub fn bytes_eq(a: &[u8], b: &[u8]) -> (same: bool)
    ensures
        same == (a@ == b@),
{
    if a.len() != b.len() {
        return false;
    }
    let mut i: usize = 0;
    while i < a.len()
        invariant
            a.len() == b.len(),
            i <= a.len(),
            forall|j: int| 0 <= j < i ==> a@[j] == b@[j],
        decreases a.len() - i,
    {
        if a[i] != b[i] {
            return false;
        }
        i = i + 1;
    }
    assert(a@ =~= b@);
    true
}

/// Append the decimal digits of `n` to `out`.
pub fn push_decimal(out: &mut Vec<u8>, n: u64)
    ensures
        final(out)@ == old(out)@ + decimal(n as nat),
    decreases n,
{
    if n >= 10 {
        push_decimal(out, n / 10);
    }
    out.push(ZERO + (n % 10) as u8);
    assert(out@ =~= old(out)@ + decimal(n as nat));
}

/// The decimal text of `n`.
pub fn format_u64(n: u64) -> (text: Vec<u8>)
    ensures
        text@ == decimal(n as nat),
{
    let mut text: Vec<u8> = Vec::new();
    push_decimal(&mut text, n);
    assert(text@ =~= decimal(n as nat));
    text
}

/// Append the decimal text of `n` to `out`.
pub fn push_signed_decimal(out: &mut Vec<u8>, n: i64)
    ensures
        final(out)@ == old(out)@ + signed_decimal(n as int),
{
    if n < 0 {
        out.push(MINUS);
        // The magnitude of the least number does not fit `i64`.
        let magnitude: u64 = (-(n + 1)) as u64 + 1;
        push_decimal(out, magnitude);
        assert(out@ =~= old(out)@ + signed_decimal(n as int));
    } else {
        push_decimal(out, n as u64);
    }
}

/// Digits that go on spell a number that is no smaller.
proof fn lemma_value_grows(text: Seq<u8>, upto: int)
    requires
        0 <= upto <= text.len(),
        all_digits(text),
    ensures
        digits_value(text.take(upto)) <= digits_value(text),
    decreases text.len() - upto,
{
    if upto < text.len() {
        let longer = text.take(upto + 1);
        assert(longer.drop_last() =~= text.take(upto));
        assert(is_digit(text[upto]));
        assert(longer.last() == text[upto]);
        lemma_value_grows(text, upto + 1);
    } else {
        assert(text.take(upto) =~= text);
    }
}

/// The number that the digits of `text` from `from` on spell, where they are
/// digits, at least one, of a value that fits 64 bits.
fn parse_digits(text: &[u8], from: usize) -> (value: Option<u64>)
    requires
        from <= text@.len(),
    ensures
        value == (if text@.skip(from as int).len() > 0 && all_digits(text@.skip(from as int))
            && digits_value(text@.skip(from as int)) <= u64::MAX {
            Some(digits_value(text@.skip(from as int)) as u64)
        } else {
            None
        }),
{
    let ghost digits = text@.skip(from as int);
    if from == text.len() {
        return None;
    }
    let mut value: u64 = 0;
    let mut i: usize = from;
    while i < text.len()
        invariant
            from <= i <= text.len(),
            digits == text@.skip(from as int),
            all_digits(digits.take(i - from)),
            value == digits_value(digits.take(i - from)),
        decreases text.len() - i,
    {
        let byte = text[i];
        let ghost seen = digits.take(i - from);
        let ghost longer = digits.take(i + 1 - from);
        proof {
            assert(longer.drop_last() =~= seen);
            assert(longer.last() == byte);
        }
        if byte < ZERO || byte > ZERO + 9 {
            assert(!is_digit(digits[i - from]));
            return None;
        }
        let digit: u64 = (byte - ZERO) as u64;
        let next = match value.checked_mul(10) {
            Some(tens) => tens.checked_add(digit),
            None => None,
        };
        match next {
            Some(n) => {
                value = n;
            },
            None => {
                proof {
                    assert(digits_value(longer) > u64::MAX);
                    if all_digits(digits) {
                        lemma_value_grows(digits, i + 1 - from);
                    }
                }
                return None;
            },
        }
        assert forall|j: int| 0 <= j < longer.len() implies is_digit(#[trigger] longer[j]) by {
            if j < seen.len() {
                assert(longer[j] == seen[j]);
            }
        }
        i = i + 1;
    }
    assert(digits.take(i - from) =~= digits);
    Some(value)
}

/// Read an unsigned decimal number: digits after an optional `+`.
pub fn parse_u64(text: &[u8]) -> (value: Option<u64>)
    ensures
        value == spec_parse_u64(text@),
{
    if text.len() > 0 && text[0] == PLUS {
        parse_digits(text, 1)
    } else {
        assert(text@.skip(0) =~= text@);
        parse_digits(text, 0)
    }
}

/// Read an unsigned decimal number of 32 bits.
pub fn parse_u32(text: &[u8]) -> (value: Option<u32>)
    ensures
        value == spec_parse_u32(text@),
{
    match parse_u64(text) {
        Some(value) => if value <= u32::MAX as u64 {
            Some(value as u32)
        } else {
            None
        },
        None => None,
    }
}

/// Read an unsigned decimal number of the machine's word size.
pub fn parse_usize(text: &[u8]) -> (value: Option<usize>)
    ensures
        value == spec_parse_usize(text@),
{
    match parse_u64(text) {
        Some(value) => if value <= usize::MAX as u64 {
            Some(value as usize)
        } else {
            None
        },
        None => None,
    }
}

/// Read a signed decimal number: digits after an optional `+` or `-`.
pub fn parse_i64(text: &[u8]) -> (value: Option<i64>)
    ensures
        value == spec_parse_i64(text@),
{
    let negative = text.len() > 0 && text[0] == MINUS;
    let signed = text.len() > 0 && (text[0] == PLUS || text[0] == MINUS);
    let magnitude = if signed {
        parse_digits(text, 1)
    } else {
        assert(text@.skip(0) =~= text@);
        parse_digits(text, 0)
    };
    match magnitude {
        Some(value) => {
            if negative {
                if value == 0x8000_0000_0000_0000 {
                    Some(i64::MIN)
                } else if value < 0x8000_0000_0000_0000 {
                    Some(-(value as i64))
                } else {
                    None
                }
            } else if value <= i64::MAX as u64 {
                Some(value as i64)
            } else {
                None
            }
        },
        None => None,
    }
}

/// `text` with its ASCII letters in upper case.
pub fn to_ascii_uppercase(text: &[u8]) -> (out: Vec<u8>)
    ensures
        out@ == spec_upper(text@),
{
    let mut out: Vec<u8> = Vec::new();
    let mut i: usize = 0;
    while i < text.len()
        invariant
            i <= text.len(),
            out@ == spec_upper(text@.take(i as int)),
        decreases text.len() - i,
    {
        let byte = text[i];
        let ghost before = out@;
        if byte >= 97 && byte <= 122 {
            out.push(byte - 32);
        } else {
            out.push(byte);
        }
        assert(out@ =~= spec_upper(text@.take(i + 1)));
        i = i + 1;
    }
    assert(text@.take(i as int) =~= text@);
    out
}

/// `text` with its ASCII letters in lower case.
pub fn to_ascii_lowercase(text: &[u8]) -> (out: Vec<u8>)
    ensures
        out@ == spec_lower(text@),
{
    let mut out: Vec<u8> = Vec::new();
    let mut i: usize = 0;
    while i < text.len()
        invariant
            i <= text.len(),
            out@ == spec_lower(text@.take(i as int)),
        decreases text.len() - i,
    {
        let byte = text[i];
        if byte >= 65 && byte <= 90 {
            out.push(byte + 32);
        } else {
            out.push(byte);
        }
        assert(out@ =~= spec_lower(text@.take(i + 1)));
        i = i + 1;
    }
    assert(text@.take(i as int) =~= text@);
    out
}

} // verus!
