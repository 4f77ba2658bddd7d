//! Numbers and bytes that are written as digits.

use vstd::prelude::*;

use super::models::{self, fixed_width_hash, FieldElement};

verus! {

/// What a hexadecimal digit stands for, of either case.
pub open spec fn digit_value(c: char) -> Option<int> {
    if '0' <= c <= '9' {
        Some(c as int - '0' as int)
    } else if 'a' <= c <= 'f' {
        Some(c as int - 'a' as int + 10)
    } else if 'A' <= c <= 'F' {
        Some(c as int - 'A' as int + 10)
    } else {
        None
    }
}

/// `c` is a digit in `radix`, which is 16 at most.
pub open spec fn is_digit(c: char, radix: int) -> bool {
    digit_value(c) matches Some(value) && value < radix
}

/// `text` holds digits in `radix` and nothing else.
pub open spec fn all_digits(text: Seq<char>, radix: int) -> bool {
    forall|i: int| 0 <= i < text.len() ==> is_digit(#[trigger] text[i], radix)
}

/// The number that digits stand for, most significant first.
pub open spec fn number_of(digits: Seq<char>, radix: int) -> int
    decreases digits.len(),
{
    if digits.len() == 0 {
        0
    } else {
        number_of(digits.drop_last(), radix) * radix + digit_value(digits.last())->0
    }
}

/// The digits of a number that may be written with a plus sign.
pub open spec fn unsigned_part(text: Seq<char>) -> Seq<char> {
    if text.len() > 0 && text[0] == '+' {
        text.skip(1)
    } else {
        text
    }
}

/// The number that `text` writes in `radix`: digits, one at least, with a plus sign before
/// them or without, as far as it fits.
pub open spec fn parsed_number(text: Seq<char>, radix: int) -> Option<u64> {
    let digits = unsigned_part(text);
    if digits.len() > 0 && all_digits(digits, radix) && number_of(digits, radix) <= u64::MAX {
        Some(number_of(digits, radix) as u64)
    } else {
        None
    }
}

/// Digits after those that are there only make the number larger.
pub(crate) proof fn lemma_number_grows(digits: Seq<char>, count: int, radix: int)
    requires
        0 <= count <= digits.len(),
        2 <= radix,
        all_digits(digits, radix),
    ensures
        0 <= number_of(digits.take(count), radix) <= number_of(digits, radix),
    decreases digits.len(),
{
    if count == digits.len() {
        assert(digits.take(count) =~= digits);
        if count > 0 {
            lemma_number_grows(digits.drop_last(), count - 1, radix);
            assert(digits.drop_last().take(count - 1) =~= digits.drop_last());
            let before = number_of(digits.drop_last(), radix);
            assert(before * radix >= 0) by (nonlinear_arith)
                requires
                    before >= 0,
                    radix >= 2,
            ;
            assert(is_digit(digits.last(), radix));
        }
    } else {
        lemma_number_grows(digits.drop_last(), count, radix);
        assert(digits.drop_last().take(count) =~= digits.take(count));
        let before = number_of(digits.drop_last(), radix);
        assert(before * radix >= before) by (nonlinear_arith)
            requires
                before >= 0,
                radix >= 2,
        ;
        assert(is_digit(digits.last(), radix));
    }
}

/// The value of a hexadecimal digit.
fn digit(c: char) -> (value: Option<u64>)
    ensures
        match value {
            Some(value) => digit_value(c) == Some(value as int) && value < 16,
            None => digit_value(c) is None,
        },
{
    if '0' <= c && c <= '9' {
        Some(c as u64 - '0' as u64)
    } else if 'a' <= c && c <= 'f' {
        Some(c as u64 - 'a' as u64 + 10)
    } else if 'A' <= c && c <= 'F' {
        Some(c as u64 - 'A' as u64 + 10)
    } else {
        None
    }
}

/// Reads a number that is written in `radix`.
pub fn parse_number(text: &str, radix: u64) -> (number: Option<u64>)
    requires
        2 <= radix <= 16,
    ensures
        number == parsed_number(text@, radix as int),
{
    let length = text.unicode_len();
    let mut i: usize = 0;
    if length > 0 && text.get_char(0) == '+' {
        i = 1;
    }
    let ghost digits = unsigned_part(text@);
    let ghost start = i as int;
    assert(digits =~= text@.skip(start));
    if i == length {
        return None;
    }
    let mut number: u64 = 0;
    while i < length
        invariant
            length == text@.len(),
            start <= i <= length,
            digits == unsigned_part(text@),
            digits =~= text@.skip(start),
            0 <= start <= 1,
            2 <= radix <= 16,
            all_digits(digits.take(i - start), radix as int),
            number == number_of(digits.take(i - start), radix as int),
        decreases length - i,
    {
        let c = text.get_char(i);
        let ghost seen = digits.take(i - start);
        let ghost longer = digits.take(i + 1 - start);
        assert(digits[i - start] == c);
        assert(longer.drop_last() =~= seen);
        assert(longer.last() == c);
        let value = match digit(c) {
            Some(value) if value < radix => value,
            _ => {
                assert(!is_digit(digits[i - start], radix as int));
                return None;
            },
        };
        assert(all_digits(longer, radix as int)) by {
            assert forall|j: int| 0 <= j < longer.len() implies is_digit(
                #[trigger] longer[j],
                radix as int,
            ) by {
                if j < seen.len() {
                    assert(longer[j] == seen[j]);
                }
            }
        }
        let next = match number.checked_mul(radix) {
            Some(shifted) => shifted.checked_add(value),
            None => None,
        };
        match next {
            Some(next) => {
                number = next;
            },
            None => {
                proof {
                    if all_digits(digits, radix as int) {
                        lemma_number_grows(digits, i + 1 - start, radix as int);
                    }
                }
                return None;
            },
        }
        i += 1;
    }
    assert(digits.take(i - start) =~= digits);
    Some(number)
}

/// `text` without the `0x` that it starts with, however often that stands there.
pub open spec fn without_prefixes(text: Seq<char>) -> Seq<char>
    decreases text.len(),
{
    if text.len() >= 2 && text[0] == '0' && text[1] == 'x' {
        without_prefixes(text.skip(2))
    } else {
        text
    }
}

/// `text` with a zero before it where it has an odd number of bytes.
pub open spec fn even_digits(digits: Seq<char>) -> Seq<char> {
    if vstd::utf8::encode_utf8(digits).len() % 2 == 1 {
        seq!['0'] + digits
    } else {
        digits
    }
}

/// The bytes that an even number of hexadecimal digits stands for.
pub open spec fn hex_bytes(digits: Seq<char>) -> Seq<u8> {
    Seq::new(
        digits.len() / 2,
        |i: int| (16 * digit_value(digits[2 * i])->0 + digit_value(digits[2 * i + 1])->0) as u8,
    )
}

/// The bytes that `hex` stands for: hexadecimal digits after any prefixes.
pub open spec fn felt_bytes(hex: Seq<char>) -> Option<Seq<u8>> {
    let digits = without_prefixes(hex);
    if all_digits(digits, 16) {
        Some(hex_bytes(even_digits(digits)))
    } else {
        None
    }
}

/// Why text is no hexadecimal number.
#[derive(Debug, Clone, Copy, PartialEq, Eq)]
pub enum FromHexError {
    /// A byte is no digit: the first such byte, and its place.
    InvalidHexCharacter { c: char, index: usize },
    /// There is a byte too many or too few.
    OddLength,
    /// The digits do not fill what they are to be decoded into.
    InvalidStringLength,
}

/// `byte` is a hexadecimal digit.
pub open spec fn is_hex_byte(byte: u8) -> bool {
    is_digit(byte as char, 16)
}

/// Why `bytes` are no hexadecimal number: their number is odd, else the first of them that
/// is no digit.
pub open spec fn is_hex_error(bytes: Seq<u8>, error: FromHexError) -> bool {
    match error {
        FromHexError::OddLength => bytes.len() % 2 == 1,
        FromHexError::InvalidHexCharacter { c, index } => {
            &&& bytes.len() % 2 == 0
            &&& index < bytes.len()
            &&& !is_hex_byte(bytes[index as int])
            &&& c == bytes[index as int] as char
            &&& forall|i: int| 0 <= i < index ==> is_hex_byte(#[trigger] bytes[i])
        },
        FromHexError::InvalidStringLength => false,
    }
}

/// The reason why `bytes` are no hexadecimal number, where they are none.
pub open spec fn hex_error(bytes: Seq<u8>) -> FromHexError {
    choose|error: FromHexError| is_hex_error(bytes, error)
}

/// Why `hex` stands for no bytes, where it stands for none.
pub open spec fn felt_error(hex: Seq<char>) -> FromHexError {
    hex_error(vstd::utf8::encode_utf8(even_digits(without_prefixes(hex))))
}

/// There is one reason at most.
pub(crate) proof fn lemma_hex_error_is_unique(bytes: Seq<u8>, error: FromHexError)
    requires
        is_hex_error(bytes, error),
    ensures
        error == hex_error(bytes),
{
    let other = hex_error(bytes);
    assert(is_hex_error(bytes, other));
    if let FromHexError::InvalidHexCharacter { c: _, index: i } = error {
        if let FromHexError::InvalidHexCharacter { c: _, index: j } = other {
            if i < j {
                assert(is_hex_byte(bytes[i as int]));
            } else if j < i {
                assert(is_hex_byte(bytes[j as int]));
            }
        }
    }
}

/// `hex::decode` takes an even number of hexadecimal digits of either case, and nothing
/// else; two digits make a byte, the more significant first. Its error is that the number
/// of bytes is odd, else the first byte that is no digit.
#[verifier::external_body]
fn decode_digits(digits: &str) -> (decoded: Result<Vec<u8>, FromHexError>)
    ensures
        match decoded {
            Ok(bytes) => digits@.len() % 2 == 0 && all_digits(digits@, 16) && bytes@ == hex_bytes(
                digits@,
            ),
            Err(error) => !(digits@.len() % 2 == 0 && all_digits(digits@, 16)) && is_hex_error(
                vstd::utf8::encode_utf8(digits@),
                error,
            ),
        },
{
    hex::decode(digits).map_err(|error| match error {
        hex::FromHexError::InvalidHexCharacter { c, index } => {
            FromHexError::InvalidHexCharacter { c, index }
        }
        hex::FromHexError::OddLength => FromHexError::OddLength,
        hex::FromHexError::InvalidStringLength => FromHexError::InvalidStringLength,
    })
}

/// Digits are written with one byte each.
pub(crate) proof fn lemma_digits_are_bytes(digits: Seq<char>)
    requires
        all_digits(digits, 16),
    ensures
        vstd::utf8::encode_utf8(digits).len() == digits.len(),
{
    assert(vstd::utf8::is_ascii_chars(digits)) by {
        assert forall|i: int| 0 <= i < digits.len() implies '\0' <= #[trigger] digits[i]
            <= '\u{7f}' by {
            assert(is_digit(digits[i], 16));
        }
    }
    vstd::utf8::is_ascii_chars_encode_utf8(digits);
}

/// The zero that goes before text makes an even number of bytes of an odd one.
proof fn lemma_even_bytes(digits: Seq<char>)
    ensures
        vstd::utf8::encode_utf8(even_digits(digits)).len() % 2 == 0,
{
    let even = even_digits(digits);
    if vstd::utf8::encode_utf8(digits).len() % 2 == 1 {
        assert(even.drop_first() =~= digits);
        assert(vstd::utf8::encode_utf8(even) == vstd::utf8::encode_scalar(even[0] as u32)
            + vstd::utf8::encode_utf8(digits));
        assert(even[0] == '0');
        assert(vstd::utf8::encode_scalar(even[0] as u32).len() == 1);
    }
}

/// Reads the bytes of a field element that is written in hexadecimal.
pub fn decode_hex_felt(hex: &str) -> (decoded: Result<Vec<u8>, FromHexError>)
    ensures
        match decoded {
            Ok(bytes) => felt_bytes(hex@) == Some(bytes@),
            Err(error) => {
                &&& felt_bytes(hex@) is None
                &&& error == felt_error(hex@)
                &&& error is InvalidHexCharacter
                &&& is_hex_error(
                    vstd::utf8::encode_utf8(even_digits(without_prefixes(hex@))),
                    error,
                )
            },
        },
{
    let length = hex.unicode_len();
    let mut start: usize = 0;
    assert(hex@.skip(0) =~= hex@);
    while length - start >= 2 && hex.get_char(start) == '0' && hex.get_char(start + 1) == 'x'
        invariant
            start <= length == hex@.len(),
            without_prefixes(hex@.skip(start as int)) == without_prefixes(hex@),
        ensures
            start <= length,
            hex@.skip(start as int) == without_prefixes(hex@),
        decreases length - start,
    {
        assert(hex@.skip(start as int).skip(2) =~= hex@.skip(start + 2));
        start += 2;
    }
    let digits = hex.substring_char(start, length);
    assert(digits@ =~= without_prefixes(hex@));
    proof {
        lemma_even_bytes(digits@);
        if all_digits(digits@, 16) {
            lemma_digits_are_bytes(digits@);
        }
    }
    let decoded = if digits.as_bytes().len() % 2 == 1 {
        let even = String::from_str("0").concat(digits);
        proof {
            reveal_strlit("0");
            assert("0"@ =~= seq!['0']);
            assert(even@ =~= even_digits(digits@));
            if all_digits(even@, 16) {
                assert forall|i: int| 0 <= i < digits@.len() implies is_digit(
                    #[trigger] digits@[i],
                    16,
                ) by {
                    assert(even@[i + 1] == digits@[i]);
                }
            }
        }
        decode_digits(even.as_str())
    } else {
        decode_digits(digits)
    };
    proof {
        if let Err(error) = decoded {
            lemma_hex_error_is_unique(
                vstd::utf8::encode_utf8(even_digits(digits@)),
                error,
            );
        }
    }
    decoded
}

/// Reads a hash of fixed width that is written in hexadecimal.
pub fn decode_hex_hash(hex: &str) -> (decoded: Result<crate::provider::models::Hash, FromHexError>)
    ensures
        match decoded {
            Ok(hash) => felt_bytes(hex@) is Some && hash@ == models::fixed_width(
                felt_bytes(hex@)->0,
            ),
            Err(error) => {
                &&& felt_bytes(hex@) is None
                &&& error == felt_error(hex@)
                &&& error is InvalidHexCharacter
                &&& is_hex_error(
                    vstd::utf8::encode_utf8(even_digits(without_prefixes(hex@))),
                    error,
                )
            },
        },
{
    match decode_hex_felt(hex) {
        Ok(bytes) => Ok(fixed_width_hash(bytes.as_slice())),
        Err(error) => Err(error),
    }
}

/// The number that big-endian bytes stand for.
pub open spec fn bytes_number(bytes: Seq<u8>) -> int
    decreases bytes.len(),
{
    if bytes.len() == 0 {
        0
    } else {
        bytes_number(bytes.drop_last()) * 256 + bytes.last()
    }
}

/// The number that hexadecimal digits stand for is the one that their bytes stand for.
proof fn lemma_hex_bytes_number(digits: Seq<char>)
    requires
        digits.len() % 2 == 0,
        all_digits(digits, 16),
    ensures
        bytes_number(hex_bytes(digits)) == number_of(digits, 16),
    decreases digits.len(),
{
    if digits.len() > 0 {
        let front = digits.drop_last().drop_last();
        let high = digits[digits.len() - 2];
        let low = digits.last();
        assert(is_digit(digits[digits.len() - 2], 16) && is_digit(digits[digits.len() - 1], 16));
        assert forall|i: int| 0 <= i < front.len() implies is_digit(#[trigger] front[i], 16) by {
            assert(front[i] == digits[i]);
        }
        lemma_hex_bytes_number(front);
        assert(hex_bytes(digits).drop_last() =~= hex_bytes(front));
        assert(hex_bytes(digits).last() == 16 * digit_value(high)->0 + digit_value(low)->0);
        assert(number_of(digits.drop_last(), 16) == number_of(front, 16) * 16 + digit_value(
            high,
        )->0);
    }
}

/// A zero before digits, and zero bytes before bytes, do not change the number.
proof fn lemma_leading_zero(digits: Seq<char>)
    ensures
        number_of(seq!['0'] + digits, 16) == number_of(digits, 16),
    decreases digits.len(),
{
    let longer = seq!['0'] + digits;
    if digits.len() > 0 {
        lemma_leading_zero(digits.drop_last());
        assert(longer.drop_last() =~= seq!['0'] + digits.drop_last());
        assert(longer.last() == digits.last());
    } else {
        assert(longer.drop_last() =~= Seq::empty());
        assert(longer.last() == '0');
        assert(number_of(longer.drop_last(), 16) == 0);
    }
}

proof fn lemma_leading_zero_bytes(zeros: nat, bytes: Seq<u8>)
    ensures
        bytes_number(Seq::new(zeros, |i: int| 0u8) + bytes) == bytes_number(bytes),
    decreases zeros + bytes.len(),
{
    let padding = Seq::new(zeros, |i: int| 0u8);
    let longer = padding + bytes;
    if bytes.len() > 0 {
        lemma_leading_zero_bytes(zeros, bytes.drop_last());
        assert(longer.drop_last() =~= padding + bytes.drop_last());
        assert(longer.last() == bytes.last());
    } else if zeros > 0 {
        let fewer = (zeros - 1) as nat;
        lemma_leading_zero_bytes(fewer, bytes);
        assert(longer.drop_last() =~= Seq::new(fewer, |i: int| 0u8) + bytes);
        assert(longer.last() == 0);
    } else {
        assert(longer =~= bytes);
    }
}

/// A hash that fits its width is the number that its digits write, whatever prefixes and
/// leading zeros they are written with.
pub proof fn law_hash_is_the_written_number(hex: Seq<char>)
    requires
        all_digits(without_prefixes(hex), 16),
        without_prefixes(hex).len() <= 2 * models::HASH_WIDTH,
    ensures
        felt_bytes(hex) is Some,
        models::fixed_width(felt_bytes(hex)->0).len() == models::HASH_WIDTH,
        bytes_number(models::fixed_width(felt_bytes(hex)->0)) == number_of(
            without_prefixes(hex),
            16,
        ),
{
    let digits = without_prefixes(hex);
    let even = even_digits(digits);
    let bytes = hex_bytes(even);
    lemma_digits_are_bytes(digits);
    assert(all_digits(even, 16)) by {
        assert forall|i: int| 0 <= i < even.len() implies is_digit(#[trigger] even[i], 16) by {
            if digits.len() % 2 == 1 && i > 0 {
                assert(even[i] == digits[i - 1]);
            }
        }
    }
    if digits.len() % 2 == 1 {
        lemma_leading_zero(digits);
    }
    lemma_hex_bytes_number(even);
    let zeros = (models::HASH_WIDTH - bytes.len()) as nat;
    lemma_leading_zero_bytes(zeros, bytes);
    assert(models::fixed_width(bytes) =~= Seq::new(zeros, |i: int| 0u8) + bytes);
}

/// As many bytes that stand for one number are the same bytes.
proof fn lemma_same_number_same_bytes(a: Seq<u8>, b: Seq<u8>)
    requires
        a.len() == b.len(),
        bytes_number(a) == bytes_number(b),
    ensures
        a == b,
    decreases a.len(),
{
    if a.len() > 0 {
        lemma_same_number_same_bytes(a.drop_last(), b.drop_last());
        assert(a =~= a.drop_last().push(a.last()));
        assert(b =~= b.drop_last().push(b.last()));
    } else {
        assert(a =~= b);
    }
}

/// The hash that is read from text is the hash of the field element with that number: the
/// two ways to a cursor give one cursor.
pub proof fn law_read_hash_is_the_felt_hash(hex: Seq<char>, value: FieldElement)
    requires
        all_digits(without_prefixes(hex), 16),
        without_prefixes(hex).len() <= 2 * models::HASH_WIDTH,
        number_of(without_prefixes(hex), 16) == bytes_number(value.bytes@),
    ensures
        felt_bytes(hex) is Some,
        models::fixed_width(felt_bytes(hex)->0) == value.bytes@,
{
    law_hash_is_the_written_number(hex);
    lemma_same_number_same_bytes(models::fixed_width(felt_bytes(hex)->0), value.bytes@);
}

/// Of more digits than a hash has room for, the last ones count.
pub proof fn law_hash_keeps_the_last_digits(hex: Seq<char>)
    requires
        all_digits(without_prefixes(hex), 16),
        without_prefixes(hex).len() >= 2 * models::HASH_WIDTH,
    ensures
        felt_bytes(hex) is Some,
        models::fixed_width(felt_bytes(hex)->0) == hex_bytes(
            without_prefixes(hex).skip(without_prefixes(hex).len() - 2 * models::HASH_WIDTH),
        ),
{
    let digits = without_prefixes(hex);
    let even = even_digits(digits);
    lemma_digits_are_bytes(digits);
    let kept = digits.skip(digits.len() - 2 * models::HASH_WIDTH);
    let extra = even.len() - kept.len();
    let long = hex_bytes(even);
    let short = hex_bytes(kept);
    assert forall|i: int| 0 <= i < short.len() implies #[trigger] short[i] == long[extra / 2
        + i] by {
        assert(kept[2 * i] == even[extra + 2 * i]);
        assert(kept[2 * i + 1] == even[extra + 2 * i + 1]);
        assert(2 * (extra / 2 + i) == extra + 2 * i);
    }
    assert(models::fixed_width(long) =~= short);
}

/// The hexadecimal digit of a number below 16, in lower case.
pub open spec fn hex_digit(value: int) -> char {
    seq!['0', '1', '2', '3', '4', '5', '6', '7', '8', '9', 'a', 'b', 'c', 'd', 'e', 'f'][value]
}

/// The hexadecimal digits of a number, most significant first, without leading zeros.
pub open spec fn hex_digits(number: int) -> Seq<char>
    decreases number,
{
    if number < 16 {
        seq![hex_digit(number)]
    } else {
        hex_digits(number / 16).push(hex_digit(number % 16))
    }
}

/// The prime that field elements are counted modulo.
pub open spec fn field_prime() -> int {
    0x0800000000000011000000000000000000000000000000000000000000000001int
}

/// The text that a field element is written as: its number in hexadecimal, after `0x`.
pub open spec fn felt_text(felt: FieldElement) -> Seq<char> {
    "0x"@ + hex_digits(bytes_number(felt.bytes@) % field_prime())
}

/// A number is what its digits stand for.
pub(crate) proof fn lemma_hex_digits_number(number: int)
    requires
        0 <= number,
    ensures
        hex_digits(number).len() > 0,
        all_digits(hex_digits(number), 16),
        number_of(hex_digits(number), 16) == number,
    decreases number,
{
    let digits = hex_digits(number);
    let value = number % 16;
    assert(digit_value(hex_digit(value)) == Some(value));
    assert(digits.last() == hex_digit(value));
    if number < 16 {
        assert(digits.drop_last() =~= Seq::empty());
        assert(number_of(digits.drop_last(), 16) == 0);
    } else {
        lemma_hex_digits_number(number / 16);
        assert(digits.drop_last() =~= hex_digits(number / 16));
        assert forall|i: int| 0 <= i < digits.len() implies is_digit(#[trigger] digits[i], 16) by {
            if i < digits.len() - 1 {
                assert(digits[i] == hex_digits(number / 16)[i]);
            }
        }
    }
}

/// The number of some bytes has no more than two digits for each.
pub(crate) proof fn lemma_hex_digits_fit(bytes: Seq<u8>)
    requires
        bytes.len() > 0,
    ensures
        bytes_number(bytes) >= 0,
        hex_digits(bytes_number(bytes)).len() <= 2 * bytes.len(),
    decreases bytes.len(),
{
    let front = bytes.drop_last();
    let number = bytes_number(bytes);
    if front.len() == 0 {
        assert(bytes_number(front) == 0);
        assert(number == bytes.last());
        reveal_with_fuel(hex_digits, 3);
    } else {
        lemma_hex_digits_fit(front);
        let high = bytes_number(front);
        assert(number == high * 256 + bytes.last());
        reveal_with_fuel(hex_digits, 3);
        assert(number / 16 / 16 == high);
    }
}

/// A field element is read back from the text that it is written as.
pub proof fn law_written_felt_is_read_back(felt: FieldElement)
    requires
        bytes_number(felt.bytes@) < field_prime(),
    ensures
        felt_bytes(felt_text(felt)) is Some,
        models::fixed_width(felt_bytes(felt_text(felt))->0) == felt.bytes@,
{
    let number = bytes_number(felt.bytes@);
    let text = felt_text(felt);
    let digits = hex_digits(number);
    lemma_hex_digits_fit(felt.bytes@);
    lemma_hex_digits_number(number);
    assert(number % field_prime() == number) by (nonlinear_arith)
        requires
            0 <= number < field_prime(),
    ;
    reveal_strlit("0x");
    assert(text[0] == '0' && text[1] == 'x');
    assert(text.skip(2) =~= digits);
    assert(without_prefixes(digits) == digits) by {
        if digits.len() >= 2 {
            assert(is_digit(digits[1], 16));
        }
    }
    assert(without_prefixes(text) == digits);
    law_read_hash_is_the_felt_hash(text, felt);
}

} // verus!
