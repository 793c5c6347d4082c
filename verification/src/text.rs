//! Numbers as text: decimal and hexadecimal digits.

use vstd::prelude::*;
use vstd::string::{StrSliceExecFns, StringExecFns, StringSliceAdditionalSpecFns};
use vstd::utf8::{decode_utf8, encode_utf8, encode_utf8_decode_utf8};

verus! {

/// The character of a hexadecimal digit, lower case; of a decimal digit
/// where `d` is under 10.
pub open spec fn digit_char(d: int) -> char {
    if d == 0 {
        '0'
    } else if d == 1 {
        '1'
    } else if d == 2 {
        '2'
    } else if d == 3 {
        '3'
    } else if d == 4 {
        '4'
    } else if d == 5 {
        '5'
    } else if d == 6 {
        '6'
    } else if d == 7 {
        '7'
    } else if d == 8 {
        '8'
    } else if d == 9 {
        '9'
    } else if d == 10 {
        'a'
    } else if d == 11 {
        'b'
    } else if d == 12 {
        'c'
    } else if d == 13 {
        'd'
    } else if d == 14 {
        'e'
    } else {
        'f'
    }
}

/// A number in decimal, without leading zeros.
pub open spec fn decimal_text(n: nat) -> Seq<char>
    decreases n,
{
    if n < 10 {
        seq![digit_char(n as int)]
    } else {
        decimal_text(n / 10).push(digit_char((n % 10) as int))
    }
}

/// The `count` lowest hexadecimal digits of a number, highest first.
pub open spec fn hex_text(x: u64, count: nat) -> Seq<char>
    decreases count,
{
    if count == 0 {
        Seq::empty()
    } else {
        hex_text(x / 16, (count - 1) as nat).push(digit_char((x % 16) as int))
    }
}

/// One digit as text.
fn digit_str(d: u8) -> (s: &'static str)
    requires
        d < 16,
    ensures
        s@ == seq![digit_char(d as int)],
{
    let s = if d == 0 {
        "0"
    } else if d == 1 {
        "1"
    } else if d == 2 {
        "2"
    } else if d == 3 {
        "3"
    } else if d == 4 {
        "4"
    } else if d == 5 {
        "5"
    } else if d == 6 {
        "6"
    } else if d == 7 {
        "7"
    } else if d == 8 {
        "8"
    } else if d == 9 {
        "9"
    } else if d == 10 {
        "a"
    } else if d == 11 {
        "b"
    } else if d == 12 {
        "c"
    } else if d == 13 {
        "d"
    } else if d == 14 {
        "e"
    } else {
        "f"
    };
    proof {
        reveal_strlit("0");
        reveal_strlit("1");
        reveal_strlit("2");
        reveal_strlit("3");
        reveal_strlit("4");
        reveal_strlit("5");
        reveal_strlit("6");
        reveal_strlit("7");
        reveal_strlit("8");
        reveal_strlit("9");
        reveal_strlit("a");
        reveal_strlit("b");
        reveal_strlit("c");
        reveal_strlit("d");
        reveal_strlit("e");
        reveal_strlit("f");
        assert(s@ =~= seq![digit_char(d as int)]);
    }
    s
}

/// Writes a number in decimal.
pub fn to_decimal(n: u64) -> (text: String)
    ensures
        text@ == decimal_text(n as nat),
    decreases n,
{
    if n < 10 {
        String::from_str(digit_str(n as u8))
    } else {
        let mut text = to_decimal(n / 10);
        text.append(digit_str((n % 10) as u8));
        text
    }
}

/// Writes the `count` lowest hexadecimal digits of a number, in lower case
/// and with leading zeros.
pub fn to_hex(x: u64, count: u8) -> (text: String)
    ensures
        text@ == hex_text(x, count as nat),
    decreases count,
{
    if count == 0 {
        String::new()
    } else {
        let mut text = to_hex(x / 16, count - 1);
        text.append(digit_str((x % 16) as u8));
        text
    }
}

/// A number in hexadecimal, lower case, without leading zeros.
pub open spec fn hex_min_text(x: nat) -> Seq<char>
    decreases x,
{
    if x < 16 {
        seq![digit_char(x as int)]
    } else {
        hex_min_text(x / 16).push(digit_char((x % 16) as int))
    }
}

/// Writes a number in hexadecimal, lower case, without leading zeros.
pub fn to_hex_min(x: u64) -> (text: String)
    ensures
        text@ == hex_min_text(x as nat),
    decreases x,
{
    if x < 16 {
        String::from_str(digit_str(x as u8))
    } else {
        let mut text = to_hex_min(x / 16);
        text.append(digit_str((x % 16) as u8));
        text
    }
}

/// What each of a list of strings holds.
pub open spec fn texts(strings: Seq<String>) -> Seq<Seq<char>> {
    strings.map_values(|s: String| s@)
}

/// A character that Unicode counts as white space.
pub uninterp spec fn unicode_white_space(c: char) -> bool;

/// `char::is_whitespace` tells whether a character has the property
/// White_Space of Unicode. The contract names the result.
pub assume_specification[ char::is_whitespace ](c: char) -> (yes: bool)
    ensures
        yes == unicode_white_space(c),
;

/// A text without the white space at its start.
pub open spec fn without_leading_space(text: Seq<char>) -> Seq<char>
    decreases text.len(),
{
    if text.len() > 0 && unicode_white_space(text.first()) {
        without_leading_space(text.drop_first())
    } else {
        text
    }
}

/// A text without the white space at its end.
pub open spec fn without_trailing_space(text: Seq<char>) -> Seq<char>
    decreases text.len(),
{
    if text.len() > 0 && unicode_white_space(text.last()) {
        without_trailing_space(text.drop_last())
    } else {
        text
    }
}

/// A text without the white space at its start and at its end.
pub open spec fn trimmed_text(text: Seq<char>) -> Seq<char> {
    without_trailing_space(without_leading_space(text))
}

/// `str::trim` returns the slice without leading and trailing white space,
/// white space being what has the property White_Space of Unicode.
pub assume_specification[ str::trim ](text: &str) -> (trimmed: &str)
    ensures
        trimmed@ == trimmed_text(text@),
;

/// Every character of a text is white space.
pub open spec fn all_white_space(text: Seq<char>) -> bool {
    forall|i: int| 0 <= i < text.len() ==> unicode_white_space(#[trigger] text[i])
}

/// What is left without leading white space is empty where all was white
/// space, and else starts with a character that is none.
pub proof fn leading_space_goes(text: Seq<char>)
    ensures
        without_leading_space(text).len() == 0 <==> all_white_space(text),
        without_leading_space(text).len() > 0 ==> !unicode_white_space(
            without_leading_space(text).first(),
        ),
    decreases text.len(),
{
    if text.len() > 0 && unicode_white_space(text.first()) {
        let rest = text.drop_first();
        leading_space_goes(rest);
        if all_white_space(rest) {
            assert forall|i: int| 0 <= i < text.len() implies unicode_white_space(
                #[trigger] text[i],
            ) by {
                if i > 0 {
                    assert(text[i] == rest[i - 1]);
                }
            }
        }
        if all_white_space(text) {
            assert forall|i: int| 0 <= i < rest.len() implies unicode_white_space(
                #[trigger] rest[i],
            ) by {
                assert(rest[i] == text[i + 1]);
            }
        }
    } else if text.len() > 0 {
        assert(text[0] == text.first());
    }
}

/// What is left without trailing white space is empty where all was white
/// space, and only there.
pub proof fn trailing_space_goes(text: Seq<char>)
    ensures
        without_trailing_space(text).len() == 0 <==> all_white_space(text),
    decreases text.len(),
{
    if text.len() > 0 && unicode_white_space(text.last()) {
        let rest = text.drop_last();
        trailing_space_goes(rest);
        if all_white_space(rest) {
            assert forall|i: int| 0 <= i < text.len() implies unicode_white_space(
                #[trigger] text[i],
            ) by {
                if i < text.len() - 1 {
                    assert(text[i] == rest[i]);
                }
            }
        }
        if all_white_space(text) {
            assert forall|i: int| 0 <= i < rest.len() implies unicode_white_space(
                #[trigger] rest[i],
            ) by {
                assert(rest[i] == text[i]);
            }
        }
    } else if text.len() > 0 {
        assert(text[text.len() - 1] == text.last());
    }
}

/// A text trims to nothing exactly where all of it is white space.
pub proof fn blank_text_trims_to_nothing(text: Seq<char>)
    ensures
        trimmed_text(text).len() == 0 <==> all_white_space(text),
{
    let inner = without_leading_space(text);
    leading_space_goes(text);
    trailing_space_goes(inner);
    if inner.len() > 0 {
        assert(inner[0] == inner.first());
    }
}

/// A text that neither starts nor ends with white space is its own trim.
pub proof fn clean_text_is_its_own_trim(text: Seq<char>)
    requires
        text.len() > 0 ==> !unicode_white_space(text.first()) && !unicode_white_space(text.last()),
    ensures
        trimmed_text(text) == text,
{
}

/// Tells whether a text is empty but for white space: whether it trims to
/// nothing.
pub fn is_blank(text: &str) -> (blank: bool)
    ensures
        blank == (trimmed_text(text@).len() == 0),
        blank == all_white_space(text@),
{
    proof {
        blank_text_trims_to_nothing(text@);
    }
    let count = text.unicode_len();
    let mut i: usize = 0;
    while i < count
        invariant
            i <= count,
            count == text@.len(),
            forall|k: int| 0 <= k < i ==> unicode_white_space(#[trigger] text@[k]),
            trimmed_text(text@).len() == 0 <==> all_white_space(text@),
        decreases count - i,
    {
        if !text.get_char(i).is_whitespace() {
            assert(!unicode_white_space(text@[i as int]));
            return false;
        }
        i = i + 1;
    }
    true
}

/// A text in lower case, as Unicode defines it.
pub uninterp spec fn lowercase_text(text: Seq<char>) -> Seq<char>;

/// `str::to_lowercase` returns the lower-case equivalent of a string. The
/// contract names the result.
pub assume_specification[ str::to_lowercase ](text: &str) -> (lower: String)
    ensures
        lower@ == lowercase_text(text@),
;

/// `needle` occurs in `haystack` as a run of characters.
pub open spec fn occurs_in(needle: Seq<char>, haystack: Seq<char>) -> bool {
    exists|i: int|
        0 <= i && i + needle.len() <= haystack.len() && #[trigger] haystack.subrange(
            i,
            i + needle.len(),
        ) == needle
}

/// Calls `str::contains` with a string as the pattern, which tells whether
/// the pattern matches a sub-slice of the string.
#[verifier::external_body]
pub(crate) fn str_contains(haystack: &str, needle: &str) -> (found: bool)
    ensures
        found == occurs_in(needle@, haystack@),
{
    haystack.contains(needle)
}

/// A number in decimal, with a minus sign where it is negative.
pub open spec fn signed_decimal_text(value: int) -> Seq<char> {
    if value < 0 {
        seq!['-'] + decimal_text((-value) as nat)
    } else {
        decimal_text(value as nat)
    }
}

/// Writes a number in decimal, with a minus sign where it is negative.
pub fn to_signed_decimal(value: i64) -> (text: String)
    ensures
        text@ == signed_decimal_text(value as int),
{
    if value < 0 {
        let magnitude: u64 = (-(value as i128)) as u64;
        let mut text = String::from_str("-");
        proof {
            reveal_strlit("-");
            assert("-"@ =~= seq!['-']);
        }
        text.append(to_decimal(magnitude).as_str());
        text
    } else {
        to_decimal(value as u64)
    }
}

/// The digest that std's default hasher gives a text.
pub uninterp spec fn text_digest(text: Seq<char>) -> u64;

/// Hashes a text with `BuildHasher::hash_one` of std's default hasher, which
/// feeds the bytes of the string to a hasher with fixed keys. The contract
/// names the result.
#[verifier::external_body]
pub(crate) fn hash_text(text: &str) -> (digest: u64)
    ensures
        digest == text_digest(text@),
{
    std::hash::BuildHasher::hash_one(
        &std::hash::BuildHasherDefault::<std::collections::hash_map::DefaultHasher>::default(),
        text,
    )
}

/// Bytes in hexadecimal: two lower-case digits for each, the higher first.
pub open spec fn hex_of_bytes(bytes: Seq<u8>) -> Seq<char>
    decreases bytes.len(),
{
    if bytes.len() == 0 {
        Seq::empty()
    } else {
        hex_of_bytes(bytes.drop_last()).push(digit_char(bytes.last() as int / 16)).push(
            digit_char(bytes.last() as int % 16),
        )
    }
}

/// Hexadecimal text is twice as long as the bytes.
pub proof fn hex_of_bytes_len(bytes: Seq<u8>)
    ensures
        hex_of_bytes(bytes).len() == 2 * bytes.len(),
    decreases bytes.len(),
{
    if bytes.len() > 0 {
        hex_of_bytes_len(bytes.drop_last());
    }
}

/// Calls `hex::encode`, which writes each byte as two lower-case
/// hexadecimal digits, the higher first.
#[verifier::external_body]
pub(crate) fn hex_encode(bytes: &[u8]) -> (text: String)
    ensures
        text@ == hex_of_bytes(bytes@),
{
    hex::encode(bytes)
}

/// Tells whether two strings hold the same text.
pub fn str_eq(a: &str, b: &str) -> (same: bool)
    ensures
        same == (a@ == b@),
{
    let x = a.as_bytes();
    let y = b.as_bytes();
    proof {
        encode_utf8_decode_utf8(a@);
        encode_utf8_decode_utf8(b@);
    }
    if x.len() != y.len() {
        return false;
    }
    let mut i: usize = 0;
    while i < x.len()
        invariant
            i <= x@.len(),
            x@.len() == y@.len(),
            x@.subrange(0, i as int) == y@.subrange(0, i as int),
            x@ == encode_utf8(a@),
            y@ == encode_utf8(b@),
            decode_utf8(encode_utf8(a@)) == a@,
            decode_utf8(encode_utf8(b@)) == b@,
        decreases x@.len() - i,
    {
        if x[i] != y[i] {
            assert(x@ != y@);
            return false;
        }
        assert(x@.subrange(0, i + 1) =~= x@.subrange(0, i as int).push(x@[i as int]));
        assert(y@.subrange(0, i + 1) =~= y@.subrange(0, i as int).push(y@[i as int]));
        i = i + 1;
    }
    assert(x@ =~= x@.subrange(0, i as int));
    assert(y@ =~= y@.subrange(0, i as int));
    true
}

/// A lower-case letter of ASCII.
pub open spec fn is_lower(c: char) -> bool {
    'a' <= c <= 'z'
}

/// An upper-case letter of ASCII.
pub open spec fn is_upper(c: char) -> bool {
    'A' <= c <= 'Z'
}

/// A digit of ASCII.
pub open spec fn is_digit(c: char) -> bool {
    '0' <= c <= '9'
}

/// A character that Unicode counts as alphabetic or numeric.
pub uninterp spec fn unicode_alphanumeric(c: char) -> bool;

/// `char::is_alphanumeric` tells whether Unicode counts a character as
/// alphabetic or numeric. The contract names the result.
pub assume_specification[ char::is_alphanumeric ](c: char) -> (yes: bool)
    ensures
        yes == unicode_alphanumeric(c),
;

/// A symbol: a character that is neither a letter nor a number.
pub open spec fn is_symbol(c: char) -> bool {
    !unicode_alphanumeric(c)
}

/// The classes of character that a text draws on.
#[derive(Debug, Clone, Copy, PartialEq, Eq, Structural)]
pub struct CharClasses {
    pub lowercase: bool,
    pub uppercase: bool,
    pub digits: bool,
    pub symbols: bool,
}

/// The classes of character that occur in a text.
pub open spec fn classes_of(text: Seq<char>) -> CharClasses {
    CharClasses {
        lowercase: exists|i: int| 0 <= i < text.len() && is_lower(#[trigger] text[i]),
        uppercase: exists|i: int| 0 <= i < text.len() && is_upper(#[trigger] text[i]),
        digits: exists|i: int| 0 <= i < text.len() && is_digit(#[trigger] text[i]),
        symbols: exists|i: int| 0 <= i < text.len() && is_symbol(#[trigger] text[i]),
    }
}

impl CharClasses {
    /// The number of classes that occur.
    pub open spec fn variety_spec(self) -> nat {
        (if self.lowercase {
            1nat
        } else {
            0nat
        }) + (if self.uppercase {
            1nat
        } else {
            0nat
        }) + (if self.digits {
            1nat
        } else {
            0nat
        }) + (if self.symbols {
            1nat
        } else {
            0nat
        })
    }

    /// The size of the alphabet that the classes span: 26 for each case of
    /// letter, 10 for digits, 32 for symbols.
    pub open spec fn charset_size_spec(self) -> nat {
        (if self.lowercase {
            26nat
        } else {
            0nat
        }) + (if self.uppercase {
            26nat
        } else {
            0nat
        }) + (if self.digits {
            10nat
        } else {
            0nat
        }) + (if self.symbols {
            32nat
        } else {
            0nat
        })
    }

    /// The number of classes that occur.
    pub fn variety(&self) -> (count: u32)
        ensures
            count == self.variety_spec(),
            count <= 4,
    {
        let mut count: u32 = 0;
        if self.lowercase {
            count = count + 1;
        }
        if self.uppercase {
            count = count + 1;
        }
        if self.digits {
            count = count + 1;
        }
        if self.symbols {
            count = count + 1;
        }
        count
    }

    /// The size of the alphabet that the classes span.
    pub fn charset_size(&self) -> (size: u32)
        ensures
            size == self.charset_size_spec(),
            size <= 94,
    {
        let mut size: u32 = 0;
        if self.lowercase {
            size = size + 26;
        }
        if self.uppercase {
            size = size + 26;
        }
        if self.digits {
            size = size + 10;
        }
        if self.symbols {
            size = size + 32;
        }
        size
    }
}

/// Finds the classes of character that occur in a text.
pub fn char_classes(text: &str) -> (classes: CharClasses)
    ensures
        classes == classes_of(text@),
{
    let count = text.unicode_len();
    let mut classes = CharClasses {
        lowercase: false,
        uppercase: false,
        digits: false,
        symbols: false,
    };
    let mut i: usize = 0;
    while i < count
        invariant
            i <= count,
            count == text@.len(),
            classes == classes_of(text@.subrange(0, i as int)),
        decreases count - i,
    {
        let c = text.get_char(i);
        let ghost before = text@.subrange(0, i as int);
        let ghost after = text@.subrange(0, i + 1);
        proof {
            assert(after =~= before.push(c));
            assert forall|k: int| 0 <= k < before.len() implies before[k] == after[k] by {}
            assert(after[i as int] == c);
            let next = CharClasses {
                lowercase: classes.lowercase || is_lower(c),
                uppercase: classes.uppercase || is_upper(c),
                digits: classes.digits || is_digit(c),
                symbols: classes.symbols || is_symbol(c),
            };
            if classes.lowercase {
                let k = choose|k: int| 0 <= k < before.len() && is_lower(#[trigger] before[k]);
                assert(is_lower(after[k]));
            }
            if classes.uppercase {
                let k = choose|k: int| 0 <= k < before.len() && is_upper(#[trigger] before[k]);
                assert(is_upper(after[k]));
            }
            if classes.digits {
                let k = choose|k: int| 0 <= k < before.len() && is_digit(#[trigger] before[k]);
                assert(is_digit(after[k]));
            }
            if classes.symbols {
                let k = choose|k: int| 0 <= k < before.len() && is_symbol(#[trigger] before[k]);
                assert(is_symbol(after[k]));
            }
            if classes_of(after).lowercase && !is_lower(c) {
                let k = choose|k: int| 0 <= k < after.len() && is_lower(#[trigger] after[k]);
                assert(is_lower(before[k]));
            }
            if classes_of(after).uppercase && !is_upper(c) {
                let k = choose|k: int| 0 <= k < after.len() && is_upper(#[trigger] after[k]);
                assert(is_upper(before[k]));
            }
            if classes_of(after).digits && !is_digit(c) {
                let k = choose|k: int| 0 <= k < after.len() && is_digit(#[trigger] after[k]);
                assert(is_digit(before[k]));
            }
            if classes_of(after).symbols && !is_symbol(c) {
                let k = choose|k: int| 0 <= k < after.len() && is_symbol(#[trigger] after[k]);
                assert(is_symbol(before[k]));
            }
            assert(next == classes_of(after));
        }
        if c >= 'a' && c <= 'z' {
            classes.lowercase = true;
        }
        if c >= 'A' && c <= 'Z' {
            classes.uppercase = true;
        }
        if c >= '0' && c <= '9' {
            classes.digits = true;
        }
        if !c.is_alphanumeric() {
            classes.symbols = true;
        }
        i = i + 1;
    }
    assert(text@.subrange(0, i as int) =~= text@);
    classes
}

/// The lowest byte of a character's code.
pub open spec fn low_byte(c: char) -> int {
    (c as u32) as int % 256
}

/// Three characters from `i` on whose low bytes rise by one each.
pub open spec fn sequential_at(text: Seq<char>, i: int) -> bool {
    &&& low_byte(text[i]) + 1 == low_byte(text[i + 1])
    &&& low_byte(text[i + 1]) + 1 == low_byte(text[i + 2])
}

/// Three characters from `i` on that are the same.
pub open spec fn repeated_at(text: Seq<char>, i: int) -> bool {
    text[i] == text[i + 1] && text[i + 1] == text[i + 2]
}

/// The text holds a run such as `abc` or `123`.
pub open spec fn has_sequential(text: Seq<char>) -> bool {
    exists|i: int| 0 <= i && i + 2 < text.len() && #[trigger] sequential_at(text, i)
}

/// The text holds a run such as `aaa` or `111`.
pub open spec fn has_repeated(text: Seq<char>) -> bool {
    exists|i: int| 0 <= i && i + 2 < text.len() && #[trigger] repeated_at(text, i)
}

/// Tells whether a text holds three characters in a row whose codes rise by
/// one each.
pub fn has_sequential_chars(text: &str) -> (found: bool)
    ensures
        found == has_sequential(text@),
{
    let count = text.unicode_len();
    if count < 3 {
        return false;
    }
    let mut i: usize = 0;
    while i + 2 < count
        invariant
            count == text@.len(),
            count >= 3,
            i + 2 <= count,
            forall|k: int| 0 <= k < i ==> !#[trigger] sequential_at(text@, k),
        decreases count - i,
    {
        let a: u32 = (text.get_char(i) as u32) % 256;
        let b: u32 = (text.get_char(i + 1) as u32) % 256;
        let c: u32 = (text.get_char(i + 2) as u32) % 256;
        if a + 1 == b && b + 1 == c {
            assert(sequential_at(text@, i as int));
            return true;
        }
        i = i + 1;
    }
    false
}

/// Tells whether a text holds the same character three times in a row.
pub fn has_repeated_chars(text: &str) -> (found: bool)
    ensures
        found == has_repeated(text@),
{
    let count = text.unicode_len();
    if count < 3 {
        return false;
    }
    let mut i: usize = 0;
    while i + 2 < count
        invariant
            count == text@.len(),
            count >= 3,
            i + 2 <= count,
            forall|k: int| 0 <= k < i ==> !#[trigger] repeated_at(text@, k),
        decreases count - i,
    {
        let a = text.get_char(i);
        let b = text.get_char(i + 1);
        let c = text.get_char(i + 2);
        if a == b && b == c {
            assert(repeated_at(text@, i as int));
            return true;
        }
        i = i + 1;
    }
    false
}

/// The length of a text in bytes of UTF-8.
pub open spec fn byte_len(text: Seq<char>) -> nat {
    encode_utf8(text).len()
}

/// The length of a text in bytes.
pub fn byte_length(text: &str) -> (len: usize)
    ensures
        len == byte_len(text@),
{
    text.as_bytes().len()
}

/// `text` starts with `prefix`.
pub open spec fn has_prefix(text: Seq<char>, prefix: Seq<char>) -> bool {
    prefix.len() <= text.len() && text.subrange(0, prefix.len() as int) == prefix
}

/// Tells whether a text starts with a prefix.
pub fn starts_with(text: &str, prefix: &str) -> (yes: bool)
    ensures
        yes == has_prefix(text@, prefix@),
{
    let count = prefix.unicode_len();
    if text.unicode_len() < count {
        return false;
    }
    let mut i: usize = 0;
    while i < count
        invariant
            i <= count,
            count == prefix@.len(),
            count <= text@.len(),
            text@.subrange(0, i as int) == prefix@.subrange(0, i as int),
        decreases count - i,
    {
        if text.get_char(i) != prefix.get_char(i) {
            assert(text@.subrange(0, count as int)[i as int] != prefix@[i as int]);
            return false;
        }
        assert(text@.subrange(0, i + 1) =~= text@.subrange(0, i as int).push(text@[i as int]));
        assert(prefix@.subrange(0, i + 1) =~= prefix@.subrange(0, i as int).push(
            prefix@[i as int],
        ));
        i = i + 1;
    }
    assert(prefix@.subrange(0, i as int) =~= prefix@);
    true
}

} // verus!
