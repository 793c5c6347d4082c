//! The envelope of a vault file: the salt and the serialized entries in one
//! frame, padded and sealed under the key that password and salt derive.

use crate::crypto::{
    can_derive, can_encrypt, constant_time_eq, decrypt, decryption, derivable, derive_key_timed,
    derived_key, encrypt, encryptable, is_derivation_advice, is_encryption_of, wipe_key,
    Argon2Config, CryptoError, Decryption, NONCE_SIZE,
};
use vstd::prelude::*;
use vstd::slice::{slice_subrange, slice_to_vec};
use vstd::string::StringExecFns;

verus! {

/// The frame that holds a salt and the serialized entries: a JSON object
/// with the salt as a list of numbers and the entries as they are given,
/// without white space.
pub open spec fn frame(salt: Seq<u8>, entries: Seq<u8>) -> Seq<u8> {
    frame_head() + number_list(salt) + frame_middle() + entries + seq![125u8]
}

/// `{"salt":[`
pub open spec fn frame_head() -> Seq<u8> {
    seq![123u8, 34u8, 115u8, 97u8, 108u8, 116u8, 34u8, 58u8, 91u8]
}

/// `],"entries":`
pub open spec fn frame_middle() -> Seq<u8> {
    seq![93u8, 44u8, 34u8, 101u8, 110u8, 116u8, 114u8, 105u8, 101u8, 115u8, 34u8, 58u8]
}

/// A number up to 255 in decimal digits.
pub open spec fn decimal_bytes(value: u8) -> Seq<u8> {
    if value < 10 {
        seq![(48 + value) as u8]
    } else if value < 100 {
        seq![(48 + value / 10) as u8, (48 + value % 10) as u8]
    } else {
        seq![(48 + value / 100) as u8, (48 + (value / 10) % 10) as u8, (48 + value % 10) as u8]
    }
}

/// Numbers in decimal, with commas between them.
pub open spec fn number_list(values: Seq<u8>) -> Seq<u8>
    decreases values.len(),
{
    if values.len() == 0 {
        Seq::empty()
    } else if values.len() == 1 {
        decimal_bytes(values[0])
    } else {
        decimal_bytes(values[0]) + seq![44u8] + number_list(values.drop_first())
    }
}

/// A decimal digit.
pub open spec fn is_digit_byte(b: u8) -> bool {
    48 <= b <= 57
}

/// The number that a frame holds at `pos`, in one to three digits without
/// a leading zero, and the place behind it.
pub open spec fn number_at(bytes: Seq<u8>, pos: int) -> Option<(u8, int)> {
    if pos < 0 || pos >= bytes.len() || !is_digit_byte(bytes[pos]) {
        None
    } else if pos + 1 >= bytes.len() || !is_digit_byte(bytes[pos + 1]) {
        Some(((bytes[pos] - 48) as u8, pos + 1))
    } else if bytes[pos] == 48 {
        None
    } else if pos + 2 >= bytes.len() || !is_digit_byte(bytes[pos + 2]) {
        Some((((bytes[pos] - 48) * 10 + (bytes[pos + 1] - 48)) as u8, pos + 2))
    } else if pos + 3 < bytes.len() && is_digit_byte(bytes[pos + 3]) {
        None
    } else {
        let value = (bytes[pos] - 48) * 100 + (bytes[pos + 1] - 48) * 10 + (bytes[pos + 2] - 48);
        if value > 255 {
            None
        } else {
            Some((value as u8, pos + 3))
        }
    }
}

/// The numbers that a frame lists from `pos` up to a closing bracket, with
/// commas between them, and the place of the bracket.
pub open spec fn numbers_at(bytes: Seq<u8>, pos: int) -> Option<(Seq<u8>, int)>
    decreases bytes.len() - pos,
{
    match number_at(bytes, pos) {
        None => None,
        Some((value, end)) => {
            if end >= bytes.len() {
                None
            } else if bytes[end] == 93 {
                Some((seq![value], end))
            } else if bytes[end] == 44 {
                match numbers_at(bytes, end + 1) {
                    Some((rest, close)) => Some((seq![value] + rest, close)),
                    None => None,
                }
            } else {
                None
            }
        },
    }
}

/// The list of numbers that starts at `pos`, which may be empty, and the
/// place of the bracket that closes it.
pub open spec fn list_at(bytes: Seq<u8>, pos: int) -> Option<(Seq<u8>, int)> {
    if 0 <= pos < bytes.len() && bytes[pos] == 93 {
        Some((Seq::empty(), pos))
    } else {
        numbers_at(bytes, pos)
    }
}

/// `bytes` holds `part` from `pos` on.
pub open spec fn holds_at(bytes: Seq<u8>, pos: int, part: Seq<u8>) -> bool {
    0 <= pos && pos + part.len() <= bytes.len() && bytes.subrange(pos, pos + part.len()) == part
}

/// The salt and the serialized entries that a frame holds; `None` where the
/// bytes are no frame.
pub open spec fn parse_frame(bytes: Seq<u8>) -> Option<(Seq<u8>, Seq<u8>)> {
    if !holds_at(bytes, 0, frame_head()) {
        None
    } else {
        match list_at(bytes, 9) {
            None => None,
            Some((salt, close)) => {
                if holds_at(bytes, close, frame_middle()) && close + 12 < bytes.len()
                    && bytes.last() == 125 {
                    Some((salt, bytes.subrange(close + 12, bytes.len() - 1)))
                } else {
                    None
                }
            },
        }
    }
}

/// A number in decimal reads back as itself, whatever follows it, unless a
/// digit follows it.
pub proof fn number_reads_back(value: u8, before: Seq<u8>, after: Seq<u8>)
    requires
        after.len() == 0 || !is_digit_byte(after[0]),
    ensures
        number_at(before + decimal_bytes(value) + after, before.len() as int) == Some(
            (value, (before.len() + decimal_bytes(value).len()) as int),
        ),
{
    let bytes = before + decimal_bytes(value) + after;
    let pos = before.len() as int;
    let digits = decimal_bytes(value);
    assert forall|k: int| 0 <= k < digits.len() implies bytes[pos + k] == digits[k] by {}
    if after.len() > 0 {
        assert(bytes[pos + digits.len()] == after[0]);
    }
}

/// A list of numbers reads back as itself where a closing bracket follows
/// it.
pub proof fn numbers_read_back(values: Seq<u8>, before: Seq<u8>, after: Seq<u8>)
    requires
        values.len() > 0,
        after.len() > 0,
        after[0] == 93,
    ensures
        numbers_at(before + number_list(values) + after, before.len() as int) == Some(
            (values, (before.len() + number_list(values).len()) as int),
        ),
    decreases values.len(),
{
    let bytes = before + number_list(values) + after;
    let pos = before.len() as int;
    let first = decimal_bytes(values[0]);
    if values.len() == 1 {
        number_reads_back(values[0], before, after);
        assert(bytes[pos + first.len()] == after[0]);
        assert(values =~= seq![values[0]]);
    } else {
        let rest = values.drop_first();
        let tail = seq![44u8] + number_list(rest) + after;
        assert(bytes =~= before + first + tail);
        number_reads_back(values[0], before, tail);
        assert(bytes[pos + first.len()] == 44);
        let front = before + first + seq![44u8];
        assert(bytes =~= front + number_list(rest) + after);
        numbers_read_back(rest, front, after);
        assert(values =~= seq![values[0]] + rest);
    }
}

/// A frame reads back as the salt and the entries that it was made of.
pub proof fn frame_reads_back(salt: Seq<u8>, entries: Seq<u8>)
    ensures
        parse_frame(frame(salt, entries)) == Some((salt, entries)),
        frame(salt, entries).len() == 22 + number_list(salt).len() + entries.len(),
        frame(salt, entries)[0] == 123,
{
    let bytes = frame(salt, entries);
    let after = frame_middle() + entries + seq![125u8];
    assert(bytes =~= frame_head() + number_list(salt) + after);
    assert(bytes.subrange(0, 9) =~= frame_head());
    let close = 9 + number_list(salt).len() as int;
    if salt.len() == 0 {
        assert(bytes[9] == after[0]);
    } else {
        numbers_read_back(salt, frame_head(), after);
        number_starts_with_digit(salt);
        assert(bytes[9] == number_list(salt)[0]);
    }
    assert(list_at(bytes, 9) == Some((salt, close)));
    assert(bytes.subrange(close, close + 12) =~= frame_middle());
    assert(bytes.subrange(close + 12, bytes.len() - 1) =~= entries);
}

/// A list of numbers that is not empty starts with a digit.
pub proof fn number_starts_with_digit(values: Seq<u8>)
    requires
        values.len() > 0,
    ensures
        number_list(values).len() > 0,
        is_digit_byte(number_list(values)[0]),
{
    let first = decimal_bytes(values[0]);
    assert(is_digit_byte(first[0]));
    if values.len() > 1 {
        assert(number_list(values)[0] == first[0]);
    }
}

/// Appends a number in decimal.
fn push_decimal(out: &mut Vec<u8>, value: u8)
    ensures
        final(out)@ == old(out)@ + decimal_bytes(value),
{
    if value >= 100 {
        out.push(48 + value / 100);
    }
    if value >= 10 {
        out.push(48 + (value / 10) % 10);
    }
    out.push(48 + value % 10);
    assert(out@ =~= old(out)@ + decimal_bytes(value));
}

/// Builds the frame that holds a salt and the serialized entries.
pub fn build_frame(salt: &[u8], entries: &[u8]) -> (bytes: Vec<u8>)
    ensures
        bytes@ == frame(salt@, entries@),
        parse_frame(bytes@) == Some((salt@, entries@)),
{
    let mut bytes: Vec<u8> = Vec::new();
    bytes.push(123);
    bytes.push(34);
    bytes.push(115);
    bytes.push(97);
    bytes.push(108);
    bytes.push(116);
    bytes.push(34);
    bytes.push(58);
    bytes.push(91);
    assert(bytes@ =~= frame_head());
    let mut i: usize = 0;
    assert(number_list(salt@.subrange(0, 0)) =~= Seq::<u8>::empty());
    while i < salt.len()
        invariant
            i <= salt@.len(),
            bytes@ == frame_head() + number_list(salt@.subrange(0, i as int)),
        decreases salt@.len() - i,
    {
        if i > 0 {
            bytes.push(44);
        }
        push_decimal(&mut bytes, salt[i]);
        proof {
            number_list_grows(salt@.subrange(0, i as int), salt@[i as int]);
            assert(salt@.subrange(0, i + 1) =~= salt@.subrange(0, i as int).push(salt@[i as int]));
            assert(bytes@ =~= frame_head() + number_list(salt@.subrange(0, i + 1)));
        }
        i = i + 1;
    }
    assert(salt@.subrange(0, i as int) =~= salt@);
    bytes.push(93);
    bytes.push(44);
    bytes.push(34);
    bytes.push(101);
    bytes.push(110);
    bytes.push(116);
    bytes.push(114);
    bytes.push(105);
    bytes.push(101);
    bytes.push(115);
    bytes.push(34);
    bytes.push(58);
    assert(bytes@ =~= frame_head() + number_list(salt@) + frame_middle());
    bytes.extend_from_slice(entries);
    bytes.push(125);
    assert(bytes@ =~= frame(salt@, entries@));
    proof {
        frame_reads_back(salt@, entries@);
    }
    bytes
}

/// A list with one more number at its end is the list, a comma where it was
/// not empty, and the number.
pub proof fn number_list_grows(values: Seq<u8>, value: u8)
    ensures
        number_list(values.push(value)) == (if values.len() == 0 {
            decimal_bytes(value)
        } else {
            number_list(values) + seq![44u8] + decimal_bytes(value)
        }),
    decreases values.len(),
{
    let grown = values.push(value);
    if values.len() == 0 {
        assert(grown[0] == value);
    } else if values.len() == 1 {
        assert(grown.drop_first() =~= seq![value]);
        assert(number_list(grown.drop_first()) == decimal_bytes(value));
        assert(number_list(grown) =~= number_list(values) + seq![44u8] + decimal_bytes(value));
    } else {
        number_list_grows(values.drop_first(), value);
        assert(grown.drop_first() =~= values.drop_first().push(value));
        assert(number_list(grown) =~= number_list(values) + seq![44u8] + decimal_bytes(value));
    }
}

/// Reads the number that a frame holds at `pos`.
fn read_number(bytes: &[u8], pos: usize) -> (r: Option<(u8, usize)>)
    ensures
        match r {
            Some((value, end)) => number_at(bytes@, pos as int) == Some((value, end as int)) && pos
                < end <= bytes@.len(),
            None => number_at(bytes@, pos as int) is None,
        },
{
    let len = bytes.len();
    if pos >= len || !(bytes[pos] >= 48 && bytes[pos] <= 57) {
        return None;
    }
    let first: u32 = (bytes[pos] - 48) as u32;
    if pos + 1 >= len || !(bytes[pos + 1] >= 48 && bytes[pos + 1] <= 57) {
        return Some((first as u8, pos + 1));
    }
    if first == 0 {
        return None;
    }
    let second: u32 = (bytes[pos + 1] - 48) as u32;
    if pos + 2 >= len || !(bytes[pos + 2] >= 48 && bytes[pos + 2] <= 57) {
        return Some(((first * 10 + second) as u8, pos + 2));
    }
    if pos + 3 < len && bytes[pos + 3] >= 48 && bytes[pos + 3] <= 57 {
        return None;
    }
    let third: u32 = (bytes[pos + 2] - 48) as u32;
    let value: u32 = first * 100 + second * 10 + third;
    if value > 255 {
        None
    } else {
        Some((value as u8, pos + 3))
    }
}

/// Reads the list of numbers that starts at `pos`.
fn read_list(bytes: &[u8], pos: usize) -> (r: Option<(Vec<u8>, usize)>)
    ensures
        match r {
            Some((values, close)) => list_at(bytes@, pos as int) == Some((values@, close as int))
                && close < bytes@.len(),
            None => list_at(bytes@, pos as int) is None,
        },
{
    if pos < bytes.len() && bytes[pos] == 93 {
        let values: Vec<u8> = Vec::new();
        assert(values@ =~= Seq::<u8>::empty());
        return Some((values, pos));
    }
    if pos >= bytes.len() {
        return None;
    }
    let mut values: Vec<u8> = Vec::new();
    let mut at: usize = pos;
    assert(values@ + numbers_at(bytes@, pos as int).unwrap().0 =~= numbers_at(
        bytes@,
        pos as int,
    ).unwrap().0);
    loop
        invariant
            at <= bytes@.len(),
            pos <= at,
            list_at(bytes@, pos as int) == numbers_at(bytes@, pos as int),
            numbers_at(bytes@, pos as int) == (match numbers_at(bytes@, at as int) {
                Some((rest, close)) => Some((values@ + rest, close)),
                None => None,
            }),
        decreases bytes@.len() - at,
    {
        match read_number(bytes, at) {
            None => {
                return None;
            },
            Some((value, end)) => {
                if end >= bytes.len() {
                    return None;
                } else if bytes[end] == 93 {
                    let ghost before = values@;
                    values.push(value);
                    assert(values@ =~= before + seq![value]);
                    return Some((values, end));
                } else if bytes[end] == 44 {
                    let ghost before = values@;
                    values.push(value);
                    proof {
                        match numbers_at(bytes@, end + 1) {
                            Some((rest, close)) => {
                                assert(before + (seq![value] + rest) =~= values@ + rest);
                            },
                            None => {},
                        }
                    }
                    at = end + 1;
                } else {
                    return None;
                }
            },
        }
    }
}

/// Tells whether `bytes` holds the head of a frame.
fn starts_with_head(bytes: &[u8]) -> (yes: bool)
    ensures
        yes == holds_at(bytes@, 0, frame_head()),
{
    if bytes.len() < 9 {
        return false;
    }
    let yes = bytes[0] == 123 && bytes[1] == 34 && bytes[2] == 115 && bytes[3] == 97 && bytes[4]
        == 108 && bytes[5] == 116 && bytes[6] == 34 && bytes[7] == 58 && bytes[8] == 91;
    proof {
        let part = bytes@.subrange(0, 9);
        if yes {
            assert(part =~= frame_head());
        } else {
            assert(part[0] == bytes@[0]);
            assert(part[1] == bytes@[1]);
            assert(part[2] == bytes@[2]);
            assert(part[3] == bytes@[3]);
            assert(part[4] == bytes@[4]);
            assert(part[5] == bytes@[5]);
            assert(part[6] == bytes@[6]);
            assert(part[7] == bytes@[7]);
            assert(part[8] == bytes@[8]);
        }
    }
    yes
}

/// Tells whether `bytes` holds the middle of a frame at `pos`.
fn middle_at(bytes: &[u8], pos: usize) -> (yes: bool)
    ensures
        yes == holds_at(bytes@, pos as int, frame_middle()),
        yes ==> pos + 12 <= bytes@.len(),
{
    if bytes.len() < 12 || pos > bytes.len() - 12 {
        return false;
    }
    let yes = bytes[pos] == 93 && bytes[pos + 1] == 44 && bytes[pos + 2] == 34 && bytes[pos + 3]
        == 101 && bytes[pos + 4] == 110 && bytes[pos + 5] == 116 && bytes[pos + 6] == 114
        && bytes[pos + 7] == 105 && bytes[pos + 8] == 101 && bytes[pos + 9] == 115 && bytes[pos
        + 10] == 34 && bytes[pos + 11] == 58;
    proof {
        let part = bytes@.subrange(pos as int, pos + 12);
        if yes {
            assert(part =~= frame_middle());
        } else {
            assert(part[0] == bytes@[pos + 0]);
            assert(part[1] == bytes@[pos + 1]);
            assert(part[2] == bytes@[pos + 2]);
            assert(part[3] == bytes@[pos + 3]);
            assert(part[4] == bytes@[pos + 4]);
            assert(part[5] == bytes@[pos + 5]);
            assert(part[6] == bytes@[pos + 6]);
            assert(part[7] == bytes@[pos + 7]);
            assert(part[8] == bytes@[pos + 8]);
            assert(part[9] == bytes@[pos + 9]);
            assert(part[10] == bytes@[pos + 10]);
            assert(part[11] == bytes@[pos + 11]);
        }
    }
    yes
}

/// Reads a frame: the salt and the serialized entries that it holds.
pub fn read_frame(bytes: &[u8]) -> (r: Option<(Vec<u8>, Vec<u8>)>)
    ensures
        match r {
            Some((salt, entries)) => parse_frame(bytes@) == Some((salt@, entries@)),
            None => parse_frame(bytes@) is None,
        },
{
    if !starts_with_head(bytes) {
        return None;
    }
    match read_list(bytes, 9) {
        None => None,
        Some((salt, close)) => {
            let has_middle = middle_at(bytes, close);
            let len = bytes.len();
            if has_middle {
                if close + 12 < len && bytes[len - 1] == 125 {
                    let entries = slice_to_vec(slice_subrange(bytes, close + 12, len - 1));
                    Some((salt, entries))
                } else {
                    None
                }
            } else {
                None
            }
        },
    }
}

/// What goes wrong with a vault.
#[derive(Debug)]
pub enum VaultError {
    /// The vault is locked: it has been idle for too long.
    VaultLocked,
    /// The vault is locked out: too many attempts have failed.
    LockedOut,
    /// An input that no caller should give.
    InvalidInput(String),
    /// The file does not open: the master password is wrong or the file is
    /// corrupted, and nothing tells which.
    InvalidData(String),
    /// The random source failed.
    Crypto(CryptoError),
}

/// The message of every failure to open a vault file.
pub open spec fn load_failure_message() -> Seq<char> {
    "Failed to decrypt vault - invalid master password or corrupted file"@
}

/// The format of a vault file.
#[derive(Debug, Clone, Copy, PartialEq, Eq, Structural)]
pub enum Format {
    /// The salt is held in the encrypted frame, with the entries.
    Current,
    /// The entries alone, under the salt that all old vaults share.
    Legacy,
}

/// What opening a vault file gives.
pub struct OpenedModel {
    pub format: Format,
    pub entries: Seq<u8>,
    pub salt: Seq<u8>,
}

/// What opening a vault file gives: the serialized entries and the salt of
/// the vault.
#[derive(Debug)]
pub struct Opened {
    pub format: Format,
    pub entries: Vec<u8>,
    pub salt: Vec<u8>,
    /// The warnings that the key derivations called for.
    pub warnings: Vec<String>,
}

/// What sealing a vault gives: the file, and the warning that the key
/// derivation called for.
#[derive(Debug)]
pub struct Sealed {
    pub blob: Vec<u8>,
    pub warning: Option<String>,
}

/// Each of the texts is the warning that some key derivation calls for.
pub open spec fn all_advice(warnings: Seq<String>) -> bool {
    forall|i: int| 0 <= i < warnings.len() ==> is_derivation_advice((#[trigger] warnings[i])@)
}

impl View for Opened {
    type V = OpenedModel;

    open spec fn view(&self) -> OpenedModel {
        OpenedModel { format: self.format, entries: self.entries@, salt: self.salt@ }
    }
}

/// The salt under which the shape of a file is probed: 32 zero bytes.
pub open spec fn placeholder_salt() -> Seq<u8> {
    Seq::new(32, |i: int| 0u8)
}

/// The salt that all vaults of the legacy format share:
/// `UniqueAppSaltV1Secure2024`.
pub open spec fn legacy_salt() -> Seq<u8> {
    seq![
        85u8, 110u8, 105u8, 113u8, 117u8, 101u8, 65u8, 112u8, 112u8, 83u8, 97u8, 108u8, 116u8,
        86u8, 49u8, 83u8, 101u8, 99u8, 117u8, 114u8, 101u8, 50u8, 48u8, 50u8, 52u8,
    ]
}

/// A key can be derived from a password and a salt under a configuration.
pub open spec fn derivable_with(password: Seq<char>, salt: Seq<u8>, config: Argon2Config) -> bool {
    derivable(password, salt) && config.is_valid()
}

/// What a vault file holds under the key that a password and a salt derive;
/// `None` where no key can be derived or the file does not decrypt.
pub open spec fn plaintext_under(
    password: Seq<char>,
    salt: Seq<u8>,
    blob: Seq<u8>,
    config: Argon2Config,
) -> Option<Seq<u8>> {
    if !derivable_with(password, salt, config) {
        None
    } else {
        match decryption(derived_key(password, salt, config), blob) {
            Decryption::Plaintext(plaintext) => Some(plaintext),
            _ => None,
        }
    }
}

/// What a file of the current format opens to: it decrypts to a frame under
/// the placeholder salt, and again under the salt that this frame holds.
pub open spec fn opened_as_current(password: Seq<char>, blob: Seq<u8>, config: Argon2Config) -> Option<
    OpenedModel,
> {
    match plaintext_under(password, placeholder_salt(), blob, config) {
        None => None,
        Some(probe) => match parse_frame(probe) {
            None => None,
            Some((salt, _)) => match plaintext_under(password, salt, blob, config) {
                None => None,
                Some(plaintext) => match parse_frame(plaintext) {
                    None => None,
                    Some((real_salt, entries)) => Some(
                        OpenedModel { format: Format::Current, entries, salt: real_salt },
                    ),
                },
            },
        },
    }
}

/// The serialized entries are a list: they start with an opening bracket.
pub open spec fn is_flat_list(plaintext: Seq<u8>) -> bool {
    plaintext.len() > 0 && plaintext[0] == 91
}

/// What a file of the legacy format opens to: it decrypts to a flat list of
/// entries under the legacy salt.
pub open spec fn opened_as_legacy(password: Seq<char>, blob: Seq<u8>, config: Argon2Config) -> Option<
    OpenedModel,
> {
    match plaintext_under(password, legacy_salt(), blob, config) {
        None => None,
        Some(plaintext) => if is_flat_list(plaintext) {
            Some(OpenedModel { format: Format::Legacy, entries: plaintext, salt: legacy_salt() })
        } else {
            None
        },
    }
}

/// What a vault file opens to: the current format is tried first, then the
/// legacy format.
pub open spec fn opened(password: Seq<char>, blob: Seq<u8>, config: Argon2Config) -> Option<
    OpenedModel,
> {
    match opened_as_current(password, blob, config) {
        Some(found) => Some(found),
        None => opened_as_legacy(password, blob, config),
    }
}

/// A salt and serialized entries can be sealed under a password: a key can
/// be derived, and the frame is one that the cipher takes.
pub open spec fn sealable(
    password: Seq<char>,
    salt: Seq<u8>,
    entries: Seq<u8>,
    config: Argon2Config,
) -> bool {
    derivable_with(password, salt, config) && encryptable(frame(salt, entries).len())
}

/// `blob` is a vault file for a salt and serialized entries under a
/// password: an encryption of their frame under the derived key.
pub open spec fn is_envelope_of(
    blob: Seq<u8>,
    password: Seq<char>,
    salt: Seq<u8>,
    entries: Seq<u8>,
    config: Argon2Config,
) -> bool {
    is_encryption_of(blob, derived_key(password, salt, config), frame(salt, entries))
}

/// A vault file opens to what was sealed in it where its key is the one
/// that the placeholder salt derives: the probe of the current format is
/// made under that key. Under any other key the probe fails, unless the
/// cipher is broken.
pub proof fn envelope_round_trip(
    password: Seq<char>,
    salt: Seq<u8>,
    entries: Seq<u8>,
    blob: Seq<u8>,
    config: Argon2Config,
)
    requires
        is_envelope_of(blob, password, salt, entries, config),
        derivable_with(password, salt, config),
        derived_key(password, salt, config) == derived_key(password, placeholder_salt(), config),
    ensures
        opened(password, blob, config) == Some(
            OpenedModel { format: Format::Current, entries, salt },
        ),
{
    frame_reads_back(salt, entries);
}

/// A vault that was sealed under the placeholder salt opens to what was
/// sealed.
pub proof fn placeholder_envelope_round_trip(
    password: Seq<char>,
    entries: Seq<u8>,
    blob: Seq<u8>,
    config: Argon2Config,
)
    requires
        is_envelope_of(blob, password, placeholder_salt(), entries, config),
        derivable_with(password, placeholder_salt(), config),
    ensures
        opened(password, blob, config) == Some(
            OpenedModel { format: Format::Current, entries, salt: placeholder_salt() },
        ),
{
    envelope_round_trip(password, placeholder_salt(), entries, blob, config);
}

/// A file that holds a flat list of entries under the legacy salt opens to
/// that list, where it does not open as the current format.
pub proof fn legacy_file_opens(
    password: Seq<char>,
    entries: Seq<u8>,
    blob: Seq<u8>,
    config: Argon2Config,
)
    requires
        derivable_with(password, legacy_salt(), config),
        is_encryption_of(blob, derived_key(password, legacy_salt(), config), entries),
        is_flat_list(entries),
        opened_as_current(password, blob, config) is None,
    ensures
        opened(password, blob, config) == Some(
            OpenedModel { format: Format::Legacy, entries, salt: legacy_salt() },
        ),
{
}

/// Once a vault of the legacy format has been saved, its file holds a
/// frame, and no longer opens as the legacy format.
pub proof fn saved_legacy_vault_is_upgraded(
    password: Seq<char>,
    entries: Seq<u8>,
    blob: Seq<u8>,
    config: Argon2Config,
)
    requires
        derivable_with(password, legacy_salt(), config),
        is_envelope_of(blob, password, legacy_salt(), entries, config),
    ensures
        plaintext_under(password, legacy_salt(), blob, config) == Some(
            frame(legacy_salt(), entries),
        ),
        opened_as_legacy(password, blob, config) is None,
{
    frame_reads_back(legacy_salt(), entries);
}

/// The placeholder salt.
fn placeholder() -> (salt: Vec<u8>)
    ensures
        salt@ == placeholder_salt(),
{
    let salt = vec![0u8; 32];
    assert(salt@ =~= placeholder_salt());
    salt
}

/// The legacy salt.
fn legacy() -> (salt: Vec<u8>)
    ensures
        salt@ == legacy_salt(),
{
    let table: [u8; 25] = [
        85, 110, 105, 113, 117, 101, 65, 112, 112, 83, 97, 108, 116, 86, 49, 83, 101, 99, 117, 114,
        101, 50, 48, 50, 52,
    ];
    let mut salt: Vec<u8> = Vec::new();
    salt.extend_from_slice(table.as_slice());
    assert(salt@ =~= legacy_salt());
    salt
}

/// Tells whether a key can be derived from a password and a salt under a
/// configuration.
pub fn can_derive_with(master_password: &str, salt: &[u8], config: &Argon2Config) -> (ok: bool)
    ensures
        ok == derivable_with(master_password@, salt@, *config),
{
    can_derive(master_password, salt) && config.check()
}

/// Decrypts a vault file under the key that a password and a salt derive,
/// and wipes the key. The warning that the derivation calls for joins
/// `warnings`.
fn decrypt_under(
    master_password: &str,
    salt: &[u8],
    blob: &[u8],
    config: &Argon2Config,
    warnings: &mut Vec<String>,
) -> (plaintext: Option<Vec<u8>>)
    requires
        all_advice(old(warnings)@),
    ensures
        (match plaintext {
            Some(p) => Some(p@),
            None => None,
        }) == plaintext_under(master_password@, salt@, blob@, *config),
        all_advice(final(warnings)@),
{
    if !can_derive_with(master_password, salt, config) {
        return None;
    }
    let (mut key, warning) = derive_key_timed(master_password, salt, config);
    match warning {
        Some(text) => {
            warnings.push(text);
        },
        None => {},
    }
    let outcome = decrypt(&key, blob);
    wipe_key(&mut key);
    match outcome {
        Ok(plaintext) => Some(plaintext),
        Err(_) => None,
    }
}

/// Seals a salt and serialized entries under a master password: their frame,
/// encrypted under the key that password and salt derive. The key is wiped
/// before the function returns.
pub fn seal_envelope(master_password: &str, salt: &[u8], entries: &[u8], config: &Argon2Config) -> (r:
    Result<Sealed, VaultError>)
    ensures
        match r {
            Ok(sealed) => {
                &&& sealable(master_password@, salt@, entries@, *config)
                &&& is_envelope_of(sealed.blob@, master_password@, salt@, entries@, *config)
                &&& sealed.warning matches Some(text) ==> is_derivation_advice(text@)
            },
            Err(VaultError::InvalidInput(_)) => !sealable(
                master_password@,
                salt@,
                entries@,
                *config,
            ),
            Err(VaultError::Crypto(e)) => sealable(master_password@, salt@, entries@, *config)
                && e is RandomSource,
            Err(_) => false,
        },
{
    if !can_derive(master_password, salt) {
        return Err(
            VaultError::InvalidInput(String::from_str("Salt must be at least 16 bytes for security")),
        );
    }
    if !config.check() {
        return Err(VaultError::InvalidInput(String::from_str("Invalid Argon2id parameters")));
    }
    let framed = build_frame(salt, entries);
    if !can_encrypt(framed.len()) {
        return Err(VaultError::InvalidInput(String::from_str("Vault too large to encrypt")));
    }
    let (mut key, warning) = derive_key_timed(master_password, salt, config);
    let outcome = encrypt(&key, framed.as_slice());
    wipe_key(&mut key);
    match outcome {
        Ok(blob) => Ok(Sealed { blob, warning }),
        Err(e) => Err(VaultError::Crypto(e)),
    }
}

/// Opens a vault file as the current format.
fn open_current(
    master_password: &str,
    blob: &[u8],
    config: &Argon2Config,
    warnings: &mut Vec<String>,
) -> (found: Option<(Vec<u8>, Vec<u8>)>)
    requires
        all_advice(old(warnings)@),
    ensures
        (match found {
            Some((salt, entries)) => Some(
                OpenedModel { format: Format::Current, entries: entries@, salt: salt@ },
            ),
            None => None,
        }) == opened_as_current(master_password@, blob@, *config),
        all_advice(final(warnings)@),
{
    let probe_salt = placeholder();
    let probe = match decrypt_under(master_password, probe_salt.as_slice(), blob, config, warnings) {
        Some(probe) => probe,
        None => {
            return None;
        },
    };
    let salt = match read_frame(probe.as_slice()) {
        Some((salt, _)) => salt,
        None => {
            return None;
        },
    };
    // Under the placeholder salt itself the probe is the plaintext.
    let plaintext = if constant_time_eq(salt.as_slice(), probe_salt.as_slice()) {
        probe
    } else {
        match decrypt_under(master_password, salt.as_slice(), blob, config, warnings) {
            Some(plaintext) => plaintext,
            None => {
                return None;
            },
        }
    };
    read_frame(plaintext.as_slice())
}

/// Opens a vault file as the legacy format.
fn open_legacy(
    master_password: &str,
    blob: &[u8],
    config: &Argon2Config,
    warnings: &mut Vec<String>,
) -> (found: Option<(Vec<u8>, Vec<u8>)>)
    requires
        all_advice(old(warnings)@),
    ensures
        (match found {
            Some((salt, entries)) => Some(
                OpenedModel { format: Format::Legacy, entries: entries@, salt: salt@ },
            ),
            None => None,
        }) == opened_as_legacy(master_password@, blob@, *config),
        all_advice(final(warnings)@),
{
    let salt = legacy();
    match decrypt_under(master_password, salt.as_slice(), blob, config, warnings) {
        Some(plaintext) => {
            if plaintext.len() > 0 && plaintext[0] == 91 {
                Some((salt, plaintext))
            } else {
                None
            }
        },
        None => None,
    }
}

/// The one failure of opening a vault file.
fn load_failure() -> (e: VaultError)
    ensures
        e matches VaultError::InvalidData(message) && message@ == load_failure_message(),
{
    VaultError::InvalidData(
        String::from_str("Failed to decrypt vault - invalid master password or corrupted file"),
    )
}

/// `r` is what opening a vault file comes to, where it opens to `found`:
/// that, with the warnings that the key derivations called for, or the one
/// failure.
pub open spec fn is_opening(r: Result<Opened, VaultError>, found: Option<OpenedModel>) -> bool {
    match r {
        Ok(opened) => found == Some(opened@) && all_advice(opened.warnings@),
        Err(VaultError::InvalidData(message)) => found is None && message@
            == load_failure_message(),
        Err(_) => false,
    }
}

/// Opens a vault file: as the current format, and where that fails as the
/// legacy format. Every failure is the same: nothing tells a wrong password
/// from a corrupted file.
pub fn open_envelope(master_password: &str, blob: &[u8], config: &Argon2Config) -> (r: Result<
    Opened,
    VaultError,
>)
    ensures
        is_opening(r, opened(master_password@, blob@, *config)),
{
    if blob.len() < NONCE_SIZE {
        return Err(load_failure());
    }
    let mut warnings: Vec<String> = Vec::new();
    match open_current(master_password, blob, config, &mut warnings) {
        Some((salt, entries)) => Ok(Opened { format: Format::Current, entries, salt, warnings }),
        None => match open_legacy(master_password, blob, config, &mut warnings) {
            Some((salt, entries)) => Ok(
                Opened { format: Format::Legacy, entries, salt, warnings },
            ),
            None => Err(load_failure()),
        },
    }
}

/// Opens a vault file as the legacy format alone: for a file of the current
/// format whose entries do not read.
pub fn open_legacy_envelope(master_password: &str, blob: &[u8], config: &Argon2Config) -> (r:
    Result<Opened, VaultError>)
    ensures
        is_opening(r, opened_as_legacy(master_password@, blob@, *config)),
{
    if blob.len() < NONCE_SIZE {
        return Err(load_failure());
    }
    let mut warnings: Vec<String> = Vec::new();
    match open_legacy(master_password, blob, config, &mut warnings) {
        Some((salt, entries)) => Ok(Opened { format: Format::Legacy, entries, salt, warnings }),
        None => Err(load_failure()),
    }
}

} // verus!
