use vstd::prelude::*;

use crate::errors::MountMateError;
use crate::text::concat;

verus! {

/// The textual form of a random (version 4) UUID: 36 characters, lower-case
/// hex digits in groups of 8-4-4-4-12 parted by `-`, version digit `4`.
pub open spec fn is_uuid_text(s: Seq<char>) -> bool {
    &&& s.len() == 36
    &&& forall|i: int|
        0 <= i < 36 ==> if i == 8 || i == 13 || i == 18 || i == 23 {
            #[trigger] s[i] == '-'
        } else {
            ('0' <= s[i] && s[i] <= '9') || ('a' <= s[i] && s[i] <= 'f')
        }
    &&& s[14] == '4'
    &&& s[19] == '8' || s[19] == '9' || s[19] == 'a' || s[19] == 'b'
}

/// The lower-case hex digit for `n` (`n < 16`).
pub open spec fn lower_hex(n: int) -> char {
    if n < 10 {
        ((n + 0x30) as u8) as char
    } else {
        ((n + 0x57) as u8) as char
    }
}

/// Sixteen random bytes with the version set to 4 (random) and the variant
/// to RFC 4122, as `uuid::Builder::from_random_bytes` sets them.
pub open spec fn v4_bytes(b: Seq<u8>) -> Seq<u8> {
    b.update(6, (b[6] & 0x0f) | 0x40).update(8, (b[8] & 0x3f) | 0x80)
}

/// The hex digit that the `i`-th character of the hyphenated form shows.
pub open spec fn nibble_index(i: int) -> int {
    if i < 8 {
        i
    } else if i < 13 {
        i - 1
    } else if i < 18 {
        i - 2
    } else if i < 23 {
        i - 3
    } else {
        i - 4
    }
}

/// The `i`-th character of the lower-case hyphenated form of the bytes `b`.
pub open spec fn hyphenated_char(b: Seq<u8>, i: int) -> char {
    if i == 8 || i == 13 || i == 18 || i == 23 {
        '-'
    } else {
        let j = nibble_index(i);
        let byte = b[j / 2];
        if j % 2 == 0 {
            lower_hex((byte / 16) as int)
        } else {
            lower_hex((byte % 16) as int)
        }
    }
}

/// The text of the version-4 UUID built from sixteen random bytes.
pub open spec fn uuid_v4_text(b: Seq<u8>) -> Seq<char> {
    Seq::new(36, |i: int| hyphenated_char(v4_bytes(b), i))
}

/// Sixteen bytes from the system's random source, or the text of its error.
///
/// Trusted: calls `getrandom::fill` on a 16-byte buffer (the source that
/// `uuid::Uuid::new_v4` uses). The bytes are random and the call can fail;
/// the contract claims nothing of either.
#[verifier::external_body]
fn random_bytes() -> (r: Result<[u8; 16], String>) {
    let mut bytes = [0u8; 16];
    match getrandom::fill(&mut bytes) {
        Ok(()) => Ok(bytes),
        Err(e) => Err(e.to_string()),
    }
}

/// The UUID text for sixteen random bytes.
///
/// Trusted: calls `uuid::Builder::from_random_bytes(..).into_uuid()` and
/// formats the UUID with `to_string`. The source sets the version nibble of
/// byte 6 to 4 and the two top bits of byte 8 to `10`, and `Display` writes
/// the lower-case hyphenated form; the contract states exactly that.
#[verifier::external_body]
fn uuid_text(bytes: [u8; 16]) -> (r: String)
    ensures
        r@ == uuid_v4_text(bytes@),
{
    uuid::Builder::from_random_bytes(bytes).into_uuid().to_string()
}

proof fn lemma_lower_hex(n: int)
    requires
        0 <= n < 16,
    ensures
        ('0' <= lower_hex(n) && lower_hex(n) <= '9') || ('a' <= lower_hex(n) && lower_hex(n) <= 'f'),
{
}

/// Every version-4 UUID text has the UUID shape.
pub proof fn lemma_uuid_v4_text_shape(b: Seq<u8>)
    requires
        b.len() == 16,
    ensures
        is_uuid_text(uuid_v4_text(b)),
{
    let v = v4_bytes(b);
    let s = uuid_v4_text(b);
    assert forall|i: int| 0 <= i < 36 implies if i == 8 || i == 13 || i == 18 || i == 23 {
        #[trigger] s[i] == '-'
    } else {
        ('0' <= s[i] && s[i] <= '9') || ('a' <= s[i] && s[i] <= 'f')
    } by {
        if !(i == 8 || i == 13 || i == 18 || i == 23) {
            let j = nibble_index(i);
            let byte = v[j / 2];
            lemma_lower_hex((byte / 16) as int);
            lemma_lower_hex((byte % 16) as int);
        }
    }
    let x6 = b[6];
    let x8 = b[8];
    assert(((x6 & 0x0f) | 0x40) / 16 == 4) by (bit_vector);
    assert(8 <= ((x8 & 0x3f) | 0x80) / 16 <= 11) by (bit_vector);
    assert(v[6] == (x6 & 0x0f) | 0x40);
    assert(v[8] == (x8 & 0x3f) | 0x80);
    assert(s[14] == lower_hex((v[6] / 16) as int));
    assert(s[19] == lower_hex((v[8] / 16) as int));
}

/// The start of the error text when no random bytes could be had.
pub open spec fn randomness_prefix() -> Seq<char> {
    "could not retrieve random bytes for uuid: "@
}

/// `e` is the error for a failed random source.
pub open spec fn is_randomness_error(e: MountMateError) -> bool {
    e matches MountMateError::Randomness(m) && randomness_prefix().is_prefix_of(m@)
}

/// A fresh random UUID in its textual form, or the error when the system's
/// random source fails.
pub fn new_uuid() -> (r: Result<String, MountMateError>)
    ensures
        match r {
            Ok(id) => is_uuid_text(id@),
            Err(e) => is_randomness_error(e),
        },
{
    match random_bytes() {
        Ok(bytes) => {
            let id = uuid_text(bytes);
            proof {
                lemma_uuid_v4_text_shape(bytes@);
            }
            Ok(id)
        },
        Err(e) => {
            let m = concat("could not retrieve random bytes for uuid: ", e.as_str());
            assert(randomness_prefix().is_prefix_of(m@)) by {
                assert(m@.subrange(0, randomness_prefix().len() as int) =~= randomness_prefix());
            }
            Err(MountMateError::Randomness(m))
        },
    }
}

} // verus!
