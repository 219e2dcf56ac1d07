//! Commit identifiers and their hexadecimal spelling.

use vstd::prelude::*;

verus! {

/// The lowercase hexadecimal digit for a value below sixteen.
pub open spec fn hex_digit(nibble: int) -> char
    recommends
        0 <= nibble < 16,
{
    if nibble < 10 {
        ('0' as u8 + nibble) as char
    } else {
        ('a' as u8 + (nibble - 10)) as char
    }
}

/// Lowercase hexadecimal spelling of a byte string: two digits per byte,
/// the high half of each byte first.
pub open spec fn hex_lower(bytes: Seq<u8>) -> Seq<char> {
    Seq::new(
        2 * bytes.len(),
        |i: int|
            if i % 2 == 0 {
                hex_digit(bytes[i / 2] as int / 16)
            } else {
                hex_digit(bytes[i / 2] as int % 16)
            },
    )
}

/// Whether `c` is a digit or one of the letters `a` to `f`.
pub open spec fn is_lower_hex(c: char) -> bool {
    ('0' <= c && c <= '9') || ('a' <= c && c <= 'f')
}

/// The identifier that stands for "nothing has been built yet".
pub open spec fn zero_hash_spec() -> Seq<u8> {
    Seq::new(20, |i: int| 0u8)
}

/// Calls `hex::encode`, which spells every input byte as two characters
/// taken from `0123456789abcdef`, high half first, in input order.
#[verifier::external_body]
fn encode_hex(bytes: &[u8; 20]) -> (text: String)
    ensures
        text@ == hex_lower(bytes@),
{
    hex::encode(bytes)
}

/// The all-zero identifier a target starts with.
pub fn zero_hash() -> (hash: [u8; 20])
    ensures
        hash@ == zero_hash_spec(),
{
    let hash: [u8; 20] = [0u8; 20];
    assert(hash@ =~= zero_hash_spec());
    hash
}

/// Whether two identifiers hold the same bytes.
pub fn same_hash(left: &[u8; 20], right: &[u8; 20]) -> (same: bool)
    ensures
        same == (left@ == right@),
{
    let mut i: usize = 0;
    while i < 20
        invariant
            i <= 20,
            forall|k: int| 0 <= k < i ==> left@[k] == right@[k],
        decreases 20 - i,
    {
        if left[i] != right[i] {
            return false;
        }
        i += 1;
    }
    assert(left@ =~= right@);
    true
}

/// The forty-character lowercase hexadecimal spelling of a commit
/// identifier.
pub fn commit_hex(hash: &[u8; 20]) -> (text: String)
    ensures
        text@ == hex_lower(hash@),
        text@.len() == 40,
        forall|i: int| 0 <= i < 40 ==> is_lower_hex(#[trigger] text@[i]),
{
    let text = encode_hex(hash);
    proof {
        lemma_hex_lower_digits(hash@);
    }
    text
}

/// Reads a commit identifier out of a byte string. Succeeds exactly when
/// the string is twenty bytes long.
pub fn head_hash(bytes: &[u8]) -> (hash: Option<[u8; 20]>)
    ensures
        hash is Some <==> bytes@.len() == 20,
        hash matches Some(h) ==> h@ == bytes@,
{
    if bytes.len() != 20 {
        return None;
    }
    let mut out: [u8; 20] = [0u8; 20];
    let mut i: usize = 0;
    while i < 20
        invariant
            i <= 20,
            bytes@.len() == 20,
            forall|k: int| 0 <= k < i ==> out@[k] == bytes@[k],
        decreases 20 - i,
    {
        out[i] = bytes[i];
        i += 1;
    }
    assert(out@ =~= bytes@);
    Some(out)
}

/// Every character of a hexadecimal spelling is a lowercase hexadecimal
/// digit, and the spelling is twice as long as the bytes it spells.
pub proof fn lemma_hex_lower_digits(bytes: Seq<u8>)
    ensures
        hex_lower(bytes).len() == 2 * bytes.len(),
        forall|i: int| 0 <= i < 2 * bytes.len() ==> is_lower_hex(#[trigger] hex_lower(bytes)[i]),
{
    assert forall|i: int| 0 <= i < 2 * bytes.len() implies is_lower_hex(
        #[trigger] hex_lower(bytes)[i],
    ) by {
        let b = bytes[i / 2] as int;
        assert(0 <= b / 16 < 16);
        assert(0 <= b % 16 < 16);
    }
}

} // verus!
