//! Keys of the content cache: a decompressed document is stored under the
//! hexadecimal BLAKE3 digest of the archive it came from.
use vstd::prelude::*;
use vstd::string::StringExecFns;

verus! {

/// The BLAKE3 digest of a byte sequence, in lowercase hexadecimal.
pub uninterp spec fn blake3_hex(data: Seq<u8>) -> Seq<char>;

pub open spec fn is_lower_hex(c: char) -> bool {
    ('0' <= c <= '9') || ('a' <= c <= 'f')
}

/// Relies on `blake3::hash` and `Hash::to_hex`: the 32-byte digest written as 64
/// lowercase hexadecimal digits.
#[verifier::external_body]
fn blake3_hex_digest(data: &[u8]) -> (r: String)
    ensures
        r@ == blake3_hex(data@),
        r@.len() == 64,
        forall|i: int| 0 <= i < r@.len() ==> is_lower_hex(#[trigger] r@[i]),
{
    blake3::hash(data).to_hex().to_string()
}

/// The cache key of an archive: the digest of its bytes.
pub fn cache_key(archive: &[u8]) -> (r: String)
    ensures
        r@ == blake3_hex(archive@),
        r@.len() == 64,
        forall|i: int| 0 <= i < r@.len() ==> is_lower_hex(#[trigger] r@[i]),
{
    blake3_hex_digest(archive)
}

/// The name of the cache file that holds the document for a key.
pub fn cache_file_name(key: &str) -> (r: String)
    ensures
        r@ == key@ + ".xml"@,
{
    let mut name = String::from_str(key);
    name.append(".xml");
    name
}

} // verus!
