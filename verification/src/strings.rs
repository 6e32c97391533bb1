use vstd::prelude::*;

verus! {

/// All bytes are ASCII.
pub open spec fn ascii_seq(bytes: Seq<u8>) -> bool {
    forall|i: int| 0 <= i < bytes.len() ==> #[trigger] bytes[i] < 0x80
}

/// The bytes read as characters, one character per byte.
pub open spec fn ascii_chars(bytes: Seq<u8>) -> Seq<char> {
    bytes.map_values(|b: u8| b as char)
}

/// What `String::from_utf8_lossy` returns for the given bytes.
pub uninterp spec fn lossy_utf8(bytes: Seq<u8>) -> Seq<char>;

/// Relies on `String::from_utf8_lossy`: the result depends on the bytes
/// alone, and valid UTF-8 — in particular plain ASCII — is kept unchanged.
#[verifier::external_body]
pub fn lossy_string(bytes: &[u8]) -> (r: String)
    ensures
        r@ == lossy_utf8(bytes@),
        ascii_seq(bytes@) ==> r@ == ascii_chars(bytes@),
{
    String::from_utf8_lossy(bytes).into_owned()
}

/// What `String::from_utf8` returns for the given bytes when they are valid
/// UTF-8.
pub uninterp spec fn utf8_chars(bytes: Seq<u8>) -> Seq<char>;

/// Whether the bytes are valid UTF-8: the condition under which
/// `String::from_utf8` succeeds.
pub uninterp spec fn utf8_valid(bytes: Seq<u8>) -> bool;

/// Relies on `String::from_utf8`: it succeeds exactly on valid UTF-8, the
/// result depends on the bytes alone, and plain ASCII is valid and decodes
/// to itself, one character per byte.
#[verifier::external_body]
pub fn utf8_string(bytes: &[u8]) -> (r: Option<String>)
    ensures
        r is Some <==> utf8_valid(bytes@),
        r is Some ==> r->0@ == utf8_chars(bytes@),
        ascii_seq(bytes@) ==> r is Some && r->0@ == ascii_chars(bytes@),
{
    String::from_utf8(bytes.to_vec()).ok()
}

/// Relies on `memchr::memchr`: the index of the first occurrence of `needle`
/// in `haystack`, if there is one.
#[verifier::external_body]
pub fn find_byte(needle: u8, haystack: &[u8]) -> (r: Option<usize>)
    ensures
        match r {
            Some(i) => i < haystack@.len() && haystack@[i as int] == needle && forall|j: int|
                0 <= j < i ==> haystack@[j] != needle,
            None => forall|j: int| 0 <= j < haystack@.len() ==> haystack@[j] != needle,
        },
{
    memchr::memchr(needle, haystack)
}

} // verus!
