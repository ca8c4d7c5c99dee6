use vstd::prelude::*;

verus! {

/// A lowercase hexadecimal digit.
pub open spec fn is_lower_hex(c: char) -> bool {
    ('0' <= c && c <= '9') || ('a' <= c && c <= 'f')
}

/// The text of a version-4 UUID in hyphenated form: 36 characters, hyphens
/// at 8, 13, 18 and 23, lowercase hexadecimal digits elsewhere, the version
/// digit `4` at 14 and the variant digit (one of `8`, `9`, `a`, `b`) at 19.
pub open spec fn uuid_text(s: Seq<char>) -> bool {
    &&& s.len() == 36
    &&& forall|i: int|
        0 <= i < 36 ==> if i == 8 || i == 13 || i == 18 || i == 23 {
            s[i] == '-'
        } else {
            is_lower_hex(#[trigger] s[i])
        }
    &&& s[14] == '4'
    &&& (s[19] == '8' || s[19] == '9' || s[19] == 'a' || s[19] == 'b')
}

/// Calls `uuid::Uuid::new_v4` and formats the UUID with `Display`, which
/// writes the hyphenated lowercase form. `new_v4` sets the version bits to 4
/// and the two top variant bits to `10`. The contract states that form, the
/// version digit and the variant digit; the value itself is random. (uuid panics only when the
/// system's random source fails.)
#[verifier::external_body]
fn fresh_uuid() -> (res: String)
    ensures
        uuid_text(res@),
{
    uuid::Uuid::new_v4().to_string()
}

/// A fresh random identifier (a version-4 UUID, hyphenated).
pub fn new_unique_id() -> (res: String)
    ensures
        uuid_text(res@),
{
    fresh_uuid()
}

} // verus!
