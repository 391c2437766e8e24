use vstd::prelude::*;

verus! {

/// The set of strings that `uuid::Uuid::parse_str` accepts: hexadecimal UUID
/// text with optional hyphens, in any of the formats that crate understands.
pub uninterp spec fn is_uuid_text(s: Seq<char>) -> bool;

/// Relies on `uuid::Uuid::parse_str`: whether `s` is well-formed UUID text.
/// The outcome depends on the characters of `s` alone.
#[verifier::external_body]
pub(crate) fn is_valid_uuid(s: &str) -> (r: bool)
    ensures
        r == is_uuid_text(s@),
{
    uuid::Uuid::parse_str(s).is_ok()
}

/// Relies on `uuid::Uuid::new_v4` and its `Display` impl: a freshly drawn
/// random UUID rendered in the hyphenated form, which `parse_str` documents
/// it accepts. Nothing more can be promised of a random identifier.
#[verifier::external_body]
pub(crate) fn fresh_uuid() -> (r: String)
    ensures
        is_uuid_text(r@),
{
    uuid::Uuid::new_v4().to_string()
}

/// Relies on `chrono::Utc::now` and `DateTime::to_rfc3339`: the current
/// instant as ISO-8601 text. Nothing can be promised of a clock reading.
#[verifier::external_body]
pub(crate) fn now_iso() -> (r: String) {
    chrono::Utc::now().to_rfc3339()
}

/// What `str::to_lowercase` returns: the Unicode lowercase mapping of `s`,
/// a function of the characters of `s` alone.
pub uninterp spec fn lower_of(s: Seq<char>) -> Seq<char>;

/// Relies on `str::to_lowercase`: the result depends on the characters alone,
/// and lowercasing an empty string leaves it empty.
#[verifier::external_body]
pub(crate) fn lowercase(s: &str) -> (r: String)
    ensures
        r@ == lower_of(s@),
        s@.len() == 0 ==> r@.len() == 0,
{
    s.to_lowercase()
}

/// The opaque session document a project stores for its clients. The library
/// never looks inside one; it only stores and hands back whole values.
#[verifier::external_type_specification]
#[verifier::external_body]
pub struct ExValue(serde_json::Value);

} // verus!
