//! Job identifiers: canonical UUID strings.
//!
//! A job is identified by a 128-bit UUID rendered in its canonical
//! hyphenated lowercase form. Persistence units are named by that
//! string; unit names that do not parse as a UUID are not job ids.

use vstd::prelude::*;

verus! {

/// True of a character that may appear in a canonical UUID outside the
/// hyphen positions: a lowercase hexadecimal digit.
pub open spec fn is_lower_hex_digit(c: char) -> bool {
    ('0' <= c && c <= '9') || ('a' <= c && c <= 'f')
}

/// The canonical rendering of a UUID: 36 characters, hyphens at
/// positions 8, 13, 18 and 23, lowercase hexadecimal digits elsewhere.
pub open spec fn is_canonical_uuid(s: Seq<char>) -> bool {
    &&& s.len() == 36
    &&& forall|i: int|
        0 <= i < 36 ==> {
            if i == 8 || i == 13 || i == 18 || i == 23 {
                s[i] == '-'
            } else {
                is_lower_hex_digit(s[i])
            }
        }
}

/// Whether a string parses as a UUID. Parsing accepts the canonical
/// hyphenated form as well as the other renderings the uuid format
/// module produces (simple, braced, urn); it is a function of the
/// string alone.
pub uninterp spec fn uuid_parse_ok(s: Seq<char>) -> bool;

/// The canonical rendering of the UUID a string parses as; meaningful
/// only where `uuid_parse_ok` holds. A function of the string alone.
pub uninterp spec fn uuid_canonical_of(s: Seq<char>) -> Seq<char>;

/// Relies on `uuid::Uuid::parse_str` (accepts hexadecimal digits with
/// optional hyphens in the formats its fmt module produces, and is
/// deterministic in its input) and on `uuid::Uuid`'s `Display`, which
/// renders the hyphenated lowercase form. A string already in that
/// canonical form parses and renders back to itself.
#[verifier::external_body]
fn parse_and_canonicalize(s: &str) -> (r: Option<String>)
    ensures
        r is Some <==> uuid_parse_ok(s@),
        r matches Some(c) ==> c@ == uuid_canonical_of(s@) && is_canonical_uuid(c@),
        is_canonical_uuid(s@) ==> r is Some && r->0@ == s@,
{
    match uuid::Uuid::parse_str(s) {
        Ok(u) => Some(u.to_string()),
        Err(_) => None,
    }
}

/// A job identifier: a UUID held in canonical string form.
pub struct JobId {
    canonical: String,
}

impl JobId {
    /// The canonical string, as a sequence of characters.
    pub closed spec fn view(&self) -> Seq<char> {
        self.canonical@
    }

    /// A job id always holds a canonical UUID string.
    pub closed spec fn wf(&self) -> bool {
        is_canonical_uuid(self.canonical@)
    }

    /// Parses a job id from a string in any accepted UUID form,
    /// normalizing it to the canonical rendering. Returns `None`
    /// exactly when the string does not parse as a UUID.
    pub fn parse(s: &str) -> (r: Option<JobId>)
        ensures
            r is Some <==> uuid_parse_ok(s@),
            r matches Some(j) ==> j@ == uuid_canonical_of(s@) && j.wf() && is_canonical_uuid(j@),
            is_canonical_uuid(s@) ==> (r matches Some(j) && j@ == s@),
    {
        match parse_and_canonicalize(s) {
            Some(c) => Some(JobId { canonical: c }),
            None => None,
        }
    }

    /// The canonical string form of this job id.
    pub fn as_str(&self) -> (r: &str)
        ensures
            r@ == self@,
    {
        self.canonical.as_str()
    }

    /// An owned copy of the canonical string form.
    pub fn canonical_string(&self) -> (r: String)
        ensures
            r@ == self@,
    {
        self.canonical.clone()
    }
}

} // verus!
