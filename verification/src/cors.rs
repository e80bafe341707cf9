use vstd::prelude::*;

use crate::text::str_equal;

verus! {

/// Errors of the cross-origin configuration: a domain that is no legal
/// header value, or a wildcard buried in a domain list.
#[derive(Debug)]
pub enum CorsDomainError {
    InvalidHeader { domain: String },
    WildCardNotAllowed { input: String },
}

/// A validated cross-origin policy: every origin, or an explicit list of
/// origin domains.
#[derive(Debug)]
pub enum CorsOrigins {
    Any,
    List(Vec<String>),
}

/// Whether a byte may appear in a header value: horizontal tab or any byte
/// from 32 up, except delete.
pub open spec fn valid_header_byte(b: u8) -> bool {
    b == 9 || (b >= 32 && b != 127)
}

/// Whether every UTF-8 byte of the string is legal in a header value.
pub open spec fn valid_header_value(s: Seq<char>) -> bool {
    forall|i: int|
        0 <= i < vstd::utf8::encode_utf8(s).len() ==> valid_header_byte(
            #[trigger] vstd::utf8::encode_utf8(s)[i],
        )
}

/// Relies on http::HeaderValue::from_str: it succeeds exactly when every
/// byte of the string is a horizontal tab or lies in 32..=255 without 127.
#[verifier::external_body]
fn header_value_ok(domain: &str) -> (r: bool)
    ensures
        r == valid_header_value(domain@),
{
    http::HeaderValue::from_str(domain).is_ok()
}

/// Validates a list of origin domains, already split and trimmed by the
/// caller. A single `*` entry allows every origin. A `*` inside a longer
/// list is rejected, naming the wildcard. Otherwise every entry must be a
/// legal header value — the first that is not is rejected by name — and the
/// whole list comes back as the policy.
#[verifier::loop_isolation(false)]
pub fn validate_cors_domains(domains: Vec<String>) -> (r: Result<CorsOrigins, CorsDomainError>)
    ensures
        if domains@.len() == 1 && domains@[0]@ == "*"@ {
            r matches Ok(CorsOrigins::Any)
        } else if exists|j: int| 0 <= j < domains@.len() && (#[trigger] domains@[j])@ == "*"@ {
            r matches Err(CorsDomainError::WildCardNotAllowed { input }) && input@ == "*"@
        } else if exists|j: int|
            0 <= j < domains@.len() && !valid_header_value((#[trigger] domains@[j])@) {
            r matches Err(CorsDomainError::InvalidHeader { domain }) && exists|j: int|
                {
                    &&& 0 <= j < domains@.len()
                    &&& (#[trigger] domains@[j])@ == domain@
                    &&& !valid_header_value(domain@)
                    &&& forall|k: int| 0 <= k < j ==> valid_header_value((#[trigger] domains@[k])@)
                }
        } else {
            r matches Ok(CorsOrigins::List(list)) && list == domains
        },
{
    if domains.len() == 1 && str_equal(domains[0].as_str(), "*") {
        return Ok(CorsOrigins::Any);
    }
    let mut i: usize = 0;
    while i < domains.len() && !str_equal(domains[i].as_str(), "*")
        invariant
            i <= domains@.len(),
            forall|j: int| 0 <= j < i ==> (#[trigger] domains@[j])@ != "*"@,
        decreases domains@.len() - i,
    {
        i = i + 1;
    }
    if i < domains.len() {
        return Err(CorsDomainError::WildCardNotAllowed { input: domains[i].clone() });
    }
    let mut k: usize = 0;
    while k < domains.len() && header_value_ok(domains[k].as_str())
        invariant
            k <= domains@.len(),
            forall|j: int| 0 <= j < k ==> valid_header_value((#[trigger] domains@[j])@),
        decreases domains@.len() - k,
    {
        k = k + 1;
    }
    if k < domains.len() {
        proof {
            assert(!valid_header_value(domains@[k as int]@));
        }
        return Err(CorsDomainError::InvalidHeader { domain: domains[k].clone() });
    }
    Ok(CorsOrigins::List(domains))
}

} // verus!
