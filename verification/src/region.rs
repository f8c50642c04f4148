//! Parsing the target region: the listing only accepts a region string
//! that the object-storage service knows as a bucket location
//! constraint, and rejects any other before the enumeration begins.

use vstd::prelude::*;

use crate::error::S3ExampleError;

verus! {

/// Whether the object-storage service knows this text as a bucket
/// location constraint.
pub uninterp spec fn is_known_region(s: Seq<char>) -> bool;

/// Relies on `aws_sdk_s3::types::BucketLocationConstraint::try_parse`:
/// it returns the constraint whose text is exactly the input when the
/// input is one of the location constraints the service knows, and an
/// `UnknownVariantError` (rendered here through its debug form, as the
/// caller reports it) otherwise. Which inputs parse depends on the
/// input alone.
#[verifier::external_body]
fn try_parse_region(s: &str) -> (r: Result<String, String>)
    ensures
        r is Ok <==> is_known_region(s@),
        r matches Ok(t) ==> t@ == s@,
{
    match aws_sdk_s3::types::BucketLocationConstraint::try_parse(s) {
        Ok(c) => Ok(c.as_str().to_string()),
        Err(e) => Err(format!("{e:?}")),
    }
}

/// Parses the target region, or reports the parse failure as the
/// uniform error.
pub fn parse_region(name: &String) -> (r: Result<String, S3ExampleError>)
    ensures
        r is Ok <==> is_known_region(name@),
        r matches Ok(t) ==> t@ == name@,
{
    match try_parse_region(name.as_str()) {
        Ok(t) => Ok(t),
        Err(msg) => Err(S3ExampleError::new(msg)),
    }
}

} // verus!
