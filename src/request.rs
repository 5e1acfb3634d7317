//! Validation of a direct request: every field must be present.

use vstd::prelude::*;

verus! {

/// The fields of a direct request.
pub struct Request {
    pub bucket: String,
    pub key: String,
    pub region: String,
    pub size: String,
}

/// The first field, in the order bucket, key, region, size, that is missing.
#[derive(Debug, Clone, Copy, PartialEq, Eq, Structural)]
pub enum RequestError {
    MissingBucket,
    MissingKey,
    MissingRegion,
    MissingSize,
}

/// The request of the given fields, or the first of them that is missing.
pub fn parse_request(
    bucket: Option<String>,
    key: Option<String>,
    region: Option<String>,
    size: Option<String>,
) -> (r: Result<Request, RequestError>)
    ensures
        match r {
            Ok(req) => bucket == Some(req.bucket) && key == Some(req.key) && region == Some(req.region)
                && size == Some(req.size),
            Err(e) => if bucket is None {
                e == RequestError::MissingBucket
            } else if key is None {
                e == RequestError::MissingKey
            } else if region is None {
                e == RequestError::MissingRegion
            } else {
                size is None && e == RequestError::MissingSize
            },
        },
{
    let bucket = match bucket {
        Some(b) => b,
        None => return Err(RequestError::MissingBucket),
    };
    let key = match key {
        Some(k) => k,
        None => return Err(RequestError::MissingKey),
    };
    let region = match region {
        Some(g) => g,
        None => return Err(RequestError::MissingRegion),
    };
    let size = match size {
        Some(s) => s,
        None => return Err(RequestError::MissingSize),
    };
    Ok(Request { bucket, key, region, size })
}

} // verus!
