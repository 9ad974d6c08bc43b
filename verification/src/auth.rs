//! Bearer-token authorization of the write endpoints.

use vstd::prelude::*;
use crate::error::Rejection;

verus! {

/// The `Authorization` header value, or the empty text when there is none.
pub open spec fn header_text(authorization: Option<&str>) -> Seq<char> {
    match authorization {
        Some(v) => v@,
        None => Seq::empty(),
    }
}

/// The request is authorized when its `Authorization` header is exactly
/// `Bearer <token>`.
pub open spec fn authorized(authorization: Option<&str>, token: Seq<char>) -> bool {
    header_text(authorization) == "Bearer "@ + token
}

/// Checks the `Authorization` header against the admin token: accepted exactly
/// when the header reads `Bearer <token>`, refused as unauthorized otherwise
/// (a missing header counts as an empty one).
pub fn check_auth(authorization: Option<&str>, token: &str) -> (r: Result<(), Rejection>)
    ensures
        r is Ok <==> authorized(authorization, token@),
        r is Ok <==> (authorization matches Some(h) && h@ == "Bearer "@ + token@) || (authorization is None
            && "Bearer "@ + token@ == Seq::<char>::empty()),
        r matches Err(e) ==> e == Rejection::Unauthorized,
{
    let mut expected = String::from_str("Bearer ");
    expected.append(token);
    let given = match authorization {
        Some(v) => String::from_str(v),
        None => String::new(),
    };
    if given == expected {
        Ok(())
    } else {
        Err(Rejection::Unauthorized)
    }
}

} // verus!
