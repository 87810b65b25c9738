use crate::domain::User;
use crate::jwt::{verify_outcome, verify_token_at};
use crate::AppError;
use vstd::prelude::*;
use vstd::string::StringExecFns;

verus! {

/// Whether a header value uses the bearer scheme.
pub open spec fn has_bearer_prefix(h: Seq<char>) -> bool {
    h.len() >= 7 && h.subrange(0, 7) == "Bearer "@
}

/// The token a bearer header carries: everything after the scheme.
pub open spec fn bearer_token(h: Seq<char>) -> Seq<char> {
    h.skip(7)
}

/// The error for a request without usable credentials.
fn missing_credential_error() -> (e: AppError)
    ensures
        e.is_missing_credential(),
{
    AppError::AuthError(String::from_str("Missing authorization header"))
}

/// The token of a bearer header value, when it is one.
fn strip_bearer<'a>(h: &'a str) -> (r: Option<&'a str>)
    ensures
        match r {
            Some(t) => has_bearer_prefix(h@) && t@ == bearer_token(h@),
            None => !has_bearer_prefix(h@),
        },
{
    proof {
        reveal_strlit("Bearer ");
    }
    let n = h.unicode_len();
    if n < 7 {
        return None;
    }
    if h.get_char(0) == 'B' && h.get_char(1) == 'e' && h.get_char(2) == 'a' && h.get_char(3) == 'r'
        && h.get_char(4) == 'e' && h.get_char(5) == 'r' && h.get_char(6) == ' ' {
        proof {
            assert(h@.subrange(0, 7) =~= "Bearer "@);
        }
        Some(h.substring_char(7, n))
    } else {
        proof {
            if has_bearer_prefix(h@) {
                assert(h@[0] == "Bearer "@[0]) by {
                    assert(h@.subrange(0, 7)[0] == h@[0]);
                }
                assert(h@[1] == "Bearer "@[1]) by {
                    assert(h@.subrange(0, 7)[1] == h@[1]);
                }
                assert(h@[2] == "Bearer "@[2]) by {
                    assert(h@.subrange(0, 7)[2] == h@[2]);
                }
                assert(h@[3] == "Bearer "@[3]) by {
                    assert(h@.subrange(0, 7)[3] == h@[3]);
                }
                assert(h@[4] == "Bearer "@[4]) by {
                    assert(h@.subrange(0, 7)[4] == h@[4]);
                }
                assert(h@[5] == "Bearer "@[5]) by {
                    assert(h@.subrange(0, 7)[5] == h@[5]);
                }
                assert(h@[6] == "Bearer "@[6]) by {
                    assert(h@.subrange(0, 7)[6] == h@[6]);
                }
            }
        }
        None
    }
}

/// The request guard's decision from the raw Authorization header alone,
/// before any store access: a missing header or a foreign scheme is turned
/// away as lacking credentials, an unusable or expired token as invalid, and
/// only a token verifying at time `now` yields its subject, who is then the
/// only identity the request may look up.
pub fn authorize_header(header: Option<&str>, secret: &str, now: u64) -> (r: Result<
    u128,
    AppError,
>)
    ensures
        match header {
            None => r matches Err(e) && e.is_missing_credential(),
            Some(h) => if !has_bearer_prefix(h@) {
                r matches Err(e) && e.is_missing_credential()
            } else {
                match verify_outcome(bearer_token(h@), secret@, now) {
                    Some(c) => r matches Ok(s) && s == c.sub,
                    None => r matches Err(e) && e.is_invalid_token(),
                }
            },
        },
{
    let h = match header {
        Some(h) => h,
        None => {
            return Err(missing_credential_error());
        },
    };
    let token = match strip_bearer(h) {
        Some(t) => t,
        None => {
            return Err(missing_credential_error());
        },
    };
    match verify_token_at(token, secret, now) {
        Ok(claims) => Ok(claims.sub),
        Err(e) => Err(e),
    }
}

/// The guard's final step, after the one permitted lookup of the authorized
/// subject: a subject the store no longer knows is turned away, anyone else
/// is attached to the request.
pub fn resolve_subject(lookup: Option<User>) -> (r: Result<User, AppError>)
    ensures
        match lookup {
            Some(u) => r matches Ok(ru) && ru == u,
            None => r matches Err(e) && e.is_unknown_subject(),
        },
{
    match lookup {
        Some(u) => Ok(u),
        None => Err(AppError::AuthError(String::from_str("User not found"))),
    }
}

} // verus!
